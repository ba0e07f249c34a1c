pub mod bmp;
pub mod color;
pub mod convert;
pub mod err;
pub mod filter;
pub mod ihdr;
pub mod pngfile;
pub mod reader;
