use vstd::prelude::*;

verus! {

/// Every way a conversion can fail.
#[derive(Debug, PartialEq, Eq)]
pub enum PngError {
    InvalidArgument,
    NotAPngFile,
    UnsupportedBitDepth(u8),
    UnsupportedColorType(u8),
    UnsupportedCompressionMethod(u8),
    UnsupportedFilterMethod(u8),
    UnsupportedInterlaceMethod(u8),
    UnsupportedFilterType(u8),
    UnsupportedChunk(String),
    /// A chunk tag that is not exactly four characters long.
    InvalidChunkName(String),
    /// The first chunk of the stream is not a header chunk.
    MissingHeader,
    DecompressionFailure,
    IOFailure(String),
    /// The input had to be at least `expected` bytes long but held `actual`.
    TruncatedInput { expected: u128, actual: u128 },
    /// The output does not fit the 32-bit size fields of a bitmap file.
    ImageTooLarge,
}

} // verus!
