use vstd::prelude::*;
use crate::color::{zeros, Color};
use crate::err::PngError;
use crate::pngfile::{raster_view, raster_wf, PngInfo};

verus! {

/// The two magic bytes "BM".
const BMP_FILE_TYPE: [u8; 2] = [0x42, 0x4d];
const BITS_PER_BYTE: usize = 8;
/// Bits per pixel of the output: alpha is always dropped.
const BMP_BITS_PER_PX: usize = 24;

/// `v` as four little-endian bytes.
pub open spec fn le32(v: int) -> Seq<u8> {
    seq![(v % 0x100) as u8, ((v / 0x100) % 0x100) as u8, ((v / 0x10000) % 0x100) as u8, ((v / 0x1000000) % 0x100) as u8]
}

/// Size in bytes of the two headers, where the pixel array starts.
pub open spec fn header_size() -> int {
    54int
}

/// The image data size field: `height * width * 24 / 8`.
pub open spec fn image_data_size(w: int, h: int) -> int {
    h * w * 24 / 8
}

/// Whether every size field of the output fits 32 bits.
pub open spec fn bmp_fits(w: int, h: int) -> bool {
    header_size() + image_data_size(w, h) <= u32::MAX
}

/// Bytes of one output row before padding.
pub open spec fn row_bytes(w: int) -> int {
    (24 * w + 7) / 8
}

/// Zero bytes after each row so that rows are a multiple of four bytes.
pub open spec fn padding(row_length: int) -> int {
    (4 - (row_length % 4)) % 4
}

/// The file header and the info header of a `w` by `h` image.
pub open spec fn bmp_header(w: u32, h: u32) -> Seq<u8> {
    let ids = image_data_size(w as int, h as int);
    seq![0x42u8, 0x4du8] + le32(header_size() + ids) + seq![0u8, 0u8, 0u8, 0u8] + le32(header_size())
        + le32(40) + le32(w as int) + le32(h as int) + seq![1u8, 0u8] + seq![24u8, 0u8] + le32(0)
        + le32(ids) + le32(0) + le32(0) + le32(0) + le32(0)
}

/// A row's pixels as blue, green, red bytes, alpha dropped.
pub open spec fn bgr_row(row: Seq<Seq<u8>>) -> Seq<u8>
    decreases row.len(),
{
    if row.len() == 0 {
        seq![]
    } else {
        let c = row.last();
        bgr_row(row.drop_last()) + seq![c[2], c[1], c[0]]
    }
}

/// The pixel array: rows from the last to the first, each padded with `pad`
/// zero bytes.
pub open spec fn bitmap(rows: Seq<Seq<Seq<u8>>>, pad: nat) -> Seq<u8>
    decreases rows.len(),
{
    if rows.len() == 0 {
        seq![]
    } else {
        bgr_row(rows.last()) + zeros(pad) + bitmap(rows.drop_last(), pad)
    }
}

/// The whole bitmap file for a raster of `w` by `h` pixels.
pub open spec fn bmp_file(w: u32, h: u32, rows: Seq<Seq<Seq<u8>>>) -> Seq<u8> {
    bmp_header(w, h) + bitmap(rows, padding(row_bytes(w as int)) as nat)
}

/// An output byte sink.
struct WrapBufWriter {
    inner: Vec<u8>,
}

impl WrapBufWriter {
    fn new() -> (r: WrapBufWriter)
        ensures
            r.inner@ == Seq::<u8>::empty(),
    {
        WrapBufWriter { inner: Vec::new() }
    }

    fn w_u32(&mut self, val: u32)
        ensures
            final(self).inner@ == old(self).inner@ + le32(val as int),
    {
        self.inner.push((val % 0x100) as u8);
        self.inner.push(((val / 0x100) % 0x100) as u8);
        self.inner.push(((val / 0x10000) % 0x100) as u8);
        self.inner.push(((val / 0x1000000) % 0x100) as u8);
        assert(self.inner@ =~= old(self).inner@ + le32(val as int));
    }

    fn write(&mut self, val: &[u8])
        ensures
            final(self).inner@ == old(self).inner@ + val@,
    {
        let ghost start = self.inner@;
        let n = val.len();
        for i in 0..n
            invariant
                n == val@.len(),
                self.inner@ == start + val@.take(i as int),
        {
            self.inner.push(val[i]);
            assert(self.inner@ =~= start + val@.take(i + 1));
        }
        assert(val@.take(n as int) =~= val@);
    }
}

fn calc_bmp_file_size(png_info: &PngInfo) -> (r: u32)
    requires
        bmp_fits(png_info.width as int, png_info.height as int),
    ensures
        r == header_size() + image_data_size(png_info.width as int, png_info.height as int),
{
    offset() + calc_image_data_size(png_info)
}

fn offset() -> (r: u32)
    ensures
        r == header_size(),
{
    14 + 40
}

fn calc_image_data_size(png_info: &PngInfo) -> (r: u32)
    requires
        bmp_fits(png_info.width as int, png_info.height as int),
    ensures
        r == image_data_size(png_info.width as int, png_info.height as int),
{
    let h = png_info.height as u128;
    let w = png_info.width as u128;
    assert(h * w <= 0xffff_ffff * 0xffff_ffff) by (nonlinear_arith)
        requires h <= 0xffff_ffff, w <= 0xffff_ffff;
    (h * w * BMP_BITS_PER_PX as u128 / BITS_PER_BYTE as u128) as u32
}

fn write_file_header(writer: &mut WrapBufWriter, png_info: &PngInfo)
    requires
        bmp_fits(png_info.width as int, png_info.height as int),
    ensures
        final(writer).inner@ == old(writer).inner@ + seq![0x42u8, 0x4du8]
            + le32(header_size() + image_data_size(png_info.width as int, png_info.height as int))
            + seq![0u8, 0u8, 0u8, 0u8] + le32(header_size()),
{
    writer.write(&BMP_FILE_TYPE);
    writer.w_u32(calc_bmp_file_size(png_info));
    writer.write(&[0x00, 0x00, 0x00, 0x00]);
    writer.w_u32(offset());
    assert(BMP_FILE_TYPE@ =~= seq![0x42u8, 0x4du8]);
}

fn write_info_header(writer: &mut WrapBufWriter, png_info: &PngInfo)
    requires
        bmp_fits(png_info.width as int, png_info.height as int),
    ensures
        final(writer).inner@ == old(writer).inner@ + le32(40) + le32(png_info.width as int)
            + le32(png_info.height as int) + seq![1u8, 0u8] + seq![24u8, 0u8] + le32(0)
            + le32(image_data_size(png_info.width as int, png_info.height as int)) + le32(0) + le32(0)
            + le32(0) + le32(0),
{
    // header size
    writer.w_u32(40);
    writer.w_u32(png_info.width);
    writer.w_u32(png_info.height);
    // planes, always one
    writer.write(&[0x01, 0x00]);
    // bits per pixel
    writer.write(&[24, 0]);
    // compression: none
    writer.w_u32(0);
    writer.w_u32(calc_image_data_size(png_info));
    // horizontal and vertical resolution: unspecified
    writer.w_u32(0);
    writer.w_u32(0);
    // palette colors and important colors: no palette
    writer.w_u32(0);
    writer.w_u32(0);
}

fn calc_padding_size(row_length: usize) -> (r: usize)
    ensures
        r == padding(row_length as int),
{
    (4 - (row_length % 4)) % 4
}

fn write_padding(writer: &mut WrapBufWriter, size: usize)
    ensures
        final(writer).inner@ == old(writer).inner@ + zeros(size as nat),
{
    let ghost start = writer.inner@;
    for i in 0..size
        invariant
            writer.inner@ == start + zeros(i as nat),
    {
        writer.write(&[0x00]);
        assert(writer.inner@ =~= start + zeros((i + 1) as nat));
    }
}

fn calc_row_bytes(png_info: &PngInfo) -> (r: usize)
    requires
        row_bytes(png_info.width as int) <= usize::MAX,
    ensures
        r == row_bytes(png_info.width as int),
{
    let w = png_info.width as u64;
    let bits: u64 = BMP_BITS_PER_PX as u64;
    let byte: u64 = BITS_PER_BYTE as u64;
    ((bits * w + (byte - 1)) / byte) as usize
}

fn write_bit_map_data(writer: &mut WrapBufWriter, image_data: Vec<Vec<Color>>, png_info: &PngInfo)
    requires
        bmp_fits(png_info.width as int, png_info.height as int),
        png_info.wf(),
        raster_wf(raster_view(image_data@), png_info.height as nat, png_info.width as nat, png_info.px_bytes()),
    ensures
        final(writer).inner@ == old(writer).inner@ + bitmap(
            raster_view(image_data@),
            padding(row_bytes(png_info.width as int)) as nat,
        ),
{
    if png_info.height == 0 {
        assert(raster_view(image_data@) =~= Seq::<Seq<Seq<u8>>>::empty());
        assert(writer.inner@ =~= old(writer).inner@ + Seq::<u8>::empty());
        return;
    }
    proof {
        let h = png_info.height as int;
        let w = png_info.width as int;
        assert(h * w * 24 / 8 == h * w * 3) by (nonlinear_arith);
        assert(w * 3 <= h * w * 3) by (nonlinear_arith)
            requires h >= 1, w >= 0;
        assert(row_bytes(w) == w * 3);
    }
    let row_size = calc_row_bytes(png_info);
    let padding_size = calc_padding_size(row_size);
    let ghost pad = padding_size as nat;
    let ghost whole = old(writer).inner@ + bitmap(raster_view(image_data@), pad);
    let mut image_data = image_data;
    while image_data.len() > 0
        invariant
            png_info.wf(),
            pad == padding_size,
            raster_wf(raster_view(image_data@), image_data@.len(), png_info.width as nat, png_info.px_bytes()),
            whole == writer.inner@ + bitmap(raster_view(image_data@), pad),
        decreases image_data@.len(),
    {
        let ghost rows = raster_view(image_data@);
        let row = image_data.pop().unwrap();
        assert(raster_view(image_data@) =~= rows.drop_last());
        assert(row_view_of(row@) == rows.last());
        let ghost start = writer.inner@;
        let n = row.len();
        assert forall|i: int| 0 <= i < n implies #[trigger] row@[i]@.len() == png_info.px_bytes() by {
            assert(row_view_of(row@)[i] == row@[i]@);
            assert(rows[rows.len() - 1][i].len() == png_info.px_bytes());
        }
        for x in 0..n
            invariant
                n == row@.len(),
                png_info.wf(),
                forall|i: int| 0 <= i < n ==> #[trigger] row@[i]@.len() == png_info.px_bytes(),
                writer.inner@ == start + bgr_row(row_view_of(row@).take(x as int)),
        {
            let c = &row[x];
            writer.write(&[c.b(&png_info.color_type)]);
            writer.write(&[c.g(&png_info.color_type)]);
            writer.write(&[c.r(&png_info.color_type)]);
            assert(row_view_of(row@).take(x + 1).drop_last() =~= row_view_of(row@).take(x as int));
            assert(writer.inner@ =~= start + bgr_row(row_view_of(row@).take(x + 1)));
        }
        assert(row_view_of(row@).take(n as int) =~= row_view_of(row@));
        write_padding(writer, padding_size);
        assert(whole =~= writer.inner@ + bitmap(raster_view(image_data@), pad));
    }
    assert(bitmap(raster_view(image_data@), pad) =~= Seq::<u8>::empty());
    assert(writer.inner@ =~= whole);
}

/// The channels of each pixel of a row.
pub open spec fn row_view_of(row: Seq<Color>) -> Seq<Seq<u8>> {
    Seq::new(row.len(), |i: int| row[i]@)
}

/// Encodes a reconstructed raster, top row first, as an uncompressed 24-bit
/// bitmap file: both headers, then the rows bottom-up in blue, green, red
/// order, each padded to a multiple of four bytes. Fails with
/// `ImageTooLarge` when a size field would not fit 32 bits.
pub fn write_bmp_file(png_info: &PngInfo, image_data: Vec<Vec<Color>>) -> (r: Result<Vec<u8>, PngError>)
    requires
        png_info.wf(),
        raster_wf(raster_view(image_data@), png_info.height as nat, png_info.width as nat, png_info.px_bytes()),
    ensures
        bmp_fits(png_info.width as int, png_info.height as int) ==> (r matches Ok(bytes)
            && bytes@ == bmp_file(png_info.width, png_info.height, raster_view(image_data@))),
        !bmp_fits(png_info.width as int, png_info.height as int) ==> r == Err::<Vec<u8>, PngError>(
            PngError::ImageTooLarge),
{
    let h = png_info.height as u128;
    let w = png_info.width as u128;
    assert(h * w <= 0xffff_ffff * 0xffff_ffff) by (nonlinear_arith)
        requires h <= 0xffff_ffff, w <= 0xffff_ffff;
    if 54 + h * w * 24 / 8 > 0xffff_ffff {
        return Err(PngError::ImageTooLarge);
    }
    let mut buf_writer = WrapBufWriter::new();
    write_file_header(&mut buf_writer, png_info);
    write_info_header(&mut buf_writer, png_info);
    let ghost rows = raster_view(image_data@);
    write_bit_map_data(&mut buf_writer, image_data, png_info);
    assert(buf_writer.inner@ =~= bmp_file(png_info.width, png_info.height, rows));
    Ok(buf_writer.inner)
}

} // verus!
