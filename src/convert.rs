use vstd::prelude::*;
use miniz_oxide::inflate::{decompress_to_vec_zlib, DecompressError};
use crate::bmp::{bmp_file, bmp_fits, write_bmp_file};
use crate::err::PngError;
use crate::filter::{apply_filter, lemma_recon_rows_len, recon_rows};
use crate::ihdr::ColorType;
use crate::pngfile::{
    parse_idat, png_error, png_parsed, raster_wf, read_png_file, stream_raster, stream_types, stride,
    PngInfo,
};
use crate::reader::WrapBufReader;

verus! {

/// The error of `miniz_oxide::inflate::decompress_to_vec_zlib`, carried
/// opaque and only told apart from success.
#[verifier::external_type_specification]
#[verifier::external_body]
pub struct ExDecompressError(DecompressError);

/// What zlib decompression makes of some bytes, or none where they are not
/// a valid zlib stream.
pub uninterp spec fn zlib_inflate(data: Seq<u8>) -> Option<Seq<u8>>;

/// Relies on `miniz_oxide::inflate::decompress_to_vec_zlib`: the whole
/// decompressed stream, with no size limit, or an error.
#[verifier::external_body]
fn inflate_zlib(data: &Vec<u8>) -> (r: Result<Vec<u8>, DecompressError>)
    ensures
        match r {
            Ok(v) => zlib_inflate(data@) == Some(v@),
            Err(_) => zlib_inflate(data@) is None,
        },
{
    decompress_to_vec_zlib(data.as_slice())
}

/// Whether `r` is what a `w` by `h` image of color type `ct` whose
/// decompressed stream is `raw` converts to.
pub open spec fn bmp_outcome(w: u32, h: u32, ct: ColorType, raw: Seq<u8>, r: Result<Vec<u8>, PngError>) -> bool {
    let n = ct.channels();
    let total = h * stride(w as nat, n);
    let types = stream_types(raw, h as nat, w as nat, n);
    let types_ok = forall|i: int| 0 <= i < h ==> types[i] <= 4;
    &&& raw.len() < total ==> r == Err::<Vec<u8>, PngError>(
        PngError::TruncatedInput { expected: total as u128, actual: raw.len() as u128 })
    &&& raw.len() >= total && types_ok && bmp_fits(w as int, h as int) ==> (r matches Ok(b)
        && b@ == bmp_file(w, h, recon_rows(stream_raster(raw, h as nat, w as nat, n), types, h as nat)))
    &&& raw.len() >= total && types_ok && !bmp_fits(w as int, h as int) ==> r == Err::<Vec<u8>, PngError>(
        PngError::ImageTooLarge)
    &&& raw.len() >= total && !types_ok ==> (r matches Err(e) && exists|k: int|
        0 <= k < h && types[k] > 4 && (forall|j: int| 0 <= j < k ==> types[j] <= 4)
            && e == PngError::UnsupportedFilterType(types[k]))
}

proof fn lemma_stream_wf(raw: Seq<u8>, h: nat, w: nat, n: nat)
    requires
        raw.len() >= h * stride(w, n),
    ensures
        raster_wf(stream_raster(raw, h, w, n), h, w, n),
{
    let r = stream_raster(raw, h, w, n);
    assert forall|y: int, x: int| 0 <= y < h && 0 <= x < w implies #[trigger] r[y][x].len() == n by {
        let st = stride(w, n);
        assert((x + 1) * n <= w * n) by (nonlinear_arith)
            requires x + 1 <= w;
        assert((y + 1) * st <= h * st) by (nonlinear_arith)
            requires y + 1 <= h;
        assert(y * st + 1 + x * n + n <= h * st) by (nonlinear_arith)
            requires (x + 1) * n <= w * n, (y + 1) * st <= h * st, st == 1 + w * n;
        assert(0 <= x * n) by (nonlinear_arith)
            requires 0 <= x;
        assert(0 <= y * st) by (nonlinear_arith)
            requires 0 <= y;
    }
}

/// Converts a decompressed pixel stream: splits it into rows, reverses each
/// row's filter, and encodes the result as a bitmap file.
pub fn bmp_from_inflated(png_info: &PngInfo, inflated: Vec<u8>) -> (r: Result<Vec<u8>, PngError>)
    requires
        png_info.wf(),
    ensures
        bmp_outcome(png_info.width, png_info.height, png_info.color_type, inflated@, r),
{
    let ghost raw = inflated@;
    let ghost h = png_info.height as nat;
    let ghost w = png_info.width as nat;
    let ghost n = png_info.px_bytes();
    let (mut idat, filter_types) = parse_idat(png_info, inflated)?;
    let ghost types = filter_types@;
    proof {
        lemma_stream_wf(raw, h, w, n);
    }
    apply_filter(&mut idat, filter_types, png_info)?;
    proof {
        lemma_recon_rows_len(stream_raster(raw, h, w, n), types, h);
    }
    write_bmp_file(png_info, idat)
}

/// Converts the bytes of a PNG file into the bytes of a bitmap file.
pub fn convert_png_to_bmp(png: Vec<u8>) -> (r: Result<Vec<u8>, PngError>)
    ensures
        match png_parsed(png@, 0) {
            None => (r matches Err(e) && png_error(png@, 0, e)),
            Some((w, h, ct, idat)) => match zlib_inflate(idat) {
                None => r == Err::<Vec<u8>, PngError>(PngError::DecompressionFailure),
                Some(raw) => bmp_outcome(w, h, ct, raw, r),
            },
        },
{
    let mut reader = WrapBufReader::new(png);
    let (png_info, idat) = read_png_file(&mut reader)?;
    let inflated = match inflate_zlib(&idat) {
        Ok(v) => v,
        Err(_) => {
            return Err(PngError::DecompressionFailure);
        },
    };
    bmp_from_inflated(&png_info, inflated)
}

} // verus!
