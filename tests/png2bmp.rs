use png2bmp::bmp::write_bmp_file;
use png2bmp::color::{peath_predictor, Color};
use png2bmp::convert::{bmp_from_inflated, convert_png_to_bmp};
use png2bmp::err::PngError;
use png2bmp::filter::apply_filter;
use png2bmp::ihdr::{ColorType, IHDR};
use png2bmp::pngfile::{parse_idat, read_png_file, Chunk, PngInfo};
use png2bmp::reader::WrapBufReader;

fn rgb_info(width: u32, height: u32) -> PngInfo {
    PngInfo { width, height, color_type: ColorType::RGB, bit_per_px: 24 }
}

fn channels(c: &Color) -> [u8; 3] {
    [c.r(&ColorType::RGB), c.g(&ColorType::RGB), c.b(&ColorType::RGB)]
}

fn ihdr_payload(width: u32, height: u32, depth: u8, color: u8, comp: u8, filt: u8, inter: u8) -> Vec<u8> {
    let mut v = Vec::new();
    v.extend_from_slice(&width.to_be_bytes());
    v.extend_from_slice(&height.to_be_bytes());
    v.extend_from_slice(&[depth, color, comp, filt, inter]);
    v
}

fn chunk(tag: &[u8], payload: &[u8]) -> Vec<u8> {
    let mut v = Vec::new();
    v.extend_from_slice(&(payload.len() as u32).to_be_bytes());
    v.extend_from_slice(tag);
    v.extend_from_slice(payload);
    v.extend_from_slice(&[0, 0, 0, 0]);
    v
}

const SIGNATURE: [u8; 8] = [0x89, 0x50, 0x4e, 0x47, 0x0d, 0x0a, 0x1a, 0x0a];

fn png_file(chunks: &[Vec<u8>]) -> Vec<u8> {
    let mut v = SIGNATURE.to_vec();
    for c in chunks {
        v.extend_from_slice(c);
    }
    v
}

fn paeth_ref(a: u8, b: u8, c: u8) -> u8 {
    let p = a as i32 + b as i32 - c as i32;
    let (pa, pb, pc) = ((p - a as i32).abs(), (p - b as i32).abs(), (p - c as i32).abs());
    if pa <= pb && pa <= pc {
        a
    } else if pb <= pc {
        b
    } else {
        c
    }
}

/// Encodes `raw` (rows of RGB pixels) with the given filter type per row.
fn filter_forward(raw: &[Vec<[u8; 3]>], types: &[u8]) -> Vec<Vec<[u8; 3]>> {
    let mut out = Vec::new();
    for y in 0..raw.len() {
        let mut row = Vec::new();
        for x in 0..raw[y].len() {
            let mut px = [0u8; 3];
            for i in 0..3 {
                let a = if x > 0 { raw[y][x - 1][i] } else { 0 };
                let b = if y > 0 { raw[y - 1][x][i] } else { 0 };
                let c = if x > 0 && y > 0 { raw[y - 1][x - 1][i] } else { 0 };
                let p = match types[y] {
                    1 => a,
                    2 => b,
                    3 => ((a as u16 + b as u16) / 2) as u8,
                    4 => paeth_ref(a, b, c),
                    _ => 0,
                };
                px[i] = raw[y][x][i].wrapping_sub(p);
            }
            row.push(px);
        }
        out.push(row);
    }
    out
}

fn to_colors(rows: &[Vec<[u8; 3]>]) -> Vec<Vec<Color>> {
    rows.iter().map(|r| r.iter().map(|p| Color::new(p.to_vec())).collect()).collect()
}

#[test]
fn filter_round_trip_every_type() {
    let mut seed: u32 = 12345;
    let mut next = || {
        seed = seed.wrapping_mul(1103515245).wrapping_add(12345);
        (seed >> 16) as u8
    };
    for pass in 0..20 {
        let (w, h) = (4usize, 5usize);
        let raw: Vec<Vec<[u8; 3]>> = (0..h).map(|_| (0..w).map(|_| [next(), next(), next()]).collect()).collect();
        let types: Vec<u8> = (0..h).map(|y| ((y + pass) % 5) as u8).collect();
        let mut idat = to_colors(&filter_forward(&raw, &types));
        apply_filter(&mut idat, types, &rgb_info(w as u32, h as u32)).unwrap();
        for y in 0..h {
            for x in 0..w {
                assert_eq!(channels(&idat[y][x]), raw[y][x]);
            }
        }
    }
}

#[test]
fn paeth_of_equal_neighbours() {
    for k in 0..=255u8 {
        assert_eq!(peath_predictor(k, k, k), k);
    }
}

#[test]
fn paeth_tie_breaks() {
    // p = 10 + 20 - 15 = 15: distances 5, 5, 0 -> c
    assert_eq!(peath_predictor(10, 20, 15), 15);
    // p = 10 + 10 - 0 = 20: distances 10, 10, 20 -> a beats b
    assert_eq!(peath_predictor(10, 10, 0), 10);
    // p = 0 + 30 - 10 = 20: distances 20, 10, 10 -> b beats c
    assert_eq!(peath_predictor(0, 30, 10), 30);
}

#[test]
fn average_predictor_floors() {
    let left = Color::new(vec![10, 10, 10]);
    let up = Color::new(vec![11, 11, 11]);
    let enc = Color::new(vec![0, 5, 250]);
    let out = enc.apply_avg(Some(&left), Some(&up));
    assert_eq!(channels(&out), [10, 15, 4]);
}

#[test]
fn sub_and_up_without_neighbours() {
    let enc = Color::new(vec![1, 2, 3]);
    assert_eq!(channels(&enc.apply_sub(None)), [1, 2, 3]);
    assert_eq!(channels(&enc.apply_up(None)), [1, 2, 3]);
    let left = Color::new(vec![255, 254, 0]);
    assert_eq!(channels(&enc.apply_sub(Some(&left))), [0, 0, 3]);
    assert_eq!(channels(&enc.apply_paeth(None, None, None)), [1, 2, 3]);
}

#[test]
fn uppercase_unknown_chunk_is_rejected() {
    match Chunk::new("PLTE".to_string(), vec![1, 2, 3]) {
        Err(e) => assert_eq!(e, PngError::UnsupportedChunk("PLTE".to_string())),
        Ok(_) => panic!("PLTE must be rejected"),
    }
}

#[test]
fn lowercase_unknown_chunk_is_kept() {
    match Chunk::new("bKGD".to_string(), vec![0, 0]) {
        Ok(Chunk::Unknown { name }) => assert_eq!(name, "bKGD"),
        _ => panic!("bKGD must be ignorable"),
    }
}

#[test]
fn chunk_name_of_wrong_length() {
    match Chunk::new("abc".to_string(), vec![]) {
        Err(e) => assert_eq!(e, PngError::InvalidChunkName("abc".to_string())),
        Ok(_) => panic!("a three-character tag must be rejected"),
    }
}

#[test]
fn text_chunk_decoding() {
    match Chunk::new("tEXt".to_string(), b"Title\0hi".to_vec()) {
        Ok(Chunk::tEXt(t)) => assert_eq!(t, "Title\0hi"),
        _ => panic!("text chunk expected"),
    }
    match Chunk::new("tEXt".to_string(), vec![0xff, 0xfe]) {
        Ok(Chunk::tEXt(t)) => assert_eq!(t, "parse error"),
        _ => panic!("text chunk expected"),
    }
    assert!(matches!(Chunk::new("sRGB".to_string(), vec![0]), Ok(Chunk::sRGB())));
    assert!(matches!(Chunk::new("IEND".to_string(), vec![]), Ok(Chunk::IEND)));
    match Chunk::new("IDAT".to_string(), vec![7, 8]) {
        Ok(Chunk::IDAT(d)) => assert_eq!(d, vec![7, 8]),
        _ => panic!("data chunk expected"),
    }
}

#[test]
fn header_field_errors() {
    let err = |p: Vec<u8>| match IHDR::new(p) {
        Err(e) => e,
        Ok(_) => panic!("header must be rejected"),
    };
    assert_eq!(err(ihdr_payload(1, 1, 16, 2, 0, 0, 0)), PngError::UnsupportedBitDepth(16));
    assert_eq!(err(ihdr_payload(1, 1, 8, 3, 0, 0, 0)), PngError::UnsupportedColorType(3));
    assert_eq!(err(ihdr_payload(1, 1, 8, 2, 1, 0, 0)), PngError::UnsupportedCompressionMethod(1));
    assert_eq!(err(ihdr_payload(1, 1, 8, 2, 0, 1, 0)), PngError::UnsupportedFilterMethod(1));
    assert_eq!(err(ihdr_payload(1, 1, 8, 6, 0, 0, 1)), PngError::UnsupportedInterlaceMethod(1));
    assert_eq!(err(vec![0, 0, 0, 1, 0]), PngError::TruncatedInput { expected: 8, actual: 5 });
}

#[test]
fn header_fields_decoded() {
    let h = IHDR::new(ihdr_payload(0x0102, 0x030405, 8, 6, 0, 0, 0)).unwrap();
    assert_eq!(h.width, 0x0102);
    assert_eq!(h.height, 0x030405);
    assert_eq!(h.bit_depth.val, 8);
    assert_eq!(h.color_type, ColorType::RGBA);
}

fn two_by_two() -> Vec<Vec<Color>> {
    vec![
        vec![Color::new(vec![255, 0, 0]), Color::new(vec![0, 255, 0])],
        vec![Color::new(vec![0, 0, 255]), Color::new(vec![255, 255, 255])],
    ]
}

fn expected_two_by_two_bmp() -> Vec<u8> {
    let mut v = vec![0x42, 0x4d, 66, 0, 0, 0, 0, 0, 0, 0, 54, 0, 0, 0];
    v.extend_from_slice(&[40, 0, 0, 0, 2, 0, 0, 0, 2, 0, 0, 0, 1, 0, 24, 0, 0, 0, 0, 0, 12, 0, 0, 0]);
    v.extend_from_slice(&[0; 16]);
    v.extend_from_slice(&[255, 0, 0, 255, 255, 255, 0, 0]);
    v.extend_from_slice(&[0, 0, 255, 0, 255, 0, 0, 0]);
    v
}

#[test]
fn bmp_of_two_by_two_rgb() {
    let bytes = write_bmp_file(&rgb_info(2, 2), two_by_two()).unwrap();
    assert_eq!(bytes, expected_two_by_two_bmp());
}

#[test]
fn bmp_drops_alpha() {
    let info = PngInfo { width: 1, height: 1, color_type: ColorType::RGBA, bit_per_px: 32 };
    let bytes = write_bmp_file(&info, vec![vec![Color::new(vec![1, 2, 3, 4])]]).unwrap();
    assert_eq!(bytes.len(), 54 + 4);
    assert_eq!(&bytes[2..6], &[57, 0, 0, 0]);
    assert_eq!(&bytes[34..38], &[3, 0, 0, 0]);
    assert_eq!(&bytes[54..], &[3, 2, 1, 0]);
}

#[test]
fn split_stream_into_rows() {
    let data = vec![0, 1, 2, 3, 4, 5, 6, 2, 7, 8, 9, 10, 11, 12, 99];
    let (rows, types) = parse_idat(&rgb_info(2, 2), data.clone()).unwrap();
    assert_eq!(types, vec![0, 2]);
    assert_eq!(channels(&rows[0][1]), [4, 5, 6]);
    assert_eq!(channels(&rows[1][0]), [7, 8, 9]);
    match parse_idat(&rgb_info(2, 2), data[..10].to_vec()) {
        Err(e) => assert_eq!(e, PngError::TruncatedInput { expected: 14, actual: 10 }),
        Ok(_) => panic!("short stream must be rejected"),
    }
}

#[test]
fn unknown_filter_type() {
    let mut idat = two_by_two();
    let r = apply_filter(&mut idat, vec![0, 5], &rgb_info(2, 2));
    assert_eq!(r, Err(PngError::UnsupportedFilterType(5)));
}

#[test]
fn inflated_stream_to_bmp() {
    let data = vec![0, 255, 0, 0, 0, 255, 0, 0, 0, 0, 255, 255, 255, 255];
    assert_eq!(bmp_from_inflated(&rgb_info(2, 2), data).unwrap(), expected_two_by_two_bmp());
}

fn two_by_two_png(extra: &[Vec<u8>]) -> Vec<u8> {
    let stream = vec![0, 255, 0, 0, 0, 255, 0, 0, 0, 0, 255, 255, 255, 255];
    let z = miniz_oxide::deflate::compress_to_vec_zlib(&stream, 6);
    let (a, b) = z.split_at(z.len() / 2);
    let mut chunks = vec![chunk(b"IHDR", &ihdr_payload(2, 2, 8, 2, 0, 0, 0))];
    chunks.extend_from_slice(extra);
    chunks.push(chunk(b"IDAT", a));
    chunks.push(chunk(b"IDAT", b));
    chunks.push(chunk(b"IEND", &[]));
    png_file(&chunks)
}

#[test]
fn end_to_end_two_by_two() {
    let png = two_by_two_png(&[chunk(b"bKGD", &[0, 0]), chunk(b"tEXt", b"a\0b"), chunk(b"sRGB", &[0])]);
    assert_eq!(convert_png_to_bmp(png).unwrap(), expected_two_by_two_bmp());
}

#[test]
fn reads_chunks_and_joins_data() {
    let png = png_file(&[
        chunk(b"IHDR", &ihdr_payload(3, 4, 8, 6, 0, 0, 0)),
        chunk(b"IDAT", &[1, 2]),
        chunk(b"bKGD", &[9]),
        chunk(b"IDAT", &[3]),
        chunk(b"IEND", &[]),
    ]);
    let mut reader = WrapBufReader::new(png);
    let (info, idat) = read_png_file(&mut reader).unwrap();
    assert_eq!((info.width, info.height, info.color_type, info.bit_per_px), (3, 4, ColorType::RGBA, 32));
    assert_eq!(idat, vec![1, 2, 3]);
}

fn read_err(png: Vec<u8>) -> PngError {
    match read_png_file(&mut WrapBufReader::new(png)) {
        Err(e) => e,
        Ok(_) => panic!("file must be rejected"),
    }
}

#[test]
fn file_level_errors() {
    assert_eq!(read_err(vec![0x89, 0x50, 0x4e, 0x47, 0, 0, 0, 0, 0]), PngError::NotAPngFile);
    assert_eq!(read_err(vec![0x89, 0x50]), PngError::TruncatedInput { expected: 8, actual: 2 });
    assert_eq!(read_err(png_file(&[chunk(b"IEND", &[])])), PngError::MissingHeader);
    assert_eq!(
        read_err(png_file(&[chunk(b"IHDR", &ihdr_payload(1, 1, 8, 2, 0, 0, 0)), chunk(b"PLTE", &[0, 0, 0])])),
        PngError::UnsupportedChunk("PLTE".to_string())
    );
    let mut cut = png_file(&[chunk(b"IHDR", &ihdr_payload(1, 1, 8, 2, 0, 0, 0))]);
    cut.truncate(8 + 10);
    assert_eq!(read_err(cut), PngError::TruncatedInput { expected: 8 + 8 + 13, actual: 18 });
    // four bytes that decode to three characters
    assert_eq!(
        read_err(png_file(&[chunk(&[0xc3, 0xa9, b'a', b'b'], &[])])),
        PngError::InvalidChunkName("\u{e9}ab".to_string())
    );
    // an invalid byte becomes a replacement character, which is not uppercase
    assert_eq!(
        read_err(png_file(&[chunk(&[0xff, b'a', b'b', b'c'], &[])])),
        PngError::TruncatedInput { expected: 24, actual: 20 }
    );
}

#[test]
fn corrupt_zlib_stream() {
    let png = png_file(&[
        chunk(b"IHDR", &ihdr_payload(1, 1, 8, 2, 0, 0, 0)),
        chunk(b"IDAT", &[1, 2, 3, 4]),
        chunk(b"IEND", &[]),
    ]);
    assert_eq!(convert_png_to_bmp(png), Err(PngError::DecompressionFailure));
}

#[test]
fn extra_filter_types_are_ignored() {
    let mut idat = vec![vec![Color::new(vec![1, 2, 3])], vec![Color::new(vec![1, 1, 1])]];
    apply_filter(&mut idat, vec![0, 2, 9], &rgb_info(1, 2)).unwrap();
    assert_eq!(channels(&idat[1][0]), [2, 3, 4]);
}

#[test]
fn bad_filter_type_keeps_earlier_rows() {
    let mut idat = vec![
        vec![Color::new(vec![1, 2, 3]), Color::new(vec![1, 1, 1])],
        vec![Color::new(vec![5, 5, 5]), Color::new(vec![6, 6, 6])],
    ];
    let r = apply_filter(&mut idat, vec![1, 7], &rgb_info(2, 2));
    assert_eq!(r, Err(PngError::UnsupportedFilterType(7)));
    assert_eq!(channels(&idat[0][1]), [2, 3, 4]);
    assert_eq!(channels(&idat[1][0]), [5, 5, 5]);
    assert_eq!(channels(&idat[1][1]), [6, 6, 6]);
}

#[test]
fn reader_stops_after_end_chunk() {
    let mut png = png_file(&[
        chunk(b"IHDR", &ihdr_payload(1, 1, 8, 2, 0, 0, 0)),
        chunk(b"IEND", &[]),
    ]);
    png.extend_from_slice(&[1, 2, 3]);
    let mut reader = WrapBufReader::new(png);
    read_png_file(&mut reader).unwrap();
    let rest = reader.read_len(3).unwrap();
    assert_eq!(rest, vec![1, 2, 3]);
}
