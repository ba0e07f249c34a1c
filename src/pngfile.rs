use vstd::prelude::*;
use crate::color::Color;
use crate::err::PngError;
use crate::ihdr::{be_u32, ihdr_of, truncated, BitDepth, ColorType, IHDR};
use crate::reader::{utf8_lossy, WrapBufReader};
use vstd::utf8::{decode_utf8, valid_utf8};

verus! {

/// Geometry and color model of the image, as read from its header.
pub struct PngInfo {
    pub width: u32,
    pub height: u32,
    pub color_type: ColorType,
    pub bit_per_px: usize,
}

impl PngInfo {
    /// Bits per pixel agree with 8-bit samples of the color type.
    pub open spec fn wf(&self) -> bool {
        self.bit_per_px == 8 * self.color_type.channels()
    }

    /// Bytes per pixel.
    pub open spec fn px_bytes(&self) -> nat {
        self.color_type.channels()
    }

    pub fn new(ihdr: IHDR) -> (r: PngInfo)
        requires
            ihdr.bit_depth.val == 8,
        ensures
            r.wf(),
            r.width == ihdr.width,
            r.height == ihdr.height,
            r.color_type == ihdr.color_type,
    {
        PngInfo {
            width: ihdr.width,
            height: ihdr.height,
            bit_per_px: PngInfo::calc_bits_per_px(&ihdr.color_type, &ihdr.bit_depth),
            color_type: ihdr.color_type,
        }
    }

    pub fn calc_bits_per_px(color_type: &ColorType, bit_depth: &BitDepth) -> (r: usize)
        ensures
            r == bit_depth.val * color_type.channels(),
    {
        match color_type {
            ColorType::RGB => bit_depth.val as usize * 3,
            ColorType::RGBA => bit_depth.val as usize * 4,
        }
    }
}

/// The channels of every pixel of a raster, row by row.
pub open spec fn raster_view(idat: Seq<Vec<Color>>) -> Seq<Seq<Seq<u8>>> {
    Seq::new(idat.len(), |y: int| Seq::new(idat[y]@.len(), |x: int| idat[y]@[x]@))
}

/// `h` rows of `w` pixels of `n` channels each.
pub open spec fn raster_wf(r: Seq<Seq<Seq<u8>>>, h: nat, w: nat, n: nat) -> bool {
    &&& r.len() == h
    &&& forall|y: int| 0 <= y < h ==> #[trigger] r[y].len() == w
    &&& forall|y: int, x: int| 0 <= y < h && 0 <= x < w ==> #[trigger] r[y][x].len() == n
}

/// Bytes of one row of the decompressed stream: its filter type byte, then
/// `w` pixels of `n` bytes.
pub open spec fn stride(w: nat, n: nat) -> nat {
    1 + w * n
}

/// The channels of pixel `(y, x)` in a decompressed stream.
pub open spec fn stream_px(data: Seq<u8>, w: nat, n: nat, y: int, x: int) -> Seq<u8> {
    let p = y * stride(w, n) + 1 + x * n;
    data.subrange(p, p + n)
}

/// The raster that a decompressed stream holds, `h` rows of `w` pixels.
pub open spec fn stream_raster(data: Seq<u8>, h: nat, w: nat, n: nat) -> Seq<Seq<Seq<u8>>> {
    Seq::new(h, |y: int| Seq::new(w, |x: int| stream_px(data, w, n, y, x)))
}

/// The filter type byte of each of `h` rows of a decompressed stream.
pub open spec fn stream_types(data: Seq<u8>, h: nat, w: nat, n: nat) -> Seq<u8> {
    Seq::new(h, |y: int| data[y * stride(w, n)])
}

/// The next `len` bytes from `pos`.
fn iter_num_next(data: &Vec<u8>, pos: usize, len: usize) -> (r: Vec<u8>)
    requires
        pos + len <= data@.len(),
    ensures
        r@ == data@.subrange(pos as int, pos + len),
{
    let dl = data.len();
    let mut result: Vec<u8> = Vec::with_capacity(len);
    for i in 0..len
        invariant
            dl == data@.len(),
            pos + len <= data@.len(),
            result@ == data@.subrange(pos as int, pos + i),
    {
        result.push(data[pos + i]);
        assert(result@ =~= data@.subrange(pos as int, pos + i + 1));
    }
    result
}

/// Splits a decompressed stream into its rows' filter types and a raster of
/// pixels, top row first. Bytes after the last row are ignored.
pub fn parse_idat(png_info: &PngInfo, data: Vec<u8>) -> (r: Result<(Vec<Vec<Color>>, Vec<u8>), PngError>)
    requires
        png_info.wf(),
    ensures
        ({
            let h = png_info.height as nat;
            let w = png_info.width as nat;
            let n = png_info.px_bytes();
            let total = h * stride(w, n);
            &&& data@.len() >= total ==> (r matches Ok((rows, types))
                && raster_view(rows@) == stream_raster(data@, h, w, n)
                && types@ == stream_types(data@, h, w, n))
            &&& data@.len() < total ==> r == Err::<(Vec<Vec<Color>>, Vec<u8>), PngError>(
                PngError::TruncatedInput { expected: total as u128, actual: data@.len() as u128 })
        }),
{
    let ghost h = png_info.height as nat;
    let ghost w = png_info.width as nat;
    let n: usize = match png_info.color_type {
        ColorType::RGB => 3,
        ColorType::RGBA => 4,
    };
    assert(n == png_info.px_bytes());
    let ghost st = stride(w, n as nat);
    let wu = png_info.width as u128;
    let hu = png_info.height as u128;
    assert(wu * (n as u128) <= 0x4_0000_0000) by (nonlinear_arith)
        requires wu <= 0xffff_ffff, n <= 4;
    let wide: u128 = wu * n as u128;
    assert(hu * (1 + wide) <= 0x5_0000_0000 * 0x1_0000_0000) by (nonlinear_arith)
        requires hu <= 0xffff_ffff, wide <= 0x4_0000_0000;
    let total: u128 = hu * (1 + wide);
    assert(total == h * st) by (nonlinear_arith)
        requires wide == w * n, total == h * (1 + wide), st == 1 + w * n;
    if (data.len() as u128) < total {
        return Err(PngError::TruncatedInput { expected: total, actual: data.len() as u128 });
    }
    let dl = data.len();
    let mut filter_types: Vec<u8> = Vec::new();
    let mut image_data: Vec<Vec<Color>> = Vec::with_capacity(png_info.height as usize);
    let mut pos: usize = 0;
    assert(0 * st == 0);
    for y in 0..png_info.height
        invariant
            h == png_info.height,
            w == png_info.width,
            n == png_info.px_bytes(),
            st == stride(w, n as nat),
            data@.len() >= h * st,
            dl == data@.len(),
            pos == y * st,
            image_data@.len() == y,
            raster_view(image_data@) == stream_raster(data@, h, w, n as nat).take(y as int),
            filter_types@ == stream_types(data@, h, w, n as nat).take(y as int),
    {
        assert((y + 1) * st <= h * st) by (nonlinear_arith)
            requires y + 1 <= h;
        assert((y + 1) * st == y * st + st) by (nonlinear_arith);
        filter_types.push(data[pos]);
        let ghost row_start = pos;
        pos = pos + 1;
        let mut row: Vec<Color> = Vec::with_capacity(png_info.width as usize);
        assert(0 * (n as int) == 0);
        assert(data@.len() >= row_start + st);
        for x in 0..png_info.width
            invariant
                h == png_info.height,
                w == png_info.width,
                n == png_info.px_bytes(),
                st == stride(w, n as nat),
                y < h,
                data@.len() >= row_start + st,
                dl == data@.len(),
                row_start == y * st,
                pos == row_start + 1 + x * n,
                row@.len() == x,
                forall|i: int| 0 <= i < x ==> #[trigger] row@[i]@ == stream_px(data@, w, n as nat, y as int, i),
        {
            assert((x + 1) * n <= w * n) by (nonlinear_arith)
                requires x + 1 <= w;
            assert((x + 1) * n == x * n + n) by (nonlinear_arith);
            let color = Color::new(iter_num_next(&data, pos, n));
            row.push(color);
            pos = pos + n;
        }
        assert(pos == row_start + st);
        let ghost before = raster_view(image_data@);
        let ghost old_rows = image_data@;
        image_data.push(row);
        assert(raster_view(image_data@)[y as int] =~= stream_raster(data@, h, w, n as nat)[y as int]);
        assert forall|k: int| 0 <= k < y implies raster_view(image_data@)[k] == before[k] by {
            assert(image_data@[k] == old_rows[k]);
        }
        assert(raster_view(image_data@) =~= stream_raster(data@, h, w, n as nat).take(y + 1));
        assert(filter_types@ =~= stream_types(data@, h, w, n as nat).take(y + 1));
    }
    assert(raster_view(image_data@) =~= stream_raster(data@, h, w, n as nat));
    assert(filter_types@ =~= stream_types(data@, h, w, n as nat));
    Ok((image_data, filter_types))
}

/// Whether a character has the Unicode uppercase property.
pub uninterp spec fn is_upper(c: char) -> bool;

/// Relies on `char::is_uppercase`: ASCII capitals are uppercase, ASCII
/// small letters are not.
#[verifier::external_body]
fn char_is_uppercase(c: char) -> (r: bool)
    ensures
        r == is_upper(c),
        'A' <= c <= 'Z' ==> r,
        'a' <= c <= 'z' ==> !r,
{
    c.is_uppercase()
}

/// Relies on `String::from_utf8`: it succeeds exactly on valid UTF-8, with
/// the characters it encodes.
#[verifier::external_body]
fn utf8_text(b: Vec<u8>) -> (r: Option<String>)
    ensures
        r is Some <==> valid_utf8(b@),
        r matches Some(s) ==> s@ == decode_utf8(b@),
{
    String::from_utf8(b).ok()
}

pub open spec fn tag_ihdr() -> Seq<char> {
    seq!['I', 'H', 'D', 'R']
}

pub open spec fn tag_idat() -> Seq<char> {
    seq!['I', 'D', 'A', 'T']
}

pub open spec fn tag_iend() -> Seq<char> {
    seq!['I', 'E', 'N', 'D']
}

pub open spec fn tag_srgb() -> Seq<char> {
    seq!['s', 'R', 'G', 'B']
}

pub open spec fn tag_text() -> Seq<char> {
    seq!['t', 'E', 'X', 't']
}

/// The text that stands for a text chunk that is not valid UTF-8.
pub open spec fn parse_error_text() -> Seq<char> {
    seq!['p', 'a', 'r', 's', 'e', ' ', 'e', 'r', 'r', 'o', 'r']
}

/// Whether a character counts as uppercase: ASCII capitals do, ASCII small
/// letters do not, and any other character by its Unicode property.
pub open spec fn upper_char(c: char) -> bool {
    if 'A' <= c <= 'Z' {
        true
    } else if 'a' <= c <= 'z' {
        false
    } else {
        is_upper(c)
    }
}

/// What a chunk stands for.
pub enum ChunkKind {
    /// Width, height, color type and bit depth.
    Header(u32, u32, ColorType, u8),
    Data(Seq<u8>),
    End,
    Srgb,
    Text(Seq<char>),
    Ancillary(Seq<char>),
}

/// One chunk of the file.
#[allow(non_camel_case_types)]
pub enum Chunk {
    IHDR(IHDR),
    IDAT(Vec<u8>),
    IEND,
    sRGB(),
    tEXt(String),
    Unknown { name: String },
}

impl View for Chunk {
    type V = ChunkKind;

    open spec fn view(&self) -> ChunkKind {
        match self {
            Chunk::IHDR(h) => ChunkKind::Header(h.width, h.height, h.color_type, h.bit_depth.val),
            Chunk::IDAT(d) => ChunkKind::Data(d@),
            Chunk::IEND => ChunkKind::End,
            Chunk::sRGB() => ChunkKind::Srgb,
            Chunk::tEXt(t) => ChunkKind::Text(t@),
            Chunk::Unknown { name } => ChunkKind::Ancillary(name@),
        }
    }
}

/// What a chunk with tag `name` and payload `data` stands for, or none
/// where it is rejected.
pub open spec fn chunk_kind(name: Seq<char>, data: Seq<u8>) -> Option<ChunkKind> {
    if name == tag_ihdr() {
        match ihdr_of(data) {
            Ok(v) => Some(ChunkKind::Header(v.0, v.1, v.2, 8)),
            Err(_) => None,
        }
    } else if name == tag_idat() {
        Some(ChunkKind::Data(data))
    } else if name == tag_iend() {
        Some(ChunkKind::End)
    } else if name == tag_srgb() {
        Some(ChunkKind::Srgb)
    } else if name == tag_text() {
        Some(ChunkKind::Text(if valid_utf8(data) { decode_utf8(data) } else { parse_error_text() }))
    } else if name.len() != 4 {
        None
    } else if upper_char(name[0]) {
        None
    } else {
        Some(ChunkKind::Ancillary(name))
    }
}

/// Whether `e` is the error for a chunk that `chunk_kind` rejects.
pub open spec fn chunk_rejects(name: Seq<char>, data: Seq<u8>, e: PngError) -> bool {
    if name == tag_ihdr() {
        ihdr_of(data) == Err::<(u32, u32, ColorType), PngError>(e)
    } else if name.len() != 4 {
        e matches PngError::InvalidChunkName(n) && n@ == name
    } else {
        e matches PngError::UnsupportedChunk(n) && n@ == name
    }
}

fn has_tag(name: &String, tag: &str) -> (r: bool)
    ensures
        r == (name@ == tag@),
{
    let t = tag.to_owned();
    name.eq(&t)
}

impl Chunk {
    /// Classifies a chunk by its tag. Unknown tags are ignorable when their
    /// first character is not uppercase and rejected when it is.
    pub fn new(name: String, data: Vec<u8>) -> (r: Result<Self, PngError>)
        ensures
            match chunk_kind(name@, data@) {
                Some(k) => (r matches Ok(c) && c@ == k),
                None => (r matches Err(e) && chunk_rejects(name@, data@, e)),
            },
    {
        proof {
            reveal_strlit("IHDR");
            reveal_strlit("IDAT");
            reveal_strlit("IEND");
            reveal_strlit("sRGB");
            reveal_strlit("tEXt");
            reveal_strlit("parse error");
            assert("IHDR"@ =~= tag_ihdr());
            assert("IDAT"@ =~= tag_idat());
            assert("IEND"@ =~= tag_iend());
            assert("sRGB"@ =~= tag_srgb());
            assert("tEXt"@ =~= tag_text());
            assert("parse error"@ =~= parse_error_text());
        }
        if has_tag(&name, "IHDR") {
            return Ok(Self::IHDR(IHDR::new(data)?));
        }
        if has_tag(&name, "IDAT") {
            return Ok(Self::IDAT(data));
        }
        if has_tag(&name, "IEND") {
            return Ok(Self::IEND);
        }
        if has_tag(&name, "sRGB") {
            return Ok(Self::sRGB());
        }
        if has_tag(&name, "tEXt") {
            let text = match utf8_text(data) {
                Some(text) => text,
                None => "parse error".to_owned(),
            };
            return Ok(Self::tEXt(text));
        }
        if name.as_str().unicode_len() != 4 {
            return Err(PngError::InvalidChunkName(name));
        }
        if char_is_uppercase(name.as_str().get_char(0)) {
            return Err(PngError::UnsupportedChunk(name));
        }
        Ok(Self::Unknown { name })
    }
}

/// The eight bytes that open every PNG file.
const PNG_SIGNATURE: [u8; 8] = [0x89, 0x50, 0x4e, 0x47, 0x0d, 0x0a, 0x1a, 0x0a];

pub open spec fn png_signature() -> Seq<u8> {
    seq![0x89u8, 0x50u8, 0x4eu8, 0x47u8, 0x0du8, 0x0au8, 0x1au8, 0x0au8]
}

/// The payload length of the chunk at `p`.
pub open spec fn chunk_len(s: Seq<u8>, p: int) -> int {
    be_u32(s, p) as int
}

/// Where the chunk at `p` ends: length, tag, payload and checksum.
pub open spec fn chunk_end(s: Seq<u8>, p: int) -> int {
    p + 12 + chunk_len(s, p)
}

/// The tag of the chunk at `p`: its four bytes as UTF-8, invalid sequences
/// replaced.
pub open spec fn chunk_name_at(s: Seq<u8>, p: int) -> Seq<char> {
    let b = s.subrange(p + 4, p + 8);
    if valid_utf8(b) { decode_utf8(b) } else { utf8_lossy(b) }
}

pub open spec fn chunk_data_at(s: Seq<u8>, p: int) -> Seq<u8> {
    s.subrange(p + 8, p + 8 + chunk_len(s, p))
}

/// The chunks from `p` up to and including the first end chunk, or none
/// where one is cut short or rejected before it.
pub open spec fn chunks_from(s: Seq<u8>, p: int) -> Option<Seq<ChunkKind>>
    decreases s.len() - p,
{
    if p < 0 || p + 4 > s.len() || chunk_end(s, p) > s.len() {
        None
    } else {
        match chunk_kind(chunk_name_at(s, p), chunk_data_at(s, p)) {
            None => None,
            Some(ChunkKind::End) => Some(seq![ChunkKind::End]),
            Some(k) => match chunks_from(s, chunk_end(s, p)) {
                Some(rest) => Some(seq![k] + rest),
                None => None,
            },
        }
    }
}

/// Where reading chunks from `p` stops: just after the first end chunk.
pub open spec fn chunks_end(s: Seq<u8>, p: int) -> int
    decreases s.len() - p,
{
    if p < 0 || p + 4 > s.len() || chunk_end(s, p) > s.len() {
        p
    } else {
        match chunk_kind(chunk_name_at(s, p), chunk_data_at(s, p)) {
            None => p,
            Some(ChunkKind::End) => chunk_end(s, p),
            Some(_) => chunks_end(s, chunk_end(s, p)),
        }
    }
}

/// Whether `e` is the error met reading chunks from `p`.
pub open spec fn chunk_error(s: Seq<u8>, p: int, e: PngError) -> bool
    decreases s.len() - p,
{
    if p < 0 {
        false
    } else if p + 4 > s.len() {
        e == truncated(p + 4, s.len() as int)
    } else if p + 8 > s.len() {
        e == truncated(p + 8, s.len() as int)
    } else if p + 8 + chunk_len(s, p) > s.len() {
        e == truncated(p + 8 + chunk_len(s, p), s.len() as int)
    } else if chunk_end(s, p) > s.len() {
        e == truncated(chunk_end(s, p), s.len() as int)
    } else {
        match chunk_kind(chunk_name_at(s, p), chunk_data_at(s, p)) {
            None => chunk_rejects(chunk_name_at(s, p), chunk_data_at(s, p), e),
            Some(ChunkKind::End) => false,
            Some(_) => chunk_error(s, chunk_end(s, p), e),
        }
    }
}

/// The payloads of the data chunks, in order, joined.
pub open spec fn idat_of(ks: Seq<ChunkKind>) -> Seq<u8>
    decreases ks.len(),
{
    if ks.len() == 0 {
        seq![]
    } else {
        idat_of(ks.drop_last()) + match ks.last() {
            ChunkKind::Data(d) => d,
            _ => Seq::<u8>::empty(),
        }
    }
}

pub open spec fn prepend(done: Seq<ChunkKind>, o: Option<Seq<ChunkKind>>) -> Option<Seq<ChunkKind>> {
    match o {
        Some(rest) => Some(done + rest),
        None => None,
    }
}

/// Width, height, color type and joined data payloads of the file that
/// starts at `p`, where it reads through.
pub open spec fn png_parsed(s: Seq<u8>, p: int) -> Option<(u32, u32, ColorType, Seq<u8>)> {
    if p + 8 > s.len() || s.subrange(p, p + 8) != png_signature() {
        None
    } else {
        match chunks_from(s, p + 8) {
            Some(ks) => match ks[0] {
                ChunkKind::Header(w, h, ct, _) => Some((w, h, ct, idat_of(ks))),
                _ => None,
            },
            None => None,
        }
    }
}

/// Whether `e` is the error met reading the file that starts at `p`.
pub open spec fn png_error(s: Seq<u8>, p: int, e: PngError) -> bool {
    if p + 8 > s.len() {
        e == truncated(p + 8, s.len() as int)
    } else if s.subrange(p, p + 8) != png_signature() {
        e == PngError::NotAPngFile
    } else {
        match chunks_from(s, p + 8) {
            Some(ks) => e == PngError::MissingHeader,
            None => chunk_error(s, p + 8, e),
        }
    }
}

fn is_png_signature(sig: &Vec<u8>) -> (r: bool)
    ensures
        r == (sig@ == png_signature()),
{
    assert(PNG_SIGNATURE@ =~= png_signature());
    if sig.len() != 8 {
        return false;
    }
    for i in 0..8
        invariant
            sig@.len() == 8,
            PNG_SIGNATURE@ == png_signature(),
            forall|j: int| 0 <= j < i ==> sig@[j] == png_signature()[j],
    {
        if sig[i] != PNG_SIGNATURE[i] {
            return false;
        }
    }
    assert(sig@ =~= png_signature());
    true
}

/// Reads a whole PNG file from the cursor: the signature, then chunks up to
/// the end chunk. The first chunk must be the header; the payloads of the
/// data chunks are joined in order, every other chunk is dropped. Chunk
/// checksums are skipped unverified, and the end chunk's payload is not
/// checked.
pub fn read_png_file(reader: &mut WrapBufReader) -> (r: Result<(PngInfo, Vec<u8>), PngError>)
    requires
        old(reader).wf(),
    ensures
        final(reader).wf(),
        final(reader)@.0 == old(reader)@.0,
        match png_parsed(old(reader)@.0, old(reader)@.1) {
            Some((w, h, ct, idat)) => (r matches Ok((info, data)) && info.wf() && info.width == w
                && info.height == h && info.color_type == ct && data@ == idat
                && final(reader)@.1 == chunks_end(old(reader)@.0, old(reader)@.1 + 8)),
            None => (r matches Err(e) && png_error(old(reader)@.0, old(reader)@.1, e)),
        },
{
    let ghost s = reader@.0;
    let ghost p0 = reader@.1;
    let sig = reader.read_file_signature()?;
    if !is_png_signature(&sig) {
        return Err(PngError::NotAPngFile);
    }
    let ghost start = reader@.1;
    let ghost mut done: Seq<ChunkKind> = seq![];
    let mut header: Option<IHDR> = None;
    let mut first = true;
    let mut idat: Vec<u8> = Vec::new();
    assert(prepend(done, chunks_from(s, start)) =~= chunks_from(s, start)) by {
        if let Some(rest) = chunks_from(s, start) {
            assert(done + rest =~= rest);
        }
    }
    loop
        invariant
            reader.wf(),
            reader@.0 == s,
            s == old(reader)@.0,
            p0 == old(reader)@.1,
            start == p0 + 8,
            p0 + 8 <= s.len(),
            s.subrange(p0, p0 + 8) == png_signature(),
            start <= reader@.1 <= s.len(),
            forall|i: int| 0 <= i < done.len() ==> !(done[i] is End),
            chunks_from(s, start) == prepend(done, chunks_from(s, reader@.1)),
            forall|e: PngError| chunk_error(s, start, e) == chunk_error(s, reader@.1, e),
            chunks_end(s, start) == chunks_end(s, reader@.1),
            idat@ == idat_of(done),
            first == (done.len() == 0),
            done.len() > 0 ==> (header is Some <==> done[0] is Header),
            header matches Some(h) ==> done.len() > 0 && h.bit_depth.val == 8
                && done[0] == ChunkKind::Header(h.width, h.height, h.color_type, h.bit_depth.val),
        decreases s.len() - reader@.1,
    {
        let ghost pos = reader@.1;
        proof {
            assert forall|e: PngError| chunks_from(s, pos) is None && chunk_error(s, pos, e)
                implies #[trigger] png_error(s, p0, e) && png_parsed(s, p0) is None by {
                assert(chunk_error(s, start, e));
            }
        }
        let length = reader.read_u32()?;
        let chunk_name = reader.read_chunk_name()?;
        let chunk_data = reader.read_len(length)?;
        reader.read_crc()?;
        assert(chunk_name@ == chunk_name_at(s, pos));
        assert(chunk_data@ == chunk_data_at(s, pos));
        let chunk = Chunk::new(chunk_name, chunk_data)?;
        let ghost k = chunk@;
        assert(reader@.1 == chunk_end(s, pos));
        match chunk {
            Chunk::IEND => {
                let ghost ks = done.push(ChunkKind::End);
                assert(chunks_from(s, start) == Some(ks)) by {
                    assert(done + seq![ChunkKind::End] =~= ks);
                }
                assert(ks.drop_last() =~= done);
                assert(idat_of(ks) =~= idat_of(done));
                assert(ks[0] == if done.len() > 0 { done[0] } else { ChunkKind::End });
                return match header {
                    Some(h) => Ok((PngInfo::new(h), idat)),
                    None => Err(PngError::MissingHeader),
                };
            },
            Chunk::IHDR(h) => {
                if first {
                    header = Some(h);
                }
            },
            Chunk::IDAT(data) => {
                let mut data = data;
                idat.append(&mut data);
            },
            _ => {},
        }
        proof {
            let next = chunk_end(s, pos);
            let done2 = done.push(k);
            assert(done2.drop_last() =~= done);
            assert(prepend(done, chunks_from(s, pos)) =~= prepend(done2, chunks_from(s, next))) by {
                if let Some(rest) = chunks_from(s, next) {
                    assert(done + (seq![k] + rest) =~= done2 + rest);
                }
            }
            assert forall|e: PngError| chunk_error(s, pos, e) == chunk_error(s, next, e) by {}
            assert(chunks_end(s, pos) == chunks_end(s, next));
            done = done2;
        }
        first = false;
    }
}

} // verus!
