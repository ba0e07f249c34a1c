use vstd::prelude::*;
use vstd::utf8::{decode_utf8, valid_utf8};
use crate::err::PngError;
use crate::ihdr::{be_u32, truncated};

verus! {

/// The characters that lossy UTF-8 decoding makes of some bytes.
pub uninterp spec fn utf8_lossy(b: Seq<u8>) -> Seq<char>;

/// Relies on `String::from_utf8_lossy`: valid UTF-8 decodes as is, every
/// invalid sequence becomes a replacement character.
#[verifier::external_body]
fn decode_lossy(b: &[u8]) -> (r: String)
    ensures
        r@ == utf8_lossy(b@),
        valid_utf8(b@) ==> r@ == decode_utf8(b@),
{
    String::from_utf8_lossy(b).into_owned()
}

/// A cursor over the bytes of a file.
pub struct WrapBufReader {
    data: Vec<u8>,
    pos: usize,
}

impl View for WrapBufReader {
    /// The bytes, and the position of the next byte to read.
    type V = (Seq<u8>, int);

    closed spec fn view(&self) -> (Seq<u8>, int) {
        (self.data@, self.pos as int)
    }
}

impl WrapBufReader {
    /// The position never passes the end.
    pub open spec fn wf(&self) -> bool {
        0 <= self@.1 <= self@.0.len()
    }

    pub fn new(data: Vec<u8>) -> (r: WrapBufReader)
        ensures
            r.wf(),
            r@ == (data@, 0int),
    {
        WrapBufReader { data, pos: 0 }
    }

    /// The next `n` bytes, or a truncation error that leaves the cursor.
    fn take(&mut self, n: usize) -> (r: Result<Vec<u8>, PngError>)
        requires
            old(self).wf(),
        ensures
            final(self).wf(),
            final(self)@.0 == old(self)@.0,
            old(self)@.1 + n <= old(self)@.0.len() ==> (r matches Ok(v)
                && v@ == old(self)@.0.subrange(old(self)@.1, old(self)@.1 + n)
                && final(self)@.1 == old(self)@.1 + n),
            old(self)@.1 + n > old(self)@.0.len() ==> r == Err::<Vec<u8>, PngError>(
                truncated(old(self)@.1 + n, old(self)@.0.len() as int)) && final(self)@ == old(self)@,
    {
        if n > self.data.len() - self.pos {
            return Err(PngError::TruncatedInput {
                expected: self.pos as u128 + n as u128,
                actual: self.data.len() as u128,
            });
        }
        let mut result: Vec<u8> = Vec::with_capacity(n);
        let start = self.pos;
        let dl = self.data.len();
        for i in 0..n
            invariant
                dl == self.data@.len(),
                start + n <= self.data@.len(),
                result@ == self.data@.subrange(start as int, start + i),
        {
            result.push(self.data[start + i]);
            assert(result@ =~= self.data@.subrange(start as int, start + i + 1));
        }
        self.pos = start + n;
        Ok(result)
    }

    /// A big-endian 32-bit integer.
    pub fn read_u32(&mut self) -> (r: Result<u32, PngError>)
        requires
            old(self).wf(),
        ensures
            final(self).wf(),
            final(self)@.0 == old(self)@.0,
            old(self)@.1 + 4 <= old(self)@.0.len() ==> r == Ok::<u32, PngError>(
                be_u32(old(self)@.0, old(self)@.1)) && final(self)@.1 == old(self)@.1 + 4,
            old(self)@.1 + 4 > old(self)@.0.len() ==> r == Err::<u32, PngError>(
                truncated(old(self)@.1 + 4, old(self)@.0.len() as int)) && final(self)@ == old(self)@,
    {
        let buf = self.take(4)?;
        Ok(buf[0] as u32 * 0x1000000 + buf[1] as u32 * 0x10000 + buf[2] as u32 * 0x100 + buf[3] as u32)
    }

    /// A four-byte chunk tag, decoded as UTF-8 with replacement.
    pub fn read_chunk_name(&mut self) -> (r: Result<String, PngError>)
        requires
            old(self).wf(),
        ensures
            final(self).wf(),
            final(self)@.0 == old(self)@.0,
            old(self)@.1 + 4 <= old(self)@.0.len() ==> (r matches Ok(s)
                && s@ == utf8_lossy(old(self)@.0.subrange(old(self)@.1, old(self)@.1 + 4))
                && (valid_utf8(old(self)@.0.subrange(old(self)@.1, old(self)@.1 + 4))
                    ==> s@ == decode_utf8(old(self)@.0.subrange(old(self)@.1, old(self)@.1 + 4)))
                && final(self)@.1 == old(self)@.1 + 4),
            old(self)@.1 + 4 > old(self)@.0.len() ==> r == Err::<String, PngError>(
                truncated(old(self)@.1 + 4, old(self)@.0.len() as int)) && final(self)@ == old(self)@,
    {
        let buf = self.take(4)?;
        Ok(decode_lossy(buf.as_slice()))
    }

    /// Skips the four checksum bytes of a chunk; they are not verified.
    pub fn read_crc(&mut self) -> (r: Result<(), PngError>)
        requires
            old(self).wf(),
        ensures
            final(self).wf(),
            final(self)@.0 == old(self)@.0,
            old(self)@.1 + 4 <= old(self)@.0.len() ==> r is Ok && final(self)@.1 == old(self)@.1 + 4,
            old(self)@.1 + 4 > old(self)@.0.len() ==> r == Err::<(), PngError>(
                truncated(old(self)@.1 + 4, old(self)@.0.len() as int)) && final(self)@ == old(self)@,
    {
        self.take(4)?;
        Ok(())
    }

    /// The eight bytes that open the file.
    pub fn read_file_signature(&mut self) -> (r: Result<Vec<u8>, PngError>)
        requires
            old(self).wf(),
        ensures
            final(self).wf(),
            final(self)@.0 == old(self)@.0,
            old(self)@.1 + 8 <= old(self)@.0.len() ==> (r matches Ok(v)
                && v@ == old(self)@.0.subrange(old(self)@.1, old(self)@.1 + 8)
                && final(self)@.1 == old(self)@.1 + 8),
            old(self)@.1 + 8 > old(self)@.0.len() ==> r == Err::<Vec<u8>, PngError>(
                truncated(old(self)@.1 + 8, old(self)@.0.len() as int)) && final(self)@ == old(self)@,
    {
        self.take(8)
    }

    /// The next `len` bytes.
    pub fn read_len(&mut self, len: u32) -> (r: Result<Vec<u8>, PngError>)
        requires
            old(self).wf(),
        ensures
            final(self).wf(),
            final(self)@.0 == old(self)@.0,
            old(self)@.1 + len <= old(self)@.0.len() ==> (r matches Ok(v)
                && v@ == old(self)@.0.subrange(old(self)@.1, old(self)@.1 + len)
                && final(self)@.1 == old(self)@.1 + len),
            old(self)@.1 + len > old(self)@.0.len() ==> r == Err::<Vec<u8>, PngError>(
                truncated(old(self)@.1 + len, old(self)@.0.len() as int)) && final(self)@ == old(self)@,
    {
        self.take(len as usize)
    }
}

} // verus!
