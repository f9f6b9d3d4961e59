use vstd::prelude::*;
use crate::error::{HwpError, unexpected_eof};
use crate::utils::bytes::{u16_le, u32_le, i32_le, u16_from, u32_from, to_i32};
use crate::utils::chars::chars_of;
use crate::utils::text::push_char;
use crate::utils::encoding::{decode_utf16le, has_bom, utf16le_bytes, utf16le_decoding};

verus! {

/// A string with all trailing NUL characters removed.
pub open spec fn trim_nuls(s: Seq<char>) -> Seq<char>
    decreases s.len(),
{
    if s.len() > 0 && s.last() == '\0' {
        trim_nuls(s.drop_last())
    } else {
        s
    }
}

/// The text that `read_string` gives for the bytes it read: the UTF-16LE
/// decoding with trailing NULs removed, or `None` where the decoding met
/// malformed sequences.
pub open spec fn decoded_text(bytes: Seq<u8>) -> Option<Seq<char>> {
    if utf16le_decoding(bytes).1 {
        None
    } else {
        Some(trim_nuls(utf16le_decoding(bytes).0))
    }
}

/// The text read from `n` bytes of `d` starting at `start`.
pub open spec fn text_at(d: Seq<u8>, start: int, n: int) -> Option<Seq<char>> {
    decoded_text(d.subrange(start, start + n))
}

/// Removes trailing NUL characters.
pub(crate) fn trim_trailing_nuls(s: String) -> (r: String)
    ensures
        r@ == trim_nuls(s@),
{
    let chars = chars_of(s.as_str());
    let ghost cs = s@;
    let mut end: usize = chars.len();
    assert(cs.subrange(0, end as int) =~= cs);
    while end > 0 && chars[end - 1] == '\0'
        invariant
            chars@ == cs,
            end <= cs.len(),
            trim_nuls(cs) == trim_nuls(cs.subrange(0, end as int)),
        decreases end,
    {
        assert(cs.subrange(0, end as int).drop_last() =~= cs.subrange(0, end - 1));
        end = end - 1;
    }
    let mut r = String::new();
    let mut i: usize = 0;
    while i < end
        invariant
            chars@ == cs,
            i <= end <= cs.len(),
            r@ == cs.subrange(0, i as int),
        decreases end - i,
    {
        push_char(&mut r, chars[i]);
        i = i + 1;
        assert(r@ =~= cs.subrange(0, i as int));
    }
    r
}

/// A cursor over a byte buffer that reads little-endian values.
pub struct StreamReader {
    data: Vec<u8>,
    pos: u64,
}

impl StreamReader {
    /// The bytes being read.
    pub closed spec fn bytes(&self) -> Seq<u8> {
        self.data@
    }

    /// The position of the next read.
    pub closed spec fn pos(&self) -> int {
        self.pos as int
    }

    /// The number of bytes left after the position.
    pub open spec fn rem(&self) -> int {
        if self.pos() >= self.bytes().len() { 0 } else { self.bytes().len() - self.pos() }
    }

    /// Whether `n` more bytes can be read.
    pub open spec fn can_read(&self, n: int) -> bool {
        self.pos() + n <= self.bytes().len()
    }

    pub fn new(data: Vec<u8>) -> (r: Self)
        ensures
            r.bytes() == data@,
            r.pos() == 0,
    {
        StreamReader { data, pos: 0 }
    }

    fn fail(&mut self) -> (e: HwpError)
        ensures
            e is Io,
            final(self).bytes() == old(self).bytes(),
            final(self).pos() == old(self).bytes().len(),
    {
        self.pos = self.data.len() as u64;
        HwpError::Io(unexpected_eof())
    }

    fn has(&self, n: usize) -> (b: bool)
        ensures
            b == self.can_read(n as int),
            self.bytes().len() <= usize::MAX,
            self.pos() <= u64::MAX,
    {
        let len: usize = self.data.len();
        (self.pos as u128) + (n as u128) <= len as u128
    }

    pub fn read_u8(&mut self) -> (res: Result<u8, HwpError>)
        ensures
            final(self).bytes() == old(self).bytes(),
            old(self).can_read(1) ==> res == Ok::<u8, HwpError>(old(self).bytes()[old(self).pos()])
                && final(self).pos() == old(self).pos() + 1,
            !old(self).can_read(1) ==> (res matches Err(HwpError::Io(_)))
                && final(self).pos() == old(self).bytes().len(),
    {
        if !self.has(1) {
            return Err(self.fail());
        }
        let p: usize = self.pos as usize;
        let b: u8 = self.data[p];
        self.pos = self.pos + 1;
        Ok(b)
    }

    pub fn read_u16(&mut self) -> (res: Result<u16, HwpError>)
        ensures
            final(self).bytes() == old(self).bytes(),
            old(self).can_read(2) ==> res == Ok::<u16, HwpError>(u16_le(old(self).bytes(), old(self).pos()))
                && final(self).pos() == old(self).pos() + 2,
            !old(self).can_read(2) ==> (res matches Err(HwpError::Io(_)))
                && final(self).pos() == old(self).bytes().len(),
    {
        if !self.has(2) {
            return Err(self.fail());
        }
        let p: usize = self.pos as usize;
        let v: u16 = u16_from(self.data[p], self.data[p + 1]);
        self.pos = self.pos + 2;
        Ok(v)
    }

    pub fn read_u32(&mut self) -> (res: Result<u32, HwpError>)
        ensures
            final(self).bytes() == old(self).bytes(),
            old(self).can_read(4) ==> res == Ok::<u32, HwpError>(u32_le(old(self).bytes(), old(self).pos()))
                && final(self).pos() == old(self).pos() + 4,
            !old(self).can_read(4) ==> (res matches Err(HwpError::Io(_)))
                && final(self).pos() == old(self).bytes().len(),
    {
        if !self.has(4) {
            return Err(self.fail());
        }
        let p: usize = self.pos as usize;
        let v: u32 = u32_from(self.data[p], self.data[p + 1], self.data[p + 2], self.data[p + 3]);
        self.pos = self.pos + 4;
        Ok(v)
    }

    pub fn read_i32(&mut self) -> (res: Result<i32, HwpError>)
        ensures
            final(self).bytes() == old(self).bytes(),
            old(self).can_read(4) ==> res == Ok::<i32, HwpError>(i32_le(old(self).bytes(), old(self).pos()))
                && final(self).pos() == old(self).pos() + 4,
            !old(self).can_read(4) ==> (res matches Err(HwpError::Io(_)))
                && final(self).pos() == old(self).bytes().len(),
    {
        let u: u32 = self.read_u32()?;
        Ok(to_i32(u))
    }

    pub fn read_bytes(&mut self, len: usize) -> (res: Result<Vec<u8>, HwpError>)
        ensures
            final(self).bytes() == old(self).bytes(),
            old(self).can_read(len as int) ==> (res matches Ok(v)
                && v@ == old(self).bytes().subrange(old(self).pos(), old(self).pos() + len))
                && final(self).pos() == old(self).pos() + len,
            !old(self).can_read(len as int) ==> (res matches Err(HwpError::Io(_)))
                && final(self).pos() == old(self).bytes().len(),
    {
        if !self.has(len) {
            return Err(self.fail());
        }
        let start: usize = self.pos as usize;
        let mut out: Vec<u8> = Vec::new();
        let mut i: usize = 0;
        while i < len
            invariant
                start + len <= self.data@.len(),
                self.data@.len() <= usize::MAX,
                i <= len,
                out@ == self.data@.subrange(start as int, start + i),
            decreases len - i,
        {
            out.push(self.data[start + i]);
            i = i + 1;
            assert(out@ =~= self.data@.subrange(start as int, start + i));
        }
        self.pos = self.pos + len as u64;
        Ok(out)
    }

    pub fn read_string(&mut self, len: usize) -> (res: Result<String, HwpError>)
        requires
            len <= usize::MAX / 3,
        ensures
            final(self).bytes() == old(self).bytes(),
            old(self).can_read(len as int) ==> final(self).pos() == old(self).pos() + len
                && match decoded_text(old(self).bytes().subrange(old(self).pos(), old(self).pos() + len)) {
                    Some(t) => (res matches Ok(s) && s@ == t),
                    None => res matches Err(HwpError::EncodingError(_)),
                },
            !old(self).can_read(len as int) ==> (res matches Err(HwpError::Io(_)))
                && final(self).pos() == old(self).bytes().len(),
            old(self).can_read(len as int) ==> forall|t: Seq<char>|
                #[trigger] utf16le_bytes(t) == old(self).bytes().subrange(old(self).pos(), old(self).pos() + len)
                    && !has_bom(utf16le_bytes(t)) ==> decoded_text(utf16le_bytes(t)) == Some(trim_nuls(t)),
    {
        let bytes = self.read_bytes(len)?;
        let (decoded, had_errors) = decode_utf16le(bytes.as_slice());
        assert forall|t: Seq<char>| #[trigger] utf16le_bytes(t) == bytes@ && !has_bom(utf16le_bytes(t)) implies decoded_text(
            utf16le_bytes(t),
        ) == Some(trim_nuls(t)) by {
            assert(decoded@ == t && !had_errors);
        }
        if had_errors {
            return Err(HwpError::EncodingError(crate::utils::text::text_of("Invalid UTF-16LE string")));
        }
        Ok(trim_trailing_nuls(decoded))
    }

    pub fn position(&self) -> (p: u64)
        ensures
            p == self.pos(),
    {
        self.pos
    }

    pub fn set_position(&mut self, pos: u64)
        ensures
            final(self).bytes() == old(self).bytes(),
            final(self).pos() == pos,
    {
        self.pos = pos;
    }

    pub fn remaining(&self) -> (r: usize)
        ensures
            r == self.rem(),
    {
        let len: usize = self.data.len();
        if self.pos >= len as u64 {
            0
        } else {
            len - self.pos as usize
        }
    }
}

} // verus!
