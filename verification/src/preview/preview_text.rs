use vstd::prelude::*;
use crate::error::HwpError;
use crate::reader::stream::{trim_nuls, trim_trailing_nuls};
use crate::utils::encoding::{
    lemma_units_at_encoded, lemma_utf16_units_len, units_at, units_of, utf16_of_char, utf16_units, utf16le_bytes,
};
use crate::utils::chars::{char_from_u32, is_char_code};
use crate::utils::text::{push_char, text_of};

verus! {

/// Whether a unit is a high surrogate.
pub open spec fn high_surrogate(u: u16) -> bool {
    0xD800 <= u && u <= 0xDBFF
}

/// Whether a unit is a low surrogate.
pub open spec fn low_surrogate(u: u16) -> bool {
    0xDC00 <= u && u <= 0xDFFF
}

/// UTF-16 decoding where each unit that is not part of a valid pair of
/// surrogates, and is a surrogate, becomes the replacement character U+FFFD.
pub open spec fn utf16_lossy(u: Seq<u16>) -> Seq<char>
    decreases u.len(),
{
    if u.len() == 0 {
        seq![]
    } else if high_surrogate(u[0]) && u.len() >= 2 && low_surrogate(u[1]) {
        seq![(0x10000 + (u[0] - 0xD800) * 0x400 + (u[1] - 0xDC00)) as u32 as char] + utf16_lossy(u.skip(2))
    } else if 0xD800 <= u[0] && u[0] <= 0xDFFF {
        seq!['\u{FFFD}'] + utf16_lossy(u.skip(1))
    } else {
        seq![u[0] as u32 as char] + utf16_lossy(u.skip(1))
    }
}

/// The character with a code known to be one.
pub(crate) fn char_of(x: u32) -> (c: char)
    requires
        is_char_code(x),
    ensures
        c == x as char,
{
    match char_from_u32(x) {
        Some(c) => c,
        None => {
            assert(false);
            ' '
        },
    }
}

/// Decodes UTF-16, replacing each unpaired surrogate with U+FFFD.
fn from_utf16_lossy(units: &[u16]) -> (s: String)
    ensures
        s@ == utf16_lossy(units@),
{
    let ghost u = units@;
    let n: usize = units.len();
    let mut s = String::new();
    let mut i: usize = 0;
    assert(u.skip(0) =~= u);
    while i < n
        invariant
            u == units@,
            n == u.len(),
            i <= n,
            s@ + utf16_lossy(u.skip(i as int)) == utf16_lossy(u),
        decreases n - i,
    {
        let ghost before = s@;
        let ghost rest = u.skip(i as int);
        let x: u16 = units[i];
        assert(rest[0] == x);
        if 0xD800 <= x && x <= 0xDBFF && i + 1 < n && 0xDC00 <= units[i + 1] && units[i + 1] <= 0xDFFF {
            let y: u16 = units[i + 1];
            assert(rest[1] == y);
            let code: u32 = 0x10000 + (x as u32 - 0xD800) * 0x400 + (y as u32 - 0xDC00);
            push_char(&mut s, char_of(code));
            assert(rest.skip(2) =~= u.skip(i + 2));
            i = i + 2;
        } else if 0xD800 <= x && x <= 0xDFFF {
            push_char(&mut s, '\u{FFFD}');
            assert(rest.skip(1) =~= u.skip(i + 1));
            i = i + 1;
        } else {
            push_char(&mut s, char_of(x as u32));
            assert(rest.skip(1) =~= u.skip(i + 1));
            i = i + 1;
        }
        assert(s@ + utf16_lossy(u.skip(i as int)) =~= before + utf16_lossy(rest));
    }
    assert(u.skip(n as int) =~= Seq::<u16>::empty());
    assert(s@ + utf16_lossy(u.skip(n as int)) =~= s@);
    s
}

/// The text shown in a document's preview.
#[derive(Debug, Clone)]
pub struct PreviewText {
    pub content: String,
}

impl PreviewText {
    /// Reads a preview text: UTF-16LE, invalid units replaced, trailing NULs
    /// removed. Empty data gives an empty text; data of odd length is refused.
    pub fn from_bytes(data: &[u8]) -> (res: Result<Self, HwpError>)
        ensures
            data@.len() == 0 ==> (res matches Ok(t) && t.content@ == Seq::<char>::empty()),
            data@.len() % 2 == 1 ==> res matches Err(HwpError::ParseError(_)),
            data@.len() > 0 && data@.len() % 2 == 0 ==> (res matches Ok(t) && t.content@ == trim_nuls(
                utf16_lossy(units_at(data@, 0, (data@.len() / 2) as int)),
            )),
    {
        if data.len() == 0 {
            return Ok(PreviewText { content: String::new() });
        }
        if data.len() % 2 != 0 {
            return Err(HwpError::ParseError(text_of("PreviewText data length must be even (UTF-16LE)")));
        }
        let units = units_of(data);
        let content = trim_trailing_nuls(from_utf16_lossy(units.as_slice()));
        Ok(PreviewText { content })
    }

    pub fn text(&self) -> (t: &str)
        ensures
            t@ == self.content@,
    {
        self.content.as_str()
    }

    pub fn is_empty(&self) -> (b: bool)
        ensures
            b == (self.content@.len() == 0),
    {
        self.content.as_str().unicode_len() == 0
    }
}

/// The encoding of a text is that of its first character, then that of the
/// rest.
pub proof fn lemma_utf16_units_front(c: char, r: Seq<char>)
    ensures
        utf16_units(seq![c] + r) == utf16_of_char(c) + utf16_units(r),
    decreases r.len(),
{
    if r.len() == 0 {
        let e = Seq::<char>::empty();
        assert(seq![c] + r =~= seq![c]);
        assert(seq![c].drop_last() =~= e);
        assert(r =~= e);
        assert(utf16_units(e) =~= Seq::<u16>::empty());
        assert(utf16_units(seq![c]) == utf16_units(e) + utf16_of_char(c));
        assert(utf16_units(e) + utf16_of_char(c) =~= utf16_of_char(c));
        assert(utf16_of_char(c) + utf16_units(r) =~= utf16_of_char(c));
    } else {
        lemma_utf16_units_front(c, r.drop_last());
        assert((seq![c] + r).drop_last() =~= seq![c] + r.drop_last());
        assert(utf16_of_char(c) + utf16_units(r) =~= utf16_of_char(c) + utf16_units(r.drop_last())
            + utf16_of_char(r.last()));
    }
}

/// Decoding the encoding of a text, replacing nothing, gives the text back.
pub proof fn lemma_utf16_lossy_of_units(s: Seq<char>)
    ensures
        utf16_lossy(utf16_units(s)) == s,
    decreases s.len(),
{
    if s.len() > 0 {
        let c = s[0];
        let r = s.skip(1);
        assert(s =~= seq![c] + r);
        lemma_utf16_units_front(c, r);
        lemma_utf16_lossy_of_units(r);
        let e = utf16_of_char(c);
        let u = e + utf16_units(r);
        let x = c as u32;
        vstd::utf8::char_u32_cast(c, x);
        if x < 0x10000 {
            assert(e =~= seq![x as u16]);
            assert(u.skip(1) =~= utf16_units(r));
            assert(!(0xD800 <= u[0] && u[0] <= 0xDFFF));
            assert(utf16_lossy(u) =~= seq![c] + r);
        } else {
            assert(x <= 0x10FFFF);
            assert((x - 0x10000) / 0x400 <= 0x3FF);
            assert(u.skip(2) =~= utf16_units(r));
            assert(high_surrogate(u[0]) && low_surrogate(u[1]));
            assert((0x10000 + (u[0] - 0xD800) * 0x400 + (u[1] - 0xDC00)) == x);
            assert(utf16_lossy(u) =~= seq![c] + r);
        }
    }
}

/// A text written as UTF-16LE reads back as the same text, less its
/// trailing NULs.
pub proof fn law_preview_text_roundtrip(s: Seq<char>)
    requires
        s.len() > 0,
    ensures
        ({
            let d = utf16le_bytes(s);
            &&& d.len() > 0
            &&& d.len() % 2 == 0
            &&& trim_nuls(utf16_lossy(units_at(d, 0, (d.len() / 2) as int))) == trim_nuls(s)
        }),
{
    let d = utf16le_bytes(s);
    lemma_units_at_encoded(seq![], s, seq![]);
    assert(seq![] + d + seq![] =~= d);
    lemma_utf16_units_len(s);
    lemma_utf16_lossy_of_units(s);
}

} // verus!
