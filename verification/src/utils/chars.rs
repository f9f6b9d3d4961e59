use vstd::prelude::*;

verus! {

/// Whether a character has the Unicode White_Space property: tab to carriage
/// return, space, next line, no-break space, Ogham space mark, the spaces
/// from en quad to hair space, line and paragraph separators, narrow no-break
/// space, medium mathematical space and ideographic space.
pub open spec fn whitespace(c: char) -> bool {
    let x = c as u32;
    (0x09 <= x <= 0x0D) || x == 0x20 || x == 0x85 || x == 0xA0 || x == 0x1680 || (0x2000 <= x <= 0x200A)
        || x == 0x2028 || x == 0x2029 || x == 0x202F || x == 0x205F || x == 0x3000
}

/// Whether a character has the Unicode White_Space property.
pub fn is_whitespace(c: char) -> (b: bool)
    ensures
        b == whitespace(c),
{
    let x: u32 = c as u32;
    (0x09 <= x && x <= 0x0D) || x == 0x20 || x == 0x85 || x == 0xA0 || x == 0x1680 || (0x2000 <= x && x <= 0x200A)
        || x == 0x2028 || x == 0x2029 || x == 0x202F || x == 0x205F || x == 0x3000
}

/// The characters of a string, in order.
pub fn chars_of(s: &str) -> (v: Vec<char>)
    ensures
        v@ == s@,
{
    let mut v: Vec<char> = Vec::new();
    let ghost chars = s@;
    for c in it: s.chars()
        invariant
            it.seq() == chars,
            v@ == chars.subrange(0, it.index() as int),
    {
        v.push(c);
        proof {
            assert(v@ =~= chars.subrange(0, it.index() + 1));
        }
    }
    assert(chars.subrange(0, chars.len() as int) =~= chars);
    v
}

/// Whether `s` begins with `prefix`.
pub fn has_prefix(s: &str, prefix: &str) -> (b: bool)
    ensures
        b == prefix@.is_prefix_of(s@),
{
    let sv = chars_of(s);
    let pv = chars_of(prefix);
    if pv.len() > sv.len() {
        return false;
    }
    let mut i: usize = 0;
    while i < pv.len()
        invariant
            sv@ == s@,
            pv@ == prefix@,
            i <= pv@.len() <= sv@.len(),
            forall|j: int| 0 <= j < i ==> pv@[j] == sv@[j],
        decreases pv.len() - i,
    {
        if pv[i] != sv[i] {
            return false;
        }
        i = i + 1;
    }
    assert(prefix@ =~= s@.subrange(0, prefix@.len() as int));
    true
}

/// Whether `s` holds the character `c`.
pub fn has_char(s: &str, c: char) -> (b: bool)
    ensures
        b == s@.contains(c),
{
    let sv = chars_of(s);
    let mut i: usize = 0;
    while i < sv.len()
        invariant
            sv@ == s@,
            i <= sv@.len(),
            forall|j: int| 0 <= j < i ==> sv@[j] != c,
        decreases sv.len() - i,
    {
        if sv[i] == c {
            assert(s@[i as int] == c);
            return true;
        }
        i = i + 1;
    }
    false
}

/// Whether a number is the code of a character: at most 0x10FFFF and not a
/// surrogate (0xD800 to 0xDFFF).
pub open spec fn is_char_code(x: u32) -> bool {
    x <= 0xD7FF || (0xE000 <= x && x <= 0x10FFFF)
}

/// The character with a given code: the standard library's
/// `char::from_u32`, documented to return `None` exactly where the number is
/// not the code of a character.
#[verifier::external_body]
pub(crate) fn char_from_u32(x: u32) -> (r: Option<char>)
    ensures
        r matches Some(c) ==> c == x as char,
        r is None <==> !is_char_code(x),
{
    char::from_u32(x)
}

} // verus!
