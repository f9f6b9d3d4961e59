use vstd::prelude::*;
use crate::error::HwpError;
use crate::utils::bytes::{le16, lemma_le16_roundtrip, put_bytes, put_u16, u16_from, u16_le};
use crate::preview::preview_text::{char_of, high_surrogate, lemma_utf16_units_front, low_surrogate, utf16_lossy};
use crate::utils::text::push_char;

verus! {

/// What `encoding_rs::UTF_16LE.decode` returns for a byte sequence: the
/// decoded characters and whether malformed sequences were replaced.
pub uninterp spec fn utf16le_decoding(bytes: Seq<u8>) -> (Seq<char>, bool);

/// Whether bytes begin with a byte order mark that `encoding_rs` sniffs:
/// that of UTF-8, of UTF-16LE or of UTF-16BE.
pub open spec fn has_bom(b: Seq<u8>) -> bool {
    ||| (b.len() >= 3 && b[0] == 0xEF && b[1] == 0xBB && b[2] == 0xBF)
    ||| (b.len() >= 2 && b[0] == 0xFF && b[1] == 0xFE)
    ||| (b.len() >= 2 && b[0] == 0xFE && b[1] == 0xFF)
}

/// Decodes bytes as UTF-16LE with `encoding_rs::UTF_16LE.decode` (which also
/// sniffs a leading byte order mark). The result is the decoded text and the
/// flag that says whether malformed sequences were met; both are named by
/// `utf16le_decoding`. Where no byte order mark opens the bytes, the crate
/// decodes them as UTF-16LE as they are, so the encoding of a text decodes
/// to that text without error. The crate's code panics only when three
/// halves of the input length overflow the capacity of a `String`, which
/// `requires` excludes.
#[verifier::external_body]
pub(crate) fn decode_utf16le(bytes: &[u8]) -> (r: (String, bool))
    requires
        bytes@.len() <= usize::MAX / 3,
    ensures
        (r.0@, r.1) == utf16le_decoding(bytes@),
        forall|s: Seq<char>| #[trigger] utf16le_bytes(s) == bytes@ && !has_bom(bytes@) ==> r.0@ == s && !r.1,
{
    let (cow, _, had_errors) = encoding_rs::UTF_16LE.decode(bytes);
    (cow.into_owned(), had_errors)
}

/// Turns the outcome of a UTF-16LE decoding into the library's result: an
/// encoding error where malformed sequences were met, else the text.
pub fn utf16le_result(decoded: String, had_errors: bool) -> (res: Result<String, HwpError>)
    ensures
        had_errors ==> res matches Err(HwpError::EncodingError(_)),
        !had_errors ==> (res matches Ok(s) && s@ == decoded@),
{
    if had_errors {
        return Err(HwpError::EncodingError(crate::utils::text::text_of("Invalid UTF-16LE data")));
    }
    Ok(decoded)
}

/// Decodes UTF-16LE bytes into a string; fails where the bytes are malformed.
pub fn utf16le_to_string(data: &[u8]) -> (res: Result<String, HwpError>)
    requires
        data@.len() <= usize::MAX / 3,
    ensures
        utf16le_decoding(data@).1 ==> res matches Err(HwpError::EncodingError(_)),
        !utf16le_decoding(data@).1 ==> (res matches Ok(s) && s@ == utf16le_decoding(data@).0),
{
    let (decoded, had_errors) = decode_utf16le(data);
    utf16le_result(decoded, had_errors)
}

/// The UTF-16 code units of one character.
pub open spec fn utf16_of_char(c: char) -> Seq<u16> {
    if (c as u32) < 0x10000 {
        seq![c as u32 as u16]
    } else {
        seq![
            (0xD800 + ((c as u32 - 0x10000) / 0x400)) as u16,
            (0xDC00 + ((c as u32 - 0x10000) % 0x400)) as u16,
        ]
    }
}

/// The UTF-16 code units of a character sequence.
pub open spec fn utf16_units(s: Seq<char>) -> Seq<u16>
    decreases s.len(),
{
    if s.len() == 0 {
        seq![]
    } else {
        utf16_units(s.drop_last()) + utf16_of_char(s.last())
    }
}

/// The little-endian bytes of a sequence of 16-bit units.
pub open spec fn le16_all(u: Seq<u16>) -> Seq<u8>
    decreases u.len(),
{
    if u.len() == 0 {
        seq![]
    } else {
        le16_all(u.drop_last()) + le16(u.last())
    }
}

/// The UTF-16LE bytes of a text.
pub open spec fn utf16le_bytes(s: Seq<char>) -> Seq<u8> {
    le16_all(utf16_units(s))
}

proof fn lemma_le16_all_single(x: u16)
    ensures
        le16_all(seq![x]) == le16(x),
{
    assert(seq![x].drop_last() =~= Seq::<u16>::empty());
    assert(le16_all(Seq::<u16>::empty()) =~= Seq::<u8>::empty());
    assert(Seq::<u8>::empty() + le16(x) =~= le16(x));
}

proof fn lemma_le16_all_concat(u: Seq<u16>, w: Seq<u16>)
    ensures
        le16_all(u + w) == le16_all(u) + le16_all(w),
    decreases w.len(),
{
    if w.len() == 0 {
        assert(u + w =~= u);
        assert(le16_all(u) + le16_all(w) =~= le16_all(u));
    } else {
        lemma_le16_all_concat(u, w.drop_last());
        assert((u + w).drop_last() =~= u + w.drop_last());
        assert(le16_all(u) + le16_all(w) =~= le16_all(u) + le16_all(w.drop_last()) + le16(w.last()));
    }
}

fn put_char_utf16le(v: &mut Vec<u8>, c: char)
    ensures
        final(v)@ == old(v)@ + le16_all(utf16_of_char(c)),
{
    let x: u32 = c as u32;
    if x < 0x10000 {
        put_u16(v, x as u16);
        proof {
            lemma_le16_all_single(x as u16);
        }
    } else {
        let hi: u16 = (0xD800 + (x - 0x10000) / 0x400) as u16;
        let lo: u16 = (0xDC00 + (x - 0x10000) % 0x400) as u16;
        put_u16(v, hi);
        put_u16(v, lo);
        proof {
            let s = seq![hi, lo];
            assert(s.drop_last().drop_last() =~= Seq::<u16>::empty());
            assert(s.drop_last() =~= seq![hi]);
            lemma_le16_all_single(hi);
            assert(le16_all(s) =~= le16(hi) + le16(lo));
            assert(old(v)@ + le16(hi) + le16(lo) =~= old(v)@ + le16_all(s));
        }
    }
}

/// Encodes a string as UTF-16LE bytes.
pub fn string_to_utf16le(s: &str) -> (result: Vec<u8>)
    ensures
        result@ == utf16le_bytes(s@),
{
    let mut result: Vec<u8> = Vec::new();
    let ghost chars = s@;
    for c in it: s.chars()
        invariant
            it.seq() == chars,
            result@ == utf16le_bytes(chars.subrange(0, it.index() as int)),
    {
        proof {
            let k = it.index() as int;
            assert(chars.subrange(0, k + 1).drop_last() =~= chars.subrange(0, k));
            lemma_le16_all_concat(utf16_units(chars.subrange(0, k)), utf16_of_char(chars[k]));
        }
        put_char_utf16le(&mut result, c);
    }
    assert(chars.subrange(0, chars.len() as int) =~= chars);
    result
}

/// Appends the UTF-16LE bytes of the characters `chars[from..to]`.
pub fn put_chars_utf16le(v: &mut Vec<u8>, chars: &[char], from: usize, to: usize)
    requires
        from <= to <= chars@.len(),
    ensures
        final(v)@ == old(v)@ + utf16le_bytes(chars@.subrange(from as int, to as int)),
{
    let mut i: usize = from;
    assert(chars@.subrange(from as int, from as int) =~= Seq::<char>::empty());
    assert(old(v)@ + utf16le_bytes(Seq::<char>::empty()) =~= old(v)@);
    while i < to
        invariant
            from <= i <= to <= chars@.len(),
            v@ == old(v)@ + utf16le_bytes(chars@.subrange(from as int, i as int)),
        decreases to - i,
    {
        proof {
            let prev = chars@.subrange(from as int, i as int);
            assert(chars@.subrange(from as int, i + 1).drop_last() =~= prev);
            lemma_le16_all_concat(utf16_units(prev), utf16_of_char(chars@[i as int]));
        }
        put_char_utf16le(v, chars[i]);
        i = i + 1;
        assert(v@ =~= old(v)@ + utf16le_bytes(chars@.subrange(from as int, i as int)));
    }
}

/// Whether a text can be stored with a 16-bit count of its UTF-16 units and
/// read back as it is: it has no NUL character (reading stops at the first)
/// and fewer than 32768 units (so that its byte count, halved, is its count).
pub open spec fn storable_text(s: Seq<char>) -> bool {
    no_nul(s) && utf16_units(s).len() < 32768
}

/// Whether a text has no NUL character.
pub open spec fn no_nul(s: Seq<char>) -> bool {
    forall|i: int| 0 <= i < s.len() ==> #[trigger] (s[i] as u32) != 0
}

/// The units of a text without NUL characters are all non-zero.
proof fn lemma_units_nonzero(s: Seq<char>)
    requires
        no_nul(s),
    ensures
        forall|k: int| 0 <= k < utf16_units(s).len() ==> utf16_units(s)[k] != 0,
    decreases s.len(),
{
    if s.len() > 0 {
        let p = s.drop_last();
        let c = s.last();
        assert(no_nul(p)) by {
            assert forall|i: int| 0 <= i < p.len() implies #[trigger] (p[i] as u32) != 0 by {
                assert(p[i] == s[i]);
            }
        }
        assert((c as u32) != 0) by {
            assert(s[s.len() - 1] == c);
        }
        lemma_units_nonzero(p);
        let up = utf16_units(p);
        let uc = utf16_of_char(c);
        assert forall|k: int| 0 <= k < utf16_units(s).len() implies utf16_units(s)[k] != 0 by {
            if k < up.len() {
                assert(utf16_units(s)[k] == up[k]);
            } else {
                assert(utf16_units(s)[k] == uc[k - up.len()]);
                lemma_char_units(c);
                let x = c as u32;
                if x < 0x10000 {
                    assert(x as u16 == x);
                }
            }
        }
    }
}

/// Reading up to the first zero unit keeps the whole encoding of a text
/// without NUL characters.
pub proof fn lemma_until_nul_keeps(s: Seq<char>)
    requires
        no_nul(s),
    ensures
        until_nul(utf16_units(s)) == utf16_units(s),
{
    lemma_units_nonzero(s);
    assert(!exists|k: int| is_first_nul(utf16_units(s), k));
}

/// The `count` 16-bit little-endian code units stored from byte `start` of `d`.
pub open spec fn units_at(d: Seq<u8>, start: int, count: int) -> Seq<u16> {
    Seq::new(count as nat, |i: int| u16_le(d, start + 2 * i))
}

/// Whether `k` is the index of the first zero unit of `u`.
pub open spec fn is_first_nul(u: Seq<u16>, k: int) -> bool {
    &&& 0 <= k < u.len()
    &&& u[k] == 0
    &&& forall|j: int| 0 <= j < k ==> u[j] != 0
}

/// The units of `u` before its first zero unit; all of `u` where it has none.
pub open spec fn until_nul(u: Seq<u16>) -> Seq<u16> {
    if exists|k: int| is_first_nul(u, k) {
        u.take(choose|k: int| is_first_nul(u, k))
    } else {
        u
    }
}

/// Whether some text is encoded by the UTF-16 units `u`.
pub open spec fn valid_utf16(u: Seq<u16>) -> bool {
    exists|s: Seq<char>| utf16_units(s) == u
}

/// Reads the `count` code units stored from byte `start`, up to the first
/// zero unit.
pub fn units_until_nul(data: &[u8], start: usize, count: usize) -> (v: Vec<u16>)
    requires
        start + 2 * count <= data@.len(),
    ensures
        v@ == until_nul(units_at(data@, start as int, count as int)),
{
    let ghost u = units_at(data@, start as int, count as int);
    let n: usize = data.len();
    let mut v: Vec<u16> = Vec::new();
    let mut i: usize = 0;
    loop
        invariant_except_break
            i <= count,
            v@ == u.take(i as int),
            forall|j: int| 0 <= j < i ==> u[j] != 0,
        invariant
            n == data@.len(),
            start + 2 * count <= n,
            u == units_at(data@, start as int, count as int),
        ensures
            v@ == until_nul(u),
        decreases count - i,
    {
        if i == count {
            proof {
                assert(u.take(i as int) =~= u);
                assert(!exists|k: int| is_first_nul(u, k));
            }
            break;
        }
        let p: usize = start + 2 * i;
        let c: u16 = u16_from(data[p], data[p + 1]);
        assert(c == u[i as int]);
        if c == 0 {
            proof {
                assert(is_first_nul(u, i as int));
                let k = choose|k: int| is_first_nul(u, k);
                assert(k == i as int) by {
                    if k < i {
                        assert(u[k] != 0);
                    }
                    if k > i {
                        assert(u[i as int] != 0);
                    }
                }
            }
            break;
        }
        v.push(c);
        i = i + 1;
        assert(v@ =~= u.take(i as int));
    }
    v
}

/// Whether units are UTF-16 read from the front: each high surrogate is
/// followed by a low one, and no other surrogate stands alone.
pub open spec fn strict_utf16(u: Seq<u16>) -> bool
    decreases u.len(),
{
    if u.len() == 0 {
        true
    } else if high_surrogate(u[0]) && u.len() >= 2 && low_surrogate(u[1]) {
        strict_utf16(u.skip(2))
    } else if 0xD800 <= u[0] && u[0] <= 0xDFFF {
        false
    } else {
        strict_utf16(u.skip(1))
    }
}

/// The encoding of every text is UTF-16 read from the front.
proof fn lemma_strict_of_units(s: Seq<char>)
    ensures
        strict_utf16(utf16_units(s)),
    decreases s.len(),
{
    if s.len() > 0 {
        let c = s[0];
        let r = s.skip(1);
        assert(s =~= seq![c] + r);
        lemma_utf16_units_front(c, r);
        lemma_strict_of_units(r);
        let e = utf16_of_char(c);
        let u = e + utf16_units(r);
        let x = c as u32;
        vstd::utf8::char_is_scalar(c);
        lemma_char_units(c);
        if x < 0x10000 {
            assert(u.skip(1) =~= utf16_units(r));
        } else {
            assert(u.skip(2) =~= utf16_units(r));
        }
    }
}

/// Units that are UTF-16 read from the front are the encoding of their
/// decoding.
proof fn lemma_units_of_lossy(u: Seq<u16>)
    requires
        strict_utf16(u),
    ensures
        utf16_units(utf16_lossy(u)) == u,
    decreases u.len(),
{
    if u.len() > 0 {
        if high_surrogate(u[0]) && u.len() >= 2 && low_surrogate(u[1]) {
            let r = u.skip(2);
            lemma_units_of_lossy(r);
            let code: u32 = (0x10000 + (u[0] - 0xD800) * 0x400 + (u[1] - 0xDC00)) as u32;
            let c = code as char;
            assert(utf16_lossy(u) == seq![c] + utf16_lossy(r));
            assert(c as u32 == code);
            lemma_utf16_units_front(c, utf16_lossy(r));
            assert(utf16_of_char(c) =~= seq![u[0], u[1]]);
            assert(u =~= seq![u[0], u[1]] + r);
        } else {
            let r = u.skip(1);
            lemma_units_of_lossy(r);
            let c = u[0] as u32 as char;
            assert(utf16_lossy(u) == seq![c] + utf16_lossy(r));
            assert(c as u32 == u[0] as u32);
            lemma_utf16_units_front(c, utf16_lossy(r));
            assert(utf16_of_char(c) =~= seq![u[0]]);
            assert(u =~= seq![u[0]] + r);
        }
    }
}

/// Valid UTF-16 is UTF-16 read from the front.
pub proof fn lemma_valid_is_strict(u: Seq<u16>)
    ensures
        valid_utf16(u) <==> strict_utf16(u),
{
    if valid_utf16(u) {
        let s = choose|s: Seq<char>| utf16_units(s) == u;
        lemma_strict_of_units(s);
    }
    if strict_utf16(u) {
        lemma_units_of_lossy(u);
        assert(utf16_units(utf16_lossy(u)) == u);
    }
}

/// Decodes UTF-16 code units: the string they encode, `None` where an
/// unpaired surrogate makes them invalid.
fn from_utf16(units: &[u16]) -> (r: Option<String>)
    ensures
        r matches Some(s) ==> utf16_units(s@) == units@,
        r is None ==> forall|s: Seq<char>| utf16_units(s) != units@,
{
    let ghost u = units@;
    let n: usize = units.len();
    let mut s = String::new();
    let mut i: usize = 0;
    assert(u.skip(0) =~= u);
    while i < n
        invariant
            u == units@,
            n == u.len(),
            i <= n,
            s@ + utf16_lossy(u.skip(i as int)) == utf16_lossy(u),
            strict_utf16(u) == strict_utf16(u.skip(i as int)),
        decreases n - i,
    {
        let ghost before = s@;
        let ghost rest = u.skip(i as int);
        let x: u16 = units[i];
        assert(rest[0] == x);
        if 0xD800 <= x && x <= 0xDBFF && i + 1 < n && 0xDC00 <= units[i + 1] && units[i + 1] <= 0xDFFF {
            let y: u16 = units[i + 1];
            assert(rest[1] == y);
            let code: u32 = 0x10000 + (x as u32 - 0xD800) * 0x400 + (y as u32 - 0xDC00);
            push_char(&mut s, char_of(code));
            assert(rest.skip(2) =~= u.skip(i + 2));
            i = i + 2;
        } else if 0xD800 <= x && x <= 0xDFFF {
            proof {
                lemma_valid_is_strict(u);
            }
            return None;
        } else {
            push_char(&mut s, char_of(x as u32));
            assert(rest.skip(1) =~= u.skip(i + 1));
            i = i + 1;
        }
        assert(s@ + utf16_lossy(u.skip(i as int)) =~= before + utf16_lossy(rest));
    }
    assert(u.skip(n as int) =~= Seq::<u16>::empty());
    assert(s@ + utf16_lossy(u.skip(n as int)) =~= s@);
    proof {
        lemma_units_of_lossy(u);
    }
    Some(s)
}

/// Decodes UTF-16 code units: `None` where they are not valid UTF-16.
pub fn utf16_to_string(units: &[u16]) -> (r: Option<String>)
    ensures
        valid_utf16(units@) ==> (r matches Some(s) && utf16_units(s@) == units@),
        !valid_utf16(units@) ==> r is None,
{
    from_utf16(units)
}

/// Decodes UTF-16 code units: the empty string where they are not valid UTF-16.
pub fn utf16_to_string_or_empty(units: &[u16]) -> (s: String)
    ensures
        valid_utf16(units@) ==> utf16_units(s@) == units@,
        !valid_utf16(units@) ==> s@ == Seq::<char>::empty(),
{
    match utf16_to_string(units) {
        Some(s) => s,
        None => String::new(),
    }
}

/// A text as it is stored: its number of UTF-16 units (as 16 bits), then
/// its UTF-16LE bytes.
pub open spec fn counted_text(s: Seq<char>) -> Seq<u8> {
    le16(((utf16le_bytes(s).len() % 65536) / 2) as u16) + utf16le_bytes(s)
}

/// Appends a text as it is stored: its count of UTF-16 units, then its bytes.
pub fn put_counted_text(data: &mut Vec<u8>, s: &str)
    ensures
        final(data)@ == old(data)@ + counted_text(s@),
{
    let bytes = string_to_utf16le(s);
    let count: u16 = ((bytes.len() % 65536) / 2) as u16;
    put_u16(data, count);
    put_bytes(data, bytes.as_slice());
    assert(data@ =~= old(data)@ + counted_text(s@));
}

/// The 16-bit little-endian code units of a byte sequence; a last odd byte
/// is left out.
pub fn units_of(data: &[u8]) -> (v: Vec<u16>)
    ensures
        v@ == units_at(data@, 0, (data@.len() / 2) as int),
{
    let n: usize = data.len();
    let ghost u = units_at(data@, 0, (data@.len() / 2) as int);
    let mut v: Vec<u16> = Vec::new();
    let mut i: usize = 0;
    while i < n / 2
        invariant
            n == data@.len(),
            u == units_at(data@, 0, (data@.len() / 2) as int),
            i <= n / 2,
            v@ == u.take(i as int),
        decreases n / 2 - i,
    {
        let c: u16 = u16_from(data[2 * i], data[2 * i + 1]);
        v.push(c);
        i = i + 1;
        assert(v@ =~= u.take(i as int));
    }
    assert(u.take(i as int) =~= u);
    v
}

/// The bytes of a sequence of units hold each unit at twice its index.
pub proof fn lemma_le16_all_units(u: Seq<u16>)
    ensures
        le16_all(u).len() == 2 * u.len(),
        forall|i: int| 0 <= i < u.len() ==> #[trigger] u16_le(le16_all(u), 2 * i) == u[i],
    decreases u.len(),
{
    if u.len() > 0 {
        let p = u.drop_last();
        lemma_le16_all_units(p);
        let b = le16_all(u);
        assert forall|i: int| 0 <= i < u.len() implies #[trigger] u16_le(b, 2 * i) == u[i] by {
            if i < p.len() {
                assert(b[2 * i] == le16_all(p)[2 * i]);
                assert(b[2 * i + 1] == le16_all(p)[2 * i + 1]);
                assert(u16_le(le16_all(p), 2 * i) == p[i]);
            } else {
                assert(b[2 * i] == le16(u.last())[0]);
                assert(b[2 * i + 1] == le16(u.last())[1]);
                lemma_le16_roundtrip(u.last());
            }
        }
    }
}

/// Reading back, from where they were put, the units a text was encoded
/// into gives those units.
pub proof fn lemma_units_at_encoded(pre: Seq<u8>, s: Seq<char>, post: Seq<u8>)
    ensures
        units_at(pre + utf16le_bytes(s) + post, pre.len() as int, utf16_units(s).len() as int) == utf16_units(s),
        utf16le_bytes(s).len() == 2 * utf16_units(s).len(),
{
    let u = utf16_units(s);
    let d = pre + utf16le_bytes(s) + post;
    lemma_le16_all_units(u);
    assert forall|i: int| 0 <= i < u.len() implies #[trigger] units_at(d, pre.len() as int, u.len() as int)[i] == u[i] by {
        assert(d[pre.len() + 2 * i] == le16_all(u)[2 * i]);
        assert(d[pre.len() + 2 * i + 1] == le16_all(u)[2 * i + 1]);
        assert(u16_le(le16_all(u), 2 * i) == u[i]);
    }
    assert(units_at(d, pre.len() as int, u.len() as int) =~= u);
}

/// A text has at least as many code units as characters, and none only when
/// it is empty.
pub proof fn lemma_utf16_units_len(s: Seq<char>)
    ensures
        utf16_units(s).len() >= s.len(),
    decreases s.len(),
{
    if s.len() > 0 {
        lemma_utf16_units_len(s.drop_last());
    }
}

/// The last unit of a character's encoding is a low surrogate exactly when
/// the character lies beyond the basic plane.
proof fn lemma_char_units(c: char)
    ensures
        (c as u32) < 0x10000 ==> utf16_of_char(c) == seq![c as u32 as u16] && !(0xDC00 <= c as u32 <= 0xDFFF),
        (c as u32) >= 0x10000 ==> utf16_of_char(c).len() == 2 && 0xD800 <= utf16_of_char(c)[0] <= 0xDBFF
            && 0xDC00 <= utf16_of_char(c)[1] <= 0xDFFF && c as u32 == 0x10000 + (utf16_of_char(c)[0] - 0xD800)
            * 0x400 + (utf16_of_char(c)[1] - 0xDC00),
{
    let x = c as u32;
    if x >= 0x10000 {
        assert(x <= 0x10FFFF);
        assert((x - 0x10000) / 0x400 <= 0x3FF);
    }
}

/// Different texts have different UTF-16 encodings.
pub proof fn lemma_utf16_units_injective(a: Seq<char>, b: Seq<char>)
    requires
        utf16_units(a) == utf16_units(b),
    ensures
        a == b,
    decreases a.len(),
{
    lemma_utf16_units_len(a);
    lemma_utf16_units_len(b);
    if a.len() == 0 {
        assert(b.len() == 0);
        assert(a =~= b);
    } else {
        assert(b.len() > 0);
        let ca = a.last();
        let cb = b.last();
        let pa = utf16_units(a.drop_last());
        let pb = utf16_units(b.drop_last());
        let ea = utf16_of_char(ca);
        let eb = utf16_of_char(cb);
        let u = utf16_units(a);
        assert(u == pa + ea);
        assert(u == pb + eb);
        lemma_char_units(ca);
        lemma_char_units(cb);
        assert(u.last() == ea.last());
        assert(u.last() == eb.last());
        if (ca as u32) < 0x10000 {
            assert(ea.last() == ca as u32 as u16);
            assert((cb as u32) < 0x10000);
            assert(ca as u32 == cb as u32);
        } else {
            assert((cb as u32) >= 0x10000);
            assert(u[u.len() - 2] == ea[0]);
            assert(u[u.len() - 2] == eb[0]);
            assert(ca as u32 == cb as u32);
        }
        vstd::utf8::char_u32_cast(ca, ca as u32);
        vstd::utf8::char_u32_cast(cb, cb as u32);
        assert(ca == cb);
        assert(pa =~= u.subrange(0, u.len() - ea.len()));
        assert(pb =~= u.subrange(0, u.len() - eb.len()));
        lemma_utf16_units_injective(a.drop_last(), b.drop_last());
        assert(a =~= a.drop_last().push(ca));
        assert(b =~= b.drop_last().push(cb));
    }
}

} // verus!
