use vstd::prelude::*;
use vstd::utf8::{decode_utf8, valid_utf8};
use crate::error::HwpError;
use crate::utils::bytes::{i32_le, u16_from, u16_le, u32_from, u32_le};
use crate::utils::text::{hex4, push_hex4, text_of};

verus! {

/// The metadata of the document summary (an OLE property set).
#[derive(Debug, Clone)]
pub struct SummaryInfo {
    pub title: Option<String>,
    pub subject: Option<String>,
    pub author: Option<String>,
    pub keywords: Option<String>,
    pub comments: Option<String>,
    pub last_saved_by: Option<String>,
    pub revision_number: Option<String>,
    pub creation_date: Option<i64>,
    pub last_saved_date: Option<i64>,
    pub page_count: Option<i32>,
    pub word_count: Option<i32>,
    pub char_count: Option<i32>,
}

/// The property set header is 28 bytes.
pub const PROPERTY_SET_HEADER_SIZE: usize = 28;
pub const PROPERTY_ID_TITLE: u32 = 0x02;
pub const PROPERTY_ID_SUBJECT: u32 = 0x03;
pub const PROPERTY_ID_AUTHOR: u32 = 0x04;
pub const PROPERTY_ID_KEYWORDS: u32 = 0x05;
pub const PROPERTY_ID_COMMENTS: u32 = 0x06;
pub const PROPERTY_ID_LAST_SAVED_BY: u32 = 0x08;
pub const PROPERTY_ID_REVISION_NUMBER: u32 = 0x09;
pub const PROPERTY_ID_CREATION_DATE: u32 = 0x0C;
pub const PROPERTY_ID_LAST_SAVED_DATE: u32 = 0x0D;
pub const PROPERTY_ID_PAGE_COUNT: u32 = 0x0E;
pub const PROPERTY_ID_WORD_COUNT: u32 = 0x0F;
pub const PROPERTY_ID_CHAR_COUNT: u32 = 0x10;
/// A string of single-byte characters.
pub const VT_LPSTR: u32 = 0x1E;
/// A 64-bit file time.
pub const VT_FILETIME: u32 = 0x40;
/// A signed 32-bit integer.
pub const VT_I4: u32 = 0x03;

/// Decodes bytes with the standard library's `String::from_utf8`,
/// documented to give the string where the bytes are valid UTF-8 and an error
/// otherwise; the error becomes `None`.
#[verifier::external_body]
pub(crate) fn string_from_utf8(bytes: Vec<u8>) -> (r: Option<String>)
    ensures
        r is Some <==> valid_utf8(bytes@),
        r matches Some(s) ==> s@ == decode_utf8(bytes@),
{
    String::from_utf8(bytes).ok()
}

/// Whether `k` is the index of the first zero byte of `b`.
pub open spec fn is_first_zero(b: Seq<u8>, k: int) -> bool {
    &&& 0 <= k < b.len()
    &&& b[k] == 0
    &&& forall|j: int| 0 <= j < k ==> b[j] != 0
}

/// The bytes of `b` before its first zero byte; all of `b` where it has none.
pub open spec fn bytes_until_nul(b: Seq<u8>) -> Seq<u8> {
    if exists|k: int| is_first_zero(b, k) {
        b.take(choose|k: int| is_first_zero(b, k))
    } else {
        b
    }
}

/// Where the property section begins.
pub open spec fn section_offset(d: Seq<u8>) -> int {
    u32_le(d, 44) as int
}

/// The number of properties the section announces.
pub open spec fn property_count(d: Seq<u8>) -> int {
    u32_le(d, section_offset(d) + 4) as int
}

/// Where the `i`-th entry (id and value offset) of the section lies.
pub open spec fn entry_pos(d: Seq<u8>, i: int) -> int {
    section_offset(d) + 8 + 8 * i
}

/// Whether the `i`-th entry lies within the data.
pub open spec fn entry_fits(d: Seq<u8>, i: int) -> bool {
    entry_pos(d, i) + 8 <= d.len()
}

/// The id of the `i`-th entry.
pub open spec fn entry_id(d: Seq<u8>, i: int) -> u32 {
    u32_le(d, entry_pos(d, i))
}

/// Where the value of the `i`-th entry lies.
pub open spec fn value_pos(d: Seq<u8>, i: int) -> int {
    section_offset(d) + u32_le(d, entry_pos(d, i) + 4)
}

/// Whether the type and first word of the `i`-th entry's value lie within
/// the data.
pub open spec fn entry_used(d: Seq<u8>, i: int) -> bool {
    value_pos(d, i) + 8 <= d.len()
}

/// From entry `i`, the index of the first entry not read: the announced
/// count, or the first entry that does not lie within the data.
pub open spec fn entries_from(d: Seq<u8>, i: int) -> int
    decreases property_count(d) - i,
{
    if i < 0 || i >= property_count(d) || !entry_fits(d, i) {
        i
    } else {
        entries_from(d, i + 1)
    }
}

/// The last of the first `n` entries with id `id` whose value lies within
/// the data; -1 where there is none.
pub open spec fn last_entry(d: Seq<u8>, id: u32, n: int) -> int
    decreases n,
{
    if n <= 0 {
        -1
    } else if entry_id(d, n - 1) == id && entry_used(d, n - 1) {
        n - 1
    } else {
        last_entry(d, id, n - 1)
    }
}

/// A string value of type `t` at `off`: its length, then its bytes up to the
/// first zero, decoded as UTF-8; none for another type, an empty or
/// overlong string, or bytes that are not UTF-8.
pub open spec fn string_value(d: Seq<u8>, off: int, t: u32) -> Option<Seq<char>> {
    if t != VT_LPSTR || d.len() < off + 8 {
        None
    } else {
        let n = u32_le(d, off + 4) as int;
        if n == 0 || d.len() < off + 8 + n {
            None
        } else {
            let b = bytes_until_nul(d.subrange(off + 8, off + 8 + n));
            if valid_utf8(b) { Some(decode_utf8(b)) } else { None }
        }
    }
}

/// A file time value of type `t` at `off`: the 64-bit value of its low and
/// high words, as a signed number.
pub open spec fn filetime_value(d: Seq<u8>, off: int, t: u32) -> Option<i64> {
    if t != VT_FILETIME || d.len() < off + 12 {
        None
    } else {
        Some((u32_le(d, off + 8) * 0x1_0000_0000 + u32_le(d, off + 4)) as i64)
    }
}

/// A signed 32-bit value of type `t` at `off`.
pub open spec fn i32_value(d: Seq<u8>, off: int, t: u32) -> Option<i32> {
    if t != VT_I4 || d.len() < off + 8 {
        None
    } else {
        Some(i32_le(d, off + 4))
    }
}

/// The string property `id` as the first `n` entries leave it.
pub open spec fn string_field(d: Seq<u8>, id: u32, n: int) -> Option<Seq<char>> {
    let k = last_entry(d, id, n);
    if k < 0 { None } else { string_value(d, value_pos(d, k), u32_le(d, value_pos(d, k))) }
}

/// The file time property `id` as the first `n` entries leave it.
pub open spec fn filetime_field(d: Seq<u8>, id: u32, n: int) -> Option<i64> {
    let k = last_entry(d, id, n);
    if k < 0 { None } else { filetime_value(d, value_pos(d, k), u32_le(d, value_pos(d, k))) }
}

/// The integer property `id` as the first `n` entries leave it.
pub open spec fn i32_field(d: Seq<u8>, id: u32, n: int) -> Option<i32> {
    let k = last_entry(d, id, n);
    if k < 0 { None } else { i32_value(d, value_pos(d, k), u32_le(d, value_pos(d, k))) }
}

/// The text of an optional string.
pub open spec fn text_view(o: Option<String>) -> Option<Seq<char>> {
    match o {
        Some(s) => Some(s@),
        None => None,
    }
}

/// Whether `info` holds the properties as the first `n` entries of `d` set
/// them.
pub open spec fn summary_after(info: SummaryInfo, d: Seq<u8>, n: int) -> bool {
    &&& text_view(info.title) == string_field(d, PROPERTY_ID_TITLE, n)
    &&& text_view(info.subject) == string_field(d, PROPERTY_ID_SUBJECT, n)
    &&& text_view(info.author) == string_field(d, PROPERTY_ID_AUTHOR, n)
    &&& text_view(info.keywords) == string_field(d, PROPERTY_ID_KEYWORDS, n)
    &&& text_view(info.comments) == string_field(d, PROPERTY_ID_COMMENTS, n)
    &&& text_view(info.last_saved_by) == string_field(d, PROPERTY_ID_LAST_SAVED_BY, n)
    &&& text_view(info.revision_number) == string_field(d, PROPERTY_ID_REVISION_NUMBER, n)
    &&& info.creation_date == filetime_field(d, PROPERTY_ID_CREATION_DATE, n)
    &&& info.last_saved_date == filetime_field(d, PROPERTY_ID_LAST_SAVED_DATE, n)
    &&& info.page_count == i32_field(d, PROPERTY_ID_PAGE_COUNT, n)
    &&& info.word_count == i32_field(d, PROPERTY_ID_WORD_COUNT, n)
    &&& info.char_count == i32_field(d, PROPERTY_ID_CHAR_COUNT, n)
}

/// The entry a property is read from is the last of the first `n` entries
/// with its id whose value lies within the data: later entries with the same
/// id override earlier ones, and where no entry has the id there is none.
pub proof fn law_last_entry_wins(d: Seq<u8>, id: u32, n: int)
    requires
        0 <= n,
    ensures
        ({
            let k = last_entry(d, id, n);
            &&& -1 <= k < n
            &&& k >= 0 ==> entry_id(d, k) == id && entry_used(d, k)
            &&& forall|j: int| k < j < n && 0 <= j ==> !(entry_id(d, j) == id && entry_used(d, j))
        }),
    decreases n,
{
    if n > 0 {
        law_last_entry_wins(d, id, n - 1);
        if !(entry_id(d, n - 1) == id && entry_used(d, n - 1)) {
            assert(last_entry(d, id, n) == last_entry(d, id, n - 1));
        }
    }
}

/// What `from_bytes` reads, by the property ids of the OLE summary
/// information property set: the title is the string of id 2 (PIDSI_TITLE),
/// the subject id 3, the author id 4 (PIDSI_AUTHOR), the keywords id 5, the
/// comments id 6, the last author id 8 (PIDSI_LASTAUTHOR), the revision
/// number id 9; the creation and last-saved times are the file times of ids
/// 12 and 13; the page, word and character counts are the integers of ids
/// 14, 15 and 16. Each is the value of the last entry with its id.
pub proof fn law_summary_property_ids(info: SummaryInfo, d: Seq<u8>, n: int)
    requires
        summary_after(info, d, n),
    ensures
        text_view(info.title) == string_field(d, 2, n),
        text_view(info.subject) == string_field(d, 3, n),
        text_view(info.author) == string_field(d, 4, n),
        text_view(info.keywords) == string_field(d, 5, n),
        text_view(info.comments) == string_field(d, 6, n),
        text_view(info.last_saved_by) == string_field(d, 8, n),
        text_view(info.revision_number) == string_field(d, 9, n),
        info.creation_date == filetime_field(d, 12, n),
        info.last_saved_date == filetime_field(d, 13, n),
        info.page_count == i32_field(d, 14, n),
        info.word_count == i32_field(d, 15, n),
        info.char_count == i32_field(d, 16, n),
{
}

/// Whether no property is set.
pub open spec fn no_properties(info: SummaryInfo) -> bool {
    &&& info.title is None && info.subject is None && info.author is None && info.keywords is None
    &&& info.comments is None && info.last_saved_by is None && info.revision_number is None
    &&& info.creation_date is None && info.last_saved_date is None
    &&& info.page_count is None && info.word_count is None && info.char_count is None
}

impl Default for SummaryInfo {
    fn default() -> (s: Self)
        ensures
            no_properties(s),
    {
        SummaryInfo {
            title: None,
            subject: None,
            author: None,
            keywords: None,
            comments: None,
            last_saved_by: None,
            revision_number: None,
            creation_date: None,
            last_saved_date: None,
            page_count: None,
            word_count: None,
            char_count: None,
        }
    }
}

/// An entry whose value does not lie within the data sets nothing.
proof fn lemma_unused_entry(info: SummaryInfo, d: Seq<u8>, i: int)
    requires
        0 <= i,
        summary_after(info, d, i),
        !entry_used(d, i),
    ensures
        summary_after(info, d, i + 1),
{
}

/// The bytes from `start` up to the first zero among the next `len` bytes.
fn bytes_until_zero(data: &[u8], start: usize, len: usize) -> (v: Vec<u8>)
    requires
        start + len <= data@.len(),
    ensures
        v@ == bytes_until_nul(data@.subrange(start as int, start + len)),
{
    let ghost b = data@.subrange(start as int, start + len);
    let n: usize = data.len();
    let mut v: Vec<u8> = Vec::new();
    let mut i: usize = 0;
    loop
        invariant_except_break
            i <= len,
            v@ == b.take(i as int),
            forall|j: int| 0 <= j < i ==> b[j] != 0,
        invariant
            n == data@.len(),
            start + len <= n,
            b == data@.subrange(start as int, start + len),
        ensures
            v@ == bytes_until_nul(b),
        decreases len - i,
    {
        if i == len {
            proof {
                assert(b.take(i as int) =~= b);
                assert(!exists|k: int| is_first_zero(b, k));
            }
            break;
        }
        let c: u8 = data[start + i];
        assert(c == b[i as int]);
        if c == 0 {
            proof {
                assert(is_first_zero(b, i as int));
                let k = choose|k: int| is_first_zero(b, k);
                assert(k == i as int) by {
                    if k < i {
                        assert(b[k] != 0);
                    }
                    if k > i {
                        assert(b[i as int] != 0);
                    }
                }
            }
            break;
        }
        v.push(c);
        i = i + 1;
        assert(v@ =~= b.take(i as int));
    }
    v
}

/// The 32-bit value at `off`.
fn word_at(data: &[u8], off: usize) -> (w: u32)
    requires
        off + 4 <= data@.len(),
    ensures
        w == u32_le(data@, off as int),
{
    u32_from(data[off], data[off + 1], data[off + 2], data[off + 3])
}

impl SummaryInfo {
    /// Reads the summary property set. Data under 28 bytes, or whose byte
    /// order mark is not 0xFFFE, is refused; data that ends before its
    /// section gives no properties. Otherwise each entry of the section is
    /// read in order while it lies within the data; an entry whose value
    /// does not is skipped, and an entry with a known id sets that property
    /// (to nothing where its value is not of the property's type).
    pub fn from_bytes(data: &[u8]) -> (res: Result<Self, HwpError>)
        ensures
            ({
                let d = data@;
                if d.len() < 28 || u16_le(d, 0) != 0xFFFE {
                    res matches Err(HwpError::ParseError(_))
                } else if d.len() < 48 || d.len() < section_offset(d) + 8 {
                    res matches Ok(info) && no_properties(info)
                } else {
                    res matches Ok(info) && summary_after(info, d, entries_from(d, 0))
                }
            }),
    {
        let n: usize = data.len();
        if n < PROPERTY_SET_HEADER_SIZE {
            return Err(HwpError::ParseError(text_of("SummaryInfo data too short")));
        }
        let byte_order: u16 = u16_from(data[0], data[1]);
        if byte_order != 0xFFFE {
            let mut m = text_of("Invalid OLE property byte order: 0x");
            push_hex4(&mut m, byte_order);
            return Err(HwpError::ParseError(m));
        }
        let mut info = SummaryInfo::default();
        if n < 48 {
            return Ok(info);
        }
        let section: u64 = word_at(data, 44) as u64;
        if (n as u64) < section + 8 {
            return Ok(info);
        }
        let count: u64 = word_at(data, (section + 4) as usize) as u64;
        let ghost d = data@;
        let mut i: u64 = 0;
        proof {
            assert(summary_after(info, d, 0));
        }
        while i < count
            invariant_except_break
                entries_from(d, i as int) == entries_from(d, 0),
            invariant
                d == data@,
                n == d.len(),
                section == section_offset(d),
                count == property_count(d),
                i <= count,
                summary_after(info, d, i as int),
            ensures
                summary_after(info, d, entries_from(d, 0)),
            decreases count - i,
        {
            let prop_offset: u64 = section + 8 + i * 8;
            if (n as u64) < prop_offset + 8 {
                break;
            }
            let p: usize = prop_offset as usize;
            let prop_id: u32 = word_at(data, p);
            let value_offset: u64 = word_at(data, p + 4) as u64;
            let absolute: u64 = section + value_offset;
            if (n as u64) < absolute + 8 {
                proof {
                    lemma_unused_entry(info, d, i as int);
                }
                i = i + 1;
                continue;
            }
            let off: usize = absolute as usize;
            let prop_type: u32 = word_at(data, off);
            Self::apply_property(&mut info, data, off, prop_id, prop_type, Ghost(i as int));
            i = i + 1;
        }
        Ok(info)
    }

    /// Sets the property that an entry with a known id names, from the value
    /// at `off`.
    #[verifier::spinoff_prover]
    fn apply_property(info: &mut Self, data: &[u8], off: usize, prop_id: u32, prop_type: u32, Ghost(i): Ghost<int>)
        requires
            0 <= i,
            summary_after(*old(info), data@, i),
            entry_id(data@, i) == prop_id,
            entry_used(data@, i),
            value_pos(data@, i) == off,
            prop_type == u32_le(data@, off as int),
        ensures
            summary_after(*final(info), data@, i + 1),
    {
        if prop_id == PROPERTY_ID_TITLE {
            info.title = Self::read_string_property(data, off, prop_type);
        } else if prop_id == PROPERTY_ID_SUBJECT {
            info.subject = Self::read_string_property(data, off, prop_type);
        } else if prop_id == PROPERTY_ID_AUTHOR {
            info.author = Self::read_string_property(data, off, prop_type);
        } else if prop_id == PROPERTY_ID_KEYWORDS {
            info.keywords = Self::read_string_property(data, off, prop_type);
        } else if prop_id == PROPERTY_ID_COMMENTS {
            info.comments = Self::read_string_property(data, off, prop_type);
        } else if prop_id == PROPERTY_ID_LAST_SAVED_BY {
            info.last_saved_by = Self::read_string_property(data, off, prop_type);
        } else if prop_id == PROPERTY_ID_REVISION_NUMBER {
            info.revision_number = Self::read_string_property(data, off, prop_type);
        } else if prop_id == PROPERTY_ID_CREATION_DATE {
            info.creation_date = Self::read_filetime_property(data, off, prop_type);
        } else if prop_id == PROPERTY_ID_LAST_SAVED_DATE {
            info.last_saved_date = Self::read_filetime_property(data, off, prop_type);
        } else if prop_id == PROPERTY_ID_PAGE_COUNT {
            info.page_count = Self::read_i32_property(data, off, prop_type);
        } else if prop_id == PROPERTY_ID_WORD_COUNT {
            info.word_count = Self::read_i32_property(data, off, prop_type);
        } else if prop_id == PROPERTY_ID_CHAR_COUNT {
            info.char_count = Self::read_i32_property(data, off, prop_type);
        }
    }

    /// A string value: its length, then its bytes up to the first zero,
    /// decoded as UTF-8.
    fn read_string_property(data: &[u8], offset: usize, prop_type: u32) -> (r: Option<String>)
        ensures
            text_view(r) == string_value(data@, offset as int, prop_type),
    {
        if prop_type != VT_LPSTR {
            return None;
        }
        if offset > data.len() || data.len() - offset < 8 {
            return None;
        }
        let str_len: usize = word_at(data, offset + 4) as usize;
        if str_len == 0 || data.len() - offset - 8 < str_len {
            return None;
        }
        let trimmed = bytes_until_zero(data, offset + 8, str_len);
        string_from_utf8(trimmed)
    }

    /// A file time value: low word, then high word.
    fn read_filetime_property(data: &[u8], offset: usize, prop_type: u32) -> (r: Option<i64>)
        ensures
            r == filetime_value(data@, offset as int, prop_type),
    {
        if prop_type != VT_FILETIME {
            return None;
        }
        if offset > data.len() || data.len() - offset < 12 {
            return None;
        }
        let low: u64 = word_at(data, offset + 4) as u64;
        let high: u64 = word_at(data, offset + 8) as u64;
        Some((high * 0x1_0000_0000 + low) as i64)
    }

    /// A signed 32-bit value.
    fn read_i32_property(data: &[u8], offset: usize, prop_type: u32) -> (r: Option<i32>)
        ensures
            r == i32_value(data@, offset as int, prop_type),
    {
        if prop_type != VT_I4 {
            return None;
        }
        if offset > data.len() || data.len() - offset < 8 {
            return None;
        }
        Some(crate::utils::bytes::to_i32(word_at(data, offset + 4)))
    }

    /// Whether a title, author, subject or keywords are set.
    pub fn has_metadata(&self) -> (b: bool)
        ensures
            b == (self.title is Some || self.author is Some || self.subject is Some || self.keywords is Some),
    {
        self.title.is_some() || self.author.is_some() || self.subject.is_some() || self.keywords.is_some()
    }
}

} // verus!
