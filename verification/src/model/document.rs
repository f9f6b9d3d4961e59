use vstd::prelude::*;
use crate::error::HwpError;
use crate::parser::record::Record;
use crate::utils::bytes::{le16, le32, lemma_u16_at, lemma_u32_at, put_u16, put_u32, u16_le, u32_le};
use crate::utils::chars::{chars_of, is_whitespace, whitespace};

verus! {

/// A point in time in UTC: whole seconds since 1970-01-01 00:00:00 and the
/// nanoseconds within the second.
#[derive(Debug, Clone, Copy, PartialEq, Eq, Structural)]
pub struct UtcTime {
    pub seconds: i64,
    pub nanoseconds: u32,
}

/// The standard library's system time, carried through unchanged.
#[verifier::external_type_specification]
#[verifier::external_body]
pub struct ExSystemTime(std::time::SystemTime);

/// The time by the system clock: `SystemTime::now`. Nothing is promised of
/// it; it is the clock's.
#[verifier::external_body]
fn clock_now() -> (t: std::time::SystemTime) {
    std::time::SystemTime::now()
}

/// The time between the Unix epoch and `t`: `SystemTime::duration_since`
/// with `UNIX_EPOCH`. Where `t` lies before the epoch the call's error is
/// turned into `Err` holding `SystemTimeError::duration`, the time from `t`
/// to the epoch. Nothing more is promised of either duration.
#[verifier::external_body]
fn since_unix_epoch(t: &std::time::SystemTime) -> (r: Result<std::time::Duration, std::time::Duration>) {
    match t.duration_since(std::time::UNIX_EPOCH) {
        Ok(d) => Ok(d),
        Err(e) => Err(e.duration()),
    }
}

/// The whole seconds of a duration: `Duration::as_secs`.
#[verifier::external_body]
fn whole_seconds(d: &std::time::Duration) -> (s: u64) {
    d.as_secs()
}

/// The nanoseconds of a duration within its last second:
/// `Duration::subsec_nanos`, documented to be under 1,000,000,000.
#[verifier::external_body]
fn subsecond_nanos(d: &std::time::Duration) -> (n: u32)
    ensures
        n < 1_000_000_000,
{
    d.subsec_nanos()
}

/// A UTC time from seconds and nanoseconds since the epoch:
/// `chrono::DateTime::from_timestamp`. It is documented to round-trip with
/// `timestamp` and `timestamp_subsec_nanos`, so a time it gives holds the
/// values it was given. Its source returns a time whenever the nanoseconds
/// are under 1,000,000,000 and the date lies between the years -262143 and
/// 262142, which holds for every second within 8,000,000,000,000 of the
/// epoch; beyond that it is not stated where it returns `None`.
#[verifier::external_body]
fn utc_from_timestamp(secs: i64, nsecs: u32) -> (r: Option<UtcTime>)
    ensures
        r matches Some(t) ==> t.seconds == secs && t.nanoseconds == nsecs,
        -8_000_000_000_000 <= secs <= 8_000_000_000_000 && nsecs < 1_000_000_000 ==> r is Some,
{
    match chrono::DateTime::from_timestamp(secs, nsecs) {
        Some(t) => Some(UtcTime { seconds: t.timestamp(), nanoseconds: t.timestamp_subsec_nanos() }),
        None => None,
    }
}

/// The system clock as seconds and nanoseconds since the epoch, a time
/// before the epoch counted back from it (the seconds below it, and the
/// nanoseconds after those seconds); the seconds are cut to 64 bits.
fn clock_reading() -> (r: (i64, u32))
    ensures
        r.1 < 1_000_000_000,
{
    let t = clock_now();
    match since_unix_epoch(&t) {
        Ok(d) => {
            let secs: u64 = whole_seconds(&d);
            let nsecs: u32 = subsecond_nanos(&d);
            (#[verifier::truncate] (secs as i64), nsecs)
        },
        Err(d) => {
            let secs: u64 = whole_seconds(&d);
            let nsecs: u32 = subsecond_nanos(&d);
            if nsecs == 0 {
                (#[verifier::truncate] ((0i128 - secs as i128) as i64), 0)
            } else {
                (#[verifier::truncate] ((0i128 - secs as i128 - 1) as i64), 1_000_000_000 - nsecs)
            }
        },
    }
}

/// The current time in UTC, as the system clock reads it. A reading that
/// `chrono` cannot hold as a date (more than about 250,000 years from the
/// epoch) is kept as the seconds and nanoseconds read.
fn now() -> (t: UtcTime)
    ensures
        t.nanoseconds < 1_000_000_000,
{
    let (secs, nsecs) = clock_reading();
    match utc_from_timestamp(secs, nsecs) {
        Some(t) => t,
        None => UtcTime { seconds: secs, nanoseconds: nsecs },
    }
}

/// The document properties record: numbering starts, character counts and
/// metadata.
#[derive(Debug)]
pub struct DocumentProperties {
    pub section_count: u16,
    pub page_start_number: u16,
    pub footnote_start_number: u16,
    pub endnote_start_number: u16,
    pub picture_start_number: u16,
    pub table_start_number: u16,
    pub equation_start_number: u16,
    pub total_character_count: u32,
    pub hangul_character_count: u32,
    pub english_character_count: u32,
    pub hanja_character_count: u32,
    pub japanese_character_count: u32,
    pub other_character_count: u32,
    pub symbol_character_count: u32,
    pub space_character_count: u32,
    pub total_page_count: u32,
    pub total_word_count: u32,
    pub line_count: u32,
    pub document_title: Option<String>,
    pub document_subject: Option<String>,
    pub document_author: Option<String>,
    pub document_company: Option<String>,
    pub document_keywords: Option<String>,
    pub creation_date: Option<UtcTime>,
    pub last_modified_date: Option<UtcTime>,
    pub last_print_date: Option<UtcTime>,
    pub revision_number: u32,
    pub edit_time_minutes: u32,
    pub password_protected: bool,
    pub read_only: bool,
    pub compressed: bool,
}

/// A block of text with the formatting ids of its paragraph.
#[derive(Debug, Clone)]
pub struct FormattedText {
    pub text: String,
    pub char_shape_id: Option<u16>,
    pub para_shape_id: Option<u16>,
    pub style_id: Option<u8>,
}

/// Whether a code lies in a Hangul block: syllables, jamo, compatibility
/// jamo, or the extended jamo blocks.
pub open spec fn hangul_code(x: u32) -> bool {
    (0xAC00 <= x && x <= 0xD7AF) || (0x1100 <= x && x <= 0x11FF) || (0x3130 <= x && x <= 0x318F) || (0xA960
        <= x && x <= 0xA97F) || (0xD7B0 <= x && x <= 0xD7FF)
}

/// Whether a code lies in a block of CJK unified ideographs (the basic block
/// and extensions A to F).
pub open spec fn hanja_code(x: u32) -> bool {
    (0x4E00 <= x && x <= 0x9FFF) || (0x3400 <= x && x <= 0x4DBF) || (0x20000 <= x && x <= 0x2A6DF) || (0x2A700
        <= x && x <= 0x2B73F) || (0x2B740 <= x && x <= 0x2B81F) || (0x2B820 <= x && x <= 0x2CEAF) || (0x2CEB0
        <= x && x <= 0x2EBEF)
}

/// Whether a code lies in Hiragana, Katakana or the Katakana phonetic
/// extensions.
pub open spec fn japanese_code(x: u32) -> bool {
    (0x3040 <= x && x <= 0x309F) || (0x30A0 <= x && x <= 0x30FF) || (0x31F0 <= x && x <= 0x31FF)
}

/// Whether a code is an ASCII letter.
pub open spec fn ascii_letter(x: u32) -> bool {
    (0x41 <= x && x <= 0x5A) || (0x61 <= x && x <= 0x7A)
}

/// Whether a code is an ASCII punctuation mark or digit.
pub open spec fn ascii_symbol(x: u32) -> bool {
    (0x21 <= x && x <= 0x2F) || (0x30 <= x && x <= 0x39) || (0x3A <= x && x <= 0x40) || (0x5B <= x && x
        <= 0x60) || (0x7B <= x && x <= 0x7E)
}

/// The class a character is counted in: 0 whitespace, 1 Hangul, 2 English
/// letter, 3 Hanja, 4 Japanese, 5 symbol (ASCII punctuation or digit), 6
/// other; the first that applies.
pub open spec fn char_class(c: char) -> int {
    if whitespace(c) {
        0
    } else if hangul_code(c as u32) {
        1
    } else if ascii_letter(c as u32) {
        2
    } else if hanja_code(c as u32) {
        3
    } else if japanese_code(c as u32) {
        4
    } else if ascii_symbol(c as u32) {
        5
    } else {
        6
    }
}

/// The number of characters of `s` in class `k`.
pub open spec fn class_count(s: Seq<char>, k: int) -> nat
    decreases s.len(),
{
    if s.len() == 0 {
        0
    } else {
        class_count(s.drop_last(), k) + if char_class(s.last()) == k {
            1nat
        } else {
            0nat
        }
    }
}

/// The scripts a character is counted in, by Unicode block: whitespace as
/// whitespace; Hangul syllables (U+AC00 to U+D7AF), Hangul jamo (U+1100 to
/// U+11FF), compatibility jamo (U+3130 to U+318F) and the extended jamo
/// blocks (U+A960 to U+A97F, U+D7B0 to U+D7FF) as Hangul; the ASCII letters
/// as English; the CJK unified ideographs (U+4E00 to U+9FFF) and extension A
/// (U+3400 to U+4DBF) and extensions B to F (U+20000 to U+2EBEF, but for
/// the unassigned U+2A6E0 to U+2A6FF) as Hanja; ASCII digits and
/// punctuation as symbols.
pub proof fn law_script_classes(c: char)
    ensures
        whitespace(c) ==> char_class(c) == 0,
        (0xAC00 <= c as u32 <= 0xD7AF) || (0x1100 <= c as u32 <= 0x11FF) || (0x3130 <= c as u32 <= 0x318F)
            || (0xA960 <= c as u32 <= 0xA97F) || (0xD7B0 <= c as u32 <= 0xD7FF) ==> char_class(c) == 1,
        (0x41 <= c as u32 <= 0x5A) || (0x61 <= c as u32 <= 0x7A) ==> char_class(c) == 2,
        (0x4E00 <= c as u32 <= 0x9FFF) || (0x3400 <= c as u32 <= 0x4DBF) || (0x20000 <= c as u32 <= 0x2A6DF)
            || (0x2A700 <= c as u32 <= 0x2EBEF) ==> char_class(c) == 3,
        (0x21 <= c as u32 <= 0x40) || (0x5B <= c as u32 <= 0x60) || (0x7B <= c as u32 <= 0x7E) ==> char_class(c) == 5,
{
}

/// Every character of the Hiragana (U+3040 to U+309F), Katakana (U+30A0 to
/// U+30FF) and Katakana Phonetic Extensions (U+31F0 to U+31FF) blocks is
/// counted as Japanese: none of them is whitespace, Hangul, an English
/// letter or Hanja.
pub proof fn law_kana_is_japanese(c: char)
    requires
        (0x3040 <= c as u32 <= 0x309F) || (0x30A0 <= c as u32 <= 0x30FF) || (0x31F0 <= c as u32 <= 0x31FF),
    ensures
        char_class(c) == 4,
{
}

/// A text made only of kana counts every character as Japanese and none in
/// any other class.
pub proof fn law_kana_text_counts(s: Seq<char>)
    requires
        forall|i: int| 0 <= i < s.len() ==> (0x3040 <= #[trigger] s[i] as u32 <= 0x309F) || (0x30A0 <= s[i] as u32
            <= 0x30FF) || (0x31F0 <= s[i] as u32 <= 0x31FF),
    ensures
        class_count(s, 4) == s.len(),
        forall|k: int| k != 4 ==> class_count(s, k) == 0,
    decreases s.len(),
{
    if s.len() > 0 {
        let t = s.drop_last();
        assert forall|i: int| 0 <= i < t.len() implies (0x3040 <= #[trigger] t[i] as u32 <= 0x309F) || (0x30A0 <= t[i] as u32
            <= 0x30FF) || (0x31F0 <= t[i] as u32 <= 0x31FF) by {
            assert(t[i] == s[i]);
        }
        law_kana_text_counts(t);
        let c = s[s.len() - 1];
        assert(c == s.last());
        law_kana_is_japanese(c);
        assert forall|k: int| k != 4 implies class_count(s, k) == 0 by {
            assert(class_count(t, k) == 0);
        }
    }
}

/// The number of words of `s`: runs of characters that are not whitespace.
pub open spec fn word_count(s: Seq<char>) -> nat
    decreases s.len(),
{
    if s.len() == 0 {
        0
    } else {
        word_count(s.drop_last()) + if !whitespace(s.last()) && (s.len() == 1 || whitespace(s[s.len() - 2])) {
            1nat
        } else {
            0nat
        }
    }
}

/// The number of line feeds in `s`.
pub open spec fn newline_count(s: Seq<char>) -> nat
    decreases s.len(),
{
    if s.len() == 0 {
        0
    } else {
        newline_count(s.drop_last()) + if s.last() == '\n' {
            1nat
        } else {
            0nat
        }
    }
}

/// The number of lines of `s`: its line feeds, and one more where it does
/// not end with one; none for the empty text.
pub open spec fn line_count(s: Seq<char>) -> nat {
    newline_count(s) + if s.len() > 0 && s.last() != '\n' {
        1nat
    } else {
        0nat
    }
}

/// The properties with the counts of `s`: each class count, the total, the
/// words and the lines; everything else as in `p`.
pub open spec fn with_counts(p: DocumentProperties, s: Seq<char>) -> DocumentProperties {
    DocumentProperties {
        total_character_count: s.len() as u32,
        space_character_count: class_count(s, 0) as u32,
        hangul_character_count: class_count(s, 1) as u32,
        english_character_count: class_count(s, 2) as u32,
        hanja_character_count: class_count(s, 3) as u32,
        japanese_character_count: class_count(s, 4) as u32,
        symbol_character_count: class_count(s, 5) as u32,
        other_character_count: class_count(s, 6) as u32,
        total_word_count: word_count(s) as u32,
        line_count: line_count(s) as u32,
        ..p
    }
}

/// The properties with the counts of `s` added to those of `p`.
pub open spec fn plus_counts(p: DocumentProperties, s: Seq<char>) -> DocumentProperties {
    DocumentProperties {
        total_character_count: (p.total_character_count + s.len()) as u32,
        space_character_count: (p.space_character_count + class_count(s, 0)) as u32,
        hangul_character_count: (p.hangul_character_count + class_count(s, 1)) as u32,
        english_character_count: (p.english_character_count + class_count(s, 2)) as u32,
        hanja_character_count: (p.hanja_character_count + class_count(s, 3)) as u32,
        japanese_character_count: (p.japanese_character_count + class_count(s, 4)) as u32,
        symbol_character_count: (p.symbol_character_count + class_count(s, 5)) as u32,
        other_character_count: (p.other_character_count + class_count(s, 6)) as u32,
        total_word_count: (p.total_word_count + word_count(s)) as u32,
        line_count: (p.line_count + line_count(s)) as u32,
        ..p
    }
}

/// Whether adding the counts of `s` to those of `p` stays within 32 bits.
pub open spec fn counts_fit(p: DocumentProperties, s: Seq<char>) -> bool {
    &&& p.total_character_count + s.len() <= u32::MAX
    &&& p.space_character_count + class_count(s, 0) <= u32::MAX
    &&& p.hangul_character_count + class_count(s, 1) <= u32::MAX
    &&& p.english_character_count + class_count(s, 2) <= u32::MAX
    &&& p.hanja_character_count + class_count(s, 3) <= u32::MAX
    &&& p.japanese_character_count + class_count(s, 4) <= u32::MAX
    &&& p.symbol_character_count + class_count(s, 5) <= u32::MAX
    &&& p.other_character_count + class_count(s, 6) <= u32::MAX
    &&& p.total_word_count + word_count(s) <= u32::MAX
    &&& p.line_count + line_count(s) <= u32::MAX
}

/// Whether every value of `p` is zero, false or absent.
pub open spec fn all_unset(p: DocumentProperties) -> bool {
    &&& p.section_count == 0 && p.page_start_number == 0 && p.footnote_start_number == 0
    &&& p.endnote_start_number == 0 && p.picture_start_number == 0 && p.table_start_number == 0
    &&& p.equation_start_number == 0
    &&& p.total_character_count == 0 && p.hangul_character_count == 0 && p.english_character_count == 0
    &&& p.hanja_character_count == 0 && p.japanese_character_count == 0 && p.other_character_count == 0
    &&& p.symbol_character_count == 0 && p.space_character_count == 0
    &&& p.total_page_count == 0 && p.total_word_count == 0 && p.line_count == 0
    &&& p.document_title is None && p.document_subject is None && p.document_author is None
    &&& p.document_company is None && p.document_keywords is None
    &&& p.creation_date is None && p.last_modified_date is None && p.last_print_date is None
    &&& p.revision_number == 0 && p.edit_time_minutes == 0
    &&& !p.password_protected && !p.read_only && !p.compressed
}

/// The flag word: password protection, read-only, compression.
pub open spec fn property_flags(p: DocumentProperties) -> u32 {
    ((if p.password_protected { 1int } else { 0 }) + (if p.read_only { 2int } else { 0 }) + (if p.compressed {
        4int
    } else {
        0
    })) as u32
}

/// The bytes of the properties.
pub open spec fn properties_bytes(p: DocumentProperties) -> Seq<u8> {
    le16(p.section_count) + le16(p.page_start_number) + le16(p.footnote_start_number) + le16(
        p.endnote_start_number,
    ) + le16(p.picture_start_number) + le16(p.table_start_number) + le16(p.equation_start_number) + le32(
        p.total_character_count,
    ) + le32(p.hangul_character_count) + le32(p.english_character_count) + le32(p.hanja_character_count)
        + le32(p.japanese_character_count) + le32(p.other_character_count) + le32(p.symbol_character_count)
        + le32(p.space_character_count) + le32(p.total_page_count) + le32(p.total_word_count) + le32(
        p.line_count,
    ) + le32(p.revision_number) + le32(p.edit_time_minutes) + le32(property_flags(p))
}

/// A 16-bit value of a properties record: read where the record holds it,
/// zero otherwise.
pub open spec fn stored_u16(d: Seq<u8>, offset: int) -> u16 {
    if d.len() >= offset + 2 { u16_le(d, offset) } else { 0 }
}

/// A 32-bit value of a properties record: read where the record holds it,
/// zero otherwise.
pub open spec fn stored_u32(d: Seq<u8>, offset: int) -> u32 {
    if d.len() >= offset + 4 { u32_le(d, offset) } else { 0 }
}

/// Whether `p` holds the properties stored in `d`: every value the record
/// holds, the rest unset.
pub open spec fn properties_from(p: DocumentProperties, d: Seq<u8>) -> bool {
    &&& p.section_count == stored_u16(d, 0)
    &&& p.page_start_number == stored_u16(d, 2)
    &&& p.footnote_start_number == stored_u16(d, 4)
    &&& p.endnote_start_number == stored_u16(d, 6)
    &&& p.picture_start_number == stored_u16(d, 8)
    &&& p.table_start_number == stored_u16(d, 10)
    &&& p.equation_start_number == stored_u16(d, 12)
    &&& p.total_character_count == stored_u32(d, 14)
    &&& p.hangul_character_count == stored_u32(d, 18)
    &&& p.english_character_count == stored_u32(d, 22)
    &&& p.hanja_character_count == stored_u32(d, 26)
    &&& p.japanese_character_count == stored_u32(d, 30)
    &&& p.other_character_count == stored_u32(d, 34)
    &&& p.symbol_character_count == stored_u32(d, 38)
    &&& p.space_character_count == stored_u32(d, 42)
    &&& p.total_page_count == stored_u32(d, 46)
    &&& p.total_word_count == stored_u32(d, 50)
    &&& p.line_count == stored_u32(d, 54)
    &&& p.document_title is None && p.document_subject is None && p.document_author is None
    &&& p.document_company is None && p.document_keywords is None
    &&& p.creation_date is None && p.last_modified_date is None && p.last_print_date is None
    &&& p.revision_number == 0 && p.edit_time_minutes == 0
    &&& !p.password_protected && !p.read_only && !p.compressed
}

impl Default for DocumentProperties {
    fn default() -> (p: Self)
        ensures
            all_unset(p),
    {
        DocumentProperties {
            section_count: 0,
            page_start_number: 0,
            footnote_start_number: 0,
            endnote_start_number: 0,
            picture_start_number: 0,
            table_start_number: 0,
            equation_start_number: 0,
            total_character_count: 0,
            hangul_character_count: 0,
            english_character_count: 0,
            hanja_character_count: 0,
            japanese_character_count: 0,
            other_character_count: 0,
            symbol_character_count: 0,
            space_character_count: 0,
            total_page_count: 0,
            total_word_count: 0,
            line_count: 0,
            document_title: None,
            document_subject: None,
            document_author: None,
            document_company: None,
            document_keywords: None,
            creation_date: None,
            last_modified_date: None,
            last_print_date: None,
            revision_number: 0,
            edit_time_minutes: 0,
            password_protected: false,
            read_only: false,
            compressed: false,
        }
    }
}

/// Whether a character lies in a Hangul block.
fn is_hangul(ch: char) -> (b: bool)
    ensures
        b == hangul_code(ch as u32),
{
    let x: u32 = ch as u32;
    (0xAC00 <= x && x <= 0xD7AF) || (0x1100 <= x && x <= 0x11FF) || (0x3130 <= x && x <= 0x318F) || (0xA960
        <= x && x <= 0xA97F) || (0xD7B0 <= x && x <= 0xD7FF)
}

/// Whether a character is a CJK unified ideograph.
fn is_hanja(ch: char) -> (b: bool)
    ensures
        b == hanja_code(ch as u32),
{
    let x: u32 = ch as u32;
    (0x4E00 <= x && x <= 0x9FFF) || (0x3400 <= x && x <= 0x4DBF) || (0x20000 <= x && x <= 0x2A6DF) || (0x2A700
        <= x && x <= 0x2B73F) || (0x2B740 <= x && x <= 0x2B81F) || (0x2B820 <= x && x <= 0x2CEAF) || (0x2CEB0
        <= x && x <= 0x2EBEF)
}

/// Whether a character is Hiragana or Katakana.
fn is_japanese(ch: char) -> (b: bool)
    ensures
        b == japanese_code(ch as u32),
{
    let x: u32 = ch as u32;
    (0x3040 <= x && x <= 0x309F) || (0x30A0 <= x && x <= 0x30FF) || (0x31F0 <= x && x <= 0x31FF)
}

/// The class a character is counted in.
fn classify(ch: char) -> (k: u8)
    ensures
        k == char_class(ch),
{
    let x: u32 = ch as u32;
    if is_whitespace(ch) {
        0
    } else if is_hangul(ch) {
        1
    } else if (0x41 <= x && x <= 0x5A) || (0x61 <= x && x <= 0x7A) {
        2
    } else if is_hanja(ch) {
        3
    } else if is_japanese(ch) {
        4
    } else if (0x21 <= x && x <= 0x2F) || (0x30 <= x && x <= 0x39) || (0x3A <= x && x <= 0x40) || (0x5B
        <= x && x <= 0x60) || (0x7B <= x && x <= 0x7E) {
        5
    } else {
        6
    }
}

/// The number of words of a text.
fn count_words(s: &Vec<char>) -> (n: usize)
    ensures
        n == word_count(s@),
{
    let mut n: usize = 0;
    let mut i: usize = 0;
    let mut in_space: bool = true;
    while i < s.len()
        invariant
            i <= s@.len(),
            n == word_count(s@.take(i as int)),
            n <= i,
            in_space == (i == 0 || whitespace(s@[i - 1])),
        decreases s.len() - i,
    {
        let ws: bool = is_whitespace(s[i]);
        proof {
            assert(s@.take(i + 1).drop_last() =~= s@.take(i as int));
            if i > 0 {
                assert(s@.take(i + 1)[i - 1] == s@[i - 1]);
            }
        }
        if !ws && in_space {
            n = n + 1;
        }
        in_space = ws;
        i = i + 1;
    }
    assert(s@.take(i as int) =~= s@);
    n
}

/// The number of lines of a text.
fn count_lines(s: &Vec<char>) -> (n: usize)
    ensures
        n == line_count(s@),
{
    let mut n: usize = 0;
    let mut i: usize = 0;
    while i < s.len()
        invariant
            i <= s@.len(),
            n == newline_count(s@.take(i as int)),
            n <= i,
        decreases s.len() - i,
    {
        proof {
            assert(s@.take(i + 1).drop_last() =~= s@.take(i as int));
        }
        if s[i] == '\n' {
            n = n + 1;
        }
        i = i + 1;
    }
    assert(s@.take(i as int) =~= s@);
    if s.len() > 0 && s[s.len() - 1] != '\n' {
        proof {
            lemma_newline_count_bound(s@.drop_last());
        }
        n = n + 1;
    }
    n
}

impl DocumentProperties {
    /// Properties for a new document: one section, numbering from 1, one
    /// page, revision 1, compressed, created and modified now.
    pub fn new() -> (p: Self)
        ensures
            p.section_count == 1 && p.page_start_number == 1 && p.footnote_start_number == 1,
            p.endnote_start_number == 1 && p.picture_start_number == 1 && p.table_start_number == 1,
            p.equation_start_number == 1,
            p.total_character_count == 0 && p.hangul_character_count == 0 && p.english_character_count == 0,
            p.hanja_character_count == 0 && p.japanese_character_count == 0 && p.other_character_count == 0,
            p.symbol_character_count == 0 && p.space_character_count == 0,
            p.total_page_count == 1 && p.total_word_count == 0 && p.line_count == 0,
            p.document_title is None && p.document_subject is None && p.document_author is None,
            p.document_company is None && p.document_keywords is None,
            p.creation_date is Some && p.creation_date == p.last_modified_date && p.last_print_date is None,
            p.revision_number == 1 && p.edit_time_minutes == 0,
            !p.password_protected && !p.read_only && p.compressed,
    {
        let t = now();
        DocumentProperties {
            section_count: 1,
            page_start_number: 1,
            footnote_start_number: 1,
            endnote_start_number: 1,
            picture_start_number: 1,
            table_start_number: 1,
            equation_start_number: 1,
            total_character_count: 0,
            hangul_character_count: 0,
            english_character_count: 0,
            hanja_character_count: 0,
            japanese_character_count: 0,
            other_character_count: 0,
            symbol_character_count: 0,
            space_character_count: 0,
            total_page_count: 1,
            total_word_count: 0,
            line_count: 0,
            document_title: None,
            document_subject: None,
            document_author: None,
            document_company: None,
            document_keywords: None,
            creation_date: Some(t),
            last_modified_date: Some(t),
            last_print_date: None,
            revision_number: 1,
            edit_time_minutes: 0,
            password_protected: false,
            read_only: false,
            compressed: true,
        }
    }

    /// Stamps the modification time with the current time and counts one more
    /// revision.
    pub fn update_modified_date(&mut self)
        requires
            old(self).revision_number < u32::MAX,
        ensures
            final(self).last_modified_date is Some,
            *final(self) == (DocumentProperties {
                last_modified_date: final(self).last_modified_date,
                revision_number: (old(self).revision_number + 1) as u32,
                ..*old(self)
            }),
    {
        self.last_modified_date = Some(now());
        self.revision_number = self.revision_number + 1;
    }

    /// Stamps the print time with the current time.
    pub fn mark_printed(&mut self)
        ensures
            final(self).last_print_date is Some,
            *final(self) == (DocumentProperties { last_print_date: final(self).last_print_date, ..*old(self) }),
    {
        self.last_print_date = Some(now());
    }

    /// Sets the title and stamps a new revision.
    pub fn set_title(&mut self, title: String)
        requires
            old(self).revision_number < u32::MAX,
        ensures
            final(self).last_modified_date is Some,
            *final(self) == (DocumentProperties {
                document_title: Some(title),
                last_modified_date: final(self).last_modified_date,
                revision_number: (old(self).revision_number + 1) as u32,
                ..*old(self)
            }),
    {
        self.document_title = Some(title);
        self.update_modified_date();
    }

    /// Sets the author and stamps a new revision.
    pub fn set_author(&mut self, author: String)
        requires
            old(self).revision_number < u32::MAX,
        ensures
            final(self).last_modified_date is Some,
            *final(self) == (DocumentProperties {
                document_author: Some(author),
                last_modified_date: final(self).last_modified_date,
                revision_number: (old(self).revision_number + 1) as u32,
                ..*old(self)
            }),
    {
        self.document_author = Some(author);
        self.update_modified_date();
    }

    /// Sets the subject and stamps a new revision.
    pub fn set_subject(&mut self, subject: String)
        requires
            old(self).revision_number < u32::MAX,
        ensures
            final(self).last_modified_date is Some,
            *final(self) == (DocumentProperties {
                document_subject: Some(subject),
                last_modified_date: final(self).last_modified_date,
                revision_number: (old(self).revision_number + 1) as u32,
                ..*old(self)
            }),
    {
        self.document_subject = Some(subject);
        self.update_modified_date();
    }

    /// Sets the company and stamps a new revision.
    pub fn set_company(&mut self, company: String)
        requires
            old(self).revision_number < u32::MAX,
        ensures
            final(self).last_modified_date is Some,
            *final(self) == (DocumentProperties {
                document_company: Some(company),
                last_modified_date: final(self).last_modified_date,
                revision_number: (old(self).revision_number + 1) as u32,
                ..*old(self)
            }),
    {
        self.document_company = Some(company);
        self.update_modified_date();
    }

    /// Sets the keywords and stamps a new revision.
    pub fn set_keywords(&mut self, keywords: String)
        requires
            old(self).revision_number < u32::MAX,
        ensures
            final(self).last_modified_date is Some,
            *final(self) == (DocumentProperties {
                document_keywords: Some(keywords),
                last_modified_date: final(self).last_modified_date,
                revision_number: (old(self).revision_number + 1) as u32,
                ..*old(self)
            }),
    {
        self.document_keywords = Some(keywords);
        self.update_modified_date();
    }

    /// Sets password protection and stamps a new revision.
    pub fn set_password_protected(&mut self, protected: bool)
        requires
            old(self).revision_number < u32::MAX,
        ensures
            final(self).last_modified_date is Some,
            *final(self) == (DocumentProperties {
                password_protected: protected,
                last_modified_date: final(self).last_modified_date,
                revision_number: (old(self).revision_number + 1) as u32,
                ..*old(self)
            }),
    {
        self.password_protected = protected;
        self.update_modified_date();
    }

    /// Sets the read-only flag and stamps a new revision.
    pub fn set_read_only(&mut self, read_only: bool)
        requires
            old(self).revision_number < u32::MAX,
        ensures
            final(self).last_modified_date is Some,
            *final(self) == (DocumentProperties {
                read_only,
                last_modified_date: final(self).last_modified_date,
                revision_number: (old(self).revision_number + 1) as u32,
                ..*old(self)
            }),
    {
        self.read_only = read_only;
        self.update_modified_date();
    }

    /// Sets compression and stamps a new revision.
    pub fn set_compressed(&mut self, compressed: bool)
        requires
            old(self).revision_number < u32::MAX,
        ensures
            final(self).last_modified_date is Some,
            *final(self) == (DocumentProperties {
                compressed,
                last_modified_date: final(self).last_modified_date,
                revision_number: (old(self).revision_number + 1) as u32,
                ..*old(self)
            }),
    {
        self.compressed = compressed;
        self.update_modified_date();
    }

    /// Counts the characters of `text` by class, its words and its lines,
    /// replacing the previous counts.
    pub fn calculate_character_counts(&mut self, text: &str)
        requires
            text@.len() <= u32::MAX,
        ensures
            *final(self) == with_counts(*old(self), text@),
    {
        let chars = chars_of(text);
        let ghost s = text@;
        let mut counts: [u32; 7] = [0, 0, 0, 0, 0, 0, 0];
        let mut i: usize = 0;
        while i < chars.len()
            invariant
                chars@ == s,
                s.len() <= u32::MAX,
                i <= s.len(),
                forall|k: int| 0 <= k < 7 ==> #[trigger] counts@[k] == class_count(s.take(i as int), k),
            decreases chars.len() - i,
        {
            let k: u8 = classify(chars[i]);
            proof {
                assert(s.take(i + 1).drop_last() =~= s.take(i as int));
                assert(s.take(i + 1).last() == s[i as int]);
                lemma_class_count_bound(s.take(i as int));
                assert(counts@[k as int] == class_count(s.take(i as int), k as int));
            }
            let j: usize = k as usize;
            counts.set(j, counts[j] + 1);
            i = i + 1;
        }
        assert(s.take(i as int) =~= s);
        let words: usize = count_words(&chars);
        let lines: usize = count_lines(&chars);
        proof {
            lemma_word_count_bound(s);
            lemma_line_count_bound(s);
        }
        self.total_character_count = chars.len() as u32;
        self.space_character_count = counts[0];
        self.hangul_character_count = counts[1];
        self.english_character_count = counts[2];
        self.hanja_character_count = counts[3];
        self.japanese_character_count = counts[4];
        self.symbol_character_count = counts[5];
        self.other_character_count = counts[6];
        self.total_word_count = words as u32;
        self.line_count = lines as u32;
    }

    /// Adds the counts of `text` to the present counts.
    pub fn add_character_counts(&mut self, text: &str)
        requires
            text@.len() <= u32::MAX,
            counts_fit(*old(self), text@),
        ensures
            *final(self) == plus_counts(*old(self), text@),
    {
        let mut temp = DocumentProperties::default();
        temp.calculate_character_counts(text);
        proof {
            lemma_word_count_bound(text@);
            lemma_line_count_bound(text@);
            lemma_class_count_bound(text@);
        }
        self.total_character_count = self.total_character_count + temp.total_character_count;
        self.hangul_character_count = self.hangul_character_count + temp.hangul_character_count;
        self.english_character_count = self.english_character_count + temp.english_character_count;
        self.hanja_character_count = self.hanja_character_count + temp.hanja_character_count;
        self.japanese_character_count = self.japanese_character_count + temp.japanese_character_count;
        self.other_character_count = self.other_character_count + temp.other_character_count;
        self.symbol_character_count = self.symbol_character_count + temp.symbol_character_count;
        self.space_character_count = self.space_character_count + temp.space_character_count;
        self.total_word_count = self.total_word_count + temp.total_word_count;
        self.line_count = self.line_count + temp.line_count;
    }

    /// The bytes of the properties: the seven numbering starts, the eight
    /// character counts, pages, words, lines, revision, editing time and the
    /// flag word.
    pub fn to_bytes(&self) -> (bytes: Vec<u8>)
        ensures
            bytes@ == properties_bytes(*self),
    {
        let mut data: Vec<u8> = Vec::new();
        put_u16(&mut data, self.section_count);
        put_u16(&mut data, self.page_start_number);
        put_u16(&mut data, self.footnote_start_number);
        put_u16(&mut data, self.endnote_start_number);
        put_u16(&mut data, self.picture_start_number);
        put_u16(&mut data, self.table_start_number);
        put_u16(&mut data, self.equation_start_number);
        put_u32(&mut data, self.total_character_count);
        put_u32(&mut data, self.hangul_character_count);
        put_u32(&mut data, self.english_character_count);
        put_u32(&mut data, self.hanja_character_count);
        put_u32(&mut data, self.japanese_character_count);
        put_u32(&mut data, self.other_character_count);
        put_u32(&mut data, self.symbol_character_count);
        put_u32(&mut data, self.space_character_count);
        put_u32(&mut data, self.total_page_count);
        put_u32(&mut data, self.total_word_count);
        put_u32(&mut data, self.line_count);
        put_u32(&mut data, self.revision_number);
        put_u32(&mut data, self.edit_time_minutes);
        let mut flags: u32 = 0;
        if self.password_protected {
            flags = flags + 1;
        }
        if self.read_only {
            flags = flags + 2;
        }
        if self.compressed {
            flags = flags + 4;
        }
        put_u32(&mut data, flags);
        assert(data@ =~= properties_bytes(*self));
        data
    }

    /// Reads as many values as the record holds, in order: the seven
    /// numbering starts (16 bits each), then the eight character counts and
    /// the page, word and line counts (32 bits each). The rest is unset.
    pub fn from_record(record: &Record) -> (res: Result<Self, HwpError>)
        ensures
            ({
                let d = record.data@;
                res matches Ok(p) && properties_from(p, d)
            }),
    {
        let mut reader = record.data_reader();
        let size: usize = reader.remaining();
        let mut props = Self::default();
        if size >= 2 {
            props.section_count = reader.read_u16()?;
        }
        if size >= 4 {
            props.page_start_number = reader.read_u16()?;
        }
        if size >= 6 {
            props.footnote_start_number = reader.read_u16()?;
        }
        if size >= 8 {
            props.endnote_start_number = reader.read_u16()?;
        }
        if size >= 10 {
            props.picture_start_number = reader.read_u16()?;
        }
        if size >= 12 {
            props.table_start_number = reader.read_u16()?;
        }
        if size >= 14 {
            props.equation_start_number = reader.read_u16()?;
        }
        if size >= 18 {
            props.total_character_count = reader.read_u32()?;
        }
        if size >= 22 {
            props.hangul_character_count = reader.read_u32()?;
        }
        if size >= 26 {
            props.english_character_count = reader.read_u32()?;
        }
        if size >= 30 {
            props.hanja_character_count = reader.read_u32()?;
        }
        if size >= 34 {
            props.japanese_character_count = reader.read_u32()?;
        }
        if size >= 38 {
            props.other_character_count = reader.read_u32()?;
        }
        if size >= 42 {
            props.symbol_character_count = reader.read_u32()?;
        }
        if size >= 46 {
            props.space_character_count = reader.read_u32()?;
        }
        if size >= 50 {
            props.total_page_count = reader.read_u32()?;
        }
        if size >= 54 {
            props.total_word_count = reader.read_u32()?;
        }
        if size >= 58 {
            props.line_count = reader.read_u32()?;
        }
        Ok(props)
    }
}

/// No class holds more characters than the text.
pub proof fn lemma_class_count_bound(s: Seq<char>)
    ensures
        forall|k: int| #[trigger] class_count(s, k) <= s.len(),
    decreases s.len(),
{
    if s.len() > 0 {
        lemma_class_count_bound(s.drop_last());
        assert forall|k: int| #[trigger] class_count(s, k) <= s.len() by {
            assert(class_count(s.drop_last(), k) <= s.drop_last().len());
        }
    }
}

/// A text has no more words than characters.
pub proof fn lemma_word_count_bound(s: Seq<char>)
    ensures
        word_count(s) <= s.len(),
    decreases s.len(),
{
    if s.len() > 0 {
        lemma_word_count_bound(s.drop_last());
    }
}

/// A text has no more line feeds than characters.
pub proof fn lemma_newline_count_bound(s: Seq<char>)
    ensures
        newline_count(s) <= s.len(),
    decreases s.len(),
{
    if s.len() > 0 {
        lemma_newline_count_bound(s.drop_last());
    }
}

/// A text has no more lines than characters.
pub proof fn lemma_line_count_bound(s: Seq<char>)
    ensures
        line_count(s) <= s.len(),
{
    if s.len() > 0 {
        lemma_newline_count_bound(s.drop_last());
    }
}

/// Every character falls in exactly one class.
pub proof fn lemma_classes_partition(s: Seq<char>)
    ensures
        class_count(s, 0) + class_count(s, 1) + class_count(s, 2) + class_count(s, 3) + class_count(s, 4)
            + class_count(s, 5) + class_count(s, 6) == s.len(),
    decreases s.len(),
{
    if s.len() > 0 {
        lemma_classes_partition(s.drop_last());
    }
}

/// After the characters of a text are counted, the counts of the seven
/// classes (spaces, Hangul, English, Hanja, Japanese, symbols, others) add up
/// to the total character count.
pub proof fn law_counts_partition(p: DocumentProperties, s: Seq<char>)
    requires
        s.len() <= u32::MAX,
    ensures
        ({
            let q = with_counts(p, s);
            q.space_character_count + q.hangul_character_count + q.english_character_count
                + q.hanja_character_count + q.japanese_character_count + q.symbol_character_count
                + q.other_character_count == q.total_character_count
        }),
{
    lemma_classes_partition(s);
    lemma_class_count_bound(s);
}

/// Reading back the bytes of the properties restores their numbering
/// starts and their character, page, word and line counts.
#[verifier::spinoff_prover]
#[verifier::rlimit(100)]
pub proof fn law_properties_roundtrip(p: DocumentProperties, q: DocumentProperties)
    requires
        properties_from(q, properties_bytes(p)),
    ensures
        q.section_count == p.section_count,
        q.page_start_number == p.page_start_number,
        q.footnote_start_number == p.footnote_start_number,
        q.endnote_start_number == p.endnote_start_number,
        q.picture_start_number == p.picture_start_number,
        q.table_start_number == p.table_start_number,
        q.equation_start_number == p.equation_start_number,
        q.total_character_count == p.total_character_count,
        q.hangul_character_count == p.hangul_character_count,
        q.english_character_count == p.english_character_count,
        q.hanja_character_count == p.hanja_character_count,
        q.japanese_character_count == p.japanese_character_count,
        q.other_character_count == p.other_character_count,
        q.symbol_character_count == p.symbol_character_count,
        q.space_character_count == p.space_character_count,
        q.total_page_count == p.total_page_count,
        q.total_word_count == p.total_word_count,
        q.line_count == p.line_count,
{
    let b = properties_bytes(p);
    assert(b.subrange(0, 2) =~= le16(p.section_count));
    lemma_u16_at(b, 0, p.section_count);
    assert(b.subrange(2, 4) =~= le16(p.page_start_number));
    lemma_u16_at(b, 2, p.page_start_number);
    assert(b.subrange(4, 6) =~= le16(p.footnote_start_number));
    lemma_u16_at(b, 4, p.footnote_start_number);
    assert(b.subrange(6, 8) =~= le16(p.endnote_start_number));
    lemma_u16_at(b, 6, p.endnote_start_number);
    assert(b.subrange(8, 10) =~= le16(p.picture_start_number));
    lemma_u16_at(b, 8, p.picture_start_number);
    assert(b.subrange(10, 12) =~= le16(p.table_start_number));
    lemma_u16_at(b, 10, p.table_start_number);
    assert(b.subrange(12, 14) =~= le16(p.equation_start_number));
    lemma_u16_at(b, 12, p.equation_start_number);
    assert(b.subrange(14, 18) =~= le32(p.total_character_count));
    lemma_u32_at(b, 14, p.total_character_count);
    assert(b.subrange(18, 22) =~= le32(p.hangul_character_count));
    lemma_u32_at(b, 18, p.hangul_character_count);
    assert(b.subrange(22, 26) =~= le32(p.english_character_count));
    lemma_u32_at(b, 22, p.english_character_count);
    assert(b.subrange(26, 30) =~= le32(p.hanja_character_count));
    lemma_u32_at(b, 26, p.hanja_character_count);
    assert(b.subrange(30, 34) =~= le32(p.japanese_character_count));
    lemma_u32_at(b, 30, p.japanese_character_count);
    assert(b.subrange(34, 38) =~= le32(p.other_character_count));
    lemma_u32_at(b, 34, p.other_character_count);
    assert(b.subrange(38, 42) =~= le32(p.symbol_character_count));
    lemma_u32_at(b, 38, p.symbol_character_count);
    assert(b.subrange(42, 46) =~= le32(p.space_character_count));
    lemma_u32_at(b, 42, p.space_character_count);
    assert(b.subrange(46, 50) =~= le32(p.total_page_count));
    lemma_u32_at(b, 46, p.total_page_count);
    assert(b.subrange(50, 54) =~= le32(p.total_word_count));
    lemma_u32_at(b, 50, p.total_word_count);
    assert(b.subrange(54, 58) =~= le32(p.line_count));
    lemma_u32_at(b, 54, p.line_count);
}

} // verus!
