use vstd::prelude::*;
use crate::error::HwpError;
use crate::model::list_header::ListHeader;
use crate::model::page_def::PageDef;
use crate::model::para_char_shape::ParaCharShape;
use crate::model::para_line_seg::ParaLineSeg;
use crate::model::section_def::SectionDef;
use crate::parser::record::Record;
use crate::utils::bytes::{u16_le, u32_le};
use crate::utils::chars::{char_from_u32, is_char_code};
use crate::utils::encoding::{units_at, units_of};
use crate::utils::text::{push_char, text_of};

verus! {

/// A section of the body: its paragraphs and, where they were read, its
/// section and page definitions.
#[derive(Debug)]
pub struct Section {
    pub paragraphs: Vec<Paragraph>,
    pub section_def: Option<SectionDef>,
    pub page_def: Option<PageDef>,
}

/// A paragraph: its header values, its text and what was read about it.
#[derive(Debug)]
pub struct Paragraph {
    pub text: Option<ParaText>,
    pub control_mask: u32,
    pub para_shape_id: u16,
    pub style_id: u8,
    pub column_type: u8,
    pub char_shape_count: u16,
    pub range_tag_count: u16,
    pub line_align_count: u16,
    pub instance_id: u32,
    pub char_shapes: Option<ParaCharShape>,
    pub line_segments: Option<ParaLineSeg>,
    pub list_header: Option<ListHeader>,
}

/// The text of a paragraph.
#[derive(Debug)]
pub struct ParaText {
    pub content: String,
}

impl Default for Section {
    fn default() -> (s: Self)
        ensures
            s.paragraphs@.len() == 0,
            s.section_def is None,
            s.page_def is None,
    {
        Section { paragraphs: Vec::new(), section_def: None, page_def: None }
    }
}

/// Whether a paragraph holds nothing read from a record besides its header
/// values.
pub open spec fn nothing_attached(p: Paragraph) -> bool {
    &&& p.text is None
    &&& p.char_shapes is None
    &&& p.line_segments is None
    &&& p.list_header is None
}

/// Whether a paragraph is empty: all its values zero, nothing attached.
pub open spec fn empty_paragraph(p: Paragraph) -> bool {
    &&& p.control_mask == 0
    &&& p.para_shape_id == 0
    &&& p.style_id == 0
    &&& p.column_type == 0
    &&& p.char_shape_count == 0
    &&& p.range_tag_count == 0
    &&& p.line_align_count == 0
    &&& p.instance_id == 0
    &&& nothing_attached(p)
}

impl Default for Paragraph {
    fn default() -> (p: Self)
        ensures
            empty_paragraph(p),
    {
        Paragraph {
            text: None,
            control_mask: 0,
            para_shape_id: 0,
            style_id: 0,
            column_type: 0,
            char_shape_count: 0,
            range_tag_count: 0,
            line_align_count: 0,
            instance_id: 0,
            char_shapes: None,
            line_segments: None,
            list_header: None,
        }
    }
}

impl Paragraph {
    /// Reads a paragraph header. A record with tag 0x42 gives an empty
    /// paragraph; any other is read as the 18-byte standard header: control
    /// mask, paragraph shape, style, column type, the three counts and the
    /// instance id.
    pub fn from_header_record(record: &Record) -> (res: Result<Self, HwpError>)
        ensures
            ({
                let d = record.data@;
                if record.header.tag_id == 0x42 {
                    res matches Ok(p) && empty_paragraph(p)
                } else if d.len() < 18 {
                    res matches Err(HwpError::ParseError(_))
                } else {
                    &&& res matches Ok(p)
                    &&& p.control_mask == u32_le(d, 0)
                    &&& p.para_shape_id == u16_le(d, 4)
                    &&& p.style_id == d[6]
                    &&& p.column_type == d[7]
                    &&& p.char_shape_count == u16_le(d, 8)
                    &&& p.range_tag_count == u16_le(d, 10)
                    &&& p.line_align_count == u16_le(d, 12)
                    &&& p.instance_id == u32_le(d, 14)
                    &&& nothing_attached(p)
                }
            }),
    {
        let mut reader = record.data_reader();
        if record.tag_id() == 0x42 {
            return Ok(Self::default());
        }
        if reader.remaining() < 18 {
            return Err(HwpError::ParseError(text_of("Insufficient data for paragraph header")));
        }
        let control_mask: u32 = reader.read_u32()?;
        let para_shape_id: u16 = reader.read_u16()?;
        let style_id: u8 = reader.read_u8()?;
        let column_type: u8 = reader.read_u8()?;
        let char_shape_count: u16 = reader.read_u16()?;
        let range_tag_count: u16 = reader.read_u16()?;
        let line_align_count: u16 = reader.read_u16()?;
        let instance_id: u32 = reader.read_u32()?;
        Ok(Paragraph {
            control_mask,
            para_shape_id,
            style_id,
            column_type,
            char_shape_count,
            range_tag_count,
            line_align_count,
            instance_id,
            ..Default::default()
        })
    }

    /// Character shapes are not read from this record; the paragraph stays as
    /// it is.
    pub fn parse_char_shapes(&mut self, _record: &Record) -> (res: Result<(), HwpError>)
        ensures
            res is Ok,
            *final(self) == *old(self),
    {
        Ok(())
    }
}

/// The character with the code of a unit, where the unit is the code of a
/// character.
pub open spec fn unit_char(u: u16) -> Seq<char> {
    if is_char_code(u as u32) { seq![u as u32 as char] } else { Seq::empty() }
}

/// What a unit of an ordinary text record adds to the text: tab, line feed
/// and carriage return as they are; nothing for the other control units
/// (below 0x20) and the extended ones (0xF020 to 0xF07F); else its character.
pub open spec fn plain_unit_text(u: u16) -> Seq<char> {
    if u == 9 {
        seq!['\t']
    } else if u == 0xA {
        seq!['\n']
    } else if u == 0xD {
        seq!['\r']
    } else if u <= 0x1F || (0xF020 <= u && u <= 0xF07F) {
        Seq::empty()
    } else {
        unit_char(u)
    }
}

/// Whether a surrogate pair starts at `i`: a high surrogate, then a low one.
pub open spec fn pair_at(c: Seq<u16>, i: int) -> bool {
    0xD800 <= c[i] <= 0xDBFF && i + 1 < c.len() && 0xDC00 <= c[i + 1] <= 0xDFFF
}

/// The character beyond the basic plane that a surrogate pair encodes.
pub open spec fn pair_char(hi: u16, lo: u16) -> char {
    (0x10000 + (hi - 0xD800) * 0x400 + (lo - 0xDC00)) as u32 as char
}

/// The text of an ordinary text record's units from position `i`: a
/// surrogate pair gives the character it encodes, every other unit adds what
/// `plain_unit_text` says (a lone surrogate adds nothing).
pub open spec fn plain_text_from(c: Seq<u16>, i: int) -> Seq<char>
    decreases c.len() - i,
{
    if i < 0 || i >= c.len() {
        Seq::empty()
    } else if pair_at(c, i) {
        seq![pair_char(c[i], c[i + 1])] + plain_text_from(c, i + 2)
    } else {
        plain_unit_text(c[i]) + plain_text_from(c, i + 1)
    }
}

/// The text of an ordinary text record's units.
pub open spec fn plain_text(c: Seq<u16>) -> Seq<char> {
    plain_text_from(c, 0)
}

/// What a unit of a body text record (tag 0x43) adds to the text, where it
/// is not part of a marker: tab, line feed and carriage return as they are;
/// nothing for the control units 0 to 8 and 0xE to 0x1F and the extended
/// ones; else its character.
pub open spec fn body_unit_text(u: u16) -> Seq<char> {
    if u == 9 {
        seq!['\t']
    } else if u == 0xA {
        seq!['\n']
    } else if u == 0xD {
        seq!['\r']
    } else if u <= 8 || (0xE <= u && u <= 0x1F) || (0xF020 <= u && u <= 0xF07F) {
        Seq::empty()
    } else {
        unit_char(u)
    }
}

/// The units skipped in a run that a form field marker begins.
pub open spec fn in_field_run(u: u16) -> bool {
    u == 9 || u == 0x20 || u == 0x480 || u == 0x100 || u == 0x264 || u == 0 || u == 1
}

/// From `j`, the first position where two zero units start, or the end.
pub open spec fn pair_end(c: Seq<u16>, j: int) -> int
    decreases c.len() - j,
{
    if j >= c.len() || (j + 1 < c.len() && c[j] == 0 && c[j + 1] == 0) {
        j
    } else {
        pair_end(c, j + 1)
    }
}

/// From `j`, the first position that holds no zero unit, or the end.
pub open spec fn zeros_end(c: Seq<u16>, j: int) -> int
    decreases c.len() - j,
{
    if j < c.len() && c[j] == 0 {
        zeros_end(c, j + 1)
    } else {
        j
    }
}

/// From `j`, the first position outside a form field run, or the end.
pub open spec fn field_run_end(c: Seq<u16>, j: int) -> int
    decreases c.len() - j,
{
    if j < c.len() && in_field_run(c[j]) {
        field_run_end(c, j + 1)
    } else {
        j
    }
}

/// Whether a metadata sequence starts at `i`: 0x0002, then 0x6364 or 0x6C64.
pub open spec fn starts_metadata(c: Seq<u16>, i: int) -> bool {
    c[i] == 2 && i + 1 < c.len() && (c[i + 1] == 0x6364 || c[i + 1] == 0x6C64)
}

/// Whether a form field starts at `i`: a tab, then 0x0480 or 0x0264, then a
/// zero unit.
pub open spec fn starts_field(c: Seq<u16>, i: int) -> bool {
    c[i] == 9 && i + 2 < c.len() && c[i + 2] == 0 && (c[i + 1] == 0x480 || c[i + 1] == 0x264)
}

/// Whether a form field mark is at `i`: 0x0264 or 0x0480, then 0x0100.
pub open spec fn marks_field(c: Seq<u16>, i: int) -> bool {
    (c[i] == 0x264 || c[i] == 0x480) && i + 1 < c.len() && c[i + 1] == 0x100
}

pub proof fn lemma_pair_end(c: Seq<u16>, j: int)
    requires
        0 <= j,
    ensures
        j <= pair_end(c, j),
        j <= c.len() ==> pair_end(c, j) <= c.len(),
    decreases c.len() - j,
{
    if !(j >= c.len() || (j + 1 < c.len() && c[j] == 0 && c[j + 1] == 0)) {
        lemma_pair_end(c, j + 1);
    }
}

pub proof fn lemma_zeros_end(c: Seq<u16>, j: int)
    ensures
        j <= zeros_end(c, j),
        j <= c.len() ==> zeros_end(c, j) <= c.len(),
    decreases c.len() - j,
{
    if j < c.len() && c[j] == 0 {
        lemma_zeros_end(c, j + 1);
    }
}

pub proof fn lemma_field_run_end(c: Seq<u16>, j: int)
    ensures
        j <= field_run_end(c, j),
        j <= c.len() ==> field_run_end(c, j) <= c.len(),
    decreases c.len() - j,
{
    if j < c.len() && in_field_run(c[j]) {
        lemma_field_run_end(c, j + 1);
    }
}

/// After a metadata sequence starting at `i`, the scan resumes past it.
pub proof fn lemma_metadata_skip(c: Seq<u16>, i: int)
    requires
        0 <= i < c.len(),
        starts_metadata(c, i),
    ensures
        i < zeros_end(c, pair_end(c, i)) <= c.len(),
{
    lemma_pair_end(c, i + 1);
    lemma_zeros_end(c, pair_end(c, i));
}

/// A form field run starting at `i` covers at least three units.
pub proof fn lemma_field_skip(c: Seq<u16>, i: int)
    requires
        0 <= i < c.len(),
        starts_field(c, i),
    ensures
        i + 3 <= field_run_end(c, i) <= c.len(),
{
    lemma_field_run_end(c, i + 3);
    assert(field_run_end(c, i + 2) == field_run_end(c, i + 3));
    assert(field_run_end(c, i + 1) == field_run_end(c, i + 2));
}

/// The text of a body text record's units from position `i`: a metadata
/// sequence is skipped up to two zero units and the zeros after them; a form
/// field is skipped over its run, the scan resuming at the run's last unit; a
/// form field mark drops its first unit; every other unit adds what
/// `body_unit_text` says.
pub open spec fn body_text_from(c: Seq<u16>, i: int) -> Seq<char>
    decreases c.len() - i,
{
    if i < 0 || i >= c.len() {
        Seq::empty()
    } else if starts_metadata(c, i) {
        proof {
            lemma_metadata_skip(c, i);
        }
        body_text_from(c, zeros_end(c, pair_end(c, i)))
    } else if starts_field(c, i) {
        proof {
            lemma_field_skip(c, i);
        }
        body_text_from(c, field_run_end(c, i) - 1)
    } else if marks_field(c, i) {
        body_text_from(c, i + 2)
    } else if pair_at(c, i) {
        seq![pair_char(c[i], c[i + 1])] + body_text_from(c, i + 2)
    } else {
        body_unit_text(c[i]) + body_text_from(c, i + 1)
    }
}

/// Whether a record is the 18-byte table marker of a body text record.
pub open spec fn is_table_marker(tag: u16, d: Seq<u8>) -> bool {
    &&& tag == 0x43
    &&& d.len() == 18
    &&& d[0] == 0x0B && d[1] == 0x00 && d[2] == 0x20 && d[3] == 0x6C && d[4] == 0x62 && d[5] == 0x74
}

/// The text of a paragraph text record: empty for a table marker; the body
/// text of its units for tag 0x43; the plain text of its units otherwise.
pub open spec fn para_text_of(tag: u16, d: Seq<u8>) -> Seq<char> {
    let c = units_at(d, 0, (d.len() / 2) as int);
    if is_table_marker(tag, d) {
        Seq::empty()
    } else if tag == 0x43 {
        body_text_from(c, 0)
    } else {
        plain_text(c)
    }
}

/// Appends the character with the code of a unit, where there is one.
fn push_unit_char(s: &mut String, u: u16)
    ensures
        final(s)@ == old(s)@ + unit_char(u),
{
    match char_from_u32(u as u32) {
        Some(c) => {
            push_char(s, c);
            assert(s@ =~= old(s)@ + unit_char(u));
        },
        None => {
            assert(old(s)@ + unit_char(u) =~= old(s)@);
        },
    }
}

/// Appends the character a surrogate pair encodes.
fn push_pair_char(s: &mut String, hi: u16, lo: u16)
    requires
        0xD800 <= hi <= 0xDBFF,
        0xDC00 <= lo <= 0xDFFF,
    ensures
        final(s)@ == old(s)@.push(pair_char(hi, lo)),
{
    let code: u32 = 0x10000 + (hi as u32 - 0xD800) * 0x400 + (lo as u32 - 0xDC00);
    match char_from_u32(code) {
        Some(c) => push_char(s, c),
        None => {
            assert(false);
        },
    }
}

/// The text of an ordinary text record's units.
fn plain_text_of(c: &[u16]) -> (s: String)
    ensures
        s@ == plain_text(c@),
{
    let n: usize = c.len();
    let mut content = String::new();
    let mut i: usize = 0;
    while i < n
        invariant
            n == c@.len(),
            i <= n,
            content@ + plain_text_from(c@, i as int) == plain_text(c@),
        decreases n - i,
    {
        let ch: u16 = c[i];
        let ghost before = content@;
        if 0xD800 <= ch && ch <= 0xDBFF && i + 1 < n && 0xDC00 <= c[i + 1] && c[i + 1] <= 0xDFFF {
            push_pair_char(&mut content, ch, c[i + 1]);
            assert(content@ + plain_text_from(c@, i + 2) =~= before + plain_text_from(c@, i as int));
            i = i + 2;
        } else {
            if ch == 9 {
                push_char(&mut content, '\t');
            } else if ch == 0xA {
                push_char(&mut content, '\n');
            } else if ch == 0xD {
                push_char(&mut content, '\r');
            } else if ch <= 0x1F || (0xF020 <= ch && ch <= 0xF07F) {
            } else {
                push_unit_char(&mut content, ch);
            }
            assert(content@ == before + plain_unit_text(ch));
            assert(content@ + plain_text_from(c@, i + 1) =~= before + plain_text_from(c@, i as int));
            i = i + 1;
        }
    }
    assert(content@ + plain_text_from(c@, n as int) =~= content@);
    content
}

/// The text of a body text record's units.
fn body_text_of(c: &[u16]) -> (s: String)
    ensures
        s@ == body_text_from(c@, 0),
{
    let n: usize = c.len();
    let mut content = String::new();
    let mut i: usize = 0;
    while i < n
        invariant
            n == c@.len(),
            i <= n,
            content@ + body_text_from(c@, i as int) == body_text_from(c@, 0),
        decreases n - i,
    {
        let ch: u16 = c[i];
        if ch == 2 && i + 1 < n && (c[i + 1] == 0x6364 || c[i + 1] == 0x6C64) {
            let ghost start = i as int;
            proof {
                lemma_metadata_skip(c@, start);
            }
            while i < n && !(i + 1 < n && c[i] == 0 && c[i + 1] == 0)
                invariant
                    n == c@.len(),
                    start <= i <= n,
                    pair_end(c@, i as int) == pair_end(c@, start),
                decreases n - i,
            {
                i = i + 1;
            }
            let ghost zeros_start = i as int;
            while i < n && c[i] == 0
                invariant
                    n == c@.len(),
                    zeros_start <= i <= n,
                    zeros_end(c@, i as int) == zeros_end(c@, zeros_start),
                decreases n - i,
            {
                i = i + 1;
            }
            assert(i == zeros_end(c@, pair_end(c@, start)));
            continue;
        }
        if ch == 9 && n - i > 2 && c[i + 2] == 0 && (c[i + 1] == 0x480 || c[i + 1] == 0x264) {
            let ghost start = i as int;
            proof {
                lemma_field_skip(c@, start);
            }
            while i < n && (c[i] == 9 || c[i] == 0x20 || c[i] == 0x480 || c[i] == 0x100 || c[i] == 0x264
                || c[i] == 0 || c[i] == 1)
                invariant
                    n == c@.len(),
                    start <= i <= n,
                    field_run_end(c@, i as int) == field_run_end(c@, start),
                decreases n - i,
            {
                i = i + 1;
            }
            i = i - 1;
            continue;
        }
        if (ch == 0x264 || ch == 0x480) && i + 1 < n && c[i + 1] == 0x100 {
            i = i + 2;
            continue;
        }
        if 0xD800 <= ch && ch <= 0xDBFF && i + 1 < n && 0xDC00 <= c[i + 1] && c[i + 1] <= 0xDFFF {
            let ghost before = content@;
            push_pair_char(&mut content, ch, c[i + 1]);
            assert(content@ + body_text_from(c@, i + 2) =~= before + body_text_from(c@, i as int));
            i = i + 2;
            continue;
        }
        let ghost before = content@;
        if ch == 9 {
            push_char(&mut content, '\t');
        } else if ch == 0xA {
            push_char(&mut content, '\n');
        } else if ch == 0xD {
            push_char(&mut content, '\r');
        } else if ch <= 8 || (0xE <= ch && ch <= 0x1F) || (0xF020 <= ch && ch <= 0xF07F) {
        } else {
            push_unit_char(&mut content, ch);
        }
        assert(content@ == before + body_unit_text(ch));
        assert(content@ + body_text_from(c@, i + 1) =~= before + body_text_from(c@, i as int));
        i = i + 1;
    }
    assert(content@ + body_text_from(c@, i as int) =~= content@);
    content
}

impl ParaText {
    /// Reads the text of a paragraph text record, its 16-bit units taken in
    /// order: the table marker record gives no text, a body text record (tag
    /// 0x43) is read with its metadata and form field markers dropped, any
    /// other keeps tabs and line breaks and drops the other control units; in
    /// both, a surrogate pair gives the character it encodes and a lone
    /// surrogate gives nothing.
    pub fn from_record(record: &Record) -> (res: Result<Self, HwpError>)
        ensures
            res matches Ok(p) && p.content@ == para_text_of(record.header.tag_id, record.data@),
    {
        let d = record.data.as_slice();
        if record.tag_id() == 0x43 && d.len() == 18 {
            if d[0] == 0x0B && d[1] == 0x00 && d[2] == 0x20 && d[3] == 0x6C && d[4] == 0x62 && d[5] == 0x74 {
                return Ok(ParaText { content: String::new() });
            }
        }
        let chars = units_of(d);
        let content = if record.tag_id() == 0x43 {
            body_text_of(chars.as_slice())
        } else {
            plain_text_of(chars.as_slice())
        };
        Ok(ParaText { content })
    }
}

} // verus!
