use vstd::prelude::*;
use crate::error::HwpError;
use crate::model::border_fill::BorderFill;
use crate::model::char_shape::{CharShape, FaceName};
use crate::model::document::DocumentProperties;
use crate::model::header_footer::{HeaderFooter, PageNumberFormat};
use crate::model::page_def::PageDef;
use crate::model::header_footer::{default_item, HeaderFooterType};
use crate::model::page_def::takes_layout;
use crate::model::page_layout::{paper_layout, PageLayout, PageMargins, PageOrientation, PaperSize};
use crate::model::para_char_shape::{CharPositionShape, ParaCharShape};
use crate::model::para_shape::ParaShape;
use crate::model::paragraph::{ParaText, Paragraph, Section};
use crate::parser::doc_info::DocInfo;
use crate::parser::header::FileHeader;
use crate::utils::text::{decimal, push_char, push_decimal, text_of};
use crate::writer::document::serialize_document;

verus! {

/// The kinds of list that the writer numbers.
pub enum ListType {
    Bullet,
    Numbered,
    Alphabetic,
    Roman,
    Korean,
    Custom(String),
}

/// The indentation of a list level: two spaces a level.
pub open spec fn list_indent(level: nat) -> Seq<char> {
    Seq::new(2 * level, |i: int| ' ')
}

/// The bullet of a list level: a filled bullet, a hollow one, then a square.
pub open spec fn bullet_symbol(level: nat) -> char {
    if level == 0 { '•' } else if level == 1 { '◦' } else { '▪' }
}

/// The Korean list letters, in order.
pub open spec fn korean_letter(i: int) -> char {
    if i == 0 { '가' } else if i == 1 { '나' } else if i == 2 { '다' } else if i == 3 { '라' }
    else if i == 4 { '마' } else if i == 5 { '바' } else if i == 6 { '사' } else if i == 7 { '아' }
    else if i == 8 { '자' } else { '차' }
}

/// The values of the Roman numerals, largest first.
pub open spec fn roman_value(i: int) -> int {
    if i == 0 { 1000 } else if i == 1 { 900 } else if i == 2 { 500 } else if i == 3 { 400 }
    else if i == 4 { 100 } else if i == 5 { 90 } else if i == 6 { 50 } else if i == 7 { 40 }
    else if i == 8 { 10 } else if i == 9 { 9 } else if i == 10 { 5 } else if i == 11 { 4 } else { 1 }
}

/// The lower-case Roman numerals of those values.
pub open spec fn roman_symbol(i: int) -> Seq<char> {
    if i == 0 { seq!['m'] } else if i == 1 { seq!['c', 'm'] } else if i == 2 { seq!['d'] }
    else if i == 3 { seq!['c', 'd'] } else if i == 4 { seq!['c'] } else if i == 5 { seq!['x', 'c'] }
    else if i == 6 { seq!['l'] } else if i == 7 { seq!['x', 'l'] } else if i == 8 { seq!['x'] }
    else if i == 9 { seq!['i', 'x'] } else if i == 10 { seq!['v'] } else if i == 11 { seq!['i', 'v'] }
    else { seq!['i'] }
}

/// The lower-case Roman numeral of `n`, from the numeral `i` of the table on:
/// each numeral taken as often as it fits, largest first.
pub open spec fn roman_from(n: int, i: int) -> Seq<char>
    decreases 13 - i, n,
{
    if i < 0 || i >= 13 || n <= 0 {
        seq![]
    } else if n >= roman_value(i) {
        roman_symbol(i) + roman_from(n - roman_value(i), i)
    } else {
        roman_from(n, i + 1)
    }
}

/// The lower-case Roman numeral of `n`; empty for 0.
pub open spec fn roman(n: int) -> Seq<char> {
    roman_from(n, 0)
}

/// The prefix of item `index` of a list at `level`: the indentation, then
/// the bullet, `n.`, `a).`, the Roman numeral and a dot, the Korean letter
/// and a dot, or the custom text. Letters run in cycles from item 1 on.
pub open spec fn list_prefix(t: ListType, index: u32, level: u32) -> Seq<char> {
    list_indent(level as nat) + match t {
        ListType::Bullet => seq![bullet_symbol(level as nat)],
        ListType::Numbered => decimal(index as nat) + seq!['.'],
        ListType::Alphabetic => seq![(((index - 1) % 26) + 97) as char, ')', '.'],
        ListType::Roman => roman(index as int) + seq!['.'],
        ListType::Korean => seq![korean_letter((index - 1) % 10), '.'],
        ListType::Custom(f) => f@,
    }
}

fn roman_lower(n: u32) -> (s: String)
    ensures
        s@ == roman(n as int),
{
    let values: [u32; 13] = [1000, 900, 500, 400, 100, 90, 50, 40, 10, 9, 5, 4, 1];
    let mut s = String::new();
    let mut num: u32 = n;
    let mut i: usize = 0;
    assert(values@ =~= Seq::new(13, |k: int| roman_value(k) as u32));
    while i < 13
        invariant
            i <= 13,
            values@ == Seq::new(13, |k: int| roman_value(k) as u32),
            s@ + roman_from(num as int, i as int) == roman(n as int),
        decreases 13 - i,
    {
        let v: u32 = values[i];
        while num >= v
            invariant
                i < 13,
                v == roman_value(i as int),
                s@ + roman_from(num as int, i as int) == roman(n as int),
            decreases num,
        {
            let ghost before = s@;
            push_roman_symbol(&mut s, i);
            assert(before + roman_from(num as int, i as int) == s@ + roman_from(num - v, i as int));
            num = num - v;
        }
        i = i + 1;
    }
    assert(s@ + Seq::<char>::empty() =~= s@);
    s
}

fn push_roman_symbol(s: &mut String, i: usize)
    requires
        i < 13,
    ensures
        final(s)@ == old(s)@ + roman_symbol(i as int),
{
    let ghost before = s@;
    if i == 0 { push_char(s, 'm'); }
    else if i == 1 { push_char(s, 'c'); push_char(s, 'm'); }
    else if i == 2 { push_char(s, 'd'); }
    else if i == 3 { push_char(s, 'c'); push_char(s, 'd'); }
    else if i == 4 { push_char(s, 'c'); }
    else if i == 5 { push_char(s, 'x'); push_char(s, 'c'); }
    else if i == 6 { push_char(s, 'l'); }
    else if i == 7 { push_char(s, 'x'); push_char(s, 'l'); }
    else if i == 8 { push_char(s, 'x'); }
    else if i == 9 { push_char(s, 'i'); push_char(s, 'x'); }
    else if i == 10 { push_char(s, 'v'); }
    else if i == 11 { push_char(s, 'i'); push_char(s, 'v'); }
    else { push_char(s, 'i'); }
    assert(s@ =~= before + roman_symbol(i as int));
}

fn korean_letter_of(i: u32) -> (c: char)
    requires
        i < 10,
    ensures
        c == korean_letter(i as int),
{
    if i == 0 { '가' } else if i == 1 { '나' } else if i == 2 { '다' } else if i == 3 { '라' }
    else if i == 4 { '마' } else if i == 5 { '바' } else if i == 6 { '사' } else if i == 7 { '아' }
    else if i == 8 { '자' } else { '차' }
}

/// Writes the prefix of item `index` of a list at `level`.
pub fn get_list_prefix(list_type: &ListType, index: u32, level: u32) -> (s: String)
    requires
        (*list_type is Alphabetic || *list_type is Korean) ==> index >= 1,
    ensures
        s@ == list_prefix(*list_type, index, level),
{
    let mut s = String::new();
    let mut k: u32 = 0;
    while k < level
        invariant
            k <= level,
            s@ == list_indent(k as nat),
        decreases level - k,
    {
        push_char(&mut s, ' ');
        push_char(&mut s, ' ');
        k = k + 1;
        assert(s@ =~= list_indent(k as nat));
    }
    let ghost indent = s@;
    match list_type {
        ListType::Bullet => {
            let c = if level == 0 { '•' } else if level == 1 { '◦' } else { '▪' };
            push_char(&mut s, c);
        },
        ListType::Numbered => {
            push_decimal(&mut s, index as u64);
            push_char(&mut s, '.');
        },
        ListType::Alphabetic => {
            let code: u32 = (index - 1) % 26 + 97;
            let c: char = code as u8 as char;
            push_char(&mut s, c);
            push_char(&mut s, ')');
            push_char(&mut s, '.');
        },
        ListType::Roman => {
            let r = roman_lower(index);
            s.append(r.as_str());
            push_char(&mut s, '.');
        },
        ListType::Korean => {
            push_char(&mut s, korean_letter_of((index - 1) % 10));
            push_char(&mut s, '.');
        },
        ListType::Custom(f) => {
            s.append(f.as_str());
        },
    }
    assert(s@ =~= list_prefix(*list_type, index, level));
    s
}

/// A copy of a list type.
fn copy_list_type(t: &ListType) -> (r: ListType)
    ensures
        r == *t,
{
    match t {
        ListType::Bullet => ListType::Bullet,
        ListType::Numbered => ListType::Numbered,
        ListType::Alphabetic => ListType::Alphabetic,
        ListType::Roman => ListType::Roman,
        ListType::Korean => ListType::Korean,
        ListType::Custom(f) => ListType::Custom(f.clone()),
    }
}

/// Whether `new` is `old` with `p` appended to the paragraphs of section
/// `idx`, where there is such a section; `old` itself where there is none.
pub open spec fn with_paragraph(old: Seq<Section>, new: Seq<Section>, idx: int, p: Paragraph) -> bool {
    if 0 <= idx < old.len() {
        &&& new.len() == old.len()
        &&& forall|j: int| 0 <= j < old.len() && j != idx ==> new[j] == old[j]
        &&& new[idx].paragraphs@ == old[idx].paragraphs@.push(p)
        &&& new[idx].section_def == old[idx].section_def
        &&& new[idx].page_def == old[idx].page_def
    } else {
        new == old
    }
}

/// A paragraph of plain text as the writer adds it: the given paragraph
/// shape, the default style, one character shape, the given instance id and character
/// shapes, nothing else attached.
pub open spec fn written_paragraph(p: Paragraph, text: Seq<char>, ps: u16, instance_id: u32, cs: Option<Seq<CharPositionShape>>) -> bool {
    &&& p.text matches Some(t) && t.content@ == text
    &&& p.control_mask == 0 && p.para_shape_id == ps && p.style_id == 0 && p.column_type == 0
    &&& p.char_shape_count == 1 && p.range_tag_count == 0 && p.line_align_count == 0
    &&& p.instance_id == instance_id
    &&& match cs {
        Some(c) => p.char_shapes matches Some(x) && x.char_positions@ == c,
        None => p.char_shapes is None,
    }
    &&& p.line_segments is None
    &&& p.list_header is None
}

/// Writes a new document: paragraphs, lists, headers and footers and page
/// layouts go into its current section; `to_bytes` gives the HWP file.
pub struct HwpWriter {
    header: FileHeader,
    doc_info: DocInfo,
    sections: Vec<Section>,
    current_section_idx: usize,
    next_instance_id: u32,
    current_list_type: Option<ListType>,
    current_list_level: u32,
    current_list_index: u32,
    list_stack: Vec<(ListType, u32)>,
}

impl HwpWriter {
    /// The sections written so far.
    pub closed spec fn sections_view(&self) -> Seq<Section> {
        self.sections@
    }

    /// The definitions of the document.
    pub closed spec fn doc_info_view(&self) -> DocInfo {
        self.doc_info
    }

    /// The file header of the document.
    pub closed spec fn header_view(&self) -> FileHeader {
        self.header
    }

    /// The section that content goes into.
    pub closed spec fn current_section(&self) -> int {
        self.current_section_idx as int
    }

    /// The next instance id that the writer gives out.
    pub closed spec fn instance_counter(&self) -> u32 {
        self.next_instance_id
    }

    /// The list being written: its type, level, last item number, and the
    /// lists it is nested in with their last item numbers.
    pub closed spec fn list_state(&self) -> (Option<ListType>, u32, u32, Seq<(ListType, u32)>) {
        (self.current_list_type, self.current_list_level, self.current_list_index, self.list_stack@)
    }

    /// A writer of an empty document: a compressed file header; definitions
    /// with unset document properties, the font 맑은 고딕, the default
    /// character shape, paragraph shape and border fill; one empty section.
    pub fn new() -> (w: Self)
        ensures
            w.header_view().flags == 0x01,
            w.doc_info_view().properties matches Some(p) && crate::model::document::all_unset(p),
            w.doc_info_view().face_names@.len() == 1 && w.doc_info_view().face_names@[0].font_name@ == "맑은 고딕"@,
            w.doc_info_view().char_shapes@.len() == 1 && w.doc_info_view().para_shapes@.len() == 1,
            w.doc_info_view().border_fills@.len() == 1,
            w.doc_info_view().styles@.len() == 0 && w.doc_info_view().tab_defs@.len() == 0,
            w.doc_info_view().numberings@.len() == 0 && w.doc_info_view().bullets@.len() == 0,
            w.doc_info_view().bin_data@.len() == 0,
            w.sections_view().len() == 1,
            w.sections_view()[0].paragraphs@.len() == 0,
            w.sections_view()[0].section_def is None && w.sections_view()[0].page_def is None,
            w.current_section() == 0,
            w.instance_counter() == 1,
            w.list_state().0 is None && w.list_state().1 == 0 && w.list_state().2 == 0 && w.list_state().3.len() == 0,
    {
        let mut doc_info = DocInfo::default();
        doc_info.properties = Some(DocumentProperties::default());
        doc_info.face_names.push(FaceName::new_default(text_of("맑은 고딕")));
        doc_info.char_shapes.push(CharShape::new_default());
        doc_info.para_shapes.push(ParaShape::new_default());
        doc_info.border_fills.push(BorderFill::new_default());
        let mut sections: Vec<Section> = Vec::new();
        sections.push(Section::default());
        HwpWriter {
            header: FileHeader::new_default(),
            doc_info,
            sections,
            current_section_idx: 0,
            next_instance_id: 1,
            current_list_type: None,
            current_list_level: 0,
            current_list_index: 0,
            list_stack: Vec::new(),
        }
    }

    /// Appends a paragraph to the current section, where there is one.
    fn push_paragraph(&mut self, p: Paragraph)
        ensures
            with_paragraph(old(self).sections@, final(self).sections@, old(self).current_section_idx as int, p),
            final(self).header == old(self).header,
            final(self).doc_info == old(self).doc_info,
            final(self).current_section_idx == old(self).current_section_idx,
            final(self).next_instance_id == old(self).next_instance_id,
            final(self).current_list_type == old(self).current_list_type,
            final(self).current_list_level == old(self).current_list_level,
            final(self).current_list_index == old(self).current_list_index,
            final(self).list_stack@ == old(self).list_stack@,
    {
        let idx = self.current_section_idx;
        if idx < self.sections.len() {
            let ghost before = self.sections@;
            let mut sec = self.sections.remove(idx);
            sec.paragraphs.push(p);
            self.sections.insert(idx, sec);
            assert(self.sections@ =~= before.update(idx as int, sec));
        }
    }

    /// Adds a paragraph of plain text to the current section.
    pub fn add_paragraph(&mut self, text: &str) -> (res: Result<(), HwpError>)
        ensures
            res is Ok,
            exists|p: Paragraph| written_paragraph(p, text@, 0, 0, None)
                && with_paragraph(old(self).sections_view(), final(self).sections_view(), old(self).current_section(), p),
            final(self).doc_info_view() == old(self).doc_info_view(),
            final(self).current_section() == old(self).current_section(),
            final(self).instance_counter() == old(self).instance_counter(),
            final(self).list_state() == old(self).list_state(),
    {
        let p = Paragraph {
            text: Some(ParaText { content: text_of(text) }),
            control_mask: 0,
            para_shape_id: 0,
            style_id: 0,
            column_type: 0,
            char_shape_count: 1,
            range_tag_count: 0,
            line_align_count: 0,
            instance_id: 0,
            char_shapes: None,
            line_segments: None,
            list_header: None,
        };
        let ghost gp = p;
        self.push_paragraph(p);
        assert(written_paragraph(gp, text@, 0, 0, None));
        Ok(())
    }

    /// Gives out the next instance id.
    pub fn next_instance_id(&mut self) -> (id: u32)
        requires
            old(self).instance_counter() < u32::MAX,
        ensures
            id == old(self).instance_counter(),
            final(self).instance_counter() == id + 1,
            final(self).sections_view() == old(self).sections_view(),
            final(self).doc_info_view() == old(self).doc_info_view(),
            final(self).current_section() == old(self).current_section(),
            final(self).list_state() == old(self).list_state(),
    {
        let id = self.next_instance_id;
        self.next_instance_id = id + 1;
        id
    }

    /// Adds a character shape; its id is its place among the shapes.
    pub fn add_char_shape(&mut self, char_shape: CharShape) -> (res: Result<u16, HwpError>)
        ensures
            final(self).doc_info_view().char_shapes@ == old(self).doc_info_view().char_shapes@.push(char_shape),
            res == Ok::<u16, HwpError>(old(self).doc_info_view().char_shapes@.len() as u16),
            final(self).doc_info_view().para_shapes@ == old(self).doc_info_view().para_shapes@,
            final(self).doc_info_view().face_names@ == old(self).doc_info_view().face_names@,
            final(self).sections_view() == old(self).sections_view(),
            final(self).current_section() == old(self).current_section(),
            final(self).instance_counter() == old(self).instance_counter(),
            final(self).list_state() == old(self).list_state(),
    {
        self.doc_info.char_shapes.push(char_shape);
        Ok((self.doc_info.char_shapes.len() - 1) as u16)
    }

    /// Adds a paragraph shape; its id is its place among the shapes.
    pub fn add_para_shape(&mut self, para_shape: ParaShape) -> (res: Result<u16, HwpError>)
        ensures
            final(self).doc_info_view().para_shapes@ == old(self).doc_info_view().para_shapes@.push(para_shape),
            res == Ok::<u16, HwpError>(old(self).doc_info_view().para_shapes@.len() as u16),
            final(self).doc_info_view().char_shapes@ == old(self).doc_info_view().char_shapes@,
            final(self).doc_info_view().face_names@ == old(self).doc_info_view().face_names@,
            final(self).sections_view() == old(self).sections_view(),
            final(self).current_section() == old(self).current_section(),
            final(self).instance_counter() == old(self).instance_counter(),
            final(self).list_state() == old(self).list_state(),
    {
        self.doc_info.para_shapes.push(para_shape);
        Ok((self.doc_info.para_shapes.len() - 1) as u16)
    }

    /// The id of a font: the place of the first font of that name, or of a
    /// new one added at the end.
    pub fn ensure_font(&mut self, font_name: &str) -> (res: Result<u16, HwpError>)
        ensures
            ({
                let fs = old(self).doc_info_view().face_names@;
                match res {
                    Ok(id) => if exists|i: int| 0 <= i < fs.len() && #[trigger] fs[i].font_name@ == font_name@ {
                        &&& final(self).doc_info_view().face_names@ == fs
                        &&& exists|i: int| 0 <= i < fs.len() && i as u16 == id && #[trigger] fs[i].font_name@ == font_name@
                            && forall|j: int| 0 <= j < i ==> fs[j].font_name@ != font_name@
                    } else {
                        &&& final(self).doc_info_view().face_names@.len() == fs.len() + 1
                        &&& final(self).doc_info_view().face_names@.subrange(0, fs.len() as int) == fs
                        &&& final(self).doc_info_view().face_names@[fs.len() as int].font_name@ == font_name@
                        &&& id == fs.len() as u16
                    },
                    Err(_) => false,
                }
            }),
            final(self).doc_info_view().char_shapes@ == old(self).doc_info_view().char_shapes@,
            final(self).sections_view() == old(self).sections_view(),
    {
        let name = text_of(font_name);
        let mut i: usize = 0;
        while i < self.doc_info.face_names.len()
            invariant
                i <= self.doc_info.face_names@.len(),
                self.doc_info == old(self).doc_info,
                self.sections@ == old(self).sections@,
                name@ == font_name@,
                forall|j: int| 0 <= j < i ==> self.doc_info.face_names@[j].font_name@ != font_name@,
            decreases self.doc_info.face_names@.len() - i,
        {
            if self.doc_info.face_names[i].font_name == name {
                return Ok(i as u16);
            }
            i = i + 1;
        }
        let ghost fs = self.doc_info.face_names@;
        self.doc_info.face_names.push(FaceName::new_default(name));
        assert(self.doc_info.face_names@.subrange(0, fs.len() as int) =~= fs);
        Ok((self.doc_info.face_names.len() - 1) as u16)
    }

    /// The HWP file of the document written so far: its file header, its
    /// definitions and one body text stream per section, each read back
    /// from the file as written (see `serialize_document`).
    pub fn to_bytes(&self) -> (res: Result<Vec<u8>, HwpError>)
        ensures
            res matches Ok(b) ==> {
                &&& crate::reader::compound::compound_stream(b@, "FileHeader"@) == Some(crate::parser::header::header_bytes(
                    self.header_view().signature@, self.header_view().version, self.header_view().flags, self.header_view().reserved@))
                &&& crate::reader::compound::compound_stream(b@, "DocInfo"@)
                    == Some(crate::writer::document::stored(self.header_view().flags, crate::writer::serializer::doc_info_bytes(self.doc_info_view())))
                &&& forall|i: int| 0 <= i < self.sections_view().len() ==> crate::reader::compound::compound_stream(b@,
                    #[trigger] crate::reader::compound::section_path(i as nat)) == Some(
                    crate::writer::document::stored(self.header_view().flags, crate::writer::serializer::section_records(self.sections_view()[i])))
            },
    {
        serialize_document(&self.header, &self.doc_info, self.sections.as_slice())
    }
}

/// Whether `new` is `old` with the page definition of section `idx` set to
/// `pd`, where there is such a section; `old` itself where there is none.
pub open spec fn with_page_def(old: Seq<Section>, new: Seq<Section>, idx: int, pd: PageDef) -> bool {
    if 0 <= idx < old.len() {
        &&& new.len() == old.len()
        &&& forall|j: int| 0 <= j < old.len() && j != idx ==> new[j] == old[j]
        &&& new[idx].paragraphs@ == old[idx].paragraphs@
        &&& new[idx].section_def == old[idx].section_def
        &&& new[idx].page_def == Some(pd)
    } else {
        new == old
    }
}

/// The header and footer items of a section's page definition; none where
/// it has none.
pub open spec fn items_of(pd: Option<PageDef>) -> Seq<HeaderFooter> {
    match pd {
        Some(p) => p.header_footer.items@,
        None => Seq::empty(),
    }
}

/// Whether `pd` keeps the sizes and margins of the page definition `old`
/// had, those of an A4 page with the default margins where it had none.
pub open spec fn keeps_page(old: Option<PageDef>, pd: PageDef) -> bool {
    match old {
        Some(o) => pd == (PageDef { header_footer: pd.header_footer, ..o }),
        None => pd.width == 59528 && pd.height == 84188 && pd.left_margin == 8504 && pd.right_margin == 8504
            && pd.top_margin == 5669 && pd.bottom_margin == 4252 && pd.layout is None,
    }
}

/// The left margin of the paragraph shape of a nested list level: 2000
/// units (7 mm) a level.
pub open spec fn list_margin(level: u32) -> i32 {
    if level > 100_000 { i32::MAX } else { (level * 2000) as i32 }
}

/// The paragraph shape of the items of a list level: the shape the writer
/// starts with at the top level, and for a nested level a new shape
/// indented by `list_margin`.
pub open spec fn item_shape(level: u32, n_shapes: nat) -> u16 {
    if level == 0 { 0 } else { n_shapes as u16 }
}

/// The text of list item `index` at `level`: its prefix, a space, the text.
pub open spec fn list_item_text(t: ListType, index: u32, level: u32, text: Seq<char>) -> Seq<char> {
    list_prefix(t, index, level) + seq![' '] + text
}

impl HwpWriter {
    /// Sets the page definition of the current section, where there is one.
    fn put_page_def(&mut self, pd: PageDef)
        ensures
            with_page_def(old(self).sections@, final(self).sections@, old(self).current_section_idx as int, pd),
            final(self).header == old(self).header,
            final(self).doc_info == old(self).doc_info,
            final(self).current_section_idx == old(self).current_section_idx,
            final(self).next_instance_id == old(self).next_instance_id,
            final(self).current_list_type == old(self).current_list_type,
            final(self).current_list_level == old(self).current_list_level,
            final(self).current_list_index == old(self).current_list_index,
            final(self).list_stack@ == old(self).list_stack@,
    {
        let idx = self.current_section_idx;
        if idx < self.sections.len() {
            let ghost before = self.sections@;
            let mut sec = self.sections.remove(idx);
            sec.page_def = Some(pd);
            self.sections.insert(idx, sec);
            assert(self.sections@ =~= before.update(idx as int, sec));
        }
    }

    /// Gives the current section the page definition of a layout.
    pub fn set_page_layout(&mut self, layout: PageLayout) -> (res: Result<(), HwpError>)
        ensures
            res is Ok,
            exists|pd: PageDef| takes_layout(pd, layout) && pd.header_footer.items@.len() == 0
                && with_page_def(old(self).sections_view(), final(self).sections_view(), old(self).current_section(), pd),
            final(self).doc_info_view() == old(self).doc_info_view(),
            final(self).current_section() == old(self).current_section(),
            final(self).list_state() == old(self).list_state(),
    {
        let pd = PageDef::from_layout(layout);
        let ghost g = pd;
        self.put_page_def(pd);
        assert(takes_layout(g, layout) && g.header_footer.items@.len() == 0);
        Ok(())
    }

    /// An A4 portrait page with the default margins.
    pub fn set_a4_portrait(&mut self) -> (res: Result<(), HwpError>)
        ensures
            res is Ok,
            exists|pd: PageDef| takes_layout(pd, paper_layout(PaperSize::A4, PageOrientation::Portrait))
                && with_page_def(old(self).sections_view(), final(self).sections_view(), old(self).current_section(), pd),
    {
        self.set_page_layout(PageLayout::a4_portrait())
    }

    /// An A4 landscape page with the default margins.
    pub fn set_a4_landscape(&mut self) -> (res: Result<(), HwpError>)
        ensures
            res is Ok,
            exists|pd: PageDef| takes_layout(pd, paper_layout(PaperSize::A4, PageOrientation::Landscape))
                && with_page_def(old(self).sections_view(), final(self).sections_view(), old(self).current_section(), pd),
    {
        self.set_page_layout(PageLayout::a4_landscape())
    }

    /// A Letter portrait page with the default margins.
    pub fn set_letter_portrait(&mut self) -> (res: Result<(), HwpError>)
        ensures
            res is Ok,
            exists|pd: PageDef| takes_layout(pd, paper_layout(PaperSize::Letter, PageOrientation::Portrait))
                && with_page_def(old(self).sections_view(), final(self).sections_view(), old(self).current_section(), pd),
    {
        self.set_page_layout(PageLayout::letter_portrait())
    }

    /// A Letter landscape page with the default margins.
    pub fn set_letter_landscape(&mut self) -> (res: Result<(), HwpError>)
        ensures
            res is Ok,
            exists|pd: PageDef| takes_layout(pd, paper_layout(PaperSize::Letter, PageOrientation::Landscape))
                && with_page_def(old(self).sections_view(), final(self).sections_view(), old(self).current_section(), pd),
    {
        self.set_page_layout(PageLayout::letter_landscape())
    }

    /// The default page with the given margins.
    fn set_margins(&mut self, margins: PageMargins) -> (res: Result<(), HwpError>)
        ensures
            res is Ok,
            exists|pd: PageDef| takes_layout(pd, PageLayout { margins, ..paper_layout(PaperSize::A4, PageOrientation::Portrait) })
                && with_page_def(old(self).sections_view(), final(self).sections_view(), old(self).current_section(), pd),
    {
        let layout = PageLayout::default().with_margins(margins);
        self.set_page_layout(layout)
    }

    /// The default page with narrow margins, half an inch all round.
    pub fn set_narrow_margins(&mut self) -> (res: Result<(), HwpError>)
        ensures
            res is Ok,
            exists|pd: PageDef| takes_layout(pd, PageLayout { margins: crate::model::page_layout::margins_of(3600, 3600, 3600, 3600), ..paper_layout(PaperSize::A4, PageOrientation::Portrait) })
                && with_page_def(old(self).sections_view(), final(self).sections_view(), old(self).current_section(), pd),
    {
        self.set_margins(PageMargins::narrow())
    }

    /// The default page with normal margins, an inch all round.
    pub fn set_normal_margins(&mut self) -> (res: Result<(), HwpError>)
        ensures
            res is Ok,
            exists|pd: PageDef| takes_layout(pd, PageLayout { margins: crate::model::page_layout::margins_of(7200, 7200, 7200, 7200), ..paper_layout(PaperSize::A4, PageOrientation::Portrait) })
                && with_page_def(old(self).sections_view(), final(self).sections_view(), old(self).current_section(), pd),
    {
        self.set_margins(PageMargins::normal())
    }

    /// The default page with wide margins: two inches left and right.
    pub fn set_wide_margins(&mut self) -> (res: Result<(), HwpError>)
        ensures
            res is Ok,
            exists|pd: PageDef| takes_layout(pd, PageLayout { margins: crate::model::page_layout::margins_of(14400, 14400, 7200, 7200), ..paper_layout(PaperSize::A4, PageOrientation::Portrait) })
                && with_page_def(old(self).sections_view(), final(self).sections_view(), old(self).current_section(), pd),
    {
        self.set_margins(PageMargins::wide())
    }

    /// The default page with a background color.
    pub fn set_page_background_color(&mut self, color: u32) -> (res: Result<(), HwpError>)
        ensures
            res is Ok,
            exists|pd: PageDef| takes_layout(pd, PageLayout { background_color: Some(color), ..paper_layout(PaperSize::A4, PageOrientation::Portrait) })
                && with_page_def(old(self).sections_view(), final(self).sections_view(), old(self).current_section(), pd),
    {
        let layout = PageLayout::default().with_background_color(color);
        self.set_page_layout(layout)
    }

    /// The default page numbered from `start` in a format.
    pub fn set_page_numbering(&mut self, start: u16, format: PageNumberFormat) -> (res: Result<(), HwpError>)
        ensures
            res is Ok,
            exists|pd: PageDef| takes_layout(pd, PageLayout { start_page_number: start, page_number_format: format, ..paper_layout(PaperSize::A4, PageOrientation::Portrait) })
                && with_page_def(old(self).sections_view(), final(self).sections_view(), old(self).current_section(), pd),
    {
        let layout = PageLayout::default().with_page_numbering(start, format);
        self.set_page_layout(layout)
    }

    /// Adds a header or footer item to the page definition of the current
    /// section, giving it the default page definition where it has none.
    fn push_header_footer(&mut self, h: HeaderFooter)
        ensures
            0 <= old(self).current_section_idx < old(self).sections@.len() ==> exists|pd: PageDef|
                pd.header_footer.items@ == items_of(old(self).sections@[old(self).current_section_idx as int].page_def).push(h)
                && keeps_page(old(self).sections@[old(self).current_section_idx as int].page_def, pd)
                && with_page_def(old(self).sections@, final(self).sections@, old(self).current_section_idx as int, pd),
            !(0 <= old(self).current_section_idx < old(self).sections@.len()) ==> final(self).sections@ == old(self).sections@,
            final(self).doc_info == old(self).doc_info,
            final(self).current_section_idx == old(self).current_section_idx,
    {
        let idx = self.current_section_idx;
        if idx < self.sections.len() {
            let ghost before = self.sections@;
            let mut sec = self.sections.remove(idx);
            let ghost old_pd = sec.page_def;
            let mut pd = match sec.page_def {
                Some(p) => p,
                None => PageDef::new_default(),
            };
            let ghost base = pd;
            pd.header_footer.add_header(h);
            let ghost g = pd;
            assert(g.header_footer.items@ =~= items_of(old_pd).push(h));
            assert(keeps_page(old_pd, g));
            sec.page_def = Some(pd);
            self.sections.insert(idx, sec);
            assert(self.sections@ =~= before.update(idx as int, sec));
        }
    }

    /// Adds a header with the text to the current section.
    pub fn add_header(&mut self, text: &str)
        ensures
            0 <= old(self).current_section() < old(self).sections_view().len() ==> exists|pd: PageDef, h: HeaderFooter|
                default_item(h, HeaderFooterType::Header, text@)
                && pd.header_footer.items@ == items_of(old(self).sections_view()[old(self).current_section()].page_def).push(h)
                && keeps_page(old(self).sections_view()[old(self).current_section()].page_def, pd)
                && with_page_def(old(self).sections_view(), final(self).sections_view(), old(self).current_section(), pd),
            final(self).doc_info_view() == old(self).doc_info_view(),
    {
        let h = HeaderFooter::new_header(text);
        self.push_header_footer(h);
    }

    /// Adds a footer with the prefix and the page number in a format to the
    /// current section.
    pub fn add_footer_with_page_number(&mut self, prefix: &str, format: PageNumberFormat)
        ensures
            0 <= old(self).current_section() < old(self).sections_view().len() ==> exists|pd: PageDef, h: HeaderFooter|
                default_item(HeaderFooter { include_page_number: false, page_number_format: 1, ..h }, HeaderFooterType::Footer, prefix@)
                && h.include_page_number && h.page_number_format == crate::model::header_footer::format_code(format)
                && pd.header_footer.items@ == items_of(old(self).sections_view()[old(self).current_section()].page_def).push(h)
                && keeps_page(old(self).sections_view()[old(self).current_section()].page_def, pd)
                && with_page_def(old(self).sections_view(), final(self).sections_view(), old(self).current_section(), pd),
            final(self).doc_info_view() == old(self).doc_info_view(),
    {
        let footer = HeaderFooter::new_footer(prefix).with_page_number(format);
        self.push_header_footer(footer);
    }
}

/// The list type a nested list remembers of the list around it: its type,
/// a bullet list where there was none.
pub open spec fn outer_type(t: Option<ListType>) -> ListType {
    match t {
        Some(x) => x,
        None => ListType::Bullet,
    }
}

impl HwpWriter {
    /// Adds a paragraph of text in a character shape to the current section:
    /// the shape is added to the definitions and the paragraph's one
    /// position entry points to it; the paragraph takes the next instance
    /// id.
    pub fn add_paragraph_with_char_shape(&mut self, text: &str, char_shape: CharShape) -> (res: Result<(), HwpError>)
        requires
            old(self).instance_counter() < u32::MAX,
        ensures
            res is Ok,
            final(self).doc_info_view().char_shapes@ == old(self).doc_info_view().char_shapes@.push(char_shape),
            final(self).doc_info_view().para_shapes@ == old(self).doc_info_view().para_shapes@,
            final(self).doc_info_view().face_names@ == old(self).doc_info_view().face_names@,
            final(self).instance_counter() == old(self).instance_counter() + 1,
            exists|p: Paragraph| written_paragraph(p, text@, 0, old(self).instance_counter(),
                Some(seq![CharPositionShape { position: 0, char_shape_id: old(self).doc_info_view().char_shapes@.len() as u16 }]))
                && with_paragraph(old(self).sections_view(), final(self).sections_view(), old(self).current_section(), p),
            final(self).current_section() == old(self).current_section(),
            final(self).list_state() == old(self).list_state(),
    {
        self.add_shaped_paragraph(text, char_shape, 0)
    }

    /// Adds a paragraph of text in a new character shape and a paragraph
    /// shape.
    fn add_shaped_paragraph(&mut self, text: &str, char_shape: CharShape, ps: u16) -> (res: Result<(), HwpError>)
        requires
            old(self).instance_counter() < u32::MAX,
        ensures
            res is Ok,
            final(self).doc_info_view().char_shapes@ == old(self).doc_info_view().char_shapes@.push(char_shape),
            final(self).doc_info_view().para_shapes@ == old(self).doc_info_view().para_shapes@,
            final(self).doc_info_view().face_names@ == old(self).doc_info_view().face_names@,
            final(self).instance_counter() == old(self).instance_counter() + 1,
            exists|p: Paragraph| written_paragraph(p, text@, ps, old(self).instance_counter(),
                Some(seq![CharPositionShape { position: 0, char_shape_id: old(self).doc_info_view().char_shapes@.len() as u16 }]))
                && with_paragraph(old(self).sections_view(), final(self).sections_view(), old(self).current_section(), p),
            final(self).current_section() == old(self).current_section(),
            final(self).list_state() == old(self).list_state(),
    {
        let id: u16 = match self.add_char_shape(char_shape) {
            Ok(id) => id,
            Err(e) => {
                return Err(e);
            },
        };
        let mut positions: Vec<CharPositionShape> = Vec::new();
        positions.push(CharPositionShape { position: 0, char_shape_id: id });
        assert(positions@ =~= seq![CharPositionShape { position: 0, char_shape_id: id }]);
        let instance_id = self.next_instance_id();
        let p = Paragraph {
            text: Some(ParaText { content: text_of(text) }),
            control_mask: 0,
            para_shape_id: ps,
            style_id: 0,
            column_type: 0,
            char_shape_count: 1,
            range_tag_count: 0,
            line_align_count: 0,
            instance_id,
            char_shapes: Some(ParaCharShape { char_positions: positions }),
            line_segments: None,
            list_header: None,
        };
        let ghost gp = p;
        self.push_paragraph(p);
        assert(written_paragraph(gp, text@, ps, instance_id,
            Some(seq![CharPositionShape { position: 0, char_shape_id: id }])));
        assert(id == old(self).doc_info_view().char_shapes@.len() as u16);
        assert(instance_id == old(self).instance_counter());
        assert(with_paragraph(old(self).sections_view(), self.sections_view(), old(self).current_section(), gp));
        Ok(())
    }

    /// Starts a list of a type: level 0, no item yet.
    pub fn start_list(&mut self, list_type: ListType) -> (res: Result<(), HwpError>)
        ensures
            res is Ok,
            final(self).list_state() == (Some(list_type), 0u32, 0u32, old(self).list_state().3),
            final(self).sections_view() == old(self).sections_view(),
            final(self).doc_info_view() == old(self).doc_info_view(),
            final(self).current_section() == old(self).current_section(),
            final(self).instance_counter() == old(self).instance_counter(),
    {
        self.current_list_type = Some(list_type);
        self.current_list_level = 0;
        self.current_list_index = 0;
        Ok(())
    }

    /// Adds the next item of the current list: its prefix, a space and the
    /// text, as a paragraph in a new default character shape, indented by a
    /// paragraph shape of its own in a nested list. Without a list, an
    /// invalid input.
    pub fn add_list_item(&mut self, text: &str) -> (res: Result<(), HwpError>)
        requires
            old(self).list_state().2 < u32::MAX,
            old(self).instance_counter() < u32::MAX,
        ensures
            match old(self).list_state().0 {
                None => {
                    &&& res matches Err(HwpError::InvalidInput(_))
                    &&& final(self).sections_view() == old(self).sections_view()
                    &&& final(self).doc_info_view() == old(self).doc_info_view()
                    &&& final(self).instance_counter() == old(self).instance_counter()
                    &&& final(self).list_state() == old(self).list_state()
                },
                Some(t) => {
                    let (_, level, index, stack) = old(self).list_state();
                    &&& res is Ok
                    &&& final(self).list_state() == (Some(t), level, (index + 1) as u32, stack)
                    &&& final(self).instance_counter() == old(self).instance_counter() + 1
                    &&& final(self).doc_info_view().char_shapes@.len() == old(self).doc_info_view().char_shapes@.len() + 1
                    &&& final(self).doc_info_view().char_shapes@.drop_last() == old(self).doc_info_view().char_shapes@
                    &&& (level == 0 ==> final(self).doc_info_view().para_shapes@ == old(self).doc_info_view().para_shapes@)
                    &&& (level > 0 ==> final(self).doc_info_view().para_shapes@.drop_last() == old(self).doc_info_view().para_shapes@
                        && final(self).doc_info_view().para_shapes@.len() == old(self).doc_info_view().para_shapes@.len() + 1
                        && final(self).doc_info_view().para_shapes@.last().left_margin == list_margin(level))
                    &&& exists|p: Paragraph| written_paragraph(p, list_item_text(t, (index + 1) as u32, level, text@),
                        item_shape(level, old(self).doc_info_view().para_shapes@.len()), old(self).instance_counter(),
                        Some(seq![CharPositionShape { position: 0, char_shape_id: old(self).doc_info_view().char_shapes@.len() as u16 }]))
                        && with_paragraph(old(self).sections_view(), final(self).sections_view(), old(self).current_section(), p)
                },
            },
            final(self).current_section() == old(self).current_section(),
    {
        let t: ListType = match &self.current_list_type {
            None => {
                return Err(HwpError::InvalidInput(text_of("No active list. Call start_list() first.")));
            },
            Some(t) => copy_list_type(t),
        };
        self.current_list_index = self.current_list_index + 1;
        let mut full = get_list_prefix(&t, self.current_list_index, self.current_list_level);
        push_char(&mut full, ' ');
        full.append(text);
        assert(full@ =~= list_item_text(t, self.current_list_index, self.current_list_level, text@));
        let level = self.current_list_level;
        let ghost pss = self.doc_info.para_shapes@;
        let ps: u16 = if level == 0 {
            0
        } else {
            let mut shape = ParaShape::new_default();
            shape.left_margin = if level > 100_000 { i32::MAX } else { (level * 2000) as i32 };
            match self.add_para_shape(shape) {
                Ok(id) => id,
                Err(e) => {
                    return Err(e);
                },
            }
        };
        assert(ps == item_shape(level, pss.len()));
        let ghost cs = self.doc_info.char_shapes@;
        let ghost secs0 = self.sections_view();
        let ghost inst0 = self.instance_counter();
        let ghost cur0 = self.current_section();
        let ghost item = full@;
        let ghost pos = seq![CharPositionShape { position: 0, char_shape_id: cs.len() as u16 }];
        let r = self.add_shaped_paragraph(full.as_str(), CharShape::new_default(), ps);
        assert(self.doc_info.char_shapes@.drop_last() =~= cs);
        assert(level > 0 ==> self.doc_info.para_shapes@.drop_last() =~= pss);
        proof {
            let p = choose|p: Paragraph| written_paragraph(p, item, ps, inst0, Some(pos))
                && with_paragraph(secs0, self.sections_view(), cur0, p);
            assert(written_paragraph(p, item, ps, inst0, Some(pos)) && with_paragraph(secs0, self.sections_view(), cur0, p));
            assert(secs0 == old(self).sections_view());
            assert(inst0 == old(self).instance_counter());
            assert(cur0 == old(self).current_section());
        }
        r
    }

    /// Starts a list nested in the current one, remembering the type and
    /// the last item number of the list around it.
    pub fn start_nested_list(&mut self, list_type: ListType) -> (res: Result<(), HwpError>)
        requires
            old(self).list_state().1 < u32::MAX,
        ensures
            res is Ok,
            ({
                let (t, level, index, stack) = old(self).list_state();
                final(self).list_state() == (Some(list_type), (level + 1) as u32, 0u32, stack.push((outer_type(t), index)))
            }),
            final(self).sections_view() == old(self).sections_view(),
            final(self).doc_info_view() == old(self).doc_info_view(),
            final(self).instance_counter() == old(self).instance_counter(),
            final(self).current_section() == old(self).current_section(),
    {
        self.current_list_level = self.current_list_level + 1;
        let outer = match &self.current_list_type {
            Some(t) => copy_list_type(t),
            None => ListType::Bullet,
        };
        self.list_stack.push((outer, self.current_list_index));
        self.current_list_type = Some(list_type);
        self.current_list_index = 0;
        Ok(())
    }

    /// Ends the current list: a nested list gives way to the list around
    /// it, with its type and last item number; a top-level list ends.
    pub fn end_list(&mut self) -> (res: Result<(), HwpError>)
        ensures
            res is Ok,
            ({
                let (t, level, index, stack) = old(self).list_state();
                if level > 0 {
                    if stack.len() > 0 {
                        final(self).list_state() == (Some(stack.last().0), (level - 1) as u32, stack.last().1, stack.drop_last())
                    } else {
                        final(self).list_state() == old(self).list_state()
                    }
                } else {
                    final(self).list_state() == (None::<ListType>, level, 0u32, stack)
                }
            }),
            final(self).sections_view() == old(self).sections_view(),
            final(self).doc_info_view() == old(self).doc_info_view(),
            final(self).instance_counter() == old(self).instance_counter(),
            final(self).current_section() == old(self).current_section(),
    {
        if self.current_list_level > 0 {
            match self.list_stack.pop() {
                Some((parent_type, parent_index)) => {
                    self.current_list_type = Some(parent_type);
                    self.current_list_index = parent_index;
                    self.current_list_level = self.current_list_level - 1;
                },
                None => {},
            }
        } else {
            self.current_list_type = None;
            self.current_list_index = 0;
        }
        Ok(())
    }
}

/// Whether a paragraph holds a text.
pub open spec fn has_text(p: Paragraph, text: Seq<char>) -> bool {
    p.text matches Some(pt) && pt.content@ == text
}

/// Whether paragraph `base + i` of section `sec` holds item `i` of a list
/// of a type, for each of the first `n` items.
pub open spec fn holds_items(sec: Section, base: int, t: ListType, items: Seq<&str>, n: int) -> bool {
    &&& sec.paragraphs@.len() == base + n
    &&& forall|i: int| 0 <= i < n ==> has_text(#[trigger] sec.paragraphs@[base + i], list_item_text(t, (i + 1) as u32, 0, items[i]@))
}

impl HwpWriter {
    /// Writes a list of a type: each item numbered from 1 at the top level,
    /// then the list ends.
    pub fn add_list(&mut self, items: &[&str], list_type: ListType) -> (res: Result<(), HwpError>)
        requires
            old(self).instance_counter() + items@.len() < u32::MAX,
        ensures
            res is Ok,
            final(self).list_state() == (None::<ListType>, 0u32, 0u32, old(self).list_state().3),
            final(self).instance_counter() == old(self).instance_counter() + items@.len(),
            final(self).current_section() == old(self).current_section(),
            ({
                let idx = old(self).current_section();
                let s0 = old(self).sections_view();
                if 0 <= idx < s0.len() {
                    &&& final(self).sections_view().len() == s0.len()
                    &&& holds_items(final(self).sections_view()[idx], s0[idx].paragraphs@.len() as int, list_type, items@, items@.len() as int)
                } else {
                    final(self).sections_view() == s0
                }
            }),
    {
        let ghost lt = list_type;
        let ghost s0 = self.sections_view();
        let ghost idx = self.current_section();
        let ghost inst0 = self.instance_counter();
        let ghost stack0 = self.list_state().3;
        let ghost base = if 0 <= idx < s0.len() { s0[idx].paragraphs@.len() as int } else { 0 };
        let _ = self.start_list(list_type);
        let mut i: usize = 0;
        while i < items.len()
            invariant
                i <= items@.len(),
                inst0 + items@.len() < u32::MAX,
                self.list_state() == (Some(lt), 0u32, i as u32, stack0),
                self.instance_counter() == inst0 + i,
                self.current_section() == idx,
                0 <= idx < s0.len() ==> self.sections_view().len() == s0.len()
                    && holds_items(self.sections_view()[idx], base, lt, items@, i as int),
                !(0 <= idx < s0.len()) ==> self.sections_view() == s0,
                base == (if 0 <= idx < s0.len() { s0[idx].paragraphs@.len() as int } else { 0 }),
            decreases items@.len() - i,
        {
            let ghost before = self.sections_view();
            let ghost pos = seq![CharPositionShape { position: 0, char_shape_id: self.doc_info_view().char_shapes@.len() as u16 }];
            let _ = self.add_list_item(items[i]);
            proof {
                let p = choose|p: Paragraph| written_paragraph(p, list_item_text(lt, (i + 1) as u32, 0, items@[i as int]@),
                    0, (inst0 + i) as u32, Some(pos)) && with_paragraph(before, self.sections_view(), idx, p);
                if 0 <= idx < s0.len() {
                    let sec = self.sections_view()[idx];
                    assert(sec.paragraphs@ == before[idx].paragraphs@.push(p));
                    assert forall|k: int| 0 <= k < i + 1 implies has_text(#[trigger] sec.paragraphs@[base + k], list_item_text(lt, (k + 1) as u32, 0, items@[k]@)) by {
                        if k < i {
                            assert(sec.paragraphs@[base + k] == before[idx].paragraphs@[base + k]);
                        }
                    }
                }
            }
            i = i + 1;
        }
        let _ = self.end_list();
        Ok(())
    }
}

impl HwpWriter {
    /// The sections of the document being written.
    pub fn sections(&self) -> (r: &Vec<Section>)
        ensures
            r@ == self.sections_view(),
    {
        &self.sections
    }

    /// The definitions of the document being written.
    pub fn doc_info(&self) -> (r: &DocInfo)
        ensures
            *r == self.doc_info_view(),
    {
        &self.doc_info
    }
}

impl Default for HwpWriter {
    fn default() -> (w: Self)
        ensures
            w.sections_view().len() == 1,
            w.instance_counter() == 1,
            w.list_state().0 is None,
    {
        Self::new()
    }
}

/// A paragraph that the writer adds with a paragraph shape of its own: the
/// text, that shape, the default style, one character shape and one line
/// alignment, instance id 0, the given character shapes.
pub open spec fn formatted_paragraph(p: Paragraph, text: Seq<char>, ps: u16, cs: Seq<CharPositionShape>) -> bool {
    &&& p.text matches Some(t) && t.content@ == text
    &&& p.control_mask == 0 && p.para_shape_id == ps && p.style_id == 0 && p.column_type == 0
    &&& p.char_shape_count == 1 && p.range_tag_count == 0 && p.line_align_count == 1
    &&& p.instance_id == 0
    &&& p.char_shapes matches Some(x) && x.char_positions@ == cs
    &&& p.line_segments is None
    &&& p.list_header is None
}

/// The paragraph shape of an aligned paragraph: the default shape with the
/// alignment code in bits 2 to 4 of its first properties.
pub open spec fn aligned_properties(code: u32) -> u32 {
    (0x04u32 & !0x1Cu32) | ((code << 2u32) as u32)
}

impl HwpWriter {
    /// Adds a paragraph of text with a paragraph shape: the shape and a new
    /// default character shape are added to the definitions and the
    /// paragraph points to both.
    pub fn add_paragraph_with_para_shape(&mut self, text: &str, para_shape: ParaShape) -> (res: Result<(), HwpError>)
        ensures
            res is Ok,
            final(self).doc_info_view().para_shapes@ == old(self).doc_info_view().para_shapes@.push(para_shape),
            final(self).doc_info_view().char_shapes@.len() == old(self).doc_info_view().char_shapes@.len() + 1,
            final(self).doc_info_view().char_shapes@.drop_last() == old(self).doc_info_view().char_shapes@,
            exists|p: Paragraph| formatted_paragraph(p, text@, old(self).doc_info_view().para_shapes@.len() as u16,
                seq![CharPositionShape { position: 0, char_shape_id: old(self).doc_info_view().char_shapes@.len() as u16 }])
                && with_paragraph(old(self).sections_view(), final(self).sections_view(), old(self).current_section(), p),
            final(self).current_section() == old(self).current_section(),
            final(self).instance_counter() == old(self).instance_counter(),
            final(self).list_state() == old(self).list_state(),
    {
        let ps: u16 = match self.add_para_shape(para_shape) {
            Ok(id) => id,
            Err(e) => {
                return Err(e);
            },
        };
        let ghost cs0 = self.doc_info.char_shapes@;
        let id: u16 = match self.add_char_shape(CharShape::new_default()) {
            Ok(id) => id,
            Err(e) => {
                return Err(e);
            },
        };
        assert(self.doc_info.char_shapes@.drop_last() =~= cs0);
        let mut positions: Vec<CharPositionShape> = Vec::new();
        positions.push(CharPositionShape { position: 0, char_shape_id: id });
        assert(positions@ =~= seq![CharPositionShape { position: 0, char_shape_id: id }]);
        let p = Paragraph {
            text: Some(ParaText { content: text_of(text) }),
            control_mask: 0,
            para_shape_id: ps,
            style_id: 0,
            column_type: 0,
            char_shape_count: 1,
            range_tag_count: 0,
            line_align_count: 1,
            instance_id: 0,
            char_shapes: Some(ParaCharShape { char_positions: positions }),
            line_segments: None,
            list_header: None,
        };
        let ghost gp = p;
        self.push_paragraph(p);
        assert(formatted_paragraph(gp, text@, ps, seq![CharPositionShape { position: 0, char_shape_id: id }]));
        assert(with_paragraph(old(self).sections_view(), self.sections_view(), old(self).current_section(), gp));
        Ok(())
    }

    /// Adds a paragraph of text aligned by an alignment code (set in bits 2
    /// to 4 of the first properties of a new paragraph shape).
    pub fn add_aligned_paragraph(&mut self, text: &str, alignment: u32) -> (res: Result<(), HwpError>)
        ensures
            res is Ok,
            final(self).doc_info_view().para_shapes@.len() == old(self).doc_info_view().para_shapes@.len() + 1,
            final(self).doc_info_view().para_shapes@.last().properties1 == aligned_properties(alignment),
            exists|p: Paragraph| formatted_paragraph(p, text@, old(self).doc_info_view().para_shapes@.len() as u16,
                seq![CharPositionShape { position: 0, char_shape_id: old(self).doc_info_view().char_shapes@.len() as u16 }])
                && with_paragraph(old(self).sections_view(), final(self).sections_view(), old(self).current_section(), p),
            final(self).current_section() == old(self).current_section(),
            final(self).instance_counter() == old(self).instance_counter(),
    {
        let mut para_shape = ParaShape::new_default();
        para_shape.properties1 = (para_shape.properties1 & !0x1Cu32) | (alignment << 2u32);
        self.add_paragraph_with_para_shape(text, para_shape)
    }
}

} // verus!
