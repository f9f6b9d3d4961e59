use vstd::prelude::*;
use vstd::utf8::encode_utf8;
use crate::error::HwpError;
use crate::model::bin_data::BinData;
use crate::model::border_fill::{BorderFill, BorderLine};
use crate::model::char_shape::{char_shape_from, CharShape, FaceName};
use crate::model::document::DocumentProperties;
use crate::model::header_footer::{HeaderFooter, HeaderFooterType};
use crate::model::hyperlink::Hyperlink;
use crate::model::page_def::{PageDef, page_def_bytes};
use crate::model::para_char_shape::{CharPositionShape, ParaCharShape};
use crate::model::para_shape::{ParaShape, para_shape_from};
use crate::model::numbering::{Bullet, Numbering, bullet_bytes, numbering_bytes};
use crate::model::paragraph::{ParaText, Paragraph, Section};
use crate::model::style::Style;
use crate::model::tab_def::{Tab, TabDef};
use crate::parser::doc_info::DocInfo;
use crate::parser::header::{FileHeader, header_bytes};
use crate::parser::record::{header_len, level_bits, record_fits, record_size, tag_bits};
use crate::utils::bytes::{
    from_i16, from_i32, i8_of, le16, le32, lemma_i16_roundtrip, lemma_i32_roundtrip, lemma_u16_at, lemma_u32_at, put_bytes,
    put_u16, put_u32, u16_of, u32_le, u32_of,
};
use crate::utils::compression::{deflate, deflate_decoding, deflate_encoding};
use crate::utils::chars::chars_of;
use crate::utils::encoding::{counted_text, put_chars_utf16le, put_counted_text, string_to_utf16le, utf16le_bytes};
use crate::utils::text::{push_char, text_of};

verus! {

/// The packed header word of a record: tag in bits 0-9, level from bit 10,
/// size from bit 20 (all cut to 32 bits).
pub open spec fn packed_header(tag: u16, level: u16, size: u32) -> u32 {
    (tag as u32) | ((level as u32) << 10u32) | (size << 20u32)
}

/// The bytes of a record: its packed header (with the size 0xFFF and the
/// size in a word of its own where the size is 0xFFF or more), then its data.
pub open spec fn record_bytes(tag: u16, level: u16, data: Seq<u8>) -> Seq<u8> {
    let size = data.len() as u32;
    if size < 0xFFF {
        le32(packed_header(tag, level, size)) + data
    } else {
        le32(packed_header(tag, level, 0xFFF)) + le32(size) + data
    }
}

/// Appends a record: its header, then its data.
pub fn write_record(out: &mut Vec<u8>, tag: u16, level: u16, data: &[u8])
    ensures
        final(out)@ == old(out)@ + record_bytes(tag, level, data@),
{
    let size: u32 = data.len() as u32;
    if size < 0xFFF {
        let header: u32 = (tag as u32) | ((level as u32) << 10u32) | (size << 20u32);
        put_u32(out, header);
    } else {
        let header: u32 = (tag as u32) | ((level as u32) << 10u32) | (0xFFFu32 << 20u32);
        put_u32(out, header);
        put_u32(out, size);
    }
    put_bytes(out, data);
    assert(out@ =~= old(out)@ + record_bytes(tag, level, data@));
}

/// A record written with a tag under 1024 and a level under 256 reads back
/// as the same record: it lies within the bytes, its header gives the tag
/// and level, and its data are the data written.
pub proof fn law_record_roundtrip(tag: u16, level: u16, data: Seq<u8>, rest: Seq<u8>)
    requires
        tag < 1024,
        level < 256,
        data.len() <= u32::MAX,
    ensures
        ({
            let d = record_bytes(tag, level, data) + rest;
            &&& record_fits(d, 0)
            &&& tag_bits(u32_le(d, 0)) == tag
            &&& level_bits(u32_le(d, 0)) == level
            &&& record_size(d, 0) == data.len()
            &&& d.subrange(header_len(d, 0), header_len(d, 0) + record_size(d, 0)) == data
            &&& d.subrange(header_len(d, 0) + record_size(d, 0), d.len() as int) == rest
        }),
{
    let size = data.len() as u32;
    let d = record_bytes(tag, level, data) + rest;
    let t = tag as u32;
    let l = level as u32;
    if size < 0xFFF {
        let h = packed_header(tag, level, size);
        assert(h % 1024 == t && (h / 1024) % 256 == l && h / 1048576 == size) by (bit_vector)
            requires
                h == t | (l << 10u32) | (size << 20u32),
                t < 1024,
                l < 256,
                size < 0xFFF,
        ;
        assert(d.subrange(0, 4) =~= le32(h));
        lemma_u32_at(d, 0, h);
        assert(header_len(d, 0) == 4);
        assert(d.subrange(4, 4 + data.len() as int) =~= data);
        assert(d.subrange(4 + data.len() as int, d.len() as int) =~= rest);
    } else {
        let h = packed_header(tag, level, 0xFFF);
        let f = 0xFFFu32;
        assert(h % 1024 == t && (h / 1024) % 256 == l && h / 1048576 == 0xFFF) by (bit_vector)
            requires
                h == t | (l << 10u32) | (f << 20u32),
                f == 0xFFF,
                t < 1024,
                l < 256,
        ;
        assert(d.subrange(0, 4) =~= le32(h));
        lemma_u32_at(d, 0, h);
        assert(d.subrange(4, 8) =~= le32(size));
        lemma_u32_at(d, 4, size);
        assert(header_len(d, 0) == 8);
        assert(d.subrange(8, 8 + data.len() as int) =~= data);
        assert(d.subrange(8 + data.len() as int, d.len() as int) =~= rest);
    }
}

/// The larger of a value and one.
pub open spec fn at_least_one(x: u16) -> u16 {
    if x >= 1 { x } else { 1 }
}

/// The larger of a length and one, as 32 bits.
pub open spec fn count_at_least_one(n: nat) -> u32 {
    (if n >= 1 { n } else { 1 }) as u32
}

/// The document properties record as written: the six numbering starts
/// (each at least 1), the equation start, and three zero words.
pub open spec fn written_properties(p: DocumentProperties) -> Seq<u8> {
    le16(at_least_one(p.section_count)) + le16(at_least_one(p.page_start_number)) + le16(
        at_least_one(p.footnote_start_number),
    ) + le16(at_least_one(p.endnote_start_number)) + le16(at_least_one(p.picture_start_number)) + le16(
        at_least_one(p.table_start_number),
    ) + le16(p.equation_start_number) + le32(0) + le32(0) + le32(0)
}

/// The id mappings record: how many entries of each kind follow (all fonts
/// counted under the first language; border fills, character shapes, tab
/// definitions, paragraph shapes and styles counted as at least one).
pub open spec fn id_mappings(info: DocInfo) -> Seq<u8> {
    le32(info.bin_data@.len() as u32) + le32(info.face_names@.len() as u32) + le32(0) + le32(0) + le32(0)
        + le32(0) + le32(0) + le32(0) + le32(count_at_least_one(info.border_fills@.len())) + le32(
        count_at_least_one(info.char_shapes@.len()),
    ) + le32(count_at_least_one(info.tab_defs@.len())) + le32(info.numberings@.len() as u32) + le32(
        info.bullets@.len() as u32,
    ) + le32(count_at_least_one(info.para_shapes@.len())) + le32(count_at_least_one(info.styles@.len()))
        + le32(0) + le32(0) + le32(0)
}

/// A binary data entry as written: properties, absolute and relative names,
/// id and extension.
pub open spec fn written_bin_data(b: BinData) -> Seq<u8> {
    le16(b.properties) + counted_text(b.abs_name@) + counted_text(b.rel_name@) + le16(b.bin_id) + counted_text(
        b.extension@,
    )
}

/// A font face as written: properties and name.
pub open spec fn written_face_name(f: FaceName) -> Seq<u8> {
    seq![f.properties] + counted_text(f.font_name@)
}

/// A paragraph shape as written, in the order it is read.
pub open spec fn written_para_shape(p: ParaShape) -> Seq<u8> {
    le32(p.properties1) + le32(u32_of(p.left_margin)) + le32(u32_of(p.right_margin)) + le32(u32_of(p.indent))
        + le32(u32_of(p.top_para_space)) + le32(u32_of(p.bottom_para_space)) + le32(u32_of(p.line_space))
        + le16(p.tab_def_id) + le16(p.numbering_id) + le16(p.border_fill_id) + le16(u16_of(p.border_left_space))
        + le16(u16_of(p.border_right_space)) + le16(u16_of(p.border_top_space)) + le16(
        u16_of(p.border_bottom_space),
    ) + le32(p.properties2) + le32(p.properties3) + le32(p.line_space_type)
}

/// A style as written: names, properties, next style, language and shapes.
pub open spec fn written_style(s: Style) -> Seq<u8> {
    counted_text(s.name@) + counted_text(s.english_name@) + seq![s.properties, s.next_style_id] + le16(s.lang_id)
        + le16(s.para_shape_id) + le16(s.char_shape_id)
}

/// A border line as written: type, thickness, colour.
pub open spec fn written_border_line(l: BorderLine) -> Seq<u8> {
    seq![l.line_type, l.thickness] + le32(l.color)
}

/// A border fill as written: properties, the five lines, and the fill's
/// type, colours and pattern (types cut to a byte).
pub open spec fn written_border_fill(b: BorderFill) -> Seq<u8> {
    le16(b.properties) + written_border_line(b.left) + written_border_line(b.right) + written_border_line(b.top)
        + written_border_line(b.bottom) + written_border_line(b.diagonal) + seq![b.fill_info.fill_type as u8]
        + le32(b.fill_info.back_color) + le32(b.fill_info.pattern_color) + seq![b.fill_info.pattern_type as u8]
}

/// The tabs as written: position, type, leader and two reserved bytes each.
pub open spec fn written_tabs(t: Seq<Tab>) -> Seq<u8>
    decreases t.len(),
{
    if t.len() == 0 {
        seq![]
    } else {
        written_tabs(t.drop_last()) + le32(t.last().position) + seq![t.last().tab_type, t.last().leader_type]
            + le16(0)
    }
}

/// A tab definition as written: properties, count of tabs, the tabs.
pub open spec fn written_tab_def(t: TabDef) -> Seq<u8> {
    le32(t.properties) + le32(t.tabs@.len() as u32) + written_tabs(t.tabs@)
}

/// The document options stream: version 1, default view (zoom 100) and
/// edit options.
pub open spec fn doc_options() -> Seq<u8> {
    le32(1) + le32(0) + le32(100) + le32(0) + le32(1) + le32(0)
}

/// The character positions as written: position and shape id (widened to
/// 32 bits) for each.
pub open spec fn written_char_positions(c: Seq<CharPositionShape>) -> Seq<u8>
    decreases c.len(),
{
    if c.len() == 0 {
        seq![]
    } else {
        written_char_positions(c.drop_last()) + le32(c.last().position) + le32(c.last().char_shape_id as u32)
    }
}

/// A paragraph header as written: the character count (the UTF-8 length of
/// the text, halved) with the last-in-list bit, the control mask, shape,
/// style and column type, the counts (character shapes and line aligns at
/// least 1), the instance id and a zero word.
pub open spec fn written_paragraph_header(p: Paragraph) -> Seq<u8> {
    let n: u32 = match p.text {
        Some(t) => (encode_utf8(t.content@).len() as usize as u32) / 2,
        None => 0,
    };
    le32(n | 0x80000000u32) + le32(p.control_mask) + le16(p.para_shape_id) + seq![p.style_id, p.column_type]
        + le16(at_least_one(p.char_shape_count)) + le16(p.range_tag_count) + le16(
        at_least_one(p.line_align_count),
    ) + le32(p.instance_id) + le16(0)
}

/// The command of a hyperlink field: the target, whether it opens in a new
/// window, and two zero parameters.
pub open spec fn link_command(h: Hyperlink) -> Seq<char> {
    h.target_url@ + seq![';'] + (if h.open_in_new_window { seq!['1'] } else { seq!['0'] }) + seq![';', '0', ';', '0', ';']
}

/// The control header of a hyperlink field: its id, flags, a zero byte, the
/// command's length and text, and eight zero bytes.
pub open spec fn hyperlink_ctrl_header(h: Hyperlink) -> Seq<u8> {
    le32(0x25686C6B) + le32(0x9000) + seq![0u8] + le16(link_command(h).len() as u16) + utf16le_bytes(
        link_command(h),
    ) + Seq::new(8, |i: int| 0u8)
}

/// The 40-byte layout of a header or footer control: two fixed words, the
/// height twice, the margin four times, and two zero words.
pub open spec fn header_footer_control(h: HeaderFooter) -> Seq<u8> {
    le32(0xE888) + le32(0x148DA) + le32(h.height) + le32(h.height) + le32(h.margin) + le32(h.margin) + le32(
        h.margin,
    ) + le32(h.margin) + le32(0) + le32(0)
}

/// The file header stream.
pub fn serialize_file_header(header: &FileHeader) -> (res: Result<Vec<u8>, HwpError>)
    ensures
        res matches Ok(v) && v@ == header_bytes(header.signature@, header.version, header.flags, header.reserved@),
{
    Ok(header.to_bytes())
}

fn max_one(x: u16) -> (r: u16)
    ensures
        r == at_least_one(x),
{
    if x >= 1 { x } else { 1 }
}

fn count_max_one(n: usize) -> (r: u32)
    ensures
        r == count_at_least_one(n as nat),
{
    if n >= 1 { n as u32 } else { 1 }
}

/// The document properties record.
pub fn serialize_document_properties(props: &DocumentProperties) -> (res: Result<Vec<u8>, HwpError>)
    ensures
        res matches Ok(v) && v@ == written_properties(*props),
{
    let mut data: Vec<u8> = Vec::new();
    put_u16(&mut data, max_one(props.section_count));
    put_u16(&mut data, max_one(props.page_start_number));
    put_u16(&mut data, max_one(props.footnote_start_number));
    put_u16(&mut data, max_one(props.endnote_start_number));
    put_u16(&mut data, max_one(props.picture_start_number));
    put_u16(&mut data, max_one(props.table_start_number));
    put_u16(&mut data, props.equation_start_number);
    put_u32(&mut data, 0);
    put_u32(&mut data, 0);
    put_u32(&mut data, 0);
    assert(data@ =~= written_properties(*props));
    Ok(data)
}

/// The id mappings record.
pub fn serialize_id_mappings(doc_info: &DocInfo) -> (res: Result<Vec<u8>, HwpError>)
    ensures
        res matches Ok(v) && v@ == id_mappings(*doc_info),
{
    let mut data: Vec<u8> = Vec::new();
    put_u32(&mut data, doc_info.bin_data.len() as u32);
    put_u32(&mut data, doc_info.face_names.len() as u32);
    put_u32(&mut data, 0);
    put_u32(&mut data, 0);
    put_u32(&mut data, 0);
    put_u32(&mut data, 0);
    put_u32(&mut data, 0);
    put_u32(&mut data, 0);
    put_u32(&mut data, count_max_one(doc_info.border_fills.len()));
    put_u32(&mut data, count_max_one(doc_info.char_shapes.len()));
    put_u32(&mut data, count_max_one(doc_info.tab_defs.len()));
    put_u32(&mut data, doc_info.numberings.len() as u32);
    put_u32(&mut data, doc_info.bullets.len() as u32);
    put_u32(&mut data, count_max_one(doc_info.para_shapes.len()));
    put_u32(&mut data, count_max_one(doc_info.styles.len()));
    put_u32(&mut data, 0);
    put_u32(&mut data, 0);
    put_u32(&mut data, 0);
    assert(data@ =~= id_mappings(*doc_info));
    Ok(data)
}

/// A binary data entry record.
pub fn serialize_bin_data_info(bin_data: &BinData) -> (res: Result<Vec<u8>, HwpError>)
    ensures
        res matches Ok(v) && v@ == written_bin_data(*bin_data),
{
    let mut data: Vec<u8> = Vec::new();
    put_u16(&mut data, bin_data.properties);
    put_counted_text(&mut data, bin_data.abs_name.as_str());
    put_counted_text(&mut data, bin_data.rel_name.as_str());
    put_u16(&mut data, bin_data.bin_id);
    put_counted_text(&mut data, bin_data.extension.as_str());
    assert(data@ =~= written_bin_data(*bin_data));
    Ok(data)
}

/// A font face record.
pub fn serialize_face_name(face_name: &FaceName) -> (res: Result<Vec<u8>, HwpError>)
    ensures
        res matches Ok(v) && v@ == written_face_name(*face_name),
{
    let mut data: Vec<u8> = Vec::new();
    data.push(face_name.properties);
    put_counted_text(&mut data, face_name.font_name.as_str());
    assert(data@ =~= written_face_name(*face_name));
    Ok(data)
}

/// A paragraph shape record.
pub fn serialize_para_shape(para_shape: &ParaShape) -> (res: Result<Vec<u8>, HwpError>)
    ensures
        res matches Ok(v) && v@ == written_para_shape(*para_shape),
{
    let mut data: Vec<u8> = Vec::new();
    put_u32(&mut data, para_shape.properties1);
    put_u32(&mut data, from_i32(para_shape.left_margin));
    put_u32(&mut data, from_i32(para_shape.right_margin));
    put_u32(&mut data, from_i32(para_shape.indent));
    put_u32(&mut data, from_i32(para_shape.top_para_space));
    put_u32(&mut data, from_i32(para_shape.bottom_para_space));
    put_u32(&mut data, from_i32(para_shape.line_space));
    put_u16(&mut data, para_shape.tab_def_id);
    put_u16(&mut data, para_shape.numbering_id);
    put_u16(&mut data, para_shape.border_fill_id);
    put_u16(&mut data, from_i16(para_shape.border_left_space));
    put_u16(&mut data, from_i16(para_shape.border_right_space));
    put_u16(&mut data, from_i16(para_shape.border_top_space));
    put_u16(&mut data, from_i16(para_shape.border_bottom_space));
    put_u32(&mut data, para_shape.properties2);
    put_u32(&mut data, para_shape.properties3);
    put_u32(&mut data, para_shape.line_space_type);
    assert(data@ =~= written_para_shape(*para_shape));
    Ok(data)
}

/// A style record.
pub fn serialize_style(style: &Style) -> (res: Result<Vec<u8>, HwpError>)
    ensures
        res matches Ok(v) && v@ == written_style(*style),
{
    let mut data: Vec<u8> = Vec::new();
    put_counted_text(&mut data, style.name.as_str());
    put_counted_text(&mut data, style.english_name.as_str());
    data.push(style.properties);
    data.push(style.next_style_id);
    put_u16(&mut data, style.lang_id);
    put_u16(&mut data, style.para_shape_id);
    put_u16(&mut data, style.char_shape_id);
    assert(data@ =~= written_style(*style));
    Ok(data)
}

/// Seven 16-bit values, little-endian, one after another.
pub open spec fn le16x7(a: Seq<u16>) -> Seq<u8> {
    le16(a[0]) + le16(a[1]) + le16(a[2]) + le16(a[3]) + le16(a[4]) + le16(a[5]) + le16(a[6])
}

/// Signed bytes as the bytes that hold them.
pub open spec fn bytes_of_i8s(a: Seq<i8>) -> Seq<u8> {
    Seq::new(a.len(), |i: int| a[i] as u8)
}

/// A character shape as written: the fields in the order they are read,
/// then a strike-out line colour, which the shape does not hold and is
/// written as 0.
pub open spec fn written_char_shape(c: CharShape) -> Seq<u8> {
    le16x7(c.face_name_ids@) + c.ratios@ + bytes_of_i8s(c.char_spaces@) + c.relative_sizes@ + bytes_of_i8s(
        c.char_offsets@,
    ) + le32(u32_of(c.base_size)) + le32(c.properties) + seq![c.shadow_gap_x as u8, c.shadow_gap_y as u8] + le32(
        c.text_color,
    ) + le32(c.underline_color) + le32(c.shade_color) + le32(c.shadow_color) + le16(c.border_fill_id) + le32(0)
}

proof fn lemma_i8_roundtrip(x: i8)
    ensures
        i8_of(x as u8) == x,
{
    assert(x >= 0 ==> (x as u8) == x as int) by (bit_vector);
    assert(x < 0 ==> (x as u8) == x + 256) by (bit_vector);
}

/// A character shape written to bytes reads back as the same shape: its
/// fonts, ratios, spacings, relative sizes, offsets, base size, properties,
/// shadow gaps, colours and border fill (74 bytes, the last four a
/// strike-out colour the shape does not hold).
#[verifier::spinoff_prover]
#[verifier::rlimit(100)]
pub proof fn law_char_shape_roundtrip(c: CharShape, q: CharShape)
    ensures
        written_char_shape(c).len() == 74,
        char_shape_from(q, written_char_shape(c)) ==> {
            &&& q.face_name_ids@ == c.face_name_ids@ && q.ratios@ == c.ratios@ && q.char_spaces@ == c.char_spaces@
            &&& q.relative_sizes@ == c.relative_sizes@ && q.char_offsets@ == c.char_offsets@
            &&& q.base_size == c.base_size && q.properties == c.properties
            &&& q.shadow_gap_x == c.shadow_gap_x && q.shadow_gap_y == c.shadow_gap_y
            &&& q.text_color == c.text_color && q.underline_color == c.underline_color
            &&& q.shade_color == c.shade_color && q.shadow_color == c.shadow_color
            &&& q.border_fill_id == c.border_fill_id
        },
{
    let d = written_char_shape(c);
    vstd::array::array_len_matches_n(&c.face_name_ids);
    vstd::array::array_len_matches_n(&c.ratios);
    vstd::array::array_len_matches_n(&c.char_spaces);
    vstd::array::array_len_matches_n(&c.relative_sizes);
    vstd::array::array_len_matches_n(&c.char_offsets);
    vstd::array::array_len_matches_n(&q.face_name_ids);
    vstd::array::array_len_matches_n(&q.ratios);
    vstd::array::array_len_matches_n(&q.char_spaces);
    vstd::array::array_len_matches_n(&q.relative_sizes);
    vstd::array::array_len_matches_n(&q.char_offsets);
    assert(le16x7(c.face_name_ids@).len() == 14);
    assert(bytes_of_i8s(c.char_spaces@).len() == 7);
    assert(bytes_of_i8s(c.char_offsets@).len() == 7);
    assert(d.len() == 74);
    if char_shape_from(q, d) {
        assert forall|i: int| 0 <= i < 7 implies q.face_name_ids@[i] == c.face_name_ids@[i] by {
            assert(d.subrange(2 * i, 2 * i + 2) =~= le16(c.face_name_ids@[i]));
            lemma_u16_at(d, 2 * i, c.face_name_ids@[i]);
        }
        assert(q.face_name_ids@ =~= c.face_name_ids@);
        assert forall|i: int| 0 <= i < 7 implies q.ratios@[i] == c.ratios@[i] by {
            assert(d[14 + i] == c.ratios@[i]);
        }
        assert(q.ratios@ =~= c.ratios@);
        assert forall|i: int| 0 <= i < 7 implies q.char_spaces@[i] == c.char_spaces@[i] by {
            assert(d[21 + i] == c.char_spaces@[i] as u8);
            lemma_i8_roundtrip(c.char_spaces@[i]);
        }
        assert(q.char_spaces@ =~= c.char_spaces@);
        assert forall|i: int| 0 <= i < 7 implies q.relative_sizes@[i] == c.relative_sizes@[i] by {
            assert(d[28 + i] == c.relative_sizes@[i]);
        }
        assert(q.relative_sizes@ =~= c.relative_sizes@);
        assert forall|i: int| 0 <= i < 7 implies q.char_offsets@[i] == c.char_offsets@[i] by {
            assert(d[35 + i] == c.char_offsets@[i] as u8);
            lemma_i8_roundtrip(c.char_offsets@[i]);
        }
        assert(q.char_offsets@ =~= c.char_offsets@);
        assert(d.subrange(42, 46) =~= le32(u32_of(c.base_size)));
        lemma_u32_at(d, 42, u32_of(c.base_size));
        lemma_i32_roundtrip(c.base_size);
        assert(d.subrange(46, 50) =~= le32(c.properties));
        lemma_u32_at(d, 46, c.properties);
        assert(d[50] == c.shadow_gap_x as u8 && d[51] == c.shadow_gap_y as u8);
        lemma_i8_roundtrip(c.shadow_gap_x);
        lemma_i8_roundtrip(c.shadow_gap_y);
        assert(d.subrange(52, 56) =~= le32(c.text_color));
        lemma_u32_at(d, 52, c.text_color);
        assert(d.subrange(56, 60) =~= le32(c.underline_color));
        lemma_u32_at(d, 56, c.underline_color);
        assert(d.subrange(60, 64) =~= le32(c.shade_color));
        lemma_u32_at(d, 60, c.shade_color);
        assert(d.subrange(64, 68) =~= le32(c.shadow_color));
        lemma_u32_at(d, 64, c.shadow_color);
        assert(d.subrange(68, 70) =~= le16(c.border_fill_id));
        lemma_u16_at(d, 68, c.border_fill_id);
    }
}

fn put_i8s(data: &mut Vec<u8>, a: &[i8; 7])
    ensures
        final(data)@ == old(data)@ + bytes_of_i8s(a@),
{
    let mut i: usize = 0;
    while i < 7
        invariant
            i <= 7,
            a@.len() == 7,
            data@ == old(data)@ + bytes_of_i8s(a@).subrange(0, i as int),
        decreases 7 - i,
    {
        data.push(#[verifier::truncate] (a[i] as u8));
        i = i + 1;
        assert(data@ =~= old(data)@ + bytes_of_i8s(a@).subrange(0, i as int));
    }
    assert(bytes_of_i8s(a@).subrange(0, 7) =~= bytes_of_i8s(a@));
}

fn put_u8s(data: &mut Vec<u8>, a: &[u8; 7])
    ensures
        final(data)@ == old(data)@ + a@,
{
    let mut i: usize = 0;
    while i < 7
        invariant
            i <= 7,
            a@.len() == 7,
            data@ == old(data)@ + a@.subrange(0, i as int),
        decreases 7 - i,
    {
        data.push(a[i]);
        i = i + 1;
        assert(data@ =~= old(data)@ + a@.subrange(0, i as int));
    }
    assert(a@.subrange(0, 7) =~= a@);
}

/// A character shape record.
pub fn serialize_char_shape(char_shape: &CharShape) -> (res: Result<Vec<u8>, HwpError>)
    ensures
        res matches Ok(v) && v@ == written_char_shape(*char_shape),
{
    let mut data: Vec<u8> = Vec::new();
    let ids = &char_shape.face_name_ids;
    put_u16(&mut data, ids[0]);
    put_u16(&mut data, ids[1]);
    put_u16(&mut data, ids[2]);
    put_u16(&mut data, ids[3]);
    put_u16(&mut data, ids[4]);
    put_u16(&mut data, ids[5]);
    put_u16(&mut data, ids[6]);
    assert(data@ =~= le16x7(char_shape.face_name_ids@));
    put_u8s(&mut data, &char_shape.ratios);
    put_i8s(&mut data, &char_shape.char_spaces);
    put_u8s(&mut data, &char_shape.relative_sizes);
    put_i8s(&mut data, &char_shape.char_offsets);
    put_u32(&mut data, from_i32(char_shape.base_size));
    put_u32(&mut data, char_shape.properties);
    data.push(#[verifier::truncate] (char_shape.shadow_gap_x as u8));
    data.push(#[verifier::truncate] (char_shape.shadow_gap_y as u8));
    put_u32(&mut data, char_shape.text_color);
    put_u32(&mut data, char_shape.underline_color);
    put_u32(&mut data, char_shape.shade_color);
    put_u32(&mut data, char_shape.shadow_color);
    put_u16(&mut data, char_shape.border_fill_id);
    put_u32(&mut data, 0);
    assert(data@ =~= written_char_shape(*char_shape));
    Ok(data)
}

/// Appends a border line.
pub fn serialize_border_line(out: &mut Vec<u8>, border_line: &BorderLine) -> (res: Result<(), HwpError>)
    ensures
        res is Ok,
        final(out)@ == old(out)@ + written_border_line(*border_line),
{
    out.push(border_line.line_type);
    out.push(border_line.thickness);
    put_u32(out, border_line.color);
    assert(out@ =~= old(out)@ + written_border_line(*border_line));
    Ok(())
}

/// A border fill record.
pub fn serialize_border_fill(border_fill: &BorderFill) -> (res: Result<Vec<u8>, HwpError>)
    ensures
        res matches Ok(v) && v@ == written_border_fill(*border_fill),
{
    let mut data: Vec<u8> = Vec::new();
    put_u16(&mut data, border_fill.properties);
    serialize_border_line(&mut data, &border_fill.left)?;
    serialize_border_line(&mut data, &border_fill.right)?;
    serialize_border_line(&mut data, &border_fill.top)?;
    serialize_border_line(&mut data, &border_fill.bottom)?;
    serialize_border_line(&mut data, &border_fill.diagonal)?;
    data.push(border_fill.fill_info.fill_type as u8);
    put_u32(&mut data, border_fill.fill_info.back_color);
    put_u32(&mut data, border_fill.fill_info.pattern_color);
    data.push(border_fill.fill_info.pattern_type as u8);
    assert(data@ =~= written_border_fill(*border_fill));
    Ok(data)
}

/// A tab definition record.
pub fn serialize_tab_def(tab_def: &TabDef) -> (res: Result<Vec<u8>, HwpError>)
    ensures
        res matches Ok(v) && v@ == written_tab_def(*tab_def),
{
    let mut data: Vec<u8> = Vec::new();
    put_u32(&mut data, tab_def.properties);
    put_u32(&mut data, tab_def.tabs.len() as u32);
    let ghost start = data@;
    let mut i: usize = 0;
    while i < tab_def.tabs.len()
        invariant
            i <= tab_def.tabs@.len(),
            data@ == start + written_tabs(tab_def.tabs@.take(i as int)),
        decreases tab_def.tabs.len() - i,
    {
        let tab = tab_def.tabs[i];
        put_u32(&mut data, tab.position);
        data.push(tab.tab_type);
        data.push(tab.leader_type);
        put_u16(&mut data, 0);
        proof {
            assert(tab_def.tabs@.take(i + 1).drop_last() =~= tab_def.tabs@.take(i as int));
        }
        i = i + 1;
        assert(data@ =~= start + written_tabs(tab_def.tabs@.take(i as int)));
    }
    assert(tab_def.tabs@.take(i as int) =~= tab_def.tabs@);
    assert(data@ =~= written_tab_def(*tab_def));
    Ok(data)
}

/// The document options stream.
pub fn create_doc_options() -> (res: Result<Vec<u8>, HwpError>)
    ensures
        res matches Ok(v) && v@ == doc_options(),
{
    let mut data: Vec<u8> = Vec::new();
    put_u32(&mut data, 0x00000001);
    put_u32(&mut data, 0x00000000);
    put_u32(&mut data, 0x00000064);
    put_u32(&mut data, 0x00000000);
    put_u32(&mut data, 0x00000001);
    put_u32(&mut data, 0x00000000);
    assert(data@ =~= doc_options());
    Ok(data)
}

/// A paragraph header record.
#[verifier::spinoff_prover]
pub fn serialize_paragraph_header(paragraph: &Paragraph) -> (res: Result<Vec<u8>, HwpError>)
    ensures
        res matches Ok(v) && v@ == written_paragraph_header(*paragraph),
{
    let char_count: u32 = match &paragraph.text {
        Some(t) => (#[verifier::truncate] (t.content.as_str().len() as u32)) / 2,
        None => 0,
    };
    let flagged: u32 = char_count | 0x80000000u32;
    assert(le32(flagged) == written_paragraph_header(*paragraph).subrange(0, 4));
    let mut data: Vec<u8> = Vec::new();
    put_u32(&mut data, flagged);
    put_u32(&mut data, paragraph.control_mask);
    put_u16(&mut data, paragraph.para_shape_id);
    data.push(paragraph.style_id);
    data.push(paragraph.column_type);
    put_u16(&mut data, max_one(paragraph.char_shape_count));
    put_u16(&mut data, paragraph.range_tag_count);
    put_u16(&mut data, max_one(paragraph.line_align_count));
    put_u32(&mut data, paragraph.instance_id);
    put_u16(&mut data, 0);
    assert(data@ =~= written_paragraph_header(*paragraph));
    Ok(data)
}

/// A paragraph text record: the text in UTF-16LE.
pub fn serialize_paragraph_text(text: &ParaText) -> (res: Result<Vec<u8>, HwpError>)
    ensures
        res matches Ok(v) && v@ == utf16le_bytes(text.content@),
{
    Ok(string_to_utf16le(text.content.as_str()))
}

/// A paragraph character shape record: position and shape id for each.
pub fn serialize_para_char_shapes(char_shapes: &ParaCharShape) -> (res: Result<Vec<u8>, HwpError>)
    ensures
        res matches Ok(v) && v@ == written_char_positions(char_shapes.char_positions@),
{
    let mut data: Vec<u8> = Vec::new();
    let mut i: usize = 0;
    while i < char_shapes.char_positions.len()
        invariant
            i <= char_shapes.char_positions@.len(),
            data@ == written_char_positions(char_shapes.char_positions@.take(i as int)),
        decreases char_shapes.char_positions.len() - i,
    {
        let pos_shape = char_shapes.char_positions[i];
        put_u32(&mut data, pos_shape.position);
        put_u32(&mut data, pos_shape.char_shape_id as u32);
        proof {
            assert(char_shapes.char_positions@.take(i + 1).drop_last() =~= char_shapes.char_positions@.take(i as int));
        }
        i = i + 1;
        assert(data@ =~= written_char_positions(char_shapes.char_positions@.take(i as int)));
    }
    assert(char_shapes.char_positions@.take(i as int) =~= char_shapes.char_positions@);
    Ok(data)
}

/// The control header of a hyperlink field.
pub fn serialize_hyperlink_ctrl_header(hyperlink: &Hyperlink) -> (res: Result<Vec<u8>, HwpError>)
    ensures
        res matches Ok(v) && v@ == hyperlink_ctrl_header(*hyperlink),
{
    let mut data: Vec<u8> = Vec::new();
    put_u32(&mut data, 0x25686C6B);
    put_u32(&mut data, 0x00009000);
    data.push(0x00);
    let mut command = text_of(hyperlink.target_url.as_str());
    push_char(&mut command, ';');
    if hyperlink.open_in_new_window {
        push_char(&mut command, '1');
    } else {
        push_char(&mut command, '0');
    }
    push_char(&mut command, ';');
    push_char(&mut command, '0');
    push_char(&mut command, ';');
    push_char(&mut command, '0');
    push_char(&mut command, ';');
    assert(command@ =~= link_command(*hyperlink));
    let char_count: u16 = command.as_str().unicode_len() as u16;
    put_u16(&mut data, char_count);
    let url_utf16 = string_to_utf16le(command.as_str());
    put_bytes(&mut data, url_utf16.as_slice());
    let mut k: usize = 0;
    let ghost before = data@;
    while k < 8
        invariant
            k <= 8,
            data@ == before + Seq::new(k as nat, |i: int| 0u8),
        decreases 8 - k,
    {
        data.push(0);
        k = k + 1;
        assert(data@ =~= before + Seq::new(k as nat, |i: int| 0u8));
    }
    assert(data@ =~= hyperlink_ctrl_header(*hyperlink));
    Ok(data)
}

/// A page definition record.
pub fn serialize_page_def(page_def: &PageDef) -> (res: Result<Vec<u8>, HwpError>)
    ensures
        res matches Ok(v) && v@ == page_def_bytes(*page_def),
{
    Ok(page_def.to_bytes())
}

/// The 40-byte layout of a header or footer control.
pub fn serialize_header_footer_control(header_footer: &HeaderFooter, _is_header: bool) -> (res: Result<Vec<u8>, HwpError>)
    ensures
        res matches Ok(v) && v@ == header_footer_control(*header_footer),
{
    let mut data: Vec<u8> = Vec::new();
    put_u32(&mut data, 0x0000E888);
    put_u32(&mut data, 0x000148DA);
    put_u32(&mut data, header_footer.height);
    put_u32(&mut data, header_footer.height);
    put_u32(&mut data, header_footer.margin);
    put_u32(&mut data, header_footer.margin);
    put_u32(&mut data, header_footer.margin);
    put_u32(&mut data, header_footer.margin);
    put_u32(&mut data, 0);
    put_u32(&mut data, 0);
    assert(data@ =~= header_footer_control(*header_footer));
    Ok(data)
}

/// A paragraph shape written as a record reads back as the same shape: the
/// record has the 54 bytes reading needs, and whatever reads it holds the
/// shape's values.
#[verifier::spinoff_prover]
#[verifier::rlimit(100)]
pub proof fn law_para_shape_roundtrip(p: ParaShape, q: ParaShape)
    ensures
        written_para_shape(p).len() == 54,
        para_shape_from(q, written_para_shape(p)) ==> q == p,
{
    let d = written_para_shape(p);
    assert(d.subrange(0, 4) =~= le32(p.properties1));
    lemma_u32_at(d, 0, p.properties1);
    assert(d.subrange(4, 8) =~= le32(u32_of(p.left_margin)));
    lemma_u32_at(d, 4, u32_of(p.left_margin));
    lemma_i32_roundtrip(p.left_margin);
    assert(d.subrange(8, 12) =~= le32(u32_of(p.right_margin)));
    lemma_u32_at(d, 8, u32_of(p.right_margin));
    lemma_i32_roundtrip(p.right_margin);
    assert(d.subrange(12, 16) =~= le32(u32_of(p.indent)));
    lemma_u32_at(d, 12, u32_of(p.indent));
    lemma_i32_roundtrip(p.indent);
    assert(d.subrange(16, 20) =~= le32(u32_of(p.top_para_space)));
    lemma_u32_at(d, 16, u32_of(p.top_para_space));
    lemma_i32_roundtrip(p.top_para_space);
    assert(d.subrange(20, 24) =~= le32(u32_of(p.bottom_para_space)));
    lemma_u32_at(d, 20, u32_of(p.bottom_para_space));
    lemma_i32_roundtrip(p.bottom_para_space);
    assert(d.subrange(24, 28) =~= le32(u32_of(p.line_space)));
    lemma_u32_at(d, 24, u32_of(p.line_space));
    lemma_i32_roundtrip(p.line_space);
    assert(d.subrange(42, 46) =~= le32(p.properties2));
    lemma_u32_at(d, 42, p.properties2);
    assert(d.subrange(46, 50) =~= le32(p.properties3));
    lemma_u32_at(d, 46, p.properties3);
    assert(d.subrange(50, 54) =~= le32(p.line_space_type));
    lemma_u32_at(d, 50, p.line_space_type);
    assert(d.subrange(28, 30) =~= le16(p.tab_def_id));
    lemma_u16_at(d, 28, p.tab_def_id);
    assert(d.subrange(30, 32) =~= le16(p.numbering_id));
    lemma_u16_at(d, 30, p.numbering_id);
    assert(d.subrange(32, 34) =~= le16(p.border_fill_id));
    lemma_u16_at(d, 32, p.border_fill_id);
    assert(d.subrange(34, 36) =~= le16(u16_of(p.border_left_space)));
    lemma_u16_at(d, 34, u16_of(p.border_left_space));
    lemma_i16_roundtrip(p.border_left_space);
    assert(d.subrange(36, 38) =~= le16(u16_of(p.border_right_space)));
    lemma_u16_at(d, 36, u16_of(p.border_right_space));
    lemma_i16_roundtrip(p.border_right_space);
    assert(d.subrange(38, 40) =~= le16(u16_of(p.border_top_space)));
    lemma_u16_at(d, 38, u16_of(p.border_top_space));
    lemma_i16_roundtrip(p.border_top_space);
    assert(d.subrange(40, 42) =~= le16(u16_of(p.border_bottom_space)));
    lemma_u16_at(d, 40, u16_of(p.border_bottom_space));
    lemma_i16_roundtrip(p.border_bottom_space);
}

/// Character positions written as a record read back as the same positions:
/// eight bytes each, the position and then the shape id.
pub proof fn law_char_positions_roundtrip(c: Seq<CharPositionShape>)
    ensures
        written_char_positions(c).len() == 8 * c.len(),
        forall|i: int| 0 <= i < c.len() ==> u32_le(written_char_positions(c), 8 * i) == c[i].position
            && (u32_le(written_char_positions(c), 8 * i + 4) % 65536) as u16 == c[i].char_shape_id,
    decreases c.len(),
{
    if c.len() > 0 {
        let p = c.drop_last();
        law_char_positions_roundtrip(p);
        let w = written_char_positions(c);
        let wp = written_char_positions(p);
        let g = c.last();
        assert forall|i: int| 0 <= i < c.len() implies u32_le(w, 8 * i) == c[i].position && (u32_le(w, 8 * i + 4)
            % 65536) as u16 == c[i].char_shape_id by {
            if i < p.len() {
                assert(w[8 * i] == wp[8 * i] && w[8 * i + 1] == wp[8 * i + 1]);
                assert(w[8 * i + 2] == wp[8 * i + 2] && w[8 * i + 3] == wp[8 * i + 3]);
                assert(w[8 * i + 4] == wp[8 * i + 4] && w[8 * i + 5] == wp[8 * i + 5]);
                assert(w[8 * i + 6] == wp[8 * i + 6] && w[8 * i + 7] == wp[8 * i + 7]);
                assert(c[i] == p[i]);
            } else {
                assert(w.subrange(8 * i, 8 * i + 4) =~= le32(g.position));
                lemma_u32_at(w, 8 * i, g.position);
                assert(w.subrange(8 * i + 4, 8 * i + 8) =~= le32(g.char_shape_id as u32));
                lemma_u32_at(w, 8 * i + 4, g.char_shape_id as u32);
            }
        }
    }
}

/// A header or footer control written then read gives back its height (the
/// third word) and margin (the fifth); the layout is 40 bytes, what reading
/// needs.
pub proof fn law_header_footer_control_roundtrip(h: HeaderFooter)
    ensures
        header_footer_control(h).len() == 40,
        u32_le(header_footer_control(h), 8) == h.height,
        u32_le(header_footer_control(h), 16) == h.margin,
{
    let d = header_footer_control(h);
    assert(d.subrange(8, 12) =~= le32(h.height));
    lemma_u32_at(d, 8, h.height);
    assert(d.subrange(16, 20) =~= le32(h.margin));
    lemma_u32_at(d, 16, h.margin);
}

/// The paragraph header that opens a section: seventeen characters, the
/// section-definition control bit, one character shape and one line.
pub open spec fn section_para_header() -> Seq<u8> {
    seq![
        0x11u8, 0x00, 0x00, 0x00, 0x04, 0x00, 0x00, 0x00, 0x00, 0x00, 0x00, 0x03, 0x01, 0x00, 0x00, 0x00,
        0x01, 0x00, 0x00, 0x00, 0x00, 0x00, 0x00, 0x00,
    ]
}

/// The text of the opening paragraph: the section and column definition
/// controls, the section end and the paragraph end.
pub open spec fn section_para_text() -> Seq<u8> {
    seq![
        0x02u8, 0x00, 0x64, 0x63, 0x65, 0x73, 0x00, 0x00, 0x00, 0x00, 0x00, 0x00, 0x00, 0x00, 0x02, 0x00,
        0x02, 0x00, 0x64, 0x6C, 0x6F, 0x63, 0x00, 0x00, 0x00, 0x00, 0x00, 0x00, 0x00, 0x00, 0x02, 0x00,
        0x0D, 0x00,
    ]
}

/// One line of layout: height and text height 1000, baseline gap 850,
/// spacing 600, width 42520.
pub open spec fn single_line_seg() -> Seq<u8> {
    seq![
        0x00u8, 0x00, 0x00, 0x00, 0x00, 0x00, 0x00, 0x00, 0xE8, 0x03, 0x00, 0x00, 0xE8, 0x03, 0x00, 0x00,
        0x52, 0x03, 0x00, 0x00, 0x58, 0x02, 0x00, 0x00, 0x00, 0x00, 0x00, 0x00, 0x18, 0xA6, 0x00, 0x00,
        0x00, 0x00, 0x06, 0x00,
    ]
}

/// The control header of the section definition.
pub open spec fn section_ctrl_header() -> Seq<u8> {
    seq![
        0x64u8, 0x63, 0x65, 0x73, 0x00, 0x00, 0x00, 0x00, 0x6E, 0x04, 0x00, 0x00, 0x00, 0x00, 0x40, 0x1F,
        0x00, 0x00, 0x01, 0x00, 0x00, 0x00, 0x00, 0x00, 0x00, 0x00, 0x00, 0x00, 0x00, 0x00, 0x00, 0x00,
        0x00, 0x00, 0x00, 0x00, 0x00, 0x00,
    ]
}

/// The footnote shape.
pub open spec fn footnote_shape() -> Seq<u8> {
    seq![
        0x00u8, 0x00, 0x00, 0x00, 0x00, 0x00, 0x00, 0x00, 0x29, 0x00, 0x01, 0x00, 0xFF, 0xFF, 0xFF, 0xFF,
        0x52, 0x03, 0x37, 0x02, 0x1B, 0x01, 0x01, 0x01, 0x00, 0x00, 0x00, 0x00,
    ]
}

/// The endnote shape.
pub open spec fn endnote_shape() -> Seq<u8> {
    seq![
        0x00u8, 0x00, 0x00, 0x00, 0x00, 0x00, 0x00, 0x00, 0x29, 0x00, 0x01, 0x00, 0xF8, 0x2F, 0xE0, 0x00,
        0x52, 0x03, 0x37, 0x02, 0x00, 0x00, 0x01, 0x01, 0x00, 0x00, 0x00, 0x00,
    ]
}

/// A page border fill (written three times: both sides, even and odd pages).
pub open spec fn page_border_fill() -> Seq<u8> {
    seq![0x01u8, 0x00, 0x00, 0x00, 0x89, 0x05, 0x89, 0x05, 0x89, 0x05, 0x89, 0x05, 0x01, 0x00]
}

/// The control header of the column definition.
pub open spec fn column_ctrl_header() -> Seq<u8> {
    seq![0x64u8, 0x6C, 0x6F, 0x63, 0x04, 0x10, 0x00, 0x00, 0x00, 0x00, 0x00, 0x00, 0x00, 0x00, 0x00, 0x00]
}

/// The page definition of an A4 page with the default margins.
pub open spec fn a4_page_def() -> Seq<u8> {
    le32(59528) + le32(84188) + le32(8504) + le32(8504) + le32(5669) + le32(4252) + le32(4252) + le32(4252)
        + le32(0) + le32(0) + le16(0) + le16(0)
}

/// The paragraph that opens a section (header, text, character shape and
/// line) and the control header of its section definition.
pub open spec fn section_opening() -> Seq<u8> {
    record_bytes(0x42, 0, section_para_header()) + record_bytes(0x43, 1, section_para_text()) + record_bytes(
        0x44,
        1,
        Seq::new(8, |i: int| 0u8),
    ) + record_bytes(0x45, 1, single_line_seg()) + record_bytes(0x47, 1, section_ctrl_header())
}

/// What follows the page definition of a section: the footnote and endnote
/// shapes, three page border fills and the column control.
pub open spec fn section_closing() -> Seq<u8> {
    record_bytes(0x4A, 2, footnote_shape()) + record_bytes(0x4A, 2, endnote_shape()) + record_bytes(
        0x4B,
        2,
        page_border_fill(),
    ) + record_bytes(0x4B, 2, page_border_fill()) + record_bytes(0x4B, 2, page_border_fill()) + record_bytes(
        0x47,
        1,
        column_ctrl_header(),
    )
}

/// The records that define a section, around the given page definition:
/// the opening paragraph and section control, the page definition, then
/// the note shapes, page border fills and column control.
pub open spec fn section_definition(page: Seq<u8>) -> Seq<u8> {
    section_opening() + record_bytes(0x49, 2, page) + section_closing()
}

/// Appends the records that define a section, with the given page
/// definition or, where there is none, an A4 page.
#[verifier::spinoff_prover]
pub fn write_section_definition(out: &mut Vec<u8>, page_def: Option<&PageDef>) -> (res: Result<(), HwpError>)
    ensures
        res is Ok,
        final(out)@ == old(out)@ + section_definition(
            match page_def {
                Some(p) => page_def_bytes(*p),
                None => a4_page_def(),
            },
        ),
{
    let ghost start = out@;
    let para_header: [u8; 24] = [
        0x11, 0x00, 0x00, 0x00, 0x04, 0x00, 0x00, 0x00, 0x00, 0x00, 0x00, 0x03, 0x01, 0x00, 0x00, 0x00,
        0x01, 0x00, 0x00, 0x00, 0x00, 0x00, 0x00, 0x00,
    ];
    assert(para_header@ =~= section_para_header());
    write_record(out, 0x42, 0, para_header.as_slice());

    let para_text: [u8; 34] = [
        0x02, 0x00, 0x64, 0x63, 0x65, 0x73, 0x00, 0x00, 0x00, 0x00, 0x00, 0x00, 0x00, 0x00, 0x02, 0x00,
        0x02, 0x00, 0x64, 0x6C, 0x6F, 0x63, 0x00, 0x00, 0x00, 0x00, 0x00, 0x00, 0x00, 0x00, 0x02, 0x00,
        0x0D, 0x00,
    ];
    assert(para_text@ =~= section_para_text());
    write_record(out, 0x43, 1, para_text.as_slice());

    let char_shape: [u8; 8] = [0x00, 0x00, 0x00, 0x00, 0x00, 0x00, 0x00, 0x00];
    assert(char_shape@ =~= Seq::new(8, |i: int| 0u8));
    write_record(out, 0x44, 1, char_shape.as_slice());

    let line_seg: [u8; 36] = [
        0x00, 0x00, 0x00, 0x00, 0x00, 0x00, 0x00, 0x00, 0xE8, 0x03, 0x00, 0x00, 0xE8, 0x03, 0x00, 0x00,
        0x52, 0x03, 0x00, 0x00, 0x58, 0x02, 0x00, 0x00, 0x00, 0x00, 0x00, 0x00, 0x18, 0xA6, 0x00, 0x00,
        0x00, 0x00, 0x06, 0x00,
    ];
    assert(line_seg@ =~= single_line_seg());
    write_record(out, 0x45, 1, line_seg.as_slice());

    let ctrl_secd: [u8; 38] = [
        0x64, 0x63, 0x65, 0x73, 0x00, 0x00, 0x00, 0x00, 0x6E, 0x04, 0x00, 0x00, 0x00, 0x00, 0x40, 0x1F,
        0x00, 0x00, 0x01, 0x00, 0x00, 0x00, 0x00, 0x00, 0x00, 0x00, 0x00, 0x00, 0x00, 0x00, 0x00, 0x00,
        0x00, 0x00, 0x00, 0x00, 0x00, 0x00,
    ];
    assert(ctrl_secd@ =~= section_ctrl_header());
    write_record(out, 0x47, 1, ctrl_secd.as_slice());
    assert(out@ =~= start + section_opening());

    let page_def_data: Vec<u8> = match page_def {
        Some(pd) => pd.to_bytes(),
        None => PageDef::new_default().to_bytes(),
    };
    let ghost page = page_def_data@;
    assert(page =~= match page_def {
        Some(p) => page_def_bytes(*p),
        None => a4_page_def(),
    });
    write_record(out, 0x49, 2, page_def_data.as_slice());
    let ghost after_page = out@;
    assert(after_page =~= start + section_opening() + record_bytes(0x49, 2, page));

    let footnote1: [u8; 28] = [
        0x00, 0x00, 0x00, 0x00, 0x00, 0x00, 0x00, 0x00, 0x29, 0x00, 0x01, 0x00, 0xFF, 0xFF, 0xFF, 0xFF,
        0x52, 0x03, 0x37, 0x02, 0x1B, 0x01, 0x01, 0x01, 0x00, 0x00, 0x00, 0x00,
    ];
    assert(footnote1@ =~= footnote_shape());
    write_record(out, 0x4A, 2, footnote1.as_slice());

    let footnote2: [u8; 28] = [
        0x00, 0x00, 0x00, 0x00, 0x00, 0x00, 0x00, 0x00, 0x29, 0x00, 0x01, 0x00, 0xF8, 0x2F, 0xE0, 0x00,
        0x52, 0x03, 0x37, 0x02, 0x00, 0x00, 0x01, 0x01, 0x00, 0x00, 0x00, 0x00,
    ];
    assert(footnote2@ =~= endnote_shape());
    write_record(out, 0x4A, 2, footnote2.as_slice());

    let border_fill: [u8; 14] = [0x01, 0x00, 0x00, 0x00, 0x89, 0x05, 0x89, 0x05, 0x89, 0x05, 0x89, 0x05, 0x01, 0x00];
    assert(border_fill@ =~= page_border_fill());
    write_record(out, 0x4B, 2, border_fill.as_slice());
    write_record(out, 0x4B, 2, border_fill.as_slice());
    write_record(out, 0x4B, 2, border_fill.as_slice());

    let ctrl_cold: [u8; 16] = [0x64, 0x6C, 0x6F, 0x63, 0x04, 0x10, 0x00, 0x00, 0x00, 0x00, 0x00, 0x00, 0x00, 0x00, 0x00, 0x00];
    assert(ctrl_cold@ =~= column_ctrl_header());
    write_record(out, 0x47, 1, ctrl_cold.as_slice());
    assert(out@ =~= after_page + section_closing());
    assert(out@ =~= start + section_definition(page));
    Ok(())
}

/// The control id of a header ('hedr') or footer ('ftro').
pub open spec fn header_footer_ctrl_id(t: HeaderFooterType) -> u32 {
    match t {
        HeaderFooterType::Header => 0x72646568,
        HeaderFooterType::Footer => 0x7274666F,
    }
}

/// The paragraph header of a header or footer: its character count (the
/// UTF-16 units of the text and the paragraph end, cut to 32 bits), the
/// extended-control bit, its paragraph shape, one character shape and one
/// line.
pub open spec fn header_footer_para_header(h: HeaderFooter) -> Seq<u8> {
    let n = ((utf16le_bytes(h.text@).len() / 2 + 1) as u32);
    le32(n) + le32(4) + le16(h.para_shape_id) + seq![0u8, 0u8] + le16(1) + le16(0) + le16(1) + le32(0) + le16(0)
}

/// The records of a header or footer: its paragraph (header, the text with
/// the paragraph end, its character shape from position 0, one line), the
/// control header and the control's layout.
pub open spec fn header_footer_records(h: HeaderFooter) -> Seq<u8> {
    record_bytes(0x42, 0, header_footer_para_header(h)) + record_bytes(
        0x43,
        1,
        utf16le_bytes(h.text@) + seq![0x0Du8, 0x00u8],
    ) + record_bytes(0x44, 1, le32(0) + le32(h.char_shape_id as u32)) + record_bytes(0x45, 1, single_line_seg())
        + record_bytes(0x47, 1, le32(header_footer_ctrl_id(h.header_footer_type)) + le32(0) + le32(0))
        + record_bytes(0x48, 2, header_footer_control(h))
}

/// Appends the records of a header or footer.
#[verifier::spinoff_prover]
#[verifier::rlimit(50)]
pub fn write_header_footer_control(out: &mut Vec<u8>, header_footer: &HeaderFooter) -> (res: Result<(), HwpError>)
    ensures
        res is Ok,
        final(out)@ == old(out)@ + header_footer_records(*header_footer),
{
    let ghost start = out@;
    let ctrl_id: u32 = match header_footer.header_footer_type {
        HeaderFooterType::Header => 0x72646568,
        HeaderFooterType::Footer => 0x7274666F,
    };

    let text_utf16 = string_to_utf16le(header_footer.text.as_str());
    let char_count: u32 = #[verifier::truncate] ((text_utf16.len() / 2 + 1) as u32);
    let mut para_header: Vec<u8> = Vec::new();
    put_u32(&mut para_header, char_count);
    put_u32(&mut para_header, 0x04);
    put_u16(&mut para_header, header_footer.para_shape_id);
    para_header.push(0);
    para_header.push(0);
    put_u16(&mut para_header, 1);
    put_u16(&mut para_header, 0);
    put_u16(&mut para_header, 1);
    put_u32(&mut para_header, 0);
    put_u16(&mut para_header, 0);
    assert(para_header@ =~= header_footer_para_header(*header_footer));
    write_record(out, 0x42, 0, para_header.as_slice());

    let mut para_text: Vec<u8> = text_utf16.clone();
    para_text.push(0x0D);
    para_text.push(0x00);
    assert(para_text@ =~= utf16le_bytes(header_footer.text@) + seq![0x0Du8, 0x00u8]);
    write_record(out, 0x43, 1, para_text.as_slice());

    let mut char_shape_data: Vec<u8> = Vec::new();
    put_u32(&mut char_shape_data, 0);
    put_u32(&mut char_shape_data, header_footer.char_shape_id as u32);
    write_record(out, 0x44, 1, char_shape_data.as_slice());

    let line_seg: [u8; 36] = [
        0x00, 0x00, 0x00, 0x00, 0x00, 0x00, 0x00, 0x00, 0xE8, 0x03, 0x00, 0x00, 0xE8, 0x03, 0x00, 0x00,
        0x52, 0x03, 0x00, 0x00, 0x58, 0x02, 0x00, 0x00, 0x00, 0x00, 0x00, 0x00, 0x18, 0xA6, 0x00, 0x00,
        0x00, 0x00, 0x06, 0x00,
    ];
    assert(line_seg@ =~= single_line_seg());
    write_record(out, 0x45, 1, line_seg.as_slice());

    let mut ctrl_header: Vec<u8> = Vec::new();
    put_u32(&mut ctrl_header, ctrl_id);
    put_u32(&mut ctrl_header, 0);
    put_u32(&mut ctrl_header, 0);
    write_record(out, 0x47, 1, ctrl_header.as_slice());

    let is_header: bool = match header_footer.header_footer_type {
        HeaderFooterType::Header => true,
        HeaderFooterType::Footer => false,
    };
    let hf_data = serialize_header_footer_control(header_footer, is_header)?;
    write_record(out, 0x48, 2, hf_data.as_slice());
    assert(out@ =~= start + header_footer_records(*header_footer));
    Ok(())
}

/// The text record of a content paragraph: its text (empty where it has
/// none) in UTF-16LE, then the paragraph end.
pub open spec fn content_text(p: Paragraph) -> Seq<u8> {
    utf16le_bytes(
        match p.text {
            Some(t) => t.content@,
            None => Seq::<char>::empty(),
        },
    ) + seq![0x0Du8, 0x00u8]
}

/// The paragraph header of a content paragraph: its character count (the
/// units of its text record, cut to 32 bits) with the last-in-list bit where
/// it is the last paragraph, its control mask, shape, style and column
/// type, the counts (character shapes and line aligns at least 1, no range
/// tags), its instance id and a zero word.
pub open spec fn content_header(p: Paragraph, is_last: bool) -> Seq<u8> {
    let n = (content_text(p).len() / 2) as u32;
    le32(if is_last { n | 0x80000000u32 } else { n }) + le32(p.control_mask) + le16(p.para_shape_id) + seq![
        p.style_id,
        p.column_type,
    ] + le16(at_least_one(p.char_shape_count)) + le16(0) + le16(at_least_one(p.line_align_count)) + le32(
        p.instance_id,
    ) + le16(0)
}

/// The records of a content paragraph: header, text, character shapes (one
/// zero entry where it has none) and one line of layout.
pub open spec fn content_paragraph(p: Paragraph, is_last: bool) -> Seq<u8> {
    record_bytes(0x42, 0, content_header(p, is_last)) + record_bytes(0x43, 1, content_text(p)) + record_bytes(
        0x44,
        1,
        match p.char_shapes {
            Some(c) => written_char_positions(c.char_positions@),
            None => Seq::new(8, |i: int| 0u8),
        },
    ) + record_bytes(0x45, 1, single_line_seg())
}

/// Appends the records of a paragraph of text: its header (marked last in
/// its list where `is_last`), its text with the paragraph end, its character
/// shapes and one line of layout. The paragraph model holds no controls, so
/// none are written.
#[verifier::spinoff_prover]
#[verifier::rlimit(50)]
pub fn write_content_paragraph(out: &mut Vec<u8>, paragraph: &Paragraph, is_last: bool) -> (res: Result<(), HwpError>)
    ensures
        res is Ok,
        final(out)@ == old(out)@ + content_paragraph(*paragraph, is_last),
{
    let ghost start = out@;
    let mut text_utf16 = match &paragraph.text {
        Some(t) => string_to_utf16le(t.content.as_str()),
        None => Vec::new(),
    };
    proof {
        if paragraph.text is None {
            assert(utf16le_bytes(Seq::<char>::empty()) =~= Seq::<u8>::empty());
        }
    }
    text_utf16.push(0x0D);
    text_utf16.push(0x00);
    assert(text_utf16@ =~= content_text(*paragraph));
    let char_count: u32 = #[verifier::truncate] ((text_utf16.len() / 2) as u32);
    let flagged: u32 = if is_last { char_count | 0x80000000u32 } else { char_count };
    assert(char_count == (content_text(*paragraph).len() / 2) as u32);
    let mut para_header: Vec<u8> = Vec::new();
    put_u32(&mut para_header, flagged);
    put_u32(&mut para_header, paragraph.control_mask);
    put_u16(&mut para_header, paragraph.para_shape_id);
    para_header.push(paragraph.style_id);
    para_header.push(paragraph.column_type);
    put_u16(&mut para_header, max_one(paragraph.char_shape_count));
    put_u16(&mut para_header, 0);
    put_u16(&mut para_header, max_one(paragraph.line_align_count));
    put_u32(&mut para_header, paragraph.instance_id);
    put_u16(&mut para_header, 0);
    assert(para_header@ =~= content_header(*paragraph, is_last));
    write_record(out, 0x42, 0, para_header.as_slice());
    write_record(out, 0x43, 1, text_utf16.as_slice());
    let ghost mid = out@;
    assert(mid =~= start + (record_bytes(0x42, 0, content_header(*paragraph, is_last)) + record_bytes(
        0x43,
        1,
        content_text(*paragraph),
    )));
    match &paragraph.char_shapes {
        Some(char_shapes) => {
            let char_shape_data = serialize_para_char_shapes(char_shapes)?;
            write_record(out, 0x44, 1, char_shape_data.as_slice());
        },
        None => {
            let char_shape: [u8; 8] = [0x00, 0x00, 0x00, 0x00, 0x00, 0x00, 0x00, 0x00];
            assert(char_shape@ =~= Seq::new(8, |i: int| 0u8));
            write_record(out, 0x44, 1, char_shape.as_slice());
        },
    }
    let line_seg: [u8; 36] = [
        0x00, 0x00, 0x00, 0x00, 0x00, 0x00, 0x00, 0x00, 0xE8, 0x03, 0x00, 0x00, 0xE8, 0x03, 0x00, 0x00,
        0x52, 0x03, 0x00, 0x00, 0x58, 0x02, 0x00, 0x00, 0x00, 0x00, 0x00, 0x00, 0x18, 0xA6, 0x00, 0x00,
        0x00, 0x00, 0x06, 0x00,
    ];
    assert(line_seg@ =~= single_line_seg());
    write_record(out, 0x45, 1, line_seg.as_slice());
    assert(out@ =~= mid + (record_bytes(
        0x44,
        1,
        match paragraph.char_shapes {
            Some(c) => written_char_positions(c.char_positions@),
            None => Seq::new(8, |i: int| 0u8),
        },
    ) + record_bytes(0x45, 1, single_line_seg())));
    assert(out@ =~= start + content_paragraph(*paragraph, is_last));
    Ok(())
}

/// The records of the first `n` headers and footers.
pub open spec fn header_footers_records(items: Seq<HeaderFooter>, n: int) -> Seq<u8>
    decreases n,
{
    if n <= 0 {
        seq![]
    } else {
        header_footers_records(items, n - 1) + header_footer_records(items[n - 1])
    }
}

/// The records of the first `n` paragraphs of a section; the last of the
/// section is marked last in its list.
pub open spec fn paragraphs_records(ps: Seq<Paragraph>, n: int) -> Seq<u8>
    decreases n,
{
    if n <= 0 {
        seq![]
    } else {
        paragraphs_records(ps, n - 1) + content_paragraph(ps[n - 1], n - 1 == ps.len() - 1)
    }
}

/// The records of a section: its definition around its page definition (an
/// A4 page where it has none), the headers and footers of its page
/// definition, then its paragraphs.
pub open spec fn section_records(s: Section) -> Seq<u8> {
    section_definition(
        match s.page_def {
            Some(p) => page_def_bytes(p),
            None => a4_page_def(),
        },
    ) + match s.page_def {
        Some(p) => header_footers_records(p.header_footer.items@, p.header_footer.items@.len() as int),
        None => seq![],
    } + paragraphs_records(s.paragraphs@, s.paragraphs@.len() as int)
}

/// The body text of the first `n` sections.
pub open spec fn body_text_records(ss: Seq<Section>, n: int) -> Seq<u8>
    decreases n,
{
    if n <= 0 {
        seq![]
    } else {
        body_text_records(ss, n - 1) + section_records(ss[n - 1])
    }
}

/// Appends the records of a section.
#[verifier::spinoff_prover]
#[verifier::rlimit(30)]
pub(crate) fn write_section(out: &mut Vec<u8>, section: &Section) -> (res: Result<(), HwpError>)
    ensures
        res is Ok,
        final(out)@ == old(out)@ + section_records(*section),
{
    let ghost start = out@;
    write_section_definition(out, section.page_def.as_ref())?;
    let ghost after_def = out@;
    match &section.page_def {
        Some(page_def) => {
            let items = &page_def.header_footer.items;
            let mut k: usize = 0;
            while k < items.len()
                invariant
                    k <= items@.len(),
                    out@ == after_def + header_footers_records(items@, k as int),
                decreases items.len() - k,
            {
                write_header_footer_control(out, &items[k])?;
                k = k + 1;
                assert(out@ =~= after_def + header_footers_records(items@, k as int));
            }
        },
        None => {
            assert(out@ =~= after_def + Seq::<u8>::empty());
        },
    }
    let ghost after_controls = out@;
    let paragraphs = &section.paragraphs;
    let count: usize = paragraphs.len();
    let mut i: usize = 0;
    while i < count
        invariant
            count == paragraphs@.len(),
            i <= count,
            out@ == after_controls + paragraphs_records(paragraphs@, i as int),
        decreases count - i,
    {
        let is_last = i == count - 1;
        write_content_paragraph(out, &paragraphs[i], is_last)?;
        i = i + 1;
        assert(out@ =~= after_controls + paragraphs_records(paragraphs@, i as int));
    }
    assert(out@ =~= start + section_records(*section));
    Ok(())
}

/// The body text stream of sections (before compression): for each section,
/// its definition, the headers and footers of its page and its paragraphs.
pub fn serialize_body_text(sections: &[Section]) -> (res: Result<Vec<u8>, HwpError>)
    ensures
        res matches Ok(v) && v@ == body_text_records(sections@, sections@.len() as int),
{
    let mut data: Vec<u8> = Vec::new();
    let mut k: usize = 0;
    while k < sections.len()
        invariant
            k <= sections@.len(),
            data@ == body_text_records(sections@, k as int),
        decreases sections.len() - k,
    {
        write_section(&mut data, &sections[k])?;
        k = k + 1;
        assert(data@ =~= body_text_records(sections@, k as int));
    }
    Ok(data)
}

/// The number of bytes a character takes in UTF-8.
pub open spec fn utf8_width(c: char) -> nat {
    let x = c as u32;
    if x < 0x80 {
        1
    } else if x < 0x800 {
        2
    } else if x < 0x10000 {
        3
    } else {
        4
    }
}

/// The number of bytes a text takes in UTF-8.
pub open spec fn utf8_len(s: Seq<char>) -> nat
    decreases s.len(),
{
    if s.len() == 0 {
        0
    } else {
        utf8_len(s.drop_last()) + utf8_width(s.last())
    }
}

/// The longest beginning of a text that takes at most 1000 bytes in UTF-8.
pub open spec fn cut_preview(s: Seq<char>) -> Seq<char>
    decreases s.len(),
{
    if utf8_len(s) <= 1000 || s.len() == 0 {
        s
    } else {
        cut_preview(s.drop_last())
    }
}

/// The preview text after the paragraphs of a section from `i` on, starting
/// from `t`: each paragraph's text is added; where the preview then takes
/// more than 1000 bytes in UTF-8 it is cut to at most 1000 and the section
/// ends there.
pub open spec fn section_preview(t: Seq<char>, ps: Seq<Paragraph>, i: int) -> Seq<char>
    decreases ps.len() - i,
{
    if i < 0 || i >= ps.len() {
        t
    } else {
        match ps[i].text {
            None => section_preview(t, ps, i + 1),
            Some(x) => {
                let u = t + x.content@;
                if utf8_len(u) > 1000 {
                    cut_preview(u)
                } else {
                    section_preview(u, ps, i + 1)
                }
            },
        }
    }
}

/// The preview text after the sections from `k` on, starting from `t`;
/// sections stop being read once the preview takes 1000 bytes.
pub open spec fn sections_preview(t: Seq<char>, ss: Seq<Section>, k: int) -> Seq<char>
    decreases ss.len() - k,
{
    if k < 0 || k >= ss.len() {
        t
    } else {
        let u = section_preview(t, ss[k].paragraphs@, 0);
        if utf8_len(u) >= 1000 {
            u
        } else {
            sections_preview(u, ss, k + 1)
        }
    }
}

proof fn lemma_utf8_len_bound(s: Seq<char>)
    ensures
        s.len() <= utf8_len(s) <= 4 * s.len(),
    decreases s.len(),
{
    if s.len() > 0 {
        lemma_utf8_len_bound(s.drop_last());
    }
}

fn utf8_width_of(c: char) -> (w: u128)
    ensures
        w == utf8_width(c),
{
    let x: u32 = c as u32;
    if x < 0x80 {
        1
    } else if x < 0x800 {
        2
    } else if x < 0x10000 {
        3
    } else {
        4
    }
}

/// Adds the paragraphs of a section to the preview; `true` where the preview
/// ran over 1000 bytes and was cut.
fn add_section_preview(buf: &mut Vec<char>, len: &mut u128, ps: &Vec<Paragraph>)
    requires
        *old(len) == utf8_len(old(buf)@),
        old(buf)@.len() <= 1000,
    ensures
        final(buf)@ == section_preview(old(buf)@, ps@, 0),
        *final(len) == utf8_len(final(buf)@),
        final(buf)@.len() <= 1000 || utf8_len(final(buf)@) <= 1000,
        utf8_len(final(buf)@) <= 1000 ==> final(buf)@.len() <= 1000,
{
    let ghost t0 = buf@;
    let n: usize = ps.len();
    let mut i: usize = 0;
    let mut stop = false;
    while i < n && !stop
        invariant
            n == ps@.len(),
            i <= n,
            *len == utf8_len(buf@),
            !stop ==> buf@.len() <= 1000 && section_preview(t0, ps@, 0) == section_preview(buf@, ps@, i as int),
            stop ==> section_preview(t0, ps@, 0) == buf@ && utf8_len(buf@) <= 1000,
        decreases n - i + (if stop { 0int } else { 1int }),
    {
        match &ps[i].text {
            None => {
                i = i + 1;
            },
            Some(x) => {
                let ghost before = buf@;
                let cs = chars_of(x.content.as_str());
                let m: usize = cs.len();
                let mut j: usize = 0;
                while j < m
                    invariant
                        m == cs@.len(),
                        j <= m,
                        buf@ == before + cs@.subrange(0, j as int),
                        before.len() <= 1000,
                        *len == utf8_len(buf@),
                    decreases m - j,
                {
                    proof {
                        lemma_utf8_len_bound(buf@);
                    }
                    let c = cs[j];
                    let w = utf8_width_of(c);
                    buf.push(c);
                    *len = *len + w;
                    j = j + 1;
                    assert(buf@ =~= before + cs@.subrange(0, j as int));
                    assert(buf@.drop_last() =~= before + cs@.subrange(0, j - 1));
                }
                assert(cs@.subrange(0, m as int) =~= cs@);
                if *len > 1000 {
                    let ghost whole = buf@;
                    while *len > 1000 && buf.len() > 0
                        invariant
                            *len == utf8_len(buf@),
                            cut_preview(whole) == cut_preview(buf@),
                        decreases buf@.len(),
                    {
                        let ghost prev = buf@;
                        let c = buf.pop().unwrap();
                        let w = utf8_width_of(c);
                        assert(prev.drop_last() =~= buf@);
                        *len = *len - w;
                    }
                    stop = true;
                    proof {
                        lemma_utf8_len_bound(buf@);
                    }
                } else {
                    proof {
                        lemma_utf8_len_bound(buf@);
                    }
                    i = i + 1;
                }
            },
        }
    }
    proof {
        lemma_utf8_len_bound(buf@);
    }
}

/// The preview text stream of sections: the text of their paragraphs, in
/// order, up to 1000 bytes in UTF-8 (cut at a character), in UTF-16LE.
pub fn create_preview_text(sections: &[Section]) -> (res: Result<Vec<u8>, HwpError>)
    ensures
        res matches Ok(v) && v@ == utf16le_bytes(sections_preview(Seq::empty(), sections@, 0)),
{
    let mut buf: Vec<char> = Vec::new();
    let mut len: u128 = 0;
    let n: usize = sections.len();
    let mut k: usize = 0;
    let mut stop = false;
    while k < n && !stop
        invariant
            n == sections@.len(),
            k <= n,
            len == utf8_len(buf@),
            !stop ==> buf@.len() <= 1000 && sections_preview(Seq::empty(), sections@, 0) == sections_preview(buf@, sections@, k as int),
            stop ==> sections_preview(Seq::empty(), sections@, 0) == buf@,
        decreases n - k + (if stop { 0int } else { 1int }),
    {
        add_section_preview(&mut buf, &mut len, &sections[k].paragraphs);
        if len >= 1000 {
            stop = true;
        } else {
            k = k + 1;
        }
    }
    let mut out: Vec<u8> = Vec::new();
    put_chars_utf16le(&mut out, buf.as_slice(), 0, buf.len());
    assert(buf@.subrange(0, buf@.len() as int) =~= buf@);
    Ok(out)
}

/// The records of a list of payloads, each at level 1 under one tag.
pub open spec fn records_of(tag: u16, payloads: Seq<Seq<u8>>, n: int) -> Seq<u8>
    decreases n,
{
    if n <= 0 {
        seq![]
    } else {
        records_of(tag, payloads, n - 1) + record_bytes(tag, 1, payloads[n - 1])
    }
}

/// The document properties record written where a document has none: every
/// numbering start at 1.
pub open spec fn default_properties_bytes() -> Seq<u8> {
    le16(1) + le16(1) + le16(1) + le16(1) + le16(1) + le16(1) + le16(0) + le32(0) + le32(0) + le32(0)
}

/// The payloads of the bin data records, in order.
pub open spec fn bin_data_payloads(v: Seq<BinData>) -> Seq<Seq<u8>> {
    Seq::new(v.len(), |i: int| { let x = v[i]; written_bin_data(x) })
}

fn put_bin_data_records(data: &mut Vec<u8>, v: &Vec<BinData>) -> (res: Result<(), HwpError>)
    ensures
        res is Ok,
        final(data)@ == old(data)@ + records_of(0x12, bin_data_payloads(v@), v@.len() as int),
{
    let mut k: usize = 0;
    while k < v.len()
        invariant
            k <= v@.len(),
            data@ == old(data)@ + records_of(0x12, bin_data_payloads(v@), k as int),
        decreases v.len() - k,
    {
        let payload = serialize_bin_data_info(&v[k])?;
        assert(payload@ == bin_data_payloads(v@)[k as int]);
        write_record(data, 0x12, 1, payload.as_slice());
        k = k + 1;
        assert(data@ =~= old(data)@ + records_of(0x12, bin_data_payloads(v@), k as int));
    }
    Ok(())
}

/// The payloads of the face names records, in order.
pub open spec fn face_names_payloads(v: Seq<FaceName>) -> Seq<Seq<u8>> {
    Seq::new(v.len(), |i: int| { let x = v[i]; written_face_name(x) })
}

fn put_face_names_records(data: &mut Vec<u8>, v: &Vec<FaceName>) -> (res: Result<(), HwpError>)
    ensures
        res is Ok,
        final(data)@ == old(data)@ + records_of(0x13, face_names_payloads(v@), v@.len() as int),
{
    let mut k: usize = 0;
    while k < v.len()
        invariant
            k <= v@.len(),
            data@ == old(data)@ + records_of(0x13, face_names_payloads(v@), k as int),
        decreases v.len() - k,
    {
        let payload = serialize_face_name(&v[k])?;
        assert(payload@ == face_names_payloads(v@)[k as int]);
        write_record(data, 0x13, 1, payload.as_slice());
        k = k + 1;
        assert(data@ =~= old(data)@ + records_of(0x13, face_names_payloads(v@), k as int));
    }
    Ok(())
}

/// The payloads of the border fills records, in order.
pub open spec fn border_fills_payloads(v: Seq<BorderFill>) -> Seq<Seq<u8>> {
    Seq::new(v.len(), |i: int| { let x = v[i]; written_border_fill(x) })
}

fn put_border_fills_records(data: &mut Vec<u8>, v: &Vec<BorderFill>) -> (res: Result<(), HwpError>)
    ensures
        res is Ok,
        final(data)@ == old(data)@ + records_of(0x14, border_fills_payloads(v@), v@.len() as int),
{
    let mut k: usize = 0;
    while k < v.len()
        invariant
            k <= v@.len(),
            data@ == old(data)@ + records_of(0x14, border_fills_payloads(v@), k as int),
        decreases v.len() - k,
    {
        let payload = serialize_border_fill(&v[k])?;
        assert(payload@ == border_fills_payloads(v@)[k as int]);
        write_record(data, 0x14, 1, payload.as_slice());
        k = k + 1;
        assert(data@ =~= old(data)@ + records_of(0x14, border_fills_payloads(v@), k as int));
    }
    Ok(())
}

/// The payloads of the char shapes records, in order.
pub open spec fn char_shapes_payloads(v: Seq<CharShape>) -> Seq<Seq<u8>> {
    Seq::new(v.len(), |i: int| { let x = v[i]; written_char_shape(x) })
}

fn put_char_shapes_records(data: &mut Vec<u8>, v: &Vec<CharShape>) -> (res: Result<(), HwpError>)
    ensures
        res is Ok,
        final(data)@ == old(data)@ + records_of(0x15, char_shapes_payloads(v@), v@.len() as int),
{
    let mut k: usize = 0;
    while k < v.len()
        invariant
            k <= v@.len(),
            data@ == old(data)@ + records_of(0x15, char_shapes_payloads(v@), k as int),
        decreases v.len() - k,
    {
        let payload = serialize_char_shape(&v[k])?;
        assert(payload@ == char_shapes_payloads(v@)[k as int]);
        write_record(data, 0x15, 1, payload.as_slice());
        k = k + 1;
        assert(data@ =~= old(data)@ + records_of(0x15, char_shapes_payloads(v@), k as int));
    }
    Ok(())
}

/// The payloads of the tab defs records, in order.
pub open spec fn tab_defs_payloads(v: Seq<TabDef>) -> Seq<Seq<u8>> {
    Seq::new(v.len(), |i: int| { let x = v[i]; written_tab_def(x) })
}

fn put_tab_defs_records(data: &mut Vec<u8>, v: &Vec<TabDef>) -> (res: Result<(), HwpError>)
    ensures
        res is Ok,
        final(data)@ == old(data)@ + records_of(0x16, tab_defs_payloads(v@), v@.len() as int),
{
    let mut k: usize = 0;
    while k < v.len()
        invariant
            k <= v@.len(),
            data@ == old(data)@ + records_of(0x16, tab_defs_payloads(v@), k as int),
        decreases v.len() - k,
    {
        let payload = serialize_tab_def(&v[k])?;
        assert(payload@ == tab_defs_payloads(v@)[k as int]);
        write_record(data, 0x16, 1, payload.as_slice());
        k = k + 1;
        assert(data@ =~= old(data)@ + records_of(0x16, tab_defs_payloads(v@), k as int));
    }
    Ok(())
}

/// The payloads of the numberings records, in order.
pub open spec fn numberings_payloads(v: Seq<Numbering>) -> Seq<Seq<u8>> {
    Seq::new(v.len(), |i: int| numbering_bytes(v[i]))
}

fn put_numberings_records(data: &mut Vec<u8>, v: &Vec<Numbering>) -> (res: Result<(), HwpError>)
    ensures
        res is Ok,
        final(data)@ == old(data)@ + records_of(0x17, numberings_payloads(v@), v@.len() as int),
{
    let mut k: usize = 0;
    while k < v.len()
        invariant
            k <= v@.len(),
            data@ == old(data)@ + records_of(0x17, numberings_payloads(v@), k as int),
        decreases v.len() - k,
    {
        let payload = v[k].to_bytes();
        assert(payload@ == numberings_payloads(v@)[k as int]);
        write_record(data, 0x17, 1, payload.as_slice());
        k = k + 1;
        assert(data@ =~= old(data)@ + records_of(0x17, numberings_payloads(v@), k as int));
    }
    Ok(())
}

/// The payloads of the bullets records, in order.
pub open spec fn bullets_payloads(v: Seq<Bullet>) -> Seq<Seq<u8>> {
    Seq::new(v.len(), |i: int| { let x = v[i]; bullet_bytes(x) })
}

fn put_bullets_records(data: &mut Vec<u8>, v: &Vec<Bullet>) -> (res: Result<(), HwpError>)
    ensures
        res is Ok,
        final(data)@ == old(data)@ + records_of(0x18, bullets_payloads(v@), v@.len() as int),
{
    let mut k: usize = 0;
    while k < v.len()
        invariant
            k <= v@.len(),
            data@ == old(data)@ + records_of(0x18, bullets_payloads(v@), k as int),
        decreases v.len() - k,
    {
        let payload = v[k].to_bytes();
        assert(payload@ == bullets_payloads(v@)[k as int]);
        write_record(data, 0x18, 1, payload.as_slice());
        k = k + 1;
        assert(data@ =~= old(data)@ + records_of(0x18, bullets_payloads(v@), k as int));
    }
    Ok(())
}

/// The payloads of the para shapes records, in order.
pub open spec fn para_shapes_payloads(v: Seq<ParaShape>) -> Seq<Seq<u8>> {
    Seq::new(v.len(), |i: int| { let x = v[i]; written_para_shape(x) })
}

fn put_para_shapes_records(data: &mut Vec<u8>, v: &Vec<ParaShape>) -> (res: Result<(), HwpError>)
    ensures
        res is Ok,
        final(data)@ == old(data)@ + records_of(0x19, para_shapes_payloads(v@), v@.len() as int),
{
    let mut k: usize = 0;
    while k < v.len()
        invariant
            k <= v@.len(),
            data@ == old(data)@ + records_of(0x19, para_shapes_payloads(v@), k as int),
        decreases v.len() - k,
    {
        let payload = serialize_para_shape(&v[k])?;
        assert(payload@ == para_shapes_payloads(v@)[k as int]);
        write_record(data, 0x19, 1, payload.as_slice());
        k = k + 1;
        assert(data@ =~= old(data)@ + records_of(0x19, para_shapes_payloads(v@), k as int));
    }
    Ok(())
}

/// The payloads of the styles records, in order.
pub open spec fn styles_payloads(v: Seq<Style>) -> Seq<Seq<u8>> {
    Seq::new(v.len(), |i: int| { let x = v[i]; written_style(x) })
}

fn put_styles_records(data: &mut Vec<u8>, v: &Vec<Style>) -> (res: Result<(), HwpError>)
    ensures
        res is Ok,
        final(data)@ == old(data)@ + records_of(0x1A, styles_payloads(v@), v@.len() as int),
{
    let mut k: usize = 0;
    while k < v.len()
        invariant
            k <= v@.len(),
            data@ == old(data)@ + records_of(0x1A, styles_payloads(v@), k as int),
        decreases v.len() - k,
    {
        let payload = serialize_style(&v[k])?;
        assert(payload@ == styles_payloads(v@)[k as int]);
        write_record(data, 0x1A, 1, payload.as_slice());
        k = k + 1;
        assert(data@ =~= old(data)@ + records_of(0x1A, styles_payloads(v@), k as int));
    }
    Ok(())
}

/// The DocInfo stream (before compression): the document properties (with
/// every numbering start at 1 where there are none) and the id mappings at
/// level 0, then the binary data entries, fonts, border fills, character
/// shapes, tab definitions, numberings, bullets, paragraph shapes and styles
/// at level 1, in the order the id mappings count them, then the two
/// compatibility records.
pub open spec fn doc_info_bytes(info: DocInfo) -> Seq<u8> {
    record_bytes(
        0x10,
        0,
        match info.properties {
            Some(p) => written_properties(p),
            None => default_properties_bytes(),
        },
    ) + record_bytes(0x11, 0, id_mappings(info)) + records_of(0x12, bin_data_payloads(info.bin_data@), info.bin_data@.len() as int) + records_of(0x13, face_names_payloads(info.face_names@), info.face_names@.len() as int) + records_of(0x14, border_fills_payloads(info.border_fills@), info.border_fills@.len() as int) + records_of(0x15, char_shapes_payloads(info.char_shapes@), info.char_shapes@.len() as int) + records_of(0x16, tab_defs_payloads(info.tab_defs@), info.tab_defs@.len() as int) + records_of(0x17, numberings_payloads(info.numberings@), info.numberings@.len() as int) + records_of(0x18, bullets_payloads(info.bullets@), info.bullets@.len() as int) + records_of(0x19, para_shapes_payloads(info.para_shapes@), info.para_shapes@.len() as int) + records_of(0x1A, styles_payloads(info.styles@), info.styles@.len() as int) + record_bytes(0x1E, 0, Seq::new(4, |i: int| 0u8))
        + record_bytes(0x1F, 1, Seq::new(20, |i: int| 0u8))
}

/// The DocInfo stream of the definitions (before compression).
#[verifier::spinoff_prover]
#[verifier::rlimit(50)]
pub fn serialize_doc_info(doc_info: &DocInfo) -> (res: Result<Vec<u8>, HwpError>)
    ensures
        res matches Ok(v) && v@ == doc_info_bytes(*doc_info),
{
    let mut data: Vec<u8> = Vec::new();
    let props = match &doc_info.properties {
        Some(p) => serialize_document_properties(p)?,
        None => {
            let d = DocumentProperties::default();
            serialize_document_properties(&d)?
        },
    };
    assert(props@ =~= match doc_info.properties {
        Some(p) => written_properties(p),
        None => default_properties_bytes(),
    });
    write_record(&mut data, 0x10, 0, props.as_slice());
    let mappings = serialize_id_mappings(doc_info)?;
    write_record(&mut data, 0x11, 0, mappings.as_slice());
    put_bin_data_records(&mut data, &doc_info.bin_data)?;
    put_face_names_records(&mut data, &doc_info.face_names)?;
    put_border_fills_records(&mut data, &doc_info.border_fills)?;
    put_char_shapes_records(&mut data, &doc_info.char_shapes)?;
    put_tab_defs_records(&mut data, &doc_info.tab_defs)?;
    put_numberings_records(&mut data, &doc_info.numberings)?;
    put_bullets_records(&mut data, &doc_info.bullets)?;
    put_para_shapes_records(&mut data, &doc_info.para_shapes)?;
    put_styles_records(&mut data, &doc_info.styles)?;
    let compatible: [u8; 4] = [0u8; 4];
    assert(compatible@ =~= Seq::new(4, |i: int| 0u8));
    write_record(&mut data, 0x1E, 0, compatible.as_slice());
    let layout_compatibility: [u8; 20] = [0u8; 20];
    assert(layout_compatibility@ =~= Seq::new(20, |i: int| 0u8));
    write_record(&mut data, 0x1F, 1, layout_compatibility.as_slice());
    assert(data@ =~= doc_info_bytes(*doc_info));
    Ok(data)
}

/// Where a link goes among links ordered by start: after the last of them
/// that starts no later than `start`, looking from the end.
pub open spec fn insert_pos(s: Seq<Hyperlink>, start: u32) -> int
    decreases s.len(),
{
    if s.len() == 0 {
        0
    } else if s.last().start_position <= start {
        s.len() as int
    } else {
        insert_pos(s.drop_last(), start)
    }
}

/// The links ordered by where they start, links that start at the same
/// place in the order they were given (a stable sort).
pub open spec fn links_by_start(s: Seq<Hyperlink>) -> Seq<Hyperlink>
    decreases s.len(),
{
    if s.len() == 0 {
        seq![]
    } else {
        let sorted = links_by_start(s.drop_last());
        sorted.insert(insert_pos(sorted, s.last().start_position), s.last())
    }
}

/// Among links ordered by start, those before the insertion place start no
/// later than `start`, those from it on start later.
proof fn lemma_insert_pos(s: Seq<Hyperlink>, start: u32)
    requires
        forall|i: int, j: int| 0 <= i <= j < s.len() ==> s[i].start_position <= s[j].start_position,
    ensures
        0 <= insert_pos(s, start) <= s.len(),
        forall|j: int| 0 <= j < insert_pos(s, start) ==> s[j].start_position <= start,
        forall|j: int| insert_pos(s, start) <= j < s.len() ==> s[j].start_position > start,
    decreases s.len(),
{
    if s.len() > 0 {
        let n = s.len() - 1;
        if s.last().start_position > start {
            let t = s.drop_last();
            lemma_insert_pos(t, start);
            assert forall|j: int| 0 <= j < insert_pos(s, start) implies s[j].start_position <= start by {
                assert(s[j] == t[j]);
            }
            assert forall|j: int| insert_pos(s, start) <= j < s.len() implies s[j].start_position > start by {
                if j < n {
                    assert(s[j] == t[j]);
                }
            }
        } else {
            assert forall|j: int| 0 <= j < insert_pos(s, start) implies s[j].start_position <= start by {
                assert(s[j].start_position <= s[n].start_position);
            }
        }
    }
}

/// Links are written in the order they start: the ordered links are the
/// given links rearranged, each starting no earlier than the one before.
#[verifier::spinoff_prover]
#[verifier::rlimit(50)]
pub proof fn law_links_by_start(s: Seq<Hyperlink>)
    ensures
        links_by_start(s).to_multiset() == s.to_multiset(),
        forall|i: int, j: int|
            0 <= i <= j < links_by_start(s).len() ==> links_by_start(s)[i].start_position <= links_by_start(
                s,
            )[j].start_position,
    decreases s.len(),
{
    broadcast use vstd::seq_lib::group_to_multiset_ensures;
    if s.len() == 0 {
        assert(links_by_start(s) =~= s);
    } else {
        let rest = s.drop_last();
        let h = s.last();
        law_links_by_start(rest);
        let sorted = links_by_start(rest);
        let p = insert_pos(sorted, h.start_position);
        lemma_insert_pos(sorted, h.start_position);
        let r = sorted.insert(p, h);
        sorted.insert_ensures(p, h);
        assert(r == links_by_start(s));
        assert forall|i: int, j: int| 0 <= i <= j < r.len() implies r[i].start_position <= r[j].start_position by {
            if i < p && j < p {
                assert(r[i] == sorted[i] && r[j] == sorted[j]);
            } else if i < p && j == p {
                assert(r[i] == sorted[i]);
            } else if i < p {
                assert(r[i] == sorted[i] && r[j] == sorted[j - 1]);
            } else if i == p && j > p {
                assert(r[j] == sorted[j - 1]);
            } else if i > p {
                assert(r[i] == sorted[i - 1] && r[j] == sorted[j - 1]);
            }
        }
        assert(r.remove(p) =~= sorted);
        assert(r[p] == h);
        assert(r.to_multiset().count(h) > 0) by {
            assert(r.contains(h));
        }
        assert(r.to_multiset() =~= sorted.to_multiset().insert(h)) by {
            assert(sorted.to_multiset() =~= r.to_multiset().remove(h));
        }
        assert(s =~= rest.push(h));
    }
}

/// The character after the last one a link covers.
pub open spec fn link_end(h: Hyperlink) -> int {
    h.start_position + h.length
}

/// Where the text resumes before the link at `i`: at 0 before the first, and
/// after that at the end of the link before (cut to 32 bits).
pub open spec fn resume_at(s: Seq<Hyperlink>, i: int) -> int {
    if i <= 0 {
        0
    } else {
        (link_end(s[i - 1]) as u32) as int
    }
}

/// The marker that opens a hyperlink field.
pub open spec fn field_start() -> Seq<u8> {
    seq![0x03u8, 0x00, 0x6B, 0x6C, 0x68, 0x25, 0x00, 0x00, 0x00, 0x00, 0x00, 0x00, 0x00, 0x00, 0x03, 0x00]
}

/// The marker that closes a hyperlink field.
pub open spec fn field_end() -> Seq<u8> {
    seq![0x04u8, 0x00, 0x6B, 0x6C, 0x68, 0x00, 0x00, 0x00, 0x00, 0x00, 0x00, 0x00, 0x00, 0x00, 0x04, 0x00]
}

/// The bytes written for the link at `i` of the ordered links: the text
/// between where the text resumes and the link's start (if it starts later),
/// then the field around the covered characters, or the link's own display
/// text where they run past the end of the text.
pub open spec fn link_field(chars: Seq<char>, s: Seq<Hyperlink>, i: int) -> Seq<u8> {
    let h = s[i];
    let c = resume_at(s, i);
    let st = h.start_position as int;
    let e = link_end(h);
    (if c < st { utf16le_bytes(chars.subrange(c, st)) } else { seq![] }) + field_start() + (if e <= chars.len() {
        utf16le_bytes(chars.subrange(st, e))
    } else {
        utf16le_bytes(h.display_text@)
    }) + field_end()
}

/// The bytes written for the first `n` of the ordered links.
pub open spec fn link_fields(chars: Seq<char>, s: Seq<Hyperlink>, n: int) -> Seq<u8>
    decreases n,
{
    if n <= 0 {
        seq![]
    } else {
        link_fields(chars, s, n - 1) + link_field(chars, s, n - 1)
    }
}

/// The text of a paragraph with hyperlink fields, in UTF-16LE: without
/// links, the text; with links, the fields of the links in the order they
/// start, the rest of the text after the last, and in both cases the
/// paragraph end.
pub open spec fn text_with_links(chars: Seq<char>, links: Seq<Hyperlink>) -> Seq<u8> {
    if links.len() == 0 {
        utf16le_bytes(chars) + seq![0x0Du8, 0x00u8]
    } else {
        let s = links_by_start(links);
        let c = resume_at(s, s.len() as int);
        link_fields(chars, s, s.len() as int) + (if c < chars.len() {
            utf16le_bytes(chars.subrange(c, chars.len() as int))
        } else {
            seq![]
        }) + seq![0x0Du8, 0x00u8]
    }
}

/// Whether the text before each link lies within the text: a link that
/// starts after the place where the text resumes starts no later than the
/// end of the text.
pub open spec fn links_fit(len: int, s: Seq<Hyperlink>) -> bool {
    forall|i: int| 0 <= i < s.len() && resume_at(s, i) < s[i].start_position ==> s[i].start_position <= len
}

/// The links at the given places.
pub open spec fn picked(links: Seq<Hyperlink>, order: Seq<usize>) -> Seq<Hyperlink> {
    Seq::new(order.len(), |j: int| links[order[j] as int])
}

/// The places of the links in the order they start (a stable sort).
fn order_by_start(links: &[Hyperlink]) -> (order: Vec<usize>)
    ensures
        picked(links@, order@) == links_by_start(links@),
        order@.len() == links@.len(),
        forall|j: int| 0 <= j < order@.len() ==> order@[j] < links@.len(),
{
    let mut order: Vec<usize> = Vec::new();
    let mut i: usize = 0;
    while i < links.len()
        invariant
            i <= links@.len(),
            order@.len() == i,
            forall|j: int| 0 <= j < order@.len() ==> order@[j] < links@.len(),
            picked(links@, order@) == links_by_start(links@.subrange(0, i as int)),
        decreases links.len() - i,
    {
        let key = links[i].start_position;
        let ghost sorted = picked(links@, order@);
        let mut p: usize = order.len();
        assert(sorted.subrange(0, p as int) =~= sorted);
        while p > 0 && links[order[p - 1]].start_position > key
            invariant
                p <= order@.len(),
                order@.len() == i,
                i < links@.len(),
                sorted == picked(links@, order@),
                forall|j: int| 0 <= j < order@.len() ==> order@[j] < links@.len(),
                insert_pos(sorted, key) == insert_pos(sorted.subrange(0, p as int), key),
            decreases p,
        {
            assert(sorted.subrange(0, p as int).drop_last() =~= sorted.subrange(0, p - 1));
            p = p - 1;
        }
        proof {
            assert(sorted.subrange(0, p as int).len() == p);
            if p > 0 {
                assert(sorted.subrange(0, p as int).last() == sorted[p - 1]);
            } else {
                assert(sorted.subrange(0, 0) =~= Seq::<Hyperlink>::empty());
            }
            assert(links@.subrange(0, i + 1).drop_last() =~= links@.subrange(0, i as int));
            assert(links@.subrange(0, i + 1).last() == links@[i as int]);
        }
        order.insert(p, i);
        proof {
            assert(picked(links@, order@) =~= sorted.insert(p as int, links@[i as int]));
        }
        i = i + 1;
    }
    assert(links@.subrange(0, links@.len() as int) =~= links@);
    order
}

/// Builds the text of a paragraph with hyperlink fields: each link, in the
/// order they start, becomes a field around the characters it covers.
pub fn build_para_text_with_hyperlinks(text_content: &str, hyperlinks: &[Hyperlink]) -> (result: Vec<u8>)
    requires
        links_fit(text_content@.len() as int, links_by_start(hyperlinks@)),
    ensures
        result@ == text_with_links(text_content@, hyperlinks@),
{
    let mut result: Vec<u8> = Vec::new();
    if hyperlinks.len() == 0 {
        let text = string_to_utf16le(text_content);
        put_bytes(&mut result, text.as_slice());
        result.push(0x0D);
        result.push(0x00);
        assert(result@ =~= text_with_links(text_content@, hyperlinks@));
        return result;
    }
    let order = order_by_start(hyperlinks);
    let ghost sorted = links_by_start(hyperlinks@);
    let chars = chars_of(text_content);
    let ghost cs = chars@;
    let field_start_bytes: [u8; 16] = [
        0x03, 0x00, 0x6B, 0x6C, 0x68, 0x25, 0x00, 0x00, 0x00, 0x00, 0x00, 0x00, 0x00, 0x00, 0x03, 0x00,
    ];
    let field_end_bytes: [u8; 16] = [
        0x04, 0x00, 0x6B, 0x6C, 0x68, 0x00, 0x00, 0x00, 0x00, 0x00, 0x00, 0x00, 0x00, 0x00, 0x04, 0x00,
    ];
    assert(field_start_bytes@ =~= field_start());
    assert(field_end_bytes@ =~= field_end());
    let mut current_pos: u32 = 0;
    let mut k: usize = 0;
    while k < order.len()
        invariant
            k <= order@.len(),
            order@.len() == hyperlinks@.len(),
            forall|j: int| 0 <= j < order@.len() ==> order@[j] < hyperlinks@.len(),
            picked(hyperlinks@, order@) == sorted,
            sorted == links_by_start(hyperlinks@),
            links_fit(cs.len() as int, sorted),
            cs == text_content@,
            chars@ == cs,
            field_start_bytes@ == field_start(),
            field_end_bytes@ == field_end(),
            current_pos == resume_at(sorted, k as int),
            result@ == link_fields(cs, sorted, k as int),
        decreases order.len() - k,
    {
        let ghost before = result@;
        let hyperlink = &hyperlinks[order[k]];
        assert(*hyperlink == sorted[k as int]);
        let start: u32 = hyperlink.start_position;
        let end: u64 = start as u64 + hyperlink.length as u64;
        if current_pos < start {
            put_chars_utf16le(&mut result, chars.as_slice(), current_pos as usize, start as usize);
        }
        put_bytes(&mut result, field_start_bytes.as_slice());
        if end <= chars.len() as u64 {
            put_chars_utf16le(&mut result, chars.as_slice(), start as usize, end as usize);
        } else {
            let shown = string_to_utf16le(hyperlink.display_text.as_str());
            put_bytes(&mut result, shown.as_slice());
        }
        put_bytes(&mut result, field_end_bytes.as_slice());
        assert(result@ =~= before + link_field(cs, sorted, k as int));
        current_pos = #[verifier::truncate] (end as u32);
        k = k + 1;
    }
    if (current_pos as usize) < chars.len() {
        put_chars_utf16le(&mut result, chars.as_slice(), current_pos as usize, chars.len());
    }
    result.push(0x0D);
    result.push(0x00);
    assert(result@ =~= text_with_links(text_content@, hyperlinks@));
    result
}

/// Compresses data as raw DEFLATE (without a zlib header), as HWP streams
/// are stored.
pub fn compress_data(data: &[u8]) -> (res: Result<Vec<u8>, HwpError>)
    ensures
        res matches Ok(v) && v@ == deflate_encoding(data@) && deflate_decoding(v@) == Some(data@) && v@.len() > 0,
{
    match deflate(data) {
        Ok(v) => Ok(v),
        Err(e) => Err(HwpError::Io(e)),
    }
}

} // verus!
