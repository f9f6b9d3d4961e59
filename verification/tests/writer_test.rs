use hwpers::model::{CharPositionShape, HeaderFooter, Hyperlink, ParaCharShape, ParaShape, ParaText, Paragraph};
use hwpers::parser::doc_info::DocInfo;
use hwpers::parser::record::{Record, RecordHeader};
use hwpers::reader::StreamReader;
use hwpers::utils::compression::decompress_stream;
use hwpers::writer::serializer::{
    compress_data, create_doc_options, serialize_document_properties, serialize_header_footer_control,
    serialize_hyperlink_ctrl_header, serialize_id_mappings, serialize_para_char_shapes, serialize_para_shape,
    serialize_paragraph_header, serialize_paragraph_text, write_record, build_para_text_with_hyperlinks,
    write_content_paragraph, write_header_footer_control, write_section_definition, serialize_body_text, create_preview_text,
};
use hwpers::model::PageDef;
use hwpers::render::renderer::escape_xml;

fn record(tag_id: u16, data: Vec<u8>) -> Record {
    Record { header: RecordHeader { tag_id, level: 0, size: data.len() as u32 }, data }
}

#[test]
fn record_written_reads_back() {
    let mut out = Vec::new();
    write_record(&mut out, 0x43, 2, &[1, 2, 3]);
    let big = vec![7u8; 5000];
    write_record(&mut out, 0x15, 1, &big);
    assert_eq!(&out[0..4], &(0x43u32 | (2 << 10) | (3 << 20)).to_le_bytes());
    let mut reader = StreamReader::new(out);
    let r1 = Record::parse(&mut reader).unwrap();
    assert_eq!((r1.header.tag_id, r1.header.level, r1.data.clone()), (0x43, 2, vec![1, 2, 3]));
    let r2 = Record::parse(&mut reader).unwrap();
    assert_eq!((r2.header.tag_id, r2.header.level, r2.header.size), (0x15, 1, 5000));
    assert_eq!(r2.data, big);
    assert_eq!(reader.remaining(), 0);
}

#[test]
fn para_shape_written_reads_back() {
    let mut p = ParaShape::new_default();
    p.left_margin = -1200;
    p.border_top_space = -7;
    p.line_space_type = 2;
    let bytes = serialize_para_shape(&p).unwrap();
    assert_eq!(bytes.len(), 54);
    let q = ParaShape::from_record(&record(0x19, bytes)).unwrap();
    assert_eq!(q.left_margin, -1200);
    assert_eq!(q.border_top_space, -7);
    assert_eq!(q.line_space_type, 2);
    assert_eq!(q.properties1, p.properties1);
}

#[test]
fn char_positions_written_read_back() {
    let c = ParaCharShape {
        char_positions: vec![
            CharPositionShape { position: 0, char_shape_id: 3 },
            CharPositionShape { position: 12, char_shape_id: 65535 },
        ],
    };
    let bytes = serialize_para_char_shapes(&c).unwrap();
    assert_eq!(bytes.len(), 16);
    let back = ParaCharShape::from_record(&record(0x44, bytes)).unwrap();
    assert_eq!(back.char_positions, c.char_positions);
}

#[test]
fn header_footer_control_reads_back() {
    let h = HeaderFooter::new_header("x").with_height_mm(30).with_margin_mm(12);
    let bytes = serialize_header_footer_control(&h, true).unwrap();
    assert_eq!(bytes.len(), 40);
    let back = HeaderFooter::from_record(&record(0x47, bytes)).unwrap();
    assert_eq!(back.height, 3000);
    assert_eq!(back.margin, 1200);
}

#[test]
fn compressed_data_decompresses() {
    let data: Vec<u8> = (0..2000u32).map(|i| (i % 7) as u8).collect();
    let c = compress_data(&data).unwrap();
    assert!(!c.is_empty());
    assert!(c.len() < data.len());
    assert_eq!(decompress_stream(&c).unwrap(), data);
    let e = compress_data(&[]).unwrap();
    assert!(!e.is_empty());
}

#[test]
fn properties_and_mappings_records() {
    let props = hwpers::model::DocumentProperties::default();
    let b = serialize_document_properties(&props).unwrap();
    assert_eq!(b.len(), 26);
    assert_eq!(&b[0..14], &[1, 0, 1, 0, 1, 0, 1, 0, 1, 0, 1, 0, 0, 0]);
    let info = DocInfo::default();
    let m = serialize_id_mappings(&info).unwrap();
    assert_eq!(m.len(), 72);
    assert_eq!(&m[32..36], &[1, 0, 0, 0]);
    assert_eq!(&m[44..48], &[0, 0, 0, 0]);
    assert_eq!(create_doc_options().unwrap(), vec![1, 0, 0, 0, 0, 0, 0, 0, 100, 0, 0, 0, 0, 0, 0, 0, 1, 0, 0, 0, 0, 0, 0, 0]);
}

#[test]
fn paragraph_records() {
    let mut p = Paragraph::default();
    p.text = Some(ParaText { content: "가나".to_string() });
    p.instance_id = 9;
    let h = serialize_paragraph_header(&p).unwrap();
    assert_eq!(h.len(), 24);
    // "가나" is six UTF-8 bytes: three, with the last-in-list bit.
    assert_eq!(&h[0..4], &(3u32 | 0x8000_0000).to_le_bytes());
    assert_eq!(&h[12..14], &[1, 0]);
    let t = serialize_paragraph_text(&ParaText { content: "A가".to_string() }).unwrap();
    assert_eq!(t, vec![0x41, 0x00, 0x00, 0xAC]);
}

#[test]
fn hyperlink_control_header() {
    let h = Hyperlink::new_url("x", "http://a").with_new_window(true);
    let b = serialize_hyperlink_ctrl_header(&h).unwrap();
    let cmd = "http://a;1;0;0;";
    assert_eq!(&b[0..4], b"klh%");
    assert_eq!(&b[9..11], &(cmd.len() as u16).to_le_bytes());
    let text: Vec<u8> = cmd.encode_utf16().flat_map(|c| c.to_le_bytes()).collect();
    assert_eq!(&b[11..11 + text.len()], &text[..]);
    assert_eq!(b.len(), 11 + text.len() + 8);
}

fn utf16(s: &str) -> Vec<u8> {
    s.encode_utf16().flat_map(|c| c.to_le_bytes()).collect()
}

fn read_all(bytes: Vec<u8>) -> Vec<Record> {
    let mut reader = StreamReader::new(bytes);
    let mut records = Vec::new();
    while reader.remaining() > 0 {
        records.push(Record::parse(&mut reader).unwrap());
    }
    records
}

#[test]
fn section_definition_records() {
    let mut out = Vec::new();
    write_section_definition(&mut out, None).unwrap();
    let records = read_all(out);
    let tags: Vec<u16> = records.iter().map(|r| r.header.tag_id).collect();
    assert_eq!(tags, vec![0x42, 0x43, 0x44, 0x45, 0x47, 0x49, 0x4A, 0x4A, 0x4B, 0x4B, 0x4B, 0x47]);
    let levels: Vec<u8> = records.iter().map(|r| r.header.level).collect();
    assert_eq!(levels, vec![0, 1, 1, 1, 1, 2, 2, 2, 2, 2, 2, 1]);
    assert_eq!(&records[0].data[0..4], &[0x11, 0, 0, 0]);
    assert_eq!(&records[1].data[2..6], b"dces");
    assert_eq!(&records[4].data[0..4], b"dces");
    assert_eq!(&records[11].data[0..4], b"dloc");
    assert_eq!(records[5].data, PageDef::new_default().to_bytes());
    assert_eq!(&records[5].data[0..4], &59528u32.to_le_bytes());

    let mut page = PageDef::new_default();
    page.width = 1000;
    page.gutter_margin = 7;
    let mut out = vec![9u8];
    write_section_definition(&mut out, Some(&page)).unwrap();
    assert_eq!(out[0], 9);
    let records = read_all(out[1..].to_vec());
    assert_eq!(records[5].data, page.to_bytes());
    assert_eq!(&records[5].data[0..4], &1000u32.to_le_bytes());
    assert_eq!(&records[5].data[32..36], &7u32.to_le_bytes());
}

#[test]
fn header_footer_control_records() {
    let mut h = HeaderFooter::new_footer("쪽 1");
    h.char_shape_id = 5;
    h.para_shape_id = 2;
    let mut out = Vec::new();
    write_header_footer_control(&mut out, &h).unwrap();
    let records = read_all(out);
    let tags: Vec<u16> = records.iter().map(|r| r.header.tag_id).collect();
    assert_eq!(tags, vec![0x42, 0x43, 0x44, 0x45, 0x47, 0x48]);
    // three UTF-16 units and the paragraph end
    assert_eq!(&records[0].data[0..4], &4u32.to_le_bytes());
    assert_eq!(&records[0].data[8..10], &2u16.to_le_bytes());
    let mut text = utf16("쪽 1");
    text.extend_from_slice(&[0x0D, 0x00]);
    assert_eq!(records[1].data, text);
    assert_eq!(records[2].data, vec![0, 0, 0, 0, 5, 0, 0, 0]);
    assert_eq!(records[4].data, vec![0x6F, 0x66, 0x74, 0x72, 0, 0, 0, 0, 0, 0, 0, 0]);
    assert_eq!(records[5].data, serialize_header_footer_control(&h, false).unwrap());

    let mut out = Vec::new();
    write_header_footer_control(&mut out, &HeaderFooter::new_header("")).unwrap();
    let records = read_all(out);
    assert_eq!(&records[4].data[0..4], b"hedr");
    assert_eq!(&records[0].data[0..4], &1u32.to_le_bytes());
}

fn link(start: u32, length: u32, shown: &str) -> Hyperlink {
    let mut h = Hyperlink::new_url(shown, "http://a");
    h.start_position = start;
    h.length = length;
    h
}

const FIELD_START: [u8; 16] = [3, 0, 0x6B, 0x6C, 0x68, 0x25, 0, 0, 0, 0, 0, 0, 0, 0, 3, 0];
const FIELD_END: [u8; 16] = [4, 0, 0x6B, 0x6C, 0x68, 0, 0, 0, 0, 0, 0, 0, 0, 0, 4, 0];

#[test]
fn text_without_links() {
    let b = build_para_text_with_hyperlinks("ab", &[]);
    assert_eq!(b, vec![0x61, 0, 0x62, 0, 0x0D, 0]);
}

#[test]
fn text_with_links_in_start_order() {
    // given out of order: the link at 6 comes after the link at 0
    let links = vec![link(6, 5, "x"), link(0, 5, "y")];
    let b = build_para_text_with_hyperlinks("Hello world!", &links);
    let mut want = Vec::new();
    want.extend_from_slice(&FIELD_START);
    want.extend(utf16("Hello"));
    want.extend_from_slice(&FIELD_END);
    want.extend(utf16(" "));
    want.extend_from_slice(&FIELD_START);
    want.extend(utf16("world"));
    want.extend_from_slice(&FIELD_END);
    want.extend(utf16("!"));
    want.extend_from_slice(&[0x0D, 0]);
    assert_eq!(b, want);
}

#[test]
fn link_past_the_text_shows_its_own_text() {
    let b = build_para_text_with_hyperlinks("ab", &[link(1, 9, "see")]);
    let mut want = utf16("a");
    want.extend_from_slice(&FIELD_START);
    want.extend(utf16("see"));
    want.extend_from_slice(&FIELD_END);
    want.extend_from_slice(&[0x0D, 0]);
    assert_eq!(b, want);
}

#[test]
fn links_at_the_same_start_keep_their_order() {
    let b = build_para_text_with_hyperlinks("abc", &[link(0, 9, "p"), link(0, 1, "q")]);
    let mut want = Vec::new();
    want.extend_from_slice(&FIELD_START);
    want.extend(utf16("p"));
    want.extend_from_slice(&FIELD_END);
    want.extend_from_slice(&FIELD_START);
    want.extend(utf16("a"));
    want.extend_from_slice(&FIELD_END);
    want.extend(utf16("bc"));
    want.extend_from_slice(&[0x0D, 0]);
    assert_eq!(b, want);
}

#[test]
fn xml_escaping() {
    assert_eq!(escape_xml("a<b & 'c' \"d\">"), "a&lt;b &amp; &apos;c&apos; &quot;d&quot;&gt;");
    assert_eq!(escape_xml("가나"), "가나");
    assert_eq!(escape_xml(""), "");
}

#[test]
fn style_written_reads_back() {
    let s = hwpers::model::style::Style {
        name: "바탕글".to_string(),
        english_name: "Normal".to_string(),
        properties: 3,
        next_style_id: 1,
        lang_id: 1042,
        para_shape_id: 7,
        char_shape_id: 65535,
    };
    let bytes = hwpers::writer::serializer::serialize_style(&s).unwrap();
    let back = hwpers::model::style::Style::from_record(&record(0x1A, bytes)).unwrap();
    assert_eq!(back.name, s.name);
    assert_eq!(back.english_name, s.english_name);
    assert_eq!((back.properties, back.next_style_id), (3, 1));
    assert_eq!((back.lang_id, back.para_shape_id, back.char_shape_id), (1042, 7, 65535));
}

#[test]
fn content_paragraph_records() {
    let mut p = Paragraph::default();
    p.text = Some(ParaText { content: "가a".to_string() });
    p.control_mask = 4;
    p.instance_id = 5;
    let mut out = Vec::new();
    write_content_paragraph(&mut out, &p, true).unwrap();
    let records = read_all(out);
    let tags: Vec<u16> = records.iter().map(|r| r.header.tag_id).collect();
    assert_eq!(tags, vec![0x42, 0x43, 0x44, 0x45]);
    assert_eq!(&records[0].data[0..4], &(3u32 | 0x8000_0000).to_le_bytes());
    assert_eq!(&records[0].data[4..8], &4u32.to_le_bytes());
    assert_eq!(&records[0].data[12..14], &1u16.to_le_bytes());
    assert_eq!(&records[0].data[14..16], &0u16.to_le_bytes());
    assert_eq!(records[1].data, vec![0x00, 0xAC, 0x61, 0x00, 0x0D, 0x00]);
    assert_eq!(records[2].data, vec![0; 8]);
    assert_eq!(records[3].data.len(), 36);

    let mut q = Paragraph::default();
    q.char_shapes = Some(ParaCharShape { char_positions: vec![CharPositionShape { position: 0, char_shape_id: 2 }] });
    let mut out = Vec::new();
    write_content_paragraph(&mut out, &q, false).unwrap();
    let records = read_all(out);
    assert_eq!(&records[0].data[0..4], &1u32.to_le_bytes());
    assert_eq!(records[1].data, vec![0x0D, 0x00]);
    assert_eq!(records[2].data, vec![0, 0, 0, 0, 2, 0, 0, 0]);
}

#[test]
fn body_text_of_sections() {
    let mut p1 = Paragraph::default();
    p1.text = Some(ParaText { content: "A".to_string() });
    let p2 = Paragraph::default();
    let plain = hwpers::model::Section { paragraphs: vec![p1, p2], section_def: None, page_def: None };
    let mut page = PageDef::new_default();
    page.header_footer.items.push(HeaderFooter::new_header("H"));
    let with_header = hwpers::model::Section { paragraphs: vec![], section_def: None, page_def: Some(page) };
    let bytes = serialize_body_text(&[plain, with_header]).unwrap();
    let records = read_all(bytes);
    let tags: Vec<u16> = records.iter().map(|r| r.header.tag_id).collect();
    let definition = vec![0x42, 0x43, 0x44, 0x45, 0x47, 0x49, 0x4A, 0x4A, 0x4B, 0x4B, 0x4B, 0x47];
    let paragraph = vec![0x42, 0x43, 0x44, 0x45];
    let header = vec![0x42, 0x43, 0x44, 0x45, 0x47, 0x48];
    let mut want = definition.clone();
    want.extend(&paragraph);
    want.extend(&paragraph);
    want.extend(&definition);
    want.extend(&header);
    assert_eq!(tags, want);
    // the first paragraph is not last in its list, the second is
    assert_eq!(&records[12].data[0..4], &2u32.to_le_bytes());
    assert_eq!(&records[16].data[0..4], &(1u32 | 0x8000_0000).to_le_bytes());
    assert_eq!(serialize_body_text(&[]).unwrap(), Vec::<u8>::new());
}

fn text_paragraph(t: &str) -> Paragraph {
    let mut p = Paragraph::default();
    p.text = Some(ParaText { content: t.to_string() });
    p
}

#[test]
fn preview_text_of_sections() {
    let s1 = hwpers::model::Section { paragraphs: vec![text_paragraph("Hi "), Paragraph::default(), text_paragraph("you")], section_def: None, page_def: None };
    let s2 = hwpers::model::Section { paragraphs: vec![text_paragraph("!")], section_def: None, page_def: None };
    assert_eq!(create_preview_text(&[s1, s2]).unwrap(), utf16("Hi you!"));
    assert_eq!(create_preview_text(&[]).unwrap(), Vec::<u8>::new());

    // 400 three-byte characters are cut to 333 (999 bytes); the next section
    // then adds what fits in the last byte.
    let long: String = std::iter::repeat('가').take(400).collect();
    let s1 = hwpers::model::Section { paragraphs: vec![text_paragraph(&long), text_paragraph("never")], section_def: None, page_def: None };
    let s2 = hwpers::model::Section { paragraphs: vec![text_paragraph("ab")], section_def: None, page_def: None };
    let s3 = hwpers::model::Section { paragraphs: vec![text_paragraph("c")], section_def: None, page_def: None };
    let mut want: String = std::iter::repeat('가').take(333).collect();
    want.push('a');
    assert_eq!(create_preview_text(&[s1, s2, s3]).unwrap(), utf16(&want));
}

#[test]
fn style_with_inner_nul_reads_back() {
    let s = hwpers::model::style::Style {
        name: "a\0b".to_string(),
        english_name: String::new(),
        properties: 0,
        next_style_id: 0,
        lang_id: 0,
        para_shape_id: 0,
        char_shape_id: 0,
    };
    let bytes = hwpers::writer::serializer::serialize_style(&s).unwrap();
    let back = hwpers::model::style::Style::from_record(&record(0x1A, bytes)).unwrap();
    assert_eq!(back.name, "a\0b");
    assert_eq!(back.english_name, "");
}
