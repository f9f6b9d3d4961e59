use hwpers::model::Section;
use hwpers::writer::{HwpWriter, ListType};

fn texts(writer: &HwpWriter) -> Vec<String> {
    let sections: &Vec<Section> = writer.sections();
    sections[0].paragraphs.iter().map(|p| p.text.as_ref().unwrap().content.clone()).collect()
}

#[test]
fn test_simple_bullet_list() {
    let mut writer = HwpWriter::new();
    writer.add_list(&["Item 1", "Item 2", "Item 3"], ListType::Bullet).unwrap();
    assert_eq!(writer.sections()[0].paragraphs.len(), 3);
    let para1 = &writer.sections()[0].paragraphs[0];
    assert!(para1.text.as_ref().unwrap().content.contains("•"));
}

#[test]
fn test_numbered_list() {
    let mut writer = HwpWriter::new();
    writer.add_list(&["First", "Second", "Third"], ListType::Numbered).unwrap();
    let t = texts(&writer);
    assert!(t[0].contains("1."));
    assert!(t[1].contains("2."));
    assert!(t[2].contains("3."));
}

#[test]
fn test_alphabetic_list() {
    let mut writer = HwpWriter::new();
    writer.add_list(&["Apple", "Banana", "Cherry"], ListType::Alphabetic).unwrap();
    let t = texts(&writer);
    assert!(t[0].contains("a)"));
    assert!(t[1].contains("b)"));
    assert!(t[2].contains("c)"));
}

#[test]
fn test_korean_list() {
    let mut writer = HwpWriter::new();
    writer.add_list(&["첫째", "둘째", "셋째"], ListType::Korean).unwrap();
    let t = texts(&writer);
    assert!(t[0].contains("가."));
    assert!(t[1].contains("나."));
    assert!(t[2].contains("다."));
}

#[test]
fn test_roman_numerals() {
    let mut writer = HwpWriter::new();
    writer.add_list(&["Introduction", "Methods", "Results", "Discussion"], ListType::Roman).unwrap();
    let t = texts(&writer);
    assert!(t[0].contains("i."));
    assert!(t[1].contains("ii."));
    assert!(t[2].contains("iii."));
    assert!(t[3].contains("iv."));
}

#[test]
fn test_manual_list_building() {
    let mut writer = HwpWriter::new();
    writer.start_list(ListType::Numbered).unwrap();
    writer.add_list_item("First item").unwrap();
    writer.add_list_item("Second item").unwrap();
    writer.add_list_item("Third item").unwrap();
    writer.end_list().unwrap();
    let t = texts(&writer);
    assert_eq!(t.len(), 3);
    assert!(t[0].contains("1."));
    assert!(t[1].contains("2."));
    assert!(t[2].contains("3."));
}

#[test]
fn test_nested_lists() {
    let mut writer = HwpWriter::new();
    writer.start_list(ListType::Numbered).unwrap();
    writer.add_list_item("Main item 1").unwrap();
    writer.start_nested_list(ListType::Bullet).unwrap();
    writer.add_list_item("Nested item 1").unwrap();
    writer.add_list_item("Nested item 2").unwrap();
    writer.end_list().unwrap();
    writer.add_list_item("Main item 2").unwrap();
    writer.end_list().unwrap();
    let paragraphs = &writer.sections()[0].paragraphs;
    assert_eq!(paragraphs.len(), 4);
    assert!(paragraphs[0].text.as_ref().unwrap().content.contains("1."));
    assert!(paragraphs[3].text.as_ref().unwrap().content.contains("2."));
    assert_ne!(paragraphs[0].para_shape_id, paragraphs[1].para_shape_id);
}

#[test]
fn test_list_indentation() {
    let mut writer = HwpWriter::new();
    writer.start_list(ListType::Bullet).unwrap();
    writer.add_list_item("Level 0").unwrap();
    writer.start_nested_list(ListType::Bullet).unwrap();
    writer.add_list_item("Level 1").unwrap();
    writer.start_nested_list(ListType::Bullet).unwrap();
    writer.add_list_item("Level 2").unwrap();
    writer.end_list().unwrap();
    writer.end_list().unwrap();
    writer.end_list().unwrap();
    let paragraphs = &writer.sections()[0].paragraphs;
    assert!(paragraphs[0].text.as_ref().unwrap().content.contains("•"));
    assert!(paragraphs[1].text.as_ref().unwrap().content.contains("◦"));
    assert!(paragraphs[2].text.as_ref().unwrap().content.contains("▪"));
    let shape_ids: Vec<_> = paragraphs.iter().map(|p| p.para_shape_id).collect();
    assert_ne!(shape_ids[0], shape_ids[1]);
    assert_ne!(shape_ids[1], shape_ids[2]);
    assert_ne!(shape_ids[0], shape_ids[2]);
}

#[test]
fn list_item_texts_are_prefix_space_text() {
    let mut writer = HwpWriter::new();
    writer.add_list(&["x", "y"], ListType::Numbered).unwrap();
    assert_eq!(texts(&writer), vec!["1. x".to_string(), "2. y".to_string()]);
    writer.add_list(&["z"], ListType::Custom("->".to_string())).unwrap();
    assert_eq!(texts(&writer)[2], "-> z");
    writer.add_list(&["a"; 27], ListType::Alphabetic).unwrap();
    assert_eq!(texts(&writer)[3], "a). a");
    assert_eq!(texts(&writer)[29], "a). a");
    writer.add_list(&["r"; 1994], ListType::Roman).unwrap();
    assert_eq!(texts(&writer)[30 + 1993], "mcmxciv. r");
}

#[test]
fn list_item_without_a_list_is_invalid_input() {
    let mut writer = HwpWriter::new();
    assert!(matches!(writer.add_list_item("x"), Err(hwpers::HwpError::InvalidInput(_))));
    assert!(writer.sections()[0].paragraphs.is_empty());
}

#[test]
fn writer_document_reads_back() {
    let mut writer = HwpWriter::new();
    writer.add_paragraph("Hello").unwrap();
    writer.add_header("Head");
    writer.set_a4_landscape().unwrap();
    let font = writer.ensure_font("Batang").unwrap();
    assert_eq!(font, 1);
    assert_eq!(writer.ensure_font("맑은 고딕").unwrap(), 0);
    let bytes = writer.to_bytes().unwrap();
    let doc = hwpers::reader::compound::read_document(&bytes).unwrap();
    assert_eq!(doc.sections.len(), 1);
    assert_eq!(doc.doc_info.face_names.len(), 2);
    assert_eq!(doc.doc_info.face_names[1].font_name, "Batang");
    let page = writer.sections()[0].page_def.as_ref().unwrap();
    assert!(page.width > page.height);
    assert_eq!(page.header_footer.items.len(), 0);
}

#[test]
fn header_and_footer_go_into_the_page_definition() {
    let mut writer = HwpWriter::new();
    writer.add_header("Title");
    writer.add_footer_with_page_number("Page ", hwpers::model::PageNumberFormat::Numeric);
    let page = writer.sections()[0].page_def.as_ref().unwrap();
    assert_eq!(page.width, 59528);
    assert_eq!(page.header_footer.items.len(), 2);
    assert_eq!(page.header_footer.items[0].text, "Title");
    assert!(page.header_footer.items[1].include_page_number);
    assert_eq!(writer.next_instance_id(), 1);
    assert_eq!(writer.next_instance_id(), 2);
}

#[test]
fn test_basic_header() {
    let mut writer = HwpWriter::new();
    writer.add_paragraph("This is a document with header.").unwrap();
    writer.add_header("Document Title");
    let section = &writer.sections()[0];
    assert!(section.page_def.is_some());
    let page_def = section.page_def.as_ref().unwrap();
    let headers = page_def.header_footer.headers();
    assert_eq!(headers.len(), 1);
    assert_eq!(headers[0].text, "Document Title");
    assert_eq!(headers[0].apply_type, hwpers::model::PageApplyType::All);
    assert_eq!(headers[0].alignment, 0);
}

#[test]
fn test_footer_with_page_number() {
    let mut writer = HwpWriter::new();
    writer.add_paragraph("Content").unwrap();
    writer.add_footer_with_page_number("Page", hwpers::model::PageNumberFormat::RomanLower);
    let section = &writer.sections()[0];
    let page_def = section.page_def.as_ref().unwrap();
    let footers = page_def.header_footer.footers();
    assert_eq!(footers.len(), 1);
    assert_eq!(footers[0].text, "Page");
    assert!(footers[0].include_page_number);
    assert_eq!(footers[0].page_number_format, 2);
}

#[test]
fn test_minimal_document_structure() {
    let writer = HwpWriter::new();
    let bytes = writer.to_bytes().unwrap();
    assert_eq!(&bytes[0..8], &[0xD0, 0xCF, 0x11, 0xE0, 0xA1, 0xB1, 0x1A, 0xE1]);
    let doc = hwpers::reader::compound::read_document(&bytes).unwrap();
    assert_eq!(doc.sections.len(), 1);
}

#[test]
fn aligned_paragraph_gets_a_shape_of_its_own() {
    let mut writer = HwpWriter::new();
    writer.add_aligned_paragraph("Centered", 3).unwrap();
    let info = writer.doc_info();
    assert_eq!(info.para_shapes.len(), 2);
    assert_eq!(info.para_shapes[1].properties1, 0x0C);
    assert_eq!(info.char_shapes.len(), 2);
    let p = &writer.sections()[0].paragraphs[0];
    assert_eq!((p.para_shape_id, p.line_align_count, p.instance_id), (1, 1, 0));
    assert_eq!(p.char_shapes.as_ref().unwrap().char_positions[0].char_shape_id, 1);
    assert_eq!(p.text.as_ref().unwrap().content, "Centered");
}

#[test]
fn char_shaped_paragraph_takes_the_next_instance_id() {
    let mut writer = HwpWriter::new();
    let mut shape = hwpers::model::CharShape::new_default();
    shape.base_size = 2000;
    writer.add_paragraph_with_char_shape("Big", shape).unwrap();
    let p = &writer.sections()[0].paragraphs[0];
    assert_eq!((p.para_shape_id, p.instance_id), (0, 1));
    assert_eq!(writer.doc_info().char_shapes[1].base_size, 2000);
    assert_eq!(writer.add_char_shape(hwpers::model::CharShape::new_default()).unwrap(), 2);
    assert_eq!(writer.add_para_shape(hwpers::model::ParaShape::new_default()).unwrap(), 1);
}
