use hwpers::model::{DocumentProperties, ParaText, Paragraph};
use hwpers::model::border_fill::BorderFill;
use hwpers::model::bin_data::{BinData, BinDataType};
use hwpers::parser::doc_info::DocInfoParser;
use hwpers::parser::record::{Record, RecordHeader};

fn record(tag_id: u16, data: Vec<u8>) -> Record {
    Record { header: RecordHeader { tag_id, level: 0, size: data.len() as u32 }, data }
}

fn units(u: &[u16]) -> Vec<u8> {
    u.iter().flat_map(|c| c.to_le_bytes()).collect()
}

#[test]
fn plain_text_keeps_tabs_and_breaks() {
    let d = units(&[0x48, 0x09, 0x69, 0x0D, 0x0A, 0x01, 0x1F, 0xF030, 0xAC00, 0xD800]);
    let t = ParaText::from_record(&record(0x51, d)).unwrap();
    assert_eq!(t.content, "H\ti\r\n가");
}

#[test]
fn odd_last_byte_is_ignored() {
    let mut d = units(&[0x41, 0x42]);
    d.push(0x43);
    let t = ParaText::from_record(&record(0x51, d)).unwrap();
    assert_eq!(t.content, "AB");
}

#[test]
fn table_marker_has_no_text() {
    let mut d = vec![0x0B, 0x00, 0x20, 0x6C, 0x62, 0x74];
    d.extend(vec![0x41u8; 12]);
    let t = ParaText::from_record(&record(0x43, d.clone())).unwrap();
    assert_eq!(t.content, "");
    // Under another tag the same bytes are ordinary text.
    let t = ParaText::from_record(&record(0x51, d)).unwrap();
    assert!(!t.content.is_empty());
}

#[test]
fn body_text_skips_metadata_sequences() {
    let d = units(&[0x41, 0x0002, 0x6364, 0x1234, 0x5678, 0, 0, 0, 0x42]);
    let t = ParaText::from_record(&record(0x43, d)).unwrap();
    assert_eq!(t.content, "AB");
}

#[test]
fn body_text_form_field_marks() {
    // A tab starting a form field run skips the run; the scan resumes at its
    // last unit (here a space, which is kept).
    let d = units(&[0x41, 0x09, 0x0480, 0x0000, 0x0020, 0x42]);
    let t = ParaText::from_record(&record(0x43, d)).unwrap();
    assert_eq!(t.content, "A B");
    // 0x0264 followed by 0x0100 is a form field mark, skipped whole.
    let d = units(&[0x0264, 0x0100, 0x43]);
    let t = ParaText::from_record(&record(0x43, d)).unwrap();
    assert_eq!(t.content, "C");
    // Without a following 0x0100 it is an ordinary character.
    let d = units(&[0x0264, 0x43]);
    let t = ParaText::from_record(&record(0x43, d)).unwrap();
    assert_eq!(t.content, "\u{0264}C");
}

#[test]
fn body_text_control_units() {
    let d = units(&[0x00, 0x05, 0x09, 0x0A, 0x0B, 0x0D, 0x10, 0xF025, 0x44]);
    let t = ParaText::from_record(&record(0x43, d)).unwrap();
    assert_eq!(t.content, "\t\n\u{0B}\rD");
}

#[test]
fn paragraph_headers() {
    let p = Paragraph::from_header_record(&record(0x42, vec![])).unwrap();
    assert_eq!(p.control_mask, 0);
    assert!(p.text.is_none());
    assert!(matches!(Paragraph::from_header_record(&record(0x50, vec![0u8; 17])), Err(hwpers::HwpError::ParseError(_))));
    let mut d = Vec::new();
    d.extend_from_slice(&0x11223344u32.to_le_bytes());
    d.extend_from_slice(&7u16.to_le_bytes());
    d.push(3);
    d.push(4);
    d.extend_from_slice(&5u16.to_le_bytes());
    d.extend_from_slice(&6u16.to_le_bytes());
    d.extend_from_slice(&8u16.to_le_bytes());
    d.extend_from_slice(&99u32.to_le_bytes());
    let p = Paragraph::from_header_record(&record(0x50, d)).unwrap();
    assert_eq!(
        (p.control_mask, p.para_shape_id, p.style_id, p.column_type, p.char_shape_count, p.range_tag_count, p.line_align_count, p.instance_id),
        (0x11223344, 7, 3, 4, 5, 6, 8, 99)
    );
}

#[test]
fn character_counts() {
    let mut p = DocumentProperties::default();
    p.calculate_character_counts("Hi 한글 漢字 ひら 12!\n€");
    assert_eq!(p.total_character_count, 17);
    assert_eq!(p.english_character_count, 2);
    assert_eq!(p.hangul_character_count, 2);
    assert_eq!(p.hanja_character_count, 2);
    assert_eq!(p.japanese_character_count, 2);
    assert_eq!(p.symbol_character_count, 3);
    assert_eq!(p.space_character_count, 5);
    assert_eq!(p.other_character_count, 1);
    assert_eq!(p.total_word_count, 6);
    assert_eq!(p.line_count, 2);
    p.add_character_counts("a b\n");
    assert_eq!(p.total_character_count, 21);
    assert_eq!(p.total_word_count, 8);
    assert_eq!(p.line_count, 3);
    assert_eq!(p.english_character_count, 4);
}

#[test]
fn empty_text_has_no_lines() {
    let mut p = DocumentProperties::default();
    p.calculate_character_counts("");
    assert_eq!((p.total_character_count, p.total_word_count, p.line_count), (0, 0, 0));
    p.calculate_character_counts("\n\n");
    assert_eq!(p.line_count, 2);
    assert_eq!(p.total_word_count, 0);
}

#[test]
fn properties_setters_stamp_revisions() {
    let mut p = DocumentProperties::new();
    assert_eq!(p.revision_number, 1);
    assert!(p.compressed);
    assert!(p.creation_date.is_some());
    p.set_title("T".to_string());
    p.set_read_only(true);
    assert_eq!(p.document_title.as_deref(), Some("T"));
    assert!(p.read_only);
    assert_eq!(p.revision_number, 3);
    p.mark_printed();
    assert!(p.last_print_date.is_some());
}

#[test]
fn properties_bytes_and_record() {
    let mut p = DocumentProperties::default();
    p.section_count = 2;
    p.line_count = 7;
    p.compressed = true;
    p.read_only = true;
    let b = p.to_bytes();
    assert_eq!(b.len(), 14 + 4 * 14);
    assert_eq!(&b[0..2], &[2, 0]);
    assert_eq!(&b[b.len() - 4..], &[6, 0, 0, 0]);
    let back = DocumentProperties::from_record(&record(0x10, b[..58].to_vec())).unwrap();
    assert_eq!(back.section_count, 2);
    assert_eq!(back.line_count, 7);
    let short = DocumentProperties::from_record(&record(0x10, vec![5, 0, 1])).unwrap();
    assert_eq!(short.section_count, 5);
    assert_eq!(short.page_start_number, 0);
}

fn packed(tag: u16, data: &[u8]) -> Vec<u8> {
    let h: u32 = (tag as u32) | ((data.len() as u32) << 20);
    let mut v = h.to_le_bytes().to_vec();
    v.extend_from_slice(data);
    v
}

#[test]
fn doc_info_reads_records_in_order() {
    let mut stream = Vec::new();
    stream.extend(packed(0x10, &[1, 0]));
    stream.extend(packed(0x16, &[1, 0, 0, 0, 10, 0, 0, 0, 1, 2]));
    stream.extend(packed(0x16, &[2, 0, 0, 0]));
    stream.extend(packed(0x99, &[1, 2, 3]));
    stream.extend(packed(0x10, &[3, 0]));
    stream.extend(vec![0xFF, 0xFF]);
    let info = DocInfoParser::parse(stream, false).unwrap();
    assert_eq!(info.properties.unwrap().section_count, 3);
    assert_eq!(info.tab_defs.len(), 2);
    assert_eq!(info.tab_defs[0].properties, 1);
    assert_eq!(info.tab_defs[0].tabs.len(), 1);
    assert_eq!(info.tab_defs[1].tabs.len(), 0);
    assert!(info.face_names.is_empty());
}

#[test]
fn doc_info_fails_on_unreadable_record() {
    let stream = packed(0x15, &[0u8; 10]);
    assert!(DocInfoParser::parse(stream, false).is_err());
}

#[test]
fn doc_info_stops_at_truncated_record() {
    let mut stream = packed(0x10, &[4, 0]);
    let mut bad = packed(0x15, &[0u8; 80]);
    bad.truncate(20);
    stream.extend(bad);
    let info = DocInfoParser::parse(stream, false).unwrap();
    assert_eq!(info.properties.unwrap().section_count, 4);
    assert!(info.char_shapes.is_empty());
}

#[test]
fn doc_info_uncompressed_fallback() {
    // Bytes that inflate as neither raw DEFLATE nor zlib are read as they are.
    let stream = packed(0x10, &[9, 0]);
    let info = DocInfoParser::parse(stream, true).unwrap();
    assert_eq!(info.properties.unwrap().section_count, 9);
}

fn bin_data_record(properties: u16, extension: &str, content: &[u8]) -> Record {
    let mut d = properties.to_le_bytes().to_vec();
    d.extend_from_slice(&[0, 0, 0, 0]);
    d.extend_from_slice(&7u16.to_le_bytes());
    let ext: Vec<u16> = extension.encode_utf16().collect();
    d.extend_from_slice(&(ext.len() as u16).to_le_bytes());
    for u in ext {
        d.extend_from_slice(&u.to_le_bytes());
    }
    d.extend_from_slice(content);
    Record { header: RecordHeader { tag_id: 0x12, level: 0, size: d.len() as u32 }, data: d }
}

#[test]
fn bin_data_entries() {
    let content: Vec<u8> = (0..300u32).map(|i| (i % 5) as u8).collect();
    let packed = hwpers::writer::serializer::compress_data(&content).unwrap();
    let b = BinData::from_record(&bin_data_record(0x0005, "PNG", &packed)).unwrap();
    assert_eq!(b.bin_id, 7);
    assert_eq!(b.extension, "PNG");
    assert_eq!(b.get_type(), BinDataType::Embedding);
    assert!(b.is_compressed());
    assert!(!b.is_access_by_path());
    assert!(b.is_image());
    assert!(!b.is_ole_object());
    assert_eq!(b.get_data().unwrap(), content);

    let ole = BinData::from_record(&bin_data_record(0x0002, "OLE", &[1, 2, 3])).unwrap();
    assert_eq!(ole.get_type(), BinDataType::Storage);
    assert!(ole.is_ole_object());
    assert!(!ole.is_image());
    assert_eq!(ole.get_data().unwrap(), vec![1, 2, 3]);

    let txt = BinData::from_record(&bin_data_record(0x0003, "Txt", &[])).unwrap();
    assert_eq!(txt.get_type(), BinDataType::Link);
    assert!(!txt.is_image() && !txt.is_ole_object());

    assert!(BinData::from_record(&Record { header: RecordHeader { tag_id: 0x12, level: 0, size: 5 }, data: vec![0; 5] }).is_err());
}

#[test]
fn para_text_supplementary_characters() {
    // U+1F600 as a surrogate pair, between two letters; a lone high surrogate is dropped.
    let data = units(&[0x41, 0xD83D, 0xDE00, 0x42, 0xD800]);
    let t = ParaText::from_record(&record(0x50, data.clone())).unwrap();
    assert_eq!(t.content, "A\u{1F600}B");
    let t = ParaText::from_record(&record(0x43, data)).unwrap();
    assert_eq!(t.content, "A\u{1F600}B");
}

#[test]
fn para_text_form_field_mark_skipped() {
    let t = ParaText::from_record(&record(0x43, units(&[0x41, 0x264, 0x100, 0x42]))).unwrap();
    assert_eq!(t.content, "AB");
    let t = ParaText::from_record(&record(0x43, units(&[0x480, 0x100]))).unwrap();
    assert_eq!(t.content, "");
    // without the second unit it is an ordinary character
    let t = ParaText::from_record(&record(0x43, units(&[0x264, 0x42]))).unwrap();
    assert_eq!(t.content, "\u{264}B");
}

fn border_fill_data(fill_type: u32, extra: usize) -> Vec<u8> {
    let mut d = vec![0u8; 2 + 30];
    d.extend_from_slice(&fill_type.to_le_bytes());
    d.extend_from_slice(&[0u8; 12]);
    d.extend((0..extra).map(|i| i as u8 + 1));
    d
}

#[test]
fn gradient_read_only_when_whole() {
    let b = BorderFill::from_record(&record(0x14, border_fill_data(0x08, 16))).unwrap();
    assert_eq!(b.fill_info.fill_type, 0x08);
    assert!(b.fill_info.gradient_info.is_none());
    let b = BorderFill::from_record(&record(0x14, border_fill_data(0x08, 17))).unwrap();
    let g = b.fill_info.gradient_info.unwrap();
    assert_eq!(g.gradient_type, 1);
    assert_eq!(g.blur_degree, u16::from_le_bytes([16, 17]));
}

#[test]
fn unicode_spaces_count_as_spaces() {
    let mut p = DocumentProperties::default();
    p.calculate_character_counts("a\u{3000}b\u{00A0}c\u{200B}");
    // ideographic and no-break spaces are White_Space; the zero-width space is not
    assert_eq!(p.space_character_count, 2);
    assert_eq!(p.total_word_count, 3);
    assert_eq!(p.total_character_count, 6);
}

#[test]
fn new_properties_take_the_clock() {
    let p = DocumentProperties::new();
    assert_eq!(p.creation_date, p.last_modified_date);
    let t = p.creation_date.expect("the test machine's clock is after 1970");
    assert!(t.seconds > 1_500_000_000);
    assert!(t.nanoseconds < 1_000_000_000);
    assert!(p.last_print_date.is_none());
}

#[test]
fn utf16_decoding_strict_and_lossy() {
    let ok = hwpers::utils::encoding::utf16_to_string(&[0x41, 0xD83D, 0xDE00]);
    assert_eq!(ok.as_deref(), Some("A\u{1F600}"));
    assert_eq!(hwpers::utils::encoding::utf16_to_string(&[0x41, 0xDE00]), None);
    assert_eq!(hwpers::utils::encoding::utf16_to_string(&[0xD83D]), None);
    assert_eq!(hwpers::utils::encoding::utf16_to_string(&[]).as_deref(), Some(""));
    let lossy = hwpers::preview::preview_text::PreviewText::from_bytes(&units(&[0x41, 0xDE00, 0x42])).unwrap();
    assert_eq!(lossy.content, "A\u{FFFD}B");
}
