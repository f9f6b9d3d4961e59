use hwpers::model::numbering::{Bullet, ImageBullet, Numbering, NumberingLevel};
use hwpers::model::{CharShape, FaceName, ParaShape, ParaText, Paragraph, Section};
use hwpers::parser::doc_info::{DocInfo, DocInfoParser};
use hwpers::parser::header::FileHeader;
use hwpers::parser::record::{Record, RecordHeader};
use hwpers::reader::compound::read_document;
use hwpers::utils::compression::decompress_stream;
use hwpers::writer::document::serialize_document;
use hwpers::writer::serializer::{serialize_body_text, serialize_char_shape, serialize_doc_info};
use hwpers::HwpError;
use std::io::{Cursor, Write};

fn record(tag_id: u16, data: Vec<u8>) -> Record {
    Record { header: RecordHeader { tag_id, level: 0, size: data.len() as u32 }, data }
}

fn info() -> DocInfo {
    let mut d = DocInfo::default();
    d.face_names.push(FaceName::new_default("Batang".to_string()));
    d.char_shapes.push(CharShape::new_default());
    d.para_shapes.push(ParaShape::new_default());
    d
}

fn section(text: &str) -> Section {
    let mut p = Paragraph::default();
    p.text = Some(ParaText { content: text.to_string() });
    let mut s = Section::default();
    s.paragraphs.push(p);
    s
}

#[test]
fn compressed_document_written_reads_back() {
    let header = FileHeader::new_default();
    assert!(header.is_compressed());
    let sections = vec![section("Hello"), section("World")];
    let bytes = serialize_document(&header, &info(), &sections).unwrap();
    let doc = read_document(&bytes).unwrap();
    assert!(doc.header.is_compressed());
    assert_eq!(doc.header.version, header.version);
    assert_eq!(doc.doc_info.face_names.len(), 1);
    assert_eq!(doc.doc_info.face_names[0].font_name, "Batang");
    assert_eq!(doc.doc_info.char_shapes.len(), 1);
    assert_eq!(doc.doc_info.char_shapes[0].base_size, 1200);
    assert_eq!(doc.doc_info.para_shapes.len(), 1);
    assert_eq!(doc.sections.len(), 2);
    for i in 0..2 {
        let raw = decompress_stream(&doc.sections[i]).unwrap();
        assert_eq!(raw, serialize_body_text(&sections[i..i + 1]).unwrap());
    }
}

#[test]
fn uncompressed_document_written_reads_back() {
    let mut header = FileHeader::new_default();
    header.set_compressed(false);
    let sections = vec![section("One")];
    let bytes = serialize_document(&header, &info(), &sections).unwrap();
    let doc = read_document(&bytes).unwrap();
    assert!(!doc.header.is_compressed());
    assert_eq!(doc.sections, vec![serialize_body_text(&sections).unwrap()]);
    assert_eq!(doc.doc_info.face_names[0].font_name, "Batang");
}

#[test]
fn doc_info_written_parses_back() {
    let bytes = serialize_doc_info(&info()).unwrap();
    let parsed = DocInfoParser::parse(bytes, false).unwrap();
    assert_eq!(parsed.face_names.len(), 1);
    assert_eq!(parsed.face_names[0].font_name, "Batang");
    assert_eq!(parsed.char_shapes.len(), 1);
    assert_eq!(parsed.para_shapes.len(), 1);
    assert_eq!(parsed.para_shapes[0].line_space, 160);
    assert!(parsed.properties.is_some());
}

#[test]
fn char_shape_written_reads_back() {
    let mut c = CharShape::new_default();
    c.base_size = 1000;
    c.text_color = 0x00FF_0000;
    c.properties = 0x3;
    let bytes = serialize_char_shape(&c).unwrap();
    let back = CharShape::from_record(&record(0x15, bytes)).unwrap();
    assert_eq!(back.base_size, 1000);
    assert_eq!(back.text_color, 0x00FF_0000);
    assert_eq!(back.properties, 0x3);
    assert_eq!(back.face_name_ids, c.face_name_ids);
    assert!(back.is_bold() && back.is_italic());
}

#[test]
fn numbering_written_reads_back() {
    let level = NumberingLevel {
        para_shape_id: 3,
        number_format: 1,
        number_type: 0,
        prefix_text: "(".to_string(),
        suffix_text: ")".to_string(),
        auto_indent: 1,
        text_offset_type: 0,
        width_adjust_type: 0,
        text_offset: -50,
        number_width: 400,
        char_shape_id: 2,
    };
    let n = Numbering { levels: vec![level] };
    let back = Numbering::from_record(&record(0x17, n.to_bytes())).unwrap();
    assert_eq!(back.levels.len(), 1);
    let l = &back.levels[0];
    assert_eq!((l.para_shape_id, l.prefix_text.as_str(), l.suffix_text.as_str()), (3, "(", ")"));
    assert_eq!((l.text_offset, l.number_width, l.char_shape_id), (-50, 400, 2));
}

#[test]
fn bullet_written_reads_back() {
    let b = Bullet {
        para_shape_id: 1,
        bullet_char: "•".to_string(),
        char_shape_id: 4,
        use_image: true,
        image_bullet: Some(ImageBullet { image_width: 10, image_height: 12, bin_data_id: 7 }),
    };
    let back = Bullet::from_record(&record(0x18, b.to_bytes())).unwrap();
    assert_eq!((back.para_shape_id, back.bullet_char.as_str(), back.char_shape_id), (1, "•", 4));
    let im = back.image_bullet.unwrap();
    assert_eq!((im.image_width, im.image_height, im.bin_data_id), (10, 12, 7));
}

#[test]
fn section_entry_that_is_no_stream_is_not_found() {
    let mut file = cfb::CompoundFile::create(Cursor::new(Vec::new())).unwrap();
    let mut h = file.create_stream("/FileHeader").unwrap();
    h.write_all(&hwpers::parser::header::FileHeader::new_default().to_bytes()).unwrap();
    drop(h);
    let mut d = file.create_stream("/DocInfo").unwrap();
    d.write_all(&hwpers::writer::serializer::compress_data(&[]).unwrap()).unwrap();
    drop(d);
    file.create_storage("/BodyText").unwrap();
    file.create_storage("/BodyText/Section0").unwrap();
    file.flush().unwrap();
    let bytes = file.into_inner().into_inner();
    assert!(matches!(read_document(&bytes), Err(HwpError::NotFound(_))));
}
