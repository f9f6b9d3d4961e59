use hwpers::parser::header::FileHeader;
use hwpers::reader::compound::read_document;
use hwpers::writer::serializer::write_record;
use hwpers::HwpError;
use std::io::{Cursor, Write};

fn compound(streams: &[(&str, Vec<u8>)]) -> Vec<u8> {
    let mut file = cfb::CompoundFile::create(Cursor::new(Vec::new())).unwrap();
    file.create_storage("/BodyText").unwrap();
    for (name, data) in streams {
        let mut s = file.create_stream(name).unwrap();
        s.write_all(data).unwrap();
    }
    file.flush().unwrap();
    file.into_inner().into_inner()
}

fn header(compressed: bool, encrypted: bool) -> Vec<u8> {
    let mut h = FileHeader::new_default();
    h.set_compressed(compressed);
    h.set_encrypted(encrypted);
    h.to_bytes()
}

fn doc_info_with_one_face() -> Vec<u8> {
    let mut d = Vec::new();
    let mut face = vec![0u8];
    face.extend_from_slice(&2u16.to_le_bytes());
    face.extend_from_slice(&[0x41, 0, 0x42, 0]);
    write_record(&mut d, 0x13, 1, &face);
    d
}

#[test]
fn reads_header_definitions_and_sections() {
    let bytes = compound(&[
        ("/FileHeader", header(false, false)),
        ("/DocInfo", doc_info_with_one_face()),
        ("/BodyText/Section0", vec![1, 2, 3]),
        ("/BodyText/Section1", vec![4]),
        ("/BodyText/Section3", vec![9]),
    ]);
    let doc = read_document(&bytes).unwrap();
    assert!(!doc.header.is_compressed());
    assert_eq!(doc.doc_info.face_names.len(), 1);
    assert_eq!(doc.doc_info.face_names[0].font_name, "AB");
    // numbering stops at the first missing section
    assert_eq!(doc.sections, vec![vec![1, 2, 3], vec![4]]);
}

#[test]
fn compressed_definitions_are_inflated() {
    let packed = hwpers::writer::serializer::compress_data(&doc_info_with_one_face()).unwrap();
    let bytes = compound(&[
        ("/FileHeader", header(true, false)),
        ("/DocInfo", packed),
        ("/BodyText/Section0", vec![]),
    ]);
    let doc = read_document(&bytes).unwrap();
    assert!(doc.header.is_compressed());
    assert_eq!(doc.doc_info.face_names[0].font_name, "AB");
    assert_eq!(doc.sections, vec![Vec::<u8>::new()]);
}

#[test]
fn read_document_errors() {
    assert!(matches!(read_document(&[0u8; 600]), Err(HwpError::Cfb(_))));
    let no_header = compound(&[("/DocInfo", vec![])]);
    assert!(matches!(read_document(&no_header), Err(HwpError::NotFound(_))));
    let bad_header = compound(&[("/FileHeader", vec![0u8; 256])]);
    assert!(matches!(read_document(&bad_header), Err(HwpError::InvalidFormat(_))));
    let encrypted = compound(&[("/FileHeader", header(false, true)), ("/DocInfo", vec![])]);
    assert!(matches!(read_document(&encrypted), Err(HwpError::UnsupportedVersion(_))));
    let no_doc_info = compound(&[("/FileHeader", header(false, false))]);
    assert!(matches!(read_document(&no_doc_info), Err(HwpError::NotFound(_))));
    let no_sections = compound(&[("/FileHeader", header(false, false)), ("/DocInfo", vec![])]);
    assert!(matches!(read_document(&no_sections), Err(HwpError::InvalidFormat(_))));
}
