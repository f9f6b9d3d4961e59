use hwpers::parser::header::FileHeader;

#[test]
fn test_file_header_signature() {
    let signature = b"HWP Document File";
    assert_eq!(signature.len(), 17);
}

#[test]
fn default_header_roundtrip() {
    let mut h = FileHeader::new_default();
    assert!(h.is_compressed());
    assert!(!h.is_encrypted());
    assert_eq!(h.version_string(), "5.5.1.20");
    h.set_encrypted(true);
    h.set_version(5, 1, 0, 3);
    let bytes = h.to_bytes();
    assert_eq!(bytes.len(), 256);
    assert_eq!(&bytes[0..17], b"HWP Document File");
    let back = FileHeader::parse(bytes).unwrap();
    assert!(back.is_encrypted());
    assert!(back.is_compressed());
    assert_eq!(back.version_string(), "5.1.0.3");
}

#[test]
fn header_parse_errors() {
    assert!(matches!(FileHeader::parse(vec![0u8; 100]), Err(hwpers::HwpError::InvalidFormat(_))));
    assert!(matches!(FileHeader::parse(vec![0u8; 256]), Err(hwpers::HwpError::InvalidFormat(_))));
}

#[test]
fn set_compressed_clears_only_its_bit() {
    let mut h = FileHeader::new_default();
    h.set_encrypted(true);
    h.set_compressed(false);
    assert!(!h.is_compressed());
    assert!(h.is_encrypted());
}
