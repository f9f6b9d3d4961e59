use hwpers::preview::{ImageFormat, PreviewImage, PreviewText, SummaryInfo};

#[test]
fn test_detect_png() {
    let png_header = vec![0x89, 0x50, 0x4E, 0x47, 0x0D, 0x0A, 0x1A, 0x0A, 0x00];
    let img = PreviewImage::from_bytes(png_header);
    assert_eq!(img.format, ImageFormat::Png);
    assert_eq!(img.extension(), "png");
}

#[test]
fn test_detect_gif() {
    let gif_header = b"GIF89a\x00\x00".to_vec();
    let img = PreviewImage::from_bytes(gif_header);
    assert_eq!(img.format, ImageFormat::Gif);
}

#[test]
fn test_detect_bmp() {
    let bmp_header = vec![0x42, 0x4D, 0x00, 0x00, 0x00, 0x00, 0x00, 0x00];
    let img = PreviewImage::from_bytes(bmp_header);
    assert_eq!(img.format, ImageFormat::Bmp);
}

#[test]
fn test_detect_unknown() {
    let unknown = vec![0x00, 0x01, 0x02, 0x03];
    let img = PreviewImage::from_bytes(unknown);
    assert_eq!(img.format, ImageFormat::Unknown);
}

#[test]
fn test_empty_preview_text() {
    let result = PreviewText::from_bytes(&[]).unwrap();
    assert!(result.is_empty());
}

#[test]
fn test_utf16le_decode() {
    let data: Vec<u8> = "Hello".encode_utf16().flat_map(|c| c.to_le_bytes()).collect();
    let result = PreviewText::from_bytes(&data).unwrap();
    assert_eq!(result.text(), "Hello");
}

#[test]
fn test_empty_summary_info() {
    let result = SummaryInfo::from_bytes(&[]);
    assert!(result.is_err());
}

#[test]
fn test_invalid_byte_order() {
    let data = vec![0x00, 0x00];
    let result = SummaryInfo::from_bytes(&data);
    assert!(result.is_err());
}

#[test]
fn test_minimal_valid_header() {
    let mut data = vec![0xFE, 0xFF];
    data.extend(vec![0u8; 46]);
    let result = SummaryInfo::from_bytes(&data);
    assert!(result.is_ok());
    assert!(!result.unwrap().has_metadata());
}

#[test]
fn gif87_and_short_data() {
    assert_eq!(PreviewImage::from_bytes(b"GIF87a\x01\x02".to_vec()).format, ImageFormat::Gif);
    // A PNG signature under eight bytes long is not recognised.
    assert_eq!(PreviewImage::from_bytes(vec![0x89, 0x50, 0x4E, 0x47]).format, ImageFormat::Unknown);
    let img = PreviewImage::from_bytes(vec![1, 2, 3, 4, 5, 6, 7, 8]);
    assert_eq!(img.extension(), "bin");
    assert_eq!(img.bytes(), &[1, 2, 3, 4, 5, 6, 7, 8]);
    assert!(!img.is_empty());
    assert!(PreviewImage::from_bytes(vec![]).is_empty());
}

#[test]
fn preview_text_odd_length_is_refused() {
    assert!(matches!(PreviewText::from_bytes(&[0x41]), Err(hwpers::HwpError::ParseError(_))));
}

#[test]
fn preview_text_drops_trailing_nuls_and_replaces_bad_units() {
    let data = [0x41, 0x00, 0x00, 0xD8, 0x42, 0x00, 0x00, 0x00, 0x00, 0x00];
    let t = PreviewText::from_bytes(&data).unwrap();
    assert_eq!(t.text(), "A\u{FFFD}B");
}

#[test]
fn summary_bad_byte_order_message() {
    let mut data = vec![0x34, 0x12];
    data.extend(vec![0u8; 30]);
    match SummaryInfo::from_bytes(&data) {
        Err(hwpers::HwpError::ParseError(m)) => assert_eq!(m, "Invalid OLE property byte order: 0x1234"),
        _ => panic!("expected a parse error"),
    }
}

fn push_u32(v: &mut Vec<u8>, x: u32) {
    v.extend_from_slice(&x.to_le_bytes());
}

fn summary_with_properties() -> Vec<u8> {
    let mut d = vec![0xFE, 0xFF];
    d.extend(vec![0u8; 42]);
    push_u32(&mut d, 48); // section offset
    // Section at 48: size, count, then entries (id, offset from section).
    push_u32(&mut d, 0);
    push_u32(&mut d, 4);
    let entries_end = 8 + 4 * 8;
    push_u32(&mut d, 2); // title
    push_u32(&mut d, entries_end);
    push_u32(&mut d, 0x0E); // page count
    push_u32(&mut d, entries_end + 16);
    push_u32(&mut d, 0x0C); // creation date
    push_u32(&mut d, entries_end + 24);
    push_u32(&mut d, 4); // author, value out of range: skipped
    push_u32(&mut d, 100000);
    // title: VT_LPSTR, length 6, "Hello\0"
    push_u32(&mut d, 0x1E);
    push_u32(&mut d, 6);
    d.extend_from_slice(b"Hello\0");
    d.extend_from_slice(&[0, 0]);
    // page count: VT_I4 = -3
    push_u32(&mut d, 3);
    push_u32(&mut d, (-3i32) as u32);
    // creation date: VT_FILETIME low, high
    push_u32(&mut d, 0x40);
    push_u32(&mut d, 0x89ABCDEF);
    push_u32(&mut d, 0x01234567);
    d
}

#[test]
fn summary_reads_properties() {
    let info = SummaryInfo::from_bytes(&summary_with_properties()).unwrap();
    assert_eq!(info.title.as_deref(), Some("Hello"));
    assert_eq!(info.page_count, Some(-3));
    assert_eq!(info.creation_date, Some(0x0123_4567_89AB_CDEF));
    assert_eq!(info.author, None);
    assert!(info.has_metadata());
}

#[test]
fn summary_section_beyond_data_gives_nothing() {
    let mut d = vec![0xFE, 0xFF];
    d.extend(vec![0u8; 42]);
    push_u32(&mut d, 1000);
    let info = SummaryInfo::from_bytes(&d).unwrap();
    assert!(!info.has_metadata());
    assert_eq!(info.page_count, None);
}
