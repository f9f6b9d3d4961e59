use hwpers::model::{
    HeaderFooterAlignment, HeaderFooterType, Hyperlink, HyperlinkDisplay, HyperlinkType, PageApplyType, PageDef,
    PageLayout, PageMargins, PageNumberFormat, PageOrientation, PaperSize, TextBox, TextBoxAlignment, TextBoxBorderStyle, TextBoxFillType,
};
use hwpers::parser::record::{Record, RecordHeader};

fn record(tag_id: u16, data: Vec<u8>) -> Record {
    Record { header: RecordHeader { tag_id, level: 0, size: data.len() as u32 }, data }
}

#[test]
fn header_footer_test_test_header_footer_serialization() {
    let header = hwpers::model::HeaderFooter::new_header("Test Header")
        .with_page_number(PageNumberFormat::Numeric)
        .with_alignment(HeaderFooterAlignment::Center)
        .with_apply_type(PageApplyType::All);

    let bytes = header.to_bytes();

    assert!(!bytes.is_empty());

    assert_eq!(bytes[0], 0);
    assert_eq!(bytes[1], 0);
    assert_eq!(bytes[2], 1);
    assert_eq!(bytes[3], 1);
    assert_eq!(bytes[4], 1);
}

#[test]
fn test_predefined_hyperlink_styles() {
    let web_link = Hyperlink::web_link("Web", "https://example.com");
    assert_eq!(web_link.hyperlink_type, HyperlinkType::Url);
    assert_eq!(web_link.text_color, 0x0000FF);
    assert!(web_link.underline);

    let email_link = Hyperlink::email_link("Email", "test@example.com");
    assert_eq!(email_link.hyperlink_type, HyperlinkType::Email);
    assert_eq!(email_link.target_url, "mailto:test@example.com");

    let file_link = Hyperlink::file_link("File", "/path/to/file");
    assert_eq!(file_link.hyperlink_type, HyperlinkType::File);
    assert_eq!(file_link.text_color, 0x008000);

    let internal_link = Hyperlink::internal_link("Internal", "bookmark");
    assert_eq!(internal_link.hyperlink_type, HyperlinkType::Bookmark);
    assert_eq!(internal_link.target_url, "#bookmark");
    assert_eq!(internal_link.text_color, 0x800080);

    let plain_link = Hyperlink::plain_link("Plain", "https://example.com");
    assert!(!plain_link.underline);

    let external_link = Hyperlink::external_link("External", "https://example.com");
    assert!(external_link.open_in_new_window);
}

#[test]
fn test_text_box_serialization() {
    let text_box = TextBox::new("Test serialization")
        .with_position_mm(10, 20)
        .with_size_mm(50, 30)
        .with_alignment(TextBoxAlignment::Center)
        .with_border(TextBoxBorderStyle::Solid, 2, 0x000000)
        .with_background(0xFFFFFF);

    let bytes = text_box.to_bytes();

    assert!(!bytes.is_empty());

    let mut record_data = Vec::new();
    record_data.extend_from_slice(&bytes);

    let header = RecordHeader { tag_id: 0x7874, level: 0, size: record_data.len() as u32 };
    let record = Record { header, data: record_data };
    let parsed_text_box = TextBox::from_record(&record).unwrap();

    assert_eq!(parsed_text_box.text, text_box.text);
    assert_eq!(parsed_text_box.x, text_box.x);
    assert_eq!(parsed_text_box.y, text_box.y);
    assert_eq!(parsed_text_box.width, text_box.width);
    assert_eq!(parsed_text_box.height, text_box.height);
    assert_eq!(parsed_text_box.alignment, text_box.alignment);
}

#[test]
fn test_paper_size_names() {
    assert_eq!(PaperSize::A4.name(), "A4");
    assert_eq!(PaperSize::A3.name(), "A3");
    assert_eq!(PaperSize::A5.name(), "A5");
    assert_eq!(PaperSize::Letter.name(), "Letter");
    assert_eq!(PaperSize::Legal.name(), "Legal");
    assert_eq!(PaperSize::Tabloid.name(), "Tabloid");
    assert_eq!(PaperSize::B4.name(), "B4");
    assert_eq!(PaperSize::B5.name(), "B5");
    assert_eq!(PaperSize::Custom.name(), "Custom");
}

#[test]
fn hyperlink_builders() {
    let h = Hyperlink::new_email("Mail", "mailto:a@b.c");
    assert_eq!(h.target_url, "mailto:a@b.c");
    let h = Hyperlink::new_email("Mail", "a@b.c").with_position(5).with_length(2).with_tooltip("tip");
    assert_eq!(h.target_url, "mailto:a@b.c");
    assert_eq!(h.start_position, 5);
    assert_eq!(h.length, 2);
    assert_eq!(h.tooltip.as_deref(), Some("tip"));
    let h = Hyperlink::new_url("한글", "x");
    assert_eq!(h.length, 2);
    let h = Hyperlink::new_bookmark("B", "sec").with_display_mode(HyperlinkDisplay::Both).with_visited_color(1);
    assert_eq!(h.target_url, "#sec");
    assert_eq!(h.display_mode, HyperlinkDisplay::Both);
    assert_eq!(h.visited_color, 1);
    let d = Hyperlink::default();
    assert_eq!(d.text_color, 0x0000FF);
    assert_eq!(d.visited_color, 0x800080);
    assert!(d.underline);
}

#[test]
fn hyperlink_to_bytes_layout() {
    let h = Hyperlink::new_file("ab", "c").with_new_window(true).with_tooltip("t");
    let b = h.to_bytes();
    assert_eq!(b[0], 2);
    assert_eq!(b[1], 0);
    assert_eq!(&b[2..6], &[0xFF, 0, 0, 0]);
    assert_eq!(b[10], 0x01 | 0x04);
    assert_eq!(&b[15..19], &[2, 0, 0, 0]);
    assert_eq!(&b[19..21], &[2, 0]);
    assert_eq!(&b[21..25], &[b'a', 0, b'b', 0]);
    assert_eq!(&b[25..27], &[1, 0]);
    assert_eq!(&b[27..29], &[b'c', 0]);
    assert_eq!(&b[29..31], &[1, 0]);
    assert_eq!(b.len(), 33);
    let no_tip = Hyperlink::new_url("", "").to_bytes();
    assert_eq!(&no_tip[no_tip.len() - 2..], &[0, 0]);
}

fn utf16(s: &str) -> Vec<u8> {
    s.encode_utf16().flat_map(|c| c.to_le_bytes()).collect()
}

fn hyperlink_record(code: u8, display: &str, url: &str, tooltip: Option<&str>) -> Vec<u8> {
    let mut d = vec![code, 0];
    d.extend_from_slice(&0x0000FFu32.to_le_bytes());
    d.extend_from_slice(&0x800080u32.to_le_bytes());
    d.push(1);
    d.extend_from_slice(&0u32.to_le_bytes());
    d.extend_from_slice(&7u32.to_le_bytes());
    d.extend_from_slice(&((display.encode_utf16().count()) as u16).to_le_bytes());
    d.extend(utf16(display));
    d.extend_from_slice(&((url.encode_utf16().count()) as u16).to_le_bytes());
    d.extend(utf16(url));
    if let Some(t) = tooltip {
        d.extend_from_slice(&((t.encode_utf16().count()) as u16).to_le_bytes());
        d.extend(utf16(t));
    }
    d
}

#[test]
fn hyperlink_from_record_reads_texts_and_type() {
    let r = record(0, hyperlink_record(1, "Mail me", "mailto:x@y.z", Some("tip")));
    let h = Hyperlink::from_record(&r).unwrap();
    assert_eq!(h.display_text, "Mail me");
    assert_eq!(h.target_url, "mailto:x@y.z");
    assert_eq!(h.hyperlink_type, HyperlinkType::Email);
    assert_eq!(h.tooltip.as_deref(), Some("tip"));
    assert_eq!(h.length, 7);
    assert!(h.underline && !h.visited && !h.open_in_new_window);

    // unknown type codes are judged from the target
    let r = record(0, hyperlink_record(9, "d", "C:\\doc.hwp", None));
    let h = Hyperlink::from_record(&r).unwrap();
    assert_eq!(h.hyperlink_type, HyperlinkType::File);
    assert_eq!(h.tooltip, None);
    let r = record(0, hyperlink_record(9, "d", "#mark", None));
    assert_eq!(Hyperlink::from_record(&r).unwrap().hyperlink_type, HyperlinkType::Bookmark);
    let r = record(0, hyperlink_record(3, "d", "ftp://host", None));
    assert_eq!(Hyperlink::from_record(&r).unwrap().hyperlink_type, HyperlinkType::Bookmark);
}

#[test]
fn hyperlink_from_record_errors() {
    assert!(matches!(Hyperlink::from_record(&record(0, vec![0u8; 20])), Err(hwpers::HwpError::InvalidFormat(_))));
    // A display text longer than the record.
    let mut d = hyperlink_record(0, "", "", None);
    d[19] = 10;
    assert!(matches!(Hyperlink::from_record(&record(0, d)), Err(hwpers::HwpError::InvalidFormat(_))));
    // The record ends before the target's count.
    let d = hyperlink_record(0, "ab", "", None);
    assert!(Hyperlink::from_record(&record(0, d[..25].to_vec())).is_err());
    // A target longer than the record.
    let mut d = hyperlink_record(0, "ab", "", None);
    d[25] = 3;
    assert!(Hyperlink::from_record(&record(0, d)).is_err());
}

#[test]
fn hyperlink_text_stops_at_nul() {
    let mut d = hyperlink_record(0, "ab\0c", "", None);
    d.extend_from_slice(&0u16.to_le_bytes());
    let h = Hyperlink::from_record(&record(0, d)).unwrap();
    assert_eq!(h.display_text, "ab");
    assert_eq!(h.target_url, "");
    assert_eq!(h.tooltip, None);
}

#[test]
fn hyperlink_test_test_hyperlink_serialization() {
    let hyperlink = Hyperlink::new_url("Test Link", "https://test.com")
        .with_tooltip("Click to visit test site")
        .with_text_color(0x0000FF)
        .with_underline(true)
        .with_new_window(true);

    let bytes = hyperlink.to_bytes();
    assert!(!bytes.is_empty());

    let header = RecordHeader { tag_id: 0x6C6E, level: 0, size: bytes.len() as u32 };
    let record = Record { header, data: bytes };
    let parsed_hyperlink = Hyperlink::from_record(&record).unwrap();

    assert_eq!(parsed_hyperlink.display_text, hyperlink.display_text);
    assert_eq!(parsed_hyperlink.target_url, hyperlink.target_url);
    assert_eq!(parsed_hyperlink.hyperlink_type, hyperlink.hyperlink_type);
    assert_eq!(parsed_hyperlink.text_color, hyperlink.text_color);
    assert_eq!(parsed_hyperlink.underline, hyperlink.underline);
    assert_eq!(parsed_hyperlink.open_in_new_window, hyperlink.open_in_new_window);
    assert_eq!(parsed_hyperlink.tooltip, hyperlink.tooltip);
}

#[test]
fn hyperlink_roundtrip_of_every_field() {
    let h = Hyperlink::new_email("메일", "a@b.c")
        .with_position(12)
        .with_length(3)
        .with_display_mode(hwpers::model::HyperlinkDisplay::Both)
        .with_visited_color(0x123456)
        .with_underline(false);
    let mut h = h;
    h.visited = true;
    let back = Hyperlink::from_record(&record(0, h.to_bytes())).unwrap();
    assert_eq!(back.hyperlink_type, HyperlinkType::Email);
    assert_eq!(back.display_mode, hwpers::model::HyperlinkDisplay::Both);
    assert_eq!(back.display_text, "메일");
    assert_eq!(back.target_url, "mailto:a@b.c");
    assert_eq!((back.start_position, back.length), (12, 3));
    assert_eq!(back.visited_color, 0x123456);
    assert!(!back.underline && back.visited && !back.open_in_new_window);
    assert_eq!(back.tooltip, None);
}

#[test]
fn text_box_presets() {
    let b = TextBox::basic("x");
    assert_eq!(b.fill_type, TextBoxFillType::Solid);
    assert_eq!(b.background_color, 0xFFFFFF);
    let b = TextBox::highlight("x");
    assert_eq!(b.border_width, 2);
    assert_eq!(b.background_color, 0xFFFF00);
    let b = TextBox::warning("x");
    assert_eq!(b.border_color, 0xFF0000);
    let b = TextBox::info("x");
    assert_eq!(b.background_color, 0xE0E0FF);
    let b = TextBox::transparent("x");
    assert_eq!(b.border_style, TextBoxBorderStyle::Dashed);
    assert_eq!(b.fill_type, TextBoxFillType::NoFill);
    let b = TextBox::bubble("x");
    assert_eq!(b.padding, 500);
    let b = TextBox::new("y").with_opacity(10).with_rotation(-45).with_z_order(3).with_padding_mm(2);
    assert_eq!((b.opacity, b.rotation, b.z_order, b.padding), (10, -45, 3, 200));
    assert_eq!(b.width, 5000);
    assert_eq!(b.border_style, TextBoxBorderStyle::Solid);
}

#[test]
fn text_box_roundtrip_with_negatives() {
    let b = TextBox::new("회전").with_position_mm(-5, 7).with_rotation(-90).with_alignment(TextBoxAlignment::Absolute);
    let bytes = b.to_bytes();
    assert_eq!(bytes.len(), 41 + 4);
    let back = TextBox::from_record(&record(0, bytes)).unwrap();
    assert_eq!(back.text, "회전");
    assert_eq!(back.x, -500);
    assert_eq!(back.rotation, -90);
    assert_eq!(back.alignment, TextBoxAlignment::Absolute);
}

#[test]
fn text_box_from_record_errors() {
    assert!(matches!(TextBox::from_record(&record(0, vec![0u8; 40])), Err(hwpers::HwpError::Io(_))));
    let mut d = vec![0u8; 39];
    d.extend_from_slice(&2u16.to_le_bytes());
    d.extend_from_slice(&[0x00, 0xD8]);
    assert!(matches!(TextBox::from_record(&record(0, d.clone())), Err(hwpers::HwpError::Io(_))));
    d.extend_from_slice(&[0x41, 0x00]);
    assert!(matches!(TextBox::from_record(&record(0, d)), Err(hwpers::HwpError::InvalidFormat(_))));
}

#[test]
fn text_box_unknown_codes_take_defaults() {
    let mut d = vec![0u8; 41];
    d[16] = 9;
    d[17] = 9;
    d[23] = 9;
    let b = TextBox::from_record(&record(0, d)).unwrap();
    assert_eq!(b.alignment, TextBoxAlignment::Inline);
    assert_eq!(b.border_style, TextBoxBorderStyle::Solid);
    assert_eq!(b.fill_type, TextBoxFillType::NoFill);
    assert_eq!(b.text, "");
}

#[test]
fn page_def_defaults_and_reading() {
    let p = PageDef::from_record(&record(0x49, vec![])).unwrap();
    assert_eq!((p.width, p.height, p.left_margin, p.top_margin, p.bottom_margin), (59528, 84188, 8504, 5669, 4252));
    let mut d = Vec::new();
    for v in [60000u32, 80000, 1000, 29999, 40000, 2000] {
        d.extend_from_slice(&v.to_le_bytes());
    }
    d.extend_from_slice(&[0u8; 8]);
    let p = PageDef::from_record(&record(0x49, d)).unwrap();
    assert_eq!(p.width, 60000);
    assert_eq!(p.height, 80000);
    assert_eq!(p.left_margin, 1000);
    assert_eq!(p.right_margin, 29999);
    // 40000 is not under half of the height.
    assert_eq!(p.top_margin, 5669);
    assert_eq!(p.bottom_margin, 2000);
    assert!(!p.is_landscape());
    let mut d = Vec::new();
    for v in [0u32, 0x100000] {
        d.extend_from_slice(&v.to_le_bytes());
    }
    let p = PageDef::from_record(&record(0x49, d)).unwrap();
    assert_eq!((p.width, p.height), (59528, 84188));
}

#[test]
fn page_def_layout_and_bytes() {
    let p = PageDef::new_default();
    assert_eq!(p.effective_width(), 59528 - 2 * 8504);
    assert_eq!(p.effective_height(), 84188 - 5669 - 4252);
    let l = p.get_layout();
    assert_eq!(l.width, 59528);
    assert_eq!(l.margins.top, 5669);
    let layout = PageLayout::a4_landscape();
    let mut q = PageDef::from_layout(layout);
    assert!(q.is_landscape());
    assert_eq!(q.get_layout().orientation, hwpers::model::PageOrientation::Landscape);
    q.update_from_layout(PageLayout::letter_portrait());
    assert_eq!(q.width, 61200);
    let b = q.to_bytes();
    assert_eq!(b.len(), 44);
    assert_eq!(&b[0..4], &61200u32.to_le_bytes());
}

#[test]
fn header_footer_lookup() {
    let mut c = hwpers::model::HeaderFooterCollection::new();
    c.add_header(hwpers::model::HeaderFooter::new_header("H").with_apply_type(PageApplyType::OddPages));
    c.add_footer(hwpers::model::HeaderFooter::new_footer("F"));
    assert_eq!(c.headers().len(), 1);
    assert_eq!(c.footers().len(), 1);
    assert!(c.find_by_type(HeaderFooterType::Header, PageApplyType::OddPages).is_some());
    assert!(c.find_by_type(HeaderFooterType::Header, PageApplyType::All).is_none());
    assert_eq!(c.find_by_type(HeaderFooterType::Footer, PageApplyType::All).unwrap().text, "F");
}

#[test]
fn layout_builders() {
    let a4 = PageLayout::a4_portrait();
    assert_eq!(a4.paper_size, PaperSize::A4);
    assert_eq!(a4.orientation, PageOrientation::Portrait);
    assert_eq!((a4.width, a4.height), PaperSize::A4.dimensions_hwp_units());
    let a4l = PageLayout::a4_landscape();
    assert_eq!(a4l.orientation, PageOrientation::Landscape);
    assert_eq!((a4l.width, a4l.height), (84188, 59528));
    let letter = PageLayout::letter_portrait();
    assert_eq!(letter.paper_size, PaperSize::Letter);
    assert_eq!((letter.width, letter.height), (61200, 79200));
    let b5l = PageLayout::new(PaperSize::B5, PageOrientation::Landscape);
    assert_eq!((b5l.width, b5l.height), (70866, 49606));
    assert_eq!(a4.columns, 1);
    assert_eq!(a4.start_page_number, 1);
    let coloured = a4.clone().with_background_color(0xE6F3FF).with_column_line(true);
    assert_eq!(coloured.background_color, Some(0xE6F3FF));
    assert!(coloured.column_line);
    assert!(PageMargins::normal().with_mirror_margins(true).mirror_margins);
}

#[test]
fn layout_effective_sizes_and_columns() {
    let l = PageLayout::a4_portrait().with_margins(PageMargins::normal());
    assert_eq!(l.effective_width(), 59528 - 14400);
    assert_eq!(l.effective_height(), 84188 - 14400);
    assert_eq!(l.column_width(), 59528 - 14400);
    let mut three = l.clone();
    three.columns = 3;
    three.column_spacing = 1000;
    assert_eq!(three.column_width(), (59528 - 14400 - 2000) / 3);
    let mut tight = l.clone();
    tight.width = 100;
    assert_eq!(tight.effective_width(), 1000);
    tight.columns = 2;
    assert_eq!(tight.column_width(), 500);
}

#[test]
fn layout_bytes_layout() {
    let l = PageLayout::a4_landscape().with_background_color(0x010203).with_page_numbering(5, PageNumberFormat::RomanUpper);
    let b = l.to_bytes();
    assert_eq!(b.len(), 36 + 2 + 4 + 4 + 2 + 1 + 1 + 4);
    assert_eq!(&b[0..4], &84188u32.to_le_bytes());
    assert_eq!(&b[36..38], &1u16.to_le_bytes());
    // landscape
    assert_eq!(&b[42..46], &1u32.to_le_bytes());
    assert_eq!(&b[46..48], &5u16.to_le_bytes());
    assert_eq!(b[48], 3);
    assert_eq!(b[49], 1);
    assert_eq!(&b[50..54], &0x010203u32.to_le_bytes());
    let plain = PageLayout::a4_portrait().to_bytes();
    assert_eq!(plain.len(), 50);
    assert_eq!(plain[49], 0);
}

#[test]
fn test_effective_dimensions() {
    // 25 mm and 20 mm in HWP units (283.465 units per millimetre, rounded)
    let (mm25, mm20) = (7087u32, 5669u32);
    let mut margins = PageMargins::default();
    margins.left = mm25;
    margins.right = mm25;
    margins.top = mm20;
    margins.bottom = mm20;
    margins.gutter = 0;
    let layout = PageLayout::a4_portrait().with_margins(margins);

    let expected_width = layout.width - mm25 - mm25;
    let expected_height = layout.height - mm20 - mm20;

    assert_eq!(layout.effective_width(), expected_width);
    assert_eq!(layout.effective_height(), expected_height);
}

#[test]
fn whitespace_matches_the_standard_library() {
    for x in 0u32..0x3100 {
        if let Some(c) = char::from_u32(x) {
            assert_eq!(hwpers::utils::chars::is_whitespace(c), c.is_whitespace(), "{x:#x}");
        }
    }
}
