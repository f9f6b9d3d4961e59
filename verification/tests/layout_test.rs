use hwpers::model::{CharPositionShape, CharShape, LineSegment, PageDef, ParaCharShape, ParaLineSeg, ParaShape, Paragraph, Section};
use hwpers::model::paragraph::ParaText;
use hwpers::parser::doc_info::DocInfo;
use hwpers::render::LayoutEngine;

fn doc_info() -> DocInfo {
    let mut d = DocInfo::default();
    d.para_shapes.push(ParaShape::new_default());
    d.char_shapes.push(CharShape::new_default());
    d
}

fn paragraph(text: &str) -> Paragraph {
    let mut p = Paragraph::default();
    p.text = Some(ParaText { content: text.to_string() });
    p
}

fn section(paragraphs: Vec<Paragraph>) -> Section {
    let mut s = Section::default();
    s.paragraphs = paragraphs;
    s.page_def = Some(PageDef::new_default());
    s
}

fn segment(end: u32, height: i32) -> LineSegment {
    LineSegment {
        text_start_position: end,
        line_vertical_position: 0,
        line_height: height,
        text_part_height: 0,
        distance_baseline_to_line_vertical_position: 850,
        line_space: 0,
        segment_width: 0,
        properties: 0,
    }
}

#[test]
fn layout_breaks_lines_at_newlines() {
    let info = doc_info();
    let sections = vec![section(vec![paragraph("Hello\nWorld")])];
    let layout = LayoutEngine::new(&info, &sections).calculate_layout();
    assert_eq!(layout.pages.len(), 1);
    assert_eq!(layout.total_height, 84188);
    let page = &layout.pages[0];
    assert_eq!((page.width, page.height, page.page_number), (59528, 84188, 1));
    let para = &page.paragraphs[0];
    assert_eq!((para.x, para.y, para.width, para.height), (8504, 5669, 42520, 3840));
    assert_eq!(para.lines.len(), 2);
    let l0 = &para.lines[0];
    assert_eq!((l0.y, l0.height, l0.baseline_y), (5669, 1920, 7205));
    assert_eq!(l0.runs.len(), 1);
    assert_eq!((l0.runs[0].x, l0.runs[0].width, l0.runs[0].text.as_str()), (8504, 2500, "Hello"));
    assert_eq!((l0.runs[0].char_shape_id, l0.runs[0].font_size), (0, 1000));
    let l1 = &para.lines[1];
    assert_eq!((l1.y, l1.baseline_y, l1.runs[0].text.as_str()), (7589, 9125, "World"));
}

#[test]
fn layout_cuts_runs_at_char_positions() {
    let info = doc_info();
    let mut p = paragraph("Hello World");
    p.char_shapes = Some(ParaCharShape {
        char_positions: vec![
            CharPositionShape { position: 0, char_shape_id: 0 },
            CharPositionShape { position: 6, char_shape_id: 0 },
        ],
    });
    let sections = vec![section(vec![p])];
    let layout = LayoutEngine::new(&info, &sections).calculate_layout();
    let runs = &layout.pages[0].paragraphs[0].lines[0].runs;
    assert_eq!(runs.len(), 2);
    assert_eq!((runs[0].x, runs[0].width, runs[0].text.as_str(), runs[0].font_size), (8504, 3600, "Hello ", 1200));
    assert_eq!((runs[1].x, runs[1].width, runs[1].text.as_str()), (12104, 3000, "World"));
}

#[test]
fn layout_starts_a_new_page_when_a_paragraph_does_not_fit() {
    let info = doc_info();
    let mut p1 = paragraph("AB");
    p1.line_segments = Some(ParaLineSeg { line_segments: vec![segment(2, 40000)] });
    let mut p2 = paragraph("CD");
    p2.line_segments = Some(ParaLineSeg { line_segments: vec![segment(2, 40000)] });
    let sections = vec![section(vec![p1, p2])];
    let layout = LayoutEngine::new(&info, &sections).calculate_layout();
    assert_eq!(layout.pages.len(), 2);
    assert_eq!(layout.total_height, 2 * 84188);
    assert_eq!(layout.pages[0].page_number, 1);
    assert_eq!(layout.pages[1].page_number, 2);
    let first = &layout.pages[0].paragraphs[0];
    assert_eq!((first.y, first.height), (5669, 40000));
    assert_eq!((first.lines[0].y, first.lines[0].baseline_y), (5669, 6519));
    assert_eq!(first.lines[0].runs[0].text.as_str(), "AB");
    let second = &layout.pages[1].paragraphs[0];
    assert_eq!((second.y, second.lines[0].runs[0].text.as_str()), (45669, "CD"));
}

#[test]
fn layout_skips_empty_paragraphs_and_numbers_pages_across_sections() {
    let info = doc_info();
    let sections = vec![section(vec![paragraph(""), paragraph("A")]), section(vec![paragraph("B")])];
    let layout = LayoutEngine::new(&info, &sections).calculate_layout();
    assert_eq!(layout.pages.len(), 2);
    assert_eq!(layout.pages[0].paragraphs.len(), 1);
    assert_eq!(layout.pages[1].page_number, 2);
}

#[test]
fn layout_section_without_page_def_gives_no_page() {
    let info = doc_info();
    let mut s = Section::default();
    s.paragraphs.push(paragraph("A"));
    let sections = vec![s, section(vec![paragraph("B")])];
    let result = LayoutEngine::new(&info, &sections).calculate_layout();
    assert_eq!(result.pages.len(), 1);
    assert_eq!(result.pages[0].page_number, 1);
    let only = vec![sections.into_iter().next().unwrap()];
    let result = LayoutEngine::new(&info, &only).calculate_layout();
    assert!(result.pages.is_empty());
}

#[test]
fn layout_fails_on_a_cut_inside_a_character() {
    let info = doc_info();
    let mut p = paragraph("가나");
    p.char_shapes = Some(ParaCharShape {
        char_positions: vec![
            CharPositionShape { position: 0, char_shape_id: 0 },
            CharPositionShape { position: 1, char_shape_id: 0 },
        ],
    });
    let sections = vec![section(vec![p])];
    assert!(LayoutEngine::new(&info, &sections).checked_layout().is_none());
}
