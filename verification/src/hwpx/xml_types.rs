use vstd::prelude::*;

verus! {

/// The version record of an HWPX package.
#[derive(Debug, Clone)]
pub struct HcfVersion {
    pub version: Option<String>,
    pub xml_version: Option<String>,
    pub major: Option<String>,
    pub minor: Option<String>,
    pub taget_application: Option<String>,
    pub application: Option<String>,
}

/// The document head: numbering starts and reference lists.
#[derive(Debug, Clone)]
pub struct Head {
    pub begin_num: Option<BeginNum>,
    pub ref_list: Option<RefList>,
}

/// The numbers that pages, notes, pictures, tables and equations start from.
#[derive(Debug, Clone)]
pub struct BeginNum {
    pub page: Option<u32>,
    pub footnote: Option<u32>,
    pub endnote: Option<u32>,
    pub pic: Option<u32>,
    pub tbl: Option<u32>,
    pub equation: Option<u32>,
}

/// The reference lists of the head: fonts, character and paragraph properties.
#[derive(Debug, Clone)]
pub struct RefList {
    pub fontfaces: Option<Fontfaces>,
    pub char_properties: Option<CharProperties>,
    pub para_properties: Option<ParaProperties>,
}

/// The font faces of the head.
#[derive(Debug, Clone)]
pub struct Fontfaces {
    pub items: Vec<Fontface>,
}

/// The fonts of one language.
#[derive(Debug, Clone)]
pub struct Fontface {
    pub lang: String,
    pub fonts: Vec<Font>,
}

/// A font.
#[derive(Debug, Clone)]
pub struct Font {
    pub id: u32,
    pub face: String,
    pub font_type: Option<String>,
}

/// The character property sets of the head.
#[derive(Debug, Clone)]
pub struct CharProperties {
    pub items: Vec<CharPr>,
}

/// A character property set.
#[derive(Debug, Clone)]
pub struct CharPr {
    pub id: u32,
    pub height: Option<u32>,
    pub text_color: Option<String>,
    pub bold: Option<bool>,
    pub italic: Option<bool>,
    pub underline: Option<String>,
    pub strikeout: Option<String>,
}

/// The paragraph property sets of the head.
#[derive(Debug, Clone)]
pub struct ParaProperties {
    pub items: Vec<ParaPr>,
}

/// A paragraph property set.
#[derive(Debug, Clone)]
pub struct ParaPr {
    pub id: u32,
    pub align: Option<String>,
    pub line_spacing: Option<String>,
    pub tab_pr_id_ref: Option<u32>,
}

/// A section of the body.
#[derive(Debug)]
pub struct Section {
    pub paragraphs: Vec<XmlParagraph>,
}

/// A paragraph of a section.
#[derive(Debug)]
pub struct XmlParagraph {
    pub id: Option<u32>,
    pub para_pr_id_ref: Option<u32>,
    pub style_id_ref: Option<u32>,
    pub runs: Vec<Run>,
}

/// A run of a paragraph: text, or a section definition, table or picture.
#[derive(Debug)]
pub struct Run {
    pub char_pr_id_ref: Option<u32>,
    pub text: Option<String>,
    pub sec_pr: Option<SecPr>,
    pub table: Option<XmlTable>,
    pub picture: Option<XmlPicture>,
}

/// Section properties.
#[derive(Debug, Clone)]
pub struct SecPr {
    pub text_direction: Option<String>,
    pub space_columns: Option<u32>,
    pub page_margin: Option<PageMargin>,
    pub page_pr: Option<PagePr>,
}

/// Page margins.
#[derive(Debug, Clone)]
pub struct PageMargin {
    pub left: Option<u32>,
    pub right: Option<u32>,
    pub top: Option<u32>,
    pub bottom: Option<u32>,
    pub header: Option<u32>,
    pub footer: Option<u32>,
    pub gutter: Option<u32>,
}

/// Page properties.
#[derive(Debug, Clone)]
pub struct PagePr {
    pub width: Option<u32>,
    pub height: Option<u32>,
    pub landscape: Option<String>,
    pub margin: Option<PageMargin>,
}

/// A table.
#[derive(Debug)]
pub struct XmlTable {
    pub id: Option<u32>,
    pub rows: Vec<XmlTableRow>,
}

/// A table row.
#[derive(Debug)]
pub struct XmlTableRow {
    pub cells: Vec<XmlTableCell>,
}

/// A table cell.
#[derive(Debug)]
pub struct XmlTableCell {
    pub col_span: Option<u32>,
    pub row_span: Option<u32>,
    pub cell_addr: Option<CellAddr>,
    pub sub_list: Option<SubList>,
}

/// The address of a cell.
#[derive(Debug, Clone)]
pub struct CellAddr {
    pub col_addr: Option<u32>,
    pub row_addr: Option<u32>,
}

/// The paragraphs of a cell.
#[derive(Debug)]
pub struct SubList {
    pub paragraphs: Vec<XmlParagraph>,
}

/// A picture.
#[derive(Debug, Clone)]
pub struct XmlPicture {
    pub id: Option<u32>,
    pub img_rect: Option<ImgRect>,
    pub img: Option<Img>,
}

/// The rectangle of a picture.
#[derive(Debug, Clone)]
pub struct ImgRect {
    pub x: Option<u32>,
    pub y: Option<u32>,
    pub cx: Option<u32>,
    pub cy: Option<u32>,
}

/// The image a picture refers to.
#[derive(Debug, Clone)]
pub struct Img {
    pub binary_item_id_ref: Option<String>,
}

} // verus!
