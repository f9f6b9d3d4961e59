use vstd::prelude::*;
use crate::model::header_footer::{PageNumberFormat, format_code};
use crate::utils::bytes::{le16, le32, put_u16, put_u32};

verus! {

/// The orientation of a page.
#[derive(Debug, Clone, Copy, PartialEq, Eq, Structural)]
pub enum PageOrientation {
    Portrait,
    Landscape,
}

/// Standard paper sizes.
#[derive(Debug, Clone, Copy, PartialEq, Eq, Structural)]
pub enum PaperSize {
    A4,
    A3,
    A5,
    Letter,
    Legal,
    Tabloid,
    B4,
    B5,
    Custom,
}

/// Units margins can be given in.
#[derive(Debug, Clone, Copy, PartialEq, Eq, Structural)]
pub enum MarginUnit {
    Millimeters,
    Inches,
    Points,
    HwpUnits,
}

/// Page margins in HWP units (1/7200 inch).
#[derive(Debug, Clone, Copy, PartialEq, Eq, Structural)]
pub struct PageMargins {
    pub left: u32,
    pub right: u32,
    pub top: u32,
    pub bottom: u32,
    pub header: u32,
    pub footer: u32,
    pub gutter: u32,
    pub mirror_margins: bool,
}

/// The layout of a page.
#[derive(Debug, Clone, Copy)]
pub struct PageLayout {
    pub paper_size: PaperSize,
    pub orientation: PageOrientation,
    pub width: u32,
    pub height: u32,
    pub margins: PageMargins,
    pub columns: u16,
    pub column_spacing: u32,
    pub column_line: bool,
    pub page_border: bool,
    pub background_color: Option<u32>,
    pub start_page_number: u16,
    pub page_number_format: PageNumberFormat,
}

/// Margins of the given sizes, with header and footer margins of 4252 units
/// (15 mm), no gutter and no mirroring.
pub open spec fn margins_of(left: u32, right: u32, top: u32, bottom: u32) -> PageMargins {
    PageMargins { left, right, top, bottom, header: 4252, footer: 4252, gutter: 0, mirror_margins: false }
}

/// The default margins: 30 mm left and right, 20 mm top, 15 mm bottom,
/// header and footer.
pub open spec fn default_margins() -> PageMargins {
    PageMargins { left: 8504, right: 8504, top: 5669, bottom: 4252, header: 4252, footer: 4252, gutter: 0, mirror_margins: false }
}

/// The portrait width and height of a paper size in HWP units.
pub open spec fn paper_dimensions(p: PaperSize) -> (u32, u32) {
    match p {
        PaperSize::A4 => (59528, 84188),
        PaperSize::A3 => (84188, 119055),
        PaperSize::A5 => (41929, 59528),
        PaperSize::Letter => (61200, 79200),
        PaperSize::Legal => (61200, 100800),
        PaperSize::Tabloid => (79200, 122400),
        PaperSize::B4 => (70866, 100063),
        PaperSize::B5 => (49606, 70866),
        PaperSize::Custom => (59528, 84188),
    }
}

/// The paper sizes made in inches have their physical size in HWP units
/// (7200 to the inch): Letter 8.5 x 11 in, Legal 8.5 x 14 in, Tabloid 11 x
/// 17 in; every named paper size is upright in portrait (narrower than it
/// is high); and no two named paper sizes have the same dimensions.
pub proof fn law_paper_sizes(p: PaperSize, q: PaperSize)
    ensures
        paper_dimensions(PaperSize::Letter) == ((17 * 3600) as u32, (11 * 7200) as u32),
        paper_dimensions(PaperSize::Legal) == ((17 * 3600) as u32, (14 * 7200) as u32),
        paper_dimensions(PaperSize::Tabloid) == ((11 * 7200) as u32, (17 * 7200) as u32),
        p != PaperSize::Custom ==> paper_dimensions(p).0 < paper_dimensions(p).1,
        p != PaperSize::Custom && q != PaperSize::Custom && p != q ==> paper_dimensions(p) != paper_dimensions(q),
{
}

/// The metric paper sizes have their physical size in millimetres to within
/// a millimetre (a millimetre is 7200 / 25.4 HWP units): A4 210 x 297, A3
/// 297 x 420, A5 148 x 210, B4 250 x 353, B5 175 x 250 (a millimetre
/// narrower than ISO B5).
pub proof fn law_metric_paper_sizes(p: PaperSize, w_mm: int, h_mm: int)
    requires
        (p == PaperSize::A4 && w_mm == 210 && h_mm == 297) || (p == PaperSize::A3 && w_mm == 297 && h_mm == 420)
            || (p == PaperSize::A5 && w_mm == 148 && h_mm == 210) || (p == PaperSize::B4 && w_mm == 250 && h_mm == 353)
            || (p == PaperSize::B5 && w_mm == 175 && h_mm == 250),
    ensures
        -72000 <= paper_dimensions(p).0 * 254 - w_mm * 72000 <= 72000,
        -72000 <= paper_dimensions(p).1 * 254 - h_mm * 72000 <= 72000,
{
}

/// The default layout with the given paper, orientation and size.
pub open spec fn layout_with(p: PaperSize, o: PageOrientation, width: u32, height: u32) -> PageLayout {
    PageLayout {
        paper_size: p,
        orientation: o,
        width,
        height,
        margins: default_margins(),
        columns: 1,
        column_spacing: 1417,
        column_line: false,
        page_border: false,
        background_color: None,
        start_page_number: 1,
        page_number_format: PageNumberFormat::Numeric,
    }
}

/// The layout of a paper size in an orientation: the portrait size, turned
/// for landscape.
pub open spec fn paper_layout(p: PaperSize, o: PageOrientation) -> PageLayout {
    let (w, h) = paper_dimensions(p);
    if o == PageOrientation::Portrait { layout_with(p, o, w, h) } else { layout_with(p, o, h, w) }
}

/// A landscape page is the portrait page of the same paper turned: its
/// width is the portrait height and its height the portrait width, so it is
/// wider than high for every named paper; the other settings are the same.
pub proof fn law_landscape_turns(p: PaperSize)
    ensures
        paper_layout(p, PageOrientation::Landscape).width == paper_layout(p, PageOrientation::Portrait).height,
        paper_layout(p, PageOrientation::Landscape).height == paper_layout(p, PageOrientation::Portrait).width,
        paper_layout(p, PageOrientation::Landscape).margins == paper_layout(p, PageOrientation::Portrait).margins,
        paper_layout(p, PageOrientation::Portrait).width == paper_dimensions(p).0,
        paper_layout(p, PageOrientation::Portrait).height == paper_dimensions(p).1,
        p != PaperSize::Custom ==> paper_layout(p, PageOrientation::Landscape).width > paper_layout(p, PageOrientation::Landscape).height,
{
}

/// The width between the margins, 1000 where the margins leave none.
pub open spec fn layout_effective_width(l: PageLayout) -> int {
    let m = l.margins.left + l.margins.right + l.margins.gutter;
    if l.width > m { l.width - m } else { 1000 }
}

/// The height between the margins, 1000 where the margins leave none.
pub open spec fn layout_effective_height(l: PageLayout) -> int {
    let m = l.margins.top + l.margins.bottom;
    if l.height > m { l.height - m } else { 1000 }
}

/// The width of one column: the effective width less the spacing between
/// columns (1000 where that leaves none), shared among the columns.
pub open spec fn layout_column_width(l: PageLayout) -> int {
    if l.columns <= 1 {
        layout_effective_width(l)
    } else {
        let spacing = (l.columns - 1) * l.column_spacing;
        let available = if layout_effective_width(l) > spacing { layout_effective_width(l) - spacing } else { 1000 };
        available / (l.columns as int)
    }
}

/// The flag bits of a layout: landscape, mirrored margins, column line, border.
pub open spec fn layout_flags(l: PageLayout) -> u32 {
    ((if l.orientation == PageOrientation::Landscape { 1int } else { 0 })
        + (if l.margins.mirror_margins { 2int } else { 0 })
        + (if l.column_line { 4int } else { 0 })
        + (if l.page_border { 8int } else { 0 })) as u32
}

/// The bytes of a layout.
pub open spec fn layout_bytes(l: PageLayout) -> Seq<u8> {
    le32(l.width) + le32(l.height) + le32(l.margins.left) + le32(l.margins.right) + le32(l.margins.top)
        + le32(l.margins.bottom) + le32(l.margins.header) + le32(l.margins.footer) + le32(l.margins.gutter)
        + le16(l.columns) + le32(l.column_spacing) + le32(layout_flags(l)) + le16(l.start_page_number)
        + seq![format_code(l.page_number_format)]
        + match l.background_color {
            Some(c) => seq![1u8] + le32(c),
            None => seq![0u8],
        }
}

impl Default for PageMargins {
    fn default() -> (m: Self)
        ensures
            m == default_margins(),
    {
        PageMargins { left: 8504, right: 8504, top: 5669, bottom: 4252, header: 4252, footer: 4252, gutter: 0, mirror_margins: false }
    }
}

impl Default for PageLayout {
    fn default() -> (l: Self)
        ensures
            l == layout_with(PaperSize::A4, PageOrientation::Portrait, 59528, 84188),
    {
        PageLayout {
            paper_size: PaperSize::A4,
            orientation: PageOrientation::Portrait,
            width: 59528,
            height: 84188,
            margins: PageMargins::default(),
            columns: 1,
            column_spacing: 1417,
            column_line: false,
            page_border: false,
            background_color: None,
            start_page_number: 1,
            page_number_format: PageNumberFormat::Numeric,
        }
    }
}

impl PaperSize {
    /// The portrait width and height in HWP units.
    pub fn dimensions_hwp_units(&self) -> (d: (u32, u32))
        ensures
            d == paper_dimensions(*self),
    {
        match self {
            PaperSize::A4 => (59528, 84188),
            PaperSize::A3 => (84188, 119055),
            PaperSize::A5 => (41929, 59528),
            PaperSize::Letter => (61200, 79200),
            PaperSize::Legal => (61200, 100800),
            PaperSize::Tabloid => (79200, 122400),
            PaperSize::B4 => (70866, 100063),
            PaperSize::B5 => (49606, 70866),
            PaperSize::Custom => (59528, 84188),
        }
    }

    /// The name of the paper size.
    pub fn name(&self) -> (n: &'static str)
        ensures
            n@ == (match *self {
                PaperSize::A4 => "A4"@,
                PaperSize::A3 => "A3"@,
                PaperSize::A5 => "A5"@,
                PaperSize::Letter => "Letter"@,
                PaperSize::Legal => "Legal"@,
                PaperSize::Tabloid => "Tabloid"@,
                PaperSize::B4 => "B4"@,
                PaperSize::B5 => "B5"@,
                PaperSize::Custom => "Custom"@,
            }),
    {
        match self {
            PaperSize::A4 => "A4",
            PaperSize::A3 => "A3",
            PaperSize::A5 => "A5",
            PaperSize::Letter => "Letter",
            PaperSize::Legal => "Legal",
            PaperSize::Tabloid => "Tabloid",
            PaperSize::B4 => "B4",
            PaperSize::B5 => "B5",
            PaperSize::Custom => "Custom",
        }
    }
}

impl PageMargins {
    pub fn with_mirror_margins(self, mirror: bool) -> (m: Self)
        ensures
            m == (PageMargins { mirror_margins: mirror, ..self }),
    {
        PageMargins { mirror_margins: mirror, ..self }
    }

    /// Narrow margins: 12.7 mm (3600 units) on every side.
    pub fn narrow() -> (m: Self)
        ensures
            m == margins_of(3600, 3600, 3600, 3600),
    {
        PageMargins { left: 3600, right: 3600, top: 3600, bottom: 3600, header: 4252, footer: 4252, gutter: 0, mirror_margins: false }
    }

    /// Normal margins: 25.4 mm (7200 units) on every side.
    pub fn normal() -> (m: Self)
        ensures
            m == margins_of(7200, 7200, 7200, 7200),
    {
        PageMargins { left: 7200, right: 7200, top: 7200, bottom: 7200, header: 4252, footer: 4252, gutter: 0, mirror_margins: false }
    }

    /// Wide margins: 50.8 mm (14400 units) left and right, 25.4 mm (7200
    /// units) top and bottom.
    pub fn wide() -> (m: Self)
        ensures
            m == margins_of(14400, 14400, 7200, 7200),
    {
        PageMargins { left: 14400, right: 14400, top: 7200, bottom: 7200, header: 4252, footer: 4252, gutter: 0, mirror_margins: false }
    }
}

impl PageLayout {
    /// The default layout of a paper size in an orientation.
    pub fn new(paper_size: PaperSize, orientation: PageOrientation) -> (l: Self)
        ensures
            l == paper_layout(paper_size, orientation),
    {
        let (width, height) = paper_size.dimensions_hwp_units();
        let (final_width, final_height) = match orientation {
            PageOrientation::Portrait => (width, height),
            PageOrientation::Landscape => (height, width),
        };
        PageLayout { paper_size, orientation, width: final_width, height: final_height, ..Default::default() }
    }

    pub fn a4_portrait() -> (l: Self)
        ensures
            l == paper_layout(PaperSize::A4, PageOrientation::Portrait),
    {
        Self::new(PaperSize::A4, PageOrientation::Portrait)
    }

    pub fn a4_landscape() -> (l: Self)
        ensures
            l == paper_layout(PaperSize::A4, PageOrientation::Landscape),
    {
        Self::new(PaperSize::A4, PageOrientation::Landscape)
    }

    pub fn letter_portrait() -> (l: Self)
        ensures
            l == paper_layout(PaperSize::Letter, PageOrientation::Portrait),
    {
        Self::new(PaperSize::Letter, PageOrientation::Portrait)
    }

    pub fn letter_landscape() -> (l: Self)
        ensures
            l == paper_layout(PaperSize::Letter, PageOrientation::Landscape),
    {
        Self::new(PaperSize::Letter, PageOrientation::Landscape)
    }

    pub fn with_margins(self, margins: PageMargins) -> (l: Self)
        ensures
            l == (PageLayout { margins, ..self }),
    {
        PageLayout { margins, ..self }
    }

    pub fn with_column_line(self, show_line: bool) -> (l: Self)
        ensures
            l == (PageLayout { column_line: show_line, ..self }),
    {
        PageLayout { column_line: show_line, ..self }
    }

    pub fn with_background_color(self, color: u32) -> (l: Self)
        ensures
            l == (PageLayout { background_color: Some(color), ..self }),
    {
        PageLayout { background_color: Some(color), ..self }
    }

    pub fn with_page_numbering(self, start: u16, format: PageNumberFormat) -> (l: Self)
        ensures
            l == (PageLayout { start_page_number: start, page_number_format: format, ..self }),
    {
        PageLayout { start_page_number: start, page_number_format: format, ..self }
    }

    /// The width between the margins (1000 where they leave none).
    pub fn effective_width(&self) -> (w: u32)
        requires
            self.margins.left + self.margins.right + self.margins.gutter <= u32::MAX,
        ensures
            w == layout_effective_width(*self),
    {
        let total_margin: u32 = self.margins.left + self.margins.right + self.margins.gutter;
        if self.width > total_margin { self.width - total_margin } else { 1000 }
    }

    /// The height between the margins (1000 where they leave none).
    pub fn effective_height(&self) -> (h: u32)
        requires
            self.margins.top + self.margins.bottom <= u32::MAX,
        ensures
            h == layout_effective_height(*self),
    {
        let total_margin: u32 = self.margins.top + self.margins.bottom;
        if self.height > total_margin { self.height - total_margin } else { 1000 }
    }

    /// The width of one column.
    pub fn column_width(&self) -> (w: u32)
        requires
            self.margins.left + self.margins.right + self.margins.gutter <= u32::MAX,
            self.columns > 1 ==> (self.columns - 1) * self.column_spacing <= u32::MAX,
        ensures
            w == layout_column_width(*self),
    {
        if self.columns <= 1 {
            self.effective_width()
        } else {
            let total_spacing: u32 = (self.columns - 1) as u32 * self.column_spacing;
            let effective: u32 = self.effective_width();
            let available: u32 = if effective > total_spacing { effective - total_spacing } else { 1000 };
            available / self.columns as u32
        }
    }

    /// The bytes of the layout.
    #[verifier::spinoff_prover]
    #[verifier::rlimit(30)]
    pub fn to_bytes(&self) -> (bytes: Vec<u8>)
        ensures
            bytes@ == layout_bytes(*self),
    {
        let mut bytes: Vec<u8> = Vec::new();
        put_u32(&mut bytes, self.width);
        put_u32(&mut bytes, self.height);
        put_u32(&mut bytes, self.margins.left);
        put_u32(&mut bytes, self.margins.right);
        put_u32(&mut bytes, self.margins.top);
        put_u32(&mut bytes, self.margins.bottom);
        put_u32(&mut bytes, self.margins.header);
        put_u32(&mut bytes, self.margins.footer);
        put_u32(&mut bytes, self.margins.gutter);
        put_u16(&mut bytes, self.columns);
        put_u32(&mut bytes, self.column_spacing);
        let mut properties: u32 = 0;
        if self.orientation == PageOrientation::Landscape {
            properties = properties + 1;
        }
        if self.margins.mirror_margins {
            properties = properties + 2;
        }
        if self.column_line {
            properties = properties + 4;
        }
        if self.page_border {
            properties = properties + 8;
        }
        put_u32(&mut bytes, properties);
        put_u16(&mut bytes, self.start_page_number);
        bytes.push(self.page_number_format.code());
        match self.background_color {
            Some(color) => {
                bytes.push(1);
                put_u32(&mut bytes, color);
            },
            None => {
                bytes.push(0);
            },
        }
        assert(bytes@ =~= layout_bytes(*self));
        bytes
    }
}

} // verus!
