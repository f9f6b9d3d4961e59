pub mod list_header;
pub mod section_def;
pub mod para_shape;

pub use self::list_header::ListHeader;
pub use self::para_shape::ParaShape;
pub use self::section_def::SectionDef;
pub mod char_shape;
pub use self::char_shape::{CharShape, FaceName};
pub mod tab_def;
pub mod style;
pub mod numbering;
pub mod bin_data;
pub mod border_fill;
pub mod control;
pub use self::control::{Control, Table, TableCell};
pub mod para_char_shape;
pub use self::para_char_shape::{CharPositionShape, ParaCharShape};
pub mod para_line_seg;
pub use self::para_line_seg::{LineSegment, ParaLineSeg};
pub mod header_footer;
pub use self::header_footer::{HeaderFooter, HeaderFooterAlignment, HeaderFooterCollection, HeaderFooterType, PageApplyType, PageNumberFormat};
pub mod page_layout;
pub use self::page_layout::{MarginUnit, PageLayout, PageMargins, PageOrientation, PaperSize};
pub mod page_def;
pub use self::page_def::PageDef;
pub mod hyperlink;
pub use self::hyperlink::{Hyperlink, HyperlinkDisplay, HyperlinkType};
pub mod text_box;
pub use self::text_box::{TextBox, TextBoxAlignment, TextBoxBorderStyle, TextBoxFillType};
pub mod paragraph;
pub use self::paragraph::{ParaText, Paragraph, Section};
pub mod document;
pub use self::document::{DocumentProperties, FormattedText, UtcTime};
