pub mod xml_types;

pub use self::xml_types::{
    BeginNum, CellAddr, CharPr, CharProperties, Font, Fontface, Fontfaces, HcfVersion, Head, Img, ImgRect, PageMargin,
    PagePr, ParaPr, ParaProperties, RefList, Run, SecPr, Section, SubList, XmlParagraph, XmlPicture, XmlTable,
    XmlTableCell, XmlTableRow,
};
