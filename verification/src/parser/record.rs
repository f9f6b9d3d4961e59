use vstd::prelude::*;
use crate::error::HwpError;
use crate::reader::StreamReader;
use crate::utils::bytes::u32_le;
use crate::utils::text::text_of;

verus! {

/// The header of a record: tag, nesting level and size of the data.
#[derive(Debug, Clone, Copy, PartialEq, Eq, Structural)]
pub struct RecordHeader {
    pub tag_id: u16,
    pub level: u8,
    pub size: u32,
}

/// The tag held in bits 0-9 of a packed record header word.
pub open spec fn tag_bits(h: u32) -> u16 {
    (h % 1024) as u16
}

/// The level held in bits 10-19 of a packed record header word, cut to a byte.
pub open spec fn level_bits(h: u32) -> u8 {
    ((h / 1024) % 256) as u8
}

/// The size held in bits 20-31 of a packed record header word.
pub open spec fn size_bits(h: u32) -> u32 {
    h / 1048576
}

/// The length of the header of the record at `p`: four bytes, or eight when
/// the size field holds 0xFFF and an extended size follows.
pub open spec fn header_len(d: Seq<u8>, p: int) -> int {
    if size_bits(u32_le(d, p)) == 0xFFF { 8 } else { 4 }
}

/// The size of the data of the record at `p`.
pub open spec fn record_size(d: Seq<u8>, p: int) -> u32 {
    if size_bits(u32_le(d, p)) == 0xFFF { u32_le(d, p + 4) } else { size_bits(u32_le(d, p)) }
}

impl RecordHeader {
    /// Reads a packed record header, and the extended size where the size
    /// field holds 0xFFF.
    pub fn parse(reader: &mut StreamReader) -> (res: Result<Self, HwpError>)
        ensures
            final(reader).bytes() == old(reader).bytes(),
            ({
                let d = old(reader).bytes();
                let p = old(reader).pos();
                if !old(reader).can_read(4) || !old(reader).can_read(header_len(d, p)) {
                    res matches Err(HwpError::Io(_))
                } else {
                    &&& res matches Ok(h)
                    &&& h.tag_id == tag_bits(u32_le(d, p))
                    &&& h.level == level_bits(u32_le(d, p))
                    &&& h.size == record_size(d, p)
                    &&& final(reader).pos() == p + header_len(d, p)
                }
            }),
    {
        let header: u32 = reader.read_u32()?;
        let tag_id: u16 = (header % 1024) as u16;
        let level: u8 = ((header / 1024) % 256) as u8;
        let mut size: u32 = header / 1048576;
        if size == 0xFFF {
            size = reader.read_u32()?;
        }
        Ok(RecordHeader { tag_id, level, size })
    }
}

/// A record: its header and its data.
#[derive(Debug)]
pub struct Record {
    pub header: RecordHeader,
    pub data: Vec<u8>,
}

/// Whether the whole record at `p` (header and data) lies in `d`.
pub open spec fn record_fits(d: Seq<u8>, p: int) -> bool {
    &&& p + header_len(d, p) <= d.len()
    &&& p + header_len(d, p) + record_size(d, p) <= d.len()
}

impl Record {
    /// Reads one record: fails with a parse error where fewer than four bytes
    /// remain or the data would run past the end, with an I/O error where the
    /// extended size cannot be read.
    pub fn parse(reader: &mut StreamReader) -> (res: Result<Self, HwpError>)
        ensures
            final(reader).bytes() == old(reader).bytes(),
            ({
                let d = old(reader).bytes();
                let p = old(reader).pos();
                if old(reader).rem() < 4 {
                    res matches Err(HwpError::ParseError(_))
                } else if !old(reader).can_read(header_len(d, p)) {
                    res matches Err(HwpError::Io(_))
                } else if !record_fits(d, p) {
                    res matches Err(HwpError::ParseError(_))
                } else {
                    &&& res matches Ok(r)
                    &&& r.header.tag_id == tag_bits(u32_le(d, p))
                    &&& r.header.level == level_bits(u32_le(d, p))
                    &&& r.header.size == record_size(d, p)
                    &&& r.data@ == d.subrange(p + header_len(d, p), p + header_len(d, p) + record_size(d, p))
                    &&& final(reader).pos() == p + header_len(d, p) + record_size(d, p)
                }
            }),
    {
        if reader.remaining() < 4 {
            return Err(HwpError::ParseError(text_of("Not enough data for record header")));
        }
        let header = RecordHeader::parse(reader)?;
        let data_size: usize = header.size as usize;
        if data_size > reader.remaining() {
            return Err(HwpError::ParseError(text_of("Record size exceeds remaining data")));
        }
        let data = reader.read_bytes(data_size)?;
        Ok(Record { header, data })
    }

    pub fn tag_id(&self) -> (t: u16)
        ensures
            t == self.header.tag_id,
    {
        self.header.tag_id
    }

    /// A reader over a copy of the record's data, at its start.
    pub fn data_reader(&self) -> (r: StreamReader)
        ensures
            r.bytes() == self.data@,
            r.pos() == 0,
    {
        StreamReader::new(self.data.clone())
    }
}

/// The tags of HWP records.
#[derive(Debug, Clone, Copy, PartialEq, Eq, Structural)]
pub enum HwpTag {
    DocumentProperties,
    IdMappings,
    BinData,
    FaceName,
    BorderFill,
    CharShape,
    TabDef,
    Numbering,
    Bullet,
    ParaShape,
    Style,
    DocData,
    DistributeDocData,
    SectionDefine,
    ColumnDefine,
    TableControl,
    SheetControl,
    LineInfo,
    HiddenComment,
    HeaderFooter,
    Footnote,
    AutoNumber,
    NewNumber,
    PageHide,
    PageOddEvenAdjust,
    PageNumberPosition,
    ParaHeader,
    ParaText,
    ParaCharShape,
    ParaLineSeg,
    ParaRangeTag,
    CtrlHeader,
    ListHeader,
    PageDef,
    FootnoteShape,
    PageBorderFill,
    ShapeObject,
    Table,
    ShapeComponent,
    ShapeComponentLine,
    ShapeComponentRectangle,
    ShapeComponentEllipse,
    ShapeComponentArc,
    ShapeComponentPolygon,
    ShapeComponentCurve,
    ShapeComponentOle,
    ShapeComponentPicture,
    ShapeComponentContainer,
    EqEdit,
    Reserved1,
    Reserved2,
    FormObject,
    MemoShape,
    MemoList,
    ChartData,
}

/// The numeric value of each tag.
pub open spec fn tag_value(t: HwpTag) -> u16 {
    match t {
        HwpTag::DocumentProperties => 0x10,
        HwpTag::IdMappings => 0x11,
        HwpTag::BinData => 0x12,
        HwpTag::FaceName => 0x13,
        HwpTag::BorderFill => 0x14,
        HwpTag::CharShape => 0x15,
        HwpTag::TabDef => 0x16,
        HwpTag::Numbering => 0x17,
        HwpTag::Bullet => 0x18,
        HwpTag::ParaShape => 0x19,
        HwpTag::Style => 0x1A,
        HwpTag::DocData => 0x1B,
        HwpTag::DistributeDocData => 0x1C,
        HwpTag::SectionDefine => 0x42,
        HwpTag::ColumnDefine => 0x43,
        HwpTag::TableControl => 0x44,
        HwpTag::SheetControl => 0x45,
        HwpTag::LineInfo => 0x47,
        HwpTag::HiddenComment => 0x48,
        HwpTag::HeaderFooter => 0x49,
        HwpTag::Footnote => 0x4A,
        HwpTag::AutoNumber => 0x4B,
        HwpTag::NewNumber => 0x4C,
        HwpTag::PageHide => 0x4D,
        HwpTag::PageOddEvenAdjust => 0x4E,
        HwpTag::PageNumberPosition => 0x4F,
        HwpTag::ParaHeader => 0x50,
        HwpTag::ParaText => 0x51,
        HwpTag::ParaCharShape => 0x52,
        HwpTag::ParaLineSeg => 0x53,
        HwpTag::ParaRangeTag => 0x54,
        HwpTag::CtrlHeader => 0x55,
        HwpTag::ListHeader => 0x56,
        HwpTag::PageDef => 0x57,
        HwpTag::FootnoteShape => 0x58,
        HwpTag::PageBorderFill => 0x59,
        HwpTag::ShapeObject => 0x5A,
        HwpTag::Table => 0x5B,
        HwpTag::ShapeComponent => 0x5C,
        HwpTag::ShapeComponentLine => 0x5D,
        HwpTag::ShapeComponentRectangle => 0x5E,
        HwpTag::ShapeComponentEllipse => 0x5F,
        HwpTag::ShapeComponentArc => 0x60,
        HwpTag::ShapeComponentPolygon => 0x61,
        HwpTag::ShapeComponentCurve => 0x62,
        HwpTag::ShapeComponentOle => 0x63,
        HwpTag::ShapeComponentPicture => 0x64,
        HwpTag::ShapeComponentContainer => 0x65,
        HwpTag::EqEdit => 0x70,
        HwpTag::Reserved1 => 0x71,
        HwpTag::Reserved2 => 0x72,
        HwpTag::FormObject => 0x73,
        HwpTag::MemoShape => 0x74,
        HwpTag::MemoList => 0x75,
        HwpTag::ChartData => 0x76,
    }
}

/// Whether a number is the value of some tag.
pub open spec fn is_tag_value(v: u16) -> bool {
    (0x10 <= v <= 0x1C) || (0x42 <= v <= 0x45) || (0x47 <= v <= 0x65) || (0x70 <= v <= 0x76)
}

impl HwpTag {
    /// The tag with the given numeric value, if any.
    pub fn from_u16(value: u16) -> (res: Option<Self>)
        ensures
            res is Some <==> is_tag_value(value),
            res matches Some(t) ==> tag_value(t) == value,
    {
        match value {
            0x10 => Some(Self::DocumentProperties),
            0x11 => Some(Self::IdMappings),
            0x12 => Some(Self::BinData),
            0x13 => Some(Self::FaceName),
            0x14 => Some(Self::BorderFill),
            0x15 => Some(Self::CharShape),
            0x16 => Some(Self::TabDef),
            0x17 => Some(Self::Numbering),
            0x18 => Some(Self::Bullet),
            0x19 => Some(Self::ParaShape),
            0x1A => Some(Self::Style),
            0x1B => Some(Self::DocData),
            0x1C => Some(Self::DistributeDocData),
            0x42 => Some(Self::SectionDefine),
            0x43 => Some(Self::ColumnDefine),
            0x44 => Some(Self::TableControl),
            0x45 => Some(Self::SheetControl),
            0x47 => Some(Self::LineInfo),
            0x48 => Some(Self::HiddenComment),
            0x49 => Some(Self::HeaderFooter),
            0x4A => Some(Self::Footnote),
            0x4B => Some(Self::AutoNumber),
            0x4C => Some(Self::NewNumber),
            0x4D => Some(Self::PageHide),
            0x4E => Some(Self::PageOddEvenAdjust),
            0x4F => Some(Self::PageNumberPosition),
            0x50 => Some(Self::ParaHeader),
            0x51 => Some(Self::ParaText),
            0x52 => Some(Self::ParaCharShape),
            0x53 => Some(Self::ParaLineSeg),
            0x54 => Some(Self::ParaRangeTag),
            0x55 => Some(Self::CtrlHeader),
            0x56 => Some(Self::ListHeader),
            0x57 => Some(Self::PageDef),
            0x58 => Some(Self::FootnoteShape),
            0x59 => Some(Self::PageBorderFill),
            0x5A => Some(Self::ShapeObject),
            0x5B => Some(Self::Table),
            0x5C => Some(Self::ShapeComponent),
            0x5D => Some(Self::ShapeComponentLine),
            0x5E => Some(Self::ShapeComponentRectangle),
            0x5F => Some(Self::ShapeComponentEllipse),
            0x60 => Some(Self::ShapeComponentArc),
            0x61 => Some(Self::ShapeComponentPolygon),
            0x62 => Some(Self::ShapeComponentCurve),
            0x63 => Some(Self::ShapeComponentOle),
            0x64 => Some(Self::ShapeComponentPicture),
            0x65 => Some(Self::ShapeComponentContainer),
            0x70 => Some(Self::EqEdit),
            0x71 => Some(Self::Reserved1),
            0x72 => Some(Self::Reserved2),
            0x73 => Some(Self::FormObject),
            0x74 => Some(Self::MemoShape),
            0x75 => Some(Self::MemoList),
            0x76 => Some(Self::ChartData),
            _ => None,
        }
    }
}

/// Every tag has a value that `from_u16` recognises, and no two tags share a
/// value; so `from_u16` gives back every tag from its value.
pub proof fn law_tag_value_roundtrip(t: HwpTag, u: HwpTag)
    ensures
        is_tag_value(tag_value(t)),
        tag_value(t) == tag_value(u) ==> t == u,
{
}

} // verus!
