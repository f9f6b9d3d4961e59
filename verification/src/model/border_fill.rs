use vstd::prelude::*;
use crate::error::HwpError;
use crate::parser::record::Record;
use crate::reader::StreamReader;
use crate::utils::bytes::{u16_le, u32_le};
use crate::utils::text::text_of;

verus! {

/// Borders and fill of an area.
#[derive(Debug, Clone)]
pub struct BorderFill {
    pub properties: u16,
    pub left: BorderLine,
    pub right: BorderLine,
    pub top: BorderLine,
    pub bottom: BorderLine,
    pub diagonal: BorderLine,
    pub fill_info: FillInfo,
}

/// One border line.
#[derive(Debug, Clone)]
pub struct BorderLine {
    pub line_type: u8,
    pub thickness: u8,
    pub color: u32,
}

/// How an area is filled.
#[derive(Debug, Clone)]
pub struct FillInfo {
    pub fill_type: u32,
    pub back_color: u32,
    pub pattern_color: u32,
    pub pattern_type: u32,
    pub image_info: Option<ImageInfo>,
    pub gradient_info: Option<GradientInfo>,
}

/// A picture fill.
#[derive(Debug, Clone)]
pub struct ImageInfo {
    pub brightness: u8,
    pub contrast: u8,
    pub effect: u8,
    pub bin_data_id: u16,
}

/// A gradient fill.
#[derive(Debug, Clone)]
pub struct GradientInfo {
    pub gradient_type: u8,
    pub start_color: u32,
    pub end_color: u32,
    pub angle: u16,
    pub center_x: u16,
    pub center_y: u16,
    pub blur_degree: u16,
}

/// The border line stored at `p`.
pub open spec fn line_at(d: Seq<u8>, p: int) -> BorderLine {
    BorderLine { line_type: d[p], thickness: d[p + 1], color: u32_le(d, p + 2) }
}

/// The border line with no type, no thickness and black color.
pub open spec fn no_line() -> BorderLine {
    BorderLine { line_type: 0, thickness: 0, color: 0 }
}

/// The `i`-th border line of a border fill record: read where its six bytes
/// are present, else the empty line.
pub open spec fn nth_line(d: Seq<u8>, i: int) -> BorderLine {
    if d.len() >= 8 + 6 * i { line_at(d, 2 + 6 * i) } else { no_line() }
}

/// The number of border lines a border fill record holds (at most five).
pub open spec fn lines_read(d: Seq<u8>) -> int {
    if (d.len() - 2) / 6 >= 5 { 5 } else { (d.len() - 2) / 6 }
}

/// The picture fill stored at `p`.
pub open spec fn image_at(d: Seq<u8>, p: int) -> ImageInfo {
    ImageInfo { brightness: d[p], contrast: d[p + 1], effect: d[p + 2], bin_data_id: u16_le(d, p + 3) }
}

/// The gradient fill stored at `p`.
pub open spec fn gradient_at(d: Seq<u8>, p: int) -> GradientInfo {
    GradientInfo {
        gradient_type: d[p],
        start_color: u32_le(d, p + 1),
        end_color: u32_le(d, p + 5),
        angle: u16_le(d, p + 9),
        center_x: u16_le(d, p + 11),
        center_y: u16_le(d, p + 13),
        blur_degree: u16_le(d, p + 15),
    }
}

/// The fill stored at `f`, where at least 16 bytes remain: its type and
/// colours, the image where the type announces one and its 5 bytes are
/// present, and the gradient where the type announces one and its 17 bytes
/// are present.
pub open spec fn fill_at(d: Seq<u8>, f: int) -> FillInfo {
    let ft = u32_le(d, f);
    let image = if ft & 0x04 != 0 && d.len() - (f + 16) >= 6 { Some(image_at(d, f + 16)) } else { None };
    let g = if image is Some { f + 21 } else { f + 16 };
    FillInfo {
        fill_type: ft,
        back_color: u32_le(d, f + 4),
        pattern_color: u32_le(d, f + 8),
        pattern_type: u32_le(d, f + 12),
        image_info: image,
        gradient_info: if ft & 0x08 != 0 && d.len() - g >= 17 { Some(gradient_at(d, g)) } else { None },
    }
}

/// The fill used where a record holds none: no fill on white.
pub open spec fn default_fill() -> FillInfo {
    FillInfo {
        fill_type: 0,
        back_color: 0xFFFFFFFF,
        pattern_color: 0,
        pattern_type: 0,
        image_info: None,
        gradient_info: None,
    }
}

/// The fill of a border fill record: the default where fewer than 16
/// bytes follow the border lines.
pub open spec fn record_fill(d: Seq<u8>) -> FillInfo {
    let f = 2 + 6 * lines_read(d);
    if d.len() - f >= 16 { fill_at(d, f) } else { default_fill() }
}

impl BorderLine {
    fn read(reader: &mut StreamReader) -> (res: Result<Self, HwpError>)
        ensures
            final(reader).bytes() == old(reader).bytes(),
            old(reader).rem() < 6 ==> (res matches Err(HwpError::ParseError(_))) && final(reader).pos() == old(reader).pos(),
            old(reader).rem() >= 6 ==> res == Ok::<BorderLine, HwpError>(line_at(old(reader).bytes(), old(reader).pos()))
                && final(reader).pos() == old(reader).pos() + 6,
    {
        if reader.remaining() < 6 {
            return Err(HwpError::ParseError(text_of("Insufficient data for BorderLine")));
        }
        let line_type: u8 = reader.read_u8()?;
        let thickness: u8 = reader.read_u8()?;
        let color: u32 = reader.read_u32()?;
        Ok(BorderLine { line_type, thickness, color })
    }
}

impl FillInfo {
    fn read(reader: &mut StreamReader) -> (res: Result<Self, HwpError>)
        ensures
            final(reader).bytes() == old(reader).bytes(),
            old(reader).rem() < 16 ==> (res matches Err(HwpError::ParseError(_))),
            old(reader).rem() >= 16 ==> res == Ok::<FillInfo, HwpError>(fill_at(old(reader).bytes(), old(reader).pos())),
    {
        if reader.remaining() < 16 {
            return Err(HwpError::ParseError(text_of("Insufficient data for FillInfo")));
        }
        let fill_type: u32 = reader.read_u32()?;
        let back_color: u32 = reader.read_u32()?;
        let pattern_color: u32 = reader.read_u32()?;
        let pattern_type: u32 = reader.read_u32()?;
        let image_info = if (fill_type & 0x04) != 0 && reader.remaining() >= 6 {
            let brightness: u8 = reader.read_u8()?;
            let contrast: u8 = reader.read_u8()?;
            let effect: u8 = reader.read_u8()?;
            let bin_data_id: u16 = reader.read_u16()?;
            Some(ImageInfo { brightness, contrast, effect, bin_data_id })
        } else {
            None
        };
        let gradient_info = if (fill_type & 0x08) != 0 && reader.remaining() >= 17 {
            let gradient_type: u8 = reader.read_u8()?;
            let start_color: u32 = reader.read_u32()?;
            let end_color: u32 = reader.read_u32()?;
            let angle: u16 = reader.read_u16()?;
            let center_x: u16 = reader.read_u16()?;
            let center_y: u16 = reader.read_u16()?;
            let blur_degree: u16 = reader.read_u16()?;
            Some(GradientInfo { gradient_type, start_color, end_color, angle, center_x, center_y, blur_degree })
        } else {
            None
        };
        Ok(FillInfo { fill_type, back_color, pattern_color, pattern_type, image_info, gradient_info })
    }
}

/// Whether `b` holds the border fill stored in `d`.
pub open spec fn border_fill_from(b: BorderFill, d: Seq<u8>) -> bool {
    b.properties == u16_le(d, 0) && b.left == nth_line(d, 0) && b.right == nth_line(d, 1) && b.top == nth_line(d, 2)
        && b.bottom == nth_line(d, 3) && b.diagonal == nth_line(d, 4) && b.fill_info == record_fill(d)
}

impl BorderFill {
    /// Reads borders and fill: each border line and the fill is read where
    /// its bytes are present and takes its default otherwise.
    pub fn from_record(record: &Record) -> (res: Result<Self, HwpError>)
        ensures
            ({
                let d = record.data@;
                if d.len() < 2 {
                    res matches Err(HwpError::ParseError(_))
                } else {
                    res matches Ok(b) && border_fill_from(b, d)
                }
            }),
    {
        let mut reader = record.data_reader();
        let ghost d = record.data@;
        if reader.remaining() < 2 {
            return Err(HwpError::ParseError(text_of("BorderFill record too small")));
        }
        let properties: u16 = reader.read_u16()?;
        let mut left = BorderLine { line_type: 0, thickness: 0, color: 0 };
        let mut right = BorderLine { line_type: 0, thickness: 0, color: 0 };
        let mut top = BorderLine { line_type: 0, thickness: 0, color: 0 };
        let mut bottom = BorderLine { line_type: 0, thickness: 0, color: 0 };
        let mut diagonal = BorderLine { line_type: 0, thickness: 0, color: 0 };
        if reader.remaining() >= 6 {
            left = BorderLine::read(&mut reader)?;
        }
        if reader.remaining() >= 6 {
            right = BorderLine::read(&mut reader)?;
        }
        if reader.remaining() >= 6 {
            top = BorderLine::read(&mut reader)?;
        }
        if reader.remaining() >= 6 {
            bottom = BorderLine::read(&mut reader)?;
        }
        if reader.remaining() >= 6 {
            diagonal = BorderLine::read(&mut reader)?;
        }
        assert(reader.pos() == 2 + 6 * lines_read(d));
        let fill_info = if reader.remaining() >= 16 {
            FillInfo::read(&mut reader)?
        } else {
            FillInfo {
                fill_type: 0,
                back_color: 0xFFFFFFFF,
                pattern_color: 0,
                pattern_type: 0,
                image_info: None,
                gradient_info: None,
            }
        };
        Ok(BorderFill { properties, left, right, top, bottom, diagonal, fill_info })
    }

    /// A border fill for writing: no borders, no fill on white.
    pub fn new_default() -> (b: Self)
        ensures
            b.properties == 0,
            b.left == no_line() && b.right == no_line() && b.top == no_line(),
            b.bottom == no_line() && b.diagonal == no_line(),
            b.fill_info == default_fill(),
    {
        BorderFill {
            properties: 0,
            left: BorderLine { line_type: 0, thickness: 0, color: 0x000000 },
            right: BorderLine { line_type: 0, thickness: 0, color: 0x000000 },
            top: BorderLine { line_type: 0, thickness: 0, color: 0x000000 },
            bottom: BorderLine { line_type: 0, thickness: 0, color: 0x000000 },
            diagonal: BorderLine { line_type: 0, thickness: 0, color: 0x000000 },
            fill_info: FillInfo {
                fill_type: 0,
                back_color: 0xFFFFFFFF,
                pattern_color: 0,
                pattern_type: 0,
                image_info: None,
                gradient_info: None,
            },
        }
    }
}

} // verus!
