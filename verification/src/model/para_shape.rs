use vstd::prelude::*;
use crate::error::HwpError;
use crate::parser::record::Record;
use crate::utils::bytes::{u16_le, u32_le, i32_le, i16_of, to_i16};
use crate::utils::text::text_of;

verus! {

/// The shape of a paragraph: margins, spacing and references.
#[derive(Debug, Clone)]
pub struct ParaShape {
    pub properties1: u32,
    pub left_margin: i32,
    pub right_margin: i32,
    pub indent: i32,
    pub top_para_space: i32,
    pub bottom_para_space: i32,
    pub line_space: i32,
    pub tab_def_id: u16,
    pub numbering_id: u16,
    pub border_fill_id: u16,
    pub border_left_space: i16,
    pub border_right_space: i16,
    pub border_top_space: i16,
    pub border_bottom_space: i16,
    pub properties2: u32,
    pub properties3: u32,
    pub line_space_type: u32,
}

/// Whether `s` holds the paragraph shape stored in `d`.
pub open spec fn para_shape_from(s: ParaShape, d: Seq<u8>) -> bool {
    &&& s.properties1 == u32_le(d, 0)
    &&& s.left_margin == i32_le(d, 4)
    &&& s.right_margin == i32_le(d, 8)
    &&& s.indent == i32_le(d, 12)
    &&& s.top_para_space == i32_le(d, 16)
    &&& s.bottom_para_space == i32_le(d, 20)
    &&& s.line_space == i32_le(d, 24)
    &&& s.tab_def_id == u16_le(d, 28)
    &&& s.numbering_id == u16_le(d, 30)
    &&& s.border_fill_id == u16_le(d, 32)
    &&& s.border_left_space == i16_of(u16_le(d, 34))
    &&& s.border_right_space == i16_of(u16_le(d, 36))
    &&& s.border_top_space == i16_of(u16_le(d, 38))
    &&& s.border_bottom_space == i16_of(u16_le(d, 40))
    &&& s.properties2 == u32_le(d, 42)
    &&& s.properties3 == u32_le(d, 46)
    &&& s.line_space_type == u32_le(d, 50)
}

impl ParaShape {
    /// The alignment: bits 2-4 of the first properties.
    pub fn get_alignment(&self) -> (a: u8)
        ensures
            a == (self.properties1 / 4) % 8,
    {
        ((self.properties1 / 4) % 8) as u8
    }

    /// The line spacing where its type is known (0, 1 or 2), else 100.
    pub fn get_line_spacing_percent(&self) -> (p: i32)
        ensures
            p == (if self.line_space_type <= 2 { self.line_space } else { 100 }),
    {
        match self.line_space_type {
            0 => self.line_space,
            1 => self.line_space,
            2 => self.line_space,
            _ => 100,
        }
    }

    /// Reads a paragraph shape of at least 54 bytes.
    pub fn from_record(record: &Record) -> (res: Result<Self, HwpError>)
        ensures
            ({
                let d = record.data@;
                if d.len() < 54 {
                    res matches Err(HwpError::ParseError(_))
                } else {
                    res matches Ok(s) && para_shape_from(s, d)
                }
            }),
    {
        let mut reader = record.data_reader();
        if reader.remaining() < 54 {
            return Err(HwpError::ParseError(text_of("ParaShape record too small")));
        }
        let properties1: u32 = reader.read_u32()?;
        let left_margin: i32 = reader.read_i32()?;
        let right_margin: i32 = reader.read_i32()?;
        let indent: i32 = reader.read_i32()?;
        let top_para_space: i32 = reader.read_i32()?;
        let bottom_para_space: i32 = reader.read_i32()?;
        let line_space: i32 = reader.read_i32()?;
        let tab_def_id: u16 = reader.read_u16()?;
        let numbering_id: u16 = reader.read_u16()?;
        let border_fill_id: u16 = reader.read_u16()?;
        let border_left_space: i16 = to_i16(reader.read_u16()?);
        let border_right_space: i16 = to_i16(reader.read_u16()?);
        let border_top_space: i16 = to_i16(reader.read_u16()?);
        let border_bottom_space: i16 = to_i16(reader.read_u16()?);
        let properties2: u32 = reader.read_u32()?;
        let properties3: u32 = reader.read_u32()?;
        let line_space_type: u32 = reader.read_u32()?;
        Ok(ParaShape {
            properties1,
            left_margin,
            right_margin,
            indent,
            top_para_space,
            bottom_para_space,
            line_space,
            tab_def_id,
            numbering_id,
            border_fill_id,
            border_left_space,
            border_right_space,
            border_top_space,
            border_bottom_space,
            properties2,
            properties3,
            line_space_type,
        })
    }

    /// A paragraph shape for writing: left aligned, 160% line spacing.
    pub fn new_default() -> (s: Self)
        ensures
            s.properties1 == 0x04,
            s.left_margin == 0 && s.right_margin == 0 && s.indent == 0,
            s.top_para_space == 0 && s.bottom_para_space == 0,
            s.line_space == 160,
            s.tab_def_id == 0 && s.numbering_id == 0 && s.border_fill_id == 0,
            s.border_left_space == 0 && s.border_right_space == 0,
            s.border_top_space == 0 && s.border_bottom_space == 0,
            s.properties2 == 0 && s.properties3 == 0,
            s.line_space_type == 0,
    {
        ParaShape {
            properties1: 0x04,
            left_margin: 0,
            right_margin: 0,
            indent: 0,
            top_para_space: 0,
            bottom_para_space: 0,
            line_space: 160,
            tab_def_id: 0,
            numbering_id: 0,
            border_fill_id: 0,
            border_left_space: 0,
            border_right_space: 0,
            border_top_space: 0,
            border_bottom_space: 0,
            properties2: 0,
            properties3: 0,
            line_space_type: 0,
        }
    }
}

} // verus!
