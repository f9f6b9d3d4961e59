use vstd::prelude::*;
use crate::error::HwpError;
use crate::parser::record::Record;
use crate::utils::bytes::{u16_le, u32_le};
use crate::utils::text::text_of;

verus! {

/// The definition of a section.
#[derive(Debug, Clone)]
pub struct SectionDef {
    pub properties: u32,
    pub column_gap: u16,
    pub vertical_line_align: u16,
    pub horizontal_line_align: u16,
    pub default_tab_stop: u32,
    pub numbering_shape_id: u16,
    pub page_starting_number: u16,
    pub image_starting_number: u16,
    pub table_starting_number: u16,
    pub equation_starting_number: u16,
    pub default_language: u16,
}

impl SectionDef {
    /// Reads a section definition of at least 26 bytes.
    pub fn from_record(record: &Record) -> (res: Result<Self, HwpError>)
        ensures
            ({
                let d = record.data@;
                if d.len() < 26 {
                    res matches Err(HwpError::ParseError(_))
                } else {
                    &&& res matches Ok(s)
                    &&& s.properties == u32_le(d, 0)
                    &&& s.column_gap == u16_le(d, 4)
                    &&& s.vertical_line_align == u16_le(d, 6)
                    &&& s.horizontal_line_align == u16_le(d, 8)
                    &&& s.default_tab_stop == u32_le(d, 10)
                    &&& s.numbering_shape_id == u16_le(d, 14)
                    &&& s.page_starting_number == u16_le(d, 16)
                    &&& s.image_starting_number == u16_le(d, 18)
                    &&& s.table_starting_number == u16_le(d, 20)
                    &&& s.equation_starting_number == u16_le(d, 22)
                    &&& s.default_language == u16_le(d, 24)
                }
            }),
    {
        let mut reader = record.data_reader();
        if reader.remaining() < 26 {
            return Err(HwpError::ParseError(text_of("SectionDef record too small")));
        }
        let properties: u32 = reader.read_u32()?;
        let column_gap: u16 = reader.read_u16()?;
        let vertical_line_align: u16 = reader.read_u16()?;
        let horizontal_line_align: u16 = reader.read_u16()?;
        let default_tab_stop: u32 = reader.read_u32()?;
        let numbering_shape_id: u16 = reader.read_u16()?;
        let page_starting_number: u16 = reader.read_u16()?;
        let image_starting_number: u16 = reader.read_u16()?;
        let table_starting_number: u16 = reader.read_u16()?;
        let equation_starting_number: u16 = reader.read_u16()?;
        let default_language: u16 = if reader.remaining() >= 2 { reader.read_u16()? } else { 0 };
        Ok(SectionDef {
            properties,
            column_gap,
            vertical_line_align,
            horizontal_line_align,
            default_tab_stop,
            numbering_shape_id,
            page_starting_number,
            image_starting_number,
            table_starting_number,
            equation_starting_number,
            default_language,
        })
    }

    /// The number of columns: bits 20-27 of the properties, plus one.
    pub fn column_count(&self) -> (n: u16)
        ensures
            n == (self.properties / 1048576) % 256 + 1,
    {
        ((self.properties / 1048576) % 256) as u16 + 1
    }

    pub fn is_hide_header(&self) -> (b: bool)
        ensures
            b == (self.properties & 0x01 != 0),
    {
        (self.properties & 0x01) != 0
    }

    pub fn is_hide_footer(&self) -> (b: bool)
        ensures
            b == (self.properties & 0x02 != 0),
    {
        (self.properties & 0x02) != 0
    }

    pub fn is_hide_page_number(&self) -> (b: bool)
        ensures
            b == (self.properties & 0x04 != 0),
    {
        (self.properties & 0x04) != 0
    }
}

} // verus!
