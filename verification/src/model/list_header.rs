use vstd::prelude::*;
use crate::error::HwpError;
use crate::parser::record::Record;
use crate::utils::bytes::{u32_le, i32_le};
use crate::utils::text::text_of;

verus! {

/// The header of a list of paragraphs (a cell or a text box).
#[derive(Debug, Clone)]
pub struct ListHeader {
    pub paragraph_count: i32,
    pub properties: u32,
    pub text_width: i32,
    pub text_height: i32,
    pub padding: [u8; 8],
}

impl ListHeader {
    /// Reads a list header: at least 20 bytes; the 8 padding bytes are read
    /// where they are present and left zero otherwise.
    pub fn from_record(record: &Record) -> (res: Result<Self, HwpError>)
        ensures
            ({
                let d = record.data@;
                if d.len() < 20 {
                    res matches Err(HwpError::ParseError(_))
                } else {
                    &&& res matches Ok(h)
                    &&& h.paragraph_count == i32_le(d, 0)
                    &&& h.properties == u32_le(d, 4)
                    &&& h.text_width == i32_le(d, 8)
                    &&& h.text_height == i32_le(d, 12)
                    &&& h.padding@ == (if d.len() >= 24 { d.subrange(16, 24) } else { seq![0u8; 8] })
                }
            }),
    {
        let mut reader = record.data_reader();
        if reader.remaining() < 20 {
            return Err(HwpError::ParseError(text_of("ListHeader record too small")));
        }
        let paragraph_count: i32 = reader.read_i32()?;
        let properties: u32 = reader.read_u32()?;
        let text_width: i32 = reader.read_i32()?;
        let text_height: i32 = reader.read_i32()?;
        let mut padding: [u8; 8] = [0u8; 8];
        if reader.remaining() >= 8 {
            let mut i: usize = 0;
            while i < 8
                invariant
                    i <= 8,
                    reader.bytes() == record.data@,
                    reader.pos() == 16 + i,
                    record.data@.len() >= 24,
                    forall|j: int| 0 <= j < i ==> padding@[j] == record.data@[16 + j],
                decreases 8 - i,
            {
                padding[i] = reader.read_u8()?;
                i = i + 1;
            }
            assert(padding@ =~= record.data@.subrange(16, 24));
        } else {
            assert(padding@ =~= seq![0u8; 8]);
        }
        Ok(ListHeader { paragraph_count, properties, text_width, text_height, padding })
    }

    pub fn is_multi_column(&self) -> (b: bool)
        ensures
            b == (self.properties & 0x01 != 0),
    {
        (self.properties & 0x01) != 0
    }

    pub fn has_line_wrap(&self) -> (b: bool)
        ensures
            b == (self.properties & 0x02 != 0),
    {
        (self.properties & 0x02) != 0
    }

    pub fn is_editable_at_form_mode(&self) -> (b: bool)
        ensures
            b == (self.properties & 0x04 != 0),
    {
        (self.properties & 0x04) != 0
    }
}

} // verus!
