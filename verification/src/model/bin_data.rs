use vstd::prelude::*;
use crate::error::HwpError;
use crate::parser::record::Record;
use crate::model::numbering::optional_text;
use crate::utils::bytes::u16_le;
use crate::utils::compression::{decompress_stream, decompressed};
use crate::utils::text::text_of;

verus! {

/// Binary data embedded in or linked from a document.
#[derive(Debug, Clone)]
pub struct BinData {
    pub properties: u16,
    pub abs_name: String,
    pub rel_name: String,
    pub bin_id: u16,
    pub extension: String,
    pub data: Vec<u8>,
}

/// How binary data is stored.
#[derive(Debug, Clone, Copy, PartialEq, Eq, Structural)]
pub enum BinDataType {
    Link,
    Embedding,
    Storage,
}

/// What `str::to_lowercase` returns for a text: its Unicode lowercase mapping.
pub uninterp spec fn lowercase(s: Seq<char>) -> Seq<char>;

/// The lowercase form of a text: the standard library's `str::to_lowercase`,
/// named by `lowercase`.
#[verifier::external_body]
pub(crate) fn to_lowercase(s: &str) -> (r: String)
    ensures
        r@ == lowercase(s@),
{
    s.to_lowercase()
}

/// The variable fields of a binary data record: absolute name, relative
/// name, where the id is stored, extension and where the content starts;
/// `None` where a read fails.
pub open spec fn bin_data_fields(d: Seq<u8>) -> Option<(Seq<char>, Seq<char>, int, Seq<char>, int)> {
    match optional_text(d, 2) {
        None => None,
        Some((abs, q1)) => match optional_text(d, q1) {
            None => None,
            Some((rel, q2)) => if d.len() - q2 < 2 {
                None
            } else {
                match optional_text(d, q2 + 2) {
                    None => None,
                    Some((ext, q3)) => Some((abs, rel, q2, ext, q3)),
                }
            },
        },
    }
}

/// Whether a lowercase extension names a picture format.
pub open spec fn is_image_extension(e: Seq<char>) -> bool {
    e == "bmp"@ || e == "gif"@ || e == "jpg"@ || e == "jpeg"@ || e == "png"@ || e == "tif"@
        || e == "tiff"@ || e == "wmf"@ || e == "emf"@
}

/// Whether `b` holds the binary data entry stored in `d`.
pub open spec fn bin_data_from(b: BinData, d: Seq<u8>) -> bool {
    match bin_data_fields(d) {
        Some((abs, rel, q2, ext, q3)) => b.properties == u16_le(d, 0) && b.abs_name@ == abs && b.rel_name@ == rel
            && b.bin_id == u16_le(d, q2) && b.extension@ == ext && b.data@ == d.subrange(q3, d.len() as int),
        None => false,
    }
}

impl BinData {
    /// Reads a binary data record: flags, names, id, extension, and the
    /// remaining bytes as content.
    pub fn from_record(record: &Record) -> (res: Result<Self, HwpError>)
        ensures
            ({
                let d = record.data@;
                if d.len() < 6 {
                    res matches Err(HwpError::ParseError(_))
                } else {
                    if bin_data_fields(d) is Some {
                        res matches Ok(b) && bin_data_from(b, d)
                    } else {
                        res is Err
                    }
                }
            }),
    {
        let mut reader = record.data_reader();
        let ghost d = record.data@;
        if reader.remaining() < 6 {
            return Err(HwpError::ParseError(text_of("BinData record too small")));
        }
        let properties: u16 = reader.read_u16()?;
        let abs_len: usize = reader.read_u16()? as usize;
        let abs_name = if reader.remaining() >= abs_len * 2 {
            reader.read_string(abs_len * 2)?
        } else {
            String::new()
        };
        let rel_len: usize = reader.read_u16()? as usize;
        let rel_name = if reader.remaining() >= rel_len * 2 {
            reader.read_string(rel_len * 2)?
        } else {
            String::new()
        };
        if reader.remaining() < 2 {
            return Err(HwpError::ParseError(text_of("Insufficient data for BinData ID")));
        }
        let bin_id: u16 = reader.read_u16()?;
        let extension_len: usize = reader.read_u16()? as usize;
        let extension = if reader.remaining() >= extension_len * 2 {
            reader.read_string(extension_len * 2)?
        } else {
            String::new()
        };
        let rest: usize = reader.remaining();
        let data = reader.read_bytes(rest)?;
        Ok(BinData { properties, abs_name, rel_name, bin_id, extension, data })
    }

    /// The storage kind: bits 0-1 of the flags (3 reads as a link).
    pub fn get_type(&self) -> (t: BinDataType)
        ensures
            t == (if self.properties % 4 == 1 { BinDataType::Embedding } else if self.properties % 4 == 2 {
                BinDataType::Storage
            } else {
                BinDataType::Link
            }),
    {
        match self.properties % 4 {
            0 => BinDataType::Link,
            1 => BinDataType::Embedding,
            2 => BinDataType::Storage,
            _ => BinDataType::Link,
        }
    }

    pub fn is_compressed(&self) -> (b: bool)
        ensures
            b == (self.properties & 0x04 != 0),
    {
        (self.properties & 0x04) != 0
    }

    pub fn is_access_by_path(&self) -> (b: bool)
        ensures
            b == (self.properties & 0x08 != 0),
    {
        (self.properties & 0x08) != 0
    }

    /// Whether the extension, in lowercase, names a picture format.
    pub fn is_image(&self) -> (b: bool)
        ensures
            b == is_image_extension(lowercase(self.extension@)),
    {
        let lower = to_lowercase(self.extension.as_str());
        lower == text_of("bmp") || lower == text_of("gif") || lower == text_of("jpg") || lower == text_of("jpeg")
            || lower == text_of("png") || lower == text_of("tif") || lower == text_of("tiff")
            || lower == text_of("wmf") || lower == text_of("emf")
    }

    /// Whether the extension, in lowercase, is "ole".
    pub fn is_ole_object(&self) -> (b: bool)
        ensures
            b == (lowercase(self.extension@) == "ole"@),
    {
        to_lowercase(self.extension.as_str()) == text_of("ole")
    }

    /// The content, decompressed where the compression flag is set.
    pub fn get_data(&self) -> (res: Result<Vec<u8>, HwpError>)
        ensures
            res matches Ok(v) && v@ == (if self.properties & 0x04 != 0 { decompressed(self.data@) } else { self.data@ }),
    {
        if self.is_compressed() {
            decompress_stream(self.data.as_slice())
        } else {
            Ok(self.data.clone())
        }
    }
}

} // verus!
