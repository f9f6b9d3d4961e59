use vstd::prelude::*;
use crate::error::HwpError;
use crate::parser::record::Record;
use crate::reader::stream::{text_at, trim_nuls};
use crate::utils::bytes::{le16, lemma_u16_at, u16_le};
use crate::utils::encoding::{has_bom, lemma_units_at_encoded, utf16_units, utf16le_bytes};
use crate::writer::serializer::written_style;
use crate::utils::text::text_of;

verus! {

/// A named style.
#[derive(Debug, Clone)]
pub struct Style {
    pub name: String,
    pub english_name: String,
    pub properties: u8,
    pub next_style_id: u8,
    pub lang_id: u16,
    pub para_shape_id: u16,
    pub char_shape_id: u16,
}

/// The English name of a style record whose optional part starts at `p`
/// and where the fields after it start; `None` where it does not decode.
pub open spec fn style_english(d: Seq<u8>, p: int) -> Option<(Seq<char>, int)> {
    if d.len() - p >= 2 {
        let n = u16_le(d, p) as int;
        if d.len() - (p + 2) >= 2 * n {
            match text_at(d, p + 2, 2 * n) {
                Some(t) => Some((t, p + 2 + 2 * n)),
                None => None,
            }
        } else {
            Some((seq![], p + 2))
        }
    } else {
        Some((seq![], p))
    }
}

/// The fields of a style record: name, English name and where the fixed
/// fields start; `None` where the record is malformed.
pub open spec fn style_fields(d: Seq<u8>) -> Option<(Seq<char>, Seq<char>, int)> {
    if d.len() < 10 || d.len() - 2 < 2 * u16_le(d, 0) {
        None
    } else {
        let n = u16_le(d, 0) as int;
        match text_at(d, 2, 2 * n) {
            None => None,
            Some(name) => match style_english(d, 2 + 2 * n) {
                None => None,
                Some((en, q)) => if d.len() - q < 8 { None } else { Some((name, en, q)) },
            },
        }
    }
}

/// Whether `s` holds the style stored in `d`.
pub open spec fn style_from(s: Style, d: Seq<u8>) -> bool {
    match style_fields(d) {
        Some((name, en, q)) => s.name@ == name && s.english_name@ == en && s.properties == d[q]
            && s.next_style_id == d[q + 1] && s.lang_id == u16_le(d, q + 2) && s.para_shape_id == u16_le(d, q + 4)
            && s.char_shape_id == u16_le(d, q + 6),
        None => false,
    }
}

/// Whether a style name can be written and read back as it is: fewer than
/// 32768 UTF-16 units (the count written is the byte length, cut to 16 bits,
/// halved), no NUL at its end (reading drops trailing NULs), and bytes that
/// do not open with a byte order mark (which decoding would take as one).
pub open spec fn style_name_storable(n: Seq<char>) -> bool {
    &&& utf16_units(n).len() < 32768
    &&& trim_nuls(n) == n
    &&& !has_bom(utf16le_bytes(n))
}

/// Whether `d` holds the bytes `serialize_style` writes for `s`, whose names
/// can be read back as they are.
pub open spec fn writes_style(s: Style, d: Seq<u8>) -> bool {
    &&& d == written_style(s)
    &&& style_name_storable(s.name@) && style_name_storable(s.english_name@)
}

/// Where the fields of a written style lie: the name's count and bytes, the
/// English name's count and bytes, then the eight bytes of the fixed fields.
pub open spec fn style_layout(s: Style, d: Seq<u8>) -> bool {
    let n1 = utf16_units(s.name@).len() as int;
    let n2 = utf16_units(s.english_name@).len() as int;
    let q = 4 + 2 * n1 + 2 * n2;
    &&& d.len() == q + 8
    &&& u16_le(d, 0) == n1
    &&& d.subrange(2, 2 + 2 * n1) == utf16le_bytes(s.name@)
    &&& u16_le(d, 2 + 2 * n1) == n2
    &&& d.subrange(4 + 2 * n1, q) == utf16le_bytes(s.english_name@)
    &&& d[q] == s.properties && d[q + 1] == s.next_style_id
    &&& u16_le(d, q + 2) == s.lang_id && u16_le(d, q + 4) == s.para_shape_id && u16_le(d, q + 6) == s.char_shape_id
}

#[verifier::spinoff_prover]
#[verifier::rlimit(100)]
proof fn lemma_style_layout(s: Style)
    requires
        utf16_units(s.name@).len() < 32768,
        utf16_units(s.english_name@).len() < 32768,
    ensures
        style_layout(s, written_style(s)),
{
    let d = written_style(s);
    let a = s.name@;
    let e = s.english_name@;
    let n1 = utf16_units(a).len() as int;
    let n2 = utf16_units(e).len() as int;
    let ba = utf16le_bytes(a);
    let be = utf16le_bytes(e);
    lemma_units_at_encoded(seq![], a, seq![]);
    lemma_units_at_encoded(seq![], e, seq![]);
    assert(((ba.len() % 65536) / 2) as u16 == n1 as u16);
    assert(((be.len() % 65536) / 2) as u16 == n2 as u16);
    let q = 4 + 2 * n1 + 2 * n2;
    let tail = seq![s.properties, s.next_style_id] + le16(s.lang_id) + le16(s.para_shape_id) + le16(s.char_shape_id);
    assert(d =~= le16(n1 as u16) + ba + le16(n2 as u16) + be + tail);
    assert(d.subrange(0, 2) =~= le16(n1 as u16));
    lemma_u16_at(d, 0, n1 as u16);
    assert(d.subrange(2, 2 + 2 * n1) =~= ba);
    assert(d.subrange(2 + 2 * n1, 4 + 2 * n1) =~= le16(n2 as u16));
    lemma_u16_at(d, 2 + 2 * n1, n2 as u16);
    assert(d.subrange(4 + 2 * n1, q) =~= be);
    assert(d.subrange(q + 2, q + 4) =~= le16(s.lang_id));
    lemma_u16_at(d, q + 2, s.lang_id);
    assert(d.subrange(q + 4, q + 6) =~= le16(s.para_shape_id));
    lemma_u16_at(d, q + 4, s.para_shape_id);
    assert(d.subrange(q + 6, q + 8) =~= le16(s.char_shape_id));
    lemma_u16_at(d, q + 6, s.char_shape_id);
}

impl Style {
    /// Reads a style: name, optional English name, then flags, next style,
    /// language and the shapes it uses.
    pub fn from_record(record: &Record) -> (res: Result<Self, HwpError>)
        ensures
            ({
                let d = record.data@;
                &&& (d.len() < 10 || d.len() - 2 < 2 * u16_le(d, 0)) ==> (res matches Err(HwpError::ParseError(_)))
                &&& if style_fields(d) is Some {
                    res matches Ok(s) && style_from(s, d)
                } else {
                    res is Err
                }
            }),
            forall|s: Style| #[trigger] writes_style(s, record.data@) ==> {
                &&& res matches Ok(r)
                &&& r.name@ == s.name@ && r.english_name@ == s.english_name@
                &&& r.properties == s.properties && r.next_style_id == s.next_style_id
                &&& r.lang_id == s.lang_id && r.para_shape_id == s.para_shape_id && r.char_shape_id == s.char_shape_id
            },
    {
        let mut reader = record.data_reader();
        let ghost d = record.data@;
        proof {
            assert forall|s: Style| #[trigger] writes_style(s, d) implies style_layout(s, d) by {
                lemma_style_layout(s);
            }
        }
        if reader.remaining() < 10 {
            return Err(HwpError::ParseError(text_of("Style record too small")));
        }
        let name_len: usize = reader.read_u16()? as usize;
        if reader.remaining() < name_len * 2 {
            return Err(HwpError::ParseError(text_of("Invalid style name length")));
        }
        let name = reader.read_string(name_len * 2)?;
        let english_name = if reader.remaining() >= 2 {
            let english_len: usize = reader.read_u16()? as usize;
            if reader.remaining() >= english_len * 2 {
                reader.read_string(english_len * 2)?
            } else {
                String::new()
            }
        } else {
            String::new()
        };
        assert(style_english(d, 2 + 2 * name_len) matches Some((en, q)) && en == english_name@ && q == reader.pos());
        if reader.remaining() < 8 {
            return Err(HwpError::ParseError(text_of("Insufficient data for style properties")));
        }
        let properties: u8 = reader.read_u8()?;
        let next_style_id: u8 = reader.read_u8()?;
        let lang_id: u16 = reader.read_u16()?;
        let para_shape_id: u16 = reader.read_u16()?;
        let char_shape_id: u16 = reader.read_u16()?;
        Ok(Style { name, english_name, properties, next_style_id, lang_id, para_shape_id, char_shape_id })
    }
}

} // verus!
