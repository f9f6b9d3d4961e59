use vstd::prelude::*;
use crate::error::HwpError;
use crate::parser::record::Record;
use crate::reader::StreamReader;
use crate::reader::stream::text_at;
use crate::utils::bytes::{u16_le, u32_le, i32_le, i8_of, to_i8};
use crate::utils::text::text_of;

verus! {

/// The shape of characters: fonts, sizes, colors and attributes.
#[derive(Debug, Clone)]
pub struct CharShape {
    pub face_name_ids: [u16; 7],
    pub ratios: [u8; 7],
    pub char_spaces: [i8; 7],
    pub relative_sizes: [u8; 7],
    pub char_offsets: [i8; 7],
    pub base_size: i32,
    pub properties: u32,
    pub shadow_gap_x: i8,
    pub shadow_gap_y: i8,
    pub text_color: u32,
    pub underline_color: u32,
    pub shade_color: u32,
    pub shadow_color: u32,
    pub border_fill_id: u16,
}

fn read_u16x7(reader: &mut StreamReader) -> (res: [u16; 7])
    requires
        old(reader).can_read(14),
    ensures
        final(reader).bytes() == old(reader).bytes(),
        final(reader).pos() == old(reader).pos() + 14,
        forall|i: int| 0 <= i < 7 ==> res@[i] == u16_le(old(reader).bytes(), old(reader).pos() + 2 * i),
{
    let mut a: [u16; 7] = [0u16; 7];
    let mut i: usize = 0;
    while i < 7
        invariant
            i <= 7,
            reader.bytes() == old(reader).bytes(),
            reader.pos() == old(reader).pos() + 2 * i,
            old(reader).can_read(14),
            forall|j: int| 0 <= j < i ==> a@[j] == u16_le(old(reader).bytes(), old(reader).pos() + 2 * j),
        decreases 7 - i,
    {
        match reader.read_u16() {
            Ok(v) => { a[i] = v; },
            Err(_) => { assert(false); },
        }
        i = i + 1;
    }
    a
}

fn read_u8x7(reader: &mut StreamReader) -> (res: [u8; 7])
    requires
        old(reader).can_read(7),
    ensures
        final(reader).bytes() == old(reader).bytes(),
        final(reader).pos() == old(reader).pos() + 7,
        forall|i: int| 0 <= i < 7 ==> res@[i] == old(reader).bytes()[old(reader).pos() + i],
{
    let mut a: [u8; 7] = [0u8; 7];
    let mut i: usize = 0;
    while i < 7
        invariant
            i <= 7,
            reader.bytes() == old(reader).bytes(),
            reader.pos() == old(reader).pos() + i,
            old(reader).can_read(7),
            forall|j: int| 0 <= j < i ==> a@[j] == old(reader).bytes()[old(reader).pos() + j],
        decreases 7 - i,
    {
        match reader.read_u8() {
            Ok(v) => { a[i] = v; },
            Err(_) => { assert(false); },
        }
        i = i + 1;
    }
    a
}

fn read_i8x7(reader: &mut StreamReader) -> (res: [i8; 7])
    requires
        old(reader).can_read(7),
    ensures
        final(reader).bytes() == old(reader).bytes(),
        final(reader).pos() == old(reader).pos() + 7,
        forall|i: int| 0 <= i < 7 ==> res@[i] == i8_of(old(reader).bytes()[old(reader).pos() + i]),
{
    let mut a: [i8; 7] = [0i8; 7];
    let mut i: usize = 0;
    while i < 7
        invariant
            i <= 7,
            reader.bytes() == old(reader).bytes(),
            reader.pos() == old(reader).pos() + i,
            old(reader).can_read(7),
            forall|j: int| 0 <= j < i ==> a@[j] == i8_of(old(reader).bytes()[old(reader).pos() + j]),
        decreases 7 - i,
    {
        match reader.read_u8() {
            Ok(v) => { a[i] = to_i8(v); },
            Err(_) => { assert(false); },
        }
        i = i + 1;
    }
    a
}

/// Whether `c` holds the character shape stored in `d`: seven face ids,
/// ratios, spacings, relative sizes and offsets, then size, properties,
/// shadow gaps, colours and border fill id.
pub open spec fn char_shape_from(c: CharShape, d: Seq<u8>) -> bool {
    &&& forall|i: int| 0 <= i < 7 ==> c.face_name_ids@[i] == u16_le(d, 2 * i)
    &&& forall|i: int| 0 <= i < 7 ==> c.ratios@[i] == d[14 + i]
    &&& forall|i: int| 0 <= i < 7 ==> c.char_spaces@[i] == i8_of(d[21 + i])
    &&& forall|i: int| 0 <= i < 7 ==> c.relative_sizes@[i] == d[28 + i]
    &&& forall|i: int| 0 <= i < 7 ==> c.char_offsets@[i] == i8_of(d[35 + i])
    &&& c.base_size == i32_le(d, 42)
    &&& c.properties == u32_le(d, 46)
    &&& c.shadow_gap_x == i8_of(d[50])
    &&& c.shadow_gap_y == i8_of(d[51])
    &&& c.text_color == u32_le(d, 52)
    &&& c.underline_color == u32_le(d, 56)
    &&& c.shade_color == u32_le(d, 60)
    &&& c.shadow_color == u32_le(d, 64)
    &&& c.border_fill_id == u16_le(d, 68)
}

impl CharShape {
    pub fn is_bold(&self) -> (b: bool)
        ensures
            b == (self.properties & 0x1 != 0),
    {
        self.properties & 0x1 != 0
    }

    pub fn is_italic(&self) -> (b: bool)
        ensures
            b == (self.properties & 0x2 != 0),
    {
        self.properties & 0x2 != 0
    }

    /// Underlined: the underline type in bits 2-4 is not zero.
    pub fn is_underline(&self) -> (b: bool)
        ensures
            b == ((self.properties / 4) % 8 != 0),
    {
        (self.properties / 4) % 8 != 0
    }

    /// Struck through: the strikethrough type in bits 5-7 is not zero.
    pub fn is_strikethrough(&self) -> (b: bool)
        ensures
            b == ((self.properties / 32) % 8 != 0),
    {
        (self.properties / 32) % 8 != 0
    }

    /// The outline type: bits 8-10.
    pub fn get_outline_type(&self) -> (t: u8)
        ensures
            t == (self.properties / 256) % 8,
    {
        ((self.properties / 256) % 8) as u8
    }

    /// The shadow type: bits 11-12.
    pub fn get_shadow_type(&self) -> (t: u8)
        ensures
            t == (self.properties / 2048) % 4,
    {
        ((self.properties / 2048) % 4) as u8
    }

    /// Reads a character shape of at least 72 bytes.
    pub fn from_record(record: &Record) -> (res: Result<Self, HwpError>)
        ensures
            ({
                let d = record.data@;
                if d.len() < 72 {
                    res matches Err(HwpError::ParseError(_))
                } else {
                    res matches Ok(c) && char_shape_from(c, d)
                }
            }),
    {
        let mut reader = record.data_reader();
        if reader.remaining() < 72 {
            return Err(HwpError::ParseError(text_of("CharShape record too small")));
        }
        let face_name_ids = read_u16x7(&mut reader);
        let ratios = read_u8x7(&mut reader);
        let char_spaces = read_i8x7(&mut reader);
        let relative_sizes = read_u8x7(&mut reader);
        let char_offsets = read_i8x7(&mut reader);
        let base_size: i32 = reader.read_i32()?;
        let properties: u32 = reader.read_u32()?;
        let shadow_gap_x: i8 = to_i8(reader.read_u8()?);
        let shadow_gap_y: i8 = to_i8(reader.read_u8()?);
        let text_color: u32 = reader.read_u32()?;
        let underline_color: u32 = reader.read_u32()?;
        let shade_color: u32 = reader.read_u32()?;
        let shadow_color: u32 = reader.read_u32()?;
        let border_fill_id: u16 = reader.read_u16()?;
        Ok(CharShape {
            face_name_ids,
            ratios,
            char_spaces,
            relative_sizes,
            char_offsets,
            base_size,
            properties,
            shadow_gap_x,
            shadow_gap_y,
            text_color,
            underline_color,
            shade_color,
            shadow_color,
            border_fill_id,
        })
    }

    /// A character shape for writing: the first font, 12pt, black text.
    pub fn new_default() -> (c: Self)
        ensures
            forall|i: int| 0 <= i < 7 ==> c.face_name_ids@[i] == 0 && c.ratios@[i] == 100
                && c.char_spaces@[i] == 0 && c.relative_sizes@[i] == 100 && c.char_offsets@[i] == 0,
            c.base_size == 1200,
            c.properties == 0,
            c.shadow_gap_x == 0 && c.shadow_gap_y == 0,
            c.text_color == 0x000000,
            c.underline_color == 0x000000,
            c.shade_color == 0xFFFFFF,
            c.shadow_color == 0x808080,
            c.border_fill_id == 0,
    {
        CharShape {
            face_name_ids: [0; 7],
            ratios: [100; 7],
            char_spaces: [0; 7],
            relative_sizes: [100; 7],
            char_offsets: [0; 7],
            base_size: 1200,
            properties: 0,
            shadow_gap_x: 0,
            shadow_gap_y: 0,
            text_color: 0x000000,
            underline_color: 0x000000,
            shade_color: 0xFFFFFF,
            shadow_color: 0x808080,
            border_fill_id: 0,
        }
    }
}

/// A font face.
#[derive(Debug, Clone)]
pub struct FaceName {
    pub properties: u8,
    pub font_name: String,
    pub substitute_font_type: u8,
    pub substitute_font_name: String,
    pub panose: Option<[u8; 10]>,
    pub default_font_name: String,
}

/// The substitute font of a face name record, whose optional part starts at
/// `p`: its type, its name and where the next part starts; `None` where its
/// name does not decode.
pub open spec fn face_substitute(d: Seq<u8>, p: int) -> Option<(u8, Seq<char>, int)> {
    if d.len() - p >= 3 {
        let n = u16_le(d, p + 1) as int;
        if d.len() - (p + 3) >= 2 * n {
            match text_at(d, p + 3, 2 * n) {
                Some(t) => Some((d[p], t, p + 3 + 2 * n)),
                None => None,
            }
        } else {
            Some((d[p], seq![], p + 3))
        }
    } else {
        Some((0u8, seq![], p))
    }
}

/// The panose bytes of a face name record at `p`, read where the flag bit
/// 0x80 is set and ten bytes remain.
pub open spec fn face_panose(d: Seq<u8>, p: int) -> Option<Seq<u8>> {
    if d[0] & 0x80 != 0 && d.len() - p >= 10 { Some(d.subrange(p, p + 10)) } else { None }
}

/// The default font name of a face name record at `p`: empty where it is
/// absent or too long for the data, `None` where it does not decode.
pub open spec fn face_default(d: Seq<u8>, p: int) -> Option<Seq<char>> {
    if d.len() - p >= 2 {
        let n = u16_le(d, p) as int;
        if d.len() - (p + 2) >= 2 * n { text_at(d, p + 2, 2 * n) } else { Some(seq![]) }
    } else {
        Some(seq![])
    }
}

/// The fields of a face name record: flags, font name, substitute type and
/// name, panose bytes and default font name; `None` where the record is too
/// short or a name does not decode.
pub open spec fn face_name_fields(d: Seq<u8>) -> Option<(u8, Seq<char>, u8, Seq<char>, Option<Seq<u8>>, Seq<char>)> {
    if d.len() < 7 {
        None
    } else {
        let n = u16_le(d, 1) as int;
        if d.len() - 3 < 2 * n {
            None
        } else {
            match text_at(d, 3, 2 * n) {
                None => None,
                Some(font) => match face_substitute(d, 3 + 2 * n) {
                    None => None,
                    Some((st, sub, p2)) => {
                        let pan = face_panose(d, p2);
                        let p3 = if pan is Some { p2 + 10 } else { p2 };
                        match face_default(d, p3) {
                            None => None,
                            Some(def) => Some((d[0], font, st, sub, pan, def)),
                        }
                    },
                },
            }
        }
    }
}

/// Whether `f` holds the font face stored in `d`.
pub open spec fn face_name_from(f: FaceName, d: Seq<u8>) -> bool {
    match face_name_fields(d) {
        Some((props, font, st, sub, pan, def)) => f.properties == props && f.font_name@ == font
            && f.substitute_font_type == st && f.substitute_font_name@ == sub && (match pan {
            Some(p) => f.panose matches Some(a) && a@ == p,
            None => f.panose is None,
        }) && f.default_font_name@ == def,
        None => false,
    }
}

impl FaceName {
    /// Reads a font face record.
    pub fn from_record(record: &Record) -> (res: Result<Self, HwpError>)
        ensures
            ({
                let d = record.data@;
                &&& (d.len() < 7 || d.len() - 3 < 2 * u16_le(d, 1)) ==> (res matches Err(HwpError::ParseError(_)))
                &&& if face_name_fields(d) is Some {
                    res matches Ok(f) && face_name_from(f, d)
                } else {
                    res is Err
                }
            }),
    {
        let mut reader = record.data_reader();
        let ghost d = record.data@;
        if reader.remaining() < 7 {
            return Err(HwpError::ParseError(text_of("FaceName record too small")));
        }
        let properties: u8 = reader.read_u8()?;
        let font_name_len: usize = reader.read_u16()? as usize;
        if reader.remaining() < font_name_len * 2 {
            return Err(HwpError::ParseError(text_of("Invalid font name length")));
        }
        let font_name = reader.read_string(font_name_len * 2)?;

        let mut substitute_font_type: u8 = 0;
        let mut substitute_font_name = String::new();
        let mut panose: Option<[u8; 10]> = None;
        let mut default_font_name = String::new();

        if reader.remaining() >= 3 {
            substitute_font_type = reader.read_u8()?;
            if reader.remaining() >= 2 {
                let substitute_len: usize = reader.read_u16()? as usize;
                if reader.remaining() >= substitute_len * 2 {
                    substitute_font_name = reader.read_string(substitute_len * 2)?;
                }
            }
        }
        assert(face_substitute(d, 3 + 2 * font_name_len) matches Some((st, sub, p2))
            && st == substitute_font_type && sub == substitute_font_name@ && p2 == reader.pos());

        if properties & 0x80 != 0 && reader.remaining() >= 10 {
            let mut p: [u8; 10] = [0u8; 10];
            let ghost start = reader.pos();
            let mut i: usize = 0;
            while i < 10
                invariant
                    i <= 10,
                    reader.bytes() == d,
                    reader.pos() == start + i,
                    start + 10 <= d.len(),
                    forall|j: int| 0 <= j < i ==> p@[j] == d[start + j],
                decreases 10 - i,
            {
                p[i] = reader.read_u8()?;
                i = i + 1;
            }
            assert(p@ =~= d.subrange(start, start + 10));
            panose = Some(p);
        }

        if reader.remaining() >= 2 {
            let default_len: usize = reader.read_u16()? as usize;
            if reader.remaining() >= default_len * 2 {
                default_font_name = reader.read_string(default_len * 2)?;
            }
        }

        Ok(FaceName {
            properties,
            font_name,
            substitute_font_type,
            substitute_font_name,
            panose,
            default_font_name,
        })
    }

    /// A font face for writing: the given name as font, substitute and
    /// default name.
    pub fn new_default(font_name: String) -> (f: Self)
        ensures
            f.properties == 0,
            f.font_name@ == font_name@,
            f.substitute_font_type == 0,
            f.substitute_font_name@ == font_name@,
            f.panose is None,
            f.default_font_name@ == font_name@,
    {
        FaceName {
            properties: 0,
            font_name: font_name.clone(),
            substitute_font_type: 0,
            substitute_font_name: font_name.clone(),
            panose: None,
            default_font_name: font_name,
        }
    }
}

} // verus!
