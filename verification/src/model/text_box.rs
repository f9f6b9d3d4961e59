use vstd::prelude::*;
use crate::error::HwpError;
use crate::parser::record::Record;
use crate::utils::bytes::{
    from_i16, from_i32, i16_of, i32_le, le16, le32, lemma_i16_roundtrip, lemma_i32_roundtrip, lemma_u16_at, lemma_u32_at,
    put_u16, put_u32, to_i16, u16_le, u16_of, u32_le, u32_of,
};
use crate::utils::encoding::{
    counted_text, lemma_units_at_encoded, lemma_utf16_units_injective, put_counted_text, units_at, units_of,
    utf16_to_string, utf16_units, utf16le_bytes, valid_utf16,
};
use crate::utils::text::text_of;

verus! {

/// How a text box is placed.
#[derive(Debug, Clone, Copy, PartialEq, Eq, Structural)]
pub enum TextBoxAlignment {
    /// Treated like a character of the text.
    Inline,
    Left,
    Center,
    Right,
    /// At a free position.
    Absolute,
}

/// The border of a text box.
#[derive(Debug, Clone, Copy, PartialEq, Eq, Structural)]
pub enum TextBoxBorderStyle {
    /// No border.
    NoBorder,
    Solid,
    Dotted,
    Dashed,
    Double,
}

/// How the background of a text box is filled.
#[derive(Debug, Clone, Copy, PartialEq, Eq, Structural)]
pub enum TextBoxFillType {
    /// No fill.
    NoFill,
    Solid,
    Gradient,
    Image,
}

/// A text box: a text placed in a frame.
#[derive(Debug, Clone)]
pub struct TextBox {
    pub text: String,
    /// Position in HWP units.
    pub x: i32,
    pub y: i32,
    /// Size in HWP units.
    pub width: u32,
    pub height: u32,
    pub alignment: TextBoxAlignment,
    pub border_style: TextBoxBorderStyle,
    pub border_width: u8,
    /// Border colour (RGB).
    pub border_color: u32,
    pub fill_type: TextBoxFillType,
    /// Background colour (RGB).
    pub background_color: u32,
    /// Inner padding in HWP units.
    pub padding: u16,
    pub char_shape_id: u16,
    pub para_shape_id: u16,
    pub z_order: u16,
    /// 0 is transparent, 255 opaque.
    pub opacity: u8,
    /// Rotation in degrees.
    pub rotation: i16,
}

pub open spec fn alignment_code(a: TextBoxAlignment) -> u8 {
    match a {
        TextBoxAlignment::Inline => 0,
        TextBoxAlignment::Left => 1,
        TextBoxAlignment::Center => 2,
        TextBoxAlignment::Right => 3,
        TextBoxAlignment::Absolute => 4,
    }
}

pub open spec fn border_code(b: TextBoxBorderStyle) -> u8 {
    match b {
        TextBoxBorderStyle::NoBorder => 0,
        TextBoxBorderStyle::Solid => 1,
        TextBoxBorderStyle::Dotted => 2,
        TextBoxBorderStyle::Dashed => 3,
        TextBoxBorderStyle::Double => 4,
    }
}

pub open spec fn fill_code(f: TextBoxFillType) -> u8 {
    match f {
        TextBoxFillType::NoFill => 0,
        TextBoxFillType::Solid => 1,
        TextBoxFillType::Gradient => 2,
        TextBoxFillType::Image => 3,
    }
}

/// The alignment a stored code stands for; inline for unknown codes.
pub open spec fn alignment_of(c: u8) -> TextBoxAlignment {
    if c == 1 {
        TextBoxAlignment::Left
    } else if c == 2 {
        TextBoxAlignment::Center
    } else if c == 3 {
        TextBoxAlignment::Right
    } else if c == 4 {
        TextBoxAlignment::Absolute
    } else {
        TextBoxAlignment::Inline
    }
}

/// The border style a stored code stands for; solid for unknown codes.
pub open spec fn border_of(c: u8) -> TextBoxBorderStyle {
    if c == 0 {
        TextBoxBorderStyle::NoBorder
    } else if c == 2 {
        TextBoxBorderStyle::Dotted
    } else if c == 3 {
        TextBoxBorderStyle::Dashed
    } else if c == 4 {
        TextBoxBorderStyle::Double
    } else {
        TextBoxBorderStyle::Solid
    }
}

/// The fill type a stored code stands for; none for unknown codes.
pub open spec fn fill_of(c: u8) -> TextBoxFillType {
    if c == 1 {
        TextBoxFillType::Solid
    } else if c == 2 {
        TextBoxFillType::Gradient
    } else if c == 3 {
        TextBoxFillType::Image
    } else {
        TextBoxFillType::NoFill
    }
}

impl TextBoxAlignment {
    pub fn code(&self) -> (c: u8)
        ensures
            c == alignment_code(*self),
    {
        match self {
            TextBoxAlignment::Inline => 0,
            TextBoxAlignment::Left => 1,
            TextBoxAlignment::Center => 2,
            TextBoxAlignment::Right => 3,
            TextBoxAlignment::Absolute => 4,
        }
    }

    /// The alignment a stored code stands for; inline for unknown codes.
    pub fn from_code(c: u8) -> (a: Self)
        ensures
            a == alignment_of(c),
    {
        match c {
            1 => TextBoxAlignment::Left,
            2 => TextBoxAlignment::Center,
            3 => TextBoxAlignment::Right,
            4 => TextBoxAlignment::Absolute,
            _ => TextBoxAlignment::Inline,
        }
    }
}

impl TextBoxBorderStyle {
    pub fn code(&self) -> (c: u8)
        ensures
            c == border_code(*self),
    {
        match self {
            TextBoxBorderStyle::NoBorder => 0,
            TextBoxBorderStyle::Solid => 1,
            TextBoxBorderStyle::Dotted => 2,
            TextBoxBorderStyle::Dashed => 3,
            TextBoxBorderStyle::Double => 4,
        }
    }

    /// The border style a stored code stands for; solid for unknown codes.
    pub fn from_code(c: u8) -> (b: Self)
        ensures
            b == border_of(c),
    {
        match c {
            0 => TextBoxBorderStyle::NoBorder,
            2 => TextBoxBorderStyle::Dotted,
            3 => TextBoxBorderStyle::Dashed,
            4 => TextBoxBorderStyle::Double,
            _ => TextBoxBorderStyle::Solid,
        }
    }
}

impl TextBoxFillType {
    pub fn code(&self) -> (c: u8)
        ensures
            c == fill_code(*self),
    {
        match self {
            TextBoxFillType::NoFill => 0,
            TextBoxFillType::Solid => 1,
            TextBoxFillType::Gradient => 2,
            TextBoxFillType::Image => 3,
        }
    }

    /// The fill type a stored code stands for; none for unknown codes.
    pub fn from_code(c: u8) -> (f: Self)
        ensures
            f == fill_of(c),
    {
        match c {
            1 => TextBoxFillType::Solid,
            2 => TextBoxFillType::Gradient,
            3 => TextBoxFillType::Image,
            _ => TextBoxFillType::NoFill,
        }
    }
}

/// Whether `b` holds `text` with border `style`, `width` and `color`, fill
/// `fill`, background `background` and padding `padding`, all else at the
/// defaults: at the origin, 5000 by 2000 units, inline, ids and z-order 0,
/// opaque, not rotated.
pub open spec fn box_styled(
    b: TextBox,
    text: Seq<char>,
    style: TextBoxBorderStyle,
    width: u8,
    color: u32,
    fill: TextBoxFillType,
    background: u32,
    padding: u16,
) -> bool {
    &&& b.text@ == text
    &&& b.x == 0 && b.y == 0
    &&& b.width == 5000 && b.height == 2000
    &&& b.alignment == TextBoxAlignment::Inline
    &&& b.border_style == style
    &&& b.border_width == width
    &&& b.border_color == color
    &&& b.fill_type == fill
    &&& b.background_color == background
    &&& b.padding == padding
    &&& b.char_shape_id == 0 && b.para_shape_id == 0 && b.z_order == 0
    &&& b.opacity == 255
    &&& b.rotation == 0
}

/// A text box holding `text` with every setting at its default: a thin black
/// solid border, no fill over a white background, 100 units of padding.
pub open spec fn default_box(b: TextBox, text: Seq<char>) -> bool {
    box_styled(b, text, TextBoxBorderStyle::Solid, 1, 0x000000, TextBoxFillType::NoFill, 0xFFFFFF, 100)
}

/// The bytes of a text box.
pub open spec fn text_box_bytes(b: TextBox) -> Seq<u8> {
    le32(u32_of(b.x)) + le32(u32_of(b.y)) + le32(b.width) + le32(b.height) + seq![
        alignment_code(b.alignment),
        border_code(b.border_style),
        b.border_width,
    ] + le32(b.border_color) + seq![fill_code(b.fill_type)] + le32(b.background_color) + le16(b.padding)
        + le16(b.char_shape_id) + le16(b.para_shape_id) + le16(b.z_order) + seq![b.opacity] + le16(
        u16_of(b.rotation),
    ) + counted_text(b.text@)
}

/// The number of UTF-16 units of a stored text box's text.
pub open spec fn stored_text_len(d: Seq<u8>) -> int {
    u16_le(d, 39) as int
}

/// Whether `b` holds the fixed fields stored in `d`.
pub open spec fn box_fields_from(b: TextBox, d: Seq<u8>) -> bool {
    &&& b.x == i32_le(d, 0)
    &&& b.y == i32_le(d, 4)
    &&& b.width == u32_le(d, 8)
    &&& b.height == u32_le(d, 12)
    &&& b.alignment == alignment_of(d[16])
    &&& b.border_style == border_of(d[17])
    &&& b.border_width == d[18]
    &&& b.border_color == u32_le(d, 19)
    &&& b.fill_type == fill_of(d[23])
    &&& b.background_color == u32_le(d, 24)
    &&& b.padding == u16_le(d, 28)
    &&& b.char_shape_id == u16_le(d, 30)
    &&& b.para_shape_id == u16_le(d, 32)
    &&& b.z_order == u16_le(d, 34)
    &&& b.opacity == d[36]
    &&& b.rotation == i16_of(u16_le(d, 37))
}

impl Default for TextBox {
    fn default() -> (b: Self)
        ensures
            default_box(b, Seq::empty()),
    {
        TextBox {
            text: String::new(),
            x: 0,
            y: 0,
            width: 5000,
            height: 2000,
            alignment: TextBoxAlignment::Inline,
            border_style: TextBoxBorderStyle::Solid,
            border_width: 1,
            border_color: 0x000000,
            fill_type: TextBoxFillType::NoFill,
            background_color: 0xFFFFFF,
            padding: 100,
            char_shape_id: 0,
            para_shape_id: 0,
            z_order: 0,
            opacity: 255,
            rotation: 0,
        }
    }
}

impl TextBox {
    /// A text box holding `text` with the default settings.
    pub fn new(text: &str) -> (b: Self)
        ensures
            default_box(b, text@),
    {
        TextBox { text: text_of(text), ..Default::default() }
    }

    /// Places the box, from millimetres (100 units each).
    pub fn with_position_mm(self, x_mm: i32, y_mm: i32) -> (b: Self)
        requires
            i32::MIN <= x_mm * 100 <= i32::MAX,
            i32::MIN <= y_mm * 100 <= i32::MAX,
        ensures
            b == (TextBox { x: (x_mm * 100) as i32, y: (y_mm * 100) as i32, ..self }),
    {
        TextBox { x: x_mm * 100, y: y_mm * 100, ..self }
    }

    /// Sizes the box, from millimetres (100 units each).
    pub fn with_size_mm(self, width_mm: u32, height_mm: u32) -> (b: Self)
        requires
            width_mm * 100 <= u32::MAX,
            height_mm * 100 <= u32::MAX,
        ensures
            b == (TextBox { width: (width_mm * 100) as u32, height: (height_mm * 100) as u32, ..self }),
    {
        TextBox { width: width_mm * 100, height: height_mm * 100, ..self }
    }

    pub fn with_alignment(self, alignment: TextBoxAlignment) -> (b: Self)
        ensures
            b == (TextBox { alignment, ..self }),
    {
        TextBox { alignment, ..self }
    }

    pub fn with_border(self, style: TextBoxBorderStyle, width: u8, color: u32) -> (b: Self)
        ensures
            b == (TextBox { border_style: style, border_width: width, border_color: color, ..self }),
    {
        TextBox { border_style: style, border_width: width, border_color: color, ..self }
    }

    /// Fills the background with one colour.
    pub fn with_background(self, color: u32) -> (b: Self)
        ensures
            b == (TextBox { fill_type: TextBoxFillType::Solid, background_color: color, ..self }),
    {
        TextBox { fill_type: TextBoxFillType::Solid, background_color: color, ..self }
    }

    /// Leaves the background unfilled.
    pub fn with_transparent_background(self) -> (b: Self)
        ensures
            b == (TextBox { fill_type: TextBoxFillType::NoFill, ..self }),
    {
        TextBox { fill_type: TextBoxFillType::NoFill, ..self }
    }

    /// Sets the padding from millimetres (100 units each).
    pub fn with_padding_mm(self, padding_mm: u16) -> (b: Self)
        requires
            padding_mm * 100 <= u16::MAX,
        ensures
            b == (TextBox { padding: (padding_mm * 100) as u16, ..self }),
    {
        TextBox { padding: padding_mm * 100, ..self }
    }

    pub fn with_opacity(self, opacity: u8) -> (b: Self)
        ensures
            b == (TextBox { opacity, ..self }),
    {
        TextBox { opacity, ..self }
    }

    pub fn with_rotation(self, degrees: i16) -> (b: Self)
        ensures
            b == (TextBox { rotation: degrees, ..self }),
    {
        TextBox { rotation: degrees, ..self }
    }

    pub fn with_z_order(self, z_order: u16) -> (b: Self)
        ensures
            b == (TextBox { z_order, ..self }),
    {
        TextBox { z_order, ..self }
    }

    /// The bytes of the text box: position, size, alignment, border,
    /// background, padding, ids, z-order, opacity and rotation, then the text
    /// preceded by its count of UTF-16 units.
    pub fn to_bytes(&self) -> (bytes: Vec<u8>)
        ensures
            bytes@ == text_box_bytes(*self),
    {
        let mut data: Vec<u8> = Vec::new();
        put_u32(&mut data, from_i32(self.x));
        put_u32(&mut data, from_i32(self.y));
        put_u32(&mut data, self.width);
        put_u32(&mut data, self.height);
        data.push(self.alignment.code());
        data.push(self.border_style.code());
        data.push(self.border_width);
        put_u32(&mut data, self.border_color);
        data.push(self.fill_type.code());
        put_u32(&mut data, self.background_color);
        put_u16(&mut data, self.padding);
        put_u16(&mut data, self.char_shape_id);
        put_u16(&mut data, self.para_shape_id);
        put_u16(&mut data, self.z_order);
        data.push(self.opacity);
        put_u16(&mut data, from_i16(self.rotation));
        put_counted_text(&mut data, self.text.as_str());
        assert(data@ =~= text_box_bytes(*self));
        data
    }

    /// Reads a text box: the 39 bytes of fixed fields, the text's count of
    /// UTF-16 units and the text. Fails with an I/O error where the record
    /// ends early, and with a format error where the text is not valid
    /// UTF-16.
    pub fn from_record(record: &Record) -> (res: Result<Self, HwpError>)
        ensures
            ({
                let d = record.data@;
                if d.len() < 41 || d.len() < 41 + 2 * stored_text_len(d) {
                    res matches Err(HwpError::Io(_))
                } else if !valid_utf16(units_at(d, 41, stored_text_len(d))) {
                    res matches Err(HwpError::InvalidFormat(_))
                } else {
                    &&& res matches Ok(b)
                    &&& box_fields_from(b, d)
                    &&& utf16_units(b.text@) == units_at(d, 41, stored_text_len(d))
                }
            }),
    {
        let mut reader = record.data_reader();
        let x: i32 = reader.read_i32()?;
        let y: i32 = reader.read_i32()?;
        let width: u32 = reader.read_u32()?;
        let height: u32 = reader.read_u32()?;
        let alignment = TextBoxAlignment::from_code(reader.read_u8()?);
        let border_style = TextBoxBorderStyle::from_code(reader.read_u8()?);
        let border_width: u8 = reader.read_u8()?;
        let border_color: u32 = reader.read_u32()?;
        let fill_type = TextBoxFillType::from_code(reader.read_u8()?);
        let background_color: u32 = reader.read_u32()?;
        let padding: u16 = reader.read_u16()?;
        let char_shape_id: u16 = reader.read_u16()?;
        let para_shape_id: u16 = reader.read_u16()?;
        let z_order: u16 = reader.read_u16()?;
        let opacity: u8 = reader.read_u8()?;
        let rotation: i16 = to_i16(reader.read_u16()?);
        let text_len: usize = reader.read_u16()? as usize;
        let text_bytes = reader.read_bytes(text_len * 2)?;
        let units = units_of(text_bytes.as_slice());
        proof {
            let d = record.data@;
            assert(units@ =~= units_at(d, 41, stored_text_len(d)));
        }
        let text = match utf16_to_string(units.as_slice()) {
            Some(t) => t,
            None => {
                return Err(HwpError::InvalidFormat(text_of("Invalid UTF-16 text")));
            },
        };
        Ok(TextBox {
            text,
            x,
            y,
            width,
            height,
            alignment,
            border_style,
            border_width,
            border_color,
            fill_type,
            background_color,
            padding,
            char_shape_id,
            para_shape_id,
            z_order,
            opacity,
            rotation,
        })
    }

    /// A plain box: thin black border on white.
    pub fn basic(text: &str) -> (b: Self)
        ensures
            box_styled(b, text@, TextBoxBorderStyle::Solid, 1, 0x000000, TextBoxFillType::Solid, 0xFFFFFF, 100),
    {
        Self::new(text).with_border(TextBoxBorderStyle::Solid, 1, 0x000000).with_background(0xFFFFFF)
    }

    /// A highlighted box: thick black border on yellow.
    pub fn highlight(text: &str) -> (b: Self)
        ensures
            box_styled(b, text@, TextBoxBorderStyle::Solid, 2, 0x000000, TextBoxFillType::Solid, 0xFFFF00, 100),
    {
        Self::new(text).with_border(TextBoxBorderStyle::Solid, 2, 0x000000).with_background(0xFFFF00)
    }

    /// A warning box: thick red border on light red.
    pub fn warning(text: &str) -> (b: Self)
        ensures
            box_styled(b, text@, TextBoxBorderStyle::Solid, 2, 0xFF0000, TextBoxFillType::Solid, 0xFFE0E0, 100),
    {
        Self::new(text).with_border(TextBoxBorderStyle::Solid, 2, 0xFF0000).with_background(0xFFE0E0)
    }

    /// An information box: thin blue border on light blue.
    pub fn info(text: &str) -> (b: Self)
        ensures
            box_styled(b, text@, TextBoxBorderStyle::Solid, 1, 0x0000FF, TextBoxFillType::Solid, 0xE0E0FF, 100),
    {
        Self::new(text).with_border(TextBoxBorderStyle::Solid, 1, 0x0000FF).with_background(0xE0E0FF)
    }

    /// A box with only a grey dashed border.
    pub fn transparent(text: &str) -> (b: Self)
        ensures
            box_styled(b, text@, TextBoxBorderStyle::Dashed, 1, 0x808080, TextBoxFillType::NoFill, 0xFFFFFF, 100),
    {
        Self::new(text).with_border(TextBoxBorderStyle::Dashed, 1, 0x808080).with_transparent_background()
    }

    /// A speech bubble: thick black border on light grey, 5 mm of padding.
    pub fn bubble(text: &str) -> (b: Self)
        ensures
            box_styled(b, text@, TextBoxBorderStyle::Solid, 2, 0x000000, TextBoxFillType::Solid, 0xF0F0F0, 500),
    {
        Self::new(text).with_border(TextBoxBorderStyle::Solid, 2, 0x000000).with_background(0xF0F0F0).with_padding_mm(5)
    }
}

/// A text box written to bytes reads back as the same text box, where its
/// text has fewer than 32768 UTF-16 units (so that the count of units fits
/// its 16-bit field): the record is long enough, its text is valid UTF-16,
/// and whatever reads every field and the text from it holds the box's
/// values.
#[verifier::spinoff_prover]
#[verifier::rlimit(100)]
pub proof fn law_text_box_roundtrip(b: TextBox, r: TextBox)
    requires
        utf16_units(b.text@).len() < 32768,
    ensures
        ({
            let d = text_box_bytes(b);
            &&& d.len() >= 41 + 2 * stored_text_len(d)
            &&& valid_utf16(units_at(d, 41, stored_text_len(d)))
            &&& (box_fields_from(r, d) && utf16_units(r.text@) == units_at(d, 41, stored_text_len(d))) ==> {
                &&& r.text@ == b.text@
                &&& r.x == b.x && r.y == b.y && r.width == b.width && r.height == b.height
                &&& r.alignment == b.alignment && r.border_style == b.border_style
                &&& r.border_width == b.border_width && r.border_color == b.border_color
                &&& r.fill_type == b.fill_type && r.background_color == b.background_color
                &&& r.padding == b.padding && r.char_shape_id == b.char_shape_id
                &&& r.para_shape_id == b.para_shape_id && r.z_order == b.z_order
                &&& r.opacity == b.opacity && r.rotation == b.rotation
            }
        }),
{
    let d = text_box_bytes(b);
    let s = b.text@;
    let t = utf16le_bytes(s);
    let n = utf16_units(s).len();
    lemma_units_at_encoded(d.subrange(0, 41), s, seq![]);
    assert(t.len() == 2 * n);
    let count = ((t.len() % 65536) / 2) as u16;
    assert(count == n);
    assert(d.subrange(0, 4) =~= le32(u32_of(b.x)));
    lemma_u32_at(d, 0, u32_of(b.x));
    assert(d.subrange(4, 8) =~= le32(u32_of(b.y)));
    lemma_u32_at(d, 4, u32_of(b.y));
    lemma_i32_roundtrip(b.x);
    lemma_i32_roundtrip(b.y);
    assert(d.subrange(8, 12) =~= le32(b.width));
    lemma_u32_at(d, 8, b.width);
    assert(d.subrange(12, 16) =~= le32(b.height));
    lemma_u32_at(d, 12, b.height);
    assert(d[16] == alignment_code(b.alignment));
    assert(d[17] == border_code(b.border_style));
    assert(d[18] == b.border_width);
    assert(d.subrange(19, 23) =~= le32(b.border_color));
    lemma_u32_at(d, 19, b.border_color);
    assert(d[23] == fill_code(b.fill_type));
    assert(d.subrange(24, 28) =~= le32(b.background_color));
    lemma_u32_at(d, 24, b.background_color);
    assert(d.subrange(28, 30) =~= le16(b.padding));
    lemma_u16_at(d, 28, b.padding);
    assert(d.subrange(30, 32) =~= le16(b.char_shape_id));
    lemma_u16_at(d, 30, b.char_shape_id);
    assert(d.subrange(32, 34) =~= le16(b.para_shape_id));
    lemma_u16_at(d, 32, b.para_shape_id);
    assert(d.subrange(34, 36) =~= le16(b.z_order));
    lemma_u16_at(d, 34, b.z_order);
    assert(d[36] == b.opacity);
    assert(d.subrange(37, 39) =~= le16(u16_of(b.rotation)));
    lemma_u16_at(d, 37, u16_of(b.rotation));
    lemma_i16_roundtrip(b.rotation);
    assert(d.subrange(39, 41) =~= le16(count));
    lemma_u16_at(d, 39, count);
    assert(d =~= d.subrange(0, 41) + t + seq![]);
    assert(utf16_units(s) == units_at(d, 41, stored_text_len(d)));
    if box_fields_from(r, d) && utf16_units(r.text@) == units_at(d, 41, stored_text_len(d)) {
        lemma_utf16_units_injective(r.text@, s);
    }
}

} // verus!
