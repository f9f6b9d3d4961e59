use vstd::prelude::*;
use crate::error::HwpError;
use crate::parser::record::Record;
use crate::reader::stream::text_at;
use crate::utils::bytes::{le16, put_u16, u16_le, u16_of, from_i16, i16_of, to_i16};
use crate::utils::encoding::{counted_text, put_counted_text};
use crate::utils::text::text_of;

verus! {

/// A numbering definition: up to seven levels.
#[derive(Debug, Clone)]
pub struct Numbering {
    pub levels: Vec<NumberingLevel>,
}

/// One level of a numbering definition.
#[derive(Debug, Clone)]
pub struct NumberingLevel {
    pub para_shape_id: u16,
    pub number_format: u8,
    pub number_type: u8,
    pub prefix_text: String,
    pub suffix_text: String,
    pub auto_indent: u8,
    pub text_offset_type: u8,
    pub width_adjust_type: u8,
    pub text_offset: i16,
    pub number_width: u16,
    pub char_shape_id: u16,
}

/// A bullet definition.
#[derive(Debug, Clone)]
pub struct Bullet {
    pub para_shape_id: u16,
    pub bullet_char: String,
    pub char_shape_id: u16,
    pub use_image: bool,
    pub image_bullet: Option<ImageBullet>,
}

/// The picture of a picture bullet.
#[derive(Debug, Clone)]
pub struct ImageBullet {
    pub image_width: u16,
    pub image_height: u16,
    pub bin_data_id: u16,
}

/// A length-prefixed text at `p` that is read only where it fits: the text
/// and where the data after it starts; `None` where the prefix cannot be read
/// or the text does not decode.
pub open spec fn optional_text(d: Seq<u8>, p: int) -> Option<(Seq<char>, int)> {
    if d.len() - p < 2 {
        None
    } else {
        let n = u16_le(d, p) as int;
        if d.len() - (p + 2) >= 2 * n {
            match text_at(d, p + 2, 2 * n) {
                Some(t) => Some((t, p + 2 + 2 * n)),
                None => None,
            }
        } else {
            Some((seq![], p + 2))
        }
    }
}

/// The variable part of the numbering level at `p`: prefix, suffix and where
/// the fixed tail starts.
pub open spec fn level_texts(d: Seq<u8>, p: int) -> Option<(Seq<char>, Seq<char>, int)> {
    match optional_text(d, p + 4) {
        None => None,
        Some((pre, q)) => match optional_text(d, q) {
            None => None,
            Some((suf, r)) => Some((pre, suf, r)),
        },
    }
}

/// The levels read from step `k` on, at byte `p`: each level as its start,
/// prefix, suffix and tail start; a level whose tail is cut short is skipped.
/// `None` where a read fails.
pub open spec fn numbering_parse(d: Seq<u8>, p: int, k: nat) -> Option<Seq<(int, Seq<char>, Seq<char>, int)>>
    decreases 7 - k,
{
    if k >= 7 || d.len() - p < 20 {
        Some(seq![])
    } else {
        match level_texts(d, p) {
            None => None,
            Some((pre, suf, r)) => if d.len() - r >= 10 {
                match numbering_parse(d, r + 9, k + 1) {
                    Some(rest) => Some(seq![(p, pre, suf, r)] + rest),
                    None => None,
                }
            } else {
                numbering_parse(d, r, k + 1)
            },
        }
    }
}

/// A level holds the fields stored at the places `t` names.
pub open spec fn level_matches(l: NumberingLevel, d: Seq<u8>, t: (int, Seq<char>, Seq<char>, int)) -> bool {
    &&& l.para_shape_id == u16_le(d, t.0)
    &&& l.number_format == d[t.0 + 2]
    &&& l.number_type == d[t.0 + 3]
    &&& l.prefix_text@ == t.1
    &&& l.suffix_text@ == t.2
    &&& l.auto_indent == d[t.3]
    &&& l.text_offset_type == d[t.3 + 1]
    &&& l.width_adjust_type == d[t.3 + 2]
    &&& l.text_offset == i16_of(u16_le(d, t.3 + 3))
    &&& l.number_width == u16_le(d, t.3 + 5)
    &&& l.char_shape_id == u16_le(d, t.3 + 7)
}

pub open spec fn prepend<T>(acc: Seq<T>, rest: Option<Seq<T>>) -> Option<Seq<T>> {
    match rest {
        Some(r) => Some(acc + r),
        None => None,
    }
}

/// Whether `n` holds the numbering levels stored in `d`.
pub open spec fn numbering_from(n: Numbering, d: Seq<u8>) -> bool {
    match numbering_parse(d, 0, 0) {
        Some(s) => n.levels@.len() == s.len() && forall|i: int|
            0 <= i < s.len() ==> level_matches(#[trigger] n.levels@[i], d, s[i]),
        None => false,
    }
}

impl Numbering {
    /// Reads up to seven numbering levels.
    pub fn from_record(record: &Record) -> (res: Result<Self, HwpError>)
        ensures
            if numbering_parse(record.data@, 0, 0) is Some {
                res matches Ok(n) && numbering_from(n, record.data@)
            } else {
                res is Err
            },
    {
        let mut reader = record.data_reader();
        let ghost d = record.data@;
        let mut levels: Vec<NumberingLevel> = Vec::new();
        let ghost mut acc: Seq<(int, Seq<char>, Seq<char>, int)> = seq![];
        let mut k: usize = 0;
        while k < 7
            invariant
                d == record.data@,
                reader.bytes() == d,
                0 <= reader.pos() <= d.len(),
                k <= 7,
                levels@.len() == acc.len(),
                forall|i: int| 0 <= i < acc.len() ==> level_matches(#[trigger] levels@[i], d, acc[i]),
                numbering_parse(d, 0, 0) == prepend(acc, numbering_parse(d, reader.pos(), k as nat)),
            ensures
                k >= 7 || d.len() - reader.pos() < 20,
                reader.bytes() == d,
                levels@.len() == acc.len(),
                forall|i: int| 0 <= i < acc.len() ==> level_matches(#[trigger] levels@[i], d, acc[i]),
                numbering_parse(d, 0, 0) == prepend(acc, numbering_parse(d, reader.pos(), k as nat)),
            decreases 7 - k,
        {
            if reader.remaining() < 20 {
                break;
            }
            let ghost p = reader.pos();
            let para_shape_id: u16 = reader.read_u16()?;
            let number_format: u8 = reader.read_u8()?;
            let number_type: u8 = reader.read_u8()?;
            let prefix_len: usize = reader.read_u16()? as usize;
            let prefix_text = if reader.remaining() >= prefix_len * 2 {
                match reader.read_string(prefix_len * 2) {
                    Ok(t) => t,
                    Err(e) => {
                        assert(numbering_parse(d, p, k as nat) is None);
                        return Err(e);
                    },
                }
            } else {
                String::new()
            };
            let ghost q = reader.pos();
            let suffix_len: usize = match reader.read_u16() {
                Ok(v) => v as usize,
                Err(e) => {
                    assert(optional_text(d, q) is None);
                    assert(numbering_parse(d, p, k as nat) is None);
                    return Err(e);
                },
            };
            let suffix_text = if reader.remaining() >= suffix_len * 2 {
                match reader.read_string(suffix_len * 2) {
                    Ok(t) => t,
                    Err(e) => {
                        assert(numbering_parse(d, p, k as nat) is None);
                        return Err(e);
                    },
                }
            } else {
                String::new()
            };
            let ghost r = reader.pos();
            assert(level_texts(d, p) == Some((prefix_text@, suffix_text@, r)));
            if reader.remaining() >= 10 {
                let auto_indent: u8 = reader.read_u8()?;
                let text_offset_type: u8 = reader.read_u8()?;
                let width_adjust_type: u8 = reader.read_u8()?;
                let text_offset: i16 = to_i16(reader.read_u16()?);
                let number_width: u16 = reader.read_u16()?;
                let char_shape_id: u16 = reader.read_u16()?;
                let level = NumberingLevel {
                    para_shape_id,
                    number_format,
                    number_type,
                    prefix_text,
                    suffix_text,
                    auto_indent,
                    text_offset_type,
                    width_adjust_type,
                    text_offset,
                    number_width,
                    char_shape_id,
                };
                levels.push(level);
                proof {
                    let t = (p, prefix_text@, suffix_text@, r);
                    assert(numbering_parse(d, p, k as nat) == prepend(seq![t], numbering_parse(d, r + 9, (k + 1) as nat)));
                    assert(acc.push(t) =~= acc + seq![t]);
                    match numbering_parse(d, r + 9, (k + 1) as nat) {
                        Some(rest) => { assert(acc + (seq![t] + rest) =~= acc.push(t) + rest); },
                        None => {},
                    }
                    acc = acc.push(t);
                }
            }
            k = k + 1;
        }
        proof {
            assert(numbering_parse(d, reader.pos(), k as nat) == Some(Seq::<(int, Seq<char>, Seq<char>, int)>::empty()));
            assert(acc + Seq::<(int, Seq<char>, Seq<char>, int)>::empty() =~= acc);
        }
        Ok(Numbering { levels })
    }
}

/// The fields of a bullet record after the shape id: the bullet text and
/// where the character shape id is stored; `None` where a read fails.
pub open spec fn bullet_fields(d: Seq<u8>) -> Option<(Seq<char>, int)> {
    match optional_text(d, 2) {
        None => None,
        Some((t, q)) => if d.len() - q < 2 { None } else { Some((t, q)) },
    }
}

/// Whether `b` holds the bullet stored in `d`.
pub open spec fn bullet_from(b: Bullet, d: Seq<u8>) -> bool {
    match bullet_fields(d) {
        Some((t, q)) => b.para_shape_id == u16_le(d, 0) && b.bullet_char@ == t && b.char_shape_id == u16_le(d, q)
            && b.use_image == (d.len() - (q + 2) >= 6) && (if d.len() - (q + 2) >= 6 {
            b.image_bullet matches Some(im) && im.image_width == u16_le(d, q + 2) && im.image_height == u16_le(
                d,
                q + 4,
            ) && im.bin_data_id == u16_le(d, q + 6)
        } else {
            b.image_bullet is None
        }),
        None => false,
    }
}

impl Bullet {
    /// Reads a bullet: shape id, bullet text, character shape id, and the
    /// picture bullet where six more bytes follow.
    pub fn from_record(record: &Record) -> (res: Result<Self, HwpError>)
        ensures
            ({
                let d = record.data@;
                if d.len() < 6 {
                    res matches Err(HwpError::ParseError(_))
                } else {
                    if bullet_fields(d) is Some {
                        res matches Ok(b) && bullet_from(b, d)
                    } else {
                        res is Err
                    }
                }
            }),
    {
        let mut reader = record.data_reader();
        let ghost d = record.data@;
        if reader.remaining() < 6 {
            return Err(HwpError::ParseError(text_of("Bullet record too small")));
        }
        let para_shape_id: u16 = reader.read_u16()?;
        let bullet_len: usize = reader.read_u16()? as usize;
        let bullet_char = if reader.remaining() >= bullet_len * 2 {
            reader.read_string(bullet_len * 2)?
        } else {
            String::new()
        };
        let char_shape_id: u16 = reader.read_u16()?;
        let use_image: bool = reader.remaining() >= 6;
        let image_bullet = if use_image {
            let image_width: u16 = reader.read_u16()?;
            let image_height: u16 = reader.read_u16()?;
            let bin_data_id: u16 = reader.read_u16()?;
            Some(ImageBullet { image_width, image_height, bin_data_id })
        } else {
            None
        };
        Ok(Bullet { para_shape_id, bullet_char, char_shape_id, use_image, image_bullet })
    }
}

impl NumberingLevel {
    pub fn is_decimal(&self) -> (b: bool)
        ensures
            b == (self.number_type == 0),
    {
        self.number_type == 0
    }

    pub fn is_circle_num(&self) -> (b: bool)
        ensures
            b == (self.number_type == 1),
    {
        self.number_type == 1
    }

    pub fn is_lower_roman(&self) -> (b: bool)
        ensures
            b == (self.number_type == 2),
    {
        self.number_type == 2
    }

    pub fn is_upper_roman(&self) -> (b: bool)
        ensures
            b == (self.number_type == 3),
    {
        self.number_type == 3
    }

    pub fn is_lower_alpha(&self) -> (b: bool)
        ensures
            b == (self.number_type == 4),
    {
        self.number_type == 4
    }

    pub fn is_upper_alpha(&self) -> (b: bool)
        ensures
            b == (self.number_type == 5),
    {
        self.number_type == 5
    }
}

/// The bytes of a numbering level, laid out as `Numbering::from_record`
/// reads them: paragraph shape, format and type, prefix and suffix with their
/// counts, then indent, offset type, width adjustment, offset, width and
/// character shape.
pub open spec fn level_bytes(l: NumberingLevel) -> Seq<u8> {
    le16(l.para_shape_id) + seq![l.number_format, l.number_type] + counted_text(l.prefix_text@) + counted_text(
        l.suffix_text@,
    ) + seq![l.auto_indent, l.text_offset_type, l.width_adjust_type] + le16(u16_of(l.text_offset)) + le16(
        l.number_width,
    ) + le16(l.char_shape_id)
}

/// The bytes of the first `n` levels.
pub open spec fn levels_bytes(ls: Seq<NumberingLevel>, n: int) -> Seq<u8>
    decreases n,
{
    if n <= 0 {
        seq![]
    } else {
        levels_bytes(ls, n - 1) + level_bytes(ls[n - 1])
    }
}

/// The bytes of a numbering: its levels, then one zero byte, since the
/// reader reads a level's tail only where a byte follows it.
pub open spec fn numbering_bytes(n: Numbering) -> Seq<u8> {
    levels_bytes(n.levels@, n.levels@.len() as int) + seq![0u8]
}

/// The bytes of a bullet, laid out as `Bullet::from_record` reads them:
/// paragraph shape, the bullet character with its count, character shape,
/// then the picture's size and binary data id where it has a picture.
pub open spec fn bullet_bytes(b: Bullet) -> Seq<u8> {
    le16(b.para_shape_id) + counted_text(b.bullet_char@) + le16(b.char_shape_id) + match b.image_bullet {
        Some(im) => le16(im.image_width) + le16(im.image_height) + le16(im.bin_data_id),
        None => seq![],
    }
}

/// Appends the bytes of a numbering level.
fn put_level(data: &mut Vec<u8>, l: &NumberingLevel)
    ensures
        final(data)@ == old(data)@ + level_bytes(*l),
{
    put_u16(data, l.para_shape_id);
    data.push(l.number_format);
    data.push(l.number_type);
    put_counted_text(data, l.prefix_text.as_str());
    put_counted_text(data, l.suffix_text.as_str());
    data.push(l.auto_indent);
    data.push(l.text_offset_type);
    data.push(l.width_adjust_type);
    put_u16(data, from_i16(l.text_offset));
    put_u16(data, l.number_width);
    put_u16(data, l.char_shape_id);
    assert(data@ =~= old(data)@ + level_bytes(*l));
}

impl Numbering {
    /// The bytes of the numbering: its levels, one after another, and a
    /// closing zero byte.
    pub fn to_bytes(&self) -> (bytes: Vec<u8>)
        ensures
            bytes@ == numbering_bytes(*self),
    {
        let mut data: Vec<u8> = Vec::new();
        let mut k: usize = 0;
        while k < self.levels.len()
            invariant
                k <= self.levels@.len(),
                data@ == levels_bytes(self.levels@, k as int),
            decreases self.levels.len() - k,
        {
            put_level(&mut data, &self.levels[k]);
            assert(data@ =~= levels_bytes(self.levels@, k + 1));
            k = k + 1;
        }
        data.push(0u8);
        data
    }
}

impl Bullet {
    /// The bytes of the bullet.
    pub fn to_bytes(&self) -> (bytes: Vec<u8>)
        ensures
            bytes@ == bullet_bytes(*self),
    {
        let mut data: Vec<u8> = Vec::new();
        put_u16(&mut data, self.para_shape_id);
        put_counted_text(&mut data, self.bullet_char.as_str());
        put_u16(&mut data, self.char_shape_id);
        match &self.image_bullet {
            Some(im) => {
                put_u16(&mut data, im.image_width);
                put_u16(&mut data, im.image_height);
                put_u16(&mut data, im.bin_data_id);
            },
            None => {},
        }
        assert(data@ =~= bullet_bytes(*self));
        data
    }
}

} // verus!
