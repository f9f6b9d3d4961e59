use vstd::prelude::*;

verus! {

/// The unsigned 16-bit value stored little-endian at byte `i` of `d`.
pub open spec fn u16_le(d: Seq<u8>, i: int) -> u16 {
    (d[i] as int + 256 * d[i + 1] as int) as u16
}

/// The unsigned 32-bit value stored little-endian at byte `i` of `d`.
pub open spec fn u32_le(d: Seq<u8>, i: int) -> u32 {
    (d[i] as int + 256 * d[i + 1] as int + 65536 * d[i + 2] as int + 16777216 * d[i + 3] as int) as u32
}

/// The two's complement reading of an unsigned 32-bit value.
pub open spec fn i32_of(u: u32) -> i32 {
    if u >= 0x8000_0000 { (u - 0x1_0000_0000) as i32 } else { u as i32 }
}

/// The two's complement reading of an unsigned 16-bit value.
pub open spec fn i16_of(u: u16) -> i16 {
    if u >= 0x8000 { (u - 0x1_0000) as i16 } else { u as i16 }
}

/// The two's complement reading of a byte.
pub open spec fn i8_of(u: u8) -> i8 {
    if u >= 0x80 { (u - 0x100) as i8 } else { u as i8 }
}

/// The signed 32-bit value stored little-endian at byte `i` of `d`.
pub open spec fn i32_le(d: Seq<u8>, i: int) -> i32 {
    i32_of(u32_le(d, i))
}

/// The little-endian bytes of a 16-bit value.
pub open spec fn le16(x: u16) -> Seq<u8> {
    seq![(x % 256) as u8, (x / 256) as u8]
}

/// The little-endian bytes of a 32-bit value.
pub open spec fn le32(x: u32) -> Seq<u8> {
    seq![(x % 256) as u8, ((x / 256) % 256) as u8, ((x / 65536) % 256) as u8, (x / 16777216) as u8]
}

/// The unsigned 32-bit value with the same bits as a signed one.
pub open spec fn u32_of(x: i32) -> u32 {
    if x < 0 { (x + 0x1_0000_0000) as u32 } else { x as u32 }
}

/// The unsigned 16-bit value with the same bits as a signed one.
pub open spec fn u16_of(x: i16) -> u16 {
    if x < 0 { (x + 0x1_0000) as u16 } else { x as u16 }
}

pub fn u16_from(b0: u8, b1: u8) -> (r: u16)
    ensures
        r == b0 as int + 256 * b1 as int,
{
    b0 as u16 + (b1 as u16) * 256
}

pub fn u32_from(b0: u8, b1: u8, b2: u8, b3: u8) -> (r: u32)
    ensures
        r == b0 as int + 256 * b1 as int + 65536 * b2 as int + 16777216 * b3 as int,
{
    b0 as u32 + (b1 as u32) * 256 + (b2 as u32) * 65536 + (b3 as u32) * 16777216
}

pub fn to_i32(u: u32) -> (r: i32)
    ensures
        r == i32_of(u),
{
    if u >= 0x8000_0000 {
        let low: u32 = u - 0x8000_0000;
        (low as i32) - 0x7fff_ffff - 1
    } else {
        u as i32
    }
}

pub fn to_i16(u: u16) -> (r: i16)
    ensures
        r == i16_of(u),
{
    if u >= 0x8000 {
        let low: u16 = u - 0x8000;
        (low as i16) - 0x7fff - 1
    } else {
        u as i16
    }
}

pub fn to_i8(u: u8) -> (r: i8)
    ensures
        r == i8_of(u),
{
    if u >= 0x80 {
        let low: u8 = u - 0x80;
        (low as i8) - 0x7f - 1
    } else {
        u as i8
    }
}

pub fn from_i32(x: i32) -> (r: u32)
    ensures
        r == u32_of(x),
{
    if x < 0 {
        let y: i64 = x as i64 + 0x1_0000_0000;
        y as u32
    } else {
        x as u32
    }
}

pub fn from_i16(x: i16) -> (r: u16)
    ensures
        r == u16_of(x),
{
    if x < 0 {
        let y: i32 = x as i32 + 0x1_0000;
        y as u16
    } else {
        x as u16
    }
}

/// Appends the little-endian bytes of a 16-bit value.
pub fn put_u16(v: &mut Vec<u8>, x: u16)
    ensures
        final(v)@ == old(v)@ + le16(x),
{
    v.push((x % 256) as u8);
    v.push((x / 256) as u8);
    assert(v@ =~= old(v)@ + le16(x));
}

/// Appends the little-endian bytes of a 32-bit value.
pub fn put_u32(v: &mut Vec<u8>, x: u32)
    ensures
        final(v)@ == old(v)@ + le32(x),
{
    v.push((x % 256) as u8);
    v.push(((x / 256) % 256) as u8);
    v.push(((x / 65536) % 256) as u8);
    v.push((x / 16777216) as u8);
    assert(v@ =~= old(v)@ + le32(x));
}

/// Appends the bytes of a slice.
pub fn put_bytes(v: &mut Vec<u8>, b: &[u8])
    ensures
        final(v)@ == old(v)@ + b@,
{
    let mut i: usize = 0;
    while i < b.len()
        invariant
            i <= b@.len(),
            v@ == old(v)@ + b@.subrange(0, i as int),
        decreases b@.len() - i,
    {
        v.push(b[i]);
        i = i + 1;
        assert(v@ =~= old(v)@ + b@.subrange(0, i as int));
    }
    assert(b@.subrange(0, b@.len() as int) =~= b@);
}

/// Reading back the bytes of a 16-bit value gives the value.
pub proof fn lemma_le16_roundtrip(x: u16)
    ensures
        u16_le(le16(x), 0) == x,
{
}

/// Reading back the bytes of a 32-bit value gives the value.
pub proof fn lemma_le32_roundtrip(x: u32)
    ensures
        u32_le(le32(x), 0) == x,
{
}

/// The signed reading of the unsigned twin of a value is the value.
pub proof fn lemma_i32_roundtrip(x: i32)
    ensures
        i32_of(u32_of(x)) == x,
{
}

/// The 16-bit value whose bytes lie at an offset is read back there.
pub proof fn lemma_u16_at(b: Seq<u8>, i: int, x: u16)
    requires
        0 <= i,
        i + 2 <= b.len(),
        b.subrange(i, i + 2) == le16(x),
    ensures
        u16_le(b, i) == x,
{
    assert(b[i] == b.subrange(i, i + 2)[0]);
    assert(b[i + 1] == b.subrange(i, i + 2)[1]);
    lemma_le16_roundtrip(x);
}

/// The 32-bit value whose bytes lie at an offset is read back there.
pub proof fn lemma_u32_at(b: Seq<u8>, i: int, x: u32)
    requires
        0 <= i,
        i + 4 <= b.len(),
        b.subrange(i, i + 4) == le32(x),
    ensures
        u32_le(b, i) == x,
{
    assert(b[i] == b.subrange(i, i + 4)[0]);
    assert(b[i + 1] == b.subrange(i, i + 4)[1]);
    assert(b[i + 2] == b.subrange(i, i + 4)[2]);
    assert(b[i + 3] == b.subrange(i, i + 4)[3]);
    lemma_le32_roundtrip(x);
}

/// The signed reading of the unsigned twin of a 16-bit value is the value.
pub proof fn lemma_i16_roundtrip(x: i16)
    ensures
        i16_of(u16_of(x)) == x,
{
}

} // verus!
