use vstd::prelude::*;
use aes::cipher::{BlockDecrypt, KeyInit};
use crate::error::HwpError;
use crate::utils::bytes::{put_bytes, u32_from, u32_le};
use crate::utils::text::{count_message, text_of};

verus! {

/// What AES-128 decryption of one 16-byte block under a 16-byte key gives.
pub uninterp spec fn aes128_block_decryption(key: Seq<u8>, block: Seq<u8>) -> Seq<u8>;

/// Decrypts the 16 bytes of `data` from `offset` with AES-128 under `key`:
/// `aes::Aes128::new` with the key, then `BlockDecrypt::decrypt_block`. The
/// result, a block of 16 bytes, is named by `aes128_block_decryption`.
#[verifier::external_body]
fn decrypt_block(key: &[u8; 16], data: &[u8], offset: usize) -> (out: Vec<u8>)
    requires
        offset + 16 <= data@.len(),
    ensures
        out@.len() == 16,
        out@ == aes128_block_decryption(key@, data@.subrange(offset as int, offset + 16)),
{
    let cipher = aes::Aes128::new(aes::cipher::generic_array::GenericArray::from_slice(key));
    let mut block = aes::Block::clone_from_slice(&data[offset..offset + 16]);
    cipher.decrypt_block(&mut block);
    block.to_vec()
}

/// The state after one step of the Microsoft C runtime's linear
/// congruential generator.
pub open spec fn lcg_next(s: u32) -> u32 {
    ((s * 214013 + 2531011) % 0x1_0000_0000) as u32
}

/// The number `rand` returns from state `s`: bits 16 to 30 of the next state.
pub open spec fn rand_value(s: u32) -> u32 {
    (lcg_next(s) / 65536) % 32768
}

/// The generator of the Microsoft C runtime's `rand`.
pub struct MsvcRng {
    seed: u32,
}

impl MsvcRng {
    /// The generator's state.
    pub closed spec fn state(&self) -> u32 {
        self.seed
    }

    pub fn new(seed: u32) -> (r: Self)
        ensures
            r.state() == seed,
    {
        MsvcRng { seed }
    }

    /// Steps the generator and returns bits 16 to 30 of the new state.
    pub fn rand(&mut self) -> (r: u32)
        ensures
            final(self).state() == lcg_next(old(self).state()),
            r == rand_value(old(self).state()),
    {
        self.seed = ((self.seed as u64 * 214013 + 2531011) % 0x1_0000_0000) as u32;
        let s: u32 = self.seed;
        let r: u32 = (s >> 16) & 0x7FFF;
        assert(r == (s / 65536) % 32768) by (bit_vector)
            requires
                r == (s >> 16) & 0x7FFF,
        ;
        r
    }

    /// The low byte of the next number.
    pub fn next_value(&mut self) -> (v: u8)
        ensures
            final(self).state() == lcg_next(old(self).state()),
            v == rand_value(old(self).state()) % 256,
    {
        let x: u32 = self.rand();
        let v: u8 = (x & 0xFF) as u8;
        assert(v == x % 256) by (bit_vector)
            requires
                v == (x & 0xFF) as u8,
        ;
        v
    }

    /// The low four bits of the next number, plus one.
    pub fn next_count(&mut self) -> (c: u32)
        ensures
            final(self).state() == lcg_next(old(self).state()),
            c == rand_value(old(self).state()) % 16 + 1,
    {
        let x: u32 = self.rand();
        let low: u32 = x & 0x0F;
        assert(low == x % 16) by (bit_vector)
            requires
                low == x & 0x0F,
        ;
        low + 1
    }
}

/// The keystream state: generator state, current byte and how many more
/// positions it covers.
pub open spec fn draw(st: (u32, u8, u32)) -> (u32, u8, u32) {
    let s1 = lcg_next(st.0);
    (lcg_next(s1), (rand_value(st.0) % 256) as u8, (rand_value(s1) % 16 + 1) as u32)
}

/// The state as a position begins: a new byte and run length are drawn
/// where the run is used up.
pub open spec fn refreshed(st: (u32, u8, u32)) -> (u32, u8, u32) {
    if st.2 == 0 { draw(st) } else { st }
}

/// The keystream state before position `i`, from the seed.
pub open spec fn stream_state(seed: u32, i: nat) -> (u32, u8, u32)
    decreases i,
{
    if i == 0 {
        (seed, 0, 0)
    } else {
        let r = refreshed(stream_state(seed, (i - 1) as nat));
        (r.0, r.1, (r.2 - 1) as u32)
    }
}

/// The keystream byte at position `i`.
pub open spec fn stream_byte(seed: u32, i: nat) -> u8 {
    refreshed(stream_state(seed, i)).1
}

/// A 256-byte block after the obfuscation is undone: the first four bytes
/// (the seed, read little-endian) stay, each later one is XORed with the
/// keystream byte of its position.
pub open spec fn deobfuscated(b: Seq<u8>) -> Seq<u8> {
    Seq::new(256, |i: int| if i < 4 { b[i] } else { b[i] ^ stream_byte(u32_le(b, 0), i as nat) })
}

/// Undoes the obfuscation of a 256-byte block in place.
pub fn obfuscation_transform(data: &mut [u8; 256])
    ensures
        final(data)@ == deobfuscated(old(data)@),
{
    let seed: u32 = u32_from(data[0], data[1], data[2], data[3]);
    let ghost start = data@;
    let mut rng = MsvcRng::new(seed);
    let mut value: u8 = 0;
    let mut count: u32 = 0;
    let mut i: usize = 0;
    while i < 256
        invariant
            seed == u32_le(start, 0),
            start.len() == 256,
            data@.len() == 256,
            i <= 256,
            (rng.state(), value, count) == stream_state(seed, i as nat),
            forall|j: int| 0 <= j < i ==> data@[j] == deobfuscated(start)[j],
            forall|j: int| i <= j < 256 ==> data@[j] == start[j],
        decreases 256 - i,
    {
        if count == 0 {
            value = rng.next_value();
            count = rng.next_count();
        }
        assert((rng.state(), value, count) == refreshed(stream_state(seed, i as nat)));
        if i >= 4 {
            let b: u8 = data[i] ^ value;
            data[i] = b;
        }
        count = count - 1;
        i = i + 1;
    }
    assert(data@ =~= deobfuscated(start));
}

/// Undoing the obfuscation twice gives the block back: the seed bytes are
/// left as they are, so both passes XOR each later byte with the same
/// keystream byte.
pub proof fn law_deobfuscation_involutive(b: Seq<u8>)
    requires
        b.len() == 256,
    ensures
        deobfuscated(deobfuscated(b)) == b,
{
    let once = deobfuscated(b);
    assert(once.subrange(0, 4) =~= b.subrange(0, 4));
    assert(u32_le(once, 0) == u32_le(b, 0));
    assert forall|i: int| 4 <= i < 256 implies deobfuscated(once)[i] == b[i] by {
        let k = stream_byte(u32_le(b, 0), i as nat);
        let x = b[i];
        assert((x ^ k) ^ k == x) by (bit_vector);
    }
    assert(deobfuscated(once) =~= b);
}

/// The key read from distribution record data is the 16 bytes of its
/// deobfuscated block (record bytes 4 to 259) that start 4 plus the low four
/// bits (the whole low nibble, 0 to 15) of the record's byte 4 into the
/// block; byte 4 is the first seed byte, which deobfuscation keeps. So the
/// key starts between bytes 4 and 19 of the block, and record bytes 4 that
/// differ in their low nibble put it at different places.
pub proof fn law_key_at_low_nibble(record: Seq<u8>)
    requires
        record.len() >= 260,
    ensures
        ({
            let b = deobfuscated(record.subrange(4, 260));
            let off = 4 + (record[4] & 0x0Fu8) as int;
            &&& 4 <= off <= 19
            &&& distribution_key(record) == b.subrange(off, off + 16)
        }),
{
    let b = deobfuscated(record.subrange(4, 260));
    let first = record[4];
    assert(b[0] == first);
    assert((first & 0x0Fu8) == first % 16) by (bit_vector);
}

/// Decrypts streams of documents saved for distribution with the AES-128
/// key of their distribution record.
#[derive(Debug, Clone)]
pub struct DistributionDecryptor {
    key: [u8; 16],
}

/// Where the key lies in the deobfuscated block: four bytes on, plus the low
/// four bits of its first byte.
pub open spec fn key_offset(b: Seq<u8>) -> int {
    4 + (b[0] % 16) as int
}

/// The key held by distribution record data: 16 bytes of its deobfuscated
/// block (bytes 4 to 259 of the record).
pub open spec fn distribution_key(record: Seq<u8>) -> Seq<u8> {
    let b = deobfuscated(record.subrange(4, 260));
    b.subrange(key_offset(b), key_offset(b) + 16)
}

/// The length of data padded with zeros to whole 16-byte blocks.
pub open spec fn padded_len(n: int) -> int {
    n + (16 - n % 16) % 16
}

/// The first `k` blocks of `p`, each decrypted, in order.
pub open spec fn decrypted_blocks(key: Seq<u8>, p: Seq<u8>, k: nat) -> Seq<u8>
    decreases k,
{
    if k == 0 {
        seq![]
    } else {
        decrypted_blocks(key, p, (k - 1) as nat) + aes128_block_decryption(
            key,
            p.subrange(16 * (k - 1), 16 * k as int),
        )
    }
}

/// AES-128 ECB decryption of data zero-padded to whole blocks, cut back to
/// the data's length.
pub open spec fn ecb_decryption(key: Seq<u8>, data: Seq<u8>) -> Seq<u8> {
    let p = data + Seq::new((padded_len(data.len() as int) - data.len()) as nat, |i: int| 0u8);
    decrypted_blocks(key, p, (p.len() / 16) as nat).take(data.len() as int)
}

impl DistributionDecryptor {
    /// The AES key.
    pub closed spec fn key(&self) -> Seq<u8> {
        self.key@
    }

    /// Takes the key from distribution record data: its 256 bytes from byte
    /// 4 are deobfuscated and the key read at the offset their first byte
    /// gives. Data under 260 bytes is refused.
    pub fn from_record_data(record_data: &[u8]) -> (res: Result<Self, HwpError>)
        ensures
            record_data@.len() < 260 ==> res matches Err(HwpError::ParseError(_)),
            record_data@.len() >= 260 ==> (res matches Ok(d) && d.key() == distribution_key(record_data@)),
    {
        let n: usize = record_data.len();
        if n < 260 {
            return Err(
                HwpError::ParseError(
                    count_message("Distribution record data too short: expected at least 260, got ", n, ""),
                ),
            );
        }
        let mut decoded: [u8; 256] = [0u8; 256];
        let mut i: usize = 0;
        while i < 256
            invariant
                n == record_data@.len(),
                n >= 260,
                decoded@.len() == 256,
                i <= 256,
                forall|j: int| 0 <= j < i ==> decoded@[j] == record_data@[4 + j],
            decreases 256 - i,
        {
            decoded[i] = record_data[4 + i];
            i = i + 1;
        }
        assert(decoded@ =~= record_data@.subrange(4, 260));
        obfuscation_transform(&mut decoded);
        let offset: usize = 4 + (decoded[0] & 0x0F) as usize;
        let first: u8 = decoded[0];
        assert((first & 0x0F) == first % 16) by (bit_vector);
        if offset + 16 > 256 {
            return Err(HwpError::ParseError(text_of("Invalid distribution data offset")));
        }
        let mut key: [u8; 16] = [0u8; 16];
        let mut k: usize = 0;
        while k < 16
            invariant
                decoded@.len() == 256,
                offset + 16 <= 256,
                key@.len() == 16,
                k <= 16,
                forall|j: int| 0 <= j < k ==> key@[j] == decoded@[offset + j],
            decreases 16 - k,
        {
            key[k] = decoded[offset + k];
            k = k + 1;
        }
        assert(key@ =~= decoded@.subrange(offset as int, offset + 16));
        Ok(DistributionDecryptor { key })
    }

    /// Decrypts data with AES-128 in ECB mode: zero-padded to whole blocks,
    /// each block decrypted, and cut back to the data's length.
    pub fn decrypt(&self, data: &[u8]) -> (res: Result<Vec<u8>, HwpError>)
        requires
            data@.len() + 16 <= usize::MAX,
        ensures
            res matches Ok(v) && v@ == ecb_decryption(self.key(), data@),
    {
        let n: usize = data.len();
        if n == 0 {
            let ghost p = data@ + Seq::new((padded_len(0) - 0) as nat, |i: int| 0u8);
            assert(p.len() == 0);
            assert(decrypted_blocks(self.key@, p, 0).take(0) =~= Seq::<u8>::empty());
            return Ok(Vec::new());
        }
        let padding_needed: usize = (16 - (n % 16)) % 16;
        let mut padded: Vec<u8> = Vec::new();
        put_bytes(&mut padded, data);
        let mut z: usize = 0;
        while z < padding_needed
            invariant
                padding_needed < 16,
                n == data@.len(),
                z <= padding_needed,
                padded@ == data@ + Seq::new(z as nat, |i: int| 0u8),
            decreases padding_needed - z,
        {
            padded.push(0);
            z = z + 1;
            assert(padded@ =~= data@ + Seq::new(z as nat, |i: int| 0u8));
        }
        let ghost p = padded@;
        assert(p.len() % 16 == 0);
        let plen: usize = padded.len();
        let blocks: usize = plen / 16;
        let mut result: Vec<u8> = Vec::new();
        let mut b: usize = 0;
        while b < blocks
            invariant
                p == padded@,
                plen == p.len(),
                blocks == p.len() / 16,
                p.len() % 16 == 0,
                b <= blocks,
                result@ == decrypted_blocks(self.key@, p, b as nat),
                result@.len() == 16 * b,
            decreases blocks - b,
        {
            let out = decrypt_block(&self.key, padded.as_slice(), 16 * b);
            put_bytes(&mut result, out.as_slice());
            b = b + 1;
        }
        if padding_needed > 0 {
            result.truncate(n);
        }
        assert(result@ =~= decrypted_blocks(self.key@, p, blocks as nat).take(n as int));
        Ok(result)
    }
}

/// Decrypts a distribution document's stream with the key of its
/// distribution record.
pub fn decrypt_distribution_stream(data: &[u8], record_data: &[u8]) -> (res: Result<Vec<u8>, HwpError>)
    requires
        data@.len() + 16 <= usize::MAX,
    ensures
        record_data@.len() < 260 ==> res matches Err(HwpError::ParseError(_)),
        record_data@.len() >= 260 ==> (res matches Ok(v) && v@ == ecb_decryption(
            distribution_key(record_data@),
            data@,
        )),
{
    let decryptor = DistributionDecryptor::from_record_data(record_data)?;
    decryptor.decrypt(data)
}

} // verus!
