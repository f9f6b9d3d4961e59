use vstd::prelude::*;
use crate::error::HwpError;
use crate::reader::StreamReader;
use crate::utils::bytes::{u32_le, le32, put_u32, put_bytes, lemma_le32_roundtrip};
use crate::utils::text::{decimal, push_decimal, push_char, text_of};

verus! {

/// The 17 bytes "HWP Document File" that open every HWP file header.
pub open spec fn hwp_signature() -> Seq<u8> {
    seq![0x48u8, 0x57, 0x50, 0x20, 0x44, 0x6F, 0x63, 0x75, 0x6D, 0x65, 0x6E, 0x74, 0x20, 0x46, 0x69, 0x6C, 0x65]
}

/// The 256-byte file header of an HWP document.
#[derive(Debug, Clone)]
pub struct FileHeader {
    pub signature: [u8; 32],
    pub version: u32,
    pub flags: u32,
    pub reserved: [u8; 216],
}

/// The fields a file header stream holds, where it is valid: at least 256
/// bytes, opening with the HWP signature. The fields are the 32-byte
/// signature, the version, the flags and 216 reserved bytes.
pub open spec fn parsed_header(d: Seq<u8>) -> Option<(Seq<u8>, u32, u32, Seq<u8>)> {
    if d.len() >= 256 && d.subrange(0, 17) == hwp_signature() {
        Some((d.subrange(0, 32), u32_le(d, 32), u32_le(d, 36), d.subrange(40, 256)))
    } else {
        None
    }
}

/// The bytes a file header is written as.
pub open spec fn header_bytes(signature: Seq<u8>, version: u32, flags: u32, reserved: Seq<u8>) -> Seq<u8> {
    signature + le32(version) + le32(flags) + reserved
}

/// The version as text: the four bytes of the version, highest first,
/// in decimal, joined by dots.
pub open spec fn version_text(v: u32) -> Seq<char> {
    decimal((v / 16777216) as nat) + seq!['.'] + decimal(((v / 65536) % 256) as nat) + seq!['.']
        + decimal(((v / 256) % 256) as nat) + seq!['.'] + decimal((v % 256) as nat)
}

fn signature_matches(data: &Vec<u8>) -> (b: bool)
    requires
        data@.len() >= 17,
    ensures
        b == (data@.subrange(0, 17) == hwp_signature()),
{
    let expected: [u8; 17] = [0x48, 0x57, 0x50, 0x20, 0x44, 0x6F, 0x63, 0x75, 0x6D, 0x65, 0x6E, 0x74, 0x20, 0x46, 0x69, 0x6C, 0x65];
    assert(expected@ =~= hwp_signature());
    let mut i: usize = 0;
    while i < 17
        invariant
            i <= 17,
            data@.len() >= 17,
            expected@ == hwp_signature(),
            forall|j: int| 0 <= j < i ==> data@[j] == expected@[j],
        decreases 17 - i,
    {
        if data[i] != expected[i] {
            assert(data@.subrange(0, 17)[i as int] != hwp_signature()[i as int]);
            return false;
        }
        i = i + 1;
    }
    assert(data@.subrange(0, 17) =~= hwp_signature());
    true
}

fn array32(v: &Vec<u8>) -> (a: [u8; 32])
    requires
        v@.len() == 32,
    ensures
        a@ == v@,
{
    let mut a: [u8; 32] = [0u8; 32];
    let mut i: usize = 0;
    while i < 32
        invariant
            i <= 32,
            v@.len() == 32,
            forall|j: int| 0 <= j < i ==> a@[j] == v@[j],
        decreases 32 - i,
    {
        a[i] = v[i];
        i = i + 1;
    }
    assert(a@ =~= v@);
    a
}

fn array216(v: &Vec<u8>) -> (a: [u8; 216])
    requires
        v@.len() == 216,
    ensures
        a@ == v@,
{
    let mut a: [u8; 216] = [0u8; 216];
    let mut i: usize = 0;
    while i < 216
        invariant
            i <= 216,
            v@.len() == 216,
            forall|j: int| 0 <= j < i ==> a@[j] == v@[j],
        decreases 216 - i,
    {
        a[i] = v[i];
        i = i + 1;
    }
    assert(a@ =~= v@);
    a
}

impl FileHeader {
    /// Reads a file header: fails with an invalid-format error where the data
    /// is shorter than 256 bytes or does not open with the HWP signature.
    pub fn parse(data: Vec<u8>) -> (res: Result<Self, HwpError>)
        ensures
            match parsed_header(data@) {
                Some((sig, version, flags, reserved)) => res matches Ok(h) && h.signature@ == sig
                    && h.version == version && h.flags == flags && h.reserved@ == reserved,
                None => res matches Err(HwpError::InvalidFormat(_)),
            },
    {
        if data.len() < 256 {
            return Err(HwpError::InvalidFormat(text_of("FileHeader must be 256 bytes")));
        }
        if !signature_matches(&data) {
            return Err(HwpError::InvalidFormat(text_of("Invalid HWP signature")));
        }
        let ghost d = data@;
        let mut reader = StreamReader::new(data);
        let sig_bytes = reader.read_bytes(32)?;
        let signature = array32(&sig_bytes);
        let version: u32 = reader.read_u32()?;
        let flags: u32 = reader.read_u32()?;
        let reserved_bytes = reader.read_bytes(216)?;
        let reserved = array216(&reserved_bytes);
        Ok(FileHeader { signature, version, flags, reserved })
    }

    pub fn is_compressed(&self) -> (b: bool)
        ensures
            b == (self.flags & 0x01 != 0),
    {
        (self.flags & 0x01) != 0
    }

    pub fn is_encrypted(&self) -> (b: bool)
        ensures
            b == (self.flags & 0x02 != 0),
    {
        (self.flags & 0x02) != 0
    }

    pub fn is_distribute(&self) -> (b: bool)
        ensures
            b == (self.flags & 0x04 != 0),
    {
        (self.flags & 0x04) != 0
    }

    pub fn is_script(&self) -> (b: bool)
        ensures
            b == (self.flags & 0x08 != 0),
    {
        (self.flags & 0x08) != 0
    }

    pub fn is_drm(&self) -> (b: bool)
        ensures
            b == (self.flags & 0x10 != 0),
    {
        (self.flags & 0x10) != 0
    }

    pub fn is_xml_template(&self) -> (b: bool)
        ensures
            b == (self.flags & 0x20 != 0),
    {
        (self.flags & 0x20) != 0
    }

    pub fn is_history(&self) -> (b: bool)
        ensures
            b == (self.flags & 0x40 != 0),
    {
        (self.flags & 0x40) != 0
    }

    pub fn is_sign(&self) -> (b: bool)
        ensures
            b == (self.flags & 0x80 != 0),
    {
        (self.flags & 0x80) != 0
    }

    pub fn is_certificate_encrypt(&self) -> (b: bool)
        ensures
            b == (self.flags & 0x100 != 0),
    {
        (self.flags & 0x100) != 0
    }

    pub fn is_sign_spare(&self) -> (b: bool)
        ensures
            b == (self.flags & 0x200 != 0),
    {
        (self.flags & 0x200) != 0
    }

    pub fn is_certificate_drm(&self) -> (b: bool)
        ensures
            b == (self.flags & 0x400 != 0),
    {
        (self.flags & 0x400) != 0
    }

    pub fn is_ccl(&self) -> (b: bool)
        ensures
            b == (self.flags & 0x800 != 0),
    {
        (self.flags & 0x800) != 0
    }

    /// The version as "major.minor.build.revision".
    pub fn version_string(&self) -> (s: String)
        ensures
            s@ == version_text(self.version),
    {
        let major: u32 = self.version / 16777216;
        let minor: u32 = (self.version / 65536) % 256;
        let build: u32 = (self.version / 256) % 256;
        let revision: u32 = self.version % 256;
        let mut s = String::new();
        push_decimal(&mut s, major as u64);
        push_char(&mut s, '.');
        push_decimal(&mut s, minor as u64);
        push_char(&mut s, '.');
        push_decimal(&mut s, build as u64);
        push_char(&mut s, '.');
        push_decimal(&mut s, revision as u64);
        assert(s@ =~= version_text(self.version));
        s
    }

    /// A header for writing: the signature, version 5.5.1.20 and the
    /// compression flag.
    pub fn new_default() -> (h: Self)
        ensures
            h.signature@.subrange(0, 17) == hwp_signature(),
            forall|i: int| 17 <= i < 32 ==> h.signature@[i] == 0,
            h.version == 0x05050114,
            h.flags == 0x01,
            forall|i: int| 0 <= i < 216 ==> h.reserved@[i] == 0,
    {
        let signature: [u8; 32] = [0x48, 0x57, 0x50, 0x20, 0x44, 0x6F, 0x63, 0x75, 0x6D, 0x65, 0x6E, 0x74, 0x20, 0x46, 0x69, 0x6C, 0x65,
            0, 0, 0, 0, 0, 0, 0, 0, 0, 0, 0, 0, 0, 0, 0];
        assert(signature@.subrange(0, 17) =~= hwp_signature());
        FileHeader { signature, version: 0x05050114, flags: 0x01, reserved: [0u8; 216] }
    }

    /// The 256 bytes of the header: signature, version, flags, reserved bytes.
    pub fn to_bytes(&self) -> (bytes: Vec<u8>)
        ensures
            bytes@ == header_bytes(self.signature@, self.version, self.flags, self.reserved@),
            bytes@.len() == 256,
    {
        let mut bytes: Vec<u8> = Vec::new();
        put_bytes(&mut bytes, self.signature.as_slice());
        put_u32(&mut bytes, self.version);
        put_u32(&mut bytes, self.flags);
        put_bytes(&mut bytes, self.reserved.as_slice());
        bytes
    }

    /// Sets or clears the compression flag, leaving the other bits.
    pub fn set_compressed(&mut self, compressed: bool)
        ensures
            final(self).flags == (if compressed { old(self).flags | 0x01 } else { old(self).flags & !0x01u32 }),
            final(self).signature == old(self).signature,
            final(self).version == old(self).version,
            final(self).reserved == old(self).reserved,
    {
        if compressed {
            self.flags = self.flags | 0x01;
        } else {
            self.flags = self.flags & !0x01u32;
        }
    }

    /// Sets or clears the encryption flag, leaving the other bits.
    pub fn set_encrypted(&mut self, encrypted: bool)
        ensures
            final(self).flags == (if encrypted { old(self).flags | 0x02 } else { old(self).flags & !0x02u32 }),
            final(self).signature == old(self).signature,
            final(self).version == old(self).version,
            final(self).reserved == old(self).reserved,
    {
        if encrypted {
            self.flags = self.flags | 0x02;
        } else {
            self.flags = self.flags & !0x02u32;
        }
    }

    /// Sets the version from its four parts, highest first.
    pub fn set_version(&mut self, major: u8, minor: u8, build: u8, revision: u8)
        ensures
            final(self).version == major as int * 16777216 + minor as int * 65536 + build as int * 256 + revision as int,
            final(self).flags == old(self).flags,
            final(self).signature == old(self).signature,
            final(self).reserved == old(self).reserved,
    {
        self.version = (major as u32) * 16777216 + (minor as u32) * 65536 + (build as u32) * 256 + (revision as u32);
    }
}

/// A header written to bytes reads back as the same header, where its
/// signature opens with the HWP signature.
pub proof fn law_header_roundtrip(signature: Seq<u8>, version: u32, flags: u32, reserved: Seq<u8>)
    requires
        signature.len() == 32,
        reserved.len() == 216,
        signature.subrange(0, 17) == hwp_signature(),
    ensures
        parsed_header(header_bytes(signature, version, flags, reserved)) == Some((signature, version, flags, reserved)),
{
    let b = header_bytes(signature, version, flags, reserved);
    assert(b.subrange(0, 17) =~= signature.subrange(0, 17));
    assert(b.subrange(0, 32) =~= signature);
    assert(b.subrange(40, 256) =~= reserved);
    lemma_le32_roundtrip(version);
    lemma_le32_roundtrip(flags);
    assert(b.subrange(32, 36) =~= le32(version));
    assert(b.subrange(36, 40) =~= le32(flags));
    assert(u32_le(b, 32) == u32_le(le32(version), 0));
    assert(u32_le(b, 36) == u32_le(le32(flags), 0));
}

/// Setting the version and reading it as text gives the four parts in decimal.
#[verifier::spinoff_prover]
#[verifier::rlimit(50)]
pub proof fn law_version_text(major: u8, minor: u8, build: u8, revision: u8)
    ensures
        version_text((major as int * 16777216 + minor as int * 65536 + build as int * 256 + revision as int) as u32)
            == decimal(major as nat) + seq!['.'] + decimal(minor as nat) + seq!['.'] + decimal(build as nat)
            + seq!['.'] + decimal(revision as nat),
{
    let v: u32 = (major as int * 16777216 + minor as int * 65536 + build as int * 256 + revision as int) as u32;
    assert(v / 16777216 == major as u32 && (v / 65536) % 256 == minor as u32 && (v / 256) % 256 == build as u32
        && v % 256 == revision as u32) by (nonlinear_arith)
        requires
            v == major as int * 16777216 + minor as int * 65536 + build as int * 256 + revision as int,
            major < 256,
            minor < 256,
            build < 256,
            revision < 256,
    ;
}

/// Setting the compression flag makes the header read as compressed, and
/// clearing it as not compressed; the other flags keep their values.
pub proof fn law_set_compressed(flags: u32, compressed: bool)
    ensures
        ((if compressed { flags | 0x01 } else { flags & !0x01u32 }) & 0x01 != 0) == compressed,
        (if compressed { flags | 0x01 } else { flags & !0x01u32 }) & !0x01u32 == flags & !0x01u32,
{
    assert((flags | 0x01) & 0x01 != 0) by (bit_vector);
    assert((flags & !0x01u32) & 0x01 == 0) by (bit_vector);
    assert((flags | 0x01) & !0x01u32 == flags & !0x01u32) by (bit_vector);
    assert((flags & !0x01u32) & !0x01u32 == flags & !0x01u32) by (bit_vector);
}

} // verus!
