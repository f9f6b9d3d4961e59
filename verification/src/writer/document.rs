use vstd::prelude::*;
use std::io::Write;
use cfb::CompoundFile;
use std::io::Cursor;
use crate::error::HwpError;
use crate::model::bin_data::to_lowercase;
use crate::model::paragraph::Section;
use crate::parser::doc_info::DocInfo;
use crate::parser::header::{header_bytes, FileHeader};
use crate::reader::compound::{compound_stream, section_path};
use crate::utils::compression::deflate_encoding;
use crate::utils::encoding::utf16le_bytes;
use crate::utils::text::{decimal, push_hex4, text_of};
use crate::writer::serializer::{
    compress_data, create_doc_options, create_preview_text, doc_info_bytes, section_records, sections_preview,
    serialize_doc_info, serialize_file_header,
};

verus! {

/// The in-memory cursor of the standard library, carried through unchanged.
#[verifier::external_type_specification]
#[verifier::external_body]
#[verifier::reject_recursive_types(T)]
pub struct ExCursor<T>(Cursor<T>);

/// A compound file of the `cfb` crate, carried through unchanged.
#[verifier::external_type_specification]
#[verifier::external_body]
#[verifier::reject_recursive_types(F)]
pub struct ExCompoundFile<F>(CompoundFile<F>);

/// The streams a compound file being written holds, each under the key of
/// its path.
pub uninterp spec fn compound_contents(f: CompoundFile<Cursor<Vec<u8>>>) -> Map<Seq<char>, Seq<u8>>;

/// Whether a character may stand in a plain path: an ASCII letter or digit,
/// `_`, `.` or the separator `/`.
pub open spec fn path_char(c: char) -> bool {
    let x = c as u32;
    (0x61 <= x <= 0x7A) || (0x41 <= x <= 0x5A) || (0x30 <= x <= 0x39) || x == 0x5F || x == 0x2E || x == 0x2F
}

/// Whether a path names an entry from the root by plain ASCII names: it is
/// not empty, uses only plain characters, and no name in it is empty or
/// starts with a dot.
pub open spec fn plain_path(p: Seq<char>) -> bool {
    &&& p.len() > 0
    &&& forall|i: int| 0 <= i < p.len() ==> path_char(#[trigger] p[i])
    &&& (p[0] as u32) != 0x2F && (p[0] as u32) != 0x2E && (p[p.len() - 1] as u32) != 0x2F
    &&& forall|i: int|
        0 <= i < p.len() - 1 && (#[trigger] p[i] as u32) == 0x2F ==> (p[i + 1] as u32) != 0x2F && (p[i + 1] as u32)
            != 0x2E
}

/// A character in upper case where it is an ASCII letter.
pub open spec fn ascii_upper(c: char) -> char {
    if 0x61 <= (c as u32) <= 0x7A { ((c as u32) - 32) as char } else { c }
}

/// The key of the entry a plain path names: the `cfb` crate compares names
/// without regard to case, which for ASCII names is comparing them in upper
/// case.
pub open spec fn entry_key(p: Seq<char>) -> Seq<char> {
    p.map_values(|c: char| ascii_upper(c))
}

/// A new, empty compound file of version 3 (512-byte sectors) in memory:
/// `cfb::CompoundFile::create_with_version` over an empty cursor. It holds no
/// streams.
#[verifier::external_body]
fn new_compound() -> (r: Result<CompoundFile<Cursor<Vec<u8>>>, HwpError>)
    ensures
        r matches Ok(f) ==> compound_contents(f).dom() == Set::<Seq<char>>::empty(),
{
    match CompoundFile::create_with_version(cfb::Version::V3, Cursor::new(Vec::new())) {
        Ok(f) => Ok(f),
        Err(e) => Err(HwpError::Io(e)),
    }
}

/// Creates a storage: `CompoundFile::create_storage`. A storage holds no
/// data, so the streams stay as they were.
#[verifier::external_body]
fn add_storage(f: &mut CompoundFile<Cursor<Vec<u8>>>, path: &str) -> (r: Result<(), HwpError>)
    requires
        plain_path(path@),
    ensures
        r is Ok ==> compound_contents(*final(f)) == compound_contents(*old(f)),
{
    match f.create_storage(path) {
        Ok(()) => Ok(()),
        Err(e) => Err(HwpError::Io(e)),
    }
}

/// Writes a stream: `CompoundFile::create_stream`, which replaces a stream
/// already at the path, then `write_all` and `flush` on it. The stream at the
/// path's key then holds the data.
#[verifier::external_body]
fn add_stream(f: &mut CompoundFile<Cursor<Vec<u8>>>, path: &str, data: &[u8]) -> (r: Result<(), HwpError>)
    requires
        plain_path(path@),
    ensures
        r is Ok ==> compound_contents(*final(f)) == compound_contents(*old(f)).insert(entry_key(path@), data@),
{
    let mut s = match f.create_stream(path) {
        Ok(s) => s,
        Err(e) => return Err(HwpError::Io(e)),
    };
    match s.write_all(data).and_then(|_| s.flush()) {
        Ok(()) => Ok(()),
        Err(e) => Err(HwpError::Io(e)),
    }
}

/// Finishes a compound file: `CompoundFile::flush`, then the bytes of the
/// cursor. Opening those bytes with `cfb` and reading the stream at a plain
/// path gives what was last written at its key.
#[verifier::external_body]
fn finish_compound(f: CompoundFile<Cursor<Vec<u8>>>) -> (r: Result<Vec<u8>, HwpError>)
    ensures
        r matches Ok(b) ==> forall|p: Seq<char>|
            plain_path(p) && #[trigger] compound_contents(f).dom().contains(entry_key(p)) ==> compound_stream(b@, p)
                == Some(compound_contents(f)[entry_key(p)]),
{
    let mut f = f;
    match f.flush() {
        Ok(()) => Ok(f.into_inner().into_inner()),
        Err(e) => Err(HwpError::Io(e)),
    }
}

/// Whether a path is plain.
fn is_plain(s: &str) -> (b: bool)
    ensures
        b == plain_path(s@),
{
    let cs = crate::utils::chars::chars_of(s);
    let n: usize = cs.len();
    if n == 0 {
        return false;
    }
    if cs[0] as u32 == 0x2F || cs[0] as u32 == 0x2E || cs[n - 1] as u32 == 0x2F {
        return false;
    }
    let mut i: usize = 0;
    while i < n
        invariant
            cs@ == s@,
            n == cs@.len(),
            i <= n,
            forall|j: int| 0 <= j < i ==> path_char(#[trigger] cs@[j]),
            forall|j: int|
                0 <= j < i && j < n - 1 && (#[trigger] cs@[j] as u32) == 0x2F ==> (cs@[j + 1] as u32) != 0x2F && (
                cs@[j + 1] as u32) != 0x2E,
        decreases n - i,
    {
        let x: u32 = cs[i] as u32;
        if !((0x61 <= x && x <= 0x7A) || (0x41 <= x && x <= 0x5A) || (0x30 <= x && x <= 0x39) || x == 0x5F || x == 0x2E
            || x == 0x2F) {
            return false;
        }
        if i + 1 < n && x == 0x2F && (cs[i + 1] as u32 == 0x2F || cs[i + 1] as u32 == 0x2E) {
            return false;
        }
        i = i + 1;
    }
    true
}

/// A stream's bytes as stored: compressed where the header says so.
pub open spec fn stored(flags: u32, data: Seq<u8>) -> Seq<u8> {
    if flags & 0x01 != 0 { deflate_encoding(data) } else { data }
}

/// Whether the compound file holds `data` at the key of `p`, a plain path.
pub open spec fn holds(m: Map<Seq<char>, Seq<u8>>, p: Seq<char>, data: Seq<u8>) -> bool {
    plain_path(p) && m.dom().contains(entry_key(p)) && m[entry_key(p)] == data
}

/// Section paths of different numbers name different entries, and none is
/// the entry of a path that starts with another letter than `B`.
proof fn lemma_section_keys(i: nat, j: nat)
    ensures
        i != j ==> entry_key(section_path(i)) != entry_key(section_path(j)),
        entry_key(section_path(i)).len() > 0 && entry_key(section_path(i))[0] == 'B',
{
    reveal_strlit("BodyText/Section");
    let pre = "BodyText/Section"@;
    assert(pre.len() == 16 && pre[0] == 'B');
    crate::utils::text::lemma_decimal_value(i);
    crate::utils::text::lemma_decimal_value(j);
    let a = section_path(i);
    let b = section_path(j);
    assert(a[0] == 'B');
    if i != j && entry_key(a) == entry_key(b) {
        assert(entry_key(a).len() == a.len() && entry_key(b).len() == b.len());
        assert(a.len() == b.len());
        assert forall|k: int| 0 <= k < decimal(i).len() implies decimal(i)[k] == decimal(j)[k] by {
            assert(entry_key(a)[16 + k] == entry_key(b)[16 + k]);
            assert(a[16 + k] == decimal(i)[k] && b[16 + k] == decimal(j)[k]);
        }
        assert(decimal(i) =~= decimal(j));
        crate::utils::text::lemma_decimal_injective(i, j);
    }
}

/// The fixed script stream: the default JScript of a new document.
fn default_jscript() -> (v: Vec<u8>) {
    let bytes: [u8; 272] = [
        0x4F, 0x00, 0x00, 0x00, 0x76, 0x00, 0x61, 0x00, 0x72, 0x00, 0x20, 0x00, 0x44, 0x00, 0x6F, 0x00,
        0x63, 0x00, 0x75, 0x00, 0x6D, 0x00, 0x65, 0x00, 0x6E, 0x00, 0x74, 0x00, 0x73, 0x00, 0x20, 0x00,
        0x3D, 0x00, 0x20, 0x00, 0x58, 0x00, 0x48, 0x00, 0x77, 0x00, 0x70, 0x00, 0x44, 0x00, 0x6F, 0x00,
        0x63, 0x00, 0x75, 0x00, 0x6D, 0x00, 0x65, 0x00, 0x6E, 0x00, 0x74, 0x00, 0x73, 0x00, 0x3B, 0x00,
        0x0D, 0x00, 0x0A, 0x00, 0x76, 0x00, 0x61, 0x00, 0x72, 0x00, 0x20, 0x00, 0x44, 0x00, 0x6F, 0x00,
        0x63, 0x00, 0x75, 0x00, 0x6D, 0x00, 0x65, 0x00, 0x6E, 0x00, 0x74, 0x00, 0x20, 0x00, 0x3D, 0x00,
        0x20, 0x00, 0x44, 0x00, 0x6F, 0x00, 0x63, 0x00, 0x75, 0x00, 0x6D, 0x00, 0x65, 0x00, 0x6E, 0x00,
        0x74, 0x00, 0x73, 0x00, 0x2E, 0x00, 0x41, 0x00, 0x63, 0x00, 0x74, 0x00, 0x69, 0x00, 0x76, 0x00,
        0x65, 0x00, 0x5F, 0x00, 0x58, 0x00, 0x48, 0x00, 0x77, 0x00, 0x70, 0x00, 0x44, 0x00, 0x6F, 0x00,
        0x63, 0x00, 0x75, 0x00, 0x6D, 0x00, 0x65, 0x00, 0x6E, 0x00, 0x74, 0x00, 0x3B, 0x00, 0x0D, 0x00,
        0x0A, 0x00, 0x2F, 0x00, 0x00, 0x00, 0x66, 0x00, 0x75, 0x00, 0x6E, 0x00, 0x63, 0x00, 0x74, 0x00,
        0x69, 0x00, 0x6F, 0x00, 0x6E, 0x00, 0x20, 0x00, 0x4F, 0x00, 0x6E, 0x00, 0x44, 0x00, 0x6F, 0x00,
        0x63, 0x00, 0x75, 0x00, 0x6D, 0x00, 0x65, 0x00, 0x6E, 0x00, 0x74, 0x00, 0x5F, 0x00, 0x4E, 0x00,
        0x65, 0x00, 0x77, 0x00, 0x28, 0x00, 0x29, 0x00, 0x0D, 0x00, 0x0A, 0x00, 0x7B, 0x00, 0x0D, 0x00,
        0x0A, 0x00, 0x09, 0x00, 0x2F, 0x00, 0x2F, 0x00, 0x74, 0x00, 0x6F, 0x00, 0x64, 0x00, 0x6F, 0x00,
        0x20, 0x00, 0x3A, 0x00, 0x20, 0x00, 0x0D, 0x00, 0x0A, 0x00, 0x7D, 0x00, 0x0D, 0x00, 0x0A, 0x00,
        0x0D, 0x00, 0x0A, 0x00, 0x00, 0x00, 0x00, 0x00, 0x00, 0x00, 0x00, 0x00, 0xFF, 0xFF, 0xFF, 0xFF,
    ];
    let mut v: Vec<u8> = Vec::new();
    crate::utils::bytes::put_bytes(&mut v, bytes.as_slice());
    v
}

/// Writes a stream at a path, refusing a path that is not plain.
fn put_stream(f: &mut CompoundFile<Cursor<Vec<u8>>>, path: &str, data: &[u8]) -> (r: Result<(), HwpError>)
    ensures
        r is Ok ==> plain_path(path@) && compound_contents(*final(f)) == compound_contents(*old(f)).insert(
            entry_key(path@),
            data@,
        ),
{
    if !is_plain(path) {
        return Err(HwpError::InvalidInput(text_of("Stream path is not a plain ASCII path")));
    }
    add_stream(f, path, data)
}

/// Creates a storage at a path, refusing a path that is not plain.
fn put_storage(f: &mut CompoundFile<Cursor<Vec<u8>>>, path: &str) -> (r: Result<(), HwpError>)
    ensures
        r is Ok ==> compound_contents(*final(f)) == compound_contents(*old(f)),
{
    if !is_plain(path) {
        return Err(HwpError::InvalidInput(text_of("Storage path is not a plain ASCII path")));
    }
    add_storage(f, path)
}

/// The bytes of a stream, compressed where `compressed` says so.
fn store(data: Vec<u8>, compressed: bool) -> (r: Result<Vec<u8>, HwpError>)
    ensures
        r matches Ok(v) && v@ == (if compressed { deflate_encoding(data@) } else { data@ }),
{
    if compressed {
        compress_data(data.as_slice())
    } else {
        Ok(data)
    }
}

/// Writes the streams that carry no part of the content: binary data,
/// preview image, document options and scripts.
fn put_fixed_streams(f: &mut CompoundFile<Cursor<Vec<u8>>>, doc_info: &DocInfo, compressed: bool) -> (r: Result<
    (),
    HwpError,
>) {
    if doc_info.bin_data.len() > 0 {
        put_storage(f, "BinData")?;
        let mut k: usize = 0;
        while k < doc_info.bin_data.len()
            decreases doc_info.bin_data.len() - k,
        {
            let bin = &doc_info.bin_data[k];
            let mut name = text_of("BinData/BIN");
            push_hex4(&mut name, bin.bin_id);
            crate::utils::text::push_char(&mut name, '.');
            let ext = to_lowercase(bin.extension.as_str());
            name.append(ext.as_str());
            let mut copy: Vec<u8> = Vec::new();
            crate::utils::bytes::put_bytes(&mut copy, bin.data.as_slice());
            let data = store(copy, compressed)?;
            put_stream(f, name.as_str(), data.as_slice())?;
            k = k + 1;
        }
    }
    let empty: Vec<u8> = Vec::new();
    put_stream(f, "PrvImage", empty.as_slice())?;
    let options = create_doc_options()?;
    put_stream(f, "DocOptions/_LinkDoc", options.as_slice())?;
    let version: [u8; 8] = [0x01, 0x00, 0x00, 0x00, 0x00, 0x00, 0x00, 0x00];
    put_stream(f, "Scripts/JScriptVersion", version.as_slice())?;
    let script = default_jscript();
    put_stream(f, "Scripts/DefaultJScript", script.as_slice())?;
    Ok(())
}

/// The bytes of an HWP file: a compound file (version 3) holding the file
/// header, the definitions and one body text stream per section (these two
/// compressed where the header says so), the preview text, and the binary
/// data, preview image, document options and script streams of a new
/// document. Reading the file back gives each stream as written.
#[verifier::spinoff_prover]
#[verifier::rlimit(50)]
pub fn serialize_document(header: &FileHeader, doc_info: &DocInfo, sections: &[Section]) -> (res: Result<
    Vec<u8>,
    HwpError,
>)
    ensures
        res matches Ok(b) ==> {
            &&& compound_stream(b@, "FileHeader"@) == Some(
                header_bytes(header.signature@, header.version, header.flags, header.reserved@),
            )
            &&& compound_stream(b@, "DocInfo"@) == Some(stored(header.flags, doc_info_bytes(*doc_info)))
            &&& compound_stream(b@, "PrvText"@) == Some(utf16le_bytes(sections_preview(Seq::empty(), sections@, 0)))
            &&& forall|i: int|
                0 <= i < sections@.len() ==> compound_stream(b@, #[trigger] section_path(i as nat)) == Some(
                    stored(header.flags, section_records(sections@[i])),
                )
        },
{
    let compressed = header.is_compressed();
    let mut f = new_compound()?;
    put_storage(&mut f, "BodyText")?;
    put_storage(&mut f, "DocOptions")?;
    put_storage(&mut f, "Scripts")?;
    put_fixed_streams(&mut f, doc_info, compressed)?;

    let preview = create_preview_text(sections)?;
    put_stream(&mut f, "PrvText", preview.as_slice())?;
    let header_data = serialize_file_header(header)?;
    put_stream(&mut f, "FileHeader", header_data.as_slice())?;
    let doc_info_data = store(serialize_doc_info(doc_info)?, compressed)?;
    put_stream(&mut f, "DocInfo", doc_info_data.as_slice())?;
    proof {
        reveal_strlit("PrvText");
        reveal_strlit("FileHeader");
        reveal_strlit("DocInfo");
        assert(entry_key("PrvText"@)[0] == 'P');
        assert(entry_key("FileHeader"@)[0] == 'F');
        assert(entry_key("DocInfo"@)[0] == 'D');
    }
    let ghost m0 = compound_contents(f);
    assert(holds(m0, "PrvText"@, utf16le_bytes(sections_preview(Seq::empty(), sections@, 0))));
    assert(holds(m0, "FileHeader"@, header_bytes(header.signature@, header.version, header.flags, header.reserved@)));
    assert(holds(m0, "DocInfo"@, stored(header.flags, doc_info_bytes(*doc_info))));

    let mut k: usize = 0;
    while k < sections.len()
        invariant
            k <= sections@.len(),
            compressed == (header.flags & 0x01 != 0),
            entry_key("PrvText"@)[0] == 'P' && entry_key("FileHeader"@)[0] == 'F' && entry_key("DocInfo"@)[0] == 'D',
            holds(compound_contents(f), "PrvText"@, utf16le_bytes(sections_preview(Seq::empty(), sections@, 0))),
            holds(
                compound_contents(f),
                "FileHeader"@,
                header_bytes(header.signature@, header.version, header.flags, header.reserved@),
            ),
            holds(compound_contents(f), "DocInfo"@, stored(header.flags, doc_info_bytes(*doc_info))),
            forall|j: int|
                0 <= j < k ==> holds(
                    compound_contents(f),
                    #[trigger] section_path(j as nat),
                    stored(header.flags, section_records(sections@[j])),
                ),
        decreases sections.len() - k,
    {
        let mut body: Vec<u8> = Vec::new();
        crate::writer::serializer::write_section(&mut body, &sections[k])?;
        assert(body@ =~= section_records(sections@[k as int]));
        let data = store(body, compressed)?;
        let name = crate::reader::compound::section_name(k);
        let ghost before = compound_contents(f);
        put_stream(&mut f, name.as_str(), data.as_slice())?;
        proof {
            lemma_section_keys(k as nat, k as nat);
            let key = entry_key(section_path(k as nat));
            assert(key != entry_key("PrvText"@));
            assert(key != entry_key("FileHeader"@));
            assert(key != entry_key("DocInfo"@));
            assert forall|j: int| 0 <= j < k + 1 implies holds(
                compound_contents(f),
                #[trigger] section_path(j as nat),
                stored(header.flags, section_records(sections@[j])),
            ) by {
                if j < k {
                    lemma_section_keys(j as nat, k as nat);
                    assert(holds(before, section_path(j as nat), stored(header.flags, section_records(sections@[j]))));
                }
            }
        }
        k = k + 1;
    }
    let bytes = finish_compound(f)?;
    proof {
        assert forall|i: int| 0 <= i < sections@.len() implies compound_stream(
            bytes@,
            #[trigger] section_path(i as nat),
        ) == Some(stored(header.flags, section_records(sections@[i]))) by {
            assert(holds(compound_contents(f), section_path(i as nat), stored(header.flags, section_records(sections@[i]))));
        }
    }
    Ok(bytes)
}

} // verus!
