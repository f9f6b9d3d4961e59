use vstd::prelude::*;
use std::io::Read;
use crate::error::HwpError;
use crate::parser::doc_info::{all_readable, doc_info_holds, records_from, DocInfo, DocInfoParser};
use crate::parser::header::{parsed_header, FileHeader};
use crate::utils::compression::decompressed;
use crate::utils::text::{decimal, push_decimal, text_of};

verus! {

/// Whether `cfb::CompoundFile::open` accepts the bytes as a compound file.
pub uninterp spec fn compound_file_opens(bytes: Seq<u8>) -> bool;

/// What reading the stream at `path` of the compound file held in `bytes`
/// to its end gives: `None` where the file does not open, the stream does
/// not open, or reading it fails.
pub uninterp spec fn compound_stream(bytes: Seq<u8>, path: Seq<char>) -> Option<Seq<u8>>;

/// Whether the compound file held in `bytes` opens and `open_stream`
/// succeeds on `path`: there is a stream there.
pub uninterp spec fn compound_stream_opens(bytes: Seq<u8>, path: Seq<char>) -> bool;

/// Whether the compound file held in `bytes` opens and has a stream or a
/// storage at `path`.
pub uninterp spec fn compound_entry_exists(bytes: Seq<u8>, path: Seq<char>) -> bool;

/// Whether the bytes hold a compound file: `cfb::CompoundFile::open` on a
/// cursor over them succeeds. The answer is named by `compound_file_opens`.
#[verifier::external_body]
fn cfb_opens(bytes: &[u8]) -> (b: bool)
    ensures
        b == compound_file_opens(bytes@),
{
    ::cfb::CompoundFile::open(std::io::Cursor::new(bytes)).is_ok()
}

/// Whether the compound file held in `bytes` has an entry at `path`:
/// `cfb::CompoundFile::exists` on the file that `open` gives, false where
/// it does not open. The answer is named by `compound_entry_exists`.
#[verifier::external_body]
fn cfb_exists(bytes: &[u8], path: &str) -> (b: bool)
    ensures
        b == compound_entry_exists(bytes@, path@),
{
    match ::cfb::CompoundFile::open(std::io::Cursor::new(bytes)) {
        Ok(f) => f.exists(path),
        Err(_) => false,
    }
}

/// Reads a stream of the compound file held in `bytes`: opens the file with
/// `cfb::CompoundFile::open`, the stream with `open_stream`, and reads it to
/// its end. `None` where the file or the stream does not open (named by
/// `compound_stream_opens`); the error of `read_to_end` where reading fails;
/// else the bytes (named by `compound_stream`).
#[verifier::external_body]
fn cfb_stream(bytes: &[u8], path: &str) -> (r: Option<Result<Vec<u8>, std::io::Error>>)
    ensures
        r is Some <==> compound_stream_opens(bytes@, path@),
        r is Some ==> compound_file_opens(bytes@),
        r is None ==> compound_stream(bytes@, path@) is None,
        r matches Some(Err(_)) ==> compound_stream(bytes@, path@) is None,
        r matches Some(Ok(v)) ==> compound_stream(bytes@, path@) == Some(v@),
{
    let mut file = match ::cfb::CompoundFile::open(std::io::Cursor::new(bytes)) {
        Ok(f) => f,
        Err(_) => return None,
    };
    let mut stream = match file.open_stream(path) {
        Ok(s) => s,
        Err(_) => return None,
    };
    let mut out = Vec::new();
    match stream.read_to_end(&mut out) {
        Ok(_) => Some(Ok(out)),
        Err(e) => Some(Err(e)),
    }
}

/// What reading a stream gives: its bytes, a stream that is not there
/// (`None`), or a read that fails (`Some(None)`).
pub open spec fn stream_read(bytes: Seq<u8>, path: Seq<char>) -> Option<Option<Seq<u8>>> {
    if !compound_stream_opens(bytes, path) {
        None
    } else {
        Some(compound_stream(bytes, path))
    }
}

/// Reads a stream as a reader of the compound file does: a stream that is
/// not there is not found, a read that fails is an I/O error.
fn read_stream(bytes: &[u8], path: &str) -> (r: Result<Vec<u8>, HwpError>)
    ensures
        match stream_read(bytes@, path@) {
            None => r matches Err(HwpError::NotFound(_)),
            Some(None) => r matches Err(HwpError::Io(_)),
            Some(Some(s)) => r matches Ok(v) && v@ == s,
        },
        r is Ok ==> compound_file_opens(bytes@),
{
    match cfb_stream(bytes, path) {
        None => {
            let mut m = text_of("Stream '");
            m.append(path);
            m.append("' not found");
            Err(HwpError::NotFound(m))
        },
        Some(Err(e)) => Err(HwpError::Io(e)),
        Some(Ok(v)) => Ok(v),
    }
}

/// What is read of a document: its header, its definitions and the raw
/// streams of its body sections.
pub struct DocumentStreams {
    pub header: FileHeader,
    pub doc_info: DocInfo,
    pub sections: Vec<Vec<u8>>,
}

/// The path of the body section stream numbered `k`.
pub open spec fn section_path(k: nat) -> Seq<char> {
    "BodyText/Section"@ + decimal(k)
}

/// What reading the body sections from number `k` on gives.
pub enum SectionsRead {
    /// The section streams, up to the first number with no entry.
    Done(Seq<Seq<u8>>),
    /// A section entry whose stream does not open.
    Missing,
    /// A section stream whose read fails.
    Unreadable,
}

/// The body section streams from number `k` on, up to the first number that
/// has no entry in the file, or the first that cannot be read; at most one
/// per byte of the file (a compound file spends far more than a byte on each
/// entry, so the bound never cuts a file short).
pub open spec fn sections_read(bytes: Seq<u8>, k: nat) -> SectionsRead
    decreases bytes.len() - k,
{
    if k >= bytes.len() || !compound_entry_exists(bytes, section_path(k)) {
        SectionsRead::Done(seq![])
    } else {
        match stream_read(bytes, section_path(k)) {
            None => SectionsRead::Missing,
            Some(None) => SectionsRead::Unreadable,
            Some(Some(s)) => after(seq![s], sections_read(bytes, k + 1)),
        }
    }
}

/// Sections read after the sections `pre`.
pub open spec fn after(pre: Seq<Seq<u8>>, r: SectionsRead) -> SectionsRead {
    match r {
        SectionsRead::Done(x) => SectionsRead::Done(pre + x),
        other => other,
    }
}

/// What reading a document gives: an error where the bytes are no compound
/// file (a compound-file error), where the header stream is not there (not
/// found) or cannot be read (I/O) or is no HWP header (invalid format),
/// where the document is encrypted (unsupported), where the definitions
/// stream is not there (not found) or cannot be read (I/O) or its records
/// cannot be read (an error), where a body section has an entry but no
/// stream (not found) or cannot be read (I/O), or where there are no body
/// sections (invalid format); else the header, the definitions and the
/// sections.
pub open spec fn document_read(bytes: Seq<u8>, res: Result<DocumentStreams, HwpError>) -> bool {
    if !compound_file_opens(bytes) {
        res matches Err(HwpError::Cfb(_))
    } else {
        match stream_read(bytes, "FileHeader"@) {
            None => res matches Err(HwpError::NotFound(_)),
            Some(None) => res matches Err(HwpError::Io(_)),
            Some(Some(hd)) => match parsed_header(hd) {
                None => res matches Err(HwpError::InvalidFormat(_)),
                Some((sig, version, flags, reserved)) => if flags & 0x02 != 0 {
                    res matches Err(HwpError::UnsupportedVersion(_))
                } else {
                    match stream_read(bytes, "DocInfo"@) {
                        None => res matches Err(HwpError::NotFound(_)),
                        Some(None) => res matches Err(HwpError::Io(_)),
                        Some(Some(di)) => {
                            let rs = records_from(if flags & 0x01 != 0 { decompressed(di) } else { di }, 0);
                            if !all_readable(rs) {
                                res is Err
                            } else {
                                match sections_read(bytes, 0) {
                                    SectionsRead::Missing => res matches Err(HwpError::NotFound(_)),
                                    SectionsRead::Unreadable => res matches Err(HwpError::Io(_)),
                                    SectionsRead::Done(secs) => if secs.len() == 0 {
                                        res matches Err(HwpError::InvalidFormat(_))
                                    } else {
                                        &&& res matches Ok(doc)
                                        &&& doc.header.signature@ == sig && doc.header.version == version
                                        &&& doc.header.flags == flags && doc.header.reserved@ == reserved
                                        &&& doc_info_holds(doc.doc_info, rs)
                                        &&& doc.sections@.len() == secs.len()
                                        &&& forall|i: int| 0 <= i < secs.len() ==> #[trigger] doc.sections@[i]@ == secs[i]
                                    },
                                }
                            }
                        },
                    }
                },
            },
        }
    }
}

/// The bytes of each of a list of streams.
pub open spec fn streams_view(v: Seq<Vec<u8>>) -> Seq<Seq<u8>> {
    v.map_values(|s: Vec<u8>| s@)
}

/// The path of the body section stream numbered `k`.
pub(crate) fn section_name(k: usize) -> (s: String)
    ensures
        s@ == section_path(k as nat),
{
    let mut s = text_of("BodyText/Section");
    push_decimal(&mut s, k as u64);
    s
}

/// Reads a document from the bytes of an HWP file: the file header (an
/// encrypted document is refused), the definitions, and the body sections
/// numbered from 0 up to the first that is missing.
#[verifier::loop_isolation(false)]
pub fn read_document(bytes: &[u8]) -> (res: Result<DocumentStreams, HwpError>)
    ensures
        document_read(bytes@, res),
{
    if !cfb_opens(bytes) {
        return Err(HwpError::Cfb(text_of("Failed to open CFB")));
    }
    let header_data = read_stream(bytes, "FileHeader")?;
    let header = FileHeader::parse(header_data)?;
    if header.is_encrypted() {
        return Err(HwpError::UnsupportedVersion(text_of("Encrypted documents are not supported")));
    }
    let doc_info_data = read_stream(bytes, "DocInfo")?;
    let doc_info = DocInfoParser::parse(doc_info_data, header.is_compressed())?;
    let ghost b = bytes@;
    let mut sections: Vec<Vec<u8>> = Vec::new();
    let mut idx: usize = 0;
    assert(streams_view(sections@) =~= Seq::<Seq<u8>>::empty());
    assert(after(Seq::empty(), sections_read(b, 0)) == sections_read(b, 0)) by {
        if let SectionsRead::Done(x) = sections_read(b, 0) {
            assert(Seq::<Seq<u8>>::empty() + x =~= x);
        }
    }
    loop
        invariant
            b == bytes@,
            idx <= b.len(),
            sections_read(b, 0) == after(streams_view(sections@), sections_read(b, idx as nat)),
        decreases b.len() - idx,
    {
        if idx >= bytes.len() {
            break;
        }
        let name = section_name(idx);
        if !cfb_exists(bytes, name.as_str()) {
            break;
        }
        let s = read_stream(bytes, name.as_str())?;
        let ghost pre = streams_view(sections@);
        let ghost rest = sections_read(b, (idx + 1) as nat);
        assert(after(pre, after(seq![s@], rest)) == after(pre.push(s@), rest)) by {
            if let SectionsRead::Done(x) = rest {
                assert(pre + (seq![s@] + x) =~= pre.push(s@) + x);
            }
        }
        assert(streams_view(sections@.push(s)) =~= pre.push(s@));
        sections.push(s);
        idx = idx + 1;
    }
    assert(sections_read(b, idx as nat) == SectionsRead::Done(seq![]));
    assert(streams_view(sections@) + seq![] =~= streams_view(sections@));
    if sections.len() == 0 {
        return Err(HwpError::InvalidFormat(text_of("No BodyText sections found")));
    }
    Ok(DocumentStreams { header, doc_info, sections })
}

} // verus!
