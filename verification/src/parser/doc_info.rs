use vstd::prelude::*;
use crate::error::HwpError;
use crate::model::bin_data::{BinData, bin_data_fields, bin_data_from};
use crate::model::border_fill::{BorderFill, border_fill_from};
use crate::model::char_shape::{CharShape, FaceName, char_shape_from, face_name_fields, face_name_from};
use crate::model::document::{DocumentProperties, properties_from};
use crate::model::numbering::{Bullet, Numbering, bullet_fields, bullet_from, numbering_from, numbering_parse};
use crate::model::para_shape::{ParaShape, para_shape_from};
use crate::model::style::{Style, style_fields, style_from};
use crate::model::tab_def::{TabDef, tab_def_from};
use crate::parser::record::{HwpTag, Record, header_len, record_fits, record_size, tag_bits};
use crate::reader::StreamReader;
use crate::utils::bytes::u32_le;
use crate::utils::compression::{decompress_stream, decompressed};

verus! {

/// Reads the DocInfo stream.
pub struct DocInfoParser;

/// The document-wide definitions: properties, fonts, shapes, styles, border
/// fills, tabs, numberings, bullets and binary data entries.
#[derive(Debug)]
pub struct DocInfo {
    pub properties: Option<DocumentProperties>,
    pub face_names: Vec<FaceName>,
    pub char_shapes: Vec<CharShape>,
    pub para_shapes: Vec<ParaShape>,
    pub styles: Vec<Style>,
    pub border_fills: Vec<BorderFill>,
    pub tab_defs: Vec<TabDef>,
    pub numberings: Vec<Numbering>,
    pub bullets: Vec<Bullet>,
    pub bin_data: Vec<BinData>,
}

impl Default for DocInfo {
    fn default() -> (d: Self)
        ensures
            d.properties is None,
            d.face_names@.len() == 0 && d.char_shapes@.len() == 0 && d.para_shapes@.len() == 0,
            d.styles@.len() == 0 && d.border_fills@.len() == 0 && d.tab_defs@.len() == 0,
            d.numberings@.len() == 0 && d.bullets@.len() == 0 && d.bin_data@.len() == 0,
    {
        DocInfo {
            properties: None,
            face_names: Vec::new(),
            char_shapes: Vec::new(),
            para_shapes: Vec::new(),
            styles: Vec::new(),
            border_fills: Vec::new(),
            tab_defs: Vec::new(),
            numberings: Vec::new(),
            bullets: Vec::new(),
            bin_data: Vec::new(),
        }
    }
}

/// The records of a stream from byte `p`, as tag and data: read while four
/// bytes remain and the whole record lies within the stream.
pub open spec fn records_from(d: Seq<u8>, p: int) -> Seq<(u16, Seq<u8>)>
    decreases d.len() - p,
{
    if d.len() - p < 4 || !record_fits(d, p) {
        seq![]
    } else {
        let q = p + header_len(d, p) + record_size(d, p);
        seq![(tag_bits(u32_le(d, p)), d.subrange(p + header_len(d, p), q))] + records_from(d, q)
    }
}

/// The data of the records with tag `t`, in order.
pub open spec fn tag_records(rs: Seq<(u16, Seq<u8>)>, t: u16) -> Seq<Seq<u8>>
    decreases rs.len(),
{
    if rs.len() == 0 {
        seq![]
    } else {
        tag_records(rs.drop_last(), t) + if rs.last().0 == t {
            seq![rs.last().1]
        } else {
            seq![]
        }
    }
}

/// Whether a record with tag `t` and data `d` is read without error.
pub open spec fn record_readable(t: u16, d: Seq<u8>) -> bool {
    if t == 0x13 {
        face_name_fields(d) is Some
    } else if t == 0x15 {
        d.len() >= 72
    } else if t == 0x19 {
        d.len() >= 54
    } else if t == 0x1A {
        style_fields(d) is Some
    } else if t == 0x14 {
        d.len() >= 2
    } else if t == 0x16 {
        d.len() >= 4
    } else if t == 0x17 {
        numbering_parse(d, 0, 0) is Some
    } else if t == 0x18 {
        d.len() >= 6 && bullet_fields(d) is Some
    } else if t == 0x12 {
        d.len() >= 6 && bin_data_fields(d) is Some
    } else {
        true
    }
}

/// Whether every record of `rs` is read without error.
pub open spec fn all_readable(rs: Seq<(u16, Seq<u8>)>) -> bool {
    forall|i: int| 0 <= i < rs.len() ==> record_readable(#[trigger] rs[i].0, rs[i].1)
}

/// Whether `info` holds what the records `rs` define: the last properties
/// record, and one entry per record of each other kind, in order.
#[verifier::opaque]
pub open spec fn doc_info_holds(info: DocInfo, rs: Seq<(u16, Seq<u8>)>) -> bool {
    &&& match info.properties {
        Some(p) => tag_records(rs, 0x10).len() > 0 && properties_from(p, tag_records(rs, 0x10).last()),
        None => tag_records(rs, 0x10).len() == 0,
    }
    &&& info.face_names@.len() == tag_records(rs, 0x13).len()
    &&& forall|i: int| 0 <= i < info.face_names@.len() ==> face_name_from(#[trigger] info.face_names@[i], tag_records(rs, 0x13)[i])
    &&& info.char_shapes@.len() == tag_records(rs, 0x15).len()
    &&& forall|i: int| 0 <= i < info.char_shapes@.len() ==> char_shape_from(#[trigger] info.char_shapes@[i], tag_records(rs, 0x15)[i])
    &&& info.para_shapes@.len() == tag_records(rs, 0x19).len()
    &&& forall|i: int| 0 <= i < info.para_shapes@.len() ==> para_shape_from(#[trigger] info.para_shapes@[i], tag_records(rs, 0x19)[i])
    &&& info.styles@.len() == tag_records(rs, 0x1A).len()
    &&& forall|i: int| 0 <= i < info.styles@.len() ==> style_from(#[trigger] info.styles@[i], tag_records(rs, 0x1A)[i])
    &&& info.border_fills@.len() == tag_records(rs, 0x14).len()
    &&& forall|i: int| 0 <= i < info.border_fills@.len() ==> border_fill_from(#[trigger] info.border_fills@[i], tag_records(rs, 0x14)[i])
    &&& info.tab_defs@.len() == tag_records(rs, 0x16).len()
    &&& forall|i: int| 0 <= i < info.tab_defs@.len() ==> tab_def_from(#[trigger] info.tab_defs@[i], tag_records(rs, 0x16)[i])
    &&& info.numberings@.len() == tag_records(rs, 0x17).len()
    &&& forall|i: int| 0 <= i < info.numberings@.len() ==> numbering_from(#[trigger] info.numberings@[i], tag_records(rs, 0x17)[i])
    &&& info.bullets@.len() == tag_records(rs, 0x18).len()
    &&& forall|i: int| 0 <= i < info.bullets@.len() ==> bullet_from(#[trigger] info.bullets@[i], tag_records(rs, 0x18)[i])
    &&& info.bin_data@.len() == tag_records(rs, 0x12).len()
    &&& forall|i: int| 0 <= i < info.bin_data@.len() ==> bin_data_from(#[trigger] info.bin_data@[i], tag_records(rs, 0x12)[i])
}

/// Adding a record leaves the records of every other tag as they were and
/// puts its data after those of its own tag.
pub proof fn lemma_tag_records_push(rs: Seq<(u16, Seq<u8>)>, r: (u16, Seq<u8>), t: u16)
    ensures
        tag_records(rs.push(r), t) == tag_records(rs, t) + if r.0 == t {
            seq![r.1]
        } else {
            seq![]
        },
{
    assert(rs.push(r).drop_last() =~= rs);
}

/// Reads one record into the definitions: a record of a known kind is read
/// and added, any other is skipped.
#[verifier::spinoff_prover]
#[verifier::rlimit(50)]
fn add_record(info: &mut DocInfo, record: &Record, Ghost(done): Ghost<Seq<(u16, Seq<u8>)>>) -> (res: Result<(), HwpError>)
    requires
        doc_info_holds(*old(info), done),
    ensures
        ({
            let r = (record.header.tag_id, record.data@);
            if record_readable(r.0, r.1) {
                res is Ok && doc_info_holds(*final(info), done.push(r))
            } else {
                res is Err
            }
        }),
{
    let ghost r = (record.header.tag_id, record.data@);
    proof {
        reveal(doc_info_holds);
        lemma_tag_records_push(done, r, 0x10);
        lemma_tag_records_push(done, r, 0x12);
        lemma_tag_records_push(done, r, 0x13);
        lemma_tag_records_push(done, r, 0x14);
        lemma_tag_records_push(done, r, 0x15);
        lemma_tag_records_push(done, r, 0x16);
        lemma_tag_records_push(done, r, 0x17);
        lemma_tag_records_push(done, r, 0x18);
        lemma_tag_records_push(done, r, 0x19);
        lemma_tag_records_push(done, r, 0x1A);
    }
    let tag: u16 = record.tag_id();
    match HwpTag::from_u16(tag) {
        Some(HwpTag::DocumentProperties) => {
            info.properties = Some(DocumentProperties::from_record(record)?);
        },
        Some(HwpTag::FaceName) => {
            info.face_names.push(FaceName::from_record(record)?);
        },
        Some(HwpTag::CharShape) => {
            info.char_shapes.push(CharShape::from_record(record)?);
        },
        Some(HwpTag::ParaShape) => {
            info.para_shapes.push(ParaShape::from_record(record)?);
        },
        Some(HwpTag::Style) => {
            info.styles.push(Style::from_record(record)?);
        },
        Some(HwpTag::BorderFill) => {
            info.border_fills.push(BorderFill::from_record(record)?);
        },
        Some(HwpTag::TabDef) => {
            info.tab_defs.push(TabDef::from_record(record)?);
        },
        Some(HwpTag::Numbering) => {
            info.numberings.push(Numbering::from_record(record)?);
        },
        Some(HwpTag::Bullet) => {
            info.bullets.push(Bullet::from_record(record)?);
        },
        Some(HwpTag::BinData) => {
            info.bin_data.push(BinData::from_record(record)?);
        },
        _ => {},
    }
    Ok(())
}

impl DocInfoParser {
    /// Reads the DocInfo stream (decompressed first where it is compressed):
    /// records are read in order while they fit, and each known kind is read
    /// into its list (the properties record into the properties). Fails where
    /// a record of a known kind cannot be read.
    pub fn parse(data: Vec<u8>, is_compressed: bool) -> (res: Result<DocInfo, HwpError>)
        ensures
            ({
                let d = if is_compressed { decompressed(data@) } else { data@ };
                let rs = records_from(d, 0);
                if all_readable(rs) {
                    res matches Ok(info) && doc_info_holds(info, rs)
                } else {
                    res is Err
                }
            }),
    {
        let ghost input = data@;
        let bytes = if is_compressed {
            decompress_stream(data.as_slice())?
        } else {
            data
        };
        let ghost d = bytes@;
        let mut reader = StreamReader::new(bytes);
        let mut doc_info = DocInfo::default();
        let ghost mut done: Seq<(u16, Seq<u8>)> = seq![];
        proof {
            reveal(doc_info_holds);
            assert(tag_records(done, 0x10) =~= seq![]);
        }
        loop
            invariant_except_break
                done + records_from(d, reader.pos()) == records_from(d, 0),
            invariant
                input == data@,
                d == if is_compressed { decompressed(input) } else { input },
                reader.bytes() == d,
                all_readable(done),
                doc_info_holds(doc_info, done),
            ensures
                done == records_from(d, 0),
                doc_info_holds(doc_info, done),
            decreases d.len() - reader.pos(),
        {
            if reader.remaining() < 4 {
                assert(records_from(d, reader.pos()) =~= seq![]);
                assert(done + records_from(d, reader.pos()) =~= done);
                break;
            }
            let ghost p = reader.pos();
            let record = match Record::parse(&mut reader) {
                Ok(r) => r,
                Err(_) => {
                    assert(records_from(d, p) =~= seq![]);
                    assert(done + records_from(d, p) =~= done);
                    break;
                },
            };
            let ghost r = (record.header.tag_id, record.data@);
            proof {
                assert(records_from(d, p) == seq![r] + records_from(d, reader.pos()));
                assert(done + records_from(d, p) =~= done.push(r) + records_from(d, reader.pos()));
            }
            assert(records_from(d, 0)[done.len() as int] == r);
            match add_record(&mut doc_info, &record, Ghost(done)) {
                Ok(()) => {},
                Err(e) => {
                    proof {
                        let rs = records_from(d, 0);
                        assert(!record_readable(rs[done.len() as int].0, rs[done.len() as int].1));
                    }
                    return Err(e);
                },
            }
            proof {
                done = done.push(r);
            }
        }
        Ok(doc_info)
    }
}

} // verus!
