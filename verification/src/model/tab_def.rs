use vstd::prelude::*;
use crate::error::HwpError;
use crate::parser::record::Record;
use crate::utils::bytes::u32_le;
use crate::utils::text::text_of;

verus! {

/// A set of tab stops.
#[derive(Debug, Clone)]
pub struct TabDef {
    pub properties: u32,
    pub tabs: Vec<Tab>,
}

/// One tab stop.
#[derive(Debug, Clone, Copy, PartialEq, Eq, Structural)]
pub struct Tab {
    pub position: u32,
    pub tab_type: u8,
    pub leader_type: u8,
}

/// The tab stop stored at byte `p`: position, type and leader.
pub open spec fn tab_at(d: Seq<u8>, p: int) -> Tab {
    Tab { position: u32_le(d, p), tab_type: d[p + 4], leader_type: d[p + 5] }
}

/// Whether `t` holds the tab definition stored in `d`: its properties and a
/// tab for every whole six bytes after them.
pub open spec fn tab_def_from(t: TabDef, d: Seq<u8>) -> bool {
    &&& t.properties == u32_le(d, 0)
    &&& t.tabs@.len() == (d.len() - 4) / 6
    &&& forall|i: int| 0 <= i < t.tabs@.len() ==> t.tabs@[i] == tab_at(d, 4 + 6 * i)
}

impl TabDef {
    /// Reads a tab definition: properties, then one 6-byte tab stop for each
    /// whole six bytes that follow.
    pub fn from_record(record: &Record) -> (res: Result<Self, HwpError>)
        ensures
            ({
                let d = record.data@;
                if d.len() < 4 {
                    res matches Err(HwpError::ParseError(_))
                } else {
                    res matches Ok(t) && tab_def_from(t, d)
                }
            }),
    {
        let mut reader = record.data_reader();
        if reader.remaining() < 4 {
            return Err(HwpError::ParseError(text_of("TabDef record too small")));
        }
        let properties: u32 = reader.read_u32()?;
        let mut tabs: Vec<Tab> = Vec::new();
        let ghost d = record.data@;
        while reader.remaining() >= 6
            invariant
                reader.bytes() == d,
                d.len() >= 4,
                reader.pos() == 4 + 6 * tabs@.len(),
                reader.pos() <= d.len(),
                forall|i: int| 0 <= i < tabs@.len() ==> tabs@[i] == tab_at(d, 4 + 6 * i),
            decreases d.len() - reader.pos(),
        {
            let position: u32 = reader.read_u32()?;
            let tab_type: u8 = reader.read_u8()?;
            let leader_type: u8 = reader.read_u8()?;
            tabs.push(Tab { position, tab_type, leader_type });
        }
        assert(tabs@.len() == (d.len() - 4) / 6);
        Ok(TabDef { properties, tabs })
    }
}

impl Tab {
    pub fn is_left_aligned(&self) -> (b: bool)
        ensures
            b == (self.tab_type % 4 == 0),
    {
        self.tab_type % 4 == 0
    }

    pub fn is_center_aligned(&self) -> (b: bool)
        ensures
            b == (self.tab_type % 4 == 1),
    {
        self.tab_type % 4 == 1
    }

    pub fn is_right_aligned(&self) -> (b: bool)
        ensures
            b == (self.tab_type % 4 == 2),
    {
        self.tab_type % 4 == 2
    }

    pub fn is_decimal_aligned(&self) -> (b: bool)
        ensures
            b == (self.tab_type % 4 == 3),
    {
        self.tab_type % 4 == 3
    }

    pub fn has_leader(&self) -> (b: bool)
        ensures
            b == (self.leader_type != 0),
    {
        self.leader_type != 0
    }
}

} // verus!
