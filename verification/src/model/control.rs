use vstd::prelude::*;
use crate::error::HwpError;
use crate::parser::record::Record;
use crate::model::numbering::optional_text;
use crate::utils::bytes::{u16_le, u32_le, i32_le};
use crate::utils::text::text_of;

verus! {

/// The kinds of controls a paragraph can hold.
#[derive(Debug, Clone)]
pub enum Control {
    SectionDef,
    ColumnDef,
    Table,
    ShapeObject,
    Equation,
    Picture,
    Header,
    Footer,
    Footnote,
    Endnote,
    AutoNumber,
    NewNumber,
    PageHide,
    PageOddEvenAdjust,
    PageNumberPosition,
    IndexMark,
    BookMark,
    OverlappingLetter,
    DutmalSaero,
    HiddenComment,
}

/// A table: its size, spacing, margins and cells.
#[derive(Debug, Clone)]
pub struct Table {
    pub properties: u32,
    pub rows: u16,
    pub cols: u16,
    pub cell_spacing: u16,
    pub left_margin: i32,
    pub right_margin: i32,
    pub top_margin: i32,
    pub bottom_margin: i32,
    pub cells: Vec<TableCell>,
}

/// One cell of a table.
#[derive(Debug, Clone)]
pub struct TableCell {
    pub list_header_id: u32,
    pub col_span: u16,
    pub row_span: u16,
    pub width: u32,
    pub height: u32,
    pub left_margin: u16,
    pub right_margin: u16,
    pub top_margin: u16,
    pub bottom_margin: u16,
    pub border_fill_id: u16,
    pub text_width: u32,
    pub field_name: String,
}

/// The cells read from the `k`-th on, at byte `p`, of `total` cells: each as
/// its start and field name. Reading stops at the cell count or where fewer
/// than 34 bytes remain; `None` where a field name does not decode.
pub open spec fn cells_parse(d: Seq<u8>, p: int, k: nat, total: nat) -> Option<Seq<(int, Seq<char>)>>
    decreases total - k,
{
    if k >= total || d.len() - p < 34 {
        Some(seq![])
    } else {
        match optional_text(d, p + 30) {
            None => None,
            Some((name, q)) => match cells_parse(d, q, k + 1, total) {
                Some(rest) => Some(seq![(p, name)] + rest),
                None => None,
            },
        }
    }
}

/// A cell holds the fields stored at the start that `t` names.
pub open spec fn cell_matches(c: TableCell, d: Seq<u8>, t: (int, Seq<char>)) -> bool {
    &&& c.list_header_id == u32_le(d, t.0)
    &&& c.col_span == u16_le(d, t.0 + 4)
    &&& c.row_span == u16_le(d, t.0 + 6)
    &&& c.width == u32_le(d, t.0 + 8)
    &&& c.height == u32_le(d, t.0 + 12)
    &&& c.left_margin == u16_le(d, t.0 + 16)
    &&& c.right_margin == u16_le(d, t.0 + 18)
    &&& c.top_margin == u16_le(d, t.0 + 20)
    &&& c.bottom_margin == u16_le(d, t.0 + 22)
    &&& c.border_fill_id == u16_le(d, t.0 + 24)
    &&& c.text_width == u32_le(d, t.0 + 26)
    &&& c.field_name@ == t.1
}

impl Table {
    /// Reads a table: properties, rows, columns, spacing and margins, then up
    /// to rows times columns cells. Between 20 and 25 bytes the margins
    /// cannot be read, which is an I/O error. The count of cells is a 16-bit
    /// product, so a table whose rows times columns passes 65535 is left out.
    pub fn from_record(record: &Record) -> (res: Result<Self, HwpError>)
        requires
            record.data@.len() >= 26 ==> u16_le(record.data@, 4) * u16_le(record.data@, 6) <= 0xFFFF,
        ensures
            ({
                let d = record.data@;
                if d.len() < 20 {
                    res matches Err(HwpError::ParseError(_))
                } else if d.len() < 26 {
                    res matches Err(HwpError::Io(_))
                } else {
                    match cells_parse(d, 26, 0, (u16_le(d, 4) * u16_le(d, 6)) as nat) {
                        Some(cs) => res matches Ok(t) && t.properties == u32_le(d, 0) && t.rows == u16_le(d, 4)
                            && t.cols == u16_le(d, 6) && t.cell_spacing == u16_le(d, 8)
                            && t.left_margin == i32_le(d, 10) && t.right_margin == i32_le(d, 14)
                            && t.top_margin == i32_le(d, 18) && t.bottom_margin == i32_le(d, 22)
                            && t.cells@.len() == cs.len()
                            && forall|i: int| 0 <= i < cs.len() ==> cell_matches(#[trigger] t.cells@[i], d, cs[i]),
                        None => res is Err,
                    }
                }
            }),
    {
        let mut reader = record.data_reader();
        let ghost d = record.data@;
        if reader.remaining() < 20 {
            return Err(HwpError::ParseError(text_of("Table record too small")));
        }
        let properties: u32 = reader.read_u32()?;
        let rows: u16 = reader.read_u16()?;
        let cols: u16 = reader.read_u16()?;
        let cell_spacing: u16 = reader.read_u16()?;
        let left_margin: i32 = reader.read_i32()?;
        let right_margin: i32 = reader.read_i32()?;
        let top_margin: i32 = reader.read_i32()?;
        let bottom_margin: i32 = reader.read_i32()?;
        let total_cells: usize = (rows * cols) as usize;
        let mut cells: Vec<TableCell> = Vec::new();
        let ghost mut acc: Seq<(int, Seq<char>)> = seq![];
        let mut k: usize = 0;
        while k < total_cells
            invariant
                d == record.data@,
                d.len() >= 26,
                total_cells == u16_le(d, 4) * u16_le(d, 6),
                reader.bytes() == d,
                0 <= reader.pos() <= d.len(),
                k <= total_cells,
                cells@.len() == acc.len(),
                forall|i: int| 0 <= i < acc.len() ==> cell_matches(#[trigger] cells@[i], d, acc[i]),
                cells_parse(d, 26, 0, total_cells as nat) == crate::model::numbering::prepend(
                    acc, cells_parse(d, reader.pos(), k as nat, total_cells as nat)),
            ensures
                k >= total_cells || d.len() - reader.pos() < 34,
                reader.bytes() == d,
                cells@.len() == acc.len(),
                forall|i: int| 0 <= i < acc.len() ==> cell_matches(#[trigger] cells@[i], d, acc[i]),
                cells_parse(d, 26, 0, total_cells as nat) == crate::model::numbering::prepend(
                    acc, cells_parse(d, reader.pos(), k as nat, total_cells as nat)),
            decreases total_cells - k,
        {
            if reader.remaining() < 34 {
                break;
            }
            let ghost p = reader.pos();
            let list_header_id: u32 = reader.read_u32()?;
            let col_span: u16 = reader.read_u16()?;
            let row_span: u16 = reader.read_u16()?;
            let width: u32 = reader.read_u32()?;
            let height: u32 = reader.read_u32()?;
            let cell_left: u16 = reader.read_u16()?;
            let cell_right: u16 = reader.read_u16()?;
            let cell_top: u16 = reader.read_u16()?;
            let cell_bottom: u16 = reader.read_u16()?;
            let border_fill_id: u16 = reader.read_u16()?;
            let text_width: u32 = reader.read_u32()?;
            let field_name = if reader.remaining() >= 2 {
                let name_len: usize = reader.read_u16()? as usize;
                if reader.remaining() >= name_len * 2 {
                    match reader.read_string(name_len * 2) {
                        Ok(t) => t,
                        Err(e) => {
                            assert(cells_parse(d, p, k as nat, total_cells as nat) is None);
                            return Err(e);
                        },
                    }
                } else {
                    String::new()
                }
            } else {
                String::new()
            };
            let ghost q = reader.pos();
            cells.push(TableCell {
                list_header_id,
                col_span,
                row_span,
                width,
                height,
                left_margin: cell_left,
                right_margin: cell_right,
                top_margin: cell_top,
                bottom_margin: cell_bottom,
                border_fill_id,
                text_width,
                field_name,
            });
            proof {
                let t = (p, cells@.last().field_name@);
                assert(optional_text(d, p + 30) == Some((t.1, q)));
                assert(cells_parse(d, p, k as nat, total_cells as nat)
                    == crate::model::numbering::prepend(seq![t], cells_parse(d, q, (k + 1) as nat, total_cells as nat)));
                match cells_parse(d, q, (k + 1) as nat, total_cells as nat) {
                    Some(rest) => { assert(acc + (seq![t] + rest) =~= acc.push(t) + rest); },
                    None => {},
                }
                acc = acc.push(t);
            }
            k = k + 1;
        }
        proof {
            assert(acc + Seq::<(int, Seq<char>)>::empty() =~= acc);
        }
        Ok(Table { properties, rows, cols, cell_spacing, left_margin, right_margin, top_margin, bottom_margin, cells })
    }
}

} // verus!
