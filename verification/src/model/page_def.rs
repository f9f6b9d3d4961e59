use vstd::prelude::*;
use crate::error::HwpError;
use crate::model::header_footer::HeaderFooterCollection;
use crate::model::page_layout::{PageLayout, PageMargins, PageOrientation, PaperSize, layout_with};
use crate::parser::record::Record;
use crate::utils::bytes::{le16, le32, lemma_u32_at, put_u16, put_u32, u32_le};

verus! {

/// The definition of a page: its size and margins in HWP units
/// (1/7200 inch), its headers and footers and, where one was set, its layout.
#[derive(Debug, Clone)]
pub struct PageDef {
    pub width: u32,
    pub height: u32,
    pub left_margin: u32,
    pub right_margin: u32,
    pub top_margin: u32,
    pub bottom_margin: u32,
    pub header_margin: u32,
    pub footer_margin: u32,
    pub gutter_margin: u32,
    pub properties: u32,
    pub footnote_shape_id: u16,
    pub page_border_fill_id: u16,
    pub header_footer: HeaderFooterCollection,
    pub layout: Option<PageLayout>,
}

/// Whether a stored page dimension is taken as it is: above zero and below
/// 0x100000.
pub open spec fn reasonable_dimension(v: u32) -> bool {
    0 < v && v < 0x100000
}

/// The width read from page definition data: the first value where the data
/// holds two and it is reasonable, else the A4 width.
pub open spec fn stored_width(d: Seq<u8>) -> u32 {
    if d.len() >= 8 && reasonable_dimension(u32_le(d, 0)) { u32_le(d, 0) } else { 59528 }
}

/// The height read from page definition data: the second value where the
/// data holds two and it is reasonable, else the A4 height.
pub open spec fn stored_height(d: Seq<u8>) -> u32 {
    if d.len() >= 8 && reasonable_dimension(u32_le(d, 4)) { u32_le(d, 4) } else { 84188 }
}

/// A margin read from page definition data: the value at `offset` where the
/// data holds all four margins and the value is under half of `extent`, else
/// `default`.
pub open spec fn stored_margin(d: Seq<u8>, offset: int, extent: u32, default: u32) -> u32 {
    if d.len() >= 32 && u32_le(d, offset) < extent / 2 { u32_le(d, offset) } else { default }
}

/// The layout that a page definition without one describes: an A4 portrait
/// layout with the definition's size and margins.
pub open spec fn layout_of_fields(p: PageDef) -> PageLayout {
    let base = layout_with(PaperSize::A4, PageOrientation::Portrait, p.width, p.height);
    PageLayout {
        paper_size: base.paper_size,
        orientation: base.orientation,
        width: p.width,
        height: p.height,
        margins: PageMargins {
            left: p.left_margin,
            right: p.right_margin,
            top: p.top_margin,
            bottom: p.bottom_margin,
            header: p.header_margin,
            footer: p.footer_margin,
            gutter: p.gutter_margin,
            mirror_margins: false,
        },
        columns: base.columns,
        column_spacing: base.column_spacing,
        column_line: base.column_line,
        page_border: base.page_border,
        background_color: base.background_color,
        start_page_number: base.start_page_number,
        page_number_format: base.page_number_format,
    }
}

/// Whether a page definition takes its size and margins from `l`, with `l`
/// as its layout.
pub open spec fn takes_layout(p: PageDef, l: PageLayout) -> bool {
    &&& p.width == l.width
    &&& p.height == l.height
    &&& p.left_margin == l.margins.left
    &&& p.right_margin == l.margins.right
    &&& p.top_margin == l.margins.top
    &&& p.bottom_margin == l.margins.bottom
    &&& p.header_margin == l.margins.header
    &&& p.footer_margin == l.margins.footer
    &&& p.gutter_margin == l.margins.gutter
    &&& p.layout == Some(l)
}

/// The bytes of a page definition.
pub open spec fn page_def_bytes(p: PageDef) -> Seq<u8> {
    le32(p.width) + le32(p.height) + le32(p.left_margin) + le32(p.right_margin) + le32(p.top_margin)
        + le32(p.bottom_margin) + le32(p.header_margin) + le32(p.footer_margin) + le32(p.gutter_margin)
        + le32(p.properties) + le16(p.footnote_shape_id) + le16(p.page_border_fill_id)
}

impl PageDef {
    /// Reads a page definition. The width and height are the first two values
    /// where they are reasonable; the four margins follow where the data holds
    /// them and each is under half of the width or height it lies across. All
    /// else takes the A4 defaults.
    pub fn from_record(record: &Record) -> (res: Result<Self, HwpError>)
        ensures
            res matches Ok(p) && {
                let d = record.data@;
                &&& p.width == stored_width(d)
                &&& p.height == stored_height(d)
                &&& p.left_margin == stored_margin(d, 8, stored_width(d), 8504)
                &&& p.right_margin == stored_margin(d, 12, stored_width(d), 8504)
                &&& p.top_margin == stored_margin(d, 16, stored_height(d), 5669)
                &&& p.bottom_margin == stored_margin(d, 20, stored_height(d), 4252)
                &&& p.header_margin == 4252
                &&& p.footer_margin == 4252
                &&& p.gutter_margin == 0
                &&& p.properties == 0
                &&& p.footnote_shape_id == 0
                &&& p.page_border_fill_id == 0
                &&& p.header_footer.items@.len() == 0
                &&& p.layout is None
            },
    {
        let mut width: u32 = 59528;
        let mut height: u32 = 84188;
        let mut left_margin: u32 = 8504;
        let mut right_margin: u32 = 8504;
        let mut top_margin: u32 = 5669;
        let mut bottom_margin: u32 = 4252;
        let footer_margin: u32 = 4252;
        if record.data.len() >= 8 {
            let mut reader = record.data_reader();
            if let Ok(w) = reader.read_u32() {
                if w > 0 && w < 0x100000 {
                    width = w;
                }
            }
            if let Ok(h) = reader.read_u32() {
                if h > 0 && h < 0x100000 {
                    height = h;
                }
            }
            if reader.remaining() >= 24 {
                let m1: u32 = match reader.read_u32() { Ok(v) => v, Err(_) => left_margin };
                let m2: u32 = match reader.read_u32() { Ok(v) => v, Err(_) => right_margin };
                let m3: u32 = match reader.read_u32() { Ok(v) => v, Err(_) => top_margin };
                let m4: u32 = match reader.read_u32() { Ok(v) => v, Err(_) => bottom_margin };
                if m1 < width / 2 {
                    left_margin = m1;
                }
                if m2 < width / 2 {
                    right_margin = m2;
                }
                if m3 < height / 2 {
                    top_margin = m3;
                }
                if m4 < height / 2 {
                    bottom_margin = m4;
                }
            }
        }
        Ok(PageDef {
            width,
            height,
            left_margin,
            right_margin,
            top_margin,
            bottom_margin,
            header_margin: footer_margin,
            footer_margin,
            gutter_margin: 0,
            properties: 0,
            footnote_shape_id: 0,
            page_border_fill_id: 0,
            header_footer: HeaderFooterCollection::new(),
            layout: None,
        })
    }

    pub fn is_landscape(&self) -> (b: bool)
        ensures
            b == (self.width > self.height),
    {
        self.width > self.height
    }

    /// The width between the margins and the gutter.
    pub fn effective_width(&self) -> (w: u32)
        requires
            self.left_margin + self.right_margin + self.gutter_margin <= self.width,
        ensures
            w == self.width - self.left_margin - self.right_margin - self.gutter_margin,
    {
        self.width - self.left_margin - self.right_margin - self.gutter_margin
    }

    /// The height between the top and bottom margins.
    pub fn effective_height(&self) -> (h: u32)
        requires
            self.top_margin + self.bottom_margin <= self.height,
        ensures
            h == self.height - self.top_margin - self.bottom_margin,
    {
        self.height - self.top_margin - self.bottom_margin
    }

    /// An A4 page with the default margins.
    pub fn new_default() -> (p: Self)
        ensures
            p.width == 59528 && p.height == 84188,
            p.left_margin == 8504 && p.right_margin == 8504,
            p.top_margin == 5669 && p.bottom_margin == 4252,
            p.header_margin == 4252 && p.footer_margin == 4252 && p.gutter_margin == 0,
            p.properties == 0 && p.footnote_shape_id == 0 && p.page_border_fill_id == 0,
            p.header_footer.items@.len() == 0,
            p.layout is None,
    {
        PageDef {
            width: 59528,
            height: 84188,
            left_margin: 8504,
            right_margin: 8504,
            top_margin: 5669,
            bottom_margin: 4252,
            header_margin: 4252,
            footer_margin: 4252,
            gutter_margin: 0,
            properties: 0,
            footnote_shape_id: 0,
            page_border_fill_id: 0,
            header_footer: HeaderFooterCollection::new(),
            layout: None,
        }
    }

    /// A page definition with the size and margins of `layout`.
    pub fn from_layout(layout: PageLayout) -> (p: Self)
        ensures
            takes_layout(p, layout),
            p.properties == 0 && p.footnote_shape_id == 0 && p.page_border_fill_id == 0,
            p.header_footer.items@.len() == 0,
    {
        PageDef {
            width: layout.width,
            height: layout.height,
            left_margin: layout.margins.left,
            right_margin: layout.margins.right,
            top_margin: layout.margins.top,
            bottom_margin: layout.margins.bottom,
            header_margin: layout.margins.header,
            footer_margin: layout.margins.footer,
            gutter_margin: layout.margins.gutter,
            properties: 0,
            footnote_shape_id: 0,
            page_border_fill_id: 0,
            header_footer: HeaderFooterCollection::new(),
            layout: Some(layout),
        }
    }

    /// Takes the size and margins of `layout`, and `layout` itself.
    pub fn update_from_layout(&mut self, layout: PageLayout)
        ensures
            takes_layout(*final(self), layout),
            final(self).properties == old(self).properties,
            final(self).footnote_shape_id == old(self).footnote_shape_id,
            final(self).page_border_fill_id == old(self).page_border_fill_id,
            final(self).header_footer == old(self).header_footer,
    {
        self.width = layout.width;
        self.height = layout.height;
        self.left_margin = layout.margins.left;
        self.right_margin = layout.margins.right;
        self.top_margin = layout.margins.top;
        self.bottom_margin = layout.margins.bottom;
        self.header_margin = layout.margins.header;
        self.footer_margin = layout.margins.footer;
        self.gutter_margin = layout.margins.gutter;
        self.layout = Some(layout);
    }

    /// The layout that was set, or else one made from the size and margins.
    pub fn get_layout(&self) -> (l: PageLayout)
        ensures
            l == match self.layout {
                Some(x) => x,
                None => layout_of_fields(*self),
            },
    {
        match &self.layout {
            Some(layout) => *layout,
            None => {
                let mut layout = PageLayout::default();
                layout.width = self.width;
                layout.height = self.height;
                layout.margins.left = self.left_margin;
                layout.margins.right = self.right_margin;
                layout.margins.top = self.top_margin;
                layout.margins.bottom = self.bottom_margin;
                layout.margins.header = self.header_margin;
                layout.margins.footer = self.footer_margin;
                layout.margins.gutter = self.gutter_margin;
                layout
            },
        }
    }

    /// The ten 32-bit values and two 16-bit ids, little-endian.
    pub fn to_bytes(&self) -> (bytes: Vec<u8>)
        ensures
            bytes@ == page_def_bytes(*self),
    {
        let mut data: Vec<u8> = Vec::new();
        put_u32(&mut data, self.width);
        put_u32(&mut data, self.height);
        put_u32(&mut data, self.left_margin);
        put_u32(&mut data, self.right_margin);
        put_u32(&mut data, self.top_margin);
        put_u32(&mut data, self.bottom_margin);
        put_u32(&mut data, self.header_margin);
        put_u32(&mut data, self.footer_margin);
        put_u32(&mut data, self.gutter_margin);
        put_u32(&mut data, self.properties);
        put_u16(&mut data, self.footnote_shape_id);
        put_u16(&mut data, self.page_border_fill_id);
        assert(data@ =~= page_def_bytes(*self));
        data
    }
}

/// A page definition written to bytes reads back with the same size and
/// margins, where the size is reasonable and each margin is under half of the
/// width or height it lies across (the values reading takes as they are).
pub proof fn law_page_def_roundtrip(p: PageDef)
    requires
        reasonable_dimension(p.width),
        reasonable_dimension(p.height),
        p.left_margin < p.width / 2,
        p.right_margin < p.width / 2,
        p.top_margin < p.height / 2,
        p.bottom_margin < p.height / 2,
    ensures
        ({
            let d = page_def_bytes(p);
            &&& stored_width(d) == p.width
            &&& stored_height(d) == p.height
            &&& stored_margin(d, 8, stored_width(d), 8504) == p.left_margin
            &&& stored_margin(d, 12, stored_width(d), 8504) == p.right_margin
            &&& stored_margin(d, 16, stored_height(d), 5669) == p.top_margin
            &&& stored_margin(d, 20, stored_height(d), 4252) == p.bottom_margin
        }),
{
    let d = page_def_bytes(p);
    assert(d.len() == 44);
    assert(d.subrange(0, 4) =~= le32(p.width));
    lemma_u32_at(d, 0, p.width);
    assert(d.subrange(4, 8) =~= le32(p.height));
    lemma_u32_at(d, 4, p.height);
    assert(d.subrange(8, 12) =~= le32(p.left_margin));
    lemma_u32_at(d, 8, p.left_margin);
    assert(d.subrange(12, 16) =~= le32(p.right_margin));
    lemma_u32_at(d, 12, p.right_margin);
    assert(d.subrange(16, 20) =~= le32(p.top_margin));
    lemma_u32_at(d, 16, p.top_margin);
    assert(d.subrange(20, 24) =~= le32(p.bottom_margin));
    lemma_u32_at(d, 20, p.bottom_margin);
}

} // verus!
