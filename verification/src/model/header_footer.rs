use vstd::prelude::*;
use crate::error::HwpError;
use crate::parser::record::Record;
use crate::utils::bytes::{u32_le, le16, le32, put_u16, put_u32, put_bytes};
use crate::utils::encoding::{string_to_utf16le, utf16le_bytes};
use crate::utils::text::text_of;

verus! {

/// Whether an item is a header or a footer.
#[derive(Debug, Clone, Copy, PartialEq, Eq, Structural)]
pub enum HeaderFooterType {
    Header,
    Footer,
}

/// The pages a header or footer applies to.
#[derive(Debug, Clone, Copy, PartialEq, Eq, Structural)]
pub enum PageApplyType {
    All,
    FirstPage,
    EvenPages,
    OddPages,
}

/// A header or footer.
#[derive(Debug, Clone)]
pub struct HeaderFooter {
    pub header_footer_type: HeaderFooterType,
    pub apply_type: PageApplyType,
    pub text: String,
    pub char_shape_id: u16,
    pub para_shape_id: u16,
    /// 0 left, 1 center, 2 right.
    pub alignment: u8,
    pub include_page_number: bool,
    /// 1 numeric, 2 lower roman, 3 upper roman, 4 lower alpha, 5 upper alpha.
    pub page_number_format: u8,
    pub height: u32,
    pub margin: u32,
}

/// The format of page numbers.
#[derive(Debug, Clone, Copy, PartialEq, Eq, Structural)]
pub enum PageNumberFormat {
    Numeric,
    RomanLower,
    RomanUpper,
    AlphaLower,
    AlphaUpper,
}

/// The alignment of a header or footer.
#[derive(Debug, Clone, Copy, PartialEq, Eq, Structural)]
pub enum HeaderFooterAlignment {
    Left,
    Center,
    Right,
}

/// The code of a page number format (1 to 5).
pub open spec fn format_code(f: PageNumberFormat) -> u8 {
    match f {
        PageNumberFormat::Numeric => 1,
        PageNumberFormat::RomanLower => 2,
        PageNumberFormat::RomanUpper => 3,
        PageNumberFormat::AlphaLower => 4,
        PageNumberFormat::AlphaUpper => 5,
    }
}

/// The code of an alignment (0 to 2).
pub open spec fn alignment_code(a: HeaderFooterAlignment) -> u8 {
    match a {
        HeaderFooterAlignment::Left => 0,
        HeaderFooterAlignment::Center => 1,
        HeaderFooterAlignment::Right => 2,
    }
}

/// The code of a header or footer type (0 or 1).
pub open spec fn type_code(t: HeaderFooterType) -> u8 {
    match t {
        HeaderFooterType::Header => 0,
        HeaderFooterType::Footer => 1,
    }
}

/// The code of the pages an item applies to (0 to 3).
pub open spec fn apply_code(a: PageApplyType) -> u8 {
    match a {
        PageApplyType::All => 0,
        PageApplyType::FirstPage => 1,
        PageApplyType::EvenPages => 2,
        PageApplyType::OddPages => 3,
    }
}

impl PageNumberFormat {
    pub fn code(&self) -> (c: u8)
        ensures
            c == format_code(*self),
    {
        match self {
            PageNumberFormat::Numeric => 1,
            PageNumberFormat::RomanLower => 2,
            PageNumberFormat::RomanUpper => 3,
            PageNumberFormat::AlphaLower => 4,
            PageNumberFormat::AlphaUpper => 5,
        }
    }
}

impl HeaderFooterAlignment {
    pub fn code(&self) -> (c: u8)
        ensures
            c == alignment_code(*self),
    {
        match self {
            HeaderFooterAlignment::Left => 0,
            HeaderFooterAlignment::Center => 1,
            HeaderFooterAlignment::Right => 2,
        }
    }
}

impl HeaderFooterType {
    pub fn code(&self) -> (c: u8)
        ensures
            c == type_code(*self),
    {
        match self {
            HeaderFooterType::Header => 0,
            HeaderFooterType::Footer => 1,
        }
    }
}

impl PageApplyType {
    pub fn code(&self) -> (c: u8)
        ensures
            c == apply_code(*self),
    {
        match self {
            PageApplyType::All => 0,
            PageApplyType::FirstPage => 1,
            PageApplyType::EvenPages => 2,
            PageApplyType::OddPages => 3,
        }
    }
}

/// A header or footer with the default settings and the given type and text:
/// all pages, left aligned, no page number, numeric format, height 1000 and
/// margin 500.
pub open spec fn default_item(h: HeaderFooter, t: HeaderFooterType, text: Seq<char>) -> bool {
    &&& h.header_footer_type == t
    &&& h.apply_type == PageApplyType::All
    &&& h.text@ == text
    &&& h.char_shape_id == 0
    &&& h.para_shape_id == 0
    &&& h.alignment == 0
    &&& !h.include_page_number
    &&& h.page_number_format == 1
    &&& h.height == 1000
    &&& h.margin == 500
}

/// The bytes of a header or footer: type, pages, alignment, page number flag
/// and format, height, margin, shape ids, then the UTF-16LE text after its
/// length in units (taken from the byte length cut to 16 bits).
pub open spec fn header_footer_bytes(h: HeaderFooter) -> Seq<u8> {
    let text = utf16le_bytes(h.text@);
    seq![type_code(h.header_footer_type), apply_code(h.apply_type), h.alignment,
        if h.include_page_number { 1u8 } else { 0u8 }, h.page_number_format]
        + le32(h.height) + le32(h.margin) + le16(h.char_shape_id) + le16(h.para_shape_id)
        + le16(((text.len() % 65536) / 2) as u16) + text
}

impl Default for HeaderFooter {
    fn default() -> (h: Self)
        ensures
            default_item(h, HeaderFooterType::Header, seq![]),
    {
        HeaderFooter {
            header_footer_type: HeaderFooterType::Header,
            apply_type: PageApplyType::All,
            text: String::new(),
            char_shape_id: 0,
            para_shape_id: 0,
            alignment: 0,
            include_page_number: false,
            page_number_format: 1,
            height: 1000,
            margin: 500,
        }
    }
}

impl HeaderFooter {
    /// A header with the given text and the default settings.
    pub fn new_header(text: &str) -> (h: Self)
        ensures
            default_item(h, HeaderFooterType::Header, text@),
    {
        HeaderFooter { header_footer_type: HeaderFooterType::Header, text: text_of(text), ..Default::default() }
    }

    /// A footer with the given text and the default settings.
    pub fn new_footer(text: &str) -> (h: Self)
        ensures
            default_item(h, HeaderFooterType::Footer, text@),
    {
        HeaderFooter { header_footer_type: HeaderFooterType::Footer, text: text_of(text), ..Default::default() }
    }

    /// Shows the page number in the given format.
    pub fn with_page_number(self, format: PageNumberFormat) -> (h: Self)
        ensures
            h == (HeaderFooter { include_page_number: true, page_number_format: format_code(format), ..self }),
    {
        let code: u8 = format.code();
        HeaderFooter { include_page_number: true, page_number_format: code, ..self }
    }

    pub fn with_alignment(self, alignment: HeaderFooterAlignment) -> (h: Self)
        ensures
            h == (HeaderFooter { alignment: alignment_code(alignment), ..self }),
    {
        let code: u8 = alignment.code();
        HeaderFooter { alignment: code, ..self }
    }

    pub fn with_apply_type(self, apply_type: PageApplyType) -> (h: Self)
        ensures
            h == (HeaderFooter { apply_type, ..self }),
    {
        HeaderFooter { apply_type, ..self }
    }

    /// Sets the height from millimetres (100 units each).
    pub fn with_height_mm(self, height_mm: u32) -> (h: Self)
        requires
            height_mm * 100 <= u32::MAX,
        ensures
            h == (HeaderFooter { height: (height_mm * 100) as u32, ..self }),
    {
        HeaderFooter { height: height_mm * 100, ..self }
    }

    /// Sets the margin from millimetres (100 units each).
    pub fn with_margin_mm(self, margin_mm: u32) -> (h: Self)
        requires
            margin_mm * 100 <= u32::MAX,
        ensures
            h == (HeaderFooter { margin: (margin_mm * 100) as u32, ..self }),
    {
        HeaderFooter { margin: margin_mm * 100, ..self }
    }

    /// The bytes of the header or footer.
    pub fn to_bytes(&self) -> (bytes: Vec<u8>)
        ensures
            bytes@ == header_footer_bytes(*self),
    {
        let mut bytes: Vec<u8> = Vec::new();
        bytes.push(self.header_footer_type.code());
        bytes.push(self.apply_type.code());
        bytes.push(self.alignment);
        bytes.push(if self.include_page_number { 1 } else { 0 });
        bytes.push(self.page_number_format);
        put_u32(&mut bytes, self.height);
        put_u32(&mut bytes, self.margin);
        put_u16(&mut bytes, self.char_shape_id);
        put_u16(&mut bytes, self.para_shape_id);
        let text = string_to_utf16le(self.text.as_str());
        put_u16(&mut bytes, ((text.len() % 65536) / 2) as u16);
        put_bytes(&mut bytes, text.as_slice());
        assert(bytes@ =~= header_footer_bytes(*self));
        bytes
    }

    /// Reads the 40-byte layout of a header or footer record: the height is
    /// its third value and the margin its fifth; the rest takes the defaults.
    pub fn from_record(record: &Record) -> (res: Result<Self, HwpError>)
        ensures
            record.data@.len() < 40 ==> (res matches Err(HwpError::InvalidFormat(_))),
            record.data@.len() >= 40 ==> (res matches Ok(h) && h.header_footer_type == HeaderFooterType::Header
                && h.apply_type == PageApplyType::All && h.text@ == Seq::<char>::empty() && h.char_shape_id == 0
                && h.para_shape_id == 0 && h.alignment == 0 && !h.include_page_number && h.page_number_format == 1
                && h.height == u32_le(record.data@, 8) && h.margin == u32_le(record.data@, 16)),
    {
        let mut reader = record.data_reader();
        if record.data.len() < 40 {
            return Err(HwpError::InvalidFormat(text_of("HeaderFooter record too short")));
        }
        let _field1: u32 = reader.read_u32()?;
        let _field2: u32 = reader.read_u32()?;
        let height: u32 = reader.read_u32()?;
        let _height2: u32 = reader.read_u32()?;
        let left_margin: u32 = reader.read_u32()?;
        let _top_margin: u32 = reader.read_u32()?;
        let _right_margin: u32 = reader.read_u32()?;
        let _bottom_margin: u32 = reader.read_u32()?;
        let _field9: u32 = reader.read_u32()?;
        let _field10: u32 = reader.read_u32()?;
        Ok(HeaderFooter {
            header_footer_type: HeaderFooterType::Header,
            apply_type: PageApplyType::All,
            text: String::new(),
            char_shape_id: 0,
            para_shape_id: 0,
            alignment: 0,
            include_page_number: false,
            page_number_format: 1,
            height,
            margin: left_margin,
        })
    }
}

/// The headers and footers of a page definition.
#[derive(Debug, Clone)]
pub struct HeaderFooterCollection {
    pub items: Vec<HeaderFooter>,
}

/// The items of the given type, in order.
pub open spec fn items_of_type(s: Seq<HeaderFooter>, t: HeaderFooterType) -> Seq<HeaderFooter>
    decreases s.len(),
{
    if s.len() == 0 {
        s
    } else if s.last().header_footer_type == t {
        items_of_type(s.drop_last(), t).push(s.last())
    } else {
        items_of_type(s.drop_last(), t)
    }
}

/// The index of the first item of the given type and pages, from `i` on.
pub open spec fn find_index_from(s: Seq<HeaderFooter>, t: HeaderFooterType, a: PageApplyType, i: int) -> int
    decreases s.len() - i,
{
    if i < 0 || i >= s.len() {
        s.len() as int
    } else if s[i].header_footer_type == t && s[i].apply_type == a {
        i
    } else {
        find_index_from(s, t, a, i + 1)
    }
}

impl Default for HeaderFooterCollection {
    fn default() -> (c: Self)
        ensures
            c.items@.len() == 0,
    {
        HeaderFooterCollection { items: Vec::new() }
    }
}

impl HeaderFooterCollection {
    pub fn new() -> (c: Self)
        ensures
            c.items@.len() == 0,
    {
        HeaderFooterCollection { items: Vec::new() }
    }

    pub fn add_header(&mut self, header: HeaderFooter)
        ensures
            final(self).items@ == old(self).items@.push(header),
    {
        self.items.push(header);
    }

    pub fn add_footer(&mut self, footer: HeaderFooter)
        ensures
            final(self).items@ == old(self).items@.push(footer),
    {
        self.items.push(footer);
    }

    /// The first item of the given type applied to the given pages.
    pub fn find_by_type(&self, header_footer_type: HeaderFooterType, apply_type: PageApplyType) -> (r: Option<&HeaderFooter>)
        ensures
            ({
                let k = find_index_from(self.items@, header_footer_type, apply_type, 0);
                if k < self.items@.len() { r == Some(&self.items@[k]) } else { r is None }
            }),
    {
        let n: usize = self.items.len();
        let mut i: usize = 0;
        while i < n
            invariant
                n == self.items@.len(),
                i <= n,
                find_index_from(self.items@, header_footer_type, apply_type, 0)
                    == find_index_from(self.items@, header_footer_type, apply_type, i as int),
            decreases n - i,
        {
            let item = &self.items[i];
            if item.header_footer_type == header_footer_type && item.apply_type == apply_type {
                return Some(item);
            }
            i = i + 1;
        }
        None
    }

    fn of_type(&self, t: HeaderFooterType) -> (r: Vec<&HeaderFooter>)
        ensures
            r@.map_values(|x: &HeaderFooter| *x) == items_of_type(self.items@, t),
    {
        let mut r: Vec<&HeaderFooter> = Vec::new();
        let mut i: usize = 0;
        while i < self.items.len()
            invariant
                i <= self.items@.len(),
                r@.map_values(|x: &HeaderFooter| *x) == items_of_type(self.items@.subrange(0, i as int), t),
            decreases self.items@.len() - i,
        {
            proof {
                assert(self.items@.subrange(0, i + 1).drop_last() =~= self.items@.subrange(0, i as int));
            }
            let item = &self.items[i];
            if item.header_footer_type == t {
                let ghost before = r@;
                r.push(item);
                assert(r@.map_values(|x: &HeaderFooter| *x) =~= before.map_values(|x: &HeaderFooter| *x).push(*item));
            }
            i = i + 1;
        }
        assert(self.items@.subrange(0, self.items@.len() as int) =~= self.items@);
        r
    }

    /// The headers, in order.
    pub fn headers(&self) -> (r: Vec<&HeaderFooter>)
        ensures
            r@.map_values(|x: &HeaderFooter| *x) == items_of_type(self.items@, HeaderFooterType::Header),
    {
        self.of_type(HeaderFooterType::Header)
    }

    /// The footers, in order.
    pub fn footers(&self) -> (r: Vec<&HeaderFooter>)
        ensures
            r@.map_values(|x: &HeaderFooter| *x) == items_of_type(self.items@, HeaderFooterType::Footer),
    {
        self.of_type(HeaderFooterType::Footer)
    }
}

} // verus!
