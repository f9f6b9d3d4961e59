use vstd::prelude::*;
use crate::error::HwpError;
use crate::parser::record::Record;
use crate::utils::bytes::{le16, le32, lemma_u16_at, lemma_u32_at, put_u16, put_u32, u16_from, u16_le, u32_from, u32_le};
use crate::utils::chars::{has_char, has_prefix};
use crate::utils::encoding::{
    lemma_until_nul_keeps, lemma_units_at_encoded, lemma_utf16_units_injective, lemma_utf16_units_len, storable_text,
    counted_text, put_counted_text, units_at, units_until_nul, until_nul, utf16_to_string,
    utf16_to_string_or_empty, utf16_units, utf16le_bytes, valid_utf16,
};
use crate::utils::text::text_of;

verus! {

/// What a hyperlink points to.
#[derive(Debug, Clone, Copy, PartialEq, Eq, Structural)]
pub enum HyperlinkType {
    /// A URL (http, https, ftp and the like).
    Url,
    /// An e-mail address.
    Email,
    /// A file path.
    File,
    /// A bookmark in the document.
    Bookmark,
    /// A bookmark in another document.
    ExternalBookmark,
}

/// How a hyperlink is shown.
#[derive(Debug, Clone, Copy, PartialEq, Eq, Structural)]
pub enum HyperlinkDisplay {
    TextOnly,
    UrlOnly,
    Both,
}

/// A hyperlink over a range of characters of a paragraph.
#[derive(Debug, Clone)]
pub struct Hyperlink {
    pub hyperlink_type: HyperlinkType,
    pub display_text: String,
    pub target_url: String,
    pub tooltip: Option<String>,
    pub display_mode: HyperlinkDisplay,
    /// Text colour (RGB).
    pub text_color: u32,
    /// Colour once visited (RGB).
    pub visited_color: u32,
    pub underline: bool,
    pub visited: bool,
    pub open_in_new_window: bool,
    /// The first character covered.
    pub start_position: u32,
    /// The number of characters covered.
    pub length: u32,
}

/// The stored code of a hyperlink type.
pub open spec fn link_type_code(t: HyperlinkType) -> u8 {
    match t {
        HyperlinkType::Url => 0,
        HyperlinkType::Email => 1,
        HyperlinkType::File => 2,
        HyperlinkType::Bookmark => 3,
        HyperlinkType::ExternalBookmark => 4,
    }
}

/// The stored code of a display mode.
pub open spec fn display_code(m: HyperlinkDisplay) -> u8 {
    match m {
        HyperlinkDisplay::TextOnly => 0,
        HyperlinkDisplay::UrlOnly => 1,
        HyperlinkDisplay::Both => 2,
    }
}

impl HyperlinkType {
    /// The stored code of the type.
    pub fn code(&self) -> (c: u8)
        ensures
            c == link_type_code(*self),
    {
        match self {
            HyperlinkType::Url => 0,
            HyperlinkType::Email => 1,
            HyperlinkType::File => 2,
            HyperlinkType::Bookmark => 3,
            HyperlinkType::ExternalBookmark => 4,
        }
    }
}

impl HyperlinkDisplay {
    /// The stored code of the display mode.
    pub fn code(&self) -> (c: u8)
        ensures
            c == display_code(*self),
    {
        match self {
            HyperlinkDisplay::TextOnly => 0,
            HyperlinkDisplay::UrlOnly => 1,
            HyperlinkDisplay::Both => 2,
        }
    }
}

/// Whether `h` is a hyperlink of type `t` over `text` to `url`, drawn in
/// `color`, underlined or not, opening in a new window or not, with the
/// remaining settings at their defaults: no tooltip, text only, visited colour
/// purple, not visited, from position 0 over as many characters as `text` has.
pub open spec fn link_styled(
    h: Hyperlink,
    t: HyperlinkType,
    text: Seq<char>,
    url: Seq<char>,
    color: u32,
    underline: bool,
    new_window: bool,
) -> bool {
    &&& h.hyperlink_type == t
    &&& h.display_text@ == text
    &&& h.target_url@ == url
    &&& h.tooltip is None
    &&& h.display_mode == HyperlinkDisplay::TextOnly
    &&& h.text_color == color
    &&& h.visited_color == 0x800080
    &&& h.underline == underline
    &&& !h.visited
    &&& h.open_in_new_window == new_window
    &&& h.start_position == 0
    &&& h.length == text.len() as u32
}

/// A hyperlink with every setting at its default: blue and underlined.
pub open spec fn link_with(h: Hyperlink, t: HyperlinkType, text: Seq<char>, url: Seq<char>) -> bool {
    link_styled(h, t, text, url, 0x0000FF, true, false)
}

/// The target of an e-mail link: the address, with `mailto:` put in front
/// where it does not begin with it.
pub open spec fn mailto_url(email: Seq<char>) -> Seq<char> {
    if "mailto:"@.is_prefix_of(email) { email } else { "mailto:"@ + email }
}

/// The type of a link, judged from its target.
pub open spec fn link_type_of(url: Seq<char>) -> HyperlinkType {
    if "mailto:"@.is_prefix_of(url) {
        HyperlinkType::Email
    } else if "http://"@.is_prefix_of(url) || "https://"@.is_prefix_of(url) {
        HyperlinkType::Url
    } else if "#"@.is_prefix_of(url) {
        HyperlinkType::Bookmark
    } else if url.contains('\\') || "./"@.is_prefix_of(url) || "C:"@.is_prefix_of(url) {
        HyperlinkType::File
    } else {
        HyperlinkType::Url
    }
}

/// The flag byte: underline, visited, new window.
pub open spec fn link_flags(h: Hyperlink) -> u8 {
    ((if h.underline { 1int } else { 0 }) + (if h.visited { 2int } else { 0 }) + (if h.open_in_new_window {
        4int
    } else {
        0
    })) as u8
}

/// The bytes of a hyperlink.
pub open spec fn hyperlink_bytes(h: Hyperlink) -> Seq<u8> {
    seq![link_type_code(h.hyperlink_type), display_code(h.display_mode)] + le32(h.text_color) + le32(
        h.visited_color,
    ) + seq![link_flags(h)] + le32(h.start_position) + le32(h.length) + counted_text(h.display_text@)
        + counted_text(h.target_url@) + match h.tooltip {
        Some(t) => counted_text(t@),
        None => le16(0),
    }
}

/// Where a text whose count of units is stored at `p` ends.
pub open spec fn counted_end(d: Seq<u8>, p: int) -> int {
    p + 2 + 2 * u16_le(d, p)
}

/// Whether the count stored at `p`, and the text it counts, lie within `d`.
pub open spec fn counted_fits(d: Seq<u8>, p: int) -> bool {
    p + 2 <= d.len() && counted_end(d, p) <= d.len()
}

/// The units of the text counted at `p`, up to the first zero unit.
pub open spec fn counted_units(d: Seq<u8>, p: int) -> Seq<u16> {
    until_nul(units_at(d, p + 2, u16_le(d, p) as int))
}

/// Whether `s` is the text counted at `p`: its units up to the first zero
/// unit, decoded; empty where they are not valid UTF-16.
pub open spec fn reads_counted(d: Seq<u8>, p: int, s: Seq<char>) -> bool {
    if valid_utf16(counted_units(d, p)) {
        utf16_units(s) == counted_units(d, p)
    } else {
        s == Seq::<char>::empty()
    }
}

/// The type stored as `code`; an unknown code is judged from the target.
pub open spec fn link_type_from(code: u8, url: Seq<char>) -> HyperlinkType {
    if code == 0 {
        HyperlinkType::Url
    } else if code == 1 {
        HyperlinkType::Email
    } else if code == 2 {
        HyperlinkType::File
    } else if code == 3 {
        HyperlinkType::Bookmark
    } else if code == 4 {
        HyperlinkType::ExternalBookmark
    } else {
        link_type_of(url)
    }
}

/// The display mode stored as `code`; an unknown code reads as text only.
pub open spec fn display_from(code: u8) -> HyperlinkDisplay {
    if code == 1 {
        HyperlinkDisplay::UrlOnly
    } else if code == 2 {
        HyperlinkDisplay::Both
    } else {
        HyperlinkDisplay::TextOnly
    }
}

/// Whether the bytes hold a whole hyperlink: the 19 fixed bytes, then the
/// display text and the target, each with its count.
pub open spec fn link_fits(d: Seq<u8>) -> bool {
    d.len() >= 19 && counted_fits(d, 19) && counted_fits(d, counted_end(d, 19))
}

/// Whether `t` is the tooltip read at `p`: present where a non-zero count
/// and its text lie within the bytes and the text is valid UTF-16, absent
/// otherwise.
pub open spec fn reads_tooltip(d: Seq<u8>, p: int, t: Option<Seq<char>>) -> bool {
    if counted_fits(d, p) && u16_le(d, p) > 0 && valid_utf16(counted_units(d, p)) {
        t matches Some(s) && utf16_units(s) == counted_units(d, p)
    } else {
        t is None
    }
}

/// Whether `h` is the hyperlink stored in `d`, laid out as `to_bytes` writes
/// it: type and display codes, text and visited colours, the flag byte
/// (underline, visited, new window), position and length, then the display
/// text, the target and the tooltip.
pub open spec fn link_from(h: Hyperlink, d: Seq<u8>) -> bool {
    let u = counted_end(d, 19);
    let t = counted_end(d, u);
    &&& reads_counted(d, 19, h.display_text@)
    &&& reads_counted(d, u, h.target_url@)
    &&& reads_tooltip(
        d,
        t,
        match h.tooltip {
            Some(x) => Some(x@),
            None => None,
        },
    )
    &&& h.hyperlink_type == link_type_from(d[0], h.target_url@)
    &&& h.display_mode == display_from(d[1])
    &&& h.text_color == u32_le(d, 2)
    &&& h.visited_color == u32_le(d, 6)
    &&& h.underline == (d[10] % 2 == 1)
    &&& h.visited == ((d[10] / 2) % 2 == 1)
    &&& h.open_in_new_window == ((d[10] / 4) % 2 == 1)
    &&& h.start_position == u32_le(d, 11)
    &&& h.length == u32_le(d, 15)
}

impl Default for Hyperlink {
    fn default() -> (h: Self)
        ensures
            link_with(h, HyperlinkType::Url, Seq::empty(), Seq::empty()),
    {
        Hyperlink {
            hyperlink_type: HyperlinkType::Url,
            display_text: String::new(),
            target_url: String::new(),
            tooltip: None,
            display_mode: HyperlinkDisplay::TextOnly,
            text_color: 0x0000FF,
            visited_color: 0x800080,
            underline: true,
            visited: false,
            open_in_new_window: false,
            start_position: 0,
            length: 0,
        }
    }
}

/// A link of type `t` with the given texts and every other setting at its
/// default.
fn plain(t: HyperlinkType, display_text: &str, url: String) -> (h: Hyperlink)
    ensures
        link_with(h, t, display_text@, url@),
{
    let n: usize = display_text.unicode_len();
    Hyperlink {
        hyperlink_type: t,
        display_text: text_of(display_text),
        target_url: url,
        tooltip: None,
        display_mode: HyperlinkDisplay::TextOnly,
        text_color: 0x0000FF,
        visited_color: 0x800080,
        underline: true,
        visited: false,
        open_in_new_window: false,
        start_position: 0,
        length: n as u32,
    }
}

impl Hyperlink {
    /// A link to a URL over `display_text`.
    pub fn new_url(display_text: &str, url: &str) -> (h: Self)
        ensures
            link_with(h, HyperlinkType::Url, display_text@, url@),
    {
        plain(HyperlinkType::Url, display_text, text_of(url))
    }

    /// An e-mail link; `mailto:` is put in front of the address where it is
    /// not already there.
    pub fn new_email(display_text: &str, email: &str) -> (h: Self)
        ensures
            link_with(h, HyperlinkType::Email, display_text@, mailto_url(email@)),
    {
        let url = if has_prefix(email, "mailto:") {
            text_of(email)
        } else {
            let mut u = text_of("mailto:");
            u.append(email);
            u
        };
        plain(HyperlinkType::Email, display_text, url)
    }

    /// A link to a file path.
    pub fn new_file(display_text: &str, file_path: &str) -> (h: Self)
        ensures
            link_with(h, HyperlinkType::File, display_text@, file_path@),
    {
        plain(HyperlinkType::File, display_text, text_of(file_path))
    }

    /// A link to a bookmark of the document: `#` and its name.
    pub fn new_bookmark(display_text: &str, bookmark_name: &str) -> (h: Self)
        ensures
            link_with(h, HyperlinkType::Bookmark, display_text@, "#"@ + bookmark_name@),
    {
        let mut url = text_of("#");
        url.append(bookmark_name);
        plain(HyperlinkType::Bookmark, display_text, url)
    }

    pub fn with_position(self, start_position: u32) -> (h: Self)
        ensures
            h == (Hyperlink { start_position, ..self }),
    {
        Hyperlink { start_position, ..self }
    }

    pub fn with_length(self, length: u32) -> (h: Self)
        ensures
            h == (Hyperlink { length, ..self }),
    {
        Hyperlink { length, ..self }
    }

    pub fn with_tooltip(self, tooltip: &str) -> (h: Self)
        ensures
            h.tooltip matches Some(t) && t@ == tooltip@,
            h == (Hyperlink { tooltip: h.tooltip, ..self }),
    {
        Hyperlink { tooltip: Some(text_of(tooltip)), ..self }
    }

    pub fn with_display_mode(self, mode: HyperlinkDisplay) -> (h: Self)
        ensures
            h == (Hyperlink { display_mode: mode, ..self }),
    {
        Hyperlink { display_mode: mode, ..self }
    }

    pub fn with_text_color(self, color: u32) -> (h: Self)
        ensures
            h == (Hyperlink { text_color: color, ..self }),
    {
        Hyperlink { text_color: color, ..self }
    }

    pub fn with_visited_color(self, color: u32) -> (h: Self)
        ensures
            h == (Hyperlink { visited_color: color, ..self }),
    {
        Hyperlink { visited_color: color, ..self }
    }

    pub fn with_underline(self, underline: bool) -> (h: Self)
        ensures
            h == (Hyperlink { underline, ..self }),
    {
        Hyperlink { underline, ..self }
    }

    pub fn with_new_window(self, new_window: bool) -> (h: Self)
        ensures
            h == (Hyperlink { open_in_new_window: new_window, ..self }),
    {
        Hyperlink { open_in_new_window: new_window, ..self }
    }

    /// The bytes of the hyperlink: type, display mode, colours, flags,
    /// position, length, then the display text, the target and the tooltip
    /// (a zero count where there is none), each preceded by its count of
    /// UTF-16 units.
    pub fn to_bytes(&self) -> (bytes: Vec<u8>)
        ensures
            bytes@ == hyperlink_bytes(*self),
    {
        let mut data: Vec<u8> = Vec::new();
        data.push(self.hyperlink_type.code());
        data.push(self.display_mode.code());
        put_u32(&mut data, self.text_color);
        put_u32(&mut data, self.visited_color);
        let mut flags: u8 = 0;
        if self.underline {
            flags = flags + 1;
        }
        if self.visited {
            flags = flags + 2;
        }
        if self.open_in_new_window {
            flags = flags + 4;
        }
        data.push(flags);
        put_u32(&mut data, self.start_position);
        put_u32(&mut data, self.length);
        put_counted_text(&mut data, self.display_text.as_str());
        put_counted_text(&mut data, self.target_url.as_str());
        match &self.tooltip {
            Some(t) => put_counted_text(&mut data, t.as_str()),
            None => put_u16(&mut data, 0),
        }
        assert(data@ =~= hyperlink_bytes(*self));
        data
    }

    /// Reads a hyperlink laid out as `to_bytes` writes it. A text is read up
    /// to its first zero unit and is empty where it is not valid UTF-16; the
    /// tooltip is read where its count is not zero and its text lies within
    /// the record. Records that end before the target does are refused.
    pub fn from_record(record: &Record) -> (res: Result<Self, HwpError>)
        ensures
            !link_fits(record.data@) ==> res matches Err(HwpError::InvalidFormat(_)),
            link_fits(record.data@) ==> (res matches Ok(h) && link_from(h, record.data@)),
    {
        let data = record.data.as_slice();
        let n: usize = data.len();
        if n < 21 {
            return Err(HwpError::InvalidFormat(text_of("Record too small for hyperlink")));
        }
        let type_code: u8 = data[0];
        let display_code: u8 = data[1];
        let text_color: u32 = u32_from(data[2], data[3], data[4], data[5]);
        let visited_color: u32 = u32_from(data[6], data[7], data[8], data[9]);
        let flags: u8 = data[10];
        let start_position: u32 = u32_from(data[11], data[12], data[13], data[14]);
        let length: u32 = u32_from(data[15], data[16], data[17], data[18]);
        let display_len: usize = u16_from(data[19], data[20]) as usize;
        if display_len * 2 > n - 21 {
            return Err(HwpError::InvalidFormat(text_of("Not enough data for hyperlink text")));
        }
        let units = units_until_nul(data, 21, display_len);
        let display_text = utf16_to_string_or_empty(units.as_slice());
        let mut offset: usize = 21 + display_len * 2;
        if n - offset < 2 {
            return Err(HwpError::InvalidFormat(text_of("Not enough data for URL length")));
        }
        let url_len: usize = u16_from(data[offset], data[offset + 1]) as usize;
        if url_len * 2 > n - offset - 2 {
            return Err(HwpError::InvalidFormat(text_of("Not enough data for URL")));
        }
        let units = units_until_nul(data, offset + 2, url_len);
        let target_url = utf16_to_string_or_empty(units.as_slice());
        offset = offset + 2 + url_len * 2;
        let hyperlink_type = type_from_code(type_code, target_url.as_str());
        let mut tooltip: Option<String> = None;
        if n - offset >= 2 {
            let tooltip_len: usize = u16_from(data[offset], data[offset + 1]) as usize;
            if tooltip_len > 0 && tooltip_len * 2 <= n - offset - 2 {
                let units = units_until_nul(data, offset + 2, tooltip_len);
                tooltip = utf16_to_string(units.as_slice());
            }
        }
        let display_mode = if display_code == 1 {
            HyperlinkDisplay::UrlOnly
        } else if display_code == 2 {
            HyperlinkDisplay::Both
        } else {
            HyperlinkDisplay::TextOnly
        };
        Ok(Hyperlink {
            hyperlink_type,
            display_text,
            target_url,
            tooltip,
            display_mode,
            text_color,
            visited_color,
            underline: flags % 2 == 1,
            visited: (flags / 2) % 2 == 1,
            open_in_new_window: (flags / 4) % 2 == 1,
            start_position,
            length,
        })
    }

    /// A blue, underlined web link.
    pub fn web_link(text: &str, url: &str) -> (h: Self)
        ensures
            link_styled(h, HyperlinkType::Url, text@, url@, 0x0000FF, true, false),
    {
        Self::new_url(text, url).with_text_color(0x0000FF).with_underline(true)
    }

    /// A blue, underlined e-mail link.
    pub fn email_link(text: &str, email: &str) -> (h: Self)
        ensures
            link_styled(h, HyperlinkType::Email, text@, mailto_url(email@), 0x0000FF, true, false),
    {
        Self::new_email(text, email).with_text_color(0x0000FF).with_underline(true)
    }

    /// A green, underlined file link.
    pub fn file_link(text: &str, file_path: &str) -> (h: Self)
        ensures
            link_styled(h, HyperlinkType::File, text@, file_path@, 0x008000, true, false),
    {
        Self::new_file(text, file_path).with_text_color(0x008000).with_underline(true)
    }

    /// A purple, underlined link to a bookmark of the document.
    pub fn internal_link(text: &str, bookmark: &str) -> (h: Self)
        ensures
            link_styled(h, HyperlinkType::Bookmark, text@, "#"@ + bookmark@, 0x800080, true, false),
    {
        Self::new_bookmark(text, bookmark).with_text_color(0x800080).with_underline(true)
    }

    /// A blue web link without underline.
    pub fn plain_link(text: &str, url: &str) -> (h: Self)
        ensures
            link_styled(h, HyperlinkType::Url, text@, url@, 0x0000FF, false, false),
    {
        Self::new_url(text, url).with_text_color(0x0000FF).with_underline(false)
    }

    /// A blue, underlined web link that opens in a new window.
    pub fn external_link(text: &str, url: &str) -> (h: Self)
        ensures
            link_styled(h, HyperlinkType::Url, text@, url@, 0x0000FF, true, true),
    {
        Self::new_url(text, url).with_text_color(0x0000FF).with_underline(true).with_new_window(true)
    }
}

/// The type stored as `code`; an unknown code is judged from the target.
fn type_from_code(code: u8, url: &str) -> (t: HyperlinkType)
    ensures
        t == link_type_from(code, url@),
{
    if code == 0 {
        HyperlinkType::Url
    } else if code == 1 {
        HyperlinkType::Email
    } else if code == 2 {
        HyperlinkType::File
    } else if code == 3 {
        HyperlinkType::Bookmark
    } else if code == 4 {
        HyperlinkType::ExternalBookmark
    } else {
        type_of_target(url)
    }
}

/// The type of a link, judged from its target.
fn type_of_target(url: &str) -> (t: HyperlinkType)
    ensures
        t == link_type_of(url@),
{
    if has_prefix(url, "mailto:") {
        HyperlinkType::Email
    } else if has_prefix(url, "http://") || has_prefix(url, "https://") {
        HyperlinkType::Url
    } else if has_prefix(url, "#") {
        HyperlinkType::Bookmark
    } else if has_char(url, '\\') || has_prefix(url, "./") || has_prefix(url, "C:") {
        HyperlinkType::File
    } else {
        HyperlinkType::Url
    }
}


/// A storable text written with its count at `pre.len()` is read back there.
proof fn lemma_counted_at(pre: Seq<u8>, s: Seq<char>, post: Seq<u8>)
    requires
        storable_text(s),
    ensures
        ({
            let d = pre + counted_text(s) + post;
            let p = pre.len() as int;
            &&& counted_fits(d, p)
            &&& counted_end(d, p) == p + counted_text(s).len()
            &&& u16_le(d, p) == utf16_units(s).len()
            &&& counted_units(d, p) == utf16_units(s)
            &&& valid_utf16(counted_units(d, p))
        }),
{
    let d = pre + counted_text(s) + post;
    let p = pre.len() as int;
    let n = utf16_units(s).len();
    let b = utf16le_bytes(s);
    lemma_units_at_encoded(pre + le16(n as u16), s, post);
    assert(((b.len() % 65536) / 2) as u16 == n as u16);
    assert(d =~= (pre + le16(n as u16)) + b + post);
    assert(d.subrange(p, p + 2) =~= le16(n as u16));
    lemma_u16_at(d, p, n as u16);
    lemma_until_nul_keeps(s);
    assert(utf16_units(s) == counted_units(d, p));
}

/// A hyperlink written by `to_bytes` reads back as the same hyperlink,
/// where its texts are storable and a tooltip, if it has one, is not empty
/// (an empty tooltip is written as no tooltip): the bytes hold a whole
/// hyperlink, and whatever reads them has every field of the one written.
#[verifier::spinoff_prover]
#[verifier::rlimit(100)]
pub proof fn law_hyperlink_roundtrip(h: Hyperlink, r: Hyperlink)
    requires
        storable_text(h.display_text@),
        storable_text(h.target_url@),
        h.tooltip matches Some(t) ==> storable_text(t@) && t@.len() > 0,
    ensures
        link_fits(hyperlink_bytes(h)),
        link_from(r, hyperlink_bytes(h)) ==> {
            &&& r.display_text@ == h.display_text@
            &&& r.target_url@ == h.target_url@
            &&& (match (r.tooltip, h.tooltip) {
                (Some(a), Some(b)) => a@ == b@,
                (None, None) => true,
                _ => false,
            })
            &&& r.hyperlink_type == h.hyperlink_type
            &&& r.display_mode == h.display_mode
            &&& r.text_color == h.text_color
            &&& r.visited_color == h.visited_color
            &&& r.underline == h.underline
            &&& r.visited == h.visited
            &&& r.open_in_new_window == h.open_in_new_window
            &&& r.start_position == h.start_position
            &&& r.length == h.length
        },
{
    let d = hyperlink_bytes(h);
    let fixed = seq![link_type_code(h.hyperlink_type), display_code(h.display_mode)] + le32(h.text_color) + le32(
        h.visited_color,
    ) + seq![link_flags(h)] + le32(h.start_position) + le32(h.length);
    let c1 = counted_text(h.display_text@);
    let c2 = counted_text(h.target_url@);
    let tip = match h.tooltip {
        Some(t) => counted_text(t@),
        None => le16(0),
    };
    assert(d =~= fixed + c1 + (c2 + tip));
    assert(fixed.len() == 19);
    lemma_counted_at(fixed, h.display_text@, c2 + tip);
    let u = counted_end(d, 19);
    assert(u == 19 + c1.len());
    assert(d =~= (fixed + c1) + c2 + tip);
    lemma_counted_at(fixed + c1, h.target_url@, tip);
    let t = counted_end(d, u);
    assert(t == 19 + c1.len() + c2.len());
    assert(d.subrange(2, 6) =~= le32(h.text_color));
    lemma_u32_at(d, 2, h.text_color);
    assert(d.subrange(6, 10) =~= le32(h.visited_color));
    lemma_u32_at(d, 6, h.visited_color);
    assert(d.subrange(11, 15) =~= le32(h.start_position));
    lemma_u32_at(d, 11, h.start_position);
    assert(d.subrange(15, 19) =~= le32(h.length));
    lemma_u32_at(d, 15, h.length);
    assert(d[0] == link_type_code(h.hyperlink_type));
    assert(d[1] == display_code(h.display_mode));
    assert(d[10] == link_flags(h));
    match h.tooltip {
        Some(x) => {
            assert(d =~= (fixed + c1 + c2) + counted_text(x@) + Seq::<u8>::empty());
            lemma_counted_at(fixed + c1 + c2, x@, Seq::<u8>::empty());
            lemma_utf16_units_len(x@);
            if link_from(r, d) {
                let rt = r.tooltip->0;
                lemma_utf16_units_injective(rt@, x@);
            }
        },
        None => {
            assert(d.subrange(t, t + 2) =~= le16(0));
            lemma_u16_at(d, t, 0);
        },
    }
    if link_from(r, d) {
        lemma_utf16_units_injective(r.display_text@, h.display_text@);
        lemma_utf16_units_injective(r.target_url@, h.target_url@);
    }
}

} // verus!
