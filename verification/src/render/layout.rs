use vstd::prelude::*;
use vstd::utf8::*;
use vstd::string::*;
use crate::model::{CharPositionShape, CharShape, LineSegment, ParaCharShape, ParaLineSeg, ParaShape, Paragraph, Section};
use crate::model::para_line_seg::heights_sum;
use crate::parser::doc_info::DocInfo;
use crate::preview::summary_info::string_from_utf8;
use crate::utils::bytes::put_bytes;
use crate::utils::text::push_char;

verus! {

/// A rendered line of text; positions and sizes in HWP units.
#[derive(Debug, Clone)]
pub struct RenderedLine {
    pub y: i32,
    pub height: i32,
    pub baseline_y: i32,
    pub runs: Vec<TextRun>,
}

/// A run of text in one character shape.
#[derive(Debug, Clone)]
pub struct TextRun {
    pub x: i32,
    pub width: i32,
    pub text: String,
    pub char_shape_id: u16,
    pub font_size: i32,
}

/// A rendered paragraph.
#[derive(Debug, Clone)]
pub struct RenderedParagraph {
    pub x: i32,
    pub y: i32,
    pub width: i32,
    pub height: i32,
    pub lines: Vec<RenderedLine>,
    pub para_shape_id: u16,
}

/// A rendered page.
#[derive(Debug, Clone)]
pub struct RenderedPage {
    pub width: u32,
    pub height: u32,
    pub paragraphs: Vec<RenderedParagraph>,
    pub page_number: u32,
}

/// The pages of a layout and their total height.
#[derive(Debug)]
pub struct LayoutResult {
    pub pages: Vec<RenderedPage>,
    pub total_height: i32,
}

/// What a run is: its place, width, text, shape and font size.
pub struct RunModel {
    pub x: i32,
    pub width: i32,
    pub text: Seq<char>,
    pub char_shape_id: u16,
    pub font_size: i32,
}

/// What a line is.
pub struct LineModel {
    pub y: i32,
    pub height: i32,
    pub baseline_y: i32,
    pub runs: Seq<RunModel>,
}

/// What a paragraph is once laid out.
pub struct ParagraphModel {
    pub x: i32,
    pub y: i32,
    pub width: i32,
    pub height: i32,
    pub lines: Seq<LineModel>,
    pub para_shape_id: u16,
}

/// What a page is.
pub struct PageModel {
    pub width: u32,
    pub height: u32,
    pub paragraphs: Seq<ParagraphModel>,
    pub page_number: u32,
}

/// What a layout is.
pub struct LayoutModel {
    pub pages: Seq<PageModel>,
    pub total_height: i32,
}

impl View for TextRun {
    type V = RunModel;

    open spec fn view(&self) -> RunModel {
        RunModel {
            x: self.x,
            width: self.width,
            text: self.text@,
            char_shape_id: self.char_shape_id,
            font_size: self.font_size,
        }
    }
}

/// The models of a list of runs.
pub open spec fn runs_view(v: Seq<TextRun>) -> Seq<RunModel> {
    v.map_values(|r: TextRun| r@)
}

impl View for RenderedLine {
    type V = LineModel;

    open spec fn view(&self) -> LineModel {
        LineModel { y: self.y, height: self.height, baseline_y: self.baseline_y, runs: runs_view(self.runs@) }
    }
}

/// The models of a list of lines.
pub open spec fn lines_view(v: Seq<RenderedLine>) -> Seq<LineModel> {
    v.map_values(|l: RenderedLine| l@)
}

impl View for RenderedParagraph {
    type V = ParagraphModel;

    open spec fn view(&self) -> ParagraphModel {
        ParagraphModel {
            x: self.x,
            y: self.y,
            width: self.width,
            height: self.height,
            lines: lines_view(self.lines@),
            para_shape_id: self.para_shape_id,
        }
    }
}

/// The models of a list of paragraphs.
pub open spec fn paragraphs_view(v: Seq<RenderedParagraph>) -> Seq<ParagraphModel> {
    v.map_values(|p: RenderedParagraph| p@)
}

impl View for RenderedPage {
    type V = PageModel;

    open spec fn view(&self) -> PageModel {
        PageModel {
            width: self.width,
            height: self.height,
            paragraphs: paragraphs_view(self.paragraphs@),
            page_number: self.page_number,
        }
    }
}

/// The models of a list of pages.
pub open spec fn pages_view(v: Seq<RenderedPage>) -> Seq<PageModel> {
    v.map_values(|p: RenderedPage| p@)
}

impl View for LayoutResult {
    type V = LayoutModel;

    open spec fn view(&self) -> LayoutModel {
        LayoutModel { pages: pages_view(self.pages@), total_height: self.total_height }
    }
}

/// Whether a value fits in an `i32`.
pub open spec fn fits_i32(v: int) -> bool {
    i32::MIN <= v <= i32::MAX
}

/// Division of integers rounding toward zero, as Rust divides them.
pub open spec fn div_toward_zero(a: int, d: int) -> int {
    if a >= 0 { a / d } else { -((-a) / d) }
}

/// The base size of a character shape, 1000 where there is no shape of that
/// id.
pub open spec fn font_size_of(shapes: Seq<CharShape>, id: int) -> i32 {
    if 0 <= id < shapes.len() { shapes[id].base_size } else { 1000 }
}

/// The width the engine gives `n` characters of a font size: half the size
/// each, the count taken as an `i32`; `None` where the product overflows.
pub open spec fn text_width_of(n: nat, font: i32) -> Option<i32> {
    let p = (n as i32) * div_toward_zero(font as int, 2);
    if fits_i32(p) { Some(p as i32) } else { None }
}

/// Rust's integer division by a positive divisor, on values that fit in
/// 62 bits.
fn div_i64(a: i64, d: i64) -> (q: i64)
    requires
        d > 0,
        -0x4000_0000_0000_0000 <= a <= 0x4000_0000_0000_0000,
    ensures
        q == div_toward_zero(a as int, d as int),
{
    if a >= 0 { a / d } else { -((-a) / d) }
}

/// The width of a text at a font size.
fn text_width(text: &str, font: i32) -> (r: Option<i32>)
    ensures
        r == text_width_of(text@.len(), font),
{
    let n: usize = text.unicode_len();
    let count: i32 = n as i32;
    let half: i64 = div_i64(font as i64, 2);
    assert(-0x8000_0000 <= half <= 0x8000_0000) by (nonlinear_arith)
        requires half == div_toward_zero(font as int, 2), i32::MIN <= font <= i32::MAX;
    assert(-0x4000_0000_0000_0000 <= (count as int) * (half as int) <= 0x4000_0000_0000_0000) by (nonlinear_arith)
        requires -0x8000_0000 <= count <= 0x7fff_ffff, -0x8000_0000 <= half <= 0x8000_0000;
    let p: i64 = count as i64 * half;
    if p < -0x8000_0000 || p > 0x7fff_ffff {
        None
    } else {
        Some(p as i32)
    }
}

/// The height of a line in a paragraph shape at a font size: a percentage
/// of the size, a fixed value, at least the value, or the size itself;
/// `None` where the percentage overflows.
pub open spec fn line_height_of(ps: ParaShape, font: i32) -> Option<i32> {
    if ps.line_space_type == 0 {
        let p = font * ps.line_space;
        if fits_i32(p) { Some(div_toward_zero(p, 100) as i32) } else { None }
    } else if ps.line_space_type == 1 {
        Some(ps.line_space)
    } else if ps.line_space_type == 2 {
        Some(if font >= ps.line_space { font } else { ps.line_space })
    } else {
        Some(font)
    }
}

fn calculate_line_height(ps: &ParaShape, font: i32) -> (r: Option<i32>)
    ensures
        r == line_height_of(*ps, font),
{
    if ps.line_space_type == 0 {
        assert(-0x4000_0000_0000_0000 <= (font as int) * (ps.line_space as int) <= 0x4000_0000_0000_0000) by (nonlinear_arith)
            requires fits_i32(font as int), fits_i32(ps.line_space as int);
        let p: i64 = font as i64 * ps.line_space as i64;
        if p < -0x8000_0000 || p > 0x7fff_ffff {
            None
        } else {
            let q = div_i64(p, 100);
            assert(fits_i32(q as int)) by (nonlinear_arith)
                requires q == div_toward_zero(p as int, 100), fits_i32(p as int);
            Some(q as i32)
        }
    } else if ps.line_space_type == 1 {
        Some(ps.line_space)
    } else if ps.line_space_type == 2 {
        Some(if font >= ps.line_space { font } else { ps.line_space })
    } else {
        Some(font)
    }
}

/// Where the run of position entry `idx` ends: where the next entry starts,
/// or at the end of the line.
pub open spec fn run_end_of(ps: Seq<CharPositionShape>, idx: int, line_len: int, off: int) -> int {
    if idx + 1 < ps.len() { ps[idx + 1].position as int } else { line_len + off }
}

/// The runs that the position entries from `idx` on cut out of a line whose
/// first byte stands at `off` in its paragraph, starting at `x`; `acc` holds
/// the runs made before. Positions are byte offsets in the paragraph; an
/// entry that starts before the line or past its end makes no run. `None`
/// where the engine would fail: a run end before the line, a cut that is
/// not on a character boundary, a width or position that overflows.
pub open spec fn runs_from(
    line: Seq<char>,
    ps: Seq<CharPositionShape>,
    shapes: Seq<CharShape>,
    off: int,
    idx: int,
    x: i32,
    acc: Seq<RunModel>,
) -> Option<Seq<RunModel>>
    decreases ps.len() - idx,
{
    if idx < 0 || idx >= ps.len() {
        Some(acc)
    } else {
        let bytes = encode_utf8(line);
        let start = ps[idx].position as int;
        let end = run_end_of(ps, idx, bytes.len() as int, off);
        if start >= off && start - off < bytes.len() {
            if end < off {
                None
            } else {
                let rs = start - off;
                let re = if end - off < bytes.len() { end - off } else { bytes.len() as int };
                if rs < re {
                    let sub = bytes.subrange(rs, re);
                    if !valid_utf8(sub) {
                        None
                    } else {
                        let text = decode_utf8(sub);
                        let id = ps[idx].char_shape_id;
                        let font = font_size_of(shapes, id as int);
                        match text_width_of(text.len(), font) {
                            None => None,
                            Some(w) => if !fits_i32(x + w) {
                                None
                            } else {
                                runs_from(line, ps, shapes, off, idx + 1, (x + w) as i32,
                                    acc.push(RunModel { x, width: w, text, char_shape_id: id, font_size: font }))
                            },
                        }
                    }
                } else {
                    runs_from(line, ps, shapes, off, idx + 1, x, acc)
                }
            }
        } else {
            runs_from(line, ps, shapes, off, idx + 1, x, acc)
        }
    }
}

/// The runs of a line: one per position entry that falls in it, or, for a
/// paragraph without character shapes, the whole line in shape 0 at size
/// 1000.
pub open spec fn runs_of(
    line: Seq<char>,
    cs: Option<ParaCharShape>,
    shapes: Seq<CharShape>,
    x: i32,
    off: int,
) -> Option<Seq<RunModel>> {
    match cs {
        Some(c) => runs_from(line, c.char_positions@, shapes, off, 0, x, Seq::empty()),
        None => match text_width_of(line.len(), 1000) {
            Some(w) => Some(seq![RunModel { x, width: w, text: line, char_shape_id: 0, font_size: 1000 }]),
            None => None,
        },
    }
}

/// The model of runs that may be missing.
pub open spec fn opt_runs_view(r: Option<Vec<TextRun>>) -> Option<Seq<RunModel>> {
    match r {
        Some(v) => Some(runs_view(v@)),
        None => None,
    }
}

/// The bytes `[a, b)` of a text as a string, `None` where they are not
/// UTF-8, that is where `a` or `b` is not on a character boundary.
fn text_slice(text: &str, a: usize, b: usize) -> (r: Option<String>)
    requires
        a <= b <= text.spec_bytes().len(),
    ensures
        r is Some <==> valid_utf8(text.spec_bytes().subrange(a as int, b as int)),
        r matches Some(s) ==> s@ == decode_utf8(text.spec_bytes().subrange(a as int, b as int)),
{
    let bytes: &[u8] = text.as_bytes();
    let mut v: Vec<u8> = Vec::new();
    let mut i: usize = a;
    while i < b
        invariant
            a <= i <= b,
            b <= bytes@.len(),
            v@ == bytes@.subrange(a as int, i as int),
        decreases b - i,
    {
        v.push(bytes[i]);
        i = i + 1;
        assert(v@ =~= bytes@.subrange(a as int, i as int));
    }
    string_from_utf8(v)
}

/// The runs of one line of a paragraph.
fn create_text_runs_for_line(
    line: &str,
    cs: &Option<ParaCharShape>,
    shapes: &Vec<CharShape>,
    x: i32,
    off: u32,
) -> (r: Option<Vec<TextRun>>)
    requires
        line.spec_bytes().len() + off <= usize::MAX,
    ensures
        opt_runs_view(r) == runs_of(line@, *cs, shapes@, x, off as int),
{
    match cs {
        None => {
            match text_width(line, 1000) {
                None => None,
                Some(w) => {
                    let mut v: Vec<TextRun> = Vec::new();
                    let run = TextRun { x, width: w, text: line.to_owned(), char_shape_id: 0, font_size: 1000 };
                    v.push(run);
                    assert(runs_view(v@) =~= seq![run@]);
                    Some(v)
                },
            }
        },
        Some(c) => {
            let ps = &c.char_positions;
            let blen: usize = line.len();
            let o: usize = off as usize;
            let mut runs: Vec<TextRun> = Vec::new();
            let mut cur_x: i32 = x;
            let mut idx: usize = 0;
            assert(runs_view(runs@) =~= Seq::<RunModel>::empty());
            while idx < ps.len()
                invariant
                    idx <= ps@.len(),
                    blen == encode_utf8(line@).len(),
                    line.spec_bytes() == encode_utf8(line@),
                    blen + off <= usize::MAX,
                    o == off,
                    runs_of(line@, *cs, shapes@, x, off as int) == runs_from(line@, ps@, shapes@, off as int, 0, x, Seq::empty()),
                    runs_from(line@, ps@, shapes@, off as int, idx as int, cur_x, runs_view(runs@))
                        == runs_from(line@, ps@, shapes@, off as int, 0, x, Seq::empty()),
                decreases ps@.len() - idx,
            {
                let start: usize = ps[idx].position as usize;
                let end: usize = if idx + 1 < ps.len() { ps[idx + 1].position as usize } else { blen + o };
                if start >= o && start - o < blen {
                    if end < o {
                        return None;
                    }
                    let rs: usize = start - o;
                    let re: usize = if end - o < blen { end - o } else { blen };
                    if rs < re {
                        match text_slice(line, rs, re) {
                            None => {
                                return None;
                            },
                            Some(text) => {
                                let id: u16 = ps[idx].char_shape_id;
                                let font: i32 = if (id as usize) < shapes.len() { shapes[id as usize].base_size } else { 1000 };
                                match text_width(text.as_str(), font) {
                                    None => {
                                        return None;
                                    },
                                    Some(w) => {
                                        let nx: i64 = cur_x as i64 + w as i64;
                                        if nx < -0x8000_0000 || nx > 0x7fff_ffff {
                                            return None;
                                        }
                                        let run = TextRun { x: cur_x, width: w, text, char_shape_id: id, font_size: font };
                                        assert(runs_view(runs@.push(run)) =~= runs_view(runs@).push(run@));
                                        runs.push(run);
                                        cur_x = nx as i32;
                                    },
                                }
                            },
                        }
                    }
                }
                idx = idx + 1;
            }
            Some(runs)
        },
    }
}

/// A line without the carriage return that ends it, if one does.
pub open spec fn strip_cr(l: Seq<char>) -> Seq<char> {
    if l.len() > 0 && l.last() == '\r' { l.drop_last() } else { l }
}

/// The lines of a text from position `i` on, `cur` being what was read of the
/// current line and `acc` the lines before it: lines end at `\n`, a `\r`
/// just before it is dropped, and a last line is kept only if it is not
/// empty; as `str::lines` documents them.
pub open spec fn lines_from(t: Seq<char>, i: int, cur: Seq<char>, acc: Seq<Seq<char>>) -> Seq<Seq<char>>
    decreases t.len() - i,
{
    if i < 0 || i >= t.len() {
        if cur.len() > 0 { acc.push(cur) } else { acc }
    } else if t[i] == '\n' {
        lines_from(t, i + 1, Seq::empty(), acc.push(strip_cr(cur)))
    } else {
        lines_from(t, i + 1, cur.push(t[i]), acc)
    }
}

/// The lines of a text.
pub open spec fn text_lines(t: Seq<char>) -> Seq<Seq<char>> {
    lines_from(t, 0, Seq::empty(), Seq::empty())
}

/// The texts of a list of strings.
pub open spec fn strings_view(v: Seq<String>) -> Seq<Seq<char>> {
    v.map_values(|s: String| s@)
}

/// A string of characters.
fn string_of_chars(v: &Vec<char>) -> (s: String)
    ensures
        s@ == v@,
{
    let mut s = String::new();
    let mut i: usize = 0;
    while i < v.len()
        invariant
            i <= v@.len(),
            s@ == v@.subrange(0, i as int),
        decreases v@.len() - i,
    {
        push_char(&mut s, v[i]);
        i = i + 1;
        assert(s@ =~= v@.subrange(0, i as int));
    }
    assert(v@.subrange(0, v@.len() as int) =~= v@);
    s
}

/// The lines of a text.
fn split_lines(text: &str) -> (r: Vec<String>)
    ensures
        strings_view(r@) == text_lines(text@),
{
    let ghost chars = text@;
    let mut out: Vec<String> = Vec::new();
    let mut cur: Vec<char> = Vec::new();
    assert(strings_view(out@) =~= Seq::<Seq<char>>::empty());
    for c in it: text.chars()
        invariant
            it.seq() == chars,
            lines_from(chars, it.index() as int, cur@, strings_view(out@)) == text_lines(chars),
    {
        let ghost k = it.index() as int;
        if c == '\n' {
            let ghost before = cur@;
            if cur.len() > 0 && cur[cur.len() - 1] == '\r' {
                cur.pop();
                assert(cur@ =~= strip_cr(before));
            }
            let line = string_of_chars(&cur);
            assert(strings_view(out@.push(line)) =~= strings_view(out@).push(strip_cr(before)));
            out.push(line);
            cur = Vec::new();
            assert(cur@ =~= Seq::<char>::empty());
        } else {
            cur.push(c);
        }
    }
    if cur.len() > 0 {
        let line = string_of_chars(&cur);
        assert(strings_view(out@.push(line)) =~= strings_view(out@).push(cur@));
        out.push(line);
    }
    out
}

/// The shape id of the first position entry of a paragraph, 0 where there is
/// none.
pub open spec fn default_shape_id(cs: Option<ParaCharShape>) -> u16 {
    match cs {
        Some(c) => if c.char_positions@.len() > 0 { c.char_positions@[0].char_shape_id } else { 0 },
        None => 0,
    }
}

/// The lines that the line breaks of a text give from line `k` on, the next
/// one at `y`, all of height `lh`: an empty line only moves down, another
/// becomes a line of runs with its baseline four fifths down.
pub open spec fn break_lines_from(
    lines: Seq<Seq<char>>,
    k: int,
    cs: Option<ParaCharShape>,
    shapes: Seq<CharShape>,
    x: i32,
    y: i32,
    lh: i32,
    acc: Seq<LineModel>,
) -> Option<Seq<LineModel>>
    decreases lines.len() - k,
{
    if k < 0 || k >= lines.len() {
        Some(acc)
    } else if lines[k].len() == 0 {
        if fits_i32(y + lh) {
            break_lines_from(lines, k + 1, cs, shapes, x, (y + lh) as i32, lh, acc)
        } else {
            None
        }
    } else {
        match runs_of(lines[k], cs, shapes, x, 0) {
            None => None,
            Some(runs) => {
                let b4 = lh * 4;
                let base = y + div_toward_zero(b4, 5);
                if !fits_i32(b4) || !fits_i32(base) || !fits_i32(y + lh) {
                    None
                } else {
                    break_lines_from(lines, k + 1, cs, shapes, x, (y + lh) as i32, lh,
                        acc.push(LineModel { y, height: lh, baseline_y: base as i32, runs }))
                }
            },
        }
    }
}

/// The lines of a paragraph laid out without stored line segments: one per
/// line of its text, starting below the space above the paragraph, with the
/// height that its shape gives the font of its first position entry.
pub open spec fn line_breaks_of(
    t: Seq<char>,
    cs: Option<ParaCharShape>,
    ps: ParaShape,
    shapes: Seq<CharShape>,
    x: i32,
    y: i32,
) -> Option<Seq<LineModel>> {
    if !fits_i32(y + ps.top_para_space) {
        None
    } else {
        match line_height_of(ps, font_size_of(shapes, default_shape_id(cs) as int)) {
            None => None,
            Some(lh) => break_lines_from(text_lines(t), 0, cs, shapes, x, (y + ps.top_para_space) as i32, lh, Seq::empty()),
        }
    }
}

/// The model of lines that may be missing.
pub open spec fn opt_lines_view(r: Option<Vec<RenderedLine>>) -> Option<Seq<LineModel>> {
    match r {
        Some(v) => Some(lines_view(v@)),
        None => None,
    }
}

fn calculate_line_breaks(
    text: &str,
    cs: &Option<ParaCharShape>,
    ps: &ParaShape,
    shapes: &Vec<CharShape>,
    x: i32,
    y: i32,
) -> (r: Option<Vec<RenderedLine>>)
    ensures
        opt_lines_view(r) == line_breaks_of(text@, *cs, *ps, shapes@, x, y),
{
    let y0: i64 = y as i64 + ps.top_para_space as i64;
    if y0 < -0x8000_0000 || y0 > 0x7fff_ffff {
        return None;
    }
    let id: u16 = match cs {
        Some(c) => if c.char_positions.len() > 0 { c.char_positions[0].char_shape_id } else { 0 },
        None => 0,
    };
    let font: i32 = if (id as usize) < shapes.len() { shapes[id as usize].base_size } else { 1000 };
    let lh: i32 = match calculate_line_height(ps, font) {
        None => {
            return None;
        },
        Some(h) => h,
    };
    let lines = split_lines(text);
    let ghost ls = strings_view(lines@);
    let mut out: Vec<RenderedLine> = Vec::new();
    let mut cur_y: i32 = y0 as i32;
    let mut k: usize = 0;
    assert(lines_view(out@) =~= Seq::<LineModel>::empty());
    while k < lines.len()
        invariant
            k <= lines@.len(),
            ls == strings_view(lines@),
            line_breaks_of(text@, *cs, *ps, shapes@, x, y)
                == break_lines_from(ls, 0, *cs, shapes@, x, y0 as i32, lh, Seq::empty()),
            break_lines_from(ls, k as int, *cs, shapes@, x, cur_y, lh, lines_view(out@))
                == break_lines_from(ls, 0, *cs, shapes@, x, y0 as i32, lh, Seq::empty()),
        decreases lines@.len() - k,
    {
        let line: &str = lines[k].as_str();
        assert(line@ == ls[k as int]);
        let ny: i64 = cur_y as i64 + lh as i64;
        if line.unicode_len() == 0 {
            if ny < -0x8000_0000 || ny > 0x7fff_ffff {
                return None;
            }
            cur_y = ny as i32;
        } else {
            let b: &[u8] = line.as_bytes();
            let n: usize = b.len();
            assert(encode_utf8(line@).len() <= usize::MAX);
            let runs = match create_text_runs_for_line(line, cs, shapes, x, 0) {
                None => {
                    return None;
                },
                Some(r) => r,
            };
            let b4: i64 = lh as i64 * 4;
            if b4 < -0x8000_0000 || b4 > 0x7fff_ffff {
                return None;
            }
            let base: i64 = cur_y as i64 + div_i64(b4, 5);
            if base < -0x8000_0000 || base > 0x7fff_ffff || ny < -0x8000_0000 || ny > 0x7fff_ffff {
                return None;
            }
            let rl = RenderedLine { y: cur_y, height: lh, baseline_y: base as i32, runs };
            assert(lines_view(out@.push(rl)) =~= lines_view(out@).push(rl@));
            out.push(rl);
            cur_y = ny as i32;
        }
        k = k + 1;
    }
    Some(out)
}

/// The lines that stored line segments give from segment `idx` on, the next
/// one measured from `y`: each segment ends its line where the next starts,
/// in bytes of the text; the lines stop at a segment that ends past the
/// text. `None` where a segment starts after its end, a cut is not on a
/// character boundary, or a position overflows.
pub open spec fn seg_lines_from(
    t: Seq<char>,
    segs: Seq<LineSegment>,
    idx: int,
    cs: Option<ParaCharShape>,
    shapes: Seq<CharShape>,
    x: i32,
    y: i32,
    acc: Seq<LineModel>,
) -> Option<Seq<LineModel>>
    decreases segs.len() - idx,
{
    if idx < 0 || idx >= segs.len() {
        Some(acc)
    } else {
        let bytes = encode_utf8(t);
        let start = if idx == 0 { 0 } else { segs[idx - 1].text_start_position as int };
        let end = segs[idx].text_start_position as int;
        if end > bytes.len() {
            Some(acc)
        } else if start > end || !valid_utf8(bytes.subrange(start, end)) {
            None
        } else {
            match runs_of(decode_utf8(bytes.subrange(start, end)), cs, shapes, x, start) {
                None => None,
                Some(runs) => {
                    let sg = segs[idx];
                    let ly = y + sg.line_vertical_position;
                    let base = ly + sg.distance_baseline_to_line_vertical_position;
                    let ny = y + sg.line_height;
                    if !fits_i32(ly) || !fits_i32(base) || !fits_i32(ny) {
                        None
                    } else {
                        seg_lines_from(t, segs, idx + 1, cs, shapes, x, ny as i32,
                            acc.push(LineModel { y: ly as i32, height: sg.line_height, baseline_y: base as i32, runs }))
                    }
                },
            }
        }
    }
}

fn render_with_line_segments(
    text: &str,
    cs: &Option<ParaCharShape>,
    shapes: &Vec<CharShape>,
    segs: &Vec<LineSegment>,
    x: i32,
    y: i32,
) -> (r: Option<Vec<RenderedLine>>)
    ensures
        opt_lines_view(r) == seg_lines_from(text@, segs@, 0, *cs, shapes@, x, y, Seq::empty()),
{
    let bytes: &[u8] = text.as_bytes();
    let blen: usize = bytes.len();
    let mut out: Vec<RenderedLine> = Vec::new();
    let mut cur_y: i32 = y;
    let mut idx: usize = 0;
    assert(lines_view(out@) =~= Seq::<LineModel>::empty());
    while idx < segs.len()
        invariant
            idx <= segs@.len(),
            blen == encode_utf8(text@).len(),
            text.spec_bytes() == encode_utf8(text@),
            seg_lines_from(text@, segs@, idx as int, *cs, shapes@, x, cur_y, lines_view(out@))
                == seg_lines_from(text@, segs@, 0, *cs, shapes@, x, y, Seq::empty()),
        decreases segs@.len() - idx,
    {
        let start: usize = if idx == 0 { 0 } else { segs[idx - 1].text_start_position as usize };
        let end: usize = segs[idx].text_start_position as usize;
        if end > blen {
            return Some(out);
        }
        if start > end {
            return None;
        }
        let line: String = match text_slice(text, start, end) {
            None => {
                return None;
            },
            Some(l) => l,
        };
        let ghost sub = encode_utf8(text@).subrange(start as int, end as int);
        proof {
            decode_utf8_encode_utf8(sub);
        }
        let runs = match create_text_runs_for_line(line.as_str(), cs, shapes, x, start as u32) {
            None => {
                return None;
            },
            Some(r) => r,
        };
        let sg: LineSegment = segs[idx];
        let ly: i64 = cur_y as i64 + sg.line_vertical_position as i64;
        let base: i64 = ly + sg.distance_baseline_to_line_vertical_position as i64;
        let ny: i64 = cur_y as i64 + sg.line_height as i64;
        if ly < -0x8000_0000 || ly > 0x7fff_ffff || base < -0x8000_0000 || base > 0x7fff_ffff
            || ny < -0x8000_0000 || ny > 0x7fff_ffff {
            return None;
        }
        let rl = RenderedLine { y: ly as i32, height: sg.line_height, baseline_y: base as i32, runs };
        assert(lines_view(out@.push(rl)) =~= lines_view(out@).push(rl@));
        out.push(rl);
        cur_y = ny as i32;
        idx = idx + 1;
    }
    Some(out)
}

/// The sum of the first `n` line heights.
pub open spec fn lines_height_sum(lines: Seq<LineModel>, n: int) -> int
    decreases n,
{
    if n <= 0 { 0 } else { lines_height_sum(lines, n - 1) + lines[n - 1].height }
}

/// The height of a paragraph of laid out lines: the sum of their heights,
/// `None` where a partial sum overflows.
pub open spec fn lines_total_of(lines: Seq<LineModel>) -> Option<i32> {
    if forall|n: int| 0 <= n <= lines.len() ==> fits_i32(#[trigger] lines_height_sum(lines, n)) {
        Some(lines_height_sum(lines, lines.len() as int) as i32)
    } else {
        None
    }
}

/// The height of a paragraph with stored line segments: the sum of their
/// heights, `None` where a partial sum overflows.
pub open spec fn segs_total_of(segs: Seq<LineSegment>) -> Option<i32> {
    if forall|n: int| 0 <= n <= segs.len() ==> fits_i32(#[trigger] heights_sum(segs, n)) {
        Some(heights_sum(segs, segs.len() as int) as i32)
    } else {
        None
    }
}

fn lines_total(lines: &Vec<RenderedLine>) -> (r: Option<i32>)
    ensures
        r == lines_total_of(lines_view(lines@)),
{
    let ghost ls = lines_view(lines@);
    let mut total: i64 = 0;
    let mut k: usize = 0;
    while k < lines.len()
        invariant
            k <= lines@.len(),
            ls == lines_view(lines@),
            total == lines_height_sum(ls, k as int),
            forall|n: int| 0 <= n <= k ==> fits_i32(#[trigger] lines_height_sum(ls, n)),
        decreases lines@.len() - k,
    {
        total = total + lines[k].height as i64;
        k = k + 1;
        assert(total == lines_height_sum(ls, k as int));
        if total < -0x8000_0000 || total > 0x7fff_ffff {
            return None;
        }
    }
    Some(total as i32)
}

fn segs_total(segs: &Vec<LineSegment>) -> (r: Option<i32>)
    ensures
        r == segs_total_of(segs@),
{
    let mut total: i64 = 0;
    let mut k: usize = 0;
    while k < segs.len()
        invariant
            k <= segs@.len(),
            total == heights_sum(segs@, k as int),
            forall|n: int| 0 <= n <= k ==> fits_i32(#[trigger] heights_sum(segs@, n)),
        decreases segs@.len() - k,
    {
        total = total + segs[k].line_height as i64;
        k = k + 1;
        assert(total == heights_sum(segs@, k as int));
        if total < -0x8000_0000 || total > 0x7fff_ffff {
            return None;
        }
    }
    Some(total as i32)
}

/// A paragraph laid out at `(x, y)` in a column `width` wide: `Some(None)`
/// where it has no text, an empty one, or a paragraph shape id with no
/// shape; else its lines, from its stored line segments where it has them,
/// from the line breaks of its text where not, inside the margins of its
/// shape. `None` where the engine would fail.
pub open spec fn paragraph_layout(
    p: Paragraph,
    para_shapes: Seq<ParaShape>,
    shapes: Seq<CharShape>,
    x: i32,
    y: i32,
    width: i32,
) -> Option<Option<ParagraphModel>> {
    match p.text {
        None => Some(None),
        Some(t) => if t.content@.len() == 0 || p.para_shape_id as int >= para_shapes.len() {
            Some(None)
        } else {
            let ps = para_shapes[p.para_shape_id as int];
            let px = x + ps.left_margin;
            let w1 = width - ps.left_margin;
            let pw = w1 - ps.right_margin;
            if !fits_i32(px) || !fits_i32(w1) || !fits_i32(pw) {
                None
            } else {
                let lines = match p.line_segments {
                    Some(ls) => seg_lines_from(t.content@, ls.line_segments@, 0, p.char_shapes, shapes, px as i32, y, Seq::empty()),
                    None => line_breaks_of(t.content@, p.char_shapes, ps, shapes, px as i32, y),
                };
                let height = match p.line_segments {
                    Some(ls) => segs_total_of(ls.line_segments@),
                    None => match lines {
                        Some(l) => lines_total_of(l),
                        None => None,
                    },
                };
                match (lines, height) {
                    (Some(l), Some(h)) => Some(Some(ParagraphModel {
                        x: px as i32,
                        y,
                        width: pw as i32,
                        height: h,
                        lines: l,
                        para_shape_id: p.para_shape_id,
                    })),
                    _ => None,
                }
            }
        },
    }
}

/// The model of a paragraph that the engine may skip or fail on.
pub open spec fn opt_para_view(r: Option<Option<RenderedParagraph>>) -> Option<Option<ParagraphModel>> {
    match r {
        Some(Some(p)) => Some(Some(p@)),
        Some(None) => Some(None),
        None => None,
    }
}

fn layout_paragraph(
    p: &Paragraph,
    para_shapes: &Vec<ParaShape>,
    shapes: &Vec<CharShape>,
    x: i32,
    y: i32,
    width: i32,
) -> (r: Option<Option<RenderedParagraph>>)
    ensures
        opt_para_view(r) == paragraph_layout(*p, para_shapes@, shapes@, x, y, width),
{
    let text: &str = match &p.text {
        None => {
            return Some(None);
        },
        Some(t) => t.content.as_str(),
    };
    if text.is_empty() || p.para_shape_id as usize >= para_shapes.len() {
        return Some(None);
    }
    let ps: &ParaShape = &para_shapes[p.para_shape_id as usize];
    let px: i64 = x as i64 + ps.left_margin as i64;
    let w1: i64 = width as i64 - ps.left_margin as i64;
    let pw: i64 = w1 - ps.right_margin as i64;
    if px < -0x8000_0000 || px > 0x7fff_ffff || w1 < -0x8000_0000 || w1 > 0x7fff_ffff
        || pw < -0x8000_0000 || pw > 0x7fff_ffff {
        return None;
    }
    match &p.line_segments {
        Some(ls) => {
            let lines = match render_with_line_segments(text, &p.char_shapes, shapes, &ls.line_segments, px as i32, y) {
                None => {
                    return None;
                },
                Some(l) => l,
            };
            let h: i32 = match segs_total(&ls.line_segments) {
                None => {
                    return None;
                },
                Some(h) => h,
            };
            Some(Some(RenderedParagraph { x: px as i32, y, width: pw as i32, height: h, lines, para_shape_id: p.para_shape_id }))
        },
        None => {
            let lines = match calculate_line_breaks(text, &p.char_shapes, ps, shapes, px as i32, y) {
                None => {
                    return None;
                },
                Some(l) => l,
            };
            let h: i32 = match lines_total(&lines) {
                None => {
                    return None;
                },
                Some(h) => h,
            };
            Some(Some(RenderedParagraph { x: px as i32, y, width: pw as i32, height: h, lines, para_shape_id: p.para_shape_id }))
        },
    }
}

/// The pages of a section from paragraph `k` on: `page` is the page being
/// filled, the next paragraph goes at `cur_y`, `done` holds the pages
/// before and `num` is the number of the page being filled. A paragraph that
/// would pass the bottom of the content area starts a new page; the last
/// page is kept if it holds a paragraph. The result is the pages and the
/// number of the next page; `None` where the engine would fail.
pub open spec fn section_pages_from(
    paras: Seq<Paragraph>,
    k: int,
    para_shapes: Seq<ParaShape>,
    shapes: Seq<CharShape>,
    cx: i32,
    cy: i32,
    cw: i32,
    ch: i32,
    cur_y: i32,
    page: PageModel,
    done: Seq<PageModel>,
    num: u32,
) -> Option<(Seq<PageModel>, u32)>
    decreases paras.len() - k,
{
    if k < 0 || k >= paras.len() {
        if page.paragraphs.len() > 0 {
            if num < u32::MAX { Some((done.push(page), (num + 1) as u32)) } else { None }
        } else {
            Some((done, num))
        }
    } else {
        match paragraph_layout(paras[k], para_shapes, shapes, cx, cur_y, cw) {
            None => None,
            Some(None) => section_pages_from(paras, k + 1, para_shapes, shapes, cx, cy, cw, ch, cur_y, page, done, num),
            Some(Some(rp)) => {
                let lhs = cur_y + rp.height;
                let rhs = cy + ch;
                if !fits_i32(lhs) || !fits_i32(rhs) {
                    None
                } else if lhs > rhs {
                    let ny = cy + rp.height;
                    if num == u32::MAX || !fits_i32(ny) {
                        None
                    } else {
                        section_pages_from(paras, k + 1, para_shapes, shapes, cx, cy, cw, ch, ny as i32,
                            PageModel { width: page.width, height: page.height, paragraphs: seq![rp], page_number: (num + 1) as u32 },
                            done.push(page), (num + 1) as u32)
                    }
                } else {
                    section_pages_from(paras, k + 1, para_shapes, shapes, cx, cy, cw, ch, lhs as i32,
                        PageModel { paragraphs: page.paragraphs.push(rp), ..page }, done, num)
                }
            },
        }
    }
}

/// The pages of a section whose first page is numbered `num`, and the
/// number of the page after them: its paragraphs flow down the content
/// area of its page definition. A section without a page definition gives
/// no page. `None` for margins wider or taller than the page, and where the
/// engine would fail.
pub open spec fn section_layout(
    sec: Section,
    para_shapes: Seq<ParaShape>,
    shapes: Seq<CharShape>,
    num: u32,
) -> Option<(Seq<PageModel>, u32)> {
    match sec.page_def {
        None => Some((Seq::empty(), num)),
        Some(pd) => if pd.left_margin + pd.right_margin + pd.gutter_margin > pd.width
            || pd.top_margin + pd.bottom_margin > pd.height {
            None
        } else {
            let cy = pd.top_margin as i32;
            section_pages_from(sec.paragraphs@, 0, para_shapes, shapes,
                pd.left_margin as i32, cy,
                (pd.width - pd.left_margin - pd.right_margin - pd.gutter_margin) as u32 as i32,
                (pd.height - pd.top_margin - pd.bottom_margin) as u32 as i32,
                cy, PageModel { width: pd.width, height: pd.height, paragraphs: Seq::empty(), page_number: num },
                Seq::empty(), num)
        },
    }
}

/// The pages of a section and the number of the page after them, where the
/// engine lays it out.
pub open spec fn opt_section_view(r: Option<(Vec<RenderedPage>, u32)>) -> Option<(Seq<PageModel>, u32)> {
    match r {
        Some((v, n)) => Some((pages_view(v@), n)),
        None => None,
    }
}

fn layout_section(
    sec: &Section,
    para_shapes: &Vec<ParaShape>,
    shapes: &Vec<CharShape>,
    num: u32,
) -> (r: Option<(Vec<RenderedPage>, u32)>)
    ensures
        opt_section_view(r) == section_layout(*sec, para_shapes@, shapes@, num),
{
    let pd = match &sec.page_def {
        None => {
            let v: Vec<RenderedPage> = Vec::new();
            assert(pages_view(v@) =~= Seq::<PageModel>::empty());
            return Some((v, num));
        },
        Some(pd) => pd,
    };
    if pd.left_margin as u64 + pd.right_margin as u64 + pd.gutter_margin as u64 > pd.width as u64
        || pd.top_margin as u64 + pd.bottom_margin as u64 > pd.height as u64 {
        return None;
    }
    let cx: i32 = pd.left_margin as i32;
    let cy: i32 = pd.top_margin as i32;
    let cw: i32 = pd.effective_width() as i32;
    let ch: i32 = pd.effective_height() as i32;
    let ghost first = PageModel { width: pd.width, height: pd.height, paragraphs: Seq::empty(), page_number: num };
    let mut done: Vec<RenderedPage> = Vec::new();
    let mut current = RenderedPage { width: pd.width, height: pd.height, paragraphs: Vec::new(), page_number: num };
    let mut cur_y: i32 = cy;
    let mut n: u32 = num;
    let mut k: usize = 0;
    assert(pages_view(done@) =~= Seq::<PageModel>::empty());
    assert(paragraphs_view(current.paragraphs@) =~= Seq::<ParagraphModel>::empty());
    assert(current@ =~= first);
    while k < sec.paragraphs.len()
        invariant
            k <= sec.paragraphs@.len(),
            section_layout(*sec, para_shapes@, shapes@, num)
                == section_pages_from(sec.paragraphs@, 0, para_shapes@, shapes@, cx, cy, cw, ch, cy, first, Seq::empty(), num),
            section_pages_from(sec.paragraphs@, k as int, para_shapes@, shapes@, cx, cy, cw, ch, cur_y, current@, pages_view(done@), n)
                == section_pages_from(sec.paragraphs@, 0, para_shapes@, shapes@, cx, cy, cw, ch, cy, first, Seq::empty(), num),
        decreases sec.paragraphs@.len() - k,
    {
        match layout_paragraph(&sec.paragraphs[k], para_shapes, shapes, cx, cur_y, cw) {
            None => {
                return None;
            },
            Some(None) => {},
            Some(Some(rp)) => {
                let lhs: i64 = cur_y as i64 + rp.height as i64;
                let rhs: i64 = cy as i64 + ch as i64;
                if lhs < -0x8000_0000 || lhs > 0x7fff_ffff || rhs < -0x8000_0000 || rhs > 0x7fff_ffff {
                    return None;
                }
                if lhs > rhs {
                    let ny: i64 = cy as i64 + rp.height as i64;
                    if n == u32::MAX || ny < -0x8000_0000 || ny > 0x7fff_ffff {
                        return None;
                    }
                    let ghost rpm = rp@;
                    let mut ps: Vec<RenderedParagraph> = Vec::new();
                    ps.push(rp);
                    assert(paragraphs_view(ps@) =~= seq![rpm]);
                    let fresh = RenderedPage { width: current.width, height: current.height, paragraphs: ps, page_number: n + 1 };
                    assert(pages_view(done@.push(current)) =~= pages_view(done@).push(current@));
                    done.push(current);
                    current = fresh;
                    n = n + 1;
                    cur_y = ny as i32;
                } else {
                    let ghost before = current@;
                    assert(paragraphs_view(current.paragraphs@.push(rp)) =~= paragraphs_view(current.paragraphs@).push(rp@));
                    current.paragraphs.push(rp);
                    assert(current@ =~= PageModel { paragraphs: before.paragraphs.push(rp@), ..before });
                    cur_y = lhs as i32;
                }
            },
        }
        k = k + 1;
    }
    if current.paragraphs.len() > 0 {
        if n == u32::MAX {
            return None;
        }
        assert(pages_view(done@.push(current)) =~= pages_view(done@).push(current@));
        done.push(current);
        n = n + 1;
    }
    Some((done, n))
}

/// The pages of the sections from `k` on, the first numbered `num`, after
/// the pages `acc`; `None` where the engine would fail on a section.
pub open spec fn sections_from(
    secs: Seq<Section>,
    k: int,
    para_shapes: Seq<ParaShape>,
    shapes: Seq<CharShape>,
    num: u32,
    acc: Seq<PageModel>,
) -> Option<Seq<PageModel>>
    decreases secs.len() - k,
{
    if k < 0 || k >= secs.len() {
        Some(acc)
    } else {
        match section_layout(secs[k], para_shapes, shapes, num) {
            None => None,
            Some((pp, next)) => sections_from(secs, k + 1, para_shapes, shapes, next, acc + pp),
        }
    }
}

/// The sum of the heights of the first `n` pages, each taken as an `i32`.
pub open spec fn pages_height_sum(pages: Seq<PageModel>, n: int) -> int
    decreases n,
{
    if n <= 0 { 0 } else { pages_height_sum(pages, n - 1) + (pages[n - 1].height as i32) }
}

/// The layout of a document: the pages of its sections in order, numbered
/// from 1 on, and the sum of their heights; a section without a page
/// definition gives no page. `None` where the engine would fail: margins
/// wider or taller than the page, a cut that is not on a character
/// boundary, a position entry
/// whose run would end before its line, a line segment that starts after
/// its end, or a sum, position or page number that overflows.
pub open spec fn layout_of(secs: Seq<Section>, para_shapes: Seq<ParaShape>, shapes: Seq<CharShape>) -> Option<LayoutModel> {
    match sections_from(secs, 0, para_shapes, shapes, 1, Seq::empty()) {
        None => None,
        Some(pages) => if forall|n: int| 0 <= n <= pages.len() ==> fits_i32(#[trigger] pages_height_sum(pages, n)) {
            Some(LayoutModel { pages, total_height: pages_height_sum(pages, pages.len() as int) as i32 })
        } else {
            None
        },
    }
}

/// Lays out the sections of a document on pages, with the paragraph and
/// character shapes of its document information.
pub struct LayoutEngine<'a> {
    doc_info: &'a DocInfo,
    sections: &'a [Section],
}

impl<'a> LayoutEngine<'a> {
    /// The sections that the engine lays out.
    pub closed spec fn sections_view(&self) -> Seq<Section> {
        self.sections@
    }

    /// The paragraph shapes that the engine reads.
    pub closed spec fn para_shapes_view(&self) -> Seq<ParaShape> {
        self.doc_info.para_shapes@
    }

    /// The character shapes that the engine reads.
    pub closed spec fn char_shapes_view(&self) -> Seq<CharShape> {
        self.doc_info.char_shapes@
    }

    /// The layout that the engine computes.
    pub open spec fn layout_spec(&self) -> Option<LayoutModel> {
        layout_of(self.sections_view(), self.para_shapes_view(), self.char_shapes_view())
    }

    pub fn new(doc_info: &'a DocInfo, sections: &'a [Section]) -> (e: Self)
        ensures
            e.sections_view() == sections@,
            e.para_shapes_view() == doc_info.para_shapes@,
            e.char_shapes_view() == doc_info.char_shapes@,
    {
        LayoutEngine { doc_info, sections }
    }

    /// The layout of the whole document, `None` on the inputs on which the
    /// engine fails (see `layout_of`).
    pub fn checked_layout(&self) -> (r: Option<LayoutResult>)
        ensures
            match r {
                Some(l) => self.layout_spec() == Some(l@),
                None => self.layout_spec() is None,
            },
    {
        let secs = self.sections;
        let para_shapes = &self.doc_info.para_shapes;
        let shapes = &self.doc_info.char_shapes;
        let mut pages: Vec<RenderedPage> = Vec::new();
        let mut num: u32 = 1;
        let mut k: usize = 0;
        assert(pages_view(pages@) =~= Seq::<PageModel>::empty());
        while k < secs.len()
            invariant
                k <= secs@.len(),
                secs@ == self.sections_view(),
                para_shapes@ == self.para_shapes_view(),
                shapes@ == self.char_shapes_view(),
                sections_from(secs@, k as int, para_shapes@, shapes@, num, pages_view(pages@))
                    == sections_from(secs@, 0, para_shapes@, shapes@, 1, Seq::empty()),
            decreases secs@.len() - k,
        {
            match layout_section(&secs[k], para_shapes, shapes, num) {
                None => {
                    return None;
                },
                Some((sp, next)) => {
                    let mut sp = sp;
                    assert(pages_view(pages@ + sp@) =~= pages_view(pages@) + pages_view(sp@));
                    pages.append(&mut sp);
                    num = next;
                },
            }
            k = k + 1;
        }
        let ghost pm = pages_view(pages@);
        assert(sections_from(self.sections_view(), 0, self.para_shapes_view(), self.char_shapes_view(), 1, Seq::empty()) == Some(pm));
        let mut total: i64 = 0;
        let mut j: usize = 0;
        while j < pages.len()
            invariant
                j <= pages@.len(),
                pm == pages_view(pages@),
                sections_from(self.sections_view(), 0, self.para_shapes_view(), self.char_shapes_view(), 1, Seq::empty()) == Some(pm),
                total == pages_height_sum(pm, j as int),
                forall|m: int| 0 <= m <= j ==> fits_i32(#[trigger] pages_height_sum(pm, m)),
            decreases pages@.len() - j,
        {
            total = total + pages[j].height as i32 as i64;
            j = j + 1;
            assert(total == pages_height_sum(pm, j as int));
            if total < -0x8000_0000 || total > 0x7fff_ffff {
                return None;
            }
        }
        let r = LayoutResult { pages, total_height: total as i32 };
        assert(r@ =~= LayoutModel { pages: pm, total_height: total as i32 });
        Some(r)
    }

    /// Lays out the whole document: its sections one after another, their
    /// paragraphs flowing down the content area of each section's page and
    /// onto a new page where they would pass its bottom; a section without
    /// a page definition gives no page. `requires` leaves out the inputs on
    /// which the engine fails, those on which `layout_of` is `None`.
    pub fn calculate_layout(&self) -> (r: LayoutResult)
        requires
            self.layout_spec() is Some,
        ensures
            Some(r@) == self.layout_spec(),
    {
        match self.checked_layout() {
            Some(l) => l,
            None => {
                proof {
                    assert(false);
                }
                LayoutResult { pages: Vec::new(), total_height: 0 }
            },
        }
    }
}

/// Whether pages are numbered on from `first`, one after another.
pub open spec fn numbered_from(pages: Seq<PageModel>, first: int) -> bool {
    forall|j: int| 0 <= j < pages.len() ==> #[trigger] pages[j].page_number == first + j
}

proof fn lemma_section_pages_numbered(
    paras: Seq<Paragraph>,
    k: int,
    para_shapes: Seq<ParaShape>,
    shapes: Seq<CharShape>,
    cx: i32,
    cy: i32,
    cw: i32,
    ch: i32,
    cur_y: i32,
    page: PageModel,
    done: Seq<PageModel>,
    num: u32,
    first: int,
)
    requires
        numbered_from(done, first),
        page.page_number == num,
        num == first + done.len(),
        section_pages_from(paras, k, para_shapes, shapes, cx, cy, cw, ch, cur_y, page, done, num) is Some,
    ensures
        ({
            let (pages, next) = section_pages_from(paras, k, para_shapes, shapes, cx, cy, cw, ch, cur_y, page, done, num)->0;
            numbered_from(pages, first) && next == first + pages.len()
        }),
    decreases paras.len() - k,
{
    if k < 0 || k >= paras.len() {
    } else {
        match paragraph_layout(paras[k], para_shapes, shapes, cx, cur_y, cw) {
            None => {},
            Some(None) => {
                lemma_section_pages_numbered(paras, k + 1, para_shapes, shapes, cx, cy, cw, ch, cur_y, page, done, num, first);
            },
            Some(Some(rp)) => {
                let lhs = cur_y + rp.height;
                let rhs = cy + ch;
                if lhs > rhs {
                    let ny = cy + rp.height;
                    let np = PageModel { width: page.width, height: page.height, paragraphs: seq![rp], page_number: (num + 1) as u32 };
                    assert(numbered_from(done.push(page), first));
                    lemma_section_pages_numbered(paras, k + 1, para_shapes, shapes, cx, cy, cw, ch, ny as i32,
                        np, done.push(page), (num + 1) as u32, first);
                } else {
                    lemma_section_pages_numbered(paras, k + 1, para_shapes, shapes, cx, cy, cw, ch, lhs as i32,
                        PageModel { paragraphs: page.paragraphs.push(rp), ..page }, done, num, first);
                }
            },
        }
    }
}

proof fn lemma_sections_numbered(
    secs: Seq<Section>,
    k: int,
    para_shapes: Seq<ParaShape>,
    shapes: Seq<CharShape>,
    num: u32,
    acc: Seq<PageModel>,
)
    requires
        numbered_from(acc, 1),
        num == acc.len() + 1,
        sections_from(secs, k, para_shapes, shapes, num, acc) is Some,
    ensures
        numbered_from(sections_from(secs, k, para_shapes, shapes, num, acc)->0, 1),
    decreases secs.len() - k,
{
    if k < 0 || k >= secs.len() {
    } else {
        let sec = secs[k];
        match section_layout(sec, para_shapes, shapes, num) {
            None => {},
            Some((pp, next)) => {
                match sec.page_def {
                    None => {
                        assert(acc + pp =~= acc);
                    },
                    Some(pd) => {
                        let cy = pd.top_margin as i32;
                        lemma_section_pages_numbered(sec.paragraphs@, 0, para_shapes, shapes,
                            pd.left_margin as i32, cy,
                            (pd.width - pd.left_margin - pd.right_margin - pd.gutter_margin) as u32 as i32,
                            (pd.height - pd.top_margin - pd.bottom_margin) as u32 as i32,
                            cy, PageModel { width: pd.width, height: pd.height, paragraphs: Seq::empty(), page_number: num },
                            Seq::empty(), num, num as int);
                    },
                }
                assert(numbered_from(acc + pp, 1)) by {
                    assert forall|j: int| 0 <= j < (acc + pp).len() implies #[trigger] (acc + pp)[j].page_number == 1 + j by {
                        if j >= acc.len() {
                            assert((acc + pp)[j] == pp[j - acc.len()]);
                        }
                    }
                }
                lemma_sections_numbered(secs, k + 1, para_shapes, shapes, next, acc + pp);
            },
        }
    }
}

/// The pages of a layout are numbered 1, 2, 3, … in the order they come,
/// across sections.
pub proof fn law_pages_numbered_in_order(secs: Seq<Section>, para_shapes: Seq<ParaShape>, shapes: Seq<CharShape>)
    requires
        layout_of(secs, para_shapes, shapes) is Some,
    ensures
        numbered_from(layout_of(secs, para_shapes, shapes)->0.pages, 1),
{
    lemma_sections_numbered(secs, 0, para_shapes, shapes, 1, Seq::empty());
}

/// The number of non-empty lines among the first `k`.
pub open spec fn nonempty_before(ls: Seq<Seq<char>>, k: int) -> int
    decreases k,
{
    if k <= 0 { 0 } else { nonempty_before(ls, k - 1) + if ls[k - 1].len() > 0 { 1int } else { 0int } }
}

/// Whether a rendered line stands at `top` with height `lh` and its baseline
/// four fifths of a line below.
pub open spec fn line_at(l: LineModel, top: int, lh: i32) -> bool {
    &&& l.y == top
    &&& l.height == lh
    &&& l.baseline_y == top + div_toward_zero(lh * 4, 5)
}

proof fn lemma_nonempty_before_nonneg(ls: Seq<Seq<char>>, k: int)
    ensures
        0 <= nonempty_before(ls, k),
    decreases k,
{
    if k > 0 {
        lemma_nonempty_before_nonneg(ls, k - 1);
    }
}

proof fn lemma_nonempty_before_grows(ls: Seq<Seq<char>>, j: int, k: int)
    requires
        0 <= j < k,
    ensures
        nonempty_before(ls, j) + (if ls[j].len() > 0 { 1int } else { 0int }) <= nonempty_before(ls, k),
    decreases k,
{
    if j < k - 1 {
        lemma_nonempty_before_grows(ls, j, k - 1);
    }
}

proof fn lemma_break_lines_positions(
    ls: Seq<Seq<char>>,
    k: int,
    cs: Option<ParaCharShape>,
    shapes: Seq<CharShape>,
    x: i32,
    yk: i32,
    lh: i32,
    acc: Seq<LineModel>,
    y0: int,
)
    requires
        0 <= k <= ls.len(),
        yk == y0 + k * lh,
        acc.len() == nonempty_before(ls, k),
        forall|j: int| 0 <= j < k && ls[j].len() > 0 ==> line_at(#[trigger] acc[nonempty_before(ls, j)], y0 + j * lh, lh),
        break_lines_from(ls, k, cs, shapes, x, yk, lh, acc) is Some,
    ensures
        ({
            let r = break_lines_from(ls, k, cs, shapes, x, yk, lh, acc)->0;
            &&& r.len() == nonempty_before(ls, ls.len() as int)
            &&& forall|j: int| 0 <= j < ls.len() && ls[j].len() > 0 ==> line_at(#[trigger] r[nonempty_before(ls, j)], y0 + j * lh, lh)
        }),
    decreases ls.len() - k,
{
    if k >= ls.len() {
    } else {
        assert(y0 + (k + 1) * lh == y0 + k * lh + lh) by (nonlinear_arith);
        if ls[k].len() == 0 {
            lemma_break_lines_positions(ls, k + 1, cs, shapes, x, (yk + lh) as i32, lh, acc, y0);
        } else {
            let runs = runs_of(ls[k], cs, shapes, x, 0)->0;
            let base = yk + div_toward_zero(lh * 4, 5);
            let l = LineModel { y: yk, height: lh, baseline_y: base as i32, runs };
            let acc2 = acc.push(l);
            assert(runs_of(ls[k], cs, shapes, x, 0) is Some);
            assert(fits_i32(lh * 4) && fits_i32(base) && fits_i32(yk + lh));
            assert(acc2[acc.len() as int] == l);
            assert forall|j: int| 0 <= j < k + 1 && ls[j].len() > 0 implies line_at(#[trigger] acc2[nonempty_before(ls, j)], y0 + j * lh, lh) by {
                if j < k {
                    lemma_nonempty_before_grows(ls, j, k);
                    lemma_nonempty_before_nonneg(ls, j);
                    assert(acc2[nonempty_before(ls, j)] == acc[nonempty_before(ls, j)]);
                }
            }
            lemma_break_lines_positions(ls, k + 1, cs, shapes, x, (yk + lh) as i32, lh, acc2, y0);
        }
    }
}

/// In a paragraph laid out without line segments every line of its text,
/// empty or not, moves the position down by one line height: the rendered
/// line made from text line `k` stands at `y` plus the space above the
/// paragraph plus `k` line heights, has the line height, and its baseline
/// lies four fifths of a line below its top; an empty text line gives no
/// rendered line, so there is one rendered line per non-empty text line,
/// in order.
pub proof fn law_line_breaks_advance_per_line(
    t: Seq<char>,
    cs: Option<ParaCharShape>,
    ps: ParaShape,
    shapes: Seq<CharShape>,
    x: i32,
    y: i32,
)
    requires
        line_breaks_of(t, cs, ps, shapes, x, y) is Some,
    ensures
        ({
            let lines = line_breaks_of(t, cs, ps, shapes, x, y)->0;
            let ls = text_lines(t);
            let lh = line_height_of(ps, font_size_of(shapes, default_shape_id(cs) as int))->0;
            &&& lines.len() == nonempty_before(ls, ls.len() as int)
            &&& forall|k: int| 0 <= k < ls.len() && ls[k].len() > 0 ==> line_at(
                #[trigger] lines[nonempty_before(ls, k)],
                y + ps.top_para_space + k * lh,
                lh,
            )
        }),
{
    let ls = text_lines(t);
    let lh = line_height_of(ps, font_size_of(shapes, default_shape_id(cs) as int))->0;
    let y0 = y + ps.top_para_space;
    assert(y0 + 0 * lh == y0) by (nonlinear_arith);
    lemma_break_lines_positions(ls, 0, cs, shapes, x, y0 as i32, lh, Seq::empty(), y0);
}

/// Whether runs stand side by side from `x`: the first at `x`, each next
/// one where the one before ends, each as wide as its characters at half
/// its font size each; `end` is where the last one ends.
pub open spec fn runs_side_by_side(r: Seq<RunModel>, x: int, end: int) -> bool {
    &&& forall|i: int| 0 <= i < r.len() ==> (#[trigger] r[i]).width == (r[i].text.len() as i32) * div_toward_zero(r[i].font_size as int, 2)
    &&& r.len() > 0 ==> r[0].x == x
    &&& forall|i: int| 0 <= i < r.len() - 1 ==> (#[trigger] r[i + 1]).x == r[i].x + r[i].width
    &&& end == (if r.len() == 0 { x } else { r.last().x + r.last().width })
}

proof fn lemma_runs_from_side_by_side(
    line: Seq<char>,
    ps: Seq<CharPositionShape>,
    shapes: Seq<CharShape>,
    off: int,
    idx: int,
    cx: i32,
    acc: Seq<RunModel>,
    x: int,
)
    requires
        0 <= idx,
        runs_side_by_side(acc, x, cx as int),
        forall|i: int| 0 <= i < acc.len() ==> (#[trigger] acc[i]).font_size == font_size_of(shapes, acc[i].char_shape_id as int),
        runs_from(line, ps, shapes, off, idx, cx, acc) is Some,
    ensures
        ({
            let r = runs_from(line, ps, shapes, off, idx, cx, acc)->0;
            &&& runs_side_by_side(r, x, if r.len() == 0 { x } else { r.last().x + r.last().width })
            &&& forall|i: int| 0 <= i < r.len() ==> (#[trigger] r[i]).font_size == font_size_of(shapes, r[i].char_shape_id as int)
        }),
    decreases ps.len() - idx,
{
    if idx >= ps.len() {
    } else {
        let bytes = encode_utf8(line);
        let start = ps[idx].position as int;
        let end = run_end_of(ps, idx, bytes.len() as int, off);
        if start >= off && start - off < bytes.len() && end >= off {
            let rs = start - off;
            let re = if end - off < bytes.len() { end - off } else { bytes.len() as int };
            if rs < re {
                let text = decode_utf8(bytes.subrange(rs, re));
                let id = ps[idx].char_shape_id;
                let font = font_size_of(shapes, id as int);
                let w = text_width_of(text.len(), font)->0;
                let run = RunModel { x: cx, width: w, text, char_shape_id: id, font_size: font };
                let acc2 = acc.push(run);
                assert(acc2[acc.len() as int] == run);
                assert forall|i: int| 0 <= i < acc2.len() - 1 implies (#[trigger] acc2[i + 1]).x == acc2[i].x + acc2[i].width by {
                    if i + 1 < acc.len() {
                        assert(acc2[i + 1] == acc[i + 1] && acc2[i] == acc[i]);
                    } else {
                        assert(acc2[i] == acc.last());
                    }
                }
                assert(runs_side_by_side(acc2, x, cx + w));
                lemma_runs_from_side_by_side(line, ps, shapes, off, idx + 1, (cx + w) as i32, acc2, x);
            } else {
                lemma_runs_from_side_by_side(line, ps, shapes, off, idx + 1, cx, acc, x);
            }
        } else if start >= off && start - off < bytes.len() {
        } else {
            lemma_runs_from_side_by_side(line, ps, shapes, off, idx + 1, cx, acc, x);
        }
    }
}

/// The runs of a line stand side by side from the line's start: the first
/// at `x`, each next one where the one before ends, each as wide as its
/// characters at half its font size each. With character shapes each run's
/// font size is the base size of its shape (1000 where there is no shape of
/// its id); without, the one run is the whole line in shape 0 at size 1000.
pub proof fn law_runs_side_by_side(line: Seq<char>, cs: Option<ParaCharShape>, shapes: Seq<CharShape>, x: i32, off: int)
    requires
        runs_of(line, cs, shapes, x, off) is Some,
    ensures
        ({
            let r = runs_of(line, cs, shapes, x, off)->0;
            &&& runs_side_by_side(r, x as int, if r.len() == 0 { x as int } else { r.last().x + r.last().width })
            &&& cs is Some ==> forall|i: int| 0 <= i < r.len() ==> (#[trigger] r[i]).font_size == font_size_of(shapes, r[i].char_shape_id as int)
            &&& cs is None ==> r.len() == 1 && r[0].text == line && r[0].char_shape_id == 0 && r[0].font_size == 1000
        }),
{
    match cs {
        Some(c) => {
            lemma_runs_from_side_by_side(line, c.char_positions@, shapes, off, 0, x, Seq::empty(), x as int);
        },
        None => {},
    }
}

/// Whether line `k` stands where stored segment `k` puts it below `y`: after
/// the heights of the segments before it, moved down by the segment's
/// vertical position, with the segment's height and its baseline the
/// segment's baseline distance below its top.
pub open spec fn line_from_segment(l: LineModel, segs: Seq<LineSegment>, k: int, y: int) -> bool {
    &&& l.y == y + heights_sum(segs, k) + segs[k].line_vertical_position
    &&& l.height == segs[k].line_height
    &&& l.baseline_y == l.y + segs[k].distance_baseline_to_line_vertical_position
}

proof fn lemma_seg_lines_positions(
    t: Seq<char>,
    segs: Seq<LineSegment>,
    idx: int,
    cs: Option<ParaCharShape>,
    shapes: Seq<CharShape>,
    x: i32,
    cy: i32,
    acc: Seq<LineModel>,
    y: int,
)
    requires
        0 <= idx <= segs.len(),
        acc.len() == idx,
        cy == y + heights_sum(segs, idx),
        forall|k: int| 0 <= k < idx ==> line_from_segment(#[trigger] acc[k], segs, k, y),
        seg_lines_from(t, segs, idx, cs, shapes, x, cy, acc) is Some,
    ensures
        ({
            let r = seg_lines_from(t, segs, idx, cs, shapes, x, cy, acc)->0;
            &&& r.len() <= segs.len()
            &&& forall|k: int| 0 <= k < r.len() ==> line_from_segment(#[trigger] r[k], segs, k, y)
        }),
    decreases segs.len() - idx,
{
    if idx >= segs.len() {
    } else {
        let bytes = encode_utf8(t);
        let start = if idx == 0 { 0 } else { segs[idx - 1].text_start_position as int };
        let end = segs[idx].text_start_position as int;
        if end > bytes.len() {
        } else {
            let runs = runs_of(decode_utf8(bytes.subrange(start, end)), cs, shapes, x, start)->0;
            let sg = segs[idx];
            let ly = cy + sg.line_vertical_position;
            let base = ly + sg.distance_baseline_to_line_vertical_position;
            let ny = cy + sg.line_height;
            let l = LineModel { y: ly as i32, height: sg.line_height, baseline_y: base as i32, runs };
            let acc2 = acc.push(l);
            assert(acc2[idx] == l);
            assert forall|k: int| 0 <= k < idx + 1 implies line_from_segment(#[trigger] acc2[k], segs, k, y) by {
                if k < idx {
                    assert(acc2[k] == acc[k]);
                }
            }
            lemma_seg_lines_positions(t, segs, idx + 1, cs, shapes, x, ny as i32, acc2, y);
        }
    }
}

/// A paragraph laid out from its stored line segments has at most one line
/// per segment, and line `k` stands where segment `k` puts it: below the
/// paragraph's top by the heights of the segments before it plus its own
/// vertical position, as high as the segment, with the segment's baseline.
pub proof fn law_segment_lines(
    t: Seq<char>,
    segs: Seq<LineSegment>,
    cs: Option<ParaCharShape>,
    shapes: Seq<CharShape>,
    x: i32,
    y: i32,
)
    requires
        seg_lines_from(t, segs, 0, cs, shapes, x, y, Seq::empty()) is Some,
    ensures
        ({
            let lines = seg_lines_from(t, segs, 0, cs, shapes, x, y, Seq::empty())->0;
            &&& lines.len() <= segs.len()
            &&& forall|k: int| 0 <= k < lines.len() ==> line_from_segment(#[trigger] lines[k], segs, k, y as int)
        }),
{
    lemma_seg_lines_positions(t, segs, 0, cs, shapes, x, y, Seq::empty(), y as int);
}

/// The line height a paragraph shape gives a font size: with spacing type 0
/// the spacing is a percentage of the size (rounded toward zero), with type
/// 1 a fixed height, with type 2 a minimum the size is raised to, with any
/// other type the size itself.
pub proof fn law_line_height(ps: ParaShape, font: i32)
    requires
        line_height_of(ps, font) is Some,
    ensures
        ({
            let lh = line_height_of(ps, font)->0;
            &&& ps.line_space_type == 0 && font * ps.line_space >= 0 ==> lh * 100 <= font * ps.line_space < lh * 100 + 100
            &&& ps.line_space_type == 1 ==> lh == ps.line_space
            &&& ps.line_space_type == 2 ==> lh >= font && lh >= ps.line_space && (lh == font || lh == ps.line_space)
            &&& ps.line_space_type > 2 ==> lh == font
        }),
{
    if ps.line_space_type == 0 {
        let p = font * ps.line_space;
        if p >= 0 {
            let q = p / 100;
            assert(q * 100 <= p < q * 100 + 100) by (nonlinear_arith)
                requires q == p / 100, p >= 0;
        }
    }
}

} // verus!
