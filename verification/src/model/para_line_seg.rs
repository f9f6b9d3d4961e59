use vstd::prelude::*;
use crate::error::HwpError;
use crate::parser::record::Record;
use crate::utils::bytes::{from_i32, i32_le, le32, lemma_i32_roundtrip, lemma_u32_at, put_u32, u32_le, u32_of};
use crate::utils::chars::{whitespace, is_whitespace, chars_of};

verus! {

/// The line layout of a paragraph.
#[derive(Debug, Clone)]
pub struct ParaLineSeg {
    pub line_segments: Vec<LineSegment>,
}

/// One laid-out line.
#[derive(Debug, Clone, Copy, PartialEq, Eq, Structural)]
pub struct LineSegment {
    pub text_start_position: u32,
    pub line_vertical_position: i32,
    pub line_height: i32,
    pub text_part_height: i32,
    pub distance_baseline_to_line_vertical_position: i32,
    pub line_space: i32,
    pub segment_width: i32,
    pub properties: u32,
}

/// Integer division that rounds toward zero, as Rust's `/` on integers.
pub open spec fn div_trunc(a: int, b: int) -> int {
    if a >= 0 { a / b } else { -((-a) / b) }
}

/// The line segment stored at `p`.
pub open spec fn segment_at(d: Seq<u8>, p: int) -> LineSegment {
    LineSegment {
        text_start_position: u32_le(d, p),
        line_vertical_position: i32_le(d, p + 4),
        line_height: i32_le(d, p + 8),
        text_part_height: i32_le(d, p + 12),
        distance_baseline_to_line_vertical_position: i32_le(d, p + 16),
        line_space: i32_le(d, p + 20),
        segment_width: i32_le(d, p + 24),
        properties: u32_le(d, p + 28),
    }
}

/// The segment `LineSegment::new` makes: text height five sixths of the line
/// height and baseline distance one sixth, both rounded toward zero.
pub open spec fn new_segment(start: u32, y: i32, height: i32, width: i32) -> LineSegment {
    LineSegment {
        text_start_position: start,
        line_vertical_position: y,
        line_height: height,
        text_part_height: (height - div_trunc(height as int, 6)) as i32,
        distance_baseline_to_line_vertical_position: div_trunc(height as int, 6) as i32,
        line_space: 0,
        segment_width: width,
        properties: 0,
    }
}

/// The sum of the line heights of the first `n` segments.
pub open spec fn heights_sum(s: Seq<LineSegment>, n: int) -> int
    decreases n,
{
    if n <= 0 { 0 } else { heights_sum(s, n - 1) + s[n - 1].line_height }
}

/// The index of the first segment from `i` on that holds the text position:
/// it starts at or before it and the next one (if any) starts after it.
pub open spec fn line_index_from(s: Seq<LineSegment>, x: int, i: int) -> int
    decreases s.len() - i,
{
    if i < 0 || i >= s.len() {
        s.len() as int
    } else {
        let next = if i + 1 < s.len() { s[i + 1].text_start_position as int } else { u32::MAX as int };
        if x >= s[i].text_start_position && x < next { i } else { line_index_from(s, x, i + 1) }
    }
}

/// The widest segment width, 0 where there are none.
pub open spec fn max_width_of(s: Seq<LineSegment>) -> int
    decreases s.len(),
{
    if s.len() == 0 {
        0
    } else if s.len() == 1 {
        s[0].segment_width as int
    } else {
        let m = max_width_of(s.drop_last());
        if s.last().segment_width >= m { s.last().segment_width as int } else { m }
    }
}

/// The bytes of the segments, 32 for each.
pub open spec fn segments_bytes(s: Seq<LineSegment>) -> Seq<u8>
    decreases s.len(),
{
    if s.len() == 0 {
        seq![]
    } else {
        let g = s.last();
        segments_bytes(s.drop_last()) + le32(g.text_start_position) + le32(u32_of(g.line_vertical_position))
            + le32(u32_of(g.line_height)) + le32(u32_of(g.text_part_height))
            + le32(u32_of(g.distance_baseline_to_line_vertical_position)) + le32(u32_of(g.line_space))
            + le32(u32_of(g.segment_width)) + le32(g.properties)
    }
}

/// The last index in `[lo, hi)` holding whitespace, scanning down from `hi`.
pub open spec fn last_space(chars: Seq<char>, lo: int, hi: int) -> Option<int>
    decreases hi - lo,
{
    if hi <= lo {
        None
    } else if whitespace(chars[hi - 1]) {
        Some(hi - 1)
    } else {
        last_space(chars, lo, hi - 1)
    }
}

/// Where the line that starts at `i` ends: after at most `per_line`
/// characters, moved back to just after the last whitespace of the line
/// where the text goes on.
pub open spec fn line_end(chars: Seq<char>, i: int, per_line: int) -> int {
    let e = if i + per_line <= chars.len() { i + per_line } else { chars.len() as int };
    if e < chars.len() {
        match last_space(chars, i, e) {
            Some(j) => j + 1,
            None => e,
        }
    } else {
        e
    }
}

/// The lines of a text from character `i` on, as (start, length) pairs.
pub open spec fn text_lines(chars: Seq<char>, i: int, per_line: int) -> Seq<(int, int)>
    recommends
        per_line >= 1,
    decreases chars.len() - i,
    when per_line >= 1 && i >= 0
{
    if i >= chars.len() {
        seq![]
    } else {
        let e = line_end(chars, i, per_line);
        proof {
            lemma_line_end(chars, i, per_line);
        }
        seq![(i, e - i)] + text_lines(chars, e, per_line)
    }
}

/// The characters per line of a wrapped text.
pub open spec fn chars_per_line(max_width: i32, average_char_width: i32) -> int {
    div_trunc(max_width as int, if average_char_width >= 1 { average_char_width as int } else { 1 })
}

/// The segments of a wrapped text: one per line, stacked by the line height,
/// each as wide as its characters (capped at the maximum width).
pub open spec fn wrapped_segments(chars: Seq<char>, line_height: i32, max_width: i32, average_char_width: i32) -> Seq<LineSegment> {
    let per_line = chars_per_line(max_width, average_char_width);
    if per_line == 0 {
        seq![new_segment(0, 0, line_height, max_width)]
    } else if chars.len() == 0 {
        seq![]
    } else {
        let lines = text_lines(chars, 0, per_line);
        Seq::new(lines.len(), |k: int| new_segment(
            lines[k].0 as u32,
            (k * line_height) as i32,
            line_height,
            (if lines[k].1 * average_char_width <= max_width { lines[k].1 * average_char_width } else { max_width as int }) as i32,
        ))
    }
}

pub proof fn lemma_last_space(chars: Seq<char>, lo: int, hi: int)
    ensures
        last_space(chars, lo, hi) matches Some(j) ==> lo <= j < hi,
    decreases hi - lo,
{
    if hi > lo && !whitespace(chars[hi - 1]) {
        lemma_last_space(chars, lo, hi - 1);
    }
}

pub proof fn lemma_line_end(chars: Seq<char>, i: int, per_line: int)
    requires
        0 <= i < chars.len(),
        per_line >= 1,
    ensures
        i < line_end(chars, i, per_line) <= chars.len(),
        line_end(chars, i, per_line) - i <= per_line,
{
    let e = if i + per_line <= chars.len() { i + per_line } else { chars.len() as int };
    lemma_last_space(chars, i, e);
}

proof fn lemma_text_lines(chars: Seq<char>, i: int, per_line: int)
    requires
        0 <= i <= chars.len(),
        per_line >= 1,
    ensures
        forall|k: int| 0 <= k < text_lines(chars, i, per_line).len() ==> {
            let l = #[trigger] text_lines(chars, i, per_line)[k];
            &&& i <= l.0 < chars.len()
            &&& 1 <= l.1 <= per_line
            &&& l.0 + l.1 <= chars.len()
        },
        text_lines(chars, i, per_line).len() <= chars.len() - i,
    decreases chars.len() - i,
{
    if i < chars.len() {
        lemma_line_end(chars, i, per_line);
        let e = line_end(chars, i, per_line);
        lemma_text_lines(chars, e, per_line);
    }
}

fn div6(h: i32) -> (r: i32)
    ensures
        r == div_trunc(h as int, 6),
{
    if h >= 0 {
        h / 6
    } else {
        let a: i64 = -(h as i64);
        let q: i64 = a / 6;
        (-q) as i32
    }
}

impl ParaLineSeg {
    /// Reads the segments: 32 bytes each, as many as fit.
    pub fn from_record(record: &Record) -> (res: Result<Self, HwpError>)
        ensures
            res matches Ok(p) && p.line_segments@.len() == record.data@.len() / 32
                && forall|i: int| 0 <= i < p.line_segments@.len() ==> #[trigger] p.line_segments@[i]
                    == segment_at(record.data@, 32 * i),
    {
        let mut reader = record.data_reader();
        let ghost d = record.data@;
        let mut line_segments: Vec<LineSegment> = Vec::new();
        while reader.remaining() >= 32
            invariant
                reader.bytes() == d,
                d == record.data@,
                reader.pos() == 32 * line_segments@.len(),
                reader.pos() <= d.len(),
                forall|i: int| 0 <= i < line_segments@.len() ==> #[trigger] line_segments@[i] == segment_at(d, 32 * i),
            decreases d.len() - reader.pos(),
        {
            let text_start_position: u32 = reader.read_u32()?;
            let line_vertical_position: i32 = reader.read_i32()?;
            let line_height: i32 = reader.read_i32()?;
            let text_part_height: i32 = reader.read_i32()?;
            let distance: i32 = reader.read_i32()?;
            let line_space: i32 = reader.read_i32()?;
            let segment_width: i32 = reader.read_i32()?;
            let properties: u32 = reader.read_u32()?;
            line_segments.push(LineSegment {
                text_start_position,
                line_vertical_position,
                line_height,
                text_part_height,
                distance_baseline_to_line_vertical_position: distance,
                line_space,
                segment_width,
                properties,
            });
        }
        Ok(ParaLineSeg { line_segments })
    }

    /// The sum of the line heights.
    pub fn total_height(&self) -> (h: i32)
        requires
            forall|n: int| 0 <= n <= self.line_segments@.len() ==> i32::MIN <= #[trigger] heights_sum(self.line_segments@, n) <= i32::MAX,
        ensures
            h == heights_sum(self.line_segments@, self.line_segments@.len() as int),
    {
        let mut total: i32 = 0;
        let mut i: usize = 0;
        while i < self.line_segments.len()
            invariant
                i <= self.line_segments@.len(),
                total == heights_sum(self.line_segments@, i as int),
                forall|n: int| 0 <= n <= self.line_segments@.len() ==> i32::MIN <= #[trigger] heights_sum(self.line_segments@, n) <= i32::MAX,
            decreases self.line_segments@.len() - i,
        {
            assert(i32::MIN <= heights_sum(self.line_segments@, i + 1) <= i32::MAX);
            total = total + self.line_segments[i].line_height;
            i = i + 1;
        }
        total
    }

    /// The segment holding a text position: the first that starts at or
    /// before it while the next one starts after it.
    pub fn get_line_at_position(&self, text_pos: u32) -> (r: Option<&LineSegment>)
        ensures
            ({
                let k = line_index_from(self.line_segments@, text_pos as int, 0);
                if k < self.line_segments@.len() { r == Some(&self.line_segments@[k]) } else { r is None }
            }),
    {
        let n: usize = self.line_segments.len();
        let mut i: usize = 0;
        while i < n
            invariant
                n == self.line_segments@.len(),
                i <= n,
                line_index_from(self.line_segments@, text_pos as int, 0)
                    == line_index_from(self.line_segments@, text_pos as int, i as int),
            decreases n - i,
        {
            let next: u32 = if i + 1 < n { self.line_segments[i + 1].text_start_position } else { u32::MAX };
            let segment = &self.line_segments[i];
            if text_pos >= segment.text_start_position && text_pos < next {
                return Some(segment);
            }
            i = i + 1;
        }
        None
    }

    /// No segments.
    pub fn new() -> (p: Self)
        ensures
            p.line_segments@.len() == 0,
    {
        ParaLineSeg { line_segments: Vec::new() }
    }

    /// One segment for a single line.
    pub fn new_single_line(_text_length: u32, line_height: i32, width: i32) -> (p: Self)
        ensures
            p.line_segments@ == seq![new_segment(0, 0, line_height, width)],
    {
        let mut line_segments: Vec<LineSegment> = Vec::new();
        line_segments.push(LineSegment::new(0, 0, line_height, width));
        assert(line_segments@ =~= seq![new_segment(0, 0, line_height, width)]);
        ParaLineSeg { line_segments }
    }

    /// Segments for a text wrapped at a width, breaking after whitespace where
    /// a line would otherwise be cut inside a word.
    pub fn new_multi_line(text: &str, line_height: i32, max_width: i32, average_char_width: i32) -> (p: Self)
        requires
            text@.len() > 0 ==> chars_per_line(max_width, average_char_width) >= 0,
            text@.len() <= u32::MAX,
            text@.len() + chars_per_line(max_width, average_char_width) <= usize::MAX,
            chars_per_line(max_width, average_char_width) > 0 ==> ({
                let lines = text_lines(text@, 0, chars_per_line(max_width, average_char_width));
                &&& i32::MIN <= lines.len() * line_height <= i32::MAX
                &&& forall|k: int| 0 <= k < lines.len() ==> i32::MIN <= #[trigger] lines[k].1 * average_char_width <= i32::MAX
            }),
        ensures
            p.line_segments@ == wrapped_segments(text@, line_height, max_width, average_char_width),
    {
        let divisor: i32 = if average_char_width >= 1 { average_char_width } else { 1 };
        let per_line_signed: i32 = if max_width >= 0 { max_width / divisor } else { -((-(max_width as i64)) / (divisor as i64)) as i32 };
        if per_line_signed == 0 {
            let mut line_segments: Vec<LineSegment> = Vec::new();
            line_segments.push(LineSegment::new(0, 0, line_height, max_width));
            assert(line_segments@ =~= seq![new_segment(0, 0, line_height, max_width)]);
            return ParaLineSeg { line_segments };
        }
        let chars = chars_of(text);
        let ghost cs = text@;
        if chars.len() == 0 {
            let line_segments: Vec<LineSegment> = Vec::new();
            assert(line_segments@ =~= wrapped_segments(text@, line_height, max_width, average_char_width));
            return ParaLineSeg { line_segments };
        }
        let per_line: usize = per_line_signed as usize;
        let ghost per = per_line as int;
        let ghost lines = text_lines(cs, 0, per);
        proof {
            lemma_text_lines(cs, 0, per);
        }
        let mut line_segments: Vec<LineSegment> = Vec::new();
        let mut current_position: u32 = 0;
        let mut line_y: i32 = 0;
        let mut i: usize = 0;
        let len: usize = chars.len();
        while i < len
            invariant
                chars@ == cs,
                len == cs.len(),
                per == per_line,
                per >= 1,
                per <= i32::MAX,
                per == chars_per_line(max_width, average_char_width),
                cs.len() > 0,
                cs.len() <= u32::MAX,
                cs.len() + per <= usize::MAX,
                lines == text_lines(cs, 0, per),
                i32::MIN <= lines.len() * line_height <= i32::MAX,
                forall|k: int| 0 <= k < lines.len() ==> i32::MIN <= #[trigger] lines[k].1 * average_char_width <= i32::MAX,
                forall|k: int| 0 <= k < lines.len() ==> {
                    let l = #[trigger] lines[k];
                    &&& 0 <= l.0 < cs.len()
                    &&& 1 <= l.1 <= per
                    &&& l.0 + l.1 <= cs.len()
                },
                0 <= i <= len,
                line_segments@.len() <= lines.len(),
                i < len ==> line_segments@.len() < lines.len(),
                lines == lines.subrange(0, line_segments@.len() as int) + text_lines(cs, i as int, per),
                current_position == i,
                line_y == line_segments@.len() * line_height,
                forall|k: int| 0 <= k < line_segments@.len() ==> #[trigger] line_segments@[k]
                    == wrapped_segments(cs, line_height, max_width, average_char_width)[k],
            decreases len - i,
        {
            proof {
                lemma_line_end(cs, i as int, per);
                lemma_text_lines(cs, i as int, per);
            }
            let line_start: usize = i;
            let mut line_end: usize = if i + per_line <= len { i + per_line } else { len };
            if line_end < len {
                let mut break_point: usize = line_end;
                let mut j: usize = line_end;
                let ghost e = line_end as int;
                while j > line_start
                    invariant_except_break
                        break_point == e,
                    invariant
                        line_start < e <= len,
                        line_start <= j <= e,
                        chars@ == cs,
                        len == cs.len(),
                        last_space(cs, line_start as int, e) == last_space(cs, line_start as int, j as int),
                    ensures
                        (last_space(cs, line_start as int, e) matches Some(jj) && break_point == jj + 1)
                            || (last_space(cs, line_start as int, e) is None && break_point == e),
                    decreases j,
                {
                    if is_whitespace(chars[j - 1]) {
                        break_point = j;
                        break;
                    }
                    j = j - 1;
                }
                if break_point > line_start {
                    line_end = break_point;
                }
            }
            let line_chars: usize = line_end - line_start;
            let ghost k = line_segments@.len() as int;
            proof {
                assert(text_lines(cs, i as int, per)[0] == (i as int, line_end - i));
                assert(lines[k] == text_lines(cs, i as int, per)[0]);
            }
            assert(lines[k].1 == line_chars as int);
            assert(i32::MIN <= lines[k].1 * average_char_width <= i32::MAX);
            let product: i32 = (line_chars as i32) * average_char_width;
            let line_width: i32 = if product <= max_width { product } else { max_width };
            let segment = LineSegment::new(current_position, line_y, line_height, line_width);
            proof {
                let w = wrapped_segments(cs, line_height, max_width, average_char_width);
                assert(lines[k].0 == i as int);
                assert(w[k] == segment);
            }
            line_segments.push(segment);
            proof {
                assert(lines.subrange(0, k + 1) =~= lines.subrange(0, k).push(lines[k]));
                assert(text_lines(cs, i as int, per) =~= seq![lines[k]] + text_lines(cs, line_end as int, per));
                assert(lines =~= lines.subrange(0, k + 1) + text_lines(cs, line_end as int, per));
                assert(k + 1 <= lines.len());
                assert((k + 1) * line_height == k * line_height + line_height) by (nonlinear_arith);
                if k + 1 < lines.len() {
                    assert(line_height as int * (k + 1) == (k + 1) * line_height) by (nonlinear_arith);
                }
            }
            current_position = current_position + line_chars as u32;
            proof {
                assert(i32::MIN <= (k + 1) * line_height <= i32::MAX) by (nonlinear_arith)
                    requires
                        0 <= k + 1 <= lines.len(),
                        i32::MIN <= lines.len() * line_height <= i32::MAX;
            }
            line_y = line_y + line_height;
            i = line_end;
            proof {
                if i < len {
                    assert(text_lines(cs, i as int, per).len() > 0);
                }
            }
        }
        proof {
            assert(text_lines(cs, len as int, per).len() == 0);
            assert(line_segments@.len() == lines.len());
            assert(line_segments@ =~= wrapped_segments(cs, line_height, max_width, average_char_width));
        }
        ParaLineSeg { line_segments }
    }

    pub fn add_segment(&mut self, segment: LineSegment)
        ensures
            final(self).line_segments@ == old(self).line_segments@.push(segment),
    {
        self.line_segments.push(segment);
    }

    /// The widest segment width, 0 where there are none.
    pub fn max_width(&self) -> (w: i32)
        ensures
            w == max_width_of(self.line_segments@),
    {
        let n: usize = self.line_segments.len();
        if n == 0 {
            return 0;
        }
        let mut best: i32 = self.line_segments[0].segment_width;
        let mut i: usize = 1;
        while i < n
            invariant
                n == self.line_segments@.len(),
                1 <= i <= n,
                best == max_width_of(self.line_segments@.subrange(0, i as int)),
            decreases n - i,
        {
            proof {
                assert(self.line_segments@.subrange(0, i + 1).drop_last() =~= self.line_segments@.subrange(0, i as int));
            }
            if self.line_segments[i].segment_width >= best {
                best = self.line_segments[i].segment_width;
            }
            i = i + 1;
        }
        assert(self.line_segments@.subrange(0, n as int) =~= self.line_segments@);
        best
    }

    pub fn line_count(&self) -> (n: usize)
        ensures
            n == self.line_segments@.len(),
    {
        self.line_segments.len()
    }

    pub fn get_line(&self, index: usize) -> (r: Option<&LineSegment>)
        ensures
            index < self.line_segments@.len() ==> r == Some(&self.line_segments@[index as int]),
            index >= self.line_segments@.len() ==> r is None,
    {
        if index < self.line_segments.len() {
            Some(&self.line_segments[index])
        } else {
            None
        }
    }

    /// The bytes of the segments, 32 for each.
    pub fn to_bytes(&self) -> (bytes: Vec<u8>)
        ensures
            bytes@ == segments_bytes(self.line_segments@),
    {
        let mut bytes: Vec<u8> = Vec::new();
        let mut i: usize = 0;
        while i < self.line_segments.len()
            invariant
                i <= self.line_segments@.len(),
                bytes@ == segments_bytes(self.line_segments@.subrange(0, i as int)),
            decreases self.line_segments@.len() - i,
        {
            proof {
                assert(self.line_segments@.subrange(0, i + 1).drop_last() =~= self.line_segments@.subrange(0, i as int));
            }
            let g = self.line_segments[i];
            put_u32(&mut bytes, g.text_start_position);
            put_u32(&mut bytes, from_i32(g.line_vertical_position));
            put_u32(&mut bytes, from_i32(g.line_height));
            put_u32(&mut bytes, from_i32(g.text_part_height));
            put_u32(&mut bytes, from_i32(g.distance_baseline_to_line_vertical_position));
            put_u32(&mut bytes, from_i32(g.line_space));
            put_u32(&mut bytes, from_i32(g.segment_width));
            put_u32(&mut bytes, g.properties);
            i = i + 1;
        }
        assert(self.line_segments@.subrange(0, self.line_segments@.len() as int) =~= self.line_segments@);
        bytes
    }
}

impl LineSegment {
    /// A segment with text height five sixths of the line height and baseline
    /// distance one sixth, no line spacing and no properties.
    pub fn new(text_start_position: u32, line_vertical_position: i32, line_height: i32, segment_width: i32) -> (s: Self)
        ensures
            s == new_segment(text_start_position, line_vertical_position, line_height, segment_width),
    {
        let sixth: i32 = div6(line_height);
        LineSegment {
            text_start_position,
            line_vertical_position,
            line_height,
            text_part_height: line_height - sixth,
            distance_baseline_to_line_vertical_position: sixth,
            line_space: 0,
            segment_width,
            properties: 0,
        }
    }

    /// A segment with the given text height and baseline distance.
    pub fn new_with_heights(
        text_start_position: u32,
        line_vertical_position: i32,
        line_height: i32,
        text_part_height: i32,
        baseline_distance: i32,
        segment_width: i32,
    ) -> (s: Self)
        ensures
            s == (LineSegment {
                text_start_position,
                line_vertical_position,
                line_height,
                text_part_height,
                distance_baseline_to_line_vertical_position: baseline_distance,
                line_space: 0,
                segment_width,
                properties: 0,
            }),
    {
        LineSegment {
            text_start_position,
            line_vertical_position,
            line_height,
            text_part_height,
            distance_baseline_to_line_vertical_position: baseline_distance,
            line_space: 0,
            segment_width,
            properties: 0,
        }
    }

    pub fn with_line_space(self, line_space: i32) -> (s: Self)
        ensures
            s == (LineSegment { line_space, ..self }),
    {
        LineSegment { line_space, ..self }
    }

    pub fn with_properties(self, properties: u32) -> (s: Self)
        ensures
            s == (LineSegment { properties, ..self }),
    {
        LineSegment { properties, ..self }
    }

    pub fn is_first_line(&self) -> (b: bool)
        ensures
            b == (self.properties & 0x01 != 0),
    {
        (self.properties & 0x01) != 0
    }

    pub fn is_last_line(&self) -> (b: bool)
        ensures
            b == (self.properties & 0x02 != 0),
    {
        (self.properties & 0x02) != 0
    }

    pub fn is_empty_line(&self) -> (b: bool)
        ensures
            b == (self.properties & 0x04 != 0),
    {
        (self.properties & 0x04) != 0
    }

    pub fn has_line_control(&self) -> (b: bool)
        ensures
            b == (self.properties & 0x08 != 0),
    {
        (self.properties & 0x08) != 0
    }
}

/// The bytes of one segment.
pub open spec fn segment_bytes(g: LineSegment) -> Seq<u8> {
    le32(g.text_start_position) + le32(u32_of(g.line_vertical_position)) + le32(u32_of(g.line_height)) + le32(
        u32_of(g.text_part_height),
    ) + le32(u32_of(g.distance_baseline_to_line_vertical_position)) + le32(u32_of(g.line_space)) + le32(
        u32_of(g.segment_width),
    ) + le32(g.properties)
}

/// A segment is read back from its own bytes.
#[verifier::spinoff_prover]
#[verifier::rlimit(50)]
proof fn lemma_segment_bytes_read(g: LineSegment)
    ensures
        segment_bytes(g).len() == 32,
        segment_at(segment_bytes(g), 0) == g,
{
    let b = segment_bytes(g);
    assert(b.subrange(0, 4) =~= le32(g.text_start_position));
    lemma_u32_at(b, 0, g.text_start_position);
    assert(b.subrange(4, 8) =~= le32(u32_of(g.line_vertical_position)));
    lemma_u32_at(b, 4, u32_of(g.line_vertical_position));
    assert(b.subrange(8, 12) =~= le32(u32_of(g.line_height)));
    lemma_u32_at(b, 8, u32_of(g.line_height));
    assert(b.subrange(12, 16) =~= le32(u32_of(g.text_part_height)));
    lemma_u32_at(b, 12, u32_of(g.text_part_height));
    assert(b.subrange(16, 20) =~= le32(u32_of(g.distance_baseline_to_line_vertical_position)));
    lemma_u32_at(b, 16, u32_of(g.distance_baseline_to_line_vertical_position));
    assert(b.subrange(20, 24) =~= le32(u32_of(g.line_space)));
    lemma_u32_at(b, 20, u32_of(g.line_space));
    assert(b.subrange(24, 28) =~= le32(u32_of(g.segment_width)));
    lemma_u32_at(b, 24, u32_of(g.segment_width));
    assert(b.subrange(28, 32) =~= le32(g.properties));
    lemma_u32_at(b, 28, g.properties);
    lemma_i32_roundtrip(g.line_vertical_position);
    lemma_i32_roundtrip(g.line_height);
    lemma_i32_roundtrip(g.text_part_height);
    lemma_i32_roundtrip(g.distance_baseline_to_line_vertical_position);
    lemma_i32_roundtrip(g.line_space);
    lemma_i32_roundtrip(g.segment_width);
}

/// A segment is read back from its own bytes, wherever they lie.
proof fn lemma_segment_at_bytes(d: Seq<u8>, p: int, g: LineSegment)
    requires
        0 <= p,
        p + 32 <= d.len(),
        d.subrange(p, p + 32) == segment_bytes(g),
    ensures
        segment_at(d, p) == g,
{
    lemma_segment_bytes_read(g);
    lemma_segment_shift(d, segment_bytes(g), p);
}

/// The segment read at `p` depends only on the 32 bytes there.
proof fn lemma_segment_shift(d: Seq<u8>, b: Seq<u8>, p: int)
    requires
        0 <= p,
        p + 32 <= d.len(),
        b.len() == 32,
        d.subrange(p, p + 32) == b,
    ensures
        segment_at(d, p) == segment_at(b, 0),
{
    assert forall|j: int| 0 <= j < 32 implies d[p + j] == b[j] by {
        assert(d.subrange(p, p + 32)[j] == d[p + j]);
    }
}

/// Line segments written to bytes read back as the same segments: one for
/// every 32 bytes, in order.
#[verifier::spinoff_prover]
pub proof fn law_segments_roundtrip(s: Seq<LineSegment>)
    ensures
        segments_bytes(s).len() == 32 * s.len(),
        forall|i: int| 0 <= i < s.len() ==> #[trigger] segment_at(segments_bytes(s), 32 * i) == s[i],
    decreases s.len(),
{
    if s.len() > 0 {
        let p = s.drop_last();
        law_segments_roundtrip(p);
        let b = segments_bytes(s);
        let bp = segments_bytes(p);
        let g = s.last();
        assert(b =~= bp + segment_bytes(g));
        assert forall|i: int| 0 <= i < s.len() implies #[trigger] segment_at(b, 32 * i) == s[i] by {
            if i < p.len() {
                assert(b.subrange(32 * i, 32 * i + 32) =~= bp.subrange(32 * i, 32 * i + 32));
                assert(segment_at(bp, 32 * i) == p[i]);
                lemma_segment_shift(b, bp.subrange(32 * i, 32 * i + 32), 32 * i);
                lemma_segment_shift(bp, bp.subrange(32 * i, 32 * i + 32), 32 * i);
            } else {
                assert(b.subrange(32 * i, 32 * i + 32) =~= segment_bytes(g));
                lemma_segment_at_bytes(b, 32 * i, g);
            }
        }
    }
}

} // verus!
