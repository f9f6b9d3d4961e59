use vstd::prelude::*;
use crate::error::HwpError;
use crate::parser::record::Record;
use crate::utils::bytes::{u32_le, le32, put_u32};

verus! {

/// The character shapes of a paragraph: where each shape starts.
#[derive(Debug, Clone)]
pub struct ParaCharShape {
    pub char_positions: Vec<CharPositionShape>,
}

/// A character shape that applies from a text position on.
#[derive(Debug, Clone, Copy, PartialEq, Eq, Structural)]
pub struct CharPositionShape {
    pub position: u32,
    pub char_shape_id: u16,
}

/// The index of the first entry from `j` on whose position exceeds `x`
/// (the length where there is none).
pub open spec fn first_above_from(s: Seq<CharPositionShape>, x: int, j: int) -> int
    decreases s.len() - j,
{
    if j >= s.len() || j < 0 {
        s.len() as int
    } else if s[j].position > x {
        j
    } else {
        first_above_from(s, x, j + 1)
    }
}

/// The index of the first entry whose position exceeds `x`.
pub open spec fn first_above(s: Seq<CharPositionShape>, x: int) -> int {
    first_above_from(s, x, 0)
}

/// The shape in force at a text position, as found by scanning the entries
/// in order until one starts after it: the last entry scanned, if any.
pub open spec fn shape_at(s: Seq<CharPositionShape>, x: int) -> Option<u16> {
    let k = first_above(s, x);
    if k == 0 { None } else { Some(s[k - 1].char_shape_id) }
}

/// Inserts an entry after every entry, from the front, that does not start
/// after it.
pub open spec fn insert_by_position(s: Seq<CharPositionShape>, x: CharPositionShape) -> Seq<CharPositionShape> {
    s.insert(first_above(s, x.position as int), x)
}

/// The entries in the order of a stable sort by position.
pub open spec fn sort_by_position(s: Seq<CharPositionShape>) -> Seq<CharPositionShape>
    decreases s.len(),
{
    if s.len() == 0 {
        s
    } else {
        insert_by_position(sort_by_position(s.drop_last()), s.last())
    }
}

/// The entries whose position differs from `x`, in order.
pub open spec fn without_position(s: Seq<CharPositionShape>, x: int) -> Seq<CharPositionShape>
    decreases s.len(),
{
    if s.len() == 0 {
        s
    } else if s.last().position == x {
        without_position(s.drop_last(), x)
    } else {
        without_position(s.drop_last(), x).push(s.last())
    }
}

/// The entries whose position is not strictly between `a` and `b`, in order.
pub open spec fn outside_range(s: Seq<CharPositionShape>, a: int, b: int) -> Seq<CharPositionShape>
    decreases s.len(),
{
    if s.len() == 0 {
        s
    } else if a < s.last().position < b {
        outside_range(s.drop_last(), a, b)
    } else {
        outside_range(s.drop_last(), a, b).push(s.last())
    }
}

/// The entries after a shape is set at a position: other entries at that
/// position removed, the new one added, all sorted by position.
pub open spec fn with_shape_at(s: Seq<CharPositionShape>, position: u32, id: u16) -> Seq<CharPositionShape> {
    sort_by_position(without_position(s, position as int).push(CharPositionShape { position, char_shape_id: id }))
}

/// The index of the first entry whose position is not below `x`.
pub open spec fn first_not_below(s: Seq<CharPositionShape>, x: int) -> int {
    first_above(s, x - 1)
}

/// The shape in force just before a position.
pub open spec fn shape_before(s: Seq<CharPositionShape>, x: int) -> Option<u16> {
    let k = first_not_below(s, x);
    if k == 0 { None } else { Some(s[k - 1].char_shape_id) }
}

/// The entries after a shape is applied to a range: entries strictly inside
/// it dropped, the shape set at the start, and the shape that was in force
/// before the start set again at the end where it differs.
pub open spec fn with_range_shape(s: Seq<CharPositionShape>, start: u32, end: u32, id: u16) -> Seq<CharPositionShape> {
    let t = with_shape_at(outside_range(s, start as int, end as int), start, id);
    match shape_before(t, start as int) {
        Some(prev) => if prev != id { with_shape_at(t, end, prev) } else { t },
        None => t,
    }
}

/// Entries ordered by position.
pub open spec fn sorted_by_position(s: Seq<CharPositionShape>) -> bool {
    forall|i: int, j: int| 0 <= i < j < s.len() ==> s[i].position <= s[j].position
}

/// The bytes of the entries: a count, then position and shape id of each.
pub open spec fn char_shape_entries_bytes(s: Seq<CharPositionShape>) -> Seq<u8>
    decreases s.len(),
{
    if s.len() == 0 {
        seq![]
    } else {
        char_shape_entries_bytes(s.drop_last()) + le32(s.last().position) + le32(s.last().char_shape_id as u32)
    }
}

fn first_above_exec(s: &Vec<CharPositionShape>, x: u32, from: usize) -> (k: usize)
    requires
        from <= s@.len(),
    ensures
        k == first_above_from(s@, x as int, from as int),
        from <= k <= s@.len(),
{
    let mut j: usize = from;
    while j < s.len()
        invariant
            from <= j <= s@.len(),
            first_above_from(s@, x as int, from as int) == first_above_from(s@, x as int, j as int),
        decreases s@.len() - j,
    {
        if s[j].position > x {
            return j;
        }
        j = j + 1;
    }
    j
}

proof fn lemma_first_above_from_bounds(s: Seq<CharPositionShape>, x: int, j: int)
    requires
        0 <= j <= s.len(),
    ensures
        j <= first_above_from(s, x, j) <= s.len(),
        forall|i: int| j <= i < first_above_from(s, x, j) ==> s[i].position <= x,
        first_above_from(s, x, j) < s.len() ==> s[first_above_from(s, x, j)].position > x,
    decreases s.len() - j,
{
    if j < s.len() && s[j].position <= x {
        lemma_first_above_from_bounds(s, x, j + 1);
    }
}

/// The scan that finds the first entry after a position stops there.
pub proof fn lemma_first_above(s: Seq<CharPositionShape>, x: int)
    ensures
        0 <= first_above(s, x) <= s.len(),
        forall|i: int| 0 <= i < first_above(s, x) ==> s[i].position <= x,
        first_above(s, x) < s.len() ==> s[first_above(s, x)].position > x,
{
    lemma_first_above_from_bounds(s, x, 0);
}

fn insert_in_order(v: &mut Vec<CharPositionShape>, x: CharPositionShape)
    ensures
        final(v)@ == insert_by_position(old(v)@, x),
{
    let k: usize = first_above_exec(v, x.position, 0);
    v.insert(k, x);
}

fn stable_sort(v: &Vec<CharPositionShape>) -> (out: Vec<CharPositionShape>)
    ensures
        out@ == sort_by_position(v@),
{
    let mut out: Vec<CharPositionShape> = Vec::new();
    let mut i: usize = 0;
    while i < v.len()
        invariant
            i <= v@.len(),
            out@ == sort_by_position(v@.subrange(0, i as int)),
        decreases v@.len() - i,
    {
        proof {
            assert(v@.subrange(0, i + 1).drop_last() =~= v@.subrange(0, i as int));
        }
        insert_in_order(&mut out, v[i]);
        i = i + 1;
    }
    assert(v@.subrange(0, v@.len() as int) =~= v@);
    out
}

fn drop_position(v: &Vec<CharPositionShape>, x: u32) -> (out: Vec<CharPositionShape>)
    ensures
        out@ == without_position(v@, x as int),
{
    let mut out: Vec<CharPositionShape> = Vec::new();
    let mut i: usize = 0;
    while i < v.len()
        invariant
            i <= v@.len(),
            out@ == without_position(v@.subrange(0, i as int), x as int),
        decreases v@.len() - i,
    {
        proof {
            assert(v@.subrange(0, i + 1).drop_last() =~= v@.subrange(0, i as int));
        }
        if v[i].position != x {
            out.push(v[i]);
        }
        i = i + 1;
    }
    assert(v@.subrange(0, v@.len() as int) =~= v@);
    out
}

fn drop_inside(v: &Vec<CharPositionShape>, a: u32, b: u32) -> (out: Vec<CharPositionShape>)
    ensures
        out@ == outside_range(v@, a as int, b as int),
{
    let mut out: Vec<CharPositionShape> = Vec::new();
    let mut i: usize = 0;
    while i < v.len()
        invariant
            i <= v@.len(),
            out@ == outside_range(v@.subrange(0, i as int), a as int, b as int),
        decreases v@.len() - i,
    {
        proof {
            assert(v@.subrange(0, i + 1).drop_last() =~= v@.subrange(0, i as int));
        }
        if !(v[i].position > a && v[i].position < b) {
            out.push(v[i]);
        }
        i = i + 1;
    }
    assert(v@.subrange(0, v@.len() as int) =~= v@);
    out
}

impl ParaCharShape {
    /// Reads the entries: each whole eight bytes hold a position and a shape
    /// id, of which the low 16 bits are kept.
    pub fn from_record(record: &Record) -> (res: Result<Self, HwpError>)
        ensures
            res matches Ok(p) && p.char_positions@.len() == record.data@.len() / 8
                && forall|i: int| 0 <= i < p.char_positions@.len() ==> #[trigger] p.char_positions@[i]
                    == (CharPositionShape {
                        position: u32_le(record.data@, 8 * i),
                        char_shape_id: (u32_le(record.data@, 8 * i + 4) % 65536) as u16,
                    }),
    {
        let mut reader = record.data_reader();
        let ghost d = record.data@;
        let mut char_positions: Vec<CharPositionShape> = Vec::new();
        while reader.remaining() >= 8
            invariant
                reader.bytes() == d,
                d == record.data@,
                reader.pos() == 8 * char_positions@.len(),
                reader.pos() <= d.len(),
                forall|i: int| 0 <= i < char_positions@.len() ==> #[trigger] char_positions@[i]
                    == (CharPositionShape { position: u32_le(d, 8 * i), char_shape_id: (u32_le(d, 8 * i + 4) % 65536) as u16 }),
            decreases d.len() - reader.pos(),
        {
            let position: u32 = reader.read_u32()?;
            let id: u32 = reader.read_u32()?;
            char_positions.push(CharPositionShape { position, char_shape_id: (id % 65536) as u16 });
        }
        Ok(ParaCharShape { char_positions })
    }

    /// The shape in force at a character position.
    pub fn get_shape_at_position(&self, char_pos: u32) -> (r: Option<u16>)
        ensures
            r == shape_at(self.char_positions@, char_pos as int),
    {
        let k: usize = first_above_exec(&self.char_positions, char_pos, 0);
        if k == 0 {
            None
        } else {
            Some(self.char_positions[k - 1].char_shape_id)
        }
    }

    /// One shape for the whole text.
    pub fn new_single_shape(char_shape_id: u16) -> (p: Self)
        ensures
            p.char_positions@ == seq![CharPositionShape { position: 0, char_shape_id }],
    {
        let mut char_positions: Vec<CharPositionShape> = Vec::new();
        char_positions.push(CharPositionShape { position: 0, char_shape_id });
        assert(char_positions@ =~= seq![CharPositionShape { position: 0, char_shape_id }]);
        ParaCharShape { char_positions }
    }

    /// Shapes for several ranges, given as (position, shape id) pairs and
    /// sorted by position, pairs with equal positions keeping their order.
    pub fn new_with_ranges(ranges: Vec<(u32, u16)>) -> (p: Self)
        ensures
            p.char_positions@ == sort_by_position(ranges@.map_values(
                |r: (u32, u16)| CharPositionShape { position: r.0, char_shape_id: r.1 })),
    {
        let mut entries: Vec<CharPositionShape> = Vec::new();
        let mut i: usize = 0;
        while i < ranges.len()
            invariant
                i <= ranges@.len(),
                entries@ == ranges@.subrange(0, i as int).map_values(
                    |r: (u32, u16)| CharPositionShape { position: r.0, char_shape_id: r.1 }),
            decreases ranges@.len() - i,
        {
            let (position, char_shape_id) = ranges[i];
            entries.push(CharPositionShape { position, char_shape_id });
            i = i + 1;
            assert(entries@ =~= ranges@.subrange(0, i as int).map_values(
                |r: (u32, u16)| CharPositionShape { position: r.0, char_shape_id: r.1 }));
        }
        assert(ranges@.subrange(0, ranges@.len() as int) =~= ranges@);
        ParaCharShape { char_positions: stable_sort(&entries) }
    }

    /// Sets the shape from a position on: any entry at that position is
    /// replaced, and the entries are sorted by position.
    pub fn add_shape_at_position(&mut self, position: u32, char_shape_id: u16)
        ensures
            final(self).char_positions@ == with_shape_at(old(self).char_positions@, position, char_shape_id),
    {
        let mut kept = drop_position(&self.char_positions, position);
        kept.push(CharPositionShape { position, char_shape_id });
        self.char_positions = stable_sort(&kept);
    }

    /// Applies a shape to the characters from `start_pos` to `end_pos`: the
    /// entries strictly inside are dropped, the shape is set at the start, and
    /// the shape in force before the start is set again at the end where it
    /// differs.
    pub fn apply_shape_to_range(&mut self, start_pos: u32, end_pos: u32, char_shape_id: u16)
        ensures
            final(self).char_positions@ == with_range_shape(old(self).char_positions@, start_pos, end_pos, char_shape_id),
    {
        self.char_positions = drop_inside(&self.char_positions, start_pos, end_pos);
        self.add_shape_at_position(start_pos, char_shape_id);
        if let Some(prev_shape) = self.get_shape_before_position(start_pos) {
            if prev_shape != char_shape_id {
                self.add_shape_at_position(end_pos, prev_shape);
            }
        }
    }

    fn get_shape_before_position(&self, position: u32) -> (r: Option<u16>)
        ensures
            r == shape_before(self.char_positions@, position as int),
    {
        let k: usize = if position == 0 {
            proof {
                lemma_first_above(self.char_positions@, -1);
                if self.char_positions@.len() > 0 {
                    assert(first_above(self.char_positions@, -1) == 0);
                }
            }
            0
        } else {
            first_above_exec(&self.char_positions, position - 1, 0)
        };
        if k == 0 {
            None
        } else {
            Some(self.char_positions[k - 1].char_shape_id)
        }
    }

    /// The bytes of the entries: their count, then each position and shape id
    /// as 32-bit values.
    pub fn to_bytes(&self) -> (bytes: Vec<u8>)
        ensures
            bytes@ == le32(self.char_positions@.len() as u32) + char_shape_entries_bytes(self.char_positions@),
    {
        let mut bytes: Vec<u8> = Vec::new();
        put_u32(&mut bytes, self.char_positions.len() as u32);
        let mut i: usize = 0;
        while i < self.char_positions.len()
            invariant
                i <= self.char_positions@.len(),
                bytes@ == le32(self.char_positions@.len() as u32)
                    + char_shape_entries_bytes(self.char_positions@.subrange(0, i as int)),
            decreases self.char_positions@.len() - i,
        {
            proof {
                assert(self.char_positions@.subrange(0, i + 1).drop_last() =~= self.char_positions@.subrange(0, i as int));
            }
            put_u32(&mut bytes, self.char_positions[i].position);
            put_u32(&mut bytes, self.char_positions[i].char_shape_id as u32);
            i = i + 1;
        }
        assert(self.char_positions@.subrange(0, self.char_positions@.len() as int) =~= self.char_positions@);
        bytes
    }
}

proof fn lemma_insert_members(u: Seq<CharPositionShape>, x: CharPositionShape)
    ensures
        insert_by_position(u, x).len() == u.len() + 1,
        insert_by_position(u, x).contains(x),
        forall|i: int| 0 <= i < insert_by_position(u, x).len() ==> insert_by_position(u, x)[i] == x
            || u.contains(insert_by_position(u, x)[i]),
        forall|j: int| 0 <= j < u.len() ==> insert_by_position(u, x).contains(#[trigger] u[j]),
{
    let k = first_above(u, x.position as int);
    lemma_first_above(u, x.position as int);
    let t = insert_by_position(u, x);
    u.insert_ensures(k, x);
    assert(t[k] == x);
    assert forall|i: int| 0 <= i < t.len() implies t[i] == x || u.contains(t[i]) by {
        if i < k {
            assert(t[i] == u[i]);
        } else if i > k {
            assert(t[i] == u[i - 1]);
        }
    }
    assert forall|j: int| 0 <= j < u.len() implies t.contains(#[trigger] u[j]) by {
        if j < k {
            assert(t[j] == u[j]);
        } else {
            assert(t[j + 1] == u[j]);
        }
    }
}

#[verifier::spinoff_prover]
proof fn lemma_insert_sorted(u: Seq<CharPositionShape>, x: CharPositionShape)
    requires
        sorted_by_position(u),
    ensures
        sorted_by_position(insert_by_position(u, x)),
{
    let k = first_above(u, x.position as int);
    lemma_first_above(u, x.position as int);
    let t = insert_by_position(u, x);
    u.insert_ensures(k, x);
    assert forall|i: int, j: int| 0 <= i < j < t.len() implies t[i].position <= t[j].position by {
        if j < k {
            assert(t[i] == u[i] && t[j] == u[j]);
        } else if j == k {
            assert(t[i] == u[i]);
        } else if i < k {
            assert(t[i] == u[i] && t[j] == u[j - 1]);
            assert(u[k].position <= u[j - 1].position);
        } else if i == k {
            assert(t[j] == u[j - 1]);
            assert(u[k].position <= u[j - 1].position);
        } else {
            assert(t[i] == u[i - 1] && t[j] == u[j - 1]);
        }
    }
}

proof fn lemma_sort_props(s: Seq<CharPositionShape>)
    ensures
        sorted_by_position(sort_by_position(s)),
        sort_by_position(s).len() == s.len(),
        forall|i: int| 0 <= i < sort_by_position(s).len() ==> s.contains(#[trigger] sort_by_position(s)[i]),
        forall|j: int| 0 <= j < s.len() ==> sort_by_position(s).contains(#[trigger] s[j]),
    decreases s.len(),
{
    if s.len() > 0 {
        let u = sort_by_position(s.drop_last());
        lemma_sort_props(s.drop_last());
        lemma_insert_members(u, s.last());
        lemma_insert_sorted(u, s.last());
        let t = sort_by_position(s);
        assert forall|i: int| 0 <= i < t.len() implies s.contains(#[trigger] t[i]) by {
            if t[i] != s.last() {
                let w = choose|w: int| 0 <= w < u.len() && u[w] == t[i];
                let v = choose|v: int| 0 <= v < s.drop_last().len() && s.drop_last()[v] == u[w];
                assert(s[v] == t[i]);
            } else {
                assert(s[s.len() - 1] == t[i]);
            }
        }
        assert forall|j: int| 0 <= j < s.len() implies t.contains(#[trigger] s[j]) by {
            if j < s.len() - 1 {
                assert(s.drop_last()[j] == s[j]);
                assert(u.contains(s.drop_last()[j]));
                let w = choose|w: int| 0 <= w < u.len() && u[w] == s[j];
                assert(t.contains(u[w]));
            }
        }
    }
}

proof fn lemma_without_props(s: Seq<CharPositionShape>, x: int)
    ensures
        forall|i: int| 0 <= i < without_position(s, x).len() ==> (#[trigger] without_position(s, x)[i]).position != x
            && s.contains(without_position(s, x)[i]),
        forall|j: int| 0 <= j < s.len() && (#[trigger] s[j]).position != x ==> without_position(s, x).contains(s[j]),
    decreases s.len(),
{
    if s.len() > 0 {
        lemma_without_props(s.drop_last(), x);
        let w = without_position(s, x);
        let w0 = without_position(s.drop_last(), x);
        assert forall|i: int| 0 <= i < w.len() implies (#[trigger] w[i]).position != x && s.contains(w[i]) by {
            if i < w0.len() {
                assert(w[i] == w0[i]);
                let v = choose|v: int| 0 <= v < s.drop_last().len() && s.drop_last()[v] == w0[i];
                assert(s[v] == w[i]);
            } else {
                assert(w[i] == s.last());
                assert(s[s.len() - 1] == w[i]);
            }
        }
        assert forall|j: int| 0 <= j < s.len() && (#[trigger] s[j]).position != x implies w.contains(s[j]) by {
            if j < s.len() - 1 {
                assert(s.drop_last()[j] == s[j]);
                let v = choose|v: int| 0 <= v < w0.len() && w0[v] == s[j];
                assert(w[v] == s[j]);
            } else {
                assert(w[w.len() - 1] == s[j]);
            }
        }
    }
}

proof fn lemma_shape_at_unique(u: Seq<CharPositionShape>, x: CharPositionShape)
    requires
        sorted_by_position(u),
        u.contains(x),
        forall|i: int| 0 <= i < u.len() && (#[trigger] u[i]).position == x.position ==> u[i] == x,
    ensures
        shape_at(u, x.position as int) == Some(x.char_shape_id),
{
    let k = first_above(u, x.position as int);
    lemma_first_above(u, x.position as int);
    let m = choose|m: int| 0 <= m < u.len() && u[m] == x;
    if m >= k {
        assert(u[k].position <= u[m].position);
    }
    assert(u[m].position <= u[k - 1].position);
    assert(u[k - 1].position == x.position);
}

proof fn lemma_with_shape_at(s: Seq<CharPositionShape>, position: u32, id: u16)
    ensures
        sorted_by_position(with_shape_at(s, position, id)),
        with_shape_at(s, position, id).contains(CharPositionShape { position, char_shape_id: id }),
        forall|i: int| 0 <= i < with_shape_at(s, position, id).len()
            && (#[trigger] with_shape_at(s, position, id)[i]).position == position
            ==> with_shape_at(s, position, id)[i] == (CharPositionShape { position, char_shape_id: id }),
        forall|i: int| 0 <= i < with_shape_at(s, position, id).len()
            && (#[trigger] with_shape_at(s, position, id)[i]).position != position
            ==> s.contains(with_shape_at(s, position, id)[i]),
        forall|j: int| 0 <= j < s.len() && (#[trigger] s[j]).position != position
            ==> with_shape_at(s, position, id).contains(s[j]),
{
    let x = CharPositionShape { position, char_shape_id: id };
    let w = without_position(s, position as int);
    let g = w.push(x);
    let t = with_shape_at(s, position, id);
    lemma_without_props(s, position as int);
    lemma_sort_props(g);
    assert(g[g.len() - 1] == x);
    assert forall|i: int| 0 <= i < t.len() && (#[trigger] t[i]).position == position implies t[i] == x by {
        let v = choose|v: int| 0 <= v < g.len() && g[v] == t[i];
        if v < w.len() {
            assert(g[v] == w[v]);
        }
    }
    assert forall|i: int| 0 <= i < t.len() && (#[trigger] t[i]).position != position implies s.contains(t[i]) by {
        let v = choose|v: int| 0 <= v < g.len() && g[v] == t[i];
        assert(v < w.len());
        assert(g[v] == w[v]);
    }
    assert forall|j: int| 0 <= j < s.len() && (#[trigger] s[j]).position != position implies t.contains(s[j]) by {
        let v = choose|v: int| 0 <= v < w.len() && w[v] == s[j];
        assert(g[v] == s[j]);
    }
}

/// Setting a shape at a position and reading the shape in force there gives
/// that shape back; the entries come out sorted by position.
pub proof fn law_set_shape_then_read(s: Seq<CharPositionShape>, position: u32, id: u16)
    ensures
        shape_at(with_shape_at(s, position, id), position as int) == Some(id),
        sorted_by_position(with_shape_at(s, position, id)),
{
    lemma_with_shape_at(s, position, id);
    lemma_shape_at_unique(with_shape_at(s, position, id), CharPositionShape { position, char_shape_id: id });
}

/// Applying a shape to a non-empty range makes it the shape in force at the
/// start of the range; where another shape was in force just before the
/// start, that shape is in force again at the end.
pub proof fn law_range_shape(s: Seq<CharPositionShape>, start: u32, end: u32, id: u16)
    requires
        start < end,
    ensures
        shape_at(with_range_shape(s, start, end, id), start as int) == Some(id),
        ({
            let t = with_shape_at(outside_range(s, start as int, end as int), start, id);
            match shape_before(t, start as int) {
                Some(prev) => prev != id ==> shape_at(with_range_shape(s, start, end, id), end as int) == Some(prev),
                None => true,
            }
        }),
{
    let t = with_shape_at(outside_range(s, start as int, end as int), start, id);
    let x = CharPositionShape { position: start, char_shape_id: id };
    lemma_with_shape_at(outside_range(s, start as int, end as int), start, id);
    match shape_before(t, start as int) {
        Some(prev) => {
            if prev != id {
                let f = with_shape_at(t, end, prev);
                lemma_with_shape_at(t, end, prev);
                let m = choose|m: int| 0 <= m < t.len() && t[m] == x;
                assert(t[m].position != end);
                assert(f.contains(t[m]));
                assert forall|i: int| 0 <= i < f.len() && (#[trigger] f[i]).position == start implies f[i] == x by {
                    assert(t.contains(f[i]));
                    let v = choose|v: int| 0 <= v < t.len() && t[v] == f[i];
                    assert(t[v].position == start);
                }
                lemma_shape_at_unique(f, x);
                lemma_shape_at_unique(f, CharPositionShape { position: end, char_shape_id: prev });
            } else {
                lemma_shape_at_unique(t, x);
            }
        },
        None => {
            lemma_shape_at_unique(t, x);
        },
    }
}

} // verus!
