use vstd::prelude::*;
use crate::utils::text::push_char;

verus! {

/// What a character becomes in XML text: the five characters with a meaning
/// in markup become their entities, every other stays as it is.
pub open spec fn xml_escaped_char(c: char) -> Seq<char> {
    if c == '&' {
        seq!['&', 'a', 'm', 'p', ';']
    } else if c == '<' {
        seq!['&', 'l', 't', ';']
    } else if c == '>' {
        seq!['&', 'g', 't', ';']
    } else if c == '"' {
        seq!['&', 'q', 'u', 'o', 't', ';']
    } else if c == '\'' {
        seq!['&', 'a', 'p', 'o', 's', ';']
    } else {
        seq![c]
    }
}

/// A text escaped for XML, character by character.
pub open spec fn xml_escaped(s: Seq<char>) -> Seq<char>
    decreases s.len(),
{
    if s.len() == 0 {
        seq![]
    } else {
        xml_escaped(s.drop_last()) + xml_escaped_char(s.last())
    }
}

/// A character that cannot stand raw in XML text or an attribute.
pub open spec fn markup_char(c: char) -> bool {
    c == '<' || c == '>' || c == '"' || c == '\''
}

fn push_all(out: &mut String, cs: &[char])
    ensures
        final(out)@ == old(out)@ + cs@,
{
    let mut i: usize = 0;
    while i < cs.len()
        invariant
            i <= cs.len(),
            out@ == old(out)@ + cs@.subrange(0, i as int),
        decreases cs.len() - i,
    {
        push_char(out, cs[i]);
        i = i + 1;
        assert(out@ =~= old(out)@ + cs@.subrange(0, i as int));
    }
    assert(cs@.subrange(0, cs.len() as int) =~= cs@);
}

/// Escapes `&`, `<`, `>`, `"` and `'` for use in XML.
pub fn escape_xml(s: &str) -> (out: String)
    ensures
        out@ == xml_escaped(s@),
        forall|i: int| 0 <= i < out@.len() ==> !markup_char(#[trigger] out@[i]),
{
    let mut out = String::new();
    let ghost chars = s@;
    for c in it: s.chars()
        invariant
            it.seq() == chars,
            out@ == xml_escaped(chars.subrange(0, it.index() as int)),
    {
        proof {
            let k = it.index() as int;
            assert(chars.subrange(0, k + 1).drop_last() =~= chars.subrange(0, k));
        }
        if c == '&' {
            push_all(&mut out, ['&', 'a', 'm', 'p', ';'].as_slice());
        } else if c == '<' {
            push_all(&mut out, ['&', 'l', 't', ';'].as_slice());
        } else if c == '>' {
            push_all(&mut out, ['&', 'g', 't', ';'].as_slice());
        } else if c == '"' {
            push_all(&mut out, ['&', 'q', 'u', 'o', 't', ';'].as_slice());
        } else if c == '\'' {
            push_all(&mut out, ['&', 'a', 'p', 'o', 's', ';'].as_slice());
        } else {
            push_char(&mut out, c);
        }
    }
    proof {
        assert(chars.subrange(0, chars.len() as int) =~= chars);
        lemma_escaped_has_no_markup(chars);
    }
    out
}

/// No character of an escaped text has a meaning in markup but `&`, which
/// starts each entity.
pub proof fn lemma_escaped_has_no_markup(s: Seq<char>)
    ensures
        forall|i: int| 0 <= i < xml_escaped(s).len() ==> !markup_char(#[trigger] xml_escaped(s)[i]),
    decreases s.len(),
{
    if s.len() > 0 {
        lemma_escaped_has_no_markup(s.drop_last());
        let p = xml_escaped(s.drop_last());
        let e = xml_escaped_char(s.last());
        assert forall|i: int| 0 <= i < xml_escaped(s).len() implies !markup_char(#[trigger] xml_escaped(s)[i]) by {
            if i < p.len() {
                assert(xml_escaped(s)[i] == p[i]);
            } else {
                assert(xml_escaped(s)[i] == e[i - p.len()]);
            }
        }
    }
}

} // verus!
