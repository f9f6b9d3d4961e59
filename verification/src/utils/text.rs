use vstd::prelude::*;

verus! {

/// Appends one character to a string: the standard library's `String::push`,
/// which the documentation says appends the character to the end.
#[verifier::external_body]
pub(crate) fn push_char(s: &mut String, c: char)
    ensures
        final(s)@ == old(s)@.push(c),
{
    s.push(c);
}

/// The character of a decimal digit.
pub open spec fn digit_char(d: int) -> char {
    if d == 0 { '0' } else if d == 1 { '1' } else if d == 2 { '2' } else if d == 3 { '3' }
    else if d == 4 { '4' } else if d == 5 { '5' } else if d == 6 { '6' } else if d == 7 { '7' }
    else if d == 8 { '8' } else { '9' }
}

/// The decimal representation of a natural number, without leading zeros.
pub open spec fn decimal(n: nat) -> Seq<char>
    decreases n,
{
    if n < 10 {
        seq![digit_char(n as int)]
    } else {
        decimal(n / 10).push(digit_char((n % 10) as int))
    }
}

/// The value of a decimal digit character.
pub open spec fn digit_value(c: char) -> int {
    if c == '0' { 0 } else if c == '1' { 1 } else if c == '2' { 2 } else if c == '3' { 3 }
    else if c == '4' { 4 } else if c == '5' { 5 } else if c == '6' { 6 } else if c == '7' { 7 }
    else if c == '8' { 8 } else { 9 }
}

/// The number a string of decimal digits writes.
pub open spec fn decimal_value(s: Seq<char>) -> int
    decreases s.len(),
{
    if s.len() == 0 { 0 } else { decimal_value(s.drop_last()) * 10 + digit_value(s.last()) }
}

/// The decimal representation of a number writes that number, and its
/// characters are digits.
pub proof fn lemma_decimal_value(n: nat)
    ensures
        decimal_value(decimal(n)) == n,
        forall|i: int| 0 <= i < decimal(n).len() ==> '0' <= #[trigger] decimal(n)[i] <= '9',
    decreases n,
{
    let k = (n % 10) as int;
    assert(digit_value(digit_char(k)) == k && '0' <= digit_char(k) <= '9');
    if n < 10 {
        assert(decimal(n) =~= seq![digit_char(n as int)]);
        assert(decimal(n).drop_last() =~= Seq::<char>::empty());
        assert(decimal_value(decimal(n)) == decimal_value(Seq::<char>::empty()) * 10 + digit_value(digit_char(k)));
        assert(k == n);
    } else {
        lemma_decimal_value(n / 10);
        let d = decimal(n);
        assert(d.drop_last() =~= decimal(n / 10));
        assert(d.last() == digit_char(k));
        assert(decimal_value(d) == decimal_value(decimal(n / 10)) * 10 + k);
        assert((n / 10) * 10 + k == n);
        assert forall|i: int| 0 <= i < d.len() implies '0' <= #[trigger] d[i] <= '9' by {
            if i < d.len() - 1 {
                assert(d[i] == decimal(n / 10)[i]);
            }
        }
    }
}

/// Different numbers have different decimal representations.
pub proof fn lemma_decimal_injective(m: nat, n: nat)
    requires
        decimal(m) == decimal(n),
    ensures
        m == n,
{
    lemma_decimal_value(m);
    lemma_decimal_value(n);
}

fn digit_of(d: u64) -> (c: char)
    requires
        d < 10,
    ensures
        c == digit_char(d as int),
{
    if d == 0 { '0' } else if d == 1 { '1' } else if d == 2 { '2' } else if d == 3 { '3' }
    else if d == 4 { '4' } else if d == 5 { '5' } else if d == 6 { '6' } else if d == 7 { '7' }
    else if d == 8 { '8' } else { '9' }
}

/// Appends the decimal representation of `n` to `s`.
pub fn push_decimal(s: &mut String, n: u64)
    ensures
        final(s)@ == old(s)@ + decimal(n as nat),
    decreases n,
{
    if n >= 10 {
        push_decimal(s, n / 10);
    }
    push_char(s, digit_of(n % 10));
    proof {
        if n < 10 {
            assert(old(s)@ + decimal(n as nat) =~= old(s)@.push(digit_char(n as int)));
        } else {
            assert((old(s)@ + decimal((n / 10) as nat)).push(digit_char((n % 10) as int))
                =~= old(s)@ + decimal(n as nat));
        }
    }
}

/// A message made of a text, a decimal count and a second text.
pub(crate) fn count_message(prefix: &str, n: usize, suffix: &str) -> (m: String)
    ensures
        m@ == prefix@ + decimal(n as nat) + suffix@,
{
    let mut m = String::new();
    m.append(prefix);
    push_decimal(&mut m, n as u64);
    m.append(suffix);
    m
}

/// A string holding the characters of a literal.
pub(crate) fn text_of(t: &str) -> (m: String)
    ensures
        m@ == t@,
{
    let mut m = String::new();
    m.append(t);
    assert(m@ =~= t@);
    m
}

/// The upper-case hexadecimal digit of a number below 16.
pub open spec fn hex_digit(d: int) -> char {
    if d < 10 { digit_char(d) } else if d == 10 { 'A' } else if d == 11 { 'B' } else if d == 12 { 'C' }
    else if d == 13 { 'D' } else if d == 14 { 'E' } else { 'F' }
}

/// The four upper-case hexadecimal digits of a 16-bit value.
pub open spec fn hex4(x: u16) -> Seq<char> {
    seq![hex_digit((x / 4096) as int), hex_digit(((x / 256) % 16) as int), hex_digit(((x / 16) % 16) as int), hex_digit((x % 16) as int)]
}

fn hex_digit_of(d: u16) -> (c: char)
    requires
        d < 16,
    ensures
        c == hex_digit(d as int),
{
    if d < 10 { digit_of(d as u64) } else if d == 10 { 'A' } else if d == 11 { 'B' } else if d == 12 { 'C' }
    else if d == 13 { 'D' } else if d == 14 { 'E' } else { 'F' }
}

/// Appends the four upper-case hexadecimal digits of `x`.
pub fn push_hex4(s: &mut String, x: u16)
    ensures
        final(s)@ == old(s)@ + hex4(x),
{
    push_char(s, hex_digit_of(x / 4096));
    push_char(s, hex_digit_of((x / 256) % 16));
    push_char(s, hex_digit_of((x / 16) % 16));
    push_char(s, hex_digit_of(x % 16));
    assert(s@ =~= old(s)@ + hex4(x));
}

} // verus!
