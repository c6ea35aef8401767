//! Strings as sequences of characters: the few operations on them that the
//! interpreter needs.

use vstd::prelude::*;
use vstd::string::StringExecFns;

verus! {

/// Whether two strings hold the same characters.
///
/// Trusted: `str::eq` compares the two strings character by character.
#[verifier::external_body]
pub(crate) fn str_eq(a: &str, b: &str) -> (r: bool)
    ensures
        r == (a@ == b@),
{
    a == b
}

/// Appends one character.
///
/// Trusted: `String::push` appends the character to the end of the string.
#[verifier::external_body]
pub(crate) fn push_char(s: &mut String, c: char)
    ensures
        final(s)@ == old(s)@.push(c),
{
    s.push(c)
}

/// The characters of a string, in order.
pub fn chars_of(s: &str) -> (r: Vec<char>)
    ensures
        r@ == s@,
{
    let mut out: Vec<char> = Vec::new();
    for c in it: s.chars()
        invariant
            out@ =~= s@.take(it.index()),
            it.seq() == s@,
    {
        out.push(c);
    }
    assert(s@.take(s@.len() as int) =~= s@);
    out
}

/// The string that holds the characters of `a` and then those of `b`.
pub fn joined(a: &str, b: &str) -> (r: String)
    ensures
        r@ == a@ + b@,
{
    let mut out = String::from_str(a);
    out.append(b);
    out
}

/// The character for the digit `d`.
pub open spec fn digit_char(d: int) -> char {
    if d == 0 {
        '0'
    } else if d == 1 {
        '1'
    } else if d == 2 {
        '2'
    } else if d == 3 {
        '3'
    } else if d == 4 {
        '4'
    } else if d == 5 {
        '5'
    } else if d == 6 {
        '6'
    } else if d == 7 {
        '7'
    } else if d == 8 {
        '8'
    } else {
        '9'
    }
}

/// The decimal digits of a natural number, without leading zeros.
pub open spec fn decimal_nat(n: nat) -> Seq<char>
    decreases n,
{
    if n < 10 {
        seq![digit_char(n as int)]
    } else {
        decimal_nat(n / 10).push(digit_char((n % 10) as int))
    }
}

/// The decimal form of an integer, with a minus sign where it is negative.
pub open spec fn decimal(i: int) -> Seq<char> {
    if i < 0 {
        seq!['-'] + decimal_nat((-i) as nat)
    } else {
        decimal_nat(i as nat)
    }
}

fn digit(d: u64) -> (c: char)
    requires
        d < 10,
    ensures
        c == digit_char(d as int),
{
    if d == 0 {
        '0'
    } else if d == 1 {
        '1'
    } else if d == 2 {
        '2'
    } else if d == 3 {
        '3'
    } else if d == 4 {
        '4'
    } else if d == 5 {
        '5'
    } else if d == 6 {
        '6'
    } else if d == 7 {
        '7'
    } else if d == 8 {
        '8'
    } else {
        '9'
    }
}

/// Appends the decimal digits of `n`.
pub fn push_decimal(out: &mut String, n: u64)
    ensures
        final(out)@ == old(out)@ + decimal_nat(n as nat),
    decreases n,
{
    if n >= 10 {
        push_decimal(out, n / 10);
    }
    push_char(out, digit(n % 10));
    assert(out@ =~= old(out)@ + decimal_nat(n as nat));
}

/// Appends the decimal form of `i`.
pub fn push_int(out: &mut String, i: i64)
    ensures
        final(out)@ == old(out)@ + decimal(i as int),
{
    if i < 0 {
        push_char(out, '-');
        let below: u64 = (-(i + 1)) as u64;
        push_decimal(out, below + 1);
        assert(out@ =~= old(out)@ + decimal(i as int));
    } else {
        push_decimal(out, i as u64);
    }
}

/// The decimal form of `i`.
pub fn int_to_string(i: i64) -> (r: String)
    ensures
        r@ == decimal(i as int),
{
    let mut out = String::new();
    push_int(&mut out, i);
    assert(out@ =~= decimal(i as int));
    out
}

/// The decimal form of `n`.
pub fn usize_to_string(n: usize) -> (r: String)
    ensures
        r@ == decimal_nat(n as nat),
{
    let mut out = String::new();
    push_decimal(&mut out, n as u64);
    assert(out@ =~= decimal_nat(n as nat));
    out
}

/// The template with each placeholder `{}` replaced by `val`, the
/// placeholders found from left to right.
pub open spec fn fill(tpl: Seq<char>, val: Seq<char>) -> Seq<char>
    decreases tpl.len(),
{
    if tpl.len() >= 2 && tpl[0] == '{' && tpl[1] == '}' {
        val + fill(tpl.skip(2), val)
    } else if tpl.len() > 0 {
        seq![tpl[0]] + fill(tpl.skip(1), val)
    } else {
        Seq::empty()
    }
}

/// Replaces each placeholder `{}` of the template by `val`.
pub fn fill_template(tpl: &str, val: &str) -> (r: String)
    ensures
        r@ == fill(tpl@, val@),
{
    let chars = chars_of(tpl);
    let mut out = String::new();
    let mut i: usize = 0;
    assert(chars@.skip(0) =~= chars@);
    while i < chars.len()
        invariant
            i <= chars.len(),
            chars@ == tpl@,
            fill(tpl@, val@) == out@ + fill(chars@.skip(i as int), val@),
        decreases chars.len() - i,
    {
        let ghost rest = chars@.skip(i as int);
        if chars[i] == '{' && i + 1 < chars.len() && chars[i + 1] == '}' {
            assert(rest.skip(2) =~= chars@.skip(i + 2));
            let ghost before = out@;
            out.append(val);
            assert(out@ + fill(chars@.skip(i + 2), val@) =~= before + fill(rest, val@));
            i += 2;
        } else {
            assert(rest.skip(1) =~= chars@.skip(i + 1));
            let ghost before = out@;
            push_char(&mut out, chars[i]);
            assert(out@ + fill(chars@.skip(i + 1), val@) =~= before + fill(rest, val@));
            i += 1;
        }
    }
    assert(out@ + Seq::<char>::empty() =~= out@);
    out
}

} // verus!
