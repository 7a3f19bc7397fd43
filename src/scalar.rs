//! The text form of scalars found in mapping tables.

use vstd::prelude::*;
use crate::node::Node;

verus! {

pub open spec fn digit_char(d: int) -> char {
    if d == 0 { '0' } else if d == 1 { '1' } else if d == 2 { '2' } else if d == 3 { '3' }
    else if d == 4 { '4' } else if d == 5 { '5' } else if d == 6 { '6' } else if d == 7 { '7' }
    else if d == 8 { '8' } else { '9' }
}

/// Base-10 digits of a natural number, most significant first, no padding.
pub open spec fn decimal_digits(n: nat) -> Seq<char>
    decreases n,
{
    if n < 10 {
        seq![digit_char(n as int)]
    } else {
        decimal_digits(n / 10).push(digit_char((n % 10) as int))
    }
}

/// Base-10 text of an integer, with a leading `-` when it is negative.
pub open spec fn decimal_text(i: int) -> Seq<char> {
    if i < 0 {
        seq!['-'] + decimal_digits((-i) as nat)
    } else {
        decimal_digits(i as nat)
    }
}

/// Appends the base-10 digits of `n` to `out`.
fn push_digits(out: &mut String, n: u64)
    ensures
        final(out)@ == old(out)@ + decimal_digits(n as nat),
    decreases n,
{
    if n >= 10 {
        push_digits(out, n / 10);
    }
    let d = (n % 10) as usize;
    let digits = "0123456789";
    proof {
        reveal_strlit("0123456789");
    }
    out.append(digits.substring_char(d, d + 1));
    assert(digits@.subrange(d as int, d + 1) =~= seq![digit_char(d as int)]);
    assert(out@ =~= old(out)@ + decimal_digits(n as nat));
}

/// The base-10 text of an integer.
fn int_text(i: i64) -> (r: String)
    ensures
        r@ == decimal_text(i as int),
{
    let mut out = String::new();
    if i < 0 {
        proof {
            reveal_strlit("-");
        }
        out.append("-");
        push_digits(&mut out, (0i128 - i as i128) as u64);
    } else {
        push_digits(&mut out, i as u64);
    }
    out
}

/// The text of a scalar that a mapping lookup may yield: a string as it
/// is, a boolean as `true` or `false`, an integer in base 10.
pub open spec fn scalar_text(n: Node) -> Option<Seq<char>> {
    match n {
        Node::Str(s) => Some(s@),
        Node::Bool(b) => Some(if b { "true"@ } else { "false"@ }),
        Node::Int(i) => Some(decimal_text(i as int)),
        _ => None,
    }
}

pub fn scalar_to_text(n: &Node) -> (r: Option<String>)
    ensures
        match r {
            Some(s) => scalar_text(*n) == Some(s@),
            None => scalar_text(*n) is None,
        },
{
    match n {
        Node::Str(s) => Some(s.clone()),
        Node::Bool(b) => Some(String::from_str(if *b { "true" } else { "false" })),
        Node::Int(i) => Some(int_text(*i)),
        _ => None,
    }
}

} // verus!
