//! Literal text operations: replacing every occurrence and splitting.

use vstd::prelude::*;

verus! {

/// Every non-overlapping occurrence of `p` in `s`, scanned from the left,
/// replaced by `r`. An empty pattern matches before each character and at
/// the end.
pub open spec fn replace_all(s: Seq<char>, p: Seq<char>, r: Seq<char>) -> Seq<char>
    decreases s.len(),
{
    if s.len() == 0 {
        if p.len() == 0 { r } else { Seq::empty() }
    } else if p.len() > 0 && p.is_prefix_of(s) {
        r + replace_all(s.skip(p.len() as int), p, r)
    } else if p.len() == 0 {
        r + seq![s[0]] + replace_all(s.skip(1), p, r)
    } else {
        seq![s[0]] + replace_all(s.skip(1), p, r)
    }
}

/// The pieces of `s` between the non-overlapping occurrences of a
/// non-empty separator, found from the left; `cur` is the piece begun so far.
pub open spec fn split_from(s: Seq<char>, sep: Seq<char>, cur: Seq<char>) -> Seq<Seq<char>>
    decreases s.len(),
{
    if s.len() == 0 {
        seq![cur]
    } else if sep.len() > 0 && sep.is_prefix_of(s) {
        seq![cur] + split_from(s.skip(sep.len() as int), sep, Seq::empty())
    } else {
        split_from(s.skip(1), sep, cur.push(s[0]))
    }
}

pub open spec fn split_on(s: Seq<char>, sep: Seq<char>) -> Seq<Seq<char>> {
    split_from(s, sep, Seq::empty())
}

/// Whether `p` occurs in `s` at position `i`.
fn occurs_at(s: &str, n: usize, i: usize, p: &str, m: usize) -> (r: bool)
    requires
        n == s@.len(),
        m == p@.len(),
        i <= n,
    ensures
        r == p@.is_prefix_of(s@.skip(i as int)),
{
    if m > n - i {
        return false;
    }
    let mut j: usize = 0;
    while j < m
        invariant
            m <= n - i,
            n == s@.len(),
            m == p@.len(),
            j <= m,
            forall|k: int| 0 <= k < j ==> s@[i + k] == p@[k],
        decreases m - j,
    {
        if s.get_char(i + j) != p.get_char(j) {
            assert(s@.skip(i as int).subrange(0, m as int)[j as int] != p@[j as int]);
            return false;
        }
        j = j + 1;
    }
    assert(p@ =~= s@.skip(i as int).subrange(0, m as int));
    true
}

/// `text` with every occurrence of `from` replaced by `to`.
pub fn replace_text(text: &str, from: &str, to: &str) -> (r: String)
    ensures
        r@ == replace_all(text@, from@, to@),
{
    let n = text.unicode_len();
    let m = from.unicode_len();
    let mut out = String::new();
    let mut i: usize = 0;
    assert(text@.skip(0) =~= text@);
    assert(out@ + replace_all(text@, from@, to@) =~= replace_all(text@, from@, to@));
    while i < n
        invariant
            n == text@.len(),
            m == from@.len(),
            i <= n,
            out@ + replace_all(text@.skip(i as int), from@, to@) == replace_all(text@, from@, to@),
        decreases n - i,
    {
        let ghost rest = text@.skip(i as int);
        if m > 0 && occurs_at(text, n, i, from, m) {
            assert(rest.skip(m as int) =~= text@.skip(i + m));
            out.append(to);
            i = i + m;
        } else {
            assert(rest.skip(1) =~= text@.skip(i + 1));
            if m == 0 {
                out.append(to);
            }
            out.append(text.substring_char(i, i + 1));
            i = i + 1;
        }
        assert(out@ + replace_all(text@.skip(i as int), from@, to@) == replace_all(text@, from@, to@));
    }
    assert(text@.skip(i as int) =~= Seq::<char>::empty());
    if m == 0 {
        out.append(to);
    }
    assert(out@ =~= out@ + Seq::<char>::empty());
    out
}

/// The pieces of `text` between the occurrences of a non-empty separator.
pub fn split_text(text: &str, sep: &str) -> (r: Vec<String>)
    requires
        sep@.len() > 0,
    ensures
        r.deep_view() == split_on(text@, sep@),
{
    let n = text.unicode_len();
    let m = sep.unicode_len();
    let mut parts: Vec<String> = Vec::new();
    let mut cur = String::new();
    let mut i: usize = 0;
    assert(text@.skip(0) =~= text@);
    assert(parts.deep_view() + split_from(text@, sep@, cur@) =~= split_on(text@, sep@));
    while i < n
        invariant
            n == text@.len(),
            m == sep@.len(),
            m > 0,
            i <= n,
            parts.deep_view() + split_from(text@.skip(i as int), sep@, cur@) == split_on(text@, sep@),
        decreases n - i,
    {
        let ghost rest = text@.skip(i as int);
        let ghost before = parts.deep_view();
        if occurs_at(text, n, i, sep, m) {
            assert(rest.skip(m as int) =~= text@.skip(i + m));
            let ghost c = cur@;
            parts.push(cur);
            cur = String::new();
            assert(parts.deep_view() =~= before.push(c));
            assert(before.push(c) + split_from(rest.skip(m as int), sep@, Seq::empty())
                =~= before + (seq![c] + split_from(rest.skip(m as int), sep@, Seq::empty())));
            i = i + m;
        } else {
            assert(rest.skip(1) =~= text@.skip(i + 1));
            let ghost c = cur@;
            cur.append(text.substring_char(i, i + 1));
            assert(cur@ =~= c.push(rest[0]));
            i = i + 1;
        }
    }
    assert(text@.skip(i as int) =~= Seq::<char>::empty());
    let ghost before = parts.deep_view();
    parts.push(cur);
    assert(parts.deep_view() =~= before + split_from(Seq::empty(), sep@, cur@));
    parts
}

} // verus!
