//! The parsed document tree and its lookups.

use vstd::prelude::*;
use yaml_rust::Yaml;

verus! {

/// A parsed document node: a scalar, a sequence, or a mapping whose
/// entries keep the order in which they were written. A parsed mapping
/// holds each key once; lookups take the first entry whose key matches,
/// which on such a mapping is the only one.
#[derive(Debug)]
pub enum Node {
    Str(String),
    Int(i64),
    Bool(bool),
    Real(String),
    List(Vec<Node>),
    Table(Vec<(Node, Node)>),
    Alias(usize),
    Null,
}

/// Whether a mapping key is the text `k`.
pub open spec fn key_is(key: Node, k: Seq<char>) -> bool {
    match key {
        Node::Str(s) => s@ == k,
        _ => false,
    }
}

/// The value of the first entry at or after `i` whose key is the text `k`.
pub open spec fn entry_from(entries: Seq<(Node, Node)>, k: Seq<char>, i: int) -> Option<Node>
    decreases entries.len() - i,
{
    if i < 0 || i >= entries.len() {
        None
    } else if key_is(entries[i].0, k) {
        Some(entries[i].1)
    } else {
        entry_from(entries, k, i + 1)
    }
}

/// The value stored under the text key `k` in a mapping's entries.
pub open spec fn entry(entries: Seq<(Node, Node)>, k: Seq<char>) -> Option<Node> {
    entry_from(entries, k, 0)
}

/// The child under key `k`; nothing where the node is not a mapping.
pub open spec fn child(n: Node, k: Seq<char>) -> Option<Node> {
    match n {
        Node::Table(es) => entry(es@, k),
        _ => None,
    }
}

/// Whether two nodes are the same scalar; sequences and mappings never
/// match as lookup keys.
pub open spec fn same_scalar(a: Node, b: Node) -> bool {
    match (a, b) {
        (Node::Str(x), Node::Str(y)) => x@ == y@,
        (Node::Real(x), Node::Real(y)) => x@ == y@,
        (Node::Int(x), Node::Int(y)) => x == y,
        (Node::Bool(x), Node::Bool(y)) => x == y,
        (Node::Alias(x), Node::Alias(y)) => x == y,
        (Node::Null, Node::Null) => true,
        _ => false,
    }
}

/// The value of the first entry at or after `i` whose key is the scalar `key`.
pub open spec fn keyed_from(entries: Seq<(Node, Node)>, key: Node, i: int) -> Option<Node>
    decreases entries.len() - i,
{
    if i < 0 || i >= entries.len() {
        None
    } else if same_scalar(entries[i].0, key) {
        Some(entries[i].1)
    } else {
        keyed_from(entries, key, i + 1)
    }
}

/// The value stored under the scalar `key` in a mapping's entries.
pub open spec fn keyed(entries: Seq<(Node, Node)>, key: Node) -> Option<Node> {
    keyed_from(entries, key, 0)
}

/// The key node that a name stands for when it is read as a plain
/// document scalar (so `12` is an integer and `true` a boolean).
pub uninterp spec fn yaml_key(name: Seq<char>) -> Node;

/// Relies on yaml_rust::Yaml::from_str: the scalar a plain text reads as,
/// which the result depends on alone.
#[verifier::external_body]
fn key_node(name: &str) -> (r: Node)
    ensures
        r == yaml_key(name@),
{
    match Yaml::from_str(name) {
        Yaml::Real(s) => Node::Real(s),
        Yaml::Integer(i) => Node::Int(i),
        Yaml::String(s) => Node::Str(s),
        Yaml::Boolean(b) => Node::Bool(b),
        Yaml::Alias(a) => Node::Alias(a),
        _ => Node::Null,
    }
}

/// Whether two nodes are the same scalar.
pub fn same_scalar_node(a: &Node, b: &Node) -> (r: bool)
    ensures
        r == same_scalar(*a, *b),
{
    match (a, b) {
        (Node::Str(x), Node::Str(y)) => same_text(x.as_str(), y.as_str()),
        (Node::Real(x), Node::Real(y)) => same_text(x.as_str(), y.as_str()),
        (Node::Int(x), Node::Int(y)) => *x == *y,
        (Node::Bool(x), Node::Bool(y)) => *x == *y,
        (Node::Alias(x), Node::Alias(y)) => *x == *y,
        (Node::Null, Node::Null) => true,
        _ => false,
    }
}

/// Looks up the name `k`, read as a document scalar, among a mapping's entries.
pub fn table_lookup<'a>(entries: &'a Vec<(Node, Node)>, k: &str) -> (r: Option<&'a Node>)
    ensures
        opt_ref_view(r) == keyed(entries@, yaml_key(k@)),
{
    let key = key_node(k);
    let mut i: usize = 0;
    while i < entries.len()
        invariant
            i <= entries.len(),
            key == yaml_key(k@),
            keyed(entries@, key) == keyed_from(entries@, key, i as int),
        decreases entries.len() - i,
    {
        if same_scalar_node(&entries[i].0, &key) {
            return Some(&entries[i].1);
        }
        i = i + 1;
    }
    None
}

/// A text key is looked up alike by both kinds of lookup.
pub proof fn lemma_keyed_text(entries: Seq<(Node, Node)>, key: Node, k: Seq<char>, i: int)
    requires
        key matches Node::Str(t) && t@ == k,
    ensures
        keyed_from(entries, key, i) == entry_from(entries, k, i),
    decreases entries.len() - i,
{
    if 0 <= i < entries.len() {
        lemma_keyed_text(entries, key, k, i + 1);
    }
}

pub open spec fn opt_ref_view(r: Option<&Node>) -> Option<Node> {
    match r {
        Some(x) => Some(*x),
        None => None,
    }
}

/// Looks up the text key `k` among a mapping's entries.
pub fn table_get<'a>(entries: &'a Vec<(Node, Node)>, k: &str) -> (r: Option<&'a Node>)
    ensures
        opt_ref_view(r) == entry(entries@, k@),
{
    let mut i: usize = 0;
    while i < entries.len()
        invariant
            i <= entries.len(),
            entry(entries@, k@) == entry_from(entries@, k@, i as int),
        decreases entries.len() - i,
    {
        let hit = match &entries[i].0 {
            Node::Str(s) => same_text(s.as_str(), k),
            _ => false,
        };
        if hit {
            return Some(&entries[i].1);
        }
        i = i + 1;
    }
    None
}

/// Looks up the text key `k` in `n` where `n` is a mapping.
pub fn child_of<'a>(n: &'a Node, k: &str) -> (r: Option<&'a Node>)
    ensures
        opt_ref_view(r) == child(*n, k@),
{
    match n {
        Node::Table(es) => table_get(es, k),
        _ => None,
    }
}

/// Whether two texts are equal, character by character.
pub fn same_text(a: &str, b: &str) -> (r: bool)
    ensures
        r == (a@ == b@),
{
    let n = a.unicode_len();
    if n != b.unicode_len() {
        return false;
    }
    let mut i: usize = 0;
    while i < n
        invariant
            n == a@.len(),
            n == b@.len(),
            i <= n,
            forall|j: int| 0 <= j < i ==> a@[j] == b@[j],
        decreases n - i,
    {
        if a.get_char(i) != b.get_char(i) {
            return false;
        }
        i = i + 1;
    }
    assert(a@ =~= b@);
    true
}

pub open spec fn is_digit(c: char) -> bool {
    '0' <= c && c <= '9'
}

/// The number written by a run of decimal digits.
pub open spec fn digits_value(s: Seq<char>) -> nat
    decreases s.len(),
{
    if s.len() == 0 {
        0
    } else {
        digits_value(s.drop_last()) * 10 + (s.last() as nat - '0' as nat) as nat
    }
}

/// The index a path segment denotes: one or more decimal digits, with an
/// optional leading `+`, whose value fits in a `usize`.
pub open spec fn index_of_text(s: Seq<char>) -> Option<nat> {
    let d = unsigned_part(s);
    if d.len() > 0 && all_digits(d) && digits_value(d) <= usize::MAX {
        Some(digits_value(d))
    } else {
        None
    }
}

/// A text without its leading `+`, if it has one.
pub open spec fn unsigned_part(s: Seq<char>) -> Seq<char> {
    if s.len() > 0 && s[0] == '+' { s.skip(1) } else { s }
}

pub open spec fn all_digits(d: Seq<char>) -> bool {
    forall|i: int| 0 <= i < d.len() ==> is_digit(d[i])
}

/// Reads a path segment as a sequence index.
pub fn parse_index(s: &str) -> (r: Option<usize>)
    ensures
        match r {
            Some(v) => index_of_text(s@) == Some(v as nat),
            None => index_of_text(s@) is None,
        },
{
    let n = s.unicode_len();
    let start: usize = if n > 0 && s.get_char(0) == '+' { 1 } else { 0 };
    let ghost d = unsigned_part(s@);
    assert(d =~= s@.skip(start as int));
    if start >= n {
        return None;
    }
    let mut v: usize = 0;
    let mut i: usize = start;
    while i < n
        invariant
            n == s@.len(),
            start <= i <= n,
            d == s@.skip(start as int),
            d == unsigned_part(s@),
            forall|j: int| start <= j < i ==> is_digit(s@[j]),
            v as nat == digits_value(s@.subrange(start as int, i as int)),
        decreases n - i,
    {
        let c = s.get_char(i);
        if !('0' <= c && c <= '9') {
            assert(d[i - start] == s@[i as int]);
            assert(!is_digit(d[i - start]));
            return None;
        }
        let ghost pre = s@.subrange(start as int, i as int);
        assert(s@.subrange(start as int, i + 1).drop_last() =~= pre);
        let digit = (c as u32 - '0' as u32) as usize;
        if v > (usize::MAX - digit) / 10 {
            assert(digits_value(d) >= digits_value(s@.subrange(start as int, i + 1))) by {
                lemma_digits_prefix(d, (i + 1 - start) as int);
                assert(d.subrange(0, (i + 1 - start) as int) =~= s@.subrange(start as int, i + 1));
            }
            assert(v * 10 + digit > usize::MAX) by (nonlinear_arith)
                requires v > (usize::MAX - digit) / 10, digit <= 9;
            assert(digits_value(s@.subrange(start as int, i + 1)) == v * 10 + digit);
            return None;
        }
        v = v * 10 + digit;
        i = i + 1;
    }
    assert(s@.subrange(start as int, n as int) =~= d);
    Some(v)
}

proof fn lemma_digits_prefix(d: Seq<char>, k: int)
    requires
        0 <= k <= d.len(),
    ensures
        digits_value(d) >= digits_value(d.subrange(0, k)),
    decreases d.len(),
{
    if k < d.len() {
        assert(d.drop_last().subrange(0, k) =~= d.subrange(0, k));
        lemma_digits_prefix(d.drop_last(), k);
    } else {
        assert(d.subrange(0, k) =~= d);
    }
}

} // verus!
