//! Ordered name → text mappings kept as lists of pairs.

use vstd::prelude::*;

verus! {

/// The model of an ordered name → text mapping: its entries in order.
pub type Entries = Seq<(Seq<char>, Seq<char>)>;

/// Position of the first entry at or after `i` whose name is `k`.
pub open spec fn find_from(s: Entries, k: Seq<char>, i: int) -> Option<int>
    decreases s.len() - i,
{
    if i < 0 || i >= s.len() {
        None
    } else if s[i].0 == k {
        Some(i)
    } else {
        find_from(s, k, i + 1)
    }
}

pub open spec fn find_key(s: Entries, k: Seq<char>) -> Option<int> {
    find_from(s, k, 0)
}

/// The text stored under `k`, if any.
pub open spec fn lookup(s: Entries, k: Seq<char>) -> Option<Seq<char>> {
    match find_key(s, k) {
        Some(i) => Some(s[i].1),
        None => None,
    }
}

/// Storing `v` under `k`: an existing entry keeps its place and takes the
/// new text; otherwise the entry is added at the end.
pub open spec fn put(s: Entries, k: Seq<char>, v: Seq<char>) -> Entries {
    match find_key(s, k) {
        Some(i) => s.update(i, (k, v)),
        None => s.push((k, v)),
    }
}

pub proof fn lemma_find_from_bounds(s: Entries, k: Seq<char>, i: int)
    requires
        0 <= i,
    ensures
        find_from(s, k, i) matches Some(j) ==> i <= j < s.len() && s[j].0 == k,
        find_from(s, k, i) is None ==> forall|j: int| i <= j < s.len() ==> s[j].0 != k,
    decreases s.len() - i,
{
    if i >= 0 && i < s.len() && s[i].0 != k {
        lemma_find_from_bounds(s, k, i + 1);
    }
}

proof fn lemma_find_from_same_keys(s: Entries, s2: Entries, k: Seq<char>, i: int)
    requires
        0 <= i,
        s.len() == s2.len(),
        forall|j: int| 0 <= j < s.len() ==> s[j].0 == s2[j].0,
    ensures
        find_from(s, k, i) == find_from(s2, k, i),
    decreases s.len() - i,
{
    if i < s.len() {
        lemma_find_from_same_keys(s, s2, k, i + 1);
    }
}

proof fn lemma_find_from_push(s: Entries, e: (Seq<char>, Seq<char>), k: Seq<char>, i: int)
    requires
        0 <= i <= s.len(),
    ensures
        find_from(s.push(e), k, i) == match find_from(s, k, i) {
            Some(j) => Some(j),
            None => if e.0 == k { Some(s.len() as int) } else { None },
        },
    decreases s.len() - i,
{
    let s2 = s.push(e);
    if i < s.len() {
        assert(s2[i] == s[i]);
        lemma_find_from_push(s, e, k, i + 1);
    } else {
        assert(s2[i] == e);
        assert(find_from(s2, k, i + 1) is None);
    }
}

/// After storing `v` under `k`, `k` gives `v` and every other name gives
/// what it gave before.
pub proof fn lemma_lookup_put(s: Entries, k: Seq<char>, v: Seq<char>, k2: Seq<char>)
    ensures
        lookup(put(s, k, v), k2) == if k2 == k { Some(v) } else { lookup(s, k2) },
{
    lemma_find_from_bounds(s, k, 0);
    lemma_find_from_bounds(s, k2, 0);
    match find_key(s, k) {
        Some(i) => {
            let s2 = s.update(i, (k, v));
            lemma_find_from_same_keys(s, s2, k2, 0);
            lemma_find_from_bounds(s2, k2, 0);
        },
        None => {
            lemma_find_from_push(s, (k, v), k2, 0);
        },
    }
}

/// Position of the first entry named `k`.
pub fn key_index(m: &Vec<(String, String)>, k: &String) -> (r: Option<usize>)
    ensures
        match r {
            Some(i) => find_key(m.deep_view(), k@) == Some(i as int),
            None => find_key(m.deep_view(), k@) is None,
        },
{
    let ghost s = m.deep_view();
    let mut i: usize = 0;
    while i < m.len()
        invariant
            s == m.deep_view(),
            i <= m.len(),
            find_key(s, k@) == find_from(s, k@, i as int),
        decreases m.len() - i,
    {
        assert(s[i as int].0 == m@[i as int].0@);
        if m[i].0.eq(k) {
            return Some(i);
        }
        i = i + 1;
    }
    None
}

/// The text stored under `k`.
pub fn get_value<'a>(m: &'a Vec<(String, String)>, k: &String) -> (r: Option<&'a String>)
    ensures
        match r {
            Some(v) => lookup(m.deep_view(), k@) == Some(v@),
            None => lookup(m.deep_view(), k@) is None,
        },
{
    match key_index(m, k) {
        Some(i) => {
            proof { lemma_find_from_bounds(m.deep_view(), k@, 0); }
            Some(&m[i].1)
        },
        None => None,
    }
}

/// Stores `v` under `k`, keeping the place of an entry already named `k`.
pub fn put_value(m: &mut Vec<(String, String)>, k: String, v: String)
    ensures
        final(m).deep_view() == put(old(m).deep_view(), k@, v@),
{
    match key_index(m, &k) {
        Some(i) => {
            proof { lemma_find_from_bounds(m.deep_view(), k@, 0); }
            m.set(i, (k, v));
            assert(m.deep_view() =~= put(old(m).deep_view(), k@, v@));
        },
        None => {
            m.push((k, v));
            assert(m.deep_view() =~= put(old(m).deep_view(), k@, v@));
        },
    }
}

} // verus!
