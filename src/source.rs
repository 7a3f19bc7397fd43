//! Locating the declaration list and reading its declarations.

use vstd::prelude::*;
use crate::error::{ResolveError, build_invalid_data_error_str, build_invalid_data_error_string, error_with, entries_view};
use crate::node::{Node, child, child_of, keyed, table_lookup, yaml_key, index_of_text, parse_index};
use crate::pairs::Entries;
use crate::resolver::str_of;
use crate::text::{replace_all, replace_text, split_on, split_text};

verus! {

pub open spec fn not_found(seg: Seq<char>) -> Seq<char> {
    seg + " source parameter not found in the env file"@
}

/// The node that one path segment leads to from `n`: a segment that reads
/// as an index selects an element of a sequence, any other segment a key
/// of a mapping. A missing or null result is an error naming the segment.
pub open spec fn step(n: Node, seg: Seq<char>) -> Result<Node, Seq<char>> {
    let next = match index_of_text(seg) {
        Some(i) => match n {
            Node::List(v) => if i < v@.len() { Ok(v@[i as int]) } else { Err(not_found(seg)) },
            _ => Err("expected vector yaml element for "@ + seg + " source parameter"@),
        },
        None => match child(n, seg) {
            Some(c) => Ok(c),
            None => Err(not_found(seg)),
        },
    };
    match next {
        Ok(Node::Null) => Err(not_found(seg)),
        other => other,
    }
}

/// The node reached from `n` by the segments from position `i` on.
pub open spec fn locate_from(n: Node, segs: Seq<Seq<char>>, i: int) -> Result<Node, Seq<char>>
    decreases segs.len() - i,
{
    if i < 0 || i >= segs.len() {
        Ok(n)
    } else {
        match step(n, segs[i]) {
            Ok(c) => locate_from(c, segs, i + 1),
            Err(e) => Err(e),
        }
    }
}

/// The node that a dotted path leads to from the document root.
pub open spec fn locate(doc: Node, path: Seq<char>) -> Result<Node, Seq<char>> {
    locate_from(doc, split_on(path, "."@), 0)
}

/// Follows the dotted path `source` from `doc`.
pub fn find_source_doc<'a>(doc: &'a Node, source: &String) -> (r: Result<&'a Node, ResolveError>)
    ensures
        match r {
            Ok(n) => locate(*doc, source@) == Ok::<Node, Seq<char>>(*n),
            Err(e) => locate(*doc, source@) == Err::<Node, Seq<char>>(e.message@),
        },
{
    proof {
        reveal_strlit(".");
    }
    let parts = split_text(source.as_str(), ".");
    let ghost segs = split_on(source@, "."@);
    let mut source_doc = doc;
    let mut k: usize = 0;
    while k < parts.len()
        invariant
            segs == parts.deep_view(),
            k <= parts.len(),
            locate(*doc, source@) == locate_from(*source_doc, segs, k as int),
        decreases parts.len() - k,
    {
        let part = parts[k].as_str();
        assert(part@ == segs[k as int]);
        let next = match parse_index(part) {
            Some(idx) => match source_doc {
                Node::List(v) => if idx < v.len() { Some(&v[idx]) } else { None },
                _ => {
                    return Err(error_with("expected vector yaml element for ", part, " source parameter"));
                },
            },
            None => child_of(source_doc, part),
        };
        match next {
            Some(Node::Null) | None => {
                let msg = String::from_str(part).concat(" source parameter not found in the env file");
                return Err(build_invalid_data_error_string(msg));
            },
            Some(n) => { source_doc = n; },
        }
        k = k + 1;
    }
    Ok(source_doc)
}

/// The procedure reference in a `${Ref.Value}` text: every `${` and every
/// `.Value}` removed, wherever they stand.
pub open spec fn reference_of(v: Seq<char>) -> Seq<char> {
    replace_all(replace_all(v, "${"@, Seq::empty()), ".Value}"@, Seq::empty())
}

/// One declaration `{Name, Value}`: its output name and procedure reference.
pub open spec fn declaration(n: Node) -> Result<(Seq<char>, Seq<char>), Seq<char>> {
    match n {
        Node::Table(es) => match (keyed(es@, yaml_key("Name"@)), keyed(es@, yaml_key("Value"@))) {
            (None, _) => Err("Variable name is absent"@),
            (Some(_), None) => Err("Variable value is absent"@),
            (Some(nm), Some(v)) => match (str_of(nm), str_of(v)) {
                (None, _) => Err("Variable name should be a string"@),
                (Some(_), None) => Err("Variable value should be a string"@),
                (Some(a), Some(b)) => Ok((a, reference_of(b))),
            },
        },
        _ => Err("Variable should be a hash"@),
    }
}

/// The first `k` declarations, in order; the first malformed one is the result.
pub open spec fn declarations(items: Seq<Node>, k: int) -> Result<Entries, Seq<char>>
    decreases k,
{
    if k <= 0 {
        Ok(Seq::empty())
    } else {
        match declarations(items, k - 1) {
            Err(e) => Err(e),
            Ok(ds) => match declaration(items[k - 1]) {
                Ok(d) => Ok(ds.push(d)),
                Err(e) => Err(e),
            },
        }
    }
}

/// The declaration list that a located source node holds.
pub open spec fn var_list(n: Node) -> Result<Entries, Seq<char>> {
    match n {
        Node::List(items) => declarations(items@, items@.len() as int),
        _ => Err("Source parameter should be a vector"@),
    }
}

proof fn lemma_declarations_err_stays(items: Seq<Node>, k: int, k2: int)
    requires
        0 < k <= k2,
        declarations(items, k) is Err,
    ensures
        declarations(items, k2) == declarations(items, k),
    decreases k2 - k,
{
    if k < k2 {
        lemma_declarations_err_stays(items, k, k2 - 1);
    }
}

/// Reads the `(output name, procedure reference)` pairs of a declaration list.
pub fn build_var_list(source_doc: &Node) -> (r: Result<Vec<(String, String)>, ResolveError>)
    ensures
        entries_view(r) == var_list(*source_doc),
{
    let vars = match source_doc {
        Node::List(v) => v,
        _ => { return Err(build_invalid_data_error_str("Source parameter should be a vector")); },
    };
    let mut result: Vec<(String, String)> = Vec::new();
    assert(result.deep_view() =~= Seq::<(Seq<char>, Seq<char>)>::empty());
    let mut i: usize = 0;
    while i < vars.len()
        invariant
            i <= vars.len(),
            declarations(vars@, i as int) == Ok::<Entries, Seq<char>>(result.deep_view()),
            var_list(*source_doc) == declarations(vars@, vars@.len() as int),
        decreases vars.len() - i,
    {
        proof {
            reveal_strlit("");
            assert(""@ =~= Seq::<char>::empty());
        }
        let d = match &vars[i] {
            Node::Table(h) => {
                let name_node = table_lookup(h, "Name");
                let value_node = table_lookup(h, "Value");
                match (name_node, value_node) {
                    (None, _) => Err(build_invalid_data_error_str("Variable name is absent")),
                    (Some(_), None) => Err(build_invalid_data_error_str("Variable value is absent")),
                    (Some(Node::Str(a)), Some(Node::Str(b))) => {
                        let stripped = replace_text(b.as_str(), "${", "");
                        Ok((a.clone(), replace_text(stripped.as_str(), ".Value}", "")))
                    },
                    (Some(Node::Str(_)), Some(_)) => Err(build_invalid_data_error_str("Variable value should be a string")),
                    (Some(_), Some(_)) => Err(build_invalid_data_error_str("Variable name should be a string")),
                }
            },
            _ => Err(build_invalid_data_error_str("Variable should be a hash")),
        };
        match d {
            Ok(p) => {
                let ghost before = result.deep_view();
                result.push(p);
                assert(result.deep_view() =~= before.push((p.0@, p.1@)));
            },
            Err(e) => {
                proof { lemma_declarations_err_stays(vars@, i + 1, vars@.len() as int); }
                return Err(e);
            },
        }
        i = i + 1;
    }
    Ok(result)
}

} // verus!
