//! Replace rules and two-pass placeholder substitution.

use vstd::prelude::*;
use crate::error::{ResolveError, build_invalid_data_error_str, entries_view};
use crate::pairs::{Entries, put, put_value};
use crate::text::{replace_all, replace_text, split_on, split_text};

verus! {

/// The rules named by the first `2 * k` pieces of a rule string, taken
/// two by two; a later rule for the same pattern takes the earlier one's place.
pub open spec fn rules_upto(parts: Seq<Seq<char>>, k: int) -> Entries
    decreases k,
{
    if k <= 0 {
        Seq::empty()
    } else {
        put(rules_upto(parts, k - 1), parts[2 * k - 2], parts[2 * k - 1])
    }
}

/// The rule set that a rule string stands for, or the error it gives.
pub open spec fn rules_of(text: Option<Seq<char>>) -> Result<Entries, Seq<char>> {
    match text {
        None => Ok(Seq::empty()),
        Some(t) => if t.len() == 0 {
            Ok(Seq::empty())
        } else if split_on(t, "->"@).len() % 2 != 0 {
            Err("invalid replaces parameter"@)
        } else {
            Ok(rules_upto(split_on(t, "->"@), split_on(t, "->"@).len() as int / 2))
        },
    }
}

/// Parses a rule string: patterns and replacements alternate, joined by `->`.
pub fn build_replaces(replaces_option: Option<&String>) -> (r: Result<Vec<(String, String)>, ResolveError>)
    ensures
        entries_view(r) == rules_of(
            match replaces_option {
                Some(t) => Some(t@),
                None => None,
            },
        ),
{
    let mut result: Vec<(String, String)> = Vec::new();
    assert(result.deep_view() =~= Seq::<(Seq<char>, Seq<char>)>::empty());
    if let Some(replaces) = replaces_option {
        if replaces.unicode_len() > 0 {
            proof {
                reveal_strlit("->");
            }
            let parts = split_text(replaces.as_str(), "->");
            let l = parts.len();
            if l % 2 != 0 {
                return Err(build_invalid_data_error_str("invalid replaces parameter"));
            }
            let ghost ps = parts.deep_view();
            let mut k: usize = 0;
            while k < l / 2
                invariant
                    ps == parts.deep_view(),
                    l == parts.len(),
                    l % 2 == 0,
                    k <= l / 2,
                    result.deep_view() == rules_upto(ps, k as int),
                decreases l / 2 - k,
            {
                let from = parts[2 * k].clone();
                let to = parts[2 * k + 1].clone();
                put_value(&mut result, from, to);
                k = k + 1;
            }
        }
    }
    Ok(result)
}

/// `s` after the first `n` rules, applied in order, each to the whole
/// output of the ones before.
pub open spec fn apply_rules(s: Seq<char>, rules: Entries, n: int) -> Seq<char>
    decreases n,
{
    if n <= 0 {
        s
    } else {
        replace_all(apply_rules(s, rules, n - 1), rules[n - 1].0, rules[n - 1].1)
    }
}

/// Applies every rule, in order, to `text`.
pub fn apply_replaces(text: &String, replaces: &Vec<(String, String)>) -> (r: String)
    ensures
        r@ == apply_rules(text@, replaces.deep_view(), replaces@.len() as int),
{
    let mut result = text.clone();
    let mut k: usize = 0;
    while k < replaces.len()
        invariant
            k <= replaces.len(),
            result@ == apply_rules(text@, replaces.deep_view(), k as int),
        decreases replaces.len() - k,
    {
        result = replace_text(result.as_str(), replaces[k].0.as_str(), replaces[k].1.as_str());
        k = k + 1;
    }
    result
}

/// The placeholder that stands for `name` in a template.
pub open spec fn placeholder(name: Seq<char>) -> Seq<char> {
    "${"@ + name + "}"@
}

/// `s` with the placeholders of the first `n` entries replaced, one entry
/// after the other, by their texts.
pub open spec fn fill(s: Seq<char>, vars: Entries, n: int) -> Seq<char>
    decreases n,
{
    if n <= 0 {
        s
    } else {
        replace_all(fill(s, vars, n - 1), placeholder(vars[n - 1].0), vars[n - 1].1)
    }
}

/// Two passes over the template: the input variables first, then the
/// runtime parameters, each pass rescanning the whole text.
pub open spec fn substitute(text: Seq<char>, variables: Entries, parameters: Entries) -> Seq<char> {
    fill(fill(text, variables, variables.len() as int), parameters, parameters.len() as int)
}

fn fill_pass(text: String, vars: &Vec<(String, String)>) -> (r: String)
    ensures
        r@ == fill(text@, vars.deep_view(), vars@.len() as int),
{
    let mut result = text;
    let ghost t = result@;
    let mut k: usize = 0;
    while k < vars.len()
        invariant
            k <= vars.len(),
            result@ == fill(t, vars.deep_view(), k as int),
        decreases vars.len() - k,
    {
        let key = String::from_str("${").concat(vars[k].0.as_str()).concat("}");
        result = replace_text(result.as_str(), key.as_str(), vars[k].1.as_str());
        k = k + 1;
    }
    result
}

/// Fills a procedure's template from its resolved input variables and then
/// from the runtime parameters.
pub fn replace(text: String, variables: Vec<(String, String)>, parameters: &Vec<(String, String)>) -> (r: Result<String, ResolveError>)
    ensures
        r matches Ok(s) && s@ == substitute(text@, variables.deep_view(), parameters.deep_view()),
{
    let first = fill_pass(text, &variables);
    Ok(fill_pass(first, parameters))
}

} // verus!
