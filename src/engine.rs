//! Resolution of a whole declaration list into named values.

use vstd::prelude::*;
use crate::error::{ResolveError, build_invalid_data_error_str, entries_view, text_view};
use crate::node::{Node, child, child_of, entry, keyed, yaml_key, lemma_keyed_text};
use crate::pairs::{Entries, lookup, get_value, put, put_value, lemma_lookup_put};
use crate::resolver::{procedure, get_procedure};
use crate::source::{locate, var_list, find_source_doc, build_var_list};
use crate::utilities::{apply_rules, apply_replaces, substitute, replace, rules_of, build_replaces};

verus! {

/// Input variables with every replace rule applied to their values.
pub open spec fn with_rules(vars: Entries, rules: Entries) -> Entries {
    Seq::new(vars.len(), |i: int| (vars[i].0, apply_rules(vars[i].1, rules, rules.len() as int)))
}

/// The value of one declaration: the runtime parameter named like its
/// output, where there is one; otherwise its procedure's template filled in.
pub open spec fn declared_value(name: Seq<char>, pref: Seq<char>, resources: Seq<(Node, Node)>, mappings: Seq<(Node, Node)>, params: Entries, rules: Entries) -> Result<Seq<char>, Seq<char>> {
    match lookup(params, name) {
        Some(v) => Ok(v),
        None => match procedure(pref, resources, mappings, params) {
            Ok((t, vars)) => Ok(substitute(t, with_rules(vars, rules), params)),
            Err(e) => Err(e),
        },
    }
}

/// The resolved set after the first `k` declarations; the first failure
/// is the result.
pub open spec fn resolve_decls(decls: Entries, resources: Seq<(Node, Node)>, mappings: Seq<(Node, Node)>, params: Entries, rules: Entries, k: int) -> Result<Entries, Seq<char>>
    decreases k,
{
    if k <= 0 {
        Ok(Seq::empty())
    } else {
        match resolve_decls(decls, resources, mappings, params, rules, k - 1) {
            Err(e) => Err(e),
            Ok(out) => match declared_value(decls[k - 1].0, decls[k - 1].1, resources, mappings, params, rules) {
                Ok(v) => Ok(put(out, decls[k - 1].0, v)),
                Err(e) => Err(e),
            },
        }
    }
}

/// The resolved set for a document, the runtime parameters, the replace
/// rules and the dotted path of the declaration list.
pub open spec fn resolve_env(doc: Node, params: Entries, rules: Entries, source: Seq<char>) -> Result<Entries, Seq<char>> {
    match child(doc, "Resources"@) {
        Some(Node::Table(r)) => match child(doc, "Mappings"@) {
            Some(Node::Table(m)) => match locate(doc, source) {
                Ok(sd) => match var_list(sd) {
                    Ok(ds) => resolve_decls(ds, r@, m@, params, rules, ds.len() as int),
                    Err(e) => Err(e),
                },
                Err(e) => Err(e),
            },
            _ => Err("No mappings found"@),
        },
        _ => Err("No resources found"@),
    }
}

/// Resolves one declaration.
pub fn resolve_declaration(name: &String, procedure_name: &String, resources: &Vec<(Node, Node)>, mappings: &Vec<(Node, Node)>, parameters: &Vec<(String, String)>, replaces: &Vec<(String, String)>) -> (r: Result<String, ResolveError>)
    ensures
        text_view(r) == declared_value(name@, procedure_name@, resources@, mappings@, parameters.deep_view(), replaces.deep_view()),
{
    if let Some(v) = get_value(parameters, name) {
        return Ok(v.clone());
    }
    let (text, variables) = match get_procedure(procedure_name.clone(), resources, mappings, parameters) {
        Ok(p) => p,
        Err(e) => { return Err(e); },
    };
    let ghost rules = replaces.deep_view();
    let mut final_variables: Vec<(String, String)> = Vec::new();
    let mut i: usize = 0;
    while i < variables.len()
        invariant
            i <= variables.len(),
            rules == replaces.deep_view(),
            final_variables.deep_view() =~= with_rules(variables.deep_view(), rules).take(i as int),
        decreases variables.len() - i,
    {
        let v = apply_replaces(&variables[i].1, replaces);
        let ghost before = final_variables.deep_view();
        final_variables.push((variables[i].0.clone(), v));
        assert(replaces.deep_view().len() == replaces@.len());
        assert(final_variables.deep_view() =~= before.push((variables[i as int].0@, v@)));
        i = i + 1;
    }
    assert(final_variables.deep_view() =~= with_rules(variables.deep_view(), rules));
    match replace(text, final_variables, parameters) {
        Ok(s) => Ok(s),
        Err(e) => Err(e),
    }
}

proof fn lemma_resolve_err_stays(decls: Entries, resources: Seq<(Node, Node)>, mappings: Seq<(Node, Node)>, params: Entries, rules: Entries, k: int, k2: int)
    requires
        0 < k <= k2,
        resolve_decls(decls, resources, mappings, params, rules, k) is Err,
    ensures
        resolve_decls(decls, resources, mappings, params, rules, k2) == resolve_decls(decls, resources, mappings, params, rules, k),
    decreases k2 - k,
{
    if k < k2 {
        lemma_resolve_err_stays(decls, resources, mappings, params, rules, k, k2 - 1);
    }
}

/// Resolves every declaration of the list that `source` locates in `doc`.
pub fn resolve_env_vars(doc: &Node, parameters: &Vec<(String, String)>, replaces: &Vec<(String, String)>, source: &String) -> (r: Result<Vec<(String, String)>, ResolveError>)
    ensures
        entries_view(r) == resolve_env(*doc, parameters.deep_view(), replaces.deep_view(), source@),
{
    let resources = match child_of(doc, "Resources") {
        Some(Node::Table(r)) => r,
        _ => { return Err(build_invalid_data_error_str("No resources found")); },
    };
    let mappings = match child_of(doc, "Mappings") {
        Some(Node::Table(m)) => m,
        _ => { return Err(build_invalid_data_error_str("No mappings found")); },
    };
    let source_doc = match find_source_doc(doc, source) {
        Ok(n) => n,
        Err(e) => { return Err(e); },
    };
    let var_list = match build_var_list(source_doc) {
        Ok(l) => l,
        Err(e) => { return Err(e); },
    };
    let ghost params = parameters.deep_view();
    let ghost rules = replaces.deep_view();
    let ghost decls = var_list.deep_view();
    let ghost whole = resolve_env(*doc, params, rules, source@);
    assert(whole == resolve_decls(decls, resources@, mappings@, params, rules, decls.len() as int));
    let mut env_vars: Vec<(String, String)> = Vec::new();
    assert(env_vars.deep_view() =~= Seq::<(Seq<char>, Seq<char>)>::empty());
    let mut i: usize = 0;
    while i < var_list.len()
        invariant
            i <= var_list.len(),
            params == parameters.deep_view(),
            rules == replaces.deep_view(),
            decls == var_list.deep_view(),
            whole == resolve_env(*doc, params, rules, source@),
            whole == resolve_decls(decls, resources@, mappings@, params, rules, decls.len() as int),
            resolve_decls(decls, resources@, mappings@, params, rules, i as int) == Ok::<Entries, Seq<char>>(env_vars.deep_view()),
        decreases var_list.len() - i,
    {
        let name = &var_list[i].0;
        match resolve_declaration(name, &var_list[i].1, resources, mappings, parameters, replaces) {
            Ok(v) => { put_value(&mut env_vars, name.clone(), v); },
            Err(e) => {
                proof { lemma_resolve_err_stays(decls, resources@, mappings@, params, rules, i + 1, decls.len() as int); }
                return Err(e);
            },
        }
        i = i + 1;
    }
    Ok(env_vars)
}

/// The declaration list's path and the replace rules that the runtime
/// parameters give, or the error they give.
pub open spec fn settings(params: Entries) -> Result<(Seq<char>, Entries), Seq<char>> {
    match lookup(params, "source"@) {
        None => Err("Source parameter is absent in the env file"@),
        Some(src) => match rules_of(lookup(params, "replace"@)) {
            Ok(rules) => Ok((src, rules)),
            Err(e) => Err(e),
        },
    }
}

pub open spec fn settings_result(r: Result<(String, Vec<(String, String)>), ResolveError>) -> Result<(Seq<char>, Entries), Seq<char>> {
    match r {
        Ok((s, v)) => Ok((s@, v.deep_view())),
        Err(e) => Err(e.message@),
    }
}

/// Reads the `source` path and the `replace` rules from the runtime parameters.
pub fn read_settings(parameters: &Vec<(String, String)>) -> (r: Result<(String, Vec<(String, String)>), ResolveError>)
    ensures
        settings_result(r) == settings(parameters.deep_view()),
{
    let source = match get_value(parameters, &String::from_str("source")) {
        Some(s) => s.clone(),
        None => { return Err(build_invalid_data_error_str("Source parameter is absent in the env file")); },
    };
    match build_replaces(get_value(parameters, &String::from_str("replace"))) {
        Ok(rules) => Ok((source, rules)),
        Err(e) => Err(e),
    }
}

/// `s` with the first `k` entries of `extra` stored into it in turn.
pub open spec fn put_all(s: Entries, extra: Entries, k: int) -> Entries
    decreases k,
{
    if k <= 0 {
        s
    } else {
        put(put_all(s, extra, k - 1), extra[k - 1].0, extra[k - 1].1)
    }
}

/// Stores every entry of `extra` into `env_vars`; on a shared name the
/// entry of `extra` wins.
pub fn merge_values(env_vars: &mut Vec<(String, String)>, extra: &Vec<(String, String)>)
    ensures
        final(env_vars).deep_view() == put_all(old(env_vars).deep_view(), extra.deep_view(), extra@.len() as int),
{
    let ghost start = env_vars.deep_view();
    let mut i: usize = 0;
    while i < extra.len()
        invariant
            i <= extra.len(),
            start == old(env_vars).deep_view(),
            env_vars.deep_view() == put_all(start, extra.deep_view(), i as int),
        decreases extra.len() - i,
    {
        put_value(env_vars, extra[i].0.clone(), extra[i].1.clone());
        i = i + 1;
    }
}

/// A declaration whose output name is a runtime parameter takes exactly
/// that parameter's value, whatever procedure it refers to and whatever
/// the resources and mappings hold.
pub proof fn law_parameter_overrides(name: Seq<char>, pref: Seq<char>, resources: Seq<(Node, Node)>, mappings: Seq<(Node, Node)>, params: Entries, rules: Entries)
    requires
        lookup(params, name) is Some,
    ensures
        declared_value(name, pref, resources, mappings, params, rules) == Ok::<Seq<char>, Seq<char>>(lookup(params, name)->0),
{
}

/// In a resolved set, every declared output name that is a runtime
/// parameter holds that parameter's value.
pub proof fn law_overrides_in_resolved_set(decls: Entries, resources: Seq<(Node, Node)>, mappings: Seq<(Node, Node)>, params: Entries, rules: Entries, k: int)
    requires
        0 <= k <= decls.len(),
        resolve_decls(decls, resources, mappings, params, rules, k) is Ok,
    ensures
        forall|i: int| 0 <= i < k && (#[trigger] lookup(params, decls[i].0)) is Some ==>
            lookup(resolve_decls(decls, resources, mappings, params, rules, k)->Ok_0, decls[i].0) == lookup(params, decls[i].0),
    decreases k,
{
    if k > 0 {
        law_overrides_in_resolved_set(decls, resources, mappings, params, rules, k - 1);
        let prev = resolve_decls(decls, resources, mappings, params, rules, k - 1)->Ok_0;
        let last = decls[k - 1];
        let v = declared_value(last.0, last.1, resources, mappings, params, rules)->Ok_0;
        assert forall|i: int| 0 <= i < k && (#[trigger] lookup(params, decls[i].0)) is Some implies
            lookup(resolve_decls(decls, resources, mappings, params, rules, k)->Ok_0, decls[i].0) == lookup(params, decls[i].0) by {
            lemma_lookup_put(prev, last.0, v, decls[i].0);
        }
    }
}

/// A declaration that no runtime parameter overrides and whose procedure
/// is not among the resources fails with an error naming that procedure.
pub proof fn law_missing_procedure(name: Seq<char>, pref: Seq<char>, resources: Seq<(Node, Node)>, mappings: Seq<(Node, Node)>, params: Entries, rules: Entries)
    requires
        lookup(params, name) is None,
        keyed(resources, yaml_key(pref)) is None,
    ensures
        procedure(pref, resources, mappings, params) == Err::<(Seq<char>, Entries), Seq<char>>("Procedure "@ + pref + " not found"@),
        declared_value(name, pref, resources, mappings, params, rules) == Err::<Seq<char>, Seq<char>>("Procedure "@ + pref + " not found"@),
{
}

/// A declaration that no runtime parameter overrides, whose procedure
/// reference reads as text and is no text key of the resources, fails with
/// an error naming that procedure.
pub proof fn law_missing_plain_procedure(name: Seq<char>, pref: Seq<char>, resources: Seq<(Node, Node)>, mappings: Seq<(Node, Node)>, params: Entries, rules: Entries)
    requires
        lookup(params, name) is None,
        yaml_key(pref) matches Node::Str(t) && t@ == pref,
        entry(resources, pref) is None,
    ensures
        declared_value(name, pref, resources, mappings, params, rules) == Err::<Seq<char>, Seq<char>>("Procedure "@ + pref + " not found"@),
{
    lemma_keyed_text(resources, yaml_key(pref), pref, 0);
}

/// Resolution stops at the first declaration whose procedure is missing:
/// the whole run fails with the error naming that procedure.
pub proof fn law_missing_procedure_fails_run(decls: Entries, resources: Seq<(Node, Node)>, mappings: Seq<(Node, Node)>, params: Entries, rules: Entries, k: int)
    requires
        0 <= k < decls.len(),
        resolve_decls(decls, resources, mappings, params, rules, k) is Ok,
        lookup(params, decls[k].0) is None,
        keyed(resources, yaml_key(decls[k].1)) is None,
    ensures
        resolve_decls(decls, resources, mappings, params, rules, decls.len() as int)
            == Err::<Entries, Seq<char>>("Procedure "@ + decls[k].1 + " not found"@),
{
    lemma_resolve_err_stays(decls, resources, mappings, params, rules, k + 1, decls.len() as int);
}

} // verus!
