//! Procedures and their input variables.

use vstd::prelude::*;
use crate::error::{ResolveError, build_invalid_data_error_str, build_invalid_data_error_string, error_with, error_with2, text_view};
use crate::node::{Node, child, child_of, keyed, table_lookup, yaml_key};
use crate::pairs::{Entries, lookup, get_value, put, put_value};
use crate::scalar::{scalar_text, scalar_to_text};
use crate::text::{replace_all, replace_text};

verus! {

/// The text of a string node.
pub open spec fn str_of(n: Node) -> Option<Seq<char>> {
    match n {
        Node::Str(s) => Some(s@),
        _ => None,
    }
}

/// The bare parameter name in a `${Name}` definition: every `${` and every
/// `}` removed, wherever they stand.
pub open spec fn bare_name(def: Seq<char>) -> Seq<char> {
    replace_all(replace_all(def, "${"@, Seq::empty()), "}"@, Seq::empty())
}

/// An input variable defined as `${Name}`: the runtime parameter `Name`.
pub open spec fn string_var(def: Seq<char>, params: Entries) -> Result<Seq<char>, Seq<char>> {
    match lookup(params, bare_name(def)) {
        Some(v) => Ok(v),
        None => Err("parameter "@ + def + " not found"@),
    }
}

/// An input variable defined as `[hashName, sectionKeyParam, valueKey]`:
/// the table `hashName` of the mappings, its section named by the runtime
/// parameter `sectionKeyParam`, and in it the scalar under `valueKey`.
pub open spec fn array_var(arr: Seq<Node>, mappings: Seq<(Node, Node)>, params: Entries) -> Result<Seq<char>, Seq<char>> {
    if arr.len() != 3 {
        Err("variable array length should be = 3"@)
    } else {
        match (str_of(arr[0]), str_of(arr[1]), str_of(arr[2])) {
            (None, _, _) => Err("variable hash name should be string"@),
            (Some(_), None, _) => Err("variable section name should be string"@),
            (Some(_), Some(_), None) => Err("variable value key should be string"@),
            (Some(h), Some(sk), Some(vk)) => match keyed(mappings, yaml_key(h)) {
                None => Err(missing_table(h)),
                Some(Node::Table(hash)) => match lookup(params, sk) {
                    None => Err(missing_section_parameter(sk)),
                    Some(sn) => match keyed(hash@, yaml_key(sn)) {
                        None => Err(missing_section(sn, h)),
                        Some(Node::Table(section)) => match keyed(section@, yaml_key(vk)) {
                            None => Err(missing_value_key(vk, sn)),
                            Some(v) => match scalar_text(v) {
                                Some(t) => Ok(t),
                                None => Err("value key "@ + vk + " in section "@ + sn + " should be a string, boolean or integer"@),
                            },
                        },
                        Some(_) => Err("section "@ + sn + " in table "@ + h + " should be a hash"@),
                    },
                },
                Some(_) => Err("table "@ + h + " should be a hash"@),
            },
        }
    }
}

/// Resolves a `${Name}` input variable from the runtime parameters.
pub fn find_string_variable_value(name: &str, parameters: &Vec<(String, String)>) -> (r: Result<String, ResolveError>)
    ensures
        text_view(r) == string_var(name@, parameters.deep_view()),
{
    let stripped = replace_text(name, "${", "");
    let sname = replace_text(stripped.as_str(), "}", "");
    proof {
        assert(""@ =~= Seq::<char>::empty()) by {
            reveal_strlit("");
        }
    }
    match get_value(parameters, &sname) {
        Some(v) => Ok(v.clone()),
        None => Err(error_with("parameter ", name, " not found")),
    }
}

/// A mapping lookup whose table is missing.
pub open spec fn missing_table(h: Seq<char>) -> Seq<char> {
    "table "@ + h + " not found"@
}

/// A mapping lookup whose section-naming parameter is missing.
pub open spec fn missing_section_parameter(sk: Seq<char>) -> Seq<char> {
    "parameter "@ + sk + " not found"@
}

/// A mapping lookup whose section is missing from its table.
pub open spec fn missing_section(sn: Seq<char>, h: Seq<char>) -> Seq<char> {
    "section "@ + sn + " not found in table "@ + h
}

/// A mapping lookup whose value key is missing from its section.
pub open spec fn missing_value_key(vk: Seq<char>, sn: Seq<char>) -> Seq<char> {
    "value key "@ + vk + " not found in section "@ + sn
}

/// The four missing-key failures of a mapping lookup never read alike,
/// whatever the names involved: each opens with a word naming its stage.
pub proof fn law_mapping_failures_distinct(h: Seq<char>, sk: Seq<char>, sn: Seq<char>, vk: Seq<char>)
    ensures
        missing_table(h) != missing_section_parameter(sk),
        missing_table(h) != missing_section(sn, h),
        missing_table(h) != missing_value_key(vk, sn),
        missing_section_parameter(sk) != missing_section(sn, h),
        missing_section_parameter(sk) != missing_value_key(vk, sn),
        missing_section(sn, h) != missing_value_key(vk, sn),
{
    reveal_strlit("table ");
    reveal_strlit("parameter ");
    reveal_strlit("section ");
    reveal_strlit("value key ");
    assert(missing_table(h)[0] == 't');
    assert(missing_section_parameter(sk)[0] == 'p');
    assert(missing_section(sn, h)[0] == 's');
    assert(missing_value_key(vk, sn)[0] == 'v');
}

/// Resolves a `[hashName, sectionKeyParam, valueKey]` input variable
/// through the mapping tables.
pub fn find_array_variable_value(array: &Vec<Node>, mappings: &Vec<(Node, Node)>, parameters: &Vec<(String, String)>) -> (r: Result<String, ResolveError>)
    ensures
        text_view(r) == array_var(array@, mappings@, parameters.deep_view()),
{
    if array.len() != 3 {
        return Err(build_invalid_data_error_str("variable array length should be = 3"));
    }
    let hash_name = match &array[0] {
        Node::Str(s) => s,
        _ => { return Err(build_invalid_data_error_str("variable hash name should be string")); },
    };
    let section_key = match &array[1] {
        Node::Str(s) => s,
        _ => { return Err(build_invalid_data_error_str("variable section name should be string")); },
    };
    let value_key = match &array[2] {
        Node::Str(s) => s,
        _ => { return Err(build_invalid_data_error_str("variable value key should be string")); },
    };
    let hash = match table_lookup(mappings, hash_name.as_str()) {
        None => { return Err(error_with("table ", hash_name.as_str(), " not found")); },
        Some(Node::Table(h)) => h,
        Some(_) => { return Err(error_with("table ", hash_name.as_str(), " should be a hash")); },
    };
    let section_name = match get_value(parameters, section_key) {
        None => { return Err(error_with("parameter ", section_key.as_str(), " not found")); },
        Some(s) => s,
    };
    let section = match table_lookup(hash, section_name.as_str()) {
        None => {
            let msg = String::from_str("section ").concat(section_name.as_str()).concat(" not found in table ").concat(hash_name.as_str());
            return Err(build_invalid_data_error_string(msg));
        },
        Some(Node::Table(s)) => s,
        Some(_) => {
            return Err(error_with2("section ", section_name.as_str(), " in table ", hash_name.as_str(), " should be a hash"));
        },
    };
    let value = match table_lookup(section, value_key.as_str()) {
        None => {
            let msg = String::from_str("value key ").concat(value_key.as_str()).concat(" not found in section ").concat(section_name.as_str());
            return Err(build_invalid_data_error_string(msg));
        },
        Some(v) => v,
    };
    match scalar_to_text(value) {
        Some(t) => Ok(t),
        None => Err(error_with2("value key ", value_key.as_str(), " in section ", section_name.as_str(), " should be a string, boolean or integer")),
    }
}

/// One input variable: a sequence is a mapping lookup, a string a
/// runtime parameter; any other shape is an error.
pub open spec fn var_value(def: Node, mappings: Seq<(Node, Node)>, params: Entries) -> Result<Seq<char>, Seq<char>> {
    match def {
        Node::List(a) => array_var(a@, mappings, params),
        Node::Str(s) => string_var(s@, params),
        _ => Err("value is not vector or string"@),
    }
}

/// A failure to resolve input `n` of procedure `pname`, naming both.
pub open spec fn input_error(pname: Seq<char>, n: Seq<char>, e: Seq<char>) -> Seq<char> {
    "Procedure "@ + pname + " input "@ + n + ": "@ + e
}

/// The first `k` input variables of procedure `pname`, resolved in order;
/// the first failure is the result.
pub open spec fn input_vars(h: Seq<(Node, Node)>, mappings: Seq<(Node, Node)>, params: Entries, pname: Seq<char>, k: int) -> Result<Entries, Seq<char>>
    decreases k,
{
    if k <= 0 {
        Ok(Seq::empty())
    } else {
        match input_vars(h, mappings, params, pname, k - 1) {
            Err(e) => Err(e),
            Ok(vars) => match str_of(h[k - 1].0) {
                None => Err("Procedure "@ + pname + " parameter name is not string"@),
                Some(n) => match var_value(h[k - 1].1, mappings, params) {
                    Ok(v) => Ok(put(vars, n, v)),
                    Err(e) => Err(input_error(pname, n, e)),
                },
            },
        }
    }
}

/// The template of procedure `name` and its resolved input variables.
pub open spec fn procedure(name: Seq<char>, resources: Seq<(Node, Node)>, mappings: Seq<(Node, Node)>, params: Entries) -> Result<(Seq<char>, Entries), Seq<char>> {
    match keyed(resources, yaml_key(name)) {
        None => Err("Procedure "@ + name + " not found"@),
        Some(p) => match child(p, "Properties"@) {
            Some(Node::Table(props)) => match keyed(props@, yaml_key("Value"@)) {
                None => Err("Procedure "@ + name + " value not found"@),
                Some(Node::List(v)) => if v@.len() != 2 {
                    Err("Procedure "@ + name + " value should have two elements"@)
                } else {
                    match (v@[0], v@[1]) {
                        (Node::Str(t), Node::Table(h)) => match input_vars(h@, mappings, params, name, h@.len() as int) {
                            Ok(vars) => Ok((t@, vars)),
                            Err(e) => Err(e),
                        },
                        (Node::Str(_), _) => Err("Procedure "@ + name + " value[1] should be a hash"@),
                        _ => Err("Procedure "@ + name + " value[0] should be a string"@),
                    }
                },
                Some(_) => Err("Procedure "@ + name + " value should be a vector"@),
            },
            _ => Err("Procedure "@ + name + " properties not found"@),
        },
    }
}

proof fn lemma_input_vars_err_stays(h: Seq<(Node, Node)>, mappings: Seq<(Node, Node)>, params: Entries, pname: Seq<char>, k: int, k2: int)
    requires
        0 < k <= k2,
        input_vars(h, mappings, params, pname, k) is Err,
    ensures
        input_vars(h, mappings, params, pname, k2) == input_vars(h, mappings, params, pname, k),
    decreases k2 - k,
{
    if k < k2 {
        lemma_input_vars_err_stays(h, mappings, params, pname, k, k2 - 1);
    }
}

proof fn lemma_prefix_of_concat(p: Seq<char>, x: Seq<char>)
    ensures
        p.is_prefix_of(p + x),
{
    assert(p =~= (p + x).subrange(0, p.len() as int));
}

proof fn lemma_input_vars_errors_name_procedure(h: Seq<(Node, Node)>, mappings: Seq<(Node, Node)>, params: Entries, pname: Seq<char>, k: int)
    ensures
        input_vars(h, mappings, params, pname, k) matches Err(e) ==> ("Procedure "@ + pname).is_prefix_of(e),
    decreases k,
{
    if k > 0 {
        lemma_input_vars_errors_name_procedure(h, mappings, params, pname, k - 1);
        let p = "Procedure "@ + pname;
        lemma_prefix_of_concat(p, " parameter name is not string"@);
        if let Some(n) = str_of(h[k - 1].0) {
            if let Err(e) = var_value(h[k - 1].1, mappings, params) {
                assert(input_error(pname, n, e) == p + (" input "@ + n + ": "@ + e));
                lemma_prefix_of_concat(p, " input "@ + n + ": "@ + e);
            }
        }
    }
}

/// Every failure to resolve a procedure names it: the message opens with
/// `Procedure` and the procedure's name, also where the failure comes from
/// one of its input variables.
pub proof fn law_procedure_errors_name_procedure(name: Seq<char>, resources: Seq<(Node, Node)>, mappings: Seq<(Node, Node)>, params: Entries)
    ensures
        procedure(name, resources, mappings, params) matches Err(e) ==> ("Procedure "@ + name).is_prefix_of(e),
{
    let p = "Procedure "@ + name;
    lemma_prefix_of_concat(p, " not found"@);
    lemma_prefix_of_concat(p, " properties not found"@);
    lemma_prefix_of_concat(p, " value not found"@);
    lemma_prefix_of_concat(p, " value should have two elements"@);
    lemma_prefix_of_concat(p, " value should be a vector"@);
    lemma_prefix_of_concat(p, " value[0] should be a string"@);
    lemma_prefix_of_concat(p, " value[1] should be a hash"@);
    if let Some(pn) = keyed(resources, yaml_key(name)) {
        if let Some(Node::Table(props)) = child(pn, "Properties"@) {
            if let Some(Node::List(v)) = keyed(props@, yaml_key("Value"@)) {
                if v@.len() == 2 {
                    if let Node::Table(h) = v@[1] {
                        lemma_input_vars_errors_name_procedure(h@, mappings, params, name, h@.len() as int);
                    }
                }
            }
        }
    }
}

pub open spec fn procedure_view(r: Result<(String, Vec<(String, String)>), ResolveError>) -> Result<(Seq<char>, Entries), Seq<char>> {
    match r {
        Ok((t, vars)) => Ok((t@, vars.deep_view())),
        Err(e) => Err(e.message@),
    }
}

/// Looks up procedure `procedure_name` among the resources and resolves
/// its input variables.
pub fn get_procedure(procedure_name: String, resources: &Vec<(Node, Node)>, mappings: &Vec<(Node, Node)>, parameters: &Vec<(String, String)>) -> (r: Result<(String, Vec<(String, String)>), ResolveError>)
    ensures
        procedure_view(r) == procedure(procedure_name@, resources@, mappings@, parameters.deep_view()),
{
    let pname = procedure_name.as_str();
    let proc_node = match table_lookup(resources, pname) {
        None => { return Err(error_with("Procedure ", pname, " not found")); },
        Some(p) => p,
    };
    let props = match child_of(proc_node, "Properties") {
        Some(Node::Table(ps)) => ps,
        _ => { return Err(error_with("Procedure ", pname, " properties not found")); },
    };
    let value = match table_lookup(props, "Value") {
        None => { return Err(error_with("Procedure ", pname, " value not found")); },
        Some(Node::List(v)) => v,
        Some(_) => { return Err(error_with("Procedure ", pname, " value should be a vector")); },
    };
    if value.len() != 2 {
        return Err(error_with("Procedure ", pname, " value should have two elements"));
    }
    let text = match &value[0] {
        Node::Str(t) => t.clone(),
        _ => { return Err(error_with("Procedure ", pname, " value[0] should be a string")); },
    };
    let h = match &value[1] {
        Node::Table(h) => h,
        _ => { return Err(error_with("Procedure ", pname, " value[1] should be a hash")); },
    };
    let ghost params = parameters.deep_view();
    let ghost whole = procedure(procedure_name@, resources@, mappings@, params);
    assert(whole == match input_vars(h@, mappings@, params, pname@, h@.len() as int) {
        Ok(vars) => Ok((text@, vars)),
        Err(e) => Err(e),
    });
    let mut variables: Vec<(String, String)> = Vec::new();
    assert(variables.deep_view() =~= Seq::<(Seq<char>, Seq<char>)>::empty());
    let mut i: usize = 0;
    while i < h.len()
        invariant
            i <= h.len(),
            params == parameters.deep_view(),
            whole == procedure(procedure_name@, resources@, mappings@, params),
            whole == match input_vars(h@, mappings@, params, pname@, h@.len() as int) {
                Ok(vars) => Ok((text@, vars)),
                Err(e) => Err(e),
            },
            input_vars(h@, mappings@, params, pname@, i as int) == Ok::<Entries, Seq<char>>(variables.deep_view()),
        decreases h.len() - i,
    {
        let name = match &h[i].0 {
            Node::Str(n) => n,
            _ => {
                let e = error_with("Procedure ", pname, " parameter name is not string");
                proof { lemma_input_vars_err_stays(h@, mappings@, params, pname@, i + 1, h@.len() as int); }
                return Err(e);
            },
        };
        let resolved = match &h[i].1 {
            Node::List(a) => find_array_variable_value(a, mappings, parameters),
            Node::Str(s) => find_string_variable_value(s.as_str(), parameters),
            _ => Err(build_invalid_data_error_str("value is not vector or string")),
        };
        match resolved {
            Ok(v) => { put_value(&mut variables, name.clone(), v); },
            Err(inner) => {
                let msg = String::from_str("Procedure ").concat(pname).concat(" input ").concat(name.as_str())
                    .concat(": ").concat(inner.message.as_str());
                let e = build_invalid_data_error_string(msg);
                proof { lemma_input_vars_err_stays(h@, mappings@, params, pname@, i + 1, h@.len() as int); }
                return Err(e);
            },
        }
        i = i + 1;
    }
    Ok((text, variables))
}

} // verus!
