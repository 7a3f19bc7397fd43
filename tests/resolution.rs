use cnf_runner::engine::{merge_values, read_settings, resolve_declaration, resolve_env_vars};
use cnf_runner::error::{build_invalid_data_error_str, build_invalid_data_error_string};
use cnf_runner::node::{parse_index, Node};
use cnf_runner::resolver::{find_array_variable_value, find_string_variable_value, get_procedure};
use cnf_runner::source::{build_var_list, find_source_doc};
use cnf_runner::utilities::{apply_replaces, build_replaces, replace};

fn s(x: &str) -> Node {
    Node::Str(x.to_string())
}

fn table(entries: Vec<(&str, Node)>) -> Node {
    Node::Table(entries.into_iter().map(|(k, v)| (s(k), v)).collect())
}

fn entries(node: Node) -> Vec<(Node, Node)> {
    match node {
        Node::Table(es) => es,
        _ => panic!("not a table"),
    }
}

fn params(items: &[(&str, &str)]) -> Vec<(String, String)> {
    items.iter().map(|(k, v)| (k.to_string(), v.to_string())).collect()
}

fn procedure(template: &str, inputs: Node) -> Node {
    table(vec![("Properties", table(vec![("Value", Node::List(vec![s(template), inputs]))]))])
}

fn mappings() -> Vec<(Node, Node)> {
    entries(table(vec![(
        "Regions",
        table(vec![
            ("eu", table(vec![("Host", s("eu.example.com")), ("Port", Node::Int(8080)), ("Tls", Node::Bool(true)), ("Ratio", Node::Real("0.5".to_string()))])),
            ("flat", s("not a section")),
        ]),
    ), ("Scalar", s("plain"))]))
}

fn text_of(n: &Node) -> Option<&str> {
    match n {
        Node::Str(t) => Some(t.as_str()),
        _ => None,
    }
}

#[test]
fn error_builders_keep_message() {
    assert_eq!(build_invalid_data_error_str("bad").message, "bad");
    assert_eq!(build_invalid_data_error_string("worse".to_string()).message, "worse");
}

#[test]
fn mapping_lookup_resolves_all_stages() {
    let p = params(&[("Region", "eu")]);
    let m = mappings();
    let arr = vec![s("Regions"), s("Region"), s("Host")];
    assert_eq!(find_array_variable_value(&arr, &m, &p).unwrap(), "eu.example.com");
    let arr = vec![s("Regions"), s("Region"), s("Port")];
    assert_eq!(find_array_variable_value(&arr, &m, &p).unwrap(), "8080");
    let arr = vec![s("Regions"), s("Region"), s("Tls")];
    assert_eq!(find_array_variable_value(&arr, &m, &p).unwrap(), "true");
}

#[test]
fn mapping_lookup_negative_integer() {
    let m = entries(table(vec![("T", table(vec![("x", table(vec![("n", Node::Int(-42))]))]))]));
    let p = params(&[("Sec", "x")]);
    let arr = vec![s("T"), s("Sec"), s("n")];
    assert_eq!(find_array_variable_value(&arr, &m, &p).unwrap(), "-42");
}

#[test]
fn mapping_lookup_missing_hash() {
    let p = params(&[("Region", "eu")]);
    let arr = vec![s("Nope"), s("Region"), s("Host")];
    let e = find_array_variable_value(&arr, &mappings(), &p).unwrap_err();
    assert_eq!(e.message, "table Nope not found");
}

#[test]
fn mapping_lookup_missing_section_parameter() {
    let p = params(&[]);
    let arr = vec![s("Regions"), s("Region"), s("Host")];
    let e = find_array_variable_value(&arr, &mappings(), &p).unwrap_err();
    assert_eq!(e.message, "parameter Region not found");
}

#[test]
fn mapping_lookup_missing_section() {
    let p = params(&[("Region", "us")]);
    let arr = vec![s("Regions"), s("Region"), s("Host")];
    let e = find_array_variable_value(&arr, &mappings(), &p).unwrap_err();
    assert_eq!(e.message, "section us not found in table Regions");
}

#[test]
fn mapping_lookup_missing_value_key() {
    let p = params(&[("Region", "eu")]);
    let arr = vec![s("Regions"), s("Region"), s("User")];
    let e = find_array_variable_value(&arr, &mappings(), &p).unwrap_err();
    assert_eq!(e.message, "value key User not found in section eu");
}

#[test]
fn mapping_lookup_shape_errors() {
    let p = params(&[("Region", "eu"), ("Flat", "flat")]);
    let m = mappings();
    let e = find_array_variable_value(&vec![s("Regions"), s("Region")], &m, &p).unwrap_err();
    assert_eq!(e.message, "variable array length should be = 3");
    let e = find_array_variable_value(&vec![Node::Int(1), s("Region"), s("Host")], &m, &p).unwrap_err();
    assert_eq!(e.message, "variable hash name should be string");
    let e = find_array_variable_value(&vec![s("Regions"), Node::Null, s("Host")], &m, &p).unwrap_err();
    assert_eq!(e.message, "variable section name should be string");
    let e = find_array_variable_value(&vec![s("Regions"), s("Region"), Node::Bool(false)], &m, &p).unwrap_err();
    assert_eq!(e.message, "variable value key should be string");
    let e = find_array_variable_value(&vec![s("Scalar"), s("Region"), s("Host")], &m, &p).unwrap_err();
    assert_eq!(e.message, "table Scalar should be a hash");
    let e = find_array_variable_value(&vec![s("Regions"), s("Flat"), s("Host")], &m, &p).unwrap_err();
    assert_eq!(e.message, "section flat in table Regions should be a hash");
    let e = find_array_variable_value(&vec![s("Regions"), s("Region"), s("Ratio")], &m, &p).unwrap_err();
    assert_eq!(e.message, "value key Ratio in section eu should be a string, boolean or integer");
}

#[test]
fn string_variable_strips_wrapper() {
    let p = params(&[("HostParam", "example.com")]);
    assert_eq!(find_string_variable_value("${HostParam}", &p).unwrap(), "example.com");
    assert_eq!(find_string_variable_value("Host${Param}", &p).unwrap(), "example.com");
    let e = find_string_variable_value("${Missing}", &p).unwrap_err();
    assert_eq!(e.message, "parameter ${Missing} not found");
}

#[test]
fn substitution_fills_variables() {
    let vars = params(&[("A", "x"), ("B", "y")]);
    assert_eq!(replace("${A}-${B}".to_string(), vars, &params(&[])).unwrap(), "x-y");
}

#[test]
fn substitution_falls_back_to_parameters() {
    assert_eq!(replace("${A}".to_string(), params(&[]), &params(&[("A", "z")])).unwrap(), "z");
}

#[test]
fn substitution_variables_take_precedence() {
    let out = replace("${A}".to_string(), params(&[("A", "var")]), &params(&[("A", "param")])).unwrap();
    assert_eq!(out, "var");
}

#[test]
fn substitution_rescans_inserted_placeholders() {
    let out = replace("${A}".to_string(), params(&[("A", "${B}")]), &params(&[("B", "deep")])).unwrap();
    assert_eq!(out, "deep");
}

#[test]
fn replace_rules_compose_in_order() {
    let rule_text = "a->b->c->d".to_string();
    let rules = build_replaces(Some(&rule_text)).unwrap();
    assert_eq!(rules, params(&[("a", "b"), ("c", "d")]));
    assert_eq!(apply_replaces(&"abc".to_string(), &rules), "bbd");
    let chained = build_replaces(Some(&"a->b->b->c".to_string())).unwrap();
    assert_eq!(apply_replaces(&"ab".to_string(), &chained), "cc");
}

#[test]
fn replace_rules_empty_and_odd() {
    assert!(build_replaces(None).unwrap().is_empty());
    assert!(build_replaces(Some(&String::new())).unwrap().is_empty());
    let e = build_replaces(Some(&"a->b->c".to_string())).unwrap_err();
    assert_eq!(e.message, "invalid replaces parameter");
}

#[test]
fn replace_rules_later_pattern_wins() {
    let rules = build_replaces(Some(&"a->b->a->c".to_string())).unwrap();
    assert_eq!(rules, params(&[("a", "c")]));
}

#[test]
fn source_path_indexes_sequence() {
    let doc = table(vec![("Resources", Node::List(vec![table(vec![("Vars", s("found"))])]))]);
    let found = find_source_doc(&doc, &"Resources.0.Vars".to_string()).unwrap();
    assert_eq!(text_of(found), Some("found"));
}

#[test]
fn source_path_index_on_mapping_fails() {
    let doc = table(vec![("Resources", table(vec![("Vars", s("x"))]))]);
    let e = find_source_doc(&doc, &"Resources.0".to_string()).unwrap_err();
    assert_eq!(e.message, "expected vector yaml element for 0 source parameter");
}

#[test]
fn source_path_missing_segment_fails() {
    let doc = table(vec![("Resources", Node::List(vec![s("a")])), ("Empty", Node::Null)]);
    let e = find_source_doc(&doc, &"Resources.3".to_string()).unwrap_err();
    assert_eq!(e.message, "3 source parameter not found in the env file");
    let e = find_source_doc(&doc, &"Other".to_string()).unwrap_err();
    assert_eq!(e.message, "Other source parameter not found in the env file");
    let e = find_source_doc(&doc, &"Empty".to_string()).unwrap_err();
    assert_eq!(e.message, "Empty source parameter not found in the env file");
}

#[test]
fn path_segment_index_parsing() {
    assert_eq!(parse_index("0"), Some(0));
    assert_eq!(parse_index("+12"), Some(12));
    assert_eq!(parse_index("007"), Some(7));
    assert_eq!(parse_index(""), None);
    assert_eq!(parse_index("+"), None);
    assert_eq!(parse_index("-1"), None);
    assert_eq!(parse_index("1a"), None);
    assert_eq!(parse_index("99999999999999999999999"), None);
}

#[test]
fn var_list_keeps_order_and_strips_wrapper() {
    let list = Node::List(vec![
        table(vec![("Name", s("B")), ("Value", s("${Second.Value}"))]),
        table(vec![("Name", s("A")), ("Value", s("${First.Value}"))]),
    ]);
    assert_eq!(build_var_list(&list).unwrap(), params(&[("B", "Second"), ("A", "First")]));
}

#[test]
fn var_list_shape_errors() {
    assert_eq!(build_var_list(&s("x")).unwrap_err().message, "Source parameter should be a vector");
    let e = build_var_list(&Node::List(vec![s("x")])).unwrap_err();
    assert_eq!(e.message, "Variable should be a hash");
    let e = build_var_list(&Node::List(vec![table(vec![("Value", s("v"))])])).unwrap_err();
    assert_eq!(e.message, "Variable name is absent");
    let e = build_var_list(&Node::List(vec![table(vec![("Name", s("n"))])])).unwrap_err();
    assert_eq!(e.message, "Variable value is absent");
    let e = build_var_list(&Node::List(vec![table(vec![("Name", Node::Int(1)), ("Value", s("v"))])])).unwrap_err();
    assert_eq!(e.message, "Variable name should be a string");
    let e = build_var_list(&Node::List(vec![table(vec![("Name", s("n")), ("Value", Node::Int(1))])])).unwrap_err();
    assert_eq!(e.message, "Variable value should be a string");
}

#[test]
fn procedure_resolves_inputs() {
    let resources = entries(table(vec![(
        "P",
        procedure("${H}:${Port}", table(vec![("H", s("${HostParam}")), ("Port", Node::List(vec![s("Regions"), s("Region"), s("Port")]))])),
    )]));
    let p = params(&[("HostParam", "example.com"), ("Region", "eu")]);
    let (text, vars) = get_procedure("P".to_string(), &resources, &mappings(), &p).unwrap();
    assert_eq!(text, "${H}:${Port}");
    assert_eq!(vars, params(&[("H", "example.com"), ("Port", "8080")]));
}

#[test]
fn procedure_missing_is_named() {
    let e = get_procedure("Ghost".to_string(), &Vec::new(), &mappings(), &params(&[])).unwrap_err();
    assert_eq!(e.message, "Procedure Ghost not found");
}

#[test]
fn procedure_shape_errors() {
    let p = params(&[]);
    let m = mappings();
    let check = |node: Node, msg: &str| {
        let resources = entries(table(vec![("P", node)]));
        assert_eq!(get_procedure("P".to_string(), &resources, &m, &p).unwrap_err().message, msg);
    };
    check(s("x"), "Procedure P properties not found");
    check(table(vec![("Properties", table(vec![]))]), "Procedure P value not found");
    check(table(vec![("Properties", table(vec![("Value", s("x"))]))]), "Procedure P value should be a vector");
    check(table(vec![("Properties", table(vec![("Value", Node::List(vec![s("t")]))]))]), "Procedure P value should have two elements");
    check(table(vec![("Properties", table(vec![("Value", Node::List(vec![Node::Int(1), table(vec![])]))]))]), "Procedure P value[0] should be a string");
    check(procedure("t", s("x")), "Procedure P value[1] should be a hash");
    check(procedure("t", Node::Table(vec![(Node::Int(1), s("x"))])), "Procedure P parameter name is not string");
    check(procedure("t", table(vec![("A", Node::Bool(true))])), "Procedure P input A: value is not vector or string");
}

#[test]
fn declaration_parameter_overrides_procedure() {
    let p = params(&[("OUT", "direct")]);
    let rules = params(&[]);
    let v = resolve_declaration(&"OUT".to_string(), &"Missing".to_string(), &Vec::new(), &Vec::new(), &p, &rules).unwrap();
    assert_eq!(v, "direct");
}

#[test]
fn declaration_rules_touch_values_not_template() {
    let resources = entries(table(vec![("P", procedure("a=${V}", table(vec![("V", s("${Val}"))])))]));
    let p = params(&[("Val", "abc")]);
    let rules = params(&[("a", "b"), ("c", "d")]);
    let v = resolve_declaration(&"OUT".to_string(), &"P".to_string(), &resources, &Vec::new(), &p, &rules).unwrap();
    assert_eq!(v, "a=bbd");
}

fn end_to_end_doc() -> Node {
    table(vec![
        ("Resources", table(vec![("P", procedure("host=${H}", table(vec![("H", s("${HostParam}"))])))])),
        ("Mappings", table(vec![])),
        ("Decls", Node::List(vec![table(vec![("Name", s("OUT")), ("Value", s("${P.Value}"))])])),
    ])
}

#[test]
fn end_to_end_resolution() {
    let p = params(&[("HostParam", "example.com"), ("source", "Decls")]);
    let out = resolve_env_vars(&end_to_end_doc(), &p, &Vec::new(), &"Decls".to_string()).unwrap();
    assert_eq!(out, params(&[("OUT", "host=example.com")]));
}

#[test]
fn end_to_end_missing_procedure_fails() {
    let doc = table(vec![
        ("Resources", table(vec![])),
        ("Mappings", table(vec![])),
        ("Decls", Node::List(vec![table(vec![("Name", s("OUT")), ("Value", s("${Q.Value}"))])])),
    ]);
    let e = resolve_env_vars(&doc, &params(&[]), &Vec::new(), &"Decls".to_string()).unwrap_err();
    assert_eq!(e.message, "Procedure Q not found");
}

#[test]
fn end_to_end_needs_resources_and_mappings() {
    let doc = table(vec![("Mappings", table(vec![]))]);
    let e = resolve_env_vars(&doc, &params(&[]), &Vec::new(), &"X".to_string()).unwrap_err();
    assert_eq!(e.message, "No resources found");
    let doc = table(vec![("Resources", table(vec![]))]);
    let e = resolve_env_vars(&doc, &params(&[]), &Vec::new(), &"X".to_string()).unwrap_err();
    assert_eq!(e.message, "No mappings found");
}

#[test]
fn end_to_end_later_declaration_overwrites() {
    let doc = table(vec![
        ("Resources", table(vec![])),
        ("Mappings", table(vec![])),
        ("Decls", Node::List(vec![
            table(vec![("Name", s("X")), ("Value", s("${A.Value}"))]),
            table(vec![("Name", s("Y")), ("Value", s("${B.Value}"))]),
        ])),
    ]);
    let p = params(&[("X", "1"), ("Y", "2")]);
    let out = resolve_env_vars(&doc, &p, &Vec::new(), &"Decls".to_string()).unwrap();
    assert_eq!(out, params(&[("X", "1"), ("Y", "2")]));
}

#[test]
fn settings_from_parameters() {
    let p = params(&[("source", "A.B"), ("replace", "x->y")]);
    let (source, rules) = read_settings(&p).unwrap();
    assert_eq!(source, "A.B");
    assert_eq!(rules, params(&[("x", "y")]));
    let e = read_settings(&params(&[])).unwrap_err();
    assert_eq!(e.message, "Source parameter is absent in the env file");
    let e = read_settings(&params(&[("source", "A"), ("replace", "x")])).unwrap_err();
    assert_eq!(e.message, "invalid replaces parameter");
}

#[test]
fn merge_later_values_win() {
    let mut env = params(&[("A", "1"), ("B", "2")]);
    merge_values(&mut env, &params(&[("B", "3"), ("C", "4")]));
    assert_eq!(env, params(&[("A", "1"), ("B", "3"), ("C", "4")]));
}

#[test]
fn mapping_lookup_reads_names_as_scalars() {
    let m = vec![(
        s("Years"),
        Node::Table(vec![(Node::Int(2024), table(vec![("Budget", s("high"))])), (s("2025"), table(vec![("Budget", s("low"))]))]),
    )];
    let p = params(&[("Year", "2024"), ("Next", "2025")]);
    let arr = vec![s("Years"), s("Year"), s("Budget")];
    assert_eq!(find_array_variable_value(&arr, &m, &p).unwrap(), "high");
    let arr = vec![s("Years"), s("Next"), s("Budget")];
    let e = find_array_variable_value(&arr, &m, &p).unwrap_err();
    assert_eq!(e.message, "section 2025 not found in table Years");
}

#[test]
fn procedure_named_like_boolean() {
    let resources = vec![(Node::Bool(true), procedure("t", table(vec![])))];
    let (text, vars) = get_procedure("true".to_string(), &resources, &Vec::new(), &params(&[])).unwrap();
    assert_eq!(text, "t");
    assert!(vars.is_empty());
}

#[test]
fn mapping_lookup_stages_differ_with_equal_names() {
    let p = params(&[("S", "x")]);
    let arr = vec![s("x"), s("S"), s("x")];
    let no_section = entries(table(vec![("x", table(vec![]))]));
    let no_value = entries(table(vec![("x", table(vec![("x", table(vec![]))]))]));
    let e3 = find_array_variable_value(&arr, &no_section, &p).unwrap_err().message;
    let e4 = find_array_variable_value(&arr, &no_value, &p).unwrap_err().message;
    let e1 = find_array_variable_value(&arr, &Vec::new(), &p).unwrap_err().message;
    let e2 = find_array_variable_value(&arr, &no_section, &params(&[])).unwrap_err().message;
    assert_eq!(e1, "table x not found");
    assert_eq!(e2, "parameter S not found");
    assert_eq!(e3, "section x not found in table x");
    assert_eq!(e4, "value key x not found in section x");
}

#[test]
fn procedure_input_errors_name_procedure_and_input() {
    let p = params(&[]);
    let check = |inputs: Node, msg: &str| {
        let resources = entries(table(vec![("LongProcedureName", procedure("t", inputs))]));
        let e = get_procedure("LongProcedureName".to_string(), &resources, &mappings(), &p).unwrap_err();
        assert_eq!(e.message, msg);
    };
    check(table(vec![("H", Node::List(vec![]))]), "Procedure LongProcedureName input H: variable array length should be = 3");
    check(table(vec![("H", s("${X}"))]), "Procedure LongProcedureName input H: parameter ${X} not found");
    check(
        table(vec![("H", Node::List(vec![s("Nope"), s("R"), s("K")]))]),
        "Procedure LongProcedureName input H: table Nope not found",
    );
}
