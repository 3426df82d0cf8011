use codegraph_lsp::engine::QueryEngine;
use codegraph_lsp::graph::{CodeGraph, EdgeType, NodeProps, NodeType};
use codegraph_lsp::primitives::{
    EntryType, ImportMatchMode, ImportSearchOptions, SignaturePattern, TraversalDirection, TraversalFilter,
};

fn props(name: &str, path: &str, line: i64) -> NodeProps {
    let mut p = NodeProps::new();
    p.name = Some(name.to_string());
    p.path = Some(path.to_string());
    p.line_start = Some(line);
    p
}

fn indexed(g: CodeGraph) -> QueryEngine {
    let mut e = QueryEngine::new(g);
    e.build_indexes();
    e
}

#[test]
fn test_traverse_graph() {
    let mut g = CodeGraph::new();
    let a = g.add_node(NodeType::Function, props("functionA", "/src/test.rs", 1)).unwrap();
    let b = g.add_node(NodeType::Function, props("functionB", "/src/test.rs", 10)).unwrap();
    let c = g.add_node(NodeType::Function, props("functionC", "/src/test.rs", 20)).unwrap();
    g.add_edge(a, b, EdgeType::Calls).unwrap();
    g.add_edge(b, c, EdgeType::Calls).unwrap();
    let engine = indexed(g);

    let filter = TraversalFilter::new().with_max_nodes(100);
    let results = engine.traverse_graph(a, TraversalDirection::Outgoing, 2, &filter);

    assert_eq!(results.len(), 2);
    let names: Vec<&str> = results.iter().map(|r| r.symbol.name.as_str()).collect();
    assert!(names.contains(&"functionB"));
    assert!(names.contains(&"functionC"));
}

#[test]
fn traverse_graph_reports_depth_and_path() {
    let mut g = CodeGraph::new();
    let a = g.add_node(NodeType::Function, props("a", "/src/x.rs", 1)).unwrap();
    let b = g.add_node(NodeType::Function, props("b", "/src/x.rs", 2)).unwrap();
    let c = g.add_node(NodeType::Function, props("c", "/src/x.rs", 3)).unwrap();
    g.add_edge(a, b, EdgeType::Calls).unwrap();
    g.add_edge(b, c, EdgeType::Calls).unwrap();
    let engine = indexed(g);
    let r = engine.traverse_graph(a, TraversalDirection::Outgoing, 5, &TraversalFilter::new());
    assert_eq!(r.len(), 2);
    assert_eq!(r[0].node_id, b);
    assert_eq!(r[0].depth, 1);
    assert_eq!(r[0].path, vec![a, b]);
    assert_eq!(r[1].node_id, c);
    assert_eq!(r[1].depth, 2);
    assert_eq!(r[1].path, vec![a, b, c]);
    let short = engine.traverse_graph(a, TraversalDirection::Outgoing, 1, &TraversalFilter::new());
    assert_eq!(short.len(), 1);
    let capped = engine.traverse_graph(a, TraversalDirection::Outgoing, 5, &TraversalFilter::new().with_max_nodes(1));
    assert_eq!(capped.len(), 1);
    let back = engine.traverse_graph(c, TraversalDirection::Incoming, 5, &TraversalFilter::new());
    assert_eq!(back.len(), 2);
    assert_eq!(back[0].node_id, b);
}

#[test]
fn test_get_callers() {
    let mut g = CodeGraph::new();
    let a = g.add_node(NodeType::Function, props("caller1", "/src/test.rs", 1)).unwrap();
    let b = g.add_node(NodeType::Function, props("caller2", "/src/test.rs", 10)).unwrap();
    let c = g.add_node(NodeType::Function, props("target", "/src/test.rs", 20)).unwrap();
    g.add_edge(a, c, EdgeType::Calls).unwrap();
    g.add_edge(b, c, EdgeType::Calls).unwrap();
    let engine = indexed(g);

    let callers = engine.get_callers(c, 1);

    assert_eq!(callers.len(), 2);
    let caller_names: Vec<&str> = callers.iter().map(|c| c.symbol.name.as_str()).collect();
    assert!(caller_names.contains(&"caller1"));
    assert!(caller_names.contains(&"caller2"));
}

#[test]
fn callees_follow_the_call_index() {
    let mut g = CodeGraph::new();
    let a = g.add_node(NodeType::Function, props("a", "/src/x.rs", 1)).unwrap();
    let b = g.add_node(NodeType::Function, props("b", "/src/x.rs", 2)).unwrap();
    let c = g.add_node(NodeType::Function, props("c", "/src/x.rs", 3)).unwrap();
    g.add_edge(a, b, EdgeType::Calls).unwrap();
    g.add_edge(b, c, EdgeType::Calls).unwrap();
    g.add_edge(a, c, EdgeType::Imports).unwrap();
    let engine = indexed(g);
    let one = engine.get_callees(a, 1);
    assert_eq!(one.len(), 1);
    assert_eq!(one[0].node_id, b);
    assert_eq!(one[0].depth, 1);
    let two = engine.get_callees(a, 2);
    assert_eq!(two.len(), 2);
    assert_eq!(two[1].node_id, c);
    assert_eq!(two[1].depth, 2);
    assert_eq!(two[1].call_site.file, "/src/x.rs");
}

#[test]
fn test_find_entry_points() {
    let mut g = CodeGraph::new();
    g.add_node(NodeType::Function, props("main", "/src/main.rs", 1)).unwrap();
    g.add_node(NodeType::Function, props("test_something", "/src/test.rs", 10)).unwrap();
    g.add_node(NodeType::Function, props("helper", "/src/lib.rs", 20)).unwrap();
    let engine = indexed(g);

    let mains = engine.find_entry_points(&[EntryType::Main]);
    assert_eq!(mains.len(), 1);
    assert_eq!(mains[0].symbol.name, "main");

    let tests = engine.find_entry_points(&[EntryType::TestEntry]);
    assert_eq!(tests.len(), 1);
    assert_eq!(tests[0].symbol.name, "test_something");
}

#[test]
fn test_find_entry_points_all_types() {
    let mut g = CodeGraph::new();
    g.add_node(NodeType::Function, props("main", "/src/main.rs", 1)).unwrap();
    g.add_node(NodeType::Function, props("test_something", "/src/tests.rs", 10)).unwrap();
    let mut api = props("someApi", "/src/lib.rs", 20);
    api.exported = Some(true);
    g.add_node(NodeType::Function, api).unwrap();
    let engine = indexed(g);
    let all = engine.find_entry_points(&[]);
    assert!(all.len() >= 3);
}

#[test]
fn test_get_symbol_info() {
    let mut g = CodeGraph::new();
    let mut p = props("processData", "/src/lib.rs", 10);
    p.line_end = Some(25);
    p.doc = Some("Processes input data".to_string());
    p.is_public = Some(true);
    let node_id = g.add_node(NodeType::Function, p).unwrap();
    let engine = indexed(g);

    let info = engine.get_symbol_info(node_id);

    assert!(info.is_some());
    let info = info.unwrap();
    assert_eq!(info.symbol.name, "processData");
    assert_eq!(info.lines_of_code, 16);
    assert!(info.is_public);
}

#[test]
fn symbol_info_of_absent_or_unnamed_node_is_none() {
    let mut g = CodeGraph::new();
    let n = g.add_node(NodeType::Function, NodeProps::new()).unwrap();
    let engine = indexed(g);
    assert!(engine.get_symbol_info(n).is_none());
    assert!(engine.get_symbol_info(n + 100).is_none());
}

#[test]
fn symbol_info_counts_references_and_dependencies() {
    let mut g = CodeGraph::new();
    let t = g.add_node(NodeType::Function, props("target", "/src/lib.rs", 1)).unwrap();
    let a = g.add_node(NodeType::Function, props("test_a", "/src/a.rs", 1)).unwrap();
    let b = g.add_node(NodeType::Module, props("util", "/src/util.rs", 1)).unwrap();
    g.add_edge(a, t, EdgeType::Calls).unwrap();
    g.add_edge(a, t, EdgeType::References).unwrap();
    g.add_edge(t, b, EdgeType::Imports).unwrap();
    let engine = indexed(g);
    let info = engine.get_symbol_info(t).unwrap();
    assert_eq!(info.reference_count, 1);
    assert_eq!(info.callers.len(), 1);
    assert!(info.has_tests);
    assert_eq!(info.dependencies, vec!["util".to_string()]);
    assert!(info.dependents.is_empty());
}

fn signature_graph(entries: &[(&str, Option<&str>, Option<i64>, bool, bool, bool)]) -> QueryEngine {
    let mut g = CodeGraph::new();
    for (name, ret, params, is_async, is_public, is_static) in entries {
        let mut p = props(name, "/src/lib.rs", 1);
        p.return_type = ret.map(|r| r.to_string());
        p.param_count = *params;
        p.is_async = Some(*is_async);
        p.is_public = Some(*is_public);
        p.is_static = Some(*is_static);
        g.add_node(NodeType::Function, p).unwrap();
    }
    indexed(g)
}

fn pattern(name: Option<&str>, ret: Option<&str>, params: Option<(usize, usize)>, mods: &[&str]) -> SignaturePattern {
    SignaturePattern {
        name_pattern: name.map(|s| s.to_string()),
        return_type: ret.map(|s| s.to_string()),
        param_count: params,
        modifiers: mods.iter().map(|s| s.to_string()).collect(),
    }
}

#[test]
fn test_find_by_signature_name_pattern() {
    let engine = signature_graph(&[
        ("getUserById", None, None, false, false, false),
        ("getOrderById", None, None, false, false, false),
        ("createUser", None, None, true, false, false),
        ("deleteUser", None, None, false, false, false),
        ("processData", None, None, false, false, false),
    ]);
    let results = engine.find_by_signature(&pattern(Some("get.*ById"), None, None, &[]), None);
    assert_eq!(results.len(), 2);
    let names: Vec<&str> = results.iter().map(|r| r.symbol.name.as_str()).collect();
    assert!(names.contains(&"getUserById"));
    assert!(names.contains(&"getOrderById"));
}

#[test]
fn test_find_by_signature_return_type() {
    let engine = signature_graph(&[
        ("getString", Some("String"), None, false, false, false),
        ("getInt", Some("i32"), None, false, false, false),
        ("getBool", Some("bool"), None, false, false, false),
        ("getResult", Some("Result<String, Error>"), None, false, false, false),
    ]);
    let results = engine.find_by_signature(&pattern(None, Some("String"), None, &[]), None);
    assert_eq!(results.len(), 1);
    assert_eq!(results[0].symbol.name, "getString");
}

#[test]
fn test_find_by_signature_return_type_normalized() {
    let engine = signature_graph(&[
        ("fn1", Some("boolean"), None, false, false, false),
        ("fn2", Some("bool"), None, false, false, false),
        ("fn3", Some("void"), None, false, false, false),
        ("fn4", Some("()"), None, false, false, false),
    ]);
    let results = engine.find_by_signature(&pattern(None, Some("bool"), None, &[]), None);
    assert_eq!(results.len(), 2);
    let names: Vec<&str> = results.iter().map(|r| r.symbol.name.as_str()).collect();
    assert!(names.contains(&"fn1"));
    assert!(names.contains(&"fn2"));
    let results = engine.find_by_signature(&pattern(None, Some("void"), None, &[]), None);
    assert_eq!(results.len(), 2);
    let names: Vec<&str> = results.iter().map(|r| r.symbol.name.as_str()).collect();
    assert!(names.contains(&"fn3"));
    assert!(names.contains(&"fn4"));
}

#[test]
fn test_find_by_signature_param_count() {
    let engine = signature_graph(&[
        ("noParams", None, Some(0), false, false, false),
        ("oneParam", None, Some(1), false, false, false),
        ("twoParams", None, Some(2), false, false, false),
        ("threeParams", None, Some(3), false, false, false),
        ("manyParams", None, Some(5), false, false, false),
    ]);
    let results = engine.find_by_signature(&pattern(None, None, Some((1, 2)), &[]), None);
    assert_eq!(results.len(), 2);
    let names: Vec<&str> = results.iter().map(|r| r.symbol.name.as_str()).collect();
    assert!(names.contains(&"oneParam"));
    assert!(names.contains(&"twoParams"));
    let results = engine.find_by_signature(&pattern(None, None, Some((0, 0)), &[]), None);
    assert_eq!(results.len(), 1);
    assert_eq!(results[0].symbol.name, "noParams");
}

#[test]
fn test_find_by_signature_modifiers() {
    let engine = signature_graph(&[
        ("syncPublic", None, None, false, true, false),
        ("asyncPublic", None, None, true, true, false),
        ("syncPrivate", None, None, false, false, false),
        ("asyncPrivate", None, None, true, false, false),
        ("staticFunc", None, None, false, false, true),
    ]);
    let results = engine.find_by_signature(&pattern(None, None, None, &["async"]), None);
    assert_eq!(results.len(), 2);
    let names: Vec<&str> = results.iter().map(|r| r.symbol.name.as_str()).collect();
    assert!(names.contains(&"asyncPublic"));
    assert!(names.contains(&"asyncPrivate"));
    let results = engine.find_by_signature(&pattern(None, None, None, &["async", "public"]), None);
    assert_eq!(results.len(), 1);
    assert_eq!(results[0].symbol.name, "asyncPublic");
    let results = engine.find_by_signature(&pattern(None, None, None, &["static"]), None);
    assert_eq!(results.len(), 1);
    assert_eq!(results[0].symbol.name, "staticFunc");
}

#[test]
fn test_find_by_signature_no_matches() {
    let engine = signature_graph(&[("someFunction", None, None, false, false, false)]);
    let results = engine.find_by_signature(&pattern(Some("nonexistent.*"), None, None, &[]), None);
    assert!(results.is_empty());
}

#[test]
fn test_find_by_signature_only_matches_functions() {
    let mut g = CodeGraph::new();
    g.add_node(NodeType::Function, props("myFunction", "/src/lib.rs", 10)).unwrap();
    g.add_node(NodeType::Class, props("myClass", "/src/lib.rs", 20)).unwrap();
    g.add_node(NodeType::Variable, props("myVariable", "/src/lib.rs", 30)).unwrap();
    let engine = indexed(g);
    let results = engine.find_by_signature(&pattern(Some("my.*"), None, None, &[]), None);
    assert_eq!(results.len(), 1);
    assert_eq!(results[0].symbol.name, "myFunction");
    assert_eq!(results[0].symbol.kind, "Function");
}

#[test]
fn test_find_by_signature_match_reason() {
    let engine = signature_graph(&[("testFunc", Some("bool"), Some(2), true, false, false)]);
    let results = engine.find_by_signature(&pattern(Some("test.*"), Some("bool"), Some((2, 2)), &["async"]), None);
    assert_eq!(results.len(), 1);
    let reason = &results[0].match_reason;
    assert!(reason.contains("name matches /test.*/"));
    assert!(reason.contains("returns bool"));
    assert!(reason.contains("2 parameters"));
    assert!(reason.contains("modifiers: async"));
}

#[test]
fn test_type_matches_wildcard() {
    let engine = signature_graph(&[
        ("fn1", Some("Result<String, Error>"), None, false, false, false),
        ("fn2", Some("Result<i32, Error>"), None, false, false, false),
        ("fn3", Some("Option<String>"), None, false, false, false),
    ]);
    let results = engine.find_by_signature(&pattern(None, Some("Result<*, Error>"), None, &[]), None);
    assert_eq!(results.len(), 2);
    let names: Vec<&str> = results.iter().map(|r| r.symbol.name.as_str()).collect();
    assert!(names.contains(&"fn1"));
    assert!(names.contains(&"fn2"));
}

#[test]
fn find_by_signature_stops_at_the_limit() {
    let engine = signature_graph(&[
        ("a1", None, None, false, false, false),
        ("a2", None, None, false, false, false),
        ("a3", None, None, false, false, false),
    ]);
    let results = engine.find_by_signature(&pattern(None, None, None, &[]), Some(2));
    assert_eq!(results.len(), 2);
    assert_eq!(results[0].symbol.name, "a1");
}

#[test]
fn find_by_signature_ignores_a_name_pattern_that_does_not_compile() {
    let engine = signature_graph(&[("a1", None, None, false, false, false)]);
    let results = engine.find_by_signature(&pattern(Some("(unclosed"), None, None, &[]), None);
    assert_eq!(results.len(), 1);
}

#[test]
fn test_detect_entry_type_http_handler() {
    let mut g = CodeGraph::new();
    let mut p = props("getUsers", "/src/handlers.rs", 1);
    p.route = Some("/api/users".to_string());
    p.http_method = Some("GET".to_string());
    let id = g.add_node(NodeType::Function, p).unwrap();
    let engine = indexed(g);
    let eps = engine.find_entry_points(&[EntryType::HttpHandler]);
    assert_eq!(eps.len(), 1);
    assert_eq!(eps[0].symbol.name, "getUsers");
    assert_eq!(eps[0].node_id, id);
    assert_eq!(eps[0].entry_type, EntryType::HttpHandler);
    assert_eq!(eps[0].route, Some("/api/users".to_string()));
    assert_eq!(eps[0].method, Some("GET".to_string()));
}

#[test]
fn test_detect_entry_type_cli_command() {
    let mut g = CodeGraph::new();
    g.add_node(NodeType::Function, props("runCommand", "/src/cli.rs", 1)).unwrap();
    let mut p = props("execute", "/src/cli.rs", 10);
    p.is_cli = Some(true);
    g.add_node(NodeType::Function, p).unwrap();
    let engine = indexed(g);
    let results = engine.find_entry_points(&[EntryType::CliCommand]);
    assert_eq!(results.len(), 2);
}

#[test]
fn test_detect_entry_type_event_handler() {
    let mut g = CodeGraph::new();
    for name in ["on_submit", "handle_submit", "button_handler", "data_callback"] {
        g.add_node(NodeType::Function, props(name, "/src/events.rs", 1)).unwrap();
    }
    let engine = indexed(g);
    let eps = engine.find_entry_points(&[EntryType::EventHandler]);
    let names: Vec<&str> = eps.iter().map(|e| e.symbol.name.as_str()).collect();
    assert!(names.contains(&"on_submit"), "on_submit should be detected (starts with on_)");
    assert!(names.contains(&"handle_submit"), "handle_submit should be detected (starts with handle_)");
    assert!(names.contains(&"button_handler"), "button_handler should be detected (ends with _handler)");
    assert!(names.contains(&"data_callback"), "data_callback should be detected (ends with _callback)");
}

#[test]
fn find_by_imports_in_each_mode() {
    let mut g = CodeGraph::new();
    let user = g.add_node(NodeType::Function, props("useReact", "/src/app.ts", 1)).unwrap();
    let react = g.add_node(NodeType::Module, props("react", "/node_modules/react", 1)).unwrap();
    let dom = g.add_node(NodeType::Module, props("react-dom", "/node_modules/react-dom", 1)).unwrap();
    g.add_edge(user, react, EdgeType::Imports).unwrap();
    g.add_edge(user, dom, EdgeType::Imports).unwrap();
    let engine = indexed(g);
    let exact = engine.find_by_imports("react", &ImportSearchOptions::new());
    assert_eq!(exact.len(), 1);
    assert_eq!(exact[0].node_id, user);
    assert_eq!(exact[0].match_reason, "imports react");
    let prefix = engine.find_by_imports("react", &ImportSearchOptions::new().with_match_mode(ImportMatchMode::Prefix));
    assert_eq!(prefix.len(), 2);
    let fuzzy = engine.find_by_imports("DOM", &ImportSearchOptions::new().with_match_mode(ImportMatchMode::Fuzzy));
    assert_eq!(fuzzy.len(), 1);
    let none = engine.find_by_imports("vue", &ImportSearchOptions::new());
    assert!(none.is_empty());
}

#[test]
fn test_find_by_signature_combined_filters() {
    let engine = signature_graph(&[
        ("getUserById", Some("User"), Some(1), true, true, false),
        ("getOrderById", Some("Order"), Some(1), true, false, false),
        ("fetchUserData", Some("User"), Some(2), true, true, false),
        ("createUser", Some("User"), Some(3), false, true, false),
        ("processRequest", Some("Response"), Some(1), true, true, false),
    ]);
    let results = engine.find_by_signature(&pattern(None, Some("User"), Some((1, 1)), &["async", "public"]), None);
    assert_eq!(results.len(), 1);
    assert_eq!(results[0].symbol.name, "getUserById");
}
