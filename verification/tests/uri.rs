use codegraph_lsp::analysis::{call_graph_at, dependency_graph_at, related_tests_at, DependencyGraphParams};
use codegraph_lsp::coupling::{coupling_at, CouplingParams};
use codegraph_lsp::graph::{CodeGraph, EdgeType, NodeProps, NodeType};
use codegraph_lsp::impact::analyze_impact_at;
use codegraph_lsp::location::{function_at_line, location_path_of, pick_function, PickError};
use codegraph_lsp::uri::{file_path_of_uri, nearest_node_at_uri, node_at_uri, symbols_of_file, UriError};

fn node(g: &mut CodeGraph, ty: NodeType, name: &str, path: &str, start: i64, end: i64) -> u64 {
    let mut p = NodeProps::new();
    p.name = Some(name.to_string());
    p.path = Some(path.to_string());
    p.line_start = Some(start);
    p.line_end = Some(end);
    g.add_node(ty, p).unwrap()
}

/// A target function in `/src/lib.rs` (lines 10 to 20) called from
/// `/src/a.rs` and referenced by a test in `/tests/t.rs`.
fn sample() -> (CodeGraph, u64, u64, Vec<(String, Vec<u64>)>) {
    let mut g = CodeGraph::new();
    let t = node(&mut g, NodeType::Function, "target", "/src/lib.rs", 10, 20);
    let a = node(&mut g, NodeType::Function, "useTarget", "/src/a.rs", 3, 5);
    let tt = node(&mut g, NodeType::Function, "test_target", "/tests/t.rs", 1, 4);
    g.add_edge(a, t, EdgeType::Calls).unwrap();
    g.add_edge(tt, t, EdgeType::References).unwrap();
    let table = vec![
        ("/src/lib.rs".to_string(), vec![t]),
        ("/src/a.rs".to_string(), vec![a]),
        ("/tests/t.rs".to_string(), vec![tt]),
    ];
    (g, t, a, table)
}

#[test]
fn file_uri_names_its_path() {
    assert_eq!(file_path_of_uri("file:///src/lib.rs"), Ok("/src/lib.rs".to_string()));
    assert_eq!(file_path_of_uri("file:///src/my%20file.rs"), Ok("/src/my file.rs".to_string()));
}

#[test]
fn text_that_is_no_url_is_an_invalid_uri() {
    assert_eq!(file_path_of_uri("not a uri"), Err(UriError::InvalidUri));
    assert_eq!(file_path_of_uri(""), Err(UriError::InvalidUri));
}

#[test]
fn url_with_a_remote_host_is_an_invalid_file_path() {
    assert_eq!(file_path_of_uri("http://example.com/a.rs"), Err(UriError::InvalidFilePath));
}

#[test]
fn symbols_of_a_file_come_from_its_first_entry() {
    let table = vec![
        ("/a.rs".to_string(), vec![1, 2]),
        ("/b.rs".to_string(), vec![3]),
        ("/a.rs".to_string(), vec![9]),
    ];
    assert_eq!(symbols_of_file(&table, "/a.rs"), vec![1, 2]);
    assert_eq!(symbols_of_file(&table, "/b.rs"), vec![3]);
    assert!(symbols_of_file(&table, "/c.rs").is_empty());
}

#[test]
fn node_at_a_uri_position() {
    let (g, t, _, table) = sample();
    assert_eq!(node_at_uri(&g, "file:///src/lib.rs", 11, 0, &table), Ok(Some(t)));
    assert_eq!(node_at_uri(&g, "file:///src/lib.rs", 30, 0, &table), Ok(None));
    assert_eq!(node_at_uri(&g, "file:///src/other.rs", 11, 0, &table), Ok(None));
    assert_eq!(node_at_uri(&g, "nonsense", 11, 0, &table), Err(UriError::InvalidUri));
}

#[test]
fn impact_at_a_uri_position() {
    let (g, _, _, table) = sample();
    let r = analyze_impact_at(&g, "file:///src/lib.rs", 11, 0, "delete", &table, &vec![]).unwrap();
    assert_eq!(r.direct_impact.len(), 2);
    assert_eq!(r.direct_impact[0].uri, "/src/a.rs");
    assert_eq!(r.direct_impact[0].severity, "breaking");
    assert_eq!(r.affected_tests.len(), 1);
    assert_eq!(r.affected_tests[0].test_name, "test_target");
    assert_eq!(r.summary.breaking_changes, 2);
    assert_eq!(r.summary.files_affected, 2);
    let empty = analyze_impact_at(&g, "file:///src/lib.rs", 40, 0, "delete", &table, &vec![]).unwrap();
    assert!(empty.direct_impact.is_empty());
    assert_eq!(empty.summary.files_affected, 0);
    assert!(matches!(
        analyze_impact_at(&g, "::", 11, 0, "delete", &table, &vec![]),
        Err(UriError::InvalidUri)
    ));
    assert!(matches!(
        analyze_impact_at(&g, "http://host/src/lib.rs", 11, 0, "delete", &table, &vec![]),
        Err(UriError::InvalidFilePath)
    ));
}

#[test]
fn call_graph_at_a_uri_position() {
    let (g, t, a, table) = sample();
    let r = call_graph_at(&g, "file:///src/lib.rs", 9, 0, Some("callers"), Some(1), &table, &vec![]).unwrap();
    let root = r.root.unwrap();
    assert_eq!(root.id, t.to_string());
    assert_eq!(root.uri, "file:///src/lib.rs");
    assert_eq!(r.nodes.len(), 2);
    assert_eq!(r.nodes[1].id, a.to_string());
    assert_eq!(r.edges.len(), 1);
    assert_eq!(r.edges[0].from, a.to_string());
    assert_eq!(r.edges[0].to, t.to_string());
    let none = call_graph_at(&g, "file:///src/lib.rs", 2, 0, None, None, &table, &vec![]).unwrap();
    assert!(none.root.is_none());
    assert!(none.nodes.is_empty());
    assert!(matches!(
        call_graph_at(&g, "no uri", 9, 0, None, None, &table, &vec![]),
        Err(UriError::InvalidUri)
    ));
}

#[test]
fn coupling_at_a_uri() {
    let (g, _, _, table) = sample();
    let at = |uri: &str| CouplingParams { uri: uri.to_string(), include_external: None, depth: None };
    let r = coupling_at(&g, &at("file:///src/lib.rs"), &table).unwrap();
    assert_eq!(r.afferent, 1);
    assert_eq!(r.dependents, vec!["a".to_string()]);
    assert_eq!(r.efferent, 0);
    let other = coupling_at(&g, &at("file:///src/a.rs"), &table).unwrap();
    assert_eq!(other.efferent, 1);
    assert_eq!(other.dependencies, vec!["lib".to_string()]);
    assert!(matches!(coupling_at(&g, &at("bad uri"), &table), Err(UriError::InvalidUri)));
}

#[test]
fn related_tests_at_a_uri_position() {
    let (g, _, _, table) = sample();
    let r = related_tests_at(&g, "file:///src/lib.rs", 12, 0, None, &table, &vec![]).unwrap();
    assert_eq!(r.tests.len(), 1);
    assert_eq!(r.tests[0].test_name, "test_target");
    assert_eq!(r.tests[0].relationship, "references_target");
    let none = related_tests_at(&g, "file:///src/lib.rs", 0, 0, None, &table, &vec![]).unwrap();
    assert!(none.tests.is_empty());
    assert!(none.truncated.is_none());
    assert!(matches!(
        related_tests_at(&g, "bad uri", 12, 0, None, &table, &vec![]),
        Err(UriError::InvalidUri)
    ));
}

#[test]
fn dependency_graph_at_a_uri() {
    let mut g = CodeGraph::new();
    let m = node(&mut g, NodeType::Module, "main", "/src/main.rs", 1, 1);
    let u = node(&mut g, NodeType::Module, "util", "/src/util.rs", 1, 1);
    g.add_edge(m, u, EdgeType::Imports).unwrap();
    let params = DependencyGraphParams {
        uri: "file:///src/main.rs".to_string(),
        depth: None,
        include_external: None,
        direction: None,
    };
    let r = dependency_graph_at(&g, &params, &vec![]).unwrap();
    assert_eq!(r.nodes.len(), 2);
    assert_eq!(r.nodes[0].id, m.to_string());
    assert_eq!(r.nodes[1].id, u.to_string());
    assert_eq!(r.edges.len(), 2);
    assert_eq!(r.edges[0].from, m.to_string());
    assert_eq!(r.edges[0].to, u.to_string());
    let bad = DependencyGraphParams { uri: "bad uri".to_string(), depth: None, include_external: None, direction: None };
    assert!(matches!(dependency_graph_at(&g, &bad, &vec![]), Err(UriError::InvalidUri)));
}

#[test]
fn location_path_drops_the_file_scheme() {
    assert_eq!(location_path_of("file:///src/a.rs"), "/src/a.rs");
    assert_eq!(location_path_of("src/a.rs"), "src/a.rs");
    assert_eq!(location_path_of("file:/"), "file:/");
}

#[test]
fn smallest_function_spanning_a_line_is_picked() {
    let mut g = CodeGraph::new();
    let outer = node(&mut g, NodeType::Function, "outer", "/proj/src/a.rs", 1, 50);
    let inner = node(&mut g, NodeType::Function, "inner", "/proj/src/a.rs", 10, 20);
    let twin = node(&mut g, NodeType::Function, "twin", "/proj/src/a.rs", 12, 22);
    let _class = node(&mut g, NodeType::Class, "K", "/proj/src/a.rs", 11, 11);
    assert_eq!(function_at_line(&g, "file:///proj/src/a.rs", 15), Some(inner));
    assert_eq!(function_at_line(&g, "src/a.rs", 5), Some(outer));
    assert_eq!(function_at_line(&g, "file:///proj/src/a.rs", 21), Some(twin));
    assert_eq!(function_at_line(&g, "file:///proj/src/a.rs", 11), Some(inner));
    assert_eq!(function_at_line(&g, "file:///proj/src/a.rs", 60), None);
    assert_eq!(function_at_line(&g, "file:///other.rs", 15), None);
}

#[test]
fn picking_a_function_by_id_or_location() {
    let mut g = CodeGraph::new();
    let f = node(&mut g, NodeType::Function, "f", "/src/a.rs", 0, 9);
    assert_eq!(pick_function(&g, Some("42"), Some("file:///src/a.rs"), Some(3)), Ok(42));
    assert_eq!(pick_function(&g, Some("x1"), None, None), Err(PickError::InvalidNodeId));
    assert_eq!(pick_function(&g, None, Some("file:///src/a.rs"), None), Ok(f));
    assert_eq!(pick_function(&g, None, Some("file:///src/a.rs"), Some(4)), Ok(f));
    assert_eq!(pick_function(&g, None, Some("file:///src/a.rs"), Some(40)), Err(PickError::NotFound));
    assert_eq!(pick_function(&g, None, Some("file:///src/a.rs"), Some((1u64 << 32) + 4)), Ok(f));
    assert_eq!(pick_function(&g, None, None, Some(4)), Err(PickError::MissingTarget));
}

#[test]
fn nearest_node_at_a_uri_position() {
    let (g, t, _, table) = sample();
    assert_eq!(nearest_node_at_uri(&g, "file:///src/lib.rs", 11, 0, &table), Ok(Some((t, false))));
    assert_eq!(nearest_node_at_uri(&g, "file:///src/lib.rs", 40, 0, &table), Ok(Some((t, true))));
    assert_eq!(nearest_node_at_uri(&g, "file:///src/none.rs", 11, 0, &table), Ok(None));
    assert_eq!(nearest_node_at_uri(&g, "bad uri", 11, 0, &table), Err(UriError::InvalidUri));
}
