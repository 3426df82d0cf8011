use codegraph_lsp::analysis::{
    handle_find_related_tests, handle_get_call_graph, handle_get_dependency_graph, DependencyGraphParams,
};
use codegraph_lsp::coupling::handle_analyze_coupling;
use codegraph_lsp::graph::{CodeGraph, EdgeType, NodeProps, NodeType};
use codegraph_lsp::navigation::{
    default_symbol_ids, find_nearest_node, find_node_at_position, locate_node, symbol_listing, workspace_symbols,
    GetNodeLocationParams, LocationError, SymbolListing, WorkspaceSymbolsParams,
};

fn node(g: &mut CodeGraph, t: NodeType, name: &str, path: &str, start: i64, end: i64) -> u64 {
    let mut p = NodeProps::new();
    p.name = Some(name.to_string());
    p.path = Some(path.to_string());
    p.line_start = Some(start);
    p.line_end = Some(end);
    g.add_node(t, p).unwrap()
}

fn params(depth: Option<usize>, direction: Option<&str>) -> DependencyGraphParams {
    DependencyGraphParams {
        uri: "file:///src/a.rs".to_string(),
        depth,
        include_external: None,
        direction: direction.map(|s| s.to_string()),
    }
}

#[test]
fn dependency_graph_walks_imports() {
    let mut g = CodeGraph::new();
    let a = node(&mut g, NodeType::Module, "a", "/src/a.rs", 1, 10);
    let b = node(&mut g, NodeType::Module, "b", "/src/b.rs", 1, 10);
    let c = node(&mut g, NodeType::Module, "c", "/src/c.rs", 1, 10);
    g.add_edge(a, b, EdgeType::Imports).unwrap();
    g.add_edge(b, c, EdgeType::Imports).unwrap();
    let r = handle_get_dependency_graph(&g, &params(None, None), "/src/a.rs", &vec![]);
    let ids: Vec<String> = r.nodes.iter().map(|n| n.id.clone()).collect();
    assert_eq!(ids, vec![a.to_string(), b.to_string(), c.to_string()]);
    assert_eq!(r.nodes[0].label, "a");
    assert_eq!(r.nodes[0].node_type, "module");
    assert_eq!(r.nodes[0].language, "unknown");
    assert_eq!(r.nodes[0].uri, "/src/a.rs");
    assert!(r.edges.iter().all(|e| e.edge_type == "import"));
    let short = handle_get_dependency_graph(&g, &params(Some(1), Some("imports")), "/src/a.rs", &vec![]);
    assert_eq!(short.nodes.len(), 2);
    let back = handle_get_dependency_graph(&g, &params(None, Some("importedBy")), "/src/a.rs", &vec![]);
    assert_eq!(back.nodes.len(), 1);
    let none = handle_get_dependency_graph(&g, &params(None, None), "/src/zzz.rs", &vec![]);
    assert!(none.nodes.is_empty());
    assert!(none.edges.is_empty());
}

#[test]
fn call_graph_around_a_function() {
    let mut g = CodeGraph::new();
    let a = node(&mut g, NodeType::Function, "a", "/src/a.rs", 1, 5);
    let b = node(&mut g, NodeType::Function, "b", "/src/a.rs", 6, 9);
    let c = node(&mut g, NodeType::Function, "c", "/src/a.rs", 10, 12);
    g.add_edge(a, b, EdgeType::Calls).unwrap();
    g.add_edge(b, c, EdgeType::Calls).unwrap();
    g.add_edge(c, c, EdgeType::Calls).unwrap();
    let r = handle_get_call_graph(&g, Some(b), "file:///src/a.rs", None, None, &vec![]);
    assert_eq!(r.root.as_ref().unwrap().name, "b");
    assert_eq!(r.nodes.len(), 3);
    assert!(r.edges.iter().any(|e| e.is_recursive));
    let callees = handle_get_call_graph(&g, Some(b), "file:///src/a.rs", Some("callees"), Some(1), &vec![]);
    let names: Vec<&str> = callees.nodes.iter().map(|n| n.name.as_str()).collect();
    assert!(names.contains(&"c"));
    assert!(!names.contains(&"a"));
    let empty = handle_get_call_graph(&g, None, "file:///src/a.rs", None, None, &vec![]);
    assert!(empty.root.is_none());
    assert!(empty.nodes.is_empty());
}

#[test]
fn related_tests_of_a_function() {
    let mut g = CodeGraph::new();
    let t = node(&mut g, NodeType::Function, "target", "/src/lib.rs", 1, 5);
    let t1 = node(&mut g, NodeType::Function, "test_target", "/src/tests/lib_test.rs", 1, 5);
    let t2 = node(&mut g, NodeType::Function, "helper", "/src/lib.rs", 7, 9);
    g.add_edge(t1, t, EdgeType::Calls).unwrap();
    g.add_edge(t2, t, EdgeType::Calls).unwrap();
    let r = handle_find_related_tests(&g, Some(t), "/src/lib.rs", None, &vec![]);
    assert!(!r.tests.is_empty());
    assert_eq!(r.tests[0].test_name, "test_target");
    assert_eq!(r.tests[0].relationship, "calls_target");
    let none = handle_find_related_tests(&g, None, "/src/lib.rs", None, &vec![]);
    assert!(none.tests.is_empty());
    assert!(none.truncated.is_none());
}

#[test]
fn coupling_of_a_file() {
    let mut g = CodeGraph::new();
    let a = node(&mut g, NodeType::Function, "a", "/src/a.rs", 1, 5);
    let a2 = node(&mut g, NodeType::Function, "a2", "/src/a.rs", 6, 9);
    let b = node(&mut g, NodeType::Function, "b", "/src/b.rs", 1, 5);
    let c = node(&mut g, NodeType::Function, "c", "/src/c.rs", 1, 5);
    g.add_edge(a, a2, EdgeType::Calls).unwrap();
    g.add_edge(a, b, EdgeType::Calls).unwrap();
    g.add_edge(c, a, EdgeType::Imports).unwrap();
    let r = handle_analyze_coupling(&g, &vec![a, a2]);
    assert_eq!(r.internal_refs, 1);
    assert_eq!(r.external_refs, 1);
    assert_eq!(r.efferent, 1);
    assert_eq!(r.afferent, 1);
    assert_eq!(r.dependencies, vec!["b".to_string()]);
    assert_eq!(r.dependents, vec!["c".to_string()]);
}

#[test]
fn node_at_position_prefers_the_index() {
    let mut g = CodeGraph::new();
    let a = node(&mut g, NodeType::Function, "a", "/f.rs", 10, 20);
    let b = node(&mut g, NodeType::Function, "b", "/f.rs", 30, 40);
    assert_eq!(find_node_at_position(&g, Some(b), &vec![a, b], 14, 0), Some(b));
    assert_eq!(find_node_at_position(&g, None, &vec![a, b], 14, 0), Some(a));
    assert_eq!(find_node_at_position(&g, None, &vec![a, b], 24, 0), None);
    assert_eq!(find_node_at_position(&g, None, &vec![], 14, 0), None);
}

#[test]
fn nearest_node_falls_back() {
    let mut g = CodeGraph::new();
    let a = node(&mut g, NodeType::Function, "a", "/f.rs", 10, 20);
    let b = node(&mut g, NodeType::Function, "b", "/f.rs", 30, 40);
    assert_eq!(find_nearest_node(&g, None, &vec![a, b], 14, 0), Some((a, false)));
    assert_eq!(find_nearest_node(&g, None, &vec![a, b], 27, 0), Some((b, true)));
    assert_eq!(find_nearest_node(&g, None, &vec![], 27, 0), None);
}

#[test]
fn node_location_by_id() {
    let mut g = CodeGraph::new();
    let mut p = NodeProps::new();
    p.name = Some("f".to_string());
    p.path = Some("/src/f.rs".to_string());
    p.start_line = Some(20);
    p.end_line = Some(25);
    p.start_col = Some(4);
    let a = g.add_node(NodeType::Function, p).unwrap();
    let mut q = NodeProps::new();
    q.name = Some("orphan_node".to_string());
    let b = g.add_node(NodeType::Function, q).unwrap();
    let l = locate_node(&g, &GetNodeLocationParams { node_id: a.to_string() }).unwrap().unwrap();
    assert_eq!(l.path, "/src/f.rs");
    assert_eq!(l.range.start_line, 19);
    assert_eq!(l.range.start_character, 4);
    assert_eq!(l.range.end_line, 24);
    assert!(locate_node(&g, &GetNodeLocationParams { node_id: b.to_string() }).unwrap().is_none());
    assert!(locate_node(&g, &GetNodeLocationParams { node_id: "999".to_string() }).unwrap().is_none());
    assert_eq!(
        locate_node(&g, &GetNodeLocationParams { node_id: "x1".to_string() }).err(),
        Some(LocationError::InvalidNodeId)
    );
}

#[test]
fn workspace_symbols_list_present_nodes() {
    let mut g = CodeGraph::new();
    let a = node(&mut g, NodeType::Class, "A", "/src/a.rs", 1, 2);
    let s = workspace_symbols(&g, &vec![a, 999]);
    assert_eq!(s.len(), 1);
    assert_eq!(s[0].id, a.to_string());
    assert_eq!(s[0].kind, "Class");
    assert_eq!(s[0].language, "unknown");
    assert_eq!(s[0].range.start_line, 0);
    assert_eq!(s[0].range.end_line, 0);
    let f: Vec<u64> = (0..80).collect();
    let c: Vec<u64> = (100..150).collect();
    let m: Vec<u64> = vec![500];
    let ids = default_symbol_ids(&f, &c, &m);
    assert_eq!(ids.len(), 100);
    assert_eq!(ids[79], 79);
    assert_eq!(ids[80], 100);
    assert_eq!(default_symbol_ids(&vec![1], &vec![2], &vec![3]), vec![1, 2, 3]);
    assert!(matches!(symbol_listing(&WorkspaceSymbolsParams { query: None }), SymbolListing::All));
    assert!(matches!(
        symbol_listing(&WorkspaceSymbolsParams { query: Some(String::new()) }),
        SymbolListing::TopLevel
    ));
    match symbol_listing(&WorkspaceSymbolsParams { query: Some("foo".to_string()) }) {
        SymbolListing::ByName(q) => assert_eq!(q, "foo"),
        _ => panic!("expected a search by name"),
    }
}
