use codegraph_lsp::domain::{analyze_impact, fallback_message, get_call_graph, risk_level, symbol_name};
use codegraph_lsp::engine::QueryEngine;
use codegraph_lsp::graph::{CodeGraph, EdgeType, NodeProps, NodeType};

fn node(g: &mut CodeGraph, name: &str) -> u64 {
    let mut p = NodeProps::new();
    p.name = Some(name.to_string());
    p.path = Some("/src/x.rs".to_string());
    p.line_start = Some(1);
    g.add_node(NodeType::Function, p).unwrap()
}

fn engine() -> (QueryEngine, u64, u64, u64) {
    let mut g = CodeGraph::new();
    let a = node(&mut g, "a");
    let b = node(&mut g, "b");
    let c = node(&mut g, "c");
    g.add_edge(a, b, EdgeType::Calls).unwrap();
    g.add_edge(b, c, EdgeType::Calls).unwrap();
    let mut e = QueryEngine::new(g);
    e.build_indexes();
    (e, a, b, c)
}

#[test]
fn fallback_note_names_line_and_symbol() {
    assert_eq!(fallback_message(Some(12), "foo"), "No symbol at line 12. Using nearest symbol 'foo' instead.");
    assert_eq!(fallback_message(None, "x"), "No symbol at line 0. Using nearest symbol 'x' instead.");
}

#[test]
fn call_graph_in_both_directions() {
    let (e, a, b, c) = engine();
    let r = get_call_graph(&e, b, 1, "both", false, None);
    assert_eq!(r.root, b.to_string());
    assert_eq!(r.symbol_name, "b");
    let ids: Vec<&str> = r.nodes.iter().map(|n| n.id.as_str()).collect();
    assert!(ids.contains(&a.to_string().as_str()));
    assert!(ids.contains(&c.to_string().as_str()));
    assert!(r.used_fallback.is_none());
    let r = get_call_graph(&e, b, 1, "callees", true, Some(4));
    assert_eq!(r.used_fallback, Some(true));
    assert_eq!(r.fallback_message, Some("No symbol at line 4. Using nearest symbol 'b' instead.".to_string()));
    assert!(r.nodes.iter().all(|n| n.id != a.to_string()));
    assert_eq!(symbol_name(&e.graph, c), "c");
    assert_eq!(symbol_name(&e.graph, 999), "");
}

#[test]
fn impact_of_changing_a_leaf() {
    let (e, a, b, c) = engine();
    let r = analyze_impact(&e, c, "delete", false, None);
    assert_eq!(r.symbol_name, "c");
    assert_eq!(r.total_impacted, 2);
    assert_eq!(r.direct_impacted, 1);
    assert_eq!(r.risk_level, "high");
    let ids: Vec<&str> = r.impacted.iter().map(|i| i.node_id.as_str()).collect();
    assert!(ids.contains(&b.to_string().as_str()));
    assert!(ids.contains(&a.to_string().as_str()));
    let r = analyze_impact(&e, a, "delete", false, None);
    assert_eq!(r.total_impacted, 0);
    assert_eq!(r.risk_level, "low");
}

#[test]
fn risk_grows_with_dependents_and_severity_of_change() {
    assert_eq!(risk_level("delete", 11), "critical");
    assert_eq!(risk_level("delete", 1), "high");
    assert_eq!(risk_level("delete", 0), "low");
    assert_eq!(risk_level("rename", 11), "high");
    assert_eq!(risk_level("rename", 3), "medium");
    assert_eq!(risk_level("modify", 21), "medium");
    assert_eq!(risk_level("modify", 20), "low");
    assert_eq!(risk_level("other", 100), "low");
}
