use codegraph_lsp::context::{intent_candidates, usage_candidates};
use codegraph_lsp::graph::{CodeGraph, EdgeType, NodeProps, NodeType};
use codegraph_lsp::metrics::{unused_item_type, unused_lines, unused_reason};

fn named(g: &mut CodeGraph, name: &str) -> u64 {
    let mut p = NodeProps::new();
    p.name = Some(name.to_string());
    g.add_node(NodeType::Function, p).unwrap()
}

fn pairs(v: &[codegraph_lsp::context::RelatedCandidate]) -> Vec<(u64, String)> {
    v.iter().map(|c| (c.node_id, c.relationship.clone())).collect()
}

#[test]
fn intent_groups_of_a_function() {
    let mut g = CodeGraph::new();
    let f = named(&mut g, "target");
    let helper = named(&mut g, "helper");
    let caller = named(&mut g, "caller");
    let test = named(&mut g, "test_target");
    g.add_edge(f, helper, EdgeType::Calls).unwrap();
    g.add_edge(caller, f, EdgeType::Calls).unwrap();
    g.add_edge(test, f, EdgeType::Calls).unwrap();
    let explain = intent_candidates(&g, f, "explain");
    assert_eq!(explain.len(), 3);
    assert_eq!(pairs(&explain[0]), vec![(helper, "uses".to_string())]);
    assert_eq!(pairs(&explain[1]), vec![(caller, "called_by".to_string()), (test, "called_by".to_string())]);
    assert!(explain[2].is_empty());
    let tests = intent_candidates(&g, f, "test");
    assert_eq!(pairs(&tests[0]), vec![(test, "example_test".to_string())]);
    assert!(intent_candidates(&g, f, "refactor").is_empty());
    assert_eq!(pairs(&usage_candidates(&g, f)), vec![(caller, "usage".to_string())]);
}

#[test]
fn unused_item_fields() {
    assert_eq!(unused_item_type(NodeType::Function), "function");
    assert_eq!(unused_item_type(NodeType::Class), "class");
    assert_eq!(unused_item_type(NodeType::Variable), "variable");
    assert_eq!(unused_item_type(NodeType::Interface), "type");
    assert_eq!(unused_reason(true), "Exported but no internal callers or importers found");
    assert_eq!(unused_reason(false), "No callers or importers found in codebase");
    assert_eq!(unused_lines(10, 14), 5);
    assert_eq!(unused_lines(14, 10), 1);
}
