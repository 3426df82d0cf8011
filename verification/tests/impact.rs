use codegraph_lsp::graph::{CodeGraph, EdgeType, NodeProps, NodeType};
use codegraph_lsp::impact::{handle_analyze_impact, severity_name};

fn node(g: &mut CodeGraph, name: &str, path: &str, line: i64) -> u64 {
    let mut p = NodeProps::new();
    p.name = Some(name.to_string());
    p.path = Some(path.to_string());
    p.line_start = Some(line);
    g.add_node(NodeType::Function, p).unwrap()
}

fn sample() -> (CodeGraph, u64) {
    let mut g = CodeGraph::new();
    let t = node(&mut g, "target", "/src/lib.rs", 10);
    let a = node(&mut g, "useTarget", "/src/a.rs", 3);
    let a2 = node(&mut g, "other", "/src/a.rs", 20);
    let tt = node(&mut g, "test_target", "/tests/t.rs", 1);
    let b = node(&mut g, "b", "/src/b.rs", 1);
    let c = node(&mut g, "c", "/src/c.rs", 1);
    let d = node(&mut g, "d", "/src/d.rs", 1);
    g.add_edge(a, t, EdgeType::Calls).unwrap();
    g.add_edge(tt, t, EdgeType::References).unwrap();
    g.add_edge(b, a2, EdgeType::Calls).unwrap();
    g.add_edge(c, b, EdgeType::Calls).unwrap();
    g.add_edge(d, c, EdgeType::Calls).unwrap();
    (g, t)
}

#[test]
fn impact_of_deleting_a_symbol() {
    let (g, t) = sample();
    let r = handle_analyze_impact(&g, Some(t), "delete", &vec![]);
    assert_eq!(r.direct_impact.len(), 2);
    assert_eq!(r.direct_impact[0].uri, "/src/a.rs");
    assert_eq!(r.direct_impact[0].impact_type, "caller");
    assert_eq!(r.direct_impact[0].severity, "breaking");
    assert_eq!(r.direct_impact[0].range.start_line, 2);
    assert_eq!(r.direct_impact[0].range.end_line, 3);
    assert_eq!(r.direct_impact[1].uri, "/tests/t.rs");
    assert_eq!(r.direct_impact[1].impact_type, "reference");
    assert_eq!(r.affected_tests.len(), 1);
    assert_eq!(r.affected_tests[0].test_name, "test_target");
    assert_eq!(r.affected_tests[0].uri, "/tests/t.rs");
    assert_eq!(r.indirect_impact.len(), 2);
    assert_eq!(r.indirect_impact[0].uri, "/src/b.rs");
    assert_eq!(r.indirect_impact[0].path, vec!["/src/a.rs", "/src/b.rs"]);
    assert_eq!(r.indirect_impact[0].severity, "warning");
    assert_eq!(r.indirect_impact[1].uri, "/src/c.rs");
    assert_eq!(r.indirect_impact[1].path, vec!["/src/a.rs", "/src/b.rs", "/src/c.rs"]);
    assert_eq!(r.summary.files_affected, 2);
    assert_eq!(r.summary.breaking_changes, 2);
    assert_eq!(r.summary.warnings, 2);
}

#[test]
fn impact_of_modifying_counts_warnings() {
    let (g, t) = sample();
    let r = handle_analyze_impact(&g, Some(t), "modify", &vec![]);
    assert_eq!(r.summary.breaking_changes, 0);
    assert_eq!(r.summary.warnings, 4);
    assert_eq!(r.direct_impact[0].severity, "warning");
    let r = handle_analyze_impact(&g, Some(t), "explore", &vec![]);
    assert_eq!(r.direct_impact[0].severity, "info");
    assert_eq!(r.summary.warnings, 2);
}

#[test]
fn impact_without_a_symbol_is_empty() {
    let (g, _) = sample();
    let r = handle_analyze_impact(&g, None, "delete", &vec![]);
    assert!(r.direct_impact.is_empty());
    assert!(r.indirect_impact.is_empty());
    assert!(r.affected_tests.is_empty());
    assert_eq!(r.summary.files_affected, 0);
    assert_eq!(r.summary.breaking_changes, 0);
    assert_eq!(r.summary.warnings, 0);
}

#[test]
fn impact_uses_the_symbol_index_for_nodes_without_a_path() {
    let mut g = CodeGraph::new();
    let t = node(&mut g, "target", "/src/lib.rs", 1);
    let mut p = NodeProps::new();
    p.name = Some("anon".to_string());
    let a = g.add_node(NodeType::Function, p).unwrap();
    g.add_edge(a, t, EdgeType::Calls).unwrap();
    let r = handle_analyze_impact(&g, Some(t), "rename", &vec![(a, "/src/z.rs".to_string())]);
    assert_eq!(r.direct_impact[0].uri, "file:///src/z.rs");
    assert_eq!(r.summary.breaking_changes, 1);
}

#[test]
fn severities_by_kind_of_change() {
    assert_eq!(severity_name("delete"), "breaking");
    assert_eq!(severity_name("rename"), "breaking");
    assert_eq!(severity_name("modify"), "warning");
    assert_eq!(severity_name(""), "info");
}
