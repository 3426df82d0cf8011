use codegraph_lsp::git::{
    changed_files, grep_patterns, hotspot_memory, mining_settings, GitExecutor, Hotspot, MiningRequest,
};
use codegraph_lsp::graph::{CodeGraph, Direction, EdgeType, NodeProps, NodeType};
use codegraph_lsp::lsp::{
    document_symbols, extract_node_id_from_item, find_references, goto_definition, hover_markdown, incoming_calls,
    node_to_location, outgoing_calls, prepare_call_hierarchy, ItemIdError, LocationFailure, SymbolKindName,
};
use codegraph_lsp::navigation::{find_nearest_node, find_node_at_position};
use codegraph_lsp::source::{source_excerpt, source_lookup, SourceLookup};

fn function(g: &mut CodeGraph, name: &str, start: i64, end: i64, signature: &str) -> u64 {
    let mut p = NodeProps::new();
    p.name = Some(name.to_string());
    p.path = Some("/test/file.rs".to_string());
    p.line_start = Some(start);
    p.line_end = Some(end);
    p.col_start = Some(0);
    p.col_end = Some(50);
    p.signature = Some(signature.to_string());
    g.add_node(NodeType::Function, p).unwrap()
}

/// `test_function` at lines 10 to 20, and `caller_function` calling it.
fn graph_with_nodes() -> (CodeGraph, u64, u64) {
    let mut g = CodeGraph::new();
    let f1 = function(&mut g, "test_function", 10, 20, "fn test_function() -> bool");
    let f2 = function(&mut g, "caller_function", 30, 40, "fn caller_function()");
    g.add_edge(f2, f1, EdgeType::Calls).unwrap();
    (g, f1, f2)
}

#[test]
fn test_find_node_at_position_empty_graph() {
    let g = CodeGraph::new();
    assert_eq!(find_node_at_position(&g, None, &vec![], 10, 5), None);
}

#[test]
fn test_find_node_at_position_with_indexed_symbol() {
    let (g, f1, _) = graph_with_nodes();
    assert_eq!(find_node_at_position(&g, None, &vec![f1], 14, 10), Some(f1));
    assert_eq!(find_node_at_position(&g, Some(f1), &vec![f1], 14, 10), Some(f1));
}

#[test]
fn test_find_nearest_node_exact_match() {
    let (g, f1, _) = graph_with_nodes();
    assert_eq!(find_nearest_node(&g, None, &vec![f1], 14, 10), Some((f1, false)));
}

#[test]
fn test_find_nearest_node_fallback() {
    let (g, f1, _) = graph_with_nodes();
    assert_eq!(find_nearest_node(&g, None, &vec![f1], 0, 0), Some((f1, true)));
}

#[test]
fn test_get_connected_edges_outgoing() {
    let (g, f1, f2) = graph_with_nodes();
    let edges = g.get_connected_edges(f2, Direction::Outgoing);
    assert_eq!(edges.len(), 1);
    assert_eq!(edges[0].0, f2);
    assert_eq!(edges[0].1, f1);
    assert_eq!(edges[0].2, EdgeType::Calls);
}

#[test]
fn test_get_connected_edges_incoming() {
    let (g, f1, f2) = graph_with_nodes();
    let edges = g.get_connected_edges(f1, Direction::Incoming);
    assert_eq!(edges.len(), 1);
    assert_eq!(edges[0].0, f2);
    assert_eq!(edges[0].1, f1);
    assert_eq!(edges[0].2, EdgeType::Calls);
}

#[test]
fn test_get_connected_edges_both() {
    let (g, f1, _) = graph_with_nodes();
    assert_eq!(g.get_connected_edges(f1, Direction::Both).len(), 1);
}

#[test]
fn test_node_to_location() {
    let (g, f1, _) = graph_with_nodes();
    let l = node_to_location(&g, f1, &vec![]).unwrap();
    assert!(l.path.contains("file.rs"));
    assert_eq!(l.range.start_line, 9);
    assert_eq!(l.range.end_line, 19);
    assert_eq!(l.range.end_character, 50);
}

#[test]
fn test_node_to_location_missing_path() {
    let mut g = CodeGraph::new();
    let mut p = NodeProps::new();
    p.name = Some("orphan_node".to_string());
    let id = g.add_node(NodeType::Function, p).unwrap();
    assert_eq!(node_to_location(&g, id, &vec![]).err(), Some(LocationFailure::NoPath));
    let l = node_to_location(&g, id, &vec![(id, "/indexed.rs".to_string())]).unwrap();
    assert_eq!(l.path, "/indexed.rs");
    assert_eq!((l.range.start_line, l.range.end_line), (0, 0));
    assert_eq!(node_to_location(&g, id + 7, &vec![]).err(), Some(LocationFailure::NodeNotFound));
}

#[test]
fn test_get_node_source_code_from_property() {
    let mut g = CodeGraph::new();
    let mut p = NodeProps::new();
    p.name = Some("test_func".to_string());
    p.source = Some("fn test_func() { }".to_string());
    let id = g.add_node(NodeType::Function, p).unwrap();
    match source_lookup(&g, id, &vec![]) {
        Some(SourceLookup::Inline(s)) => assert_eq!(s, "fn test_func() { }"),
        other => panic!("unexpected {:?}", other),
    }
}

#[test]
fn test_get_node_source_code_from_file() {
    let mut g = CodeGraph::new();
    let mut p = NodeProps::new();
    p.name = Some("test_func".to_string());
    p.path = Some("test.rs".to_string());
    p.line_start = Some(2);
    p.line_end = Some(4);
    let id = g.add_node(NodeType::Function, p).unwrap();
    let (start, end) = match source_lookup(&g, id, &vec![]) {
        Some(SourceLookup::File { start, end, .. }) => (start, end),
        other => panic!("unexpected {:?}", other),
    };
    let content = "line 1\nline 2\nline 3\nline 4\nline 5";
    assert_eq!(source_excerpt(content, start, end), Some("line 2\nline 3\nline 4".to_string()));
}

#[test]
fn test_extract_node_id_from_item_valid() {
    assert_eq!(extract_node_id_from_item(&Some(Some("123".to_string()))), Ok(123));
}

#[test]
fn test_extract_node_id_from_item_missing_data() {
    assert_eq!(extract_node_id_from_item(&None), Err(ItemIdError::MissingData));
    assert_eq!(extract_node_id_from_item(&Some(None)), Err(ItemIdError::MissingNodeId));
}

#[test]
fn test_extract_node_id_from_item_invalid_node_id() {
    assert_eq!(extract_node_id_from_item(&Some(Some("not_a_number".to_string()))), Err(ItemIdError::InvalidNodeId));
}

#[test]
fn definition_follows_the_first_definition_edge() {
    let (mut g, f1, f2) = graph_with_nodes();
    let to_def = goto_definition(&g, f2, &vec![]).unwrap();
    assert_eq!(to_def.range.start_line, 9);
    let at_def = goto_definition(&g, f1, &vec![]).unwrap();
    assert_eq!(at_def.range.start_line, 9);
    // a definition without a location falls back to the reference itself
    let orphan = g.add_node(NodeType::Function, NodeProps::new()).unwrap();
    let r = function(&mut g, "user", 50, 52, "fn user()");
    g.add_edge(r, orphan, EdgeType::References).unwrap();
    assert_eq!(goto_definition(&g, r, &vec![]).unwrap().range.start_line, 49);
}

#[test]
fn references_list_declaration_then_callers() {
    let (mut g, f1, f2) = graph_with_nodes();
    let f3 = function(&mut g, "third", 60, 61, "fn third()");
    g.add_edge(f3, f1, EdgeType::Calls).unwrap();
    let with: Vec<u32> = find_references(&g, f2, true, &vec![]).iter().map(|l| l.range.start_line).collect();
    assert_eq!(with, vec![9, 29, 59]);
    let without: Vec<u32> = find_references(&g, f1, false, &vec![]).iter().map(|l| l.range.start_line).collect();
    assert_eq!(without, vec![29, 59]);
    let lonely = function(&mut g, "lonely", 70, 71, "fn lonely()");
    assert!(find_references(&g, lonely, false, &vec![]).is_empty());
    assert_eq!(find_references(&g, lonely, true, &vec![]).len(), 1);
}

#[test]
fn hover_text_of_a_function() {
    let (mut g, f1, f2) = graph_with_nodes();
    assert_eq!(
        hover_markdown(&g, f1).unwrap(),
        "**Function** `test_function`\n\n```\nfn test_function() -> bool\n```\n\n---\n\n**Defined in:** /test/file.rs\n**References:** 1"
    );
    let mut p = NodeProps::new();
    p.name = Some("Shape".to_string());
    p.doc = Some("A shape.".to_string());
    let c = g.add_node(NodeType::Class, p).unwrap();
    assert_eq!(hover_markdown(&g, c).unwrap(), "**Class** `Shape`\n\nA shape.\n\n---\n\n**Defined in:** \n**References:** 0");
    assert_eq!(hover_markdown(&g, f2 + 100), None);
}

#[test]
fn document_symbols_with_locations() {
    let (mut g, f1, f2) = graph_with_nodes();
    let mut p = NodeProps::new();
    p.name = Some("T".to_string());
    let t = g.add_node(NodeType::Type, p).unwrap();
    let syms = document_symbols(&g, &vec![f2, t, 99, f1], &vec![]);
    let names: Vec<(&str, SymbolKindName)> = syms.iter().map(|s| (s.name.as_str(), s.kind)).collect();
    assert_eq!(names, vec![("caller_function", SymbolKindName::Function), ("test_function", SymbolKindName::Function)]);
    let syms = document_symbols(&g, &vec![t], &vec![(t, "/t.rs".to_string())]);
    assert_eq!(syms[0].kind, SymbolKindName::TypeParameter);
    assert_eq!(syms[0].location.path, "/t.rs");
}

#[test]
fn call_hierarchy_both_ways() {
    let (mut g, f1, f2) = graph_with_nodes();
    let item = prepare_call_hierarchy(&g, f1, &vec![]).unwrap().unwrap();
    assert_eq!(item.node_id, f1);
    assert_eq!(item.name, "test_function");
    assert_eq!(item.detail.as_deref(), Some("fn test_function() -> bool"));
    let mut p = NodeProps::new();
    p.name = Some("K".to_string());
    let k = g.add_node(NodeType::Class, p).unwrap();
    assert!(prepare_call_hierarchy(&g, k, &vec![]).unwrap().is_none());
    assert_eq!(prepare_call_hierarchy(&g, k + 5, &vec![]).err(), Some(LocationFailure::NodeNotFound));
    g.add_edge(k, f1, EdgeType::References).unwrap();
    let callers: Vec<u64> = incoming_calls(&g, f1, &vec![]).iter().map(|c| c.node_id).collect();
    assert_eq!(callers, vec![f2]);
    let callees: Vec<u64> = outgoing_calls(&g, f2, &vec![]).iter().map(|c| c.node_id).collect();
    assert_eq!(callees, vec![f1]);
    assert!(outgoing_calls(&g, f1, &vec![]).is_empty());
}

#[test]
fn removing_a_file_drops_its_nodes_and_their_edges() {
    let (mut g, f1, f2) = graph_with_nodes();
    let mut p = NodeProps::new();
    p.name = Some("other".to_string());
    p.path = Some("/other.rs".to_string());
    let o = g.add_node(NodeType::Function, p).unwrap();
    g.add_edge(o, f1, EdgeType::Calls).unwrap();
    g.add_edge(f2, o, EdgeType::Calls).unwrap();
    let removed = g.remove_file_nodes("/test/file.rs");
    assert_eq!(removed, vec![f1, f2]);
    assert_eq!(g.node_count(), 1);
    assert_eq!(g.edge_count(), 0);
    assert!(g.get_node(o).is_some());
    assert!(g.remove_file_nodes("/test/file.rs").is_empty());
}

#[test]
fn deleting_a_node_drops_its_edges() {
    let (mut g, f1, f2) = graph_with_nodes();
    assert!(g.delete_node(f1).is_ok());
    assert!(g.get_node(f1).is_none());
    assert!(g.get_node(f2).is_some());
    assert_eq!(g.edge_count(), 0);
    assert!(g.delete_node(f1).is_err());
}

#[test]
fn git_commands_and_changed_files() {
    let git = GitExecutor::at("/repo".to_string());
    assert_eq!(git.repo_path(), "/repo");
    let c = git.log("%H|%s", Some(20), Some("src/lib.rs"));
    assert_eq!(c.dir, "/repo");
    assert_eq!(c.args, vec!["log", "--format=%H|%s", "-n20", "--", "src/lib.rs"]);
    assert_eq!(git.log("%H", None, None).args, vec!["log", "--format=%H", "--"]);
    assert_eq!(
        git.log_grep("fix", "%H", Some(5)).args,
        vec!["log", "--format=%H", "--all", "-i", "--grep=fix", "-n5"]
    );
    assert_eq!(git.show_files("abc").args, vec!["show", "--name-only", "--format=", "abc"]);
    assert_eq!(git.show_stat("abc").args, vec!["show", "--stat", "--format=", "abc"]);
    assert_eq!(git.show_message("abc").args, vec!["show", "-s", "--format=%B", "abc"]);
    assert_eq!(git.blame("a.rs", Some((3, 17))).args, vec!["blame", "--porcelain", "-L3,17", "a.rs"]);
    assert_eq!(git.blame("a.rs", None).args, vec!["blame", "--porcelain", "a.rs"]);
    assert_eq!(changed_files("src/a.rs\n\nsrc/b.rs\r\n"), vec!["src/a.rs", "src/b.rs"]);
    assert!(changed_files("").is_empty());
}

#[test]
fn mining_settings_and_hotspot_memories() {
    let none = MiningRequest {
        max_commits: None,
        mine_bug_fixes: None,
        mine_arch_decisions: None,
        mine_breaking_changes: None,
        mine_reverts: None,
        mine_features: None,
        mine_deprecations: None,
        include_hotspots: None,
        include_coupling: None,
    };
    let s = mining_settings(&none);
    assert_eq!(s.max_commits, 500);
    assert!(s.mine_bug_fixes && s.mine_arch_decisions && s.mine_breaking_changes && s.mine_reverts);
    assert!(s.mine_deprecations && !s.mine_features && !s.include_hotspots && !s.include_coupling);
    let s = mining_settings(&MiningRequest { max_commits: Some(7), mine_features: Some(true), mine_reverts: Some(false), ..none });
    assert_eq!(s.max_commits, 7);
    assert!(s.mine_features && !s.mine_reverts);
    assert_eq!(grep_patterns(), vec!["fix:", "bug:", "BREAKING", "revert", "arch:", "adr:", "feat:", "deprecate"]);
    let h = Hotspot {
        file_path: "src/lib.rs".to_string(),
        change_count: 12,
        unique_commits: 9,
        recent_changes: vec!["a".to_string(), "b".to_string()],
    };
    let m = hotspot_memory(&h);
    assert_eq!(m.title, "Hotspot: src/lib.rs");
    assert_eq!(m.topic, "High-activity file: src/lib.rs");
    assert_eq!(
        m.description,
        "Modified 12 times across 9 commits. This file shows high churn, indicating active development or potential complexity."
    );
    assert_eq!(m.content, "**Change Count:** 12\n**Unique Commits:** 9\n**Recent Changes:**\na\n- b");
}
