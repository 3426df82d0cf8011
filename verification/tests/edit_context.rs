use codegraph_lsp::context::select_within_budget;
use codegraph_lsp::edit::{get_edit_context, log_hashes_cut, EditContext, MemoryHit};
use codegraph_lsp::engine::QueryEngine;
use codegraph_lsp::graph::{CodeGraph, EdgeType, NodeProps, NodeType};

fn props(name: &str, path: &str, line: i64) -> NodeProps {
    let mut p = NodeProps::new();
    p.name = Some(name.to_string());
    p.path = Some(path.to_string());
    p.line_start = Some(line);
    p
}

fn hit(title: &str, content: &str) -> MemoryHit {
    MemoryHit { id: title.to_string(), title: title.to_string(), content: content.to_string(), kind: "convention".to_string() }
}

#[test]
fn edit_context_of_a_function() {
    let mut g = CodeGraph::new();
    let target = g.add_node(NodeType::Function, props("target", "/src/lib.rs", 3)).unwrap();
    let caller = g.add_node(NodeType::Function, props("caller", "/src/main.rs", 10)).unwrap();
    let t1 = g.add_node(NodeType::Function, props("test_direct", "/tests/a.rs", 1)).unwrap();
    let same = g.add_node(NodeType::Function, props("test_same_file", "/src/lib.rs", 20)).unwrap();
    g.add_edge(caller, target, EdgeType::Calls).unwrap();
    g.add_edge(t1, target, EdgeType::Calls).unwrap();
    let mut e = QueryEngine::new(g);
    e.build_indexes();
    let sources = vec![(target, "fn target() {}".to_string()), (caller, "fn caller() { target() }".to_string())];
    let memories = vec![hit("A", "one"), hit("A", "again"), hit("B", "two")];
    let log = "0123456789\0Fix\0Ann\0today\n";
    let r = get_edit_context(&e, Some((target, true)), 7, 4000, &sources, &memories, Some(log));
    let rep = match r {
        EditContext::Found(rep) => rep,
        other => panic!("unexpected {:?}", other),
    };
    assert_eq!(rep.symbol.name, "target");
    assert_eq!(rep.code, "fn target() {}");
    assert_eq!(rep.source_tokens, 3);
    let callers: Vec<u64> = rep.callers.iter().map(|c| c.node_id).collect();
    assert!(callers.contains(&caller));
    assert!(callers.len() <= 2);
    let tests: Vec<(u64, bool)> = rep.tests.iter().map(|t| (t.node_id, t.calls_target)).collect();
    assert_eq!(tests, vec![(t1, true), (same, false)]);
    assert_eq!(rep.memories, vec![0, 2]);
    assert_eq!(rep.recent_changes.len(), 1);
    assert_eq!(rep.recent_changes[0].hash, "01234567");
    assert!(rep.total_tokens <= 4000);
    assert!(rep.used_fallback);
    assert_eq!(rep.fallback_message.as_deref(), Some("No symbol at line 7. Using nearest symbol 'target' instead."));
    assert!(matches!(get_edit_context(&e, None, 1, 100, &sources, &memories, None), EditContext::NoSymbol));
    assert!(matches!(get_edit_context(&e, Some((999, false)), 1, 100, &sources, &memories, None), EditContext::NodeMissing));
    match get_edit_context(&e, Some((target, false)), 1, 100, &vec![], &vec![], None) {
        EditContext::Found(rep) => {
            assert_eq!(rep.code, "<source not available>");
            assert!(rep.recent_changes.is_empty());
            assert!(rep.fallback_message.is_none());
        }
        other => panic!("unexpected {:?}", other),
    }
}

#[test]
fn uncuttable_hashes_give_no_recent_changes() {
    assert!(log_hashes_cut("0123456789\0s\0a\0d\n"));
    assert!(!log_hashes_cut("0123456é89\0s\0a\0d\n"));
    assert!(log_hashes_cut("0123456é89\0only\n"));
}

#[test]
fn budget_selection_walks_in_order() {
    let costs = vec![Some(5), None, Some(20), Some(3), Some(1)];
    assert_eq!(select_within_budget(10, 0, &costs, false), (vec![0, 3, 4], 9));
    assert_eq!(select_within_budget(10, 0, &costs, true), (vec![0], 5));
    assert_eq!(select_within_budget(10, 10, &costs, false), (vec![], 10));
    assert_eq!(select_within_budget(10, 2, &vec![Some(8), Some(1)], false), (vec![0], 10));
}

#[test]
fn language_falls_back_to_the_file_extension() {
    let mut g = CodeGraph::new();
    let a = g.add_node(NodeType::Function, props("a", "/x/archive.tar.gz", 1)).unwrap();
    let b = g.add_node(NodeType::Function, props("b", "/x/.bashrc", 1)).unwrap();
    let c = g.add_node(NodeType::Function, props("c", "/x/Makefile", 1)).unwrap();
    assert_eq!(codegraph_lsp::edit::edit_symbol(&g, a).unwrap().language, "gz");
    assert_eq!(codegraph_lsp::edit::edit_symbol(&g, b).unwrap().language, "unknown");
    assert_eq!(codegraph_lsp::edit::edit_symbol(&g, c).unwrap().language, "unknown");
}
