use codegraph_lsp::edit::{
    edit_symbol, edit_total_tokens, parse_recent_commits, same_file_tests, select_memories, take_within_budget,
    tests_calling_target,
};
use codegraph_lsp::engine::QueryEngine;
use codegraph_lsp::graph::{CodeGraph, EdgeType, NodeProps, NodeType};
use codegraph_lsp::text::{lines_of_text, split_char};

fn props(name: &str, path: &str, line: i64) -> NodeProps {
    let mut p = NodeProps::new();
    p.name = Some(name.to_string());
    p.path = Some(path.to_string());
    p.line_start = Some(line);
    p
}

#[test]
fn lines_match_str_lines() {
    for s in ["", "a", "a\n", "a\nb", "foo\r\nbar\n\nbaz\r", "\n\n", "x\r", "\r\n", "é\nü\r\n"] {
        let expected: Vec<String> = s.lines().map(|l| l.to_string()).collect();
        assert_eq!(lines_of_text(s), expected, "lines of {:?}", s);
    }
}

#[test]
fn split_matches_str_split() {
    for s in ["", "a", "a\0b", "\0", "a\0\0b\0", "é\0x"] {
        let expected: Vec<String> = s.split('\0').map(|l| l.to_string()).collect();
        assert_eq!(split_char(s, '\0'), expected, "pieces of {:?}", s);
    }
}

#[test]
fn recent_commits_from_a_log() {
    let log = "0123456789abcdef\0Fix bug\0Alice\02024-01-01 10:00:00 +0000\n\nshort\0only two\nabc\0Add\0Bob\0date\0extra\n";
    let commits = parse_recent_commits(log);
    assert_eq!(commits.len(), 2);
    assert_eq!(commits[0].hash, "01234567");
    assert_eq!(commits[0].subject, "Fix bug");
    assert_eq!(commits[0].author, "Alice");
    assert_eq!(commits[0].date, "2024-01-01 10:00:00 +0000");
    assert_eq!(commits[1].hash, "abc");
    assert_eq!(commits[1].author, "Bob");
}

#[test]
fn recent_commits_stop_after_five_lines() {
    let mut log = String::new();
    for i in 0..8 {
        log.push_str(&format!("h{}\0s{}\0a\0d\n", i, i));
    }
    let commits = parse_recent_commits(&log);
    assert_eq!(commits.len(), 5);
    assert_eq!(commits[4].subject, "s4");
    let mut log = String::from("bad line\n");
    for i in 0..5 {
        log.push_str(&format!("h{}\0s{}\0a\0d\n", i, i));
    }
    assert_eq!(parse_recent_commits(&log).len(), 4);
}

#[test]
fn budget_takes_items_until_spent() {
    assert_eq!(take_within_budget(&vec![3, 3, 3], 10, 5), (2, 6));
    assert_eq!(take_within_budget(&vec![3, 3, 3], 1, 100), (1, 3));
    assert_eq!(take_within_budget(&vec![], 5, 5), (0, 0));
    assert_eq!(take_within_budget(&vec![1, 1], 5, 0), (0, 0));
    assert_eq!(take_within_budget(&vec![10, 1], 5, 3), (1, 10));
}

#[test]
fn memories_skip_repeated_titles() {
    let titles = vec!["a".to_string(), "b".to_string(), "a".to_string(), "c".to_string()];
    assert_eq!(select_memories(&titles, &vec![1, 1, 1, 1], 10), (vec![0, 1, 3], 3));
    assert_eq!(select_memories(&titles, &vec![5, 5, 5, 5], 6), (vec![0, 1], 10));
    assert_eq!(select_memories(&titles, &vec![1, 1, 1, 1], 0), (vec![], 0));
}

#[test]
fn edit_tokens_count_what_was_spent() {
    assert_eq!(edit_total_tokens(100, 10, 20, 5, 1), 36);
    assert_eq!(edit_total_tokens(100, 200, 20, 5, 1), 100);
    assert_eq!(edit_total_tokens(0, 1, 1, 1, 1), 0);
}

#[test]
fn edit_symbol_reports_the_node() {
    let mut g = CodeGraph::new();
    let mut p = props("parse", "/src/lib.rs", 10);
    p.line_end = Some(0);
    let a = g.add_node(NodeType::Function, p).unwrap();
    let mut q = props("Parser", "/src/parser.py", 3);
    q.line_end = Some(9);
    q.language = Some("python".to_string());
    let b = g.add_node(NodeType::Class, q).unwrap();
    let c = g.add_node(NodeType::Module, NodeProps::new()).unwrap();
    let s = edit_symbol(&g, a).unwrap();
    assert_eq!(s.name, "parse");
    assert_eq!(s.node_type, "function");
    assert_eq!(s.language, "rs");
    assert_eq!(s.line_start, 10);
    assert_eq!(s.line_end, 10);
    let s = edit_symbol(&g, b).unwrap();
    assert_eq!(s.language, "python");
    assert_eq!(s.line_end, 9);
    assert_eq!(s.node_type, "class");
    let s = edit_symbol(&g, c).unwrap();
    assert_eq!(s.name, "");
    assert_eq!(s.path, "");
    assert_eq!(s.language, "unknown");
    assert!(edit_symbol(&g, 77).is_none());
}

#[test]
fn tests_that_reach_the_symbol() {
    let mut g = CodeGraph::new();
    let target = g.add_node(NodeType::Function, props("target", "/src/lib.rs", 1)).unwrap();
    let mid = g.add_node(NodeType::Function, props("mid", "/src/lib.rs", 5)).unwrap();
    let t1 = g.add_node(NodeType::Function, props("test_direct", "/tests/a.rs", 1)).unwrap();
    let t2 = g.add_node(NodeType::Function, props("test_indirect", "/tests/a.rs", 5)).unwrap();
    let t3 = g.add_node(NodeType::Function, props("test_other", "/tests/a.rs", 9)).unwrap();
    g.add_edge(t1, target, EdgeType::Calls).unwrap();
    g.add_edge(t2, mid, EdgeType::Calls).unwrap();
    g.add_edge(mid, target, EdgeType::Calls).unwrap();
    g.add_edge(t3, mid, EdgeType::Calls).unwrap();
    let mut e = QueryEngine::new(g);
    e.build_indexes();
    let _ = t3;
    assert_eq!(tests_calling_target(&e, target), vec![t1, t2, t3]);
    assert_eq!(tests_calling_target(&e, mid), vec![t2, t3]);
}

#[test]
fn same_file_tests_skip_seen_and_fill_room() {
    let mut g = CodeGraph::new();
    let a = g.add_node(NodeType::Function, props("test_a", "/src/x.rs", 1)).unwrap();
    let b = g.add_node(NodeType::Function, props("helper", "/src/x.rs", 2)).unwrap();
    let c = g.add_node(NodeType::Function, props("test_c", "/src/x.rs", 3)).unwrap();
    let d = g.add_node(NodeType::Class, props("test_d", "/src/x.rs", 4)).unwrap();
    let e = g.add_node(NodeType::Function, props("test_e", "/src/x.rs", 5)).unwrap();
    let _ = (b, d);
    assert_eq!(same_file_tests(&g, "/src/x.rs", &vec![a], 5, 0, 10), vec![c, e]);
    assert_eq!(same_file_tests(&g, "/src/x.rs", &vec![], 1, 0, 10), vec![a]);
    assert!(same_file_tests(&g, "/src/x.rs", &vec![], 5, 10, 10).is_empty());
    assert!(same_file_tests(&g, "/src/y.rs", &vec![], 5, 0, 10).is_empty());
}
