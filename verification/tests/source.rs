use codegraph_lsp::graph::{CodeGraph, NodeProps, NodeType};
use codegraph_lsp::source::{source_excerpt, source_lookup, SourceLookup};

#[test]
fn source_comes_from_the_property_first() {
    let mut g = CodeGraph::new();
    let mut p = NodeProps::new();
    p.name = Some("test_func".to_string());
    p.source = Some("fn test_func() { }".to_string());
    p.path = Some("test.rs".to_string());
    let a = g.add_node(NodeType::Function, p).unwrap();
    match source_lookup(&g, a, &vec![]) {
        Some(SourceLookup::Inline(s)) => assert_eq!(s, "fn test_func() { }"),
        other => panic!("unexpected {:?}", other),
    }
}

#[test]
fn source_from_the_file_lines() {
    let mut g = CodeGraph::new();
    let mut p = NodeProps::new();
    p.name = Some("test_func".to_string());
    p.path = Some("test.rs".to_string());
    p.line_start = Some(2);
    p.line_end = Some(4);
    let a = g.add_node(NodeType::Function, p).unwrap();
    let (path, start, end) = match source_lookup(&g, a, &vec![]) {
        Some(SourceLookup::File { path, start, end }) => (path, start, end),
        other => panic!("unexpected {:?}", other),
    };
    assert_eq!(path, "test.rs");
    assert_eq!((start, end), (2, 4));
    let content = "line 1\nline 2\nline 3\nline 4\nline 5";
    assert_eq!(source_excerpt(content, start, end), Some("line 2\nline 3\nline 4".to_string()));
    assert_eq!(source_excerpt(content, 0, 2), None);
    assert_eq!(source_excerpt(content, 4, 6), None);
    assert_eq!(source_excerpt(content, 5, 5), Some("line 5".to_string()));
    assert_eq!(source_excerpt(content, 3, 2), Some(String::new()));
    assert_eq!(source_excerpt(content, 5, 3), None);
}

#[test]
fn source_of_unknown_nodes() {
    let mut g = CodeGraph::new();
    let a = g.add_node(NodeType::Function, NodeProps::new()).unwrap();
    assert!(matches!(source_lookup(&g, a, &vec![]), Some(SourceLookup::Missing)));
    match source_lookup(&g, a, &vec![(a, "/src/z.rs".to_string())]) {
        Some(SourceLookup::File { path, start, end }) => {
            assert_eq!(path, "/src/z.rs");
            assert_eq!((start, end), (1, 1));
        }
        other => panic!("unexpected {:?}", other),
    }
    assert!(source_lookup(&g, 42, &vec![]).is_none());
}
