use codegraph_lsp::engine::QueryEngine;
use codegraph_lsp::graph::{CodeGraph, EdgeType, NodeProps, NodeType};
use codegraph_lsp::primitives::{EntryType, ImportMatchMode, SymbolType, TraversalDirection};
use codegraph_lsp::requests::{
    direction_named, entry_type_label, entry_types_named, find_by_libraries, handle_find_entry_points,
    handle_get_callees, handle_get_callers, handle_get_detailed_symbol_info, handle_traverse_graph,
    match_mode_named, resolve_target, search_options_for, signature_pattern_for, symbol_types_named,
    traversal_filter_for, FindByImportsParams, FindBySignatureParams, FindEntryPointsParams, GetCallersParams,
    GetDetailedInfoParams, NodeTarget, ParamCountRange, ResolveError, SymbolSearchParams, TraverseGraphParams,
};
use codegraph_lsp::text::parse_u64;

fn props(name: &str, path: &str, line: i64) -> NodeProps {
    let mut p = NodeProps::new();
    p.name = Some(name.to_string());
    p.path = Some(path.to_string());
    p.line_start = Some(line);
    p
}

fn chain_engine() -> (QueryEngine, u64, u64, u64) {
    let mut g = CodeGraph::new();
    let a = g.add_node(NodeType::Function, props("a", "/src/x.rs", 1)).unwrap();
    let b = g.add_node(NodeType::Function, props("b", "/src/x.rs", 5)).unwrap();
    let c = g.add_node(NodeType::Class, props("C", "/src/y.rs", 9)).unwrap();
    g.add_edge(a, b, EdgeType::Calls).unwrap();
    g.add_edge(b, c, EdgeType::Calls).unwrap();
    let mut e = QueryEngine::new(g);
    e.build_indexes();
    (e, a, b, c)
}

#[test]
fn parse_u64_reads_decimal_numbers() {
    assert_eq!(parse_u64("0"), Some(0));
    assert_eq!(parse_u64("123"), Some(123));
    assert_eq!(parse_u64("+7"), Some(7));
    assert_eq!(parse_u64("18446744073709551615"), Some(u64::MAX));
    assert_eq!(parse_u64("18446744073709551616"), None);
    assert_eq!(parse_u64(""), None);
    assert_eq!(parse_u64("+"), None);
    assert_eq!(parse_u64("-1"), None);
    assert_eq!(parse_u64("12a"), None);
    assert_eq!(parse_u64(" 1"), None);
    for s in ["0", "42", "+9", "x", "", "99999999999999999999"] {
        assert_eq!(parse_u64(s), s.parse::<u64>().ok());
    }
}

#[test]
fn resolve_target_prefers_the_node_id() {
    match resolve_target(&Some("123".to_string()), &Some("file:///test.rs".to_string()), Some(5)) {
        Ok(NodeTarget::Id(123)) => {}
        other => panic!("unexpected {:?}", other),
    }
    match resolve_target(&Some("not_a_number".to_string()), &None, None) {
        Err(ResolveError::InvalidNodeId) => {}
        other => panic!("unexpected {:?}", other),
    }
    match resolve_target(&None, &None, Some(3)) {
        Err(ResolveError::MissingTarget) => {}
        other => panic!("unexpected {:?}", other),
    }
    match resolve_target(&None, &Some("file:///test.rs".to_string()), Some(5)) {
        Ok(NodeTarget::Position { uri, line }) => {
            assert_eq!(uri, "file:///test.rs");
            assert_eq!(line, 4);
        }
        other => panic!("unexpected {:?}", other),
    }
    match resolve_target(&None, &Some("file:///test.rs".to_string()), None) {
        Ok(NodeTarget::Position { line, .. }) => assert_eq!(line, 0),
        other => panic!("unexpected {:?}", other),
    }
    match resolve_target(&None, &Some("file:///t.rs".to_string()), Some(0)) {
        Ok(NodeTarget::Position { line, .. }) => assert_eq!(line, 0),
        other => panic!("unexpected {:?}", other),
    }
}

#[test]
fn request_options_follow_the_parameters() {
    let params = SymbolSearchParams {
        query: "x".to_string(),
        scope: Some("file".to_string()),
        symbol_types: Some(vec!["function".to_string(), "bogus".to_string(), "class".to_string()]),
        limit: Some(7),
        include_private: Some(true),
    };
    let o = search_options_for(&params);
    assert_eq!(o.limit, 7);
    assert!(o.include_private);
    assert_eq!(o.symbol_types, vec![SymbolType::Function, SymbolType::Class]);
    let o = search_options_for(&SymbolSearchParams {
        query: "x".to_string(),
        scope: None,
        symbol_types: None,
        limit: None,
        include_private: Some(false),
    });
    assert_eq!(o.limit, 20);
    assert!(!o.include_private);
    assert!(o.symbol_types.is_empty());
    assert_eq!(symbol_types_named(&vec!["type".to_string(), "interface".to_string()]), vec![
        SymbolType::Type,
        SymbolType::Interface
    ]);
    assert_eq!(match_mode_named(&Some("prefix".to_string())), ImportMatchMode::Prefix);
    assert_eq!(match_mode_named(&Some("fuzzy".to_string())), ImportMatchMode::Fuzzy);
    assert_eq!(match_mode_named(&Some("other".to_string())), ImportMatchMode::Exact);
    assert_eq!(match_mode_named(&None), ImportMatchMode::Exact);
    assert_eq!(direction_named(&Some("incoming".to_string())), TraversalDirection::Incoming);
    assert_eq!(direction_named(&Some("both".to_string())), TraversalDirection::Both);
    assert_eq!(direction_named(&None), TraversalDirection::Outgoing);
    assert_eq!(entry_types_named(&Some("main".to_string())), vec![EntryType::Main]);
    assert_eq!(entry_types_named(&Some("http_handler".to_string())), vec![EntryType::HttpHandler]);
    assert!(entry_types_named(&Some("weird".to_string())).is_empty());
    assert_eq!(entry_type_label(EntryType::HttpHandler), "httphandler");
    assert_eq!(entry_type_label(EntryType::TestEntry), "testentry");
}

#[test]
fn signature_pattern_from_parameters() {
    let p = signature_pattern_for(&FindBySignatureParams {
        name_pattern: Some("get.*".to_string()),
        return_type: None,
        param_count: Some(ParamCountRange { min: 1, max: 2 }),
        modifiers: None,
    });
    assert_eq!(p.name_pattern, Some("get.*".to_string()));
    assert_eq!(p.return_type, None);
    assert_eq!(p.param_count, Some((1, 2)));
    assert!(p.modifiers.is_empty());
}

#[test]
fn traverse_request_reports_ids_as_decimal_paths() {
    let (e, a, b, c) = chain_engine();
    let params = TraverseGraphParams {
        start_node_id: None,
        uri: None,
        line: None,
        direction: None,
        depth: None,
        filter_symbol_types: Some(vec!["function".to_string()]),
        max_nodes: None,
    };
    let f = traversal_filter_for(&params);
    assert_eq!(f.max_nodes, 1000);
    let r = handle_traverse_graph(&e, a, &params);
    assert_eq!(r.query_time_ms, 0);
    assert_eq!(r.nodes.len(), 1);
    assert_eq!(r.nodes[0].node_id, b.to_string());
    assert_eq!(r.nodes[0].path, vec![a.to_string(), b.to_string()]);
    assert_eq!(r.nodes[0].symbol.name, "b");
    let all = handle_traverse_graph(
        &e,
        a,
        &TraverseGraphParams { filter_symbol_types: None, ..params },
    );
    assert_eq!(all.nodes.len(), 2);
    assert_eq!(all.nodes[1].node_id, c.to_string());
}

#[test]
fn caller_requests_default_to_one_step() {
    let (e, a, b, c) = chain_engine();
    let params = GetCallersParams { node_id: None, uri: None, line: None, depth: None };
    let r = handle_get_callers(&e, c, &params);
    assert_eq!(r.callers.len(), 1);
    assert_eq!(r.callers[0].node_id, b.to_string());
    assert_eq!(r.callers[0].depth, 1);
    assert_eq!(r.callers[0].call_site.file, "/src/x.rs");
    let r = handle_get_callers(&e, c, &GetCallersParams { depth: Some(2), ..params.clone() });
    assert_eq!(r.callers.len(), 2);
    let r = handle_get_callees(&e, a, &params);
    assert_eq!(r.callers.len(), 1);
    assert_eq!(r.callers[0].symbol.name, "b");
}

#[test]
fn detailed_info_leaves_out_what_is_not_asked_for() {
    let (e, _a, b, _c) = chain_engine();
    let all = handle_get_detailed_symbol_info(
        &e,
        b,
        &GetDetailedInfoParams { node_id: None, uri: None, line: None, include_callers: None, include_callees: None },
    )
    .unwrap();
    assert_eq!(all.symbol.name, "b");
    assert_eq!(all.callers.len(), 1);
    assert_eq!(all.callees.len(), 1);
    assert_eq!(all.reference_count, 1);
    let none = handle_get_detailed_symbol_info(
        &e,
        b,
        &GetDetailedInfoParams {
            node_id: None,
            uri: None,
            line: None,
            include_callers: Some(false),
            include_callees: Some(false),
        },
    )
    .unwrap();
    assert!(none.callers.is_empty());
    assert!(none.callees.is_empty());
    assert!(handle_get_detailed_symbol_info(
        &e,
        12345,
        &GetDetailedInfoParams { node_id: None, uri: None, line: None, include_callers: None, include_callees: None },
    )
    .is_none());
}

#[test]
fn entry_point_request_counts_what_it_finds() {
    let mut g = CodeGraph::new();
    let m = g.add_node(NodeType::Function, props("main", "/src/main.rs", 1)).unwrap();
    g.add_node(NodeType::Function, props("test_x", "/src/t.rs", 1)).unwrap();
    let mut e = QueryEngine::new(g);
    e.build_indexes();
    let r = handle_find_entry_points(&e, &FindEntryPointsParams { entry_type: Some("main".to_string()) });
    assert_eq!(r.total_found, 1);
    assert_eq!(r.entry_points[0].node_id, m.to_string());
    assert_eq!(r.entry_points[0].entry_type, "main");
    let r = handle_find_entry_points(&e, &FindEntryPointsParams { entry_type: None });
    assert_eq!(r.total_found, 2);
}

#[test]
fn imports_request_searches_each_library_in_turn() {
    let mut g = CodeGraph::new();
    let u = g.add_node(NodeType::Function, props("user", "/src/a.ts", 1)).unwrap();
    let v = g.add_node(NodeType::Function, props("viewer", "/src/b.ts", 1)).unwrap();
    let r1 = g.add_node(NodeType::Module, props("react", "/nm/react", 1)).unwrap();
    let l1 = g.add_node(NodeType::Module, props("lodash", "/nm/lodash", 1)).unwrap();
    g.add_edge(u, r1, EdgeType::Imports).unwrap();
    g.add_edge(v, l1, EdgeType::Imports).unwrap();
    let mut e = QueryEngine::new(g);
    e.build_indexes();
    let r = find_by_libraries(
        &e,
        &FindByImportsParams { libraries: vec!["lodash".to_string(), "react".to_string()], match_mode: None },
    );
    assert_eq!(r.len(), 2);
    assert_eq!(r[0].node_id, v);
    assert_eq!(r[1].node_id, u);
}

#[test]
fn ids_printed_in_responses_parse_back() {
    for n in [0u64, 7, 10, 12345, u64::MAX] {
        assert_eq!(parse_u64(&codegraph_lsp::text::decimal_string(n)), Some(n));
    }
}
