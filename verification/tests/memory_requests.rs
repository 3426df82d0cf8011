use codegraph_lsp::graph::{CodeGraph, NodeProps, NodeType};
use codegraph_lsp::memory::{
    apply_memory_edit, kind_filters, memory_code_context, issue_severity, linked_node_type, list_memories, memory_kind_from, CodeLink, IssueSeverity,
    KindFields, LinkedNodeType, MemoryEdit, MemoryKindName, MemoryKindSpec, MemoryListParams, MemoryListing,
    MemoryText,
};

fn no_fields() -> KindFields {
    KindFields {
        problem: None,
        solution: None,
        decision: None,
        rationale: None,
        description: None,
        severity: None,
        name: None,
        topic: None,
    }
}

#[test]
fn kinds_read_from_a_request() {
    let mut f = no_fields();
    f.problem = Some("crash on start".to_string());
    match memory_kind_from("debug_context", &f) {
        Ok(MemoryKindSpec::DebugContext { problem, solution }) => {
            assert_eq!(problem, "crash on start");
            assert_eq!(solution, "");
        }
        other => panic!("unexpected {:?}", other),
    }
    f.description = Some("leak".to_string());
    f.severity = Some("critical".to_string());
    match memory_kind_from("known_issue", &f) {
        Ok(MemoryKindSpec::KnownIssue { description, severity }) => {
            assert_eq!(description, "leak");
            assert_eq!(severity, IssueSeverity::Critical);
        }
        other => panic!("unexpected {:?}", other),
    }
    let k = memory_kind_from("project_context", &f).unwrap();
    assert_eq!(k.kind(), MemoryKindName::ProjectContext);
    assert_eq!(k.kind().name(), "project_context");
    match memory_kind_from("shopping_list", &f) {
        Err(e) => assert_eq!(e.kind, "shopping_list"),
        Ok(_) => panic!("unknown kind accepted"),
    }
}

#[test]
fn severities_and_link_types_by_name() {
    assert_eq!(issue_severity(&None), IssueSeverity::Medium);
    assert_eq!(issue_severity(&Some("high".to_string())), IssueSeverity::High);
    assert_eq!(issue_severity(&Some("low".to_string())), IssueSeverity::Low);
    assert_eq!(issue_severity(&Some("urgent".to_string())), IssueSeverity::Medium);
    assert_eq!(linked_node_type("trait"), LinkedNodeType::Trait);
    assert_eq!(linked_node_type("class"), LinkedNodeType::Class);
    assert_eq!(linked_node_type("struct"), LinkedNodeType::Function);
    for t in [LinkedNodeType::Module, LinkedNodeType::Interface, LinkedNodeType::Variable] {
        assert_eq!(linked_node_type(&t.name()), t);
    }
    for s in [IssueSeverity::Critical, IssueSeverity::Low] {
        assert_eq!(issue_severity(&Some(s.name())), s);
    }
}

#[test]
fn an_edit_replaces_given_fields_and_moves_links() {
    let mut m = MemoryText {
        title: "old".to_string(),
        content: "body".to_string(),
        tags: vec!["a".to_string()],
        code_links: vec![
            CodeLink { node_id: "n1".to_string(), node_type: LinkedNodeType::Function },
            CodeLink { node_id: "n2".to_string(), node_type: LinkedNodeType::Class },
        ],
    };
    let edit = MemoryEdit {
        title: Some("new".to_string()),
        content: None,
        tags: Some(vec!["b".to_string(), "c".to_string()]),
        add_code_links: vec![("n3".to_string(), "module".to_string()), ("n1".to_string(), "file".to_string())],
        remove_code_links: vec!["n1".to_string()],
    };
    apply_memory_edit(&mut m, &edit);
    assert_eq!(m.title, "new");
    assert_eq!(m.content, "body");
    assert_eq!(m.tags, vec!["b".to_string(), "c".to_string()]);
    let links: Vec<(String, LinkedNodeType)> = m.code_links.iter().map(|l| (l.node_id.clone(), l.node_type)).collect();
    assert_eq!(links, vec![("n2".to_string(), LinkedNodeType::Class), ("n3".to_string(), LinkedNodeType::Module)]);
}

fn listing(kind: MemoryKindName, tags: &[&str], current: bool) -> MemoryListing {
    MemoryListing { kind, tags: tags.iter().map(|t| t.to_string()).collect(), current }
}

#[test]
fn a_listing_filters_then_pages() {
    let ms = vec![
        listing(MemoryKindName::Convention, &["style"], true),
        listing(MemoryKindName::KnownIssue, &["bug"], true),
        listing(MemoryKindName::Convention, &["naming", "style"], false),
        listing(MemoryKindName::Convention, &["style"], true),
        listing(MemoryKindName::DebugContext, &[], true),
    ];
    let p = MemoryListParams {
        kinds: vec!["convention".to_string()],
        tags: vec!["style".to_string()],
        current_only: false,
        offset: 1,
        limit: 1,
    };
    let (page, total, more) = list_memories(&ms, &p);
    assert_eq!(total, 3);
    assert_eq!(page, vec![2]);
    assert!(more);
    let p = MemoryListParams { kinds: vec![], tags: vec![], current_only: true, offset: 2, limit: 10 };
    let (page, total, more) = list_memories(&ms, &p);
    assert_eq!(total, 4);
    assert_eq!(page, vec![3, 4]);
    assert!(!more);
    let p = MemoryListParams { kinds: vec![], tags: vec![], current_only: false, offset: 9, limit: 10 };
    let (page, total, more) = list_memories(&ms, &p);
    assert_eq!(total, 5);
    assert!(page.is_empty());
    assert!(!more);
}

#[test]
fn search_kind_filters_skip_unknown_names() {
    let names = vec!["convention".to_string(), "todo".to_string(), "known_issue".to_string()];
    assert_eq!(kind_filters(&names), vec![MemoryKindName::Convention, MemoryKindName::KnownIssue]);
    assert!(kind_filters(&vec![]).is_empty());
}

#[test]
fn context_of_a_file_and_position() {
    let mut g = CodeGraph::new();
    let mut ids = Vec::new();
    for path in ["/a.rs", "/b.rs", "/a.rs"] {
        let mut p = NodeProps::new();
        p.path = Some(path.to_string());
        ids.push(g.add_node(NodeType::Function, p).unwrap());
    }
    let ctx = memory_code_context(&g, "/a.rs", Some(ids[1]));
    assert_eq!(ctx, vec![ids[0].to_string(), ids[2].to_string(), ids[1].to_string()]);
    assert!(memory_code_context(&g, "/c.rs", None).is_empty());
}
