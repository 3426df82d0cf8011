use codegraph_lsp::primitives::{
    ImportMatchMode, ImportSearchOptions, SearchOptions, SearchScope, SignaturePattern, SymbolType,
    TraversalFilter,
};

#[test]
fn test_search_options_builder() {
    let options = SearchOptions::new()
        .with_limit(50)
        .with_scope(SearchScope::Module)
        .with_symbol_types(vec![SymbolType::Function])
        .with_languages(vec!["rust".to_string()])
        .include_private();

    assert_eq!(options.limit, 50);
    assert_eq!(options.scope, SearchScope::Module);
    assert_eq!(options.symbol_types, vec![SymbolType::Function]);
    assert_eq!(options.languages, vec!["rust"]);
    assert!(options.include_private);
}

#[test]
fn test_search_options_defaults() {
    let options = SearchOptions::new();
    assert_eq!(options.scope, SearchScope::Workspace);
    assert_eq!(options.limit, 20);
    assert!(!options.include_private);
    assert!(options.symbol_types.is_empty());
    assert!(options.languages.is_empty());
}

#[test]
fn test_traversal_filter_builder() {
    let filter = TraversalFilter::new()
        .with_max_nodes(500)
        .with_symbol_types(vec![SymbolType::Function, SymbolType::Class]);

    assert_eq!(filter.max_nodes, 500);
    assert_eq!(filter.symbol_types.len(), 2);
}

#[test]
fn test_signature_pattern_builder() {
    let pattern = SignaturePattern::new()
        .with_name_pattern(".*validate.*")
        .with_return_type("bool")
        .with_param_count(1, 3)
        .with_modifier("async")
        .with_modifier("public");

    assert_eq!(pattern.name_pattern, Some(".*validate.*".to_string()));
    assert_eq!(pattern.return_type, Some("bool".to_string()));
    assert_eq!(pattern.param_count, Some((1, 3)));
    assert_eq!(pattern.modifiers, vec!["async", "public"]);
}

#[test]
fn test_import_match_mode_default() {
    let mode = ImportMatchMode::default();
    assert_eq!(mode, ImportMatchMode::Exact);
}

#[test]
fn test_search_scope_default() {
    let scope = SearchScope::default();
    assert_eq!(scope, SearchScope::Workspace);
}

#[test]
fn import_search_options_builder_keeps_other_fields() {
    let options = ImportSearchOptions::new()
        .with_match_mode(ImportMatchMode::Fuzzy)
        .with_scope(SearchScope::File)
        .include_transitive();
    assert_eq!(options.match_mode, ImportMatchMode::Fuzzy);
    assert_eq!(options.scope, SearchScope::File);
    assert!(options.include_transitive);
    assert!(options.languages.is_empty());
}

#[test]
fn traversal_filter_defaults() {
    let filter = TraversalFilter::new();
    assert_eq!(filter.max_nodes, 1000);
    assert!(filter.symbol_types.is_empty());
}
