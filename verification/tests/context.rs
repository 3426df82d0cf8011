use codegraph_lsp::context::{
    context_metadata, detect_layer, estimate_tokens, generate_usage_description, get_architecture_info,
    get_dependencies, neighbor_modules, plan_context_budget, TokenBudget,
};
use codegraph_lsp::graph::{CodeGraph, EdgeType, NodeProps, NodeType};

#[test]
fn test_detect_layer_controllers() {
    assert_eq!(detect_layer("/src/controllers/user.ts"), Some("controller".to_string()));
    assert_eq!(detect_layer("/src/api/users.ts"), Some("controller".to_string()));
    assert_eq!(detect_layer("/app/routes/index.ts"), Some("controller".to_string()));
}

#[test]
fn test_detect_layer_services() {
    assert_eq!(detect_layer("/src/services/auth.ts"), Some("service".to_string()));
    assert_eq!(detect_layer("/src/usecases/login.ts"), Some("service".to_string()));
}

#[test]
fn test_detect_layer_domain() {
    assert_eq!(detect_layer("/src/models/user.ts"), Some("domain".to_string()));
    assert_eq!(detect_layer("/src/entities/order.ts"), Some("domain".to_string()));
    assert_eq!(detect_layer("/src/domain/product.ts"), Some("domain".to_string()));
}

#[test]
fn test_detect_layer_repository() {
    assert_eq!(detect_layer("/src/repositories/user_repo.ts"), Some("repository".to_string()));
    assert_eq!(detect_layer("/src/repos/order.ts"), Some("repository".to_string()));
}

#[test]
fn test_detect_layer_infrastructure() {
    assert_eq!(detect_layer("/src/database/connection.ts"), Some("persistence".to_string()));
    assert_eq!(detect_layer("/src/adapters/redis.ts"), Some("infrastructure".to_string()));
}

#[test]
fn test_detect_layer_utility() {
    assert_eq!(detect_layer("/src/utils/helpers.ts"), Some("utility".to_string()));
    assert_eq!(detect_layer("/lib/format.ts"), Some("utility".to_string()));
}

#[test]
fn test_detect_layer_tests() {
    assert_eq!(detect_layer("/src/__tests__/user.test.ts"), Some("test".to_string()));
    assert_eq!(detect_layer("/tests/integration/api.ts"), Some("test".to_string()));
}

#[test]
fn test_detect_layer_by_filename() {
    assert_eq!(detect_layer("/src/user_controller.ts"), Some("controller".to_string()));
    assert_eq!(detect_layer("/src/auth_service.ts"), Some("service".to_string()));
    assert_eq!(detect_layer("/src/user_repository.ts"), Some("repository".to_string()));
}

#[test]
fn test_detect_layer_unknown() {
    assert_eq!(detect_layer("/src/main.ts"), None);
    assert_eq!(detect_layer("/app.ts"), None);
}

#[test]
fn test_generate_usage_description_basic() {
    let desc = generate_usage_description("process_order", "validate_data", "validate_data(input)");
    assert!(desc.contains("`process_order`"));
    assert!(desc.contains("`validate_data`"));
}

#[test]
fn test_generate_usage_description_async() {
    let desc = generate_usage_description("handler", "fetch_user", "await fetch_user(id)");
    assert!(desc.contains("(async)"));
}

#[test]
fn test_generate_usage_description_error_handling() {
    let desc = generate_usage_description("process", "parse_config", "try { parse_config() } catch(e) { }");
    assert!(desc.contains("error handling"));
}

#[test]
fn test_generate_usage_description_conditional() {
    let desc = generate_usage_description("run", "check", "if (check(x)) { do_thing() }");
    assert!(desc.contains("conditionally"));
}

#[test]
fn test_generate_usage_description_empty_caller() {
    let desc = generate_usage_description("", "my_function", "my_function()");
    assert!(desc.contains("Usage of `my_function`"));
}

#[test]
fn usage_description_exact_text() {
    assert_eq!(
        generate_usage_description("a", "b", "await b()?"),
        "`a` calls `b` (async) with error handling"
    );
    assert_eq!(generate_usage_description("", "b", "b()"), "Usage of `b`");
}

#[test]
fn detect_layer_lowercases_the_path() {
    assert_eq!(detect_layer("/SRC/Controllers/User.ts"), Some("controller".to_string()));
}

#[test]
fn token_budget_never_spends_more_than_its_total() {
    let mut b = TokenBudget::new(10);
    assert!(b.has_budget());
    assert!(b.consume(4));
    assert!(!b.consume(7));
    assert_eq!(b.used, 4);
    assert!(b.consume(6));
    assert_eq!(b.used, 10);
    assert!(!b.has_budget());
    assert_eq!(b.remaining(), 0);
    assert!(!b.consume(1));
    assert!(b.consume(0));
    assert!(b.used <= b.total);
}

#[test]
fn token_budget_remaining_counts_down() {
    let mut b = TokenBudget::new(100);
    assert_eq!(b.remaining(), 100);
    b.consume(30);
    assert_eq!(b.remaining(), 70);
}

#[test]
fn estimate_tokens_is_bytes_over_four() {
    assert_eq!(estimate_tokens(""), 0);
    assert_eq!(estimate_tokens("abc"), 0);
    assert_eq!(estimate_tokens("abcdefgh"), 2);
    assert_eq!(estimate_tokens("éééé"), 2);
}

#[test]
fn neighbor_modules_drop_own_module_and_repeats() {
    let stems = vec![
        Some("b".to_string()),
        None,
        Some("a".to_string()),
        Some("c".to_string()),
        Some("b".to_string()),
    ];
    let mut r = neighbor_modules("a", &stems);
    r.sort();
    assert_eq!(r, vec!["b".to_string(), "c".to_string()]);
}

fn node_at(g: &mut CodeGraph, t: NodeType, name: &str, path: Option<&str>) -> u64 {
    let mut p = NodeProps::new();
    p.name = Some(name.to_string());
    p.path = path.map(|s| s.to_string());
    g.add_node(t, p).unwrap()
}

#[test]
fn architecture_info_of_a_service() {
    let mut g = CodeGraph::new();
    let a = node_at(&mut g, NodeType::Function, "login", Some("/src/services/auth.ts"));
    let b = node_at(&mut g, NodeType::Function, "find", Some("/src/repos/user.ts"));
    let c = node_at(&mut g, NodeType::Function, "check", Some("/src/services/auth.ts"));
    let d = node_at(&mut g, NodeType::Function, "route", Some("/src/routes/login.ts"));
    g.add_edge(a, b, EdgeType::Calls).unwrap();
    g.add_edge(a, c, EdgeType::Calls).unwrap();
    g.add_edge(d, a, EdgeType::Calls).unwrap();
    let info = get_architecture_info(&g, a, &vec![]).unwrap();
    assert_eq!(info.module, "auth");
    assert_eq!(info.layer, Some("service".to_string()));
    let mut n = info.neighbors.clone();
    n.sort();
    assert_eq!(n, vec!["login".to_string(), "user".to_string()]);
}

#[test]
fn architecture_info_needs_a_file() {
    let mut g = CodeGraph::new();
    let a = node_at(&mut g, NodeType::Function, "orphan", None);
    assert!(get_architecture_info(&g, a, &vec![]).is_none());
    let info = get_architecture_info(&g, a, &vec![(a, "/src/utils/x.rs".to_string())]).unwrap();
    assert_eq!(info.module, "x");
    assert_eq!(info.layer, Some("utility".to_string()));
    assert!(get_architecture_info(&g, 999, &vec![]).is_none());
}

#[test]
fn context_metadata_notes_the_fallback() {
    let m = context_metadata(120, 7, true, "foo");
    assert_eq!(m.total_tokens, 120);
    assert_eq!(m.query_time, 7);
    assert_eq!(m.used_fallback, Some(true));
    assert_eq!(
        m.fallback_message,
        Some("No symbol at cursor position. Using nearest symbol 'foo' instead.".to_string())
    );
    let m = context_metadata(1, 2, false, "foo");
    assert_eq!(m.used_fallback, None);
    assert_eq!(m.fallback_message, None);
}

#[test]
fn dependencies_are_the_imported_names() {
    let mut g = CodeGraph::new();
    let a = node_at(&mut g, NodeType::Module, "app", Some("/src/app.rs"));
    let b = node_at(&mut g, NodeType::Module, "serde", None);
    let c = node_at(&mut g, NodeType::Function, "helper", None);
    g.add_edge(a, b, EdgeType::Imports).unwrap();
    g.add_edge(a, c, EdgeType::Calls).unwrap();
    let deps = get_dependencies(&g, a);
    assert_eq!(deps.len(), 1);
    assert_eq!(deps[0].name, "serde");
    assert_eq!(deps[0].dep_type, "import");
    assert_eq!(deps[0].code, None);
}

#[test]
fn context_budget_plan_spends_within_the_budget() {
    let plan = plan_context_budget(
        100,
        30,
        &vec![Some(50), Some(40), None, Some(10)],
        &vec![Some(5), Some(20), Some(1)],
    );
    assert_eq!(plan.related, vec![0, 3]);
    assert_eq!(plan.usages, vec![0]);
    assert_eq!(plan.total_tokens, 95);
    let over = plan_context_budget(10, 50, &vec![Some(4)], &vec![]);
    assert_eq!(over.related, vec![0]);
    assert!(over.usages.is_empty());
    assert_eq!(over.total_tokens, 4);
}
