use codegraph_lsp::embedding::{CodeGraphEmbeddingModel, Model2VecConfig};
use codegraph_lsp::metrics::{metric_wanted, parser_metric, unused_summary, ParserMetricsParams};
use codegraph_lsp::graph::NodeType;
use codegraph_lsp::migration::{
    classify_key, migration_plan, stored_version, version_bytes, EntryKey, MigrationError, MigrationPlan,
    CURRENT_VERSION,
};

#[test]
fn embedding_models_and_their_dimensions() {
    assert_eq!(CodeGraphEmbeddingModel::default(), CodeGraphEmbeddingModel::JinaCodeV2);
    assert_eq!(CodeGraphEmbeddingModel::JinaCodeV2.dimension(), 768);
    assert_eq!(CodeGraphEmbeddingModel::BgeSmall.dimension(), 384);
    assert_eq!(CodeGraphEmbeddingModel::JinaCodeV2.display_name(), "Jina Code V2 (768d)");
    assert_eq!(CodeGraphEmbeddingModel::BgeSmall.display_name(), "BGE-Small-EN-v1.5 (384d)");
    let c = Model2VecConfig::default();
    assert_eq!(c.max_length, 512);
    assert!(c.normalize);
    assert_eq!(c.batch_size, 1024);
}

#[test]
fn store_versions() {
    assert_eq!(stored_version(None), Ok(1));
    assert_eq!(stored_version(Some(&vec![2, 0, 0, 0])), Ok(2));
    assert_eq!(stored_version(Some(&vec![1, 2, 3, 4])), Ok(u32::from_le_bytes([1, 2, 3, 4])));
    assert_eq!(stored_version(Some(&vec![1, 2])), Err(MigrationError::InvalidVersionFormat));
    assert_eq!(version_bytes(CURRENT_VERSION), CURRENT_VERSION.to_le_bytes().to_vec());
    assert_eq!(version_bytes(0x0403_0201), vec![1, 2, 3, 4]);
    assert_eq!(stored_version(Some(&version_bytes(77))), Ok(77));
}

#[test]
fn migration_plans() {
    assert_eq!(migration_plan(2), Ok(MigrationPlan::UpToDate));
    assert_eq!(migration_plan(9), Ok(MigrationPlan::UpToDate));
    assert_eq!(migration_plan(1), Ok(MigrationPlan::FromV1));
    assert_eq!(migration_plan(0), Err(MigrationError::UnknownVersion(0)));
}

#[test]
fn stored_keys() {
    assert!(matches!(classify_key("mem:test-id"), EntryKey::Memory(id) if id == "test-id"));
    assert!(matches!(classify_key("vec:abc"), EntryKey::Vector(id) if id == "abc"));
    assert!(matches!(classify_key("_db_version"), EntryKey::Other));
    assert!(matches!(classify_key("mem:"), EntryKey::Memory(id) if id.is_empty()));
}

#[test]
fn parser_metrics_average_per_parsed_file() {
    let m = parser_metric("rust", 10, 4, 6, 100, 50, 42);
    assert_eq!(m.avg_parse_time_ms, 10);
    assert_eq!(m.language, "rust");
    let m = parser_metric("go", 3, 0, 3, 0, 0, 42);
    assert_eq!(m.avg_parse_time_ms, 0);
    assert!(metric_wanted(&ParserMetricsParams { language: None }, "go"));
    assert!(metric_wanted(&ParserMetricsParams { language: Some("go".to_string()) }, "go"));
    assert!(!metric_wanted(&ParserMetricsParams { language: Some("go".to_string()) }, "rust"));
}

#[test]
fn unused_summary_counts() {
    let s = unused_summary(
        &vec![NodeType::Function, NodeType::Class, NodeType::Variable, NodeType::Function],
        &vec![true, false, true, false],
        &vec![true, true, false, false],
        &vec![10, 5, 7, 3],
    );
    assert_eq!(s.by_type.functions, 2);
    assert_eq!(s.by_type.classes, 1);
    assert_eq!(s.by_type.imports, 0);
    assert_eq!(s.by_type.variables, 0);
    assert_eq!(s.total_items, 3);
    assert_eq!(s.safe_deletions, 2);
    assert_eq!(s.estimated_lines_removable, 15);
}
