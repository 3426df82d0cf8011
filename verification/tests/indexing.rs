use codegraph_lsp::indexing::{entry_action, EntryAction};

fn exts() -> Vec<String> {
    vec![".rs".to_string(), "ts".to_string(), "..py".to_string()]
}

#[test]
fn hidden_and_build_directories_are_skipped() {
    assert_eq!(entry_action(".git", true, false, None, &exts()), EntryAction::Skip);
    assert_eq!(entry_action(".env", false, true, None, &exts()), EntryAction::Skip);
    for d in ["node_modules", "target", "dist", "build", "__pycache__"] {
        assert_eq!(entry_action(d, true, false, None, &exts()), EntryAction::Skip);
    }
    assert_eq!(entry_action("src", true, false, None, &exts()), EntryAction::Descend);
    assert_eq!(entry_action("vendor", true, false, None, &exts()), EntryAction::Descend);
}

#[test]
fn files_with_supported_extensions_are_parsed() {
    assert_eq!(entry_action("main.rs", false, true, Some("rs"), &exts()), EntryAction::Parse);
    assert_eq!(entry_action("app.ts", false, true, Some("ts"), &exts()), EntryAction::Parse);
    assert_eq!(entry_action("x.py", false, true, Some("py"), &exts()), EntryAction::Parse);
    assert_eq!(entry_action("notes.md", false, true, Some("md"), &exts()), EntryAction::Skip);
    assert_eq!(entry_action("Makefile", false, true, None, &exts()), EntryAction::Skip);
    assert_eq!(entry_action("socket", false, false, Some("rs"), &exts()), EntryAction::Skip);
}
