use codegraph_lsp::commands::{parse_command, parse_request, route_command, route_request, ArgPolicy, DispatchError, Operation};

fn all_operations() -> Vec<Operation> {
    vec![
        Operation::GetDependencyGraph,
        Operation::GetCallGraph,
        Operation::AnalyzeImpact,
        Operation::GetParserMetrics,
        Operation::ReindexWorkspace,
        Operation::GetAIContext,
        Operation::FindRelatedTests,
        Operation::GetNodeLocation,
        Operation::GetWorkspaceSymbols,
        Operation::AnalyzeComplexity,
        Operation::FindUnusedCode,
        Operation::AnalyzeCoupling,
        Operation::SymbolSearch,
        Operation::FindByImports,
        Operation::FindEntryPoints,
        Operation::TraverseGraph,
        Operation::GetCallers,
        Operation::GetCallees,
        Operation::GetDetailedSymbolInfo,
        Operation::FindBySignature,
        Operation::MemoryStore,
        Operation::MemorySearch,
        Operation::MemoryGet,
        Operation::MemoryInvalidate,
        Operation::MemoryList,
        Operation::MemoryUpdate,
        Operation::MemoryContext,
        Operation::MemoryStats,
        Operation::MineGitHistory,
        Operation::MineGitHistoryForFile,
        Operation::FindDuplicates,
        Operation::FindSimilar,
        Operation::ClusterSymbols,
        Operation::CompareSymbols,
        Operation::IndexDirectory,
        Operation::UpdateConfiguration,
    ]
}

fn is_command(o: Operation) -> bool {
    !matches!(
        o,
        Operation::FindDuplicates
            | Operation::FindSimilar
            | Operation::ClusterSymbols
            | Operation::CompareSymbols
            | Operation::IndexDirectory
            | Operation::UpdateConfiguration
    )
}

fn is_request(o: Operation) -> bool {
    !matches!(
        o,
        Operation::MemoryStore
            | Operation::MemorySearch
            | Operation::MemoryGet
            | Operation::MemoryInvalidate
            | Operation::MemoryList
            | Operation::MemoryUpdate
            | Operation::MemoryContext
            | Operation::MemoryStats
            | Operation::MineGitHistory
            | Operation::MineGitHistoryForFile
    )
}

#[test]
fn every_command_name_parses_back_to_its_operation() {
    for o in all_operations() {
        if is_command(o) {
            assert_eq!(parse_command(&o.command_name()), Some(o));
        } else {
            assert_eq!(parse_command(&o.command_name()), None);
        }
        if is_request(o) {
            assert_eq!(parse_request(&o.request_name()), Some(o));
        } else {
            assert_eq!(parse_request(&o.request_name()), None);
        }
    }
}

#[test]
fn command_and_request_names_are_distinct() {
    let ops = all_operations();
    for (i, a) in ops.iter().enumerate() {
        for b in ops.iter().skip(i + 1) {
            assert_ne!(a.command_name(), b.command_name());
            assert_ne!(a.request_name(), b.request_name());
        }
    }
}

#[test]
fn command_names_are_exact() {
    assert_eq!(Operation::GetCallGraph.command_name(), "codegraph.getCallGraph");
    assert_eq!(Operation::GetCallGraph.request_name(), "codegraph/getCallGraph");
    assert_eq!(parse_command("codegraph.getAIContext"), Some(Operation::GetAIContext));
    assert_eq!(parse_request("codegraph/analyzeImpact"), Some(Operation::AnalyzeImpact));
}

#[test]
fn unknown_names_are_refused() {
    assert_eq!(parse_command("codegraph.nothing"), None);
    assert_eq!(parse_command("codegraph/getCallGraph"), None);
    assert_eq!(parse_request("codegraph.getCallGraph"), None);
    assert_eq!(route_command("nope", true), Err(DispatchError::MethodNotFound));
    assert_eq!(route_request("nope"), Err(DispatchError::MethodNotFound));
}

#[test]
fn commands_that_need_an_argument_refuse_without_one() {
    assert_eq!(route_command("codegraph.analyzeImpact", false), Err(DispatchError::MissingArguments));
    assert_eq!(route_command("codegraph.analyzeImpact", true), Ok(Operation::AnalyzeImpact));
    assert_eq!(route_command("codegraph.getParserMetrics", false), Ok(Operation::GetParserMetrics));
    assert_eq!(route_command("codegraph.memoryList", false), Ok(Operation::MemoryList));
    assert_eq!(Operation::MemoryList.arg_policy(), ArgPolicy::Optional);
    assert_eq!(Operation::MemoryStats.arg_policy(), ArgPolicy::Unused);
    assert_eq!(Operation::GetCallers.arg_policy(), ArgPolicy::Required);
    assert_eq!(route_request("codegraph/getCallers"), Ok(Operation::GetCallers));
}
