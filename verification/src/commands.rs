//! The commands and requests the server answers: their names, how they are
//! recognised, and which of them need an argument.
use vstd::prelude::*;
use crate::text::owned;
use crate::text::str_eq;

verus! {

/// An operation the server can be asked to perform.
#[derive(Clone, Copy, Debug, PartialEq, Eq, Structural)]
pub enum Operation {
    GetDependencyGraph,
    GetCallGraph,
    AnalyzeImpact,
    GetParserMetrics,
    ReindexWorkspace,
    GetAIContext,
    FindRelatedTests,
    GetNodeLocation,
    GetWorkspaceSymbols,
    AnalyzeComplexity,
    FindUnusedCode,
    AnalyzeCoupling,
    SymbolSearch,
    FindByImports,
    FindEntryPoints,
    TraverseGraph,
    GetCallers,
    GetCallees,
    GetDetailedSymbolInfo,
    FindBySignature,
    MemoryStore,
    MemorySearch,
    MemoryGet,
    MemoryInvalidate,
    MemoryList,
    MemoryUpdate,
    MemoryContext,
    MemoryStats,
    MineGitHistory,
    MineGitHistoryForFile,
    FindDuplicates,
    FindSimilar,
    ClusterSymbols,
    CompareSymbols,
    IndexDirectory,
    UpdateConfiguration,
}

/// The name of an operation as an editor command (`codegraph.` and the
/// operation's name).
pub open spec fn command_name(o: Operation) -> Seq<char> {
    match o {
        Operation::GetDependencyGraph => "codegraph.getDependencyGraph"@,
        Operation::GetCallGraph => "codegraph.getCallGraph"@,
        Operation::AnalyzeImpact => "codegraph.analyzeImpact"@,
        Operation::GetParserMetrics => "codegraph.getParserMetrics"@,
        Operation::ReindexWorkspace => "codegraph.reindexWorkspace"@,
        Operation::GetAIContext => "codegraph.getAIContext"@,
        Operation::FindRelatedTests => "codegraph.findRelatedTests"@,
        Operation::GetNodeLocation => "codegraph.getNodeLocation"@,
        Operation::GetWorkspaceSymbols => "codegraph.getWorkspaceSymbols"@,
        Operation::AnalyzeComplexity => "codegraph.analyzeComplexity"@,
        Operation::FindUnusedCode => "codegraph.findUnusedCode"@,
        Operation::AnalyzeCoupling => "codegraph.analyzeCoupling"@,
        Operation::SymbolSearch => "codegraph.symbolSearch"@,
        Operation::FindByImports => "codegraph.findByImports"@,
        Operation::FindEntryPoints => "codegraph.findEntryPoints"@,
        Operation::TraverseGraph => "codegraph.traverseGraph"@,
        Operation::GetCallers => "codegraph.getCallers"@,
        Operation::GetCallees => "codegraph.getCallees"@,
        Operation::GetDetailedSymbolInfo => "codegraph.getDetailedSymbolInfo"@,
        Operation::FindBySignature => "codegraph.findBySignature"@,
        Operation::MemoryStore => "codegraph.memoryStore"@,
        Operation::MemorySearch => "codegraph.memorySearch"@,
        Operation::MemoryGet => "codegraph.memoryGet"@,
        Operation::MemoryInvalidate => "codegraph.memoryInvalidate"@,
        Operation::MemoryList => "codegraph.memoryList"@,
        Operation::MemoryUpdate => "codegraph.memoryUpdate"@,
        Operation::MemoryContext => "codegraph.memoryContext"@,
        Operation::MemoryStats => "codegraph.memoryStats"@,
        Operation::MineGitHistory => "codegraph.mineGitHistory"@,
        Operation::MineGitHistoryForFile => "codegraph.mineGitHistoryForFile"@,
        Operation::FindDuplicates => "codegraph.findDuplicates"@,
        Operation::FindSimilar => "codegraph.findSimilar"@,
        Operation::ClusterSymbols => "codegraph.clusterSymbols"@,
        Operation::CompareSymbols => "codegraph.compareSymbols"@,
        Operation::IndexDirectory => "codegraph.indexDirectory"@,
        Operation::UpdateConfiguration => "codegraph.updateConfiguration"@,
    }
}

/// The name of an operation as a custom request (`codegraph/` and the
/// operation's name).
pub open spec fn request_name(o: Operation) -> Seq<char> {
    match o {
        Operation::GetDependencyGraph => "codegraph/getDependencyGraph"@,
        Operation::GetCallGraph => "codegraph/getCallGraph"@,
        Operation::AnalyzeImpact => "codegraph/analyzeImpact"@,
        Operation::GetParserMetrics => "codegraph/getParserMetrics"@,
        Operation::ReindexWorkspace => "codegraph/reindexWorkspace"@,
        Operation::GetAIContext => "codegraph/getAIContext"@,
        Operation::FindRelatedTests => "codegraph/findRelatedTests"@,
        Operation::GetNodeLocation => "codegraph/getNodeLocation"@,
        Operation::GetWorkspaceSymbols => "codegraph/getWorkspaceSymbols"@,
        Operation::AnalyzeComplexity => "codegraph/analyzeComplexity"@,
        Operation::FindUnusedCode => "codegraph/findUnusedCode"@,
        Operation::AnalyzeCoupling => "codegraph/analyzeCoupling"@,
        Operation::SymbolSearch => "codegraph/symbolSearch"@,
        Operation::FindByImports => "codegraph/findByImports"@,
        Operation::FindEntryPoints => "codegraph/findEntryPoints"@,
        Operation::TraverseGraph => "codegraph/traverseGraph"@,
        Operation::GetCallers => "codegraph/getCallers"@,
        Operation::GetCallees => "codegraph/getCallees"@,
        Operation::GetDetailedSymbolInfo => "codegraph/getDetailedSymbolInfo"@,
        Operation::FindBySignature => "codegraph/findBySignature"@,
        Operation::MemoryStore => "codegraph/memoryStore"@,
        Operation::MemorySearch => "codegraph/memorySearch"@,
        Operation::MemoryGet => "codegraph/memoryGet"@,
        Operation::MemoryInvalidate => "codegraph/memoryInvalidate"@,
        Operation::MemoryList => "codegraph/memoryList"@,
        Operation::MemoryUpdate => "codegraph/memoryUpdate"@,
        Operation::MemoryContext => "codegraph/memoryContext"@,
        Operation::MemoryStats => "codegraph/memoryStats"@,
        Operation::MineGitHistory => "codegraph/mineGitHistory"@,
        Operation::MineGitHistoryForFile => "codegraph/mineGitHistoryForFile"@,
        Operation::FindDuplicates => "codegraph/findDuplicates"@,
        Operation::FindSimilar => "codegraph/findSimilar"@,
        Operation::ClusterSymbols => "codegraph/clusterSymbols"@,
        Operation::CompareSymbols => "codegraph/compareSymbols"@,
        Operation::IndexDirectory => "codegraph/indexDirectory"@,
        Operation::UpdateConfiguration => "codegraph/updateConfiguration"@,
    }
}

/// The operations offered as editor commands.
pub open spec fn is_command(o: Operation) -> bool {
    match o {
        Operation::FindDuplicates => false,
        Operation::FindSimilar => false,
        Operation::ClusterSymbols => false,
        Operation::CompareSymbols => false,
        Operation::IndexDirectory => false,
        Operation::UpdateConfiguration => false,
        _ => true,
    }
}

/// The operations offered as custom requests.
pub open spec fn is_request(o: Operation) -> bool {
    match o {
        Operation::MemoryStore => false,
        Operation::MemorySearch => false,
        Operation::MemoryGet => false,
        Operation::MemoryInvalidate => false,
        Operation::MemoryList => false,
        Operation::MemoryUpdate => false,
        Operation::MemoryContext => false,
        Operation::MemoryStats => false,
        Operation::MineGitHistory => false,
        Operation::MineGitHistoryForFile => false,
        _ => true,
    }
}

/// The operation a command name stands for.
pub open spec fn command_of(s: Seq<char>) -> Option<Operation> {
    if s == "codegraph.getDependencyGraph"@ {
        Some(Operation::GetDependencyGraph)
    } else if s == "codegraph.getCallGraph"@ {
        Some(Operation::GetCallGraph)
    } else if s == "codegraph.analyzeImpact"@ {
        Some(Operation::AnalyzeImpact)
    } else if s == "codegraph.getParserMetrics"@ {
        Some(Operation::GetParserMetrics)
    } else if s == "codegraph.reindexWorkspace"@ {
        Some(Operation::ReindexWorkspace)
    } else if s == "codegraph.getAIContext"@ {
        Some(Operation::GetAIContext)
    } else if s == "codegraph.findRelatedTests"@ {
        Some(Operation::FindRelatedTests)
    } else if s == "codegraph.getNodeLocation"@ {
        Some(Operation::GetNodeLocation)
    } else if s == "codegraph.getWorkspaceSymbols"@ {
        Some(Operation::GetWorkspaceSymbols)
    } else if s == "codegraph.analyzeComplexity"@ {
        Some(Operation::AnalyzeComplexity)
    } else if s == "codegraph.findUnusedCode"@ {
        Some(Operation::FindUnusedCode)
    } else if s == "codegraph.analyzeCoupling"@ {
        Some(Operation::AnalyzeCoupling)
    } else if s == "codegraph.symbolSearch"@ {
        Some(Operation::SymbolSearch)
    } else if s == "codegraph.findByImports"@ {
        Some(Operation::FindByImports)
    } else if s == "codegraph.findEntryPoints"@ {
        Some(Operation::FindEntryPoints)
    } else if s == "codegraph.traverseGraph"@ {
        Some(Operation::TraverseGraph)
    } else if s == "codegraph.getCallers"@ {
        Some(Operation::GetCallers)
    } else if s == "codegraph.getCallees"@ {
        Some(Operation::GetCallees)
    } else if s == "codegraph.getDetailedSymbolInfo"@ {
        Some(Operation::GetDetailedSymbolInfo)
    } else if s == "codegraph.findBySignature"@ {
        Some(Operation::FindBySignature)
    } else if s == "codegraph.memoryStore"@ {
        Some(Operation::MemoryStore)
    } else if s == "codegraph.memorySearch"@ {
        Some(Operation::MemorySearch)
    } else if s == "codegraph.memoryGet"@ {
        Some(Operation::MemoryGet)
    } else if s == "codegraph.memoryInvalidate"@ {
        Some(Operation::MemoryInvalidate)
    } else if s == "codegraph.memoryList"@ {
        Some(Operation::MemoryList)
    } else if s == "codegraph.memoryUpdate"@ {
        Some(Operation::MemoryUpdate)
    } else if s == "codegraph.memoryContext"@ {
        Some(Operation::MemoryContext)
    } else if s == "codegraph.memoryStats"@ {
        Some(Operation::MemoryStats)
    } else if s == "codegraph.mineGitHistory"@ {
        Some(Operation::MineGitHistory)
    } else if s == "codegraph.mineGitHistoryForFile"@ {
        Some(Operation::MineGitHistoryForFile)
    } else {
        None
    }
}

/// The operation a request name stands for.
pub open spec fn request_of(s: Seq<char>) -> Option<Operation> {
    if s == "codegraph/getDependencyGraph"@ {
        Some(Operation::GetDependencyGraph)
    } else if s == "codegraph/getCallGraph"@ {
        Some(Operation::GetCallGraph)
    } else if s == "codegraph/analyzeImpact"@ {
        Some(Operation::AnalyzeImpact)
    } else if s == "codegraph/getParserMetrics"@ {
        Some(Operation::GetParserMetrics)
    } else if s == "codegraph/reindexWorkspace"@ {
        Some(Operation::ReindexWorkspace)
    } else if s == "codegraph/getAIContext"@ {
        Some(Operation::GetAIContext)
    } else if s == "codegraph/findRelatedTests"@ {
        Some(Operation::FindRelatedTests)
    } else if s == "codegraph/getNodeLocation"@ {
        Some(Operation::GetNodeLocation)
    } else if s == "codegraph/getWorkspaceSymbols"@ {
        Some(Operation::GetWorkspaceSymbols)
    } else if s == "codegraph/analyzeComplexity"@ {
        Some(Operation::AnalyzeComplexity)
    } else if s == "codegraph/findUnusedCode"@ {
        Some(Operation::FindUnusedCode)
    } else if s == "codegraph/analyzeCoupling"@ {
        Some(Operation::AnalyzeCoupling)
    } else if s == "codegraph/symbolSearch"@ {
        Some(Operation::SymbolSearch)
    } else if s == "codegraph/findByImports"@ {
        Some(Operation::FindByImports)
    } else if s == "codegraph/findEntryPoints"@ {
        Some(Operation::FindEntryPoints)
    } else if s == "codegraph/traverseGraph"@ {
        Some(Operation::TraverseGraph)
    } else if s == "codegraph/getCallers"@ {
        Some(Operation::GetCallers)
    } else if s == "codegraph/getCallees"@ {
        Some(Operation::GetCallees)
    } else if s == "codegraph/getDetailedSymbolInfo"@ {
        Some(Operation::GetDetailedSymbolInfo)
    } else if s == "codegraph/findBySignature"@ {
        Some(Operation::FindBySignature)
    } else if s == "codegraph/findDuplicates"@ {
        Some(Operation::FindDuplicates)
    } else if s == "codegraph/findSimilar"@ {
        Some(Operation::FindSimilar)
    } else if s == "codegraph/clusterSymbols"@ {
        Some(Operation::ClusterSymbols)
    } else if s == "codegraph/compareSymbols"@ {
        Some(Operation::CompareSymbols)
    } else if s == "codegraph/indexDirectory"@ {
        Some(Operation::IndexDirectory)
    } else if s == "codegraph/updateConfiguration"@ {
        Some(Operation::UpdateConfiguration)
    } else {
        None
    }
}

/// The operation an editor command name stands for, if any.
pub fn parse_command(name: &str) -> (r: Option<Operation>)
    ensures
        r == command_of(name@),
{
    if str_eq(name, "codegraph.getDependencyGraph") {
        Some(Operation::GetDependencyGraph)
    } else if str_eq(name, "codegraph.getCallGraph") {
        Some(Operation::GetCallGraph)
    } else if str_eq(name, "codegraph.analyzeImpact") {
        Some(Operation::AnalyzeImpact)
    } else if str_eq(name, "codegraph.getParserMetrics") {
        Some(Operation::GetParserMetrics)
    } else if str_eq(name, "codegraph.reindexWorkspace") {
        Some(Operation::ReindexWorkspace)
    } else if str_eq(name, "codegraph.getAIContext") {
        Some(Operation::GetAIContext)
    } else if str_eq(name, "codegraph.findRelatedTests") {
        Some(Operation::FindRelatedTests)
    } else if str_eq(name, "codegraph.getNodeLocation") {
        Some(Operation::GetNodeLocation)
    } else if str_eq(name, "codegraph.getWorkspaceSymbols") {
        Some(Operation::GetWorkspaceSymbols)
    } else if str_eq(name, "codegraph.analyzeComplexity") {
        Some(Operation::AnalyzeComplexity)
    } else if str_eq(name, "codegraph.findUnusedCode") {
        Some(Operation::FindUnusedCode)
    } else if str_eq(name, "codegraph.analyzeCoupling") {
        Some(Operation::AnalyzeCoupling)
    } else if str_eq(name, "codegraph.symbolSearch") {
        Some(Operation::SymbolSearch)
    } else if str_eq(name, "codegraph.findByImports") {
        Some(Operation::FindByImports)
    } else if str_eq(name, "codegraph.findEntryPoints") {
        Some(Operation::FindEntryPoints)
    } else if str_eq(name, "codegraph.traverseGraph") {
        Some(Operation::TraverseGraph)
    } else if str_eq(name, "codegraph.getCallers") {
        Some(Operation::GetCallers)
    } else if str_eq(name, "codegraph.getCallees") {
        Some(Operation::GetCallees)
    } else if str_eq(name, "codegraph.getDetailedSymbolInfo") {
        Some(Operation::GetDetailedSymbolInfo)
    } else if str_eq(name, "codegraph.findBySignature") {
        Some(Operation::FindBySignature)
    } else if str_eq(name, "codegraph.memoryStore") {
        Some(Operation::MemoryStore)
    } else if str_eq(name, "codegraph.memorySearch") {
        Some(Operation::MemorySearch)
    } else if str_eq(name, "codegraph.memoryGet") {
        Some(Operation::MemoryGet)
    } else if str_eq(name, "codegraph.memoryInvalidate") {
        Some(Operation::MemoryInvalidate)
    } else if str_eq(name, "codegraph.memoryList") {
        Some(Operation::MemoryList)
    } else if str_eq(name, "codegraph.memoryUpdate") {
        Some(Operation::MemoryUpdate)
    } else if str_eq(name, "codegraph.memoryContext") {
        Some(Operation::MemoryContext)
    } else if str_eq(name, "codegraph.memoryStats") {
        Some(Operation::MemoryStats)
    } else if str_eq(name, "codegraph.mineGitHistory") {
        Some(Operation::MineGitHistory)
    } else if str_eq(name, "codegraph.mineGitHistoryForFile") {
        Some(Operation::MineGitHistoryForFile)
    } else {
        None
    }
}

/// The operation a custom request method stands for, if any.
pub fn parse_request(name: &str) -> (r: Option<Operation>)
    ensures
        r == request_of(name@),
{
    if str_eq(name, "codegraph/getDependencyGraph") {
        Some(Operation::GetDependencyGraph)
    } else if str_eq(name, "codegraph/getCallGraph") {
        Some(Operation::GetCallGraph)
    } else if str_eq(name, "codegraph/analyzeImpact") {
        Some(Operation::AnalyzeImpact)
    } else if str_eq(name, "codegraph/getParserMetrics") {
        Some(Operation::GetParserMetrics)
    } else if str_eq(name, "codegraph/reindexWorkspace") {
        Some(Operation::ReindexWorkspace)
    } else if str_eq(name, "codegraph/getAIContext") {
        Some(Operation::GetAIContext)
    } else if str_eq(name, "codegraph/findRelatedTests") {
        Some(Operation::FindRelatedTests)
    } else if str_eq(name, "codegraph/getNodeLocation") {
        Some(Operation::GetNodeLocation)
    } else if str_eq(name, "codegraph/getWorkspaceSymbols") {
        Some(Operation::GetWorkspaceSymbols)
    } else if str_eq(name, "codegraph/analyzeComplexity") {
        Some(Operation::AnalyzeComplexity)
    } else if str_eq(name, "codegraph/findUnusedCode") {
        Some(Operation::FindUnusedCode)
    } else if str_eq(name, "codegraph/analyzeCoupling") {
        Some(Operation::AnalyzeCoupling)
    } else if str_eq(name, "codegraph/symbolSearch") {
        Some(Operation::SymbolSearch)
    } else if str_eq(name, "codegraph/findByImports") {
        Some(Operation::FindByImports)
    } else if str_eq(name, "codegraph/findEntryPoints") {
        Some(Operation::FindEntryPoints)
    } else if str_eq(name, "codegraph/traverseGraph") {
        Some(Operation::TraverseGraph)
    } else if str_eq(name, "codegraph/getCallers") {
        Some(Operation::GetCallers)
    } else if str_eq(name, "codegraph/getCallees") {
        Some(Operation::GetCallees)
    } else if str_eq(name, "codegraph/getDetailedSymbolInfo") {
        Some(Operation::GetDetailedSymbolInfo)
    } else if str_eq(name, "codegraph/findBySignature") {
        Some(Operation::FindBySignature)
    } else if str_eq(name, "codegraph/findDuplicates") {
        Some(Operation::FindDuplicates)
    } else if str_eq(name, "codegraph/findSimilar") {
        Some(Operation::FindSimilar)
    } else if str_eq(name, "codegraph/clusterSymbols") {
        Some(Operation::ClusterSymbols)
    } else if str_eq(name, "codegraph/compareSymbols") {
        Some(Operation::CompareSymbols)
    } else if str_eq(name, "codegraph/indexDirectory") {
        Some(Operation::IndexDirectory)
    } else if str_eq(name, "codegraph/updateConfiguration") {
        Some(Operation::UpdateConfiguration)
    } else {
        None
    }
}

impl Operation {
    /// The editor command name of the operation.
    pub fn command_name(self) -> (r: String)
        ensures
            r@ == command_name(self),
    {
        match self {
            Operation::GetDependencyGraph => owned("codegraph.getDependencyGraph"),
            Operation::GetCallGraph => owned("codegraph.getCallGraph"),
            Operation::AnalyzeImpact => owned("codegraph.analyzeImpact"),
            Operation::GetParserMetrics => owned("codegraph.getParserMetrics"),
            Operation::ReindexWorkspace => owned("codegraph.reindexWorkspace"),
            Operation::GetAIContext => owned("codegraph.getAIContext"),
            Operation::FindRelatedTests => owned("codegraph.findRelatedTests"),
            Operation::GetNodeLocation => owned("codegraph.getNodeLocation"),
            Operation::GetWorkspaceSymbols => owned("codegraph.getWorkspaceSymbols"),
            Operation::AnalyzeComplexity => owned("codegraph.analyzeComplexity"),
            Operation::FindUnusedCode => owned("codegraph.findUnusedCode"),
            Operation::AnalyzeCoupling => owned("codegraph.analyzeCoupling"),
            Operation::SymbolSearch => owned("codegraph.symbolSearch"),
            Operation::FindByImports => owned("codegraph.findByImports"),
            Operation::FindEntryPoints => owned("codegraph.findEntryPoints"),
            Operation::TraverseGraph => owned("codegraph.traverseGraph"),
            Operation::GetCallers => owned("codegraph.getCallers"),
            Operation::GetCallees => owned("codegraph.getCallees"),
            Operation::GetDetailedSymbolInfo => owned("codegraph.getDetailedSymbolInfo"),
            Operation::FindBySignature => owned("codegraph.findBySignature"),
            Operation::MemoryStore => owned("codegraph.memoryStore"),
            Operation::MemorySearch => owned("codegraph.memorySearch"),
            Operation::MemoryGet => owned("codegraph.memoryGet"),
            Operation::MemoryInvalidate => owned("codegraph.memoryInvalidate"),
            Operation::MemoryList => owned("codegraph.memoryList"),
            Operation::MemoryUpdate => owned("codegraph.memoryUpdate"),
            Operation::MemoryContext => owned("codegraph.memoryContext"),
            Operation::MemoryStats => owned("codegraph.memoryStats"),
            Operation::MineGitHistory => owned("codegraph.mineGitHistory"),
            Operation::MineGitHistoryForFile => owned("codegraph.mineGitHistoryForFile"),
            Operation::FindDuplicates => owned("codegraph.findDuplicates"),
            Operation::FindSimilar => owned("codegraph.findSimilar"),
            Operation::ClusterSymbols => owned("codegraph.clusterSymbols"),
            Operation::CompareSymbols => owned("codegraph.compareSymbols"),
            Operation::IndexDirectory => owned("codegraph.indexDirectory"),
            Operation::UpdateConfiguration => owned("codegraph.updateConfiguration"),
        }
    }

    /// The custom request method of the operation.
    pub fn request_name(self) -> (r: String)
        ensures
            r@ == request_name(self),
    {
        match self {
            Operation::GetDependencyGraph => owned("codegraph/getDependencyGraph"),
            Operation::GetCallGraph => owned("codegraph/getCallGraph"),
            Operation::AnalyzeImpact => owned("codegraph/analyzeImpact"),
            Operation::GetParserMetrics => owned("codegraph/getParserMetrics"),
            Operation::ReindexWorkspace => owned("codegraph/reindexWorkspace"),
            Operation::GetAIContext => owned("codegraph/getAIContext"),
            Operation::FindRelatedTests => owned("codegraph/findRelatedTests"),
            Operation::GetNodeLocation => owned("codegraph/getNodeLocation"),
            Operation::GetWorkspaceSymbols => owned("codegraph/getWorkspaceSymbols"),
            Operation::AnalyzeComplexity => owned("codegraph/analyzeComplexity"),
            Operation::FindUnusedCode => owned("codegraph/findUnusedCode"),
            Operation::AnalyzeCoupling => owned("codegraph/analyzeCoupling"),
            Operation::SymbolSearch => owned("codegraph/symbolSearch"),
            Operation::FindByImports => owned("codegraph/findByImports"),
            Operation::FindEntryPoints => owned("codegraph/findEntryPoints"),
            Operation::TraverseGraph => owned("codegraph/traverseGraph"),
            Operation::GetCallers => owned("codegraph/getCallers"),
            Operation::GetCallees => owned("codegraph/getCallees"),
            Operation::GetDetailedSymbolInfo => owned("codegraph/getDetailedSymbolInfo"),
            Operation::FindBySignature => owned("codegraph/findBySignature"),
            Operation::MemoryStore => owned("codegraph/memoryStore"),
            Operation::MemorySearch => owned("codegraph/memorySearch"),
            Operation::MemoryGet => owned("codegraph/memoryGet"),
            Operation::MemoryInvalidate => owned("codegraph/memoryInvalidate"),
            Operation::MemoryList => owned("codegraph/memoryList"),
            Operation::MemoryUpdate => owned("codegraph/memoryUpdate"),
            Operation::MemoryContext => owned("codegraph/memoryContext"),
            Operation::MemoryStats => owned("codegraph/memoryStats"),
            Operation::MineGitHistory => owned("codegraph/mineGitHistory"),
            Operation::MineGitHistoryForFile => owned("codegraph/mineGitHistoryForFile"),
            Operation::FindDuplicates => owned("codegraph/findDuplicates"),
            Operation::FindSimilar => owned("codegraph/findSimilar"),
            Operation::ClusterSymbols => owned("codegraph/clusterSymbols"),
            Operation::CompareSymbols => owned("codegraph/compareSymbols"),
            Operation::IndexDirectory => owned("codegraph/indexDirectory"),
            Operation::UpdateConfiguration => owned("codegraph/updateConfiguration"),
        }
    }
}

/// Every operation has one name, used by both its editor command and its
/// custom request: the command is `codegraph.` followed by the name, the
/// request `codegraph/` followed by the same name.
pub proof fn lemma_command_request_names(o: Operation)
    ensures
        command_name(o).take(10) == "codegraph."@,
        request_name(o).take(10) == "codegraph/"@,
        command_name(o).skip(10) == request_name(o).skip(10),
{
    reveal_strlit("codegraph.");
    reveal_strlit("codegraph/");
    match o {
        Operation::GetDependencyGraph => {
            reveal_strlit("codegraph.getDependencyGraph");
            reveal_strlit("codegraph/getDependencyGraph");
            assert(command_name(o).skip(10) =~= request_name(o).skip(10));
            assert(command_name(o).take(10) =~= "codegraph."@);
            assert(request_name(o).take(10) =~= "codegraph/"@);
        },
        Operation::GetCallGraph => {
            reveal_strlit("codegraph.getCallGraph");
            reveal_strlit("codegraph/getCallGraph");
            assert(command_name(o).skip(10) =~= request_name(o).skip(10));
            assert(command_name(o).take(10) =~= "codegraph."@);
            assert(request_name(o).take(10) =~= "codegraph/"@);
        },
        Operation::AnalyzeImpact => {
            reveal_strlit("codegraph.analyzeImpact");
            reveal_strlit("codegraph/analyzeImpact");
            assert(command_name(o).skip(10) =~= request_name(o).skip(10));
            assert(command_name(o).take(10) =~= "codegraph."@);
            assert(request_name(o).take(10) =~= "codegraph/"@);
        },
        Operation::GetParserMetrics => {
            reveal_strlit("codegraph.getParserMetrics");
            reveal_strlit("codegraph/getParserMetrics");
            assert(command_name(o).skip(10) =~= request_name(o).skip(10));
            assert(command_name(o).take(10) =~= "codegraph."@);
            assert(request_name(o).take(10) =~= "codegraph/"@);
        },
        Operation::ReindexWorkspace => {
            reveal_strlit("codegraph.reindexWorkspace");
            reveal_strlit("codegraph/reindexWorkspace");
            assert(command_name(o).skip(10) =~= request_name(o).skip(10));
            assert(command_name(o).take(10) =~= "codegraph."@);
            assert(request_name(o).take(10) =~= "codegraph/"@);
        },
        Operation::GetAIContext => {
            reveal_strlit("codegraph.getAIContext");
            reveal_strlit("codegraph/getAIContext");
            assert(command_name(o).skip(10) =~= request_name(o).skip(10));
            assert(command_name(o).take(10) =~= "codegraph."@);
            assert(request_name(o).take(10) =~= "codegraph/"@);
        },
        Operation::FindRelatedTests => {
            reveal_strlit("codegraph.findRelatedTests");
            reveal_strlit("codegraph/findRelatedTests");
            assert(command_name(o).skip(10) =~= request_name(o).skip(10));
            assert(command_name(o).take(10) =~= "codegraph."@);
            assert(request_name(o).take(10) =~= "codegraph/"@);
        },
        Operation::GetNodeLocation => {
            reveal_strlit("codegraph.getNodeLocation");
            reveal_strlit("codegraph/getNodeLocation");
            assert(command_name(o).skip(10) =~= request_name(o).skip(10));
            assert(command_name(o).take(10) =~= "codegraph."@);
            assert(request_name(o).take(10) =~= "codegraph/"@);
        },
        Operation::GetWorkspaceSymbols => {
            reveal_strlit("codegraph.getWorkspaceSymbols");
            reveal_strlit("codegraph/getWorkspaceSymbols");
            assert(command_name(o).skip(10) =~= request_name(o).skip(10));
            assert(command_name(o).take(10) =~= "codegraph."@);
            assert(request_name(o).take(10) =~= "codegraph/"@);
        },
        Operation::AnalyzeComplexity => {
            reveal_strlit("codegraph.analyzeComplexity");
            reveal_strlit("codegraph/analyzeComplexity");
            assert(command_name(o).skip(10) =~= request_name(o).skip(10));
            assert(command_name(o).take(10) =~= "codegraph."@);
            assert(request_name(o).take(10) =~= "codegraph/"@);
        },
        Operation::FindUnusedCode => {
            reveal_strlit("codegraph.findUnusedCode");
            reveal_strlit("codegraph/findUnusedCode");
            assert(command_name(o).skip(10) =~= request_name(o).skip(10));
            assert(command_name(o).take(10) =~= "codegraph."@);
            assert(request_name(o).take(10) =~= "codegraph/"@);
        },
        Operation::AnalyzeCoupling => {
            reveal_strlit("codegraph.analyzeCoupling");
            reveal_strlit("codegraph/analyzeCoupling");
            assert(command_name(o).skip(10) =~= request_name(o).skip(10));
            assert(command_name(o).take(10) =~= "codegraph."@);
            assert(request_name(o).take(10) =~= "codegraph/"@);
        },
        Operation::SymbolSearch => {
            reveal_strlit("codegraph.symbolSearch");
            reveal_strlit("codegraph/symbolSearch");
            assert(command_name(o).skip(10) =~= request_name(o).skip(10));
            assert(command_name(o).take(10) =~= "codegraph."@);
            assert(request_name(o).take(10) =~= "codegraph/"@);
        },
        Operation::FindByImports => {
            reveal_strlit("codegraph.findByImports");
            reveal_strlit("codegraph/findByImports");
            assert(command_name(o).skip(10) =~= request_name(o).skip(10));
            assert(command_name(o).take(10) =~= "codegraph."@);
            assert(request_name(o).take(10) =~= "codegraph/"@);
        },
        Operation::FindEntryPoints => {
            reveal_strlit("codegraph.findEntryPoints");
            reveal_strlit("codegraph/findEntryPoints");
            assert(command_name(o).skip(10) =~= request_name(o).skip(10));
            assert(command_name(o).take(10) =~= "codegraph."@);
            assert(request_name(o).take(10) =~= "codegraph/"@);
        },
        Operation::TraverseGraph => {
            reveal_strlit("codegraph.traverseGraph");
            reveal_strlit("codegraph/traverseGraph");
            assert(command_name(o).skip(10) =~= request_name(o).skip(10));
            assert(command_name(o).take(10) =~= "codegraph."@);
            assert(request_name(o).take(10) =~= "codegraph/"@);
        },
        Operation::GetCallers => {
            reveal_strlit("codegraph.getCallers");
            reveal_strlit("codegraph/getCallers");
            assert(command_name(o).skip(10) =~= request_name(o).skip(10));
            assert(command_name(o).take(10) =~= "codegraph."@);
            assert(request_name(o).take(10) =~= "codegraph/"@);
        },
        Operation::GetCallees => {
            reveal_strlit("codegraph.getCallees");
            reveal_strlit("codegraph/getCallees");
            assert(command_name(o).skip(10) =~= request_name(o).skip(10));
            assert(command_name(o).take(10) =~= "codegraph."@);
            assert(request_name(o).take(10) =~= "codegraph/"@);
        },
        Operation::GetDetailedSymbolInfo => {
            reveal_strlit("codegraph.getDetailedSymbolInfo");
            reveal_strlit("codegraph/getDetailedSymbolInfo");
            assert(command_name(o).skip(10) =~= request_name(o).skip(10));
            assert(command_name(o).take(10) =~= "codegraph."@);
            assert(request_name(o).take(10) =~= "codegraph/"@);
        },
        Operation::FindBySignature => {
            reveal_strlit("codegraph.findBySignature");
            reveal_strlit("codegraph/findBySignature");
            assert(command_name(o).skip(10) =~= request_name(o).skip(10));
            assert(command_name(o).take(10) =~= "codegraph."@);
            assert(request_name(o).take(10) =~= "codegraph/"@);
        },
        Operation::MemoryStore => {
            reveal_strlit("codegraph.memoryStore");
            reveal_strlit("codegraph/memoryStore");
            assert(command_name(o).skip(10) =~= request_name(o).skip(10));
            assert(command_name(o).take(10) =~= "codegraph."@);
            assert(request_name(o).take(10) =~= "codegraph/"@);
        },
        Operation::MemorySearch => {
            reveal_strlit("codegraph.memorySearch");
            reveal_strlit("codegraph/memorySearch");
            assert(command_name(o).skip(10) =~= request_name(o).skip(10));
            assert(command_name(o).take(10) =~= "codegraph."@);
            assert(request_name(o).take(10) =~= "codegraph/"@);
        },
        Operation::MemoryGet => {
            reveal_strlit("codegraph.memoryGet");
            reveal_strlit("codegraph/memoryGet");
            assert(command_name(o).skip(10) =~= request_name(o).skip(10));
            assert(command_name(o).take(10) =~= "codegraph."@);
            assert(request_name(o).take(10) =~= "codegraph/"@);
        },
        Operation::MemoryInvalidate => {
            reveal_strlit("codegraph.memoryInvalidate");
            reveal_strlit("codegraph/memoryInvalidate");
            assert(command_name(o).skip(10) =~= request_name(o).skip(10));
            assert(command_name(o).take(10) =~= "codegraph."@);
            assert(request_name(o).take(10) =~= "codegraph/"@);
        },
        Operation::MemoryList => {
            reveal_strlit("codegraph.memoryList");
            reveal_strlit("codegraph/memoryList");
            assert(command_name(o).skip(10) =~= request_name(o).skip(10));
            assert(command_name(o).take(10) =~= "codegraph."@);
            assert(request_name(o).take(10) =~= "codegraph/"@);
        },
        Operation::MemoryUpdate => {
            reveal_strlit("codegraph.memoryUpdate");
            reveal_strlit("codegraph/memoryUpdate");
            assert(command_name(o).skip(10) =~= request_name(o).skip(10));
            assert(command_name(o).take(10) =~= "codegraph."@);
            assert(request_name(o).take(10) =~= "codegraph/"@);
        },
        Operation::MemoryContext => {
            reveal_strlit("codegraph.memoryContext");
            reveal_strlit("codegraph/memoryContext");
            assert(command_name(o).skip(10) =~= request_name(o).skip(10));
            assert(command_name(o).take(10) =~= "codegraph."@);
            assert(request_name(o).take(10) =~= "codegraph/"@);
        },
        Operation::MemoryStats => {
            reveal_strlit("codegraph.memoryStats");
            reveal_strlit("codegraph/memoryStats");
            assert(command_name(o).skip(10) =~= request_name(o).skip(10));
            assert(command_name(o).take(10) =~= "codegraph."@);
            assert(request_name(o).take(10) =~= "codegraph/"@);
        },
        Operation::MineGitHistory => {
            reveal_strlit("codegraph.mineGitHistory");
            reveal_strlit("codegraph/mineGitHistory");
            assert(command_name(o).skip(10) =~= request_name(o).skip(10));
            assert(command_name(o).take(10) =~= "codegraph."@);
            assert(request_name(o).take(10) =~= "codegraph/"@);
        },
        Operation::MineGitHistoryForFile => {
            reveal_strlit("codegraph.mineGitHistoryForFile");
            reveal_strlit("codegraph/mineGitHistoryForFile");
            assert(command_name(o).skip(10) =~= request_name(o).skip(10));
            assert(command_name(o).take(10) =~= "codegraph."@);
            assert(request_name(o).take(10) =~= "codegraph/"@);
        },
        Operation::FindDuplicates => {
            reveal_strlit("codegraph.findDuplicates");
            reveal_strlit("codegraph/findDuplicates");
            assert(command_name(o).skip(10) =~= request_name(o).skip(10));
            assert(command_name(o).take(10) =~= "codegraph."@);
            assert(request_name(o).take(10) =~= "codegraph/"@);
        },
        Operation::FindSimilar => {
            reveal_strlit("codegraph.findSimilar");
            reveal_strlit("codegraph/findSimilar");
            assert(command_name(o).skip(10) =~= request_name(o).skip(10));
            assert(command_name(o).take(10) =~= "codegraph."@);
            assert(request_name(o).take(10) =~= "codegraph/"@);
        },
        Operation::ClusterSymbols => {
            reveal_strlit("codegraph.clusterSymbols");
            reveal_strlit("codegraph/clusterSymbols");
            assert(command_name(o).skip(10) =~= request_name(o).skip(10));
            assert(command_name(o).take(10) =~= "codegraph."@);
            assert(request_name(o).take(10) =~= "codegraph/"@);
        },
        Operation::CompareSymbols => {
            reveal_strlit("codegraph.compareSymbols");
            reveal_strlit("codegraph/compareSymbols");
            assert(command_name(o).skip(10) =~= request_name(o).skip(10));
            assert(command_name(o).take(10) =~= "codegraph."@);
            assert(request_name(o).take(10) =~= "codegraph/"@);
        },
        Operation::IndexDirectory => {
            reveal_strlit("codegraph.indexDirectory");
            reveal_strlit("codegraph/indexDirectory");
            assert(command_name(o).skip(10) =~= request_name(o).skip(10));
            assert(command_name(o).take(10) =~= "codegraph."@);
            assert(request_name(o).take(10) =~= "codegraph/"@);
        },
        Operation::UpdateConfiguration => {
            reveal_strlit("codegraph.updateConfiguration");
            reveal_strlit("codegraph/updateConfiguration");
            assert(command_name(o).skip(10) =~= request_name(o).skip(10));
            assert(command_name(o).take(10) =~= "codegraph."@);
            assert(request_name(o).take(10) =~= "codegraph/"@);
        },
    }
}

/// Each editor command is recognised by its own name.
pub proof fn lemma_command_roundtrip(o: Operation)
    requires
        is_command(o),
    ensures
        command_of(command_name(o)) == Some(o),
{
    reveal_strlit("codegraph.getDependencyGraph");
    reveal_strlit("codegraph.getCallGraph");
    reveal_strlit("codegraph.analyzeImpact");
    reveal_strlit("codegraph.getParserMetrics");
    reveal_strlit("codegraph.reindexWorkspace");
    reveal_strlit("codegraph.getAIContext");
    reveal_strlit("codegraph.findRelatedTests");
    reveal_strlit("codegraph.getNodeLocation");
    reveal_strlit("codegraph.getWorkspaceSymbols");
    reveal_strlit("codegraph.analyzeComplexity");
    reveal_strlit("codegraph.findUnusedCode");
    reveal_strlit("codegraph.analyzeCoupling");
    reveal_strlit("codegraph.symbolSearch");
    reveal_strlit("codegraph.findByImports");
    reveal_strlit("codegraph.findEntryPoints");
    reveal_strlit("codegraph.traverseGraph");
    reveal_strlit("codegraph.getCallers");
    reveal_strlit("codegraph.getCallees");
    reveal_strlit("codegraph.getDetailedSymbolInfo");
    reveal_strlit("codegraph.findBySignature");
    reveal_strlit("codegraph.memoryStore");
    reveal_strlit("codegraph.memorySearch");
    reveal_strlit("codegraph.memoryGet");
    reveal_strlit("codegraph.memoryInvalidate");
    reveal_strlit("codegraph.memoryList");
    reveal_strlit("codegraph.memoryUpdate");
    reveal_strlit("codegraph.memoryContext");
    reveal_strlit("codegraph.memoryStats");
    reveal_strlit("codegraph.mineGitHistory");
    reveal_strlit("codegraph.mineGitHistoryForFile");
    assert("codegraph.getDependencyGraph"@.len() == 28);
    assert("codegraph.getCallGraph"@.len() == 22);
    assert("codegraph.analyzeImpact"@.len() == 23);
    assert("codegraph.getParserMetrics"@.len() == 26);
    assert("codegraph.reindexWorkspace"@.len() == 26);
    assert("codegraph.getAIContext"@.len() == 22);
    assert("codegraph.findRelatedTests"@.len() == 26);
    assert("codegraph.getNodeLocation"@.len() == 25);
    assert("codegraph.getWorkspaceSymbols"@.len() == 29);
    assert("codegraph.analyzeComplexity"@.len() == 27);
    assert("codegraph.findUnusedCode"@.len() == 24);
    assert("codegraph.analyzeCoupling"@.len() == 25);
    assert("codegraph.symbolSearch"@.len() == 22);
    assert("codegraph.findByImports"@.len() == 23);
    assert("codegraph.findEntryPoints"@.len() == 25);
    assert("codegraph.traverseGraph"@.len() == 23);
    assert("codegraph.getCallers"@.len() == 20);
    assert("codegraph.getCallees"@.len() == 20);
    assert("codegraph.getDetailedSymbolInfo"@.len() == 31);
    assert("codegraph.findBySignature"@.len() == 25);
    assert("codegraph.memoryStore"@.len() == 21);
    assert("codegraph.memorySearch"@.len() == 22);
    assert("codegraph.memoryGet"@.len() == 19);
    assert("codegraph.memoryInvalidate"@.len() == 26);
    assert("codegraph.memoryList"@.len() == 20);
    assert("codegraph.memoryUpdate"@.len() == 22);
    assert("codegraph.memoryContext"@.len() == 23);
    assert("codegraph.memoryStats"@.len() == 21);
    assert("codegraph.mineGitHistory"@.len() == 24);
    assert("codegraph.mineGitHistoryForFile"@.len() == 31);
    assert("codegraph.getCallGraph"@[13] != "codegraph.getAIContext"@[13]);
    assert("codegraph.getCallGraph"@[10] != "codegraph.symbolSearch"@[10]);
    assert("codegraph.getCallGraph"@[10] != "codegraph.memorySearch"@[10]);
    assert("codegraph.getCallGraph"@[10] != "codegraph.memoryUpdate"@[10]);
    assert("codegraph.getAIContext"@[10] != "codegraph.symbolSearch"@[10]);
    assert("codegraph.getAIContext"@[10] != "codegraph.memorySearch"@[10]);
    assert("codegraph.getAIContext"@[10] != "codegraph.memoryUpdate"@[10]);
    assert("codegraph.symbolSearch"@[10] != "codegraph.memorySearch"@[10]);
    assert("codegraph.symbolSearch"@[10] != "codegraph.memoryUpdate"@[10]);
    assert("codegraph.memorySearch"@[16] != "codegraph.memoryUpdate"@[16]);
    assert("codegraph.analyzeImpact"@[10] != "codegraph.findByImports"@[10]);
    assert("codegraph.analyzeImpact"@[10] != "codegraph.traverseGraph"@[10]);
    assert("codegraph.analyzeImpact"@[10] != "codegraph.memoryContext"@[10]);
    assert("codegraph.findByImports"@[10] != "codegraph.traverseGraph"@[10]);
    assert("codegraph.findByImports"@[10] != "codegraph.memoryContext"@[10]);
    assert("codegraph.traverseGraph"@[10] != "codegraph.memoryContext"@[10]);
    assert("codegraph.getParserMetrics"@[10] != "codegraph.reindexWorkspace"@[10]);
    assert("codegraph.getParserMetrics"@[10] != "codegraph.findRelatedTests"@[10]);
    assert("codegraph.getParserMetrics"@[10] != "codegraph.memoryInvalidate"@[10]);
    assert("codegraph.reindexWorkspace"@[10] != "codegraph.findRelatedTests"@[10]);
    assert("codegraph.reindexWorkspace"@[10] != "codegraph.memoryInvalidate"@[10]);
    assert("codegraph.findRelatedTests"@[10] != "codegraph.memoryInvalidate"@[10]);
    assert("codegraph.getNodeLocation"@[10] != "codegraph.analyzeCoupling"@[10]);
    assert("codegraph.getNodeLocation"@[10] != "codegraph.findEntryPoints"@[10]);
    assert("codegraph.getNodeLocation"@[10] != "codegraph.findBySignature"@[10]);
    assert("codegraph.analyzeCoupling"@[10] != "codegraph.findEntryPoints"@[10]);
    assert("codegraph.analyzeCoupling"@[10] != "codegraph.findBySignature"@[10]);
    assert("codegraph.findEntryPoints"@[14] != "codegraph.findBySignature"@[14]);
    assert("codegraph.findUnusedCode"@[10] != "codegraph.mineGitHistory"@[10]);
    assert("codegraph.getCallers"@[18] != "codegraph.getCallees"@[18]);
    assert("codegraph.getCallers"@[10] != "codegraph.memoryList"@[10]);
    assert("codegraph.getCallees"@[10] != "codegraph.memoryList"@[10]);
    assert("codegraph.getDetailedSymbolInfo"@[10] != "codegraph.mineGitHistoryForFile"@[10]);
    assert("codegraph.memoryStore"@[18] != "codegraph.memoryStats"@[18]);
}

/// Each custom request is recognised by its own method name.
pub proof fn lemma_request_roundtrip(o: Operation)
    requires
        is_request(o),
    ensures
        request_of(request_name(o)) == Some(o),
{
    reveal_strlit("codegraph/getDependencyGraph");
    reveal_strlit("codegraph/getCallGraph");
    reveal_strlit("codegraph/analyzeImpact");
    reveal_strlit("codegraph/getParserMetrics");
    reveal_strlit("codegraph/reindexWorkspace");
    reveal_strlit("codegraph/getAIContext");
    reveal_strlit("codegraph/findRelatedTests");
    reveal_strlit("codegraph/getNodeLocation");
    reveal_strlit("codegraph/getWorkspaceSymbols");
    reveal_strlit("codegraph/analyzeComplexity");
    reveal_strlit("codegraph/findUnusedCode");
    reveal_strlit("codegraph/analyzeCoupling");
    reveal_strlit("codegraph/symbolSearch");
    reveal_strlit("codegraph/findByImports");
    reveal_strlit("codegraph/findEntryPoints");
    reveal_strlit("codegraph/traverseGraph");
    reveal_strlit("codegraph/getCallers");
    reveal_strlit("codegraph/getCallees");
    reveal_strlit("codegraph/getDetailedSymbolInfo");
    reveal_strlit("codegraph/findBySignature");
    reveal_strlit("codegraph/findDuplicates");
    reveal_strlit("codegraph/findSimilar");
    reveal_strlit("codegraph/clusterSymbols");
    reveal_strlit("codegraph/compareSymbols");
    reveal_strlit("codegraph/indexDirectory");
    reveal_strlit("codegraph/updateConfiguration");
    assert("codegraph/getDependencyGraph"@.len() == 28);
    assert("codegraph/getCallGraph"@.len() == 22);
    assert("codegraph/analyzeImpact"@.len() == 23);
    assert("codegraph/getParserMetrics"@.len() == 26);
    assert("codegraph/reindexWorkspace"@.len() == 26);
    assert("codegraph/getAIContext"@.len() == 22);
    assert("codegraph/findRelatedTests"@.len() == 26);
    assert("codegraph/getNodeLocation"@.len() == 25);
    assert("codegraph/getWorkspaceSymbols"@.len() == 29);
    assert("codegraph/analyzeComplexity"@.len() == 27);
    assert("codegraph/findUnusedCode"@.len() == 24);
    assert("codegraph/analyzeCoupling"@.len() == 25);
    assert("codegraph/symbolSearch"@.len() == 22);
    assert("codegraph/findByImports"@.len() == 23);
    assert("codegraph/findEntryPoints"@.len() == 25);
    assert("codegraph/traverseGraph"@.len() == 23);
    assert("codegraph/getCallers"@.len() == 20);
    assert("codegraph/getCallees"@.len() == 20);
    assert("codegraph/getDetailedSymbolInfo"@.len() == 31);
    assert("codegraph/findBySignature"@.len() == 25);
    assert("codegraph/findDuplicates"@.len() == 24);
    assert("codegraph/findSimilar"@.len() == 21);
    assert("codegraph/clusterSymbols"@.len() == 24);
    assert("codegraph/compareSymbols"@.len() == 24);
    assert("codegraph/indexDirectory"@.len() == 24);
    assert("codegraph/updateConfiguration"@.len() == 29);
    assert("codegraph/getCallGraph"@[13] != "codegraph/getAIContext"@[13]);
    assert("codegraph/getCallGraph"@[10] != "codegraph/symbolSearch"@[10]);
    assert("codegraph/getAIContext"@[10] != "codegraph/symbolSearch"@[10]);
    assert("codegraph/analyzeImpact"@[10] != "codegraph/findByImports"@[10]);
    assert("codegraph/analyzeImpact"@[10] != "codegraph/traverseGraph"@[10]);
    assert("codegraph/findByImports"@[10] != "codegraph/traverseGraph"@[10]);
    assert("codegraph/getParserMetrics"@[10] != "codegraph/reindexWorkspace"@[10]);
    assert("codegraph/getParserMetrics"@[10] != "codegraph/findRelatedTests"@[10]);
    assert("codegraph/reindexWorkspace"@[10] != "codegraph/findRelatedTests"@[10]);
    assert("codegraph/getNodeLocation"@[10] != "codegraph/analyzeCoupling"@[10]);
    assert("codegraph/getNodeLocation"@[10] != "codegraph/findEntryPoints"@[10]);
    assert("codegraph/getNodeLocation"@[10] != "codegraph/findBySignature"@[10]);
    assert("codegraph/analyzeCoupling"@[10] != "codegraph/findEntryPoints"@[10]);
    assert("codegraph/analyzeCoupling"@[10] != "codegraph/findBySignature"@[10]);
    assert("codegraph/findEntryPoints"@[14] != "codegraph/findBySignature"@[14]);
    assert("codegraph/getWorkspaceSymbols"@[10] != "codegraph/updateConfiguration"@[10]);
    assert("codegraph/findUnusedCode"@[14] != "codegraph/findDuplicates"@[14]);
    assert("codegraph/findUnusedCode"@[10] != "codegraph/clusterSymbols"@[10]);
    assert("codegraph/findUnusedCode"@[10] != "codegraph/compareSymbols"@[10]);
    assert("codegraph/findUnusedCode"@[10] != "codegraph/indexDirectory"@[10]);
    assert("codegraph/findDuplicates"@[10] != "codegraph/clusterSymbols"@[10]);
    assert("codegraph/findDuplicates"@[10] != "codegraph/compareSymbols"@[10]);
    assert("codegraph/findDuplicates"@[10] != "codegraph/indexDirectory"@[10]);
    assert("codegraph/clusterSymbols"@[11] != "codegraph/compareSymbols"@[11]);
    assert("codegraph/clusterSymbols"@[10] != "codegraph/indexDirectory"@[10]);
    assert("codegraph/compareSymbols"@[10] != "codegraph/indexDirectory"@[10]);
    assert("codegraph/getCallers"@[18] != "codegraph/getCallees"@[18]);
}

/// A recognised editor command name is the name of the command it stands for.
pub proof fn lemma_command_of_sound(s: Seq<char>)
    ensures
        command_of(s) matches Some(o) ==> is_command(o) && command_name(o) == s,
{
}

/// A recognised request method is the method of the request it stands for.
pub proof fn lemma_request_of_sound(s: Seq<char>)
    ensures
        request_of(s) matches Some(o) ==> is_request(o) && request_name(o) == s,
{
}

/// What an editor command does with its argument list.
#[derive(Clone, Copy, Debug, PartialEq, Eq, Structural)]
pub enum ArgPolicy {
    /// The first argument is needed.
    Required,
    /// The first argument is used when present, an empty object otherwise.
    Optional,
    /// The arguments are not read.
    Unused,
}

/// How an operation reads its arguments as an editor command.
pub open spec fn arg_policy_of(o: Operation) -> ArgPolicy {
    match o {
        Operation::GetParserMetrics => ArgPolicy::Unused,
        Operation::ReindexWorkspace => ArgPolicy::Unused,
        Operation::MemoryStats => ArgPolicy::Unused,
        Operation::MemoryList => ArgPolicy::Optional,
        _ => ArgPolicy::Required,
    }
}

impl Operation {
    /// How the operation reads its arguments as an editor command.
    pub fn arg_policy(self) -> (r: ArgPolicy)
        ensures
            r == arg_policy_of(self),
    {
        match self {
            Operation::GetParserMetrics => ArgPolicy::Unused,
            Operation::ReindexWorkspace => ArgPolicy::Unused,
            Operation::MemoryStats => ArgPolicy::Unused,
            Operation::MemoryList => ArgPolicy::Optional,
            _ => ArgPolicy::Required,
        }
    }
}

/// Why an editor command or request is refused.
#[derive(Clone, Copy, Debug, PartialEq, Eq, Structural)]
pub enum DispatchError {
    /// No operation has that name.
    MethodNotFound,
    /// The operation needs an argument and none was given.
    MissingArguments,
}

/// The operation an editor command runs: refused as not found when the name
/// is unknown, and as missing arguments when it needs one and `has_argument`
/// is false.
pub fn route_command(name: &str, has_argument: bool) -> (r: Result<Operation, DispatchError>)
    ensures
        match command_of(name@) {
            None => r == Err::<Operation, DispatchError>(DispatchError::MethodNotFound),
            Some(o) => if arg_policy_of(o) == ArgPolicy::Required && !has_argument {
                r == Err::<Operation, DispatchError>(DispatchError::MissingArguments)
            } else {
                r == Ok::<Operation, DispatchError>(o)
            },
        },
{
    match parse_command(name) {
        None => Err(DispatchError::MethodNotFound),
        Some(o) => {
            if o.arg_policy() == ArgPolicy::Required && !has_argument {
                Err(DispatchError::MissingArguments)
            } else {
                Ok(o)
            }
        },
    }
}

/// The operation a custom request runs; refused as not found when the
/// method is unknown.
pub fn route_request(method: &str) -> (r: Result<Operation, DispatchError>)
    ensures
        match request_of(method@) {
            None => r == Err::<Operation, DispatchError>(DispatchError::MethodNotFound),
            Some(o) => r == Ok::<Operation, DispatchError>(o),
        },
{
    match parse_request(method) {
        None => Err(DispatchError::MethodNotFound),
        Some(o) => Ok(o),
    }
}

} // verus!
