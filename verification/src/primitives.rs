//! Query primitives: the option and result types that the query engine
//! takes and returns.
use vstd::prelude::*;
use crate::text::owned;

verus! {

/// Search scope for queries.
#[derive(Clone, Copy, Debug, PartialEq, Eq, Structural)]
pub enum SearchScope {
    /// Search entire workspace
    Workspace,
    /// Search within a single module/directory
    Module,
    /// Search within a single file
    File,
}

impl Default for SearchScope {
    fn default() -> (r: Self)
        ensures
            r == SearchScope::Workspace,
    {
        SearchScope::Workspace
    }
}

/// Symbol types to filter by.
#[derive(Clone, Copy, Debug, PartialEq, Eq, Structural)]
pub enum SymbolType {
    Function,
    Class,
    Variable,
    Module,
    Interface,
    Type,
}

/// Options for symbol search queries.
#[derive(Clone, Debug)]
pub struct SearchOptions {
    /// Search scope (workspace, module, file)
    pub scope: SearchScope,
    /// Filter by symbol types
    pub symbol_types: Vec<SymbolType>,
    /// Filter by programming languages
    pub languages: Vec<String>,
    /// Maximum results to return
    pub limit: usize,
    /// Include private/internal symbols
    pub include_private: bool,
}

impl SearchOptions {
    /// Default search options: whole workspace, no filters, 20 results, public only.
    pub fn new() -> (r: Self)
        ensures
            r.scope == SearchScope::Workspace,
            r.symbol_types@.len() == 0,
            r.languages@.len() == 0,
            r.limit == 20,
            !r.include_private,
    {
        SearchOptions {
            scope: SearchScope::Workspace,
            symbol_types: Vec::new(),
            languages: Vec::new(),
            limit: 20,
            include_private: false,
        }
    }

    /// Set the limit.
    pub fn with_limit(self, limit: usize) -> (r: Self)
        ensures
            r.limit == limit,
            r.scope == self.scope,
            r.symbol_types@ == self.symbol_types@,
            r.languages@ == self.languages@,
            r.include_private == self.include_private,
    {
        let mut s = self;
        s.limit = limit;
        s
    }

    /// Set the scope.
    pub fn with_scope(self, scope: SearchScope) -> (r: Self)
        ensures
            r.scope == scope,
            r.limit == self.limit,
            r.symbol_types@ == self.symbol_types@,
            r.languages@ == self.languages@,
            r.include_private == self.include_private,
    {
        let mut s = self;
        s.scope = scope;
        s
    }

    /// Filter by symbol types.
    pub fn with_symbol_types(self, types: Vec<SymbolType>) -> (r: Self)
        ensures
            r.symbol_types@ == types@,
            r.scope == self.scope,
            r.limit == self.limit,
            r.languages@ == self.languages@,
            r.include_private == self.include_private,
    {
        let mut s = self;
        s.symbol_types = types;
        s
    }

    /// Filter by languages.
    pub fn with_languages(self, languages: Vec<String>) -> (r: Self)
        ensures
            r.languages@ == languages@,
            r.scope == self.scope,
            r.limit == self.limit,
            r.symbol_types@ == self.symbol_types@,
            r.include_private == self.include_private,
    {
        let mut s = self;
        s.languages = languages;
        s
    }

    /// Include private symbols.
    pub fn include_private(self) -> (r: Self)
        ensures
            r.include_private,
            r.scope == self.scope,
            r.limit == self.limit,
            r.symbol_types@ == self.symbol_types@,
            r.languages@ == self.languages@,
    {
        let mut s = self;
        s.include_private = true;
        s
    }
}

/// Location information for a symbol.
#[derive(Clone, Debug)]
pub struct SymbolLocation {
    /// File path
    pub file: String,
    /// Line number (1-indexed)
    pub line: u32,
    /// Column number (0-indexed)
    pub column: u32,
    /// End line number (1-indexed)
    pub end_line: u32,
    /// End column number (0-indexed)
    pub end_column: u32,
}

/// Basic symbol information.
#[derive(Clone, Debug)]
pub struct SymbolInfo {
    /// Symbol name
    pub name: String,
    /// Symbol type (function, class, etc.)
    pub kind: String,
    /// Location in source code
    pub location: SymbolLocation,
    /// Function signature if applicable
    pub signature: Option<String>,
    /// Documentation string
    pub docstring: Option<String>,
    /// Whether the symbol is exported/public
    pub is_public: bool,
}

/// Mathematical view of a symbol location.
pub struct SymbolLocationV {
    pub file: Seq<char>,
    pub line: u32,
    pub column: u32,
    pub end_line: u32,
    pub end_column: u32,
}

/// Mathematical view of symbol information.
pub struct SymbolInfoV {
    pub name: Seq<char>,
    pub kind: Seq<char>,
    pub location: SymbolLocationV,
    pub signature: Option<Seq<char>>,
    pub docstring: Option<Seq<char>>,
    pub is_public: bool,
}

/// View of an optional string.
pub open spec fn opt_view(s: Option<String>) -> Option<Seq<char>> {
    match s {
        Some(x) => Some(x@),
        None => None,
    }
}

impl View for SymbolLocation {
    type V = SymbolLocationV;

    open spec fn view(&self) -> SymbolLocationV {
        SymbolLocationV {
            file: self.file@,
            line: self.line,
            column: self.column,
            end_line: self.end_line,
            end_column: self.end_column,
        }
    }
}

impl View for SymbolInfo {
    type V = SymbolInfoV;

    open spec fn view(&self) -> SymbolInfoV {
        SymbolInfoV {
            name: self.name@,
            kind: self.kind@,
            location: self.location@,
            signature: opt_view(self.signature),
            docstring: opt_view(self.docstring),
            is_public: self.is_public,
        }
    }
}

/// A match result from a symbol query.
#[derive(Clone, Debug)]
pub struct SymbolMatch {
    /// The node ID in the graph
    pub node_id: u64,
    /// Symbol information
    pub symbol: SymbolInfo,
    /// Why this result matched
    pub match_reason: String,
}

/// Mathematical view of a symbol match.
pub struct SymbolMatchV {
    pub node_id: u64,
    pub symbol: SymbolInfoV,
    pub match_reason: Seq<char>,
}

impl View for SymbolMatch {
    type V = SymbolMatchV;

    open spec fn view(&self) -> SymbolMatchV {
        SymbolMatchV { node_id: self.node_id, symbol: self.symbol@, match_reason: self.match_reason@ }
    }
}

/// Context information about a symbol's relationships.
#[derive(Clone, Debug)]
pub struct SymbolContext {
    /// Direct callers of this symbol
    pub callers: Vec<String>,
    /// Direct callees from this symbol
    pub callees: Vec<String>,
    /// Imported modules/libraries
    pub imports: Vec<String>,
    /// Whether this symbol has tests
    pub has_tests: bool,
    /// Cyclomatic complexity if available
    pub complexity: Option<u32>,
    /// Number of references
    pub reference_count: usize,
}

/// Import match mode for find_by_imports.
#[derive(Clone, Copy, Debug, PartialEq, Eq, Structural)]
pub enum ImportMatchMode {
    /// Exact library name match
    Exact,
    /// Prefix match
    Prefix,
    /// Case-insensitive substring match
    Fuzzy,
}

impl Default for ImportMatchMode {
    fn default() -> (r: Self)
        ensures
            r == ImportMatchMode::Exact,
    {
        ImportMatchMode::Exact
    }
}

/// Options for find_by_imports query.
#[derive(Clone, Debug)]
pub struct ImportSearchOptions {
    /// How to match library names
    pub match_mode: ImportMatchMode,
    /// Search scope
    pub scope: SearchScope,
    /// Filter by languages
    pub languages: Vec<String>,
    /// Include code that transitively imports these libraries
    pub include_transitive: bool,
}

impl Default for ImportSearchOptions {
    fn default() -> (r: Self)
        ensures
            r.match_mode == ImportMatchMode::Exact,
            r.scope == SearchScope::Workspace,
            r.languages@.len() == 0,
            !r.include_transitive,
    {
        ImportSearchOptions {
            match_mode: ImportMatchMode::Exact,
            scope: SearchScope::Workspace,
            languages: Vec::new(),
            include_transitive: false,
        }
    }
}

impl ImportSearchOptions {
    /// New import search options: exact matching over the workspace.
    pub fn new() -> (r: Self)
        ensures
            r.match_mode == ImportMatchMode::Exact,
            r.scope == SearchScope::Workspace,
            r.languages@.len() == 0,
            !r.include_transitive,
    {
        Self::default()
    }

    /// Set match mode.
    pub fn with_match_mode(self, mode: ImportMatchMode) -> (r: Self)
        ensures
            r.match_mode == mode,
            r.scope == self.scope,
            r.languages@ == self.languages@,
            r.include_transitive == self.include_transitive,
    {
        let mut s = self;
        s.match_mode = mode;
        s
    }

    /// Set scope.
    pub fn with_scope(self, scope: SearchScope) -> (r: Self)
        ensures
            r.scope == scope,
            r.match_mode == self.match_mode,
            r.languages@ == self.languages@,
            r.include_transitive == self.include_transitive,
    {
        let mut s = self;
        s.scope = scope;
        s
    }

    /// Include transitive imports.
    pub fn include_transitive(self) -> (r: Self)
        ensures
            r.include_transitive,
            r.scope == self.scope,
            r.match_mode == self.match_mode,
            r.languages@ == self.languages@,
    {
        let mut s = self;
        s.include_transitive = true;
        s
    }
}

/// Entry point types for architectural discovery.
#[derive(Clone, Copy, Debug, PartialEq, Eq, Structural)]
pub enum EntryType {
    /// HTTP/REST handlers
    HttpHandler,
    /// CLI command handlers
    CliCommand,
    /// Exported/public API functions
    PublicApi,
    /// Event handlers and callbacks
    EventHandler,
    /// Test functions
    TestEntry,
    /// Program main entry points
    Main,
}

/// An entry point in the codebase.
#[derive(Clone, Debug)]
pub struct EntryPoint {
    /// Node ID in the graph
    pub node_id: u64,
    /// Entry point type
    pub entry_type: EntryType,
    /// HTTP route if applicable
    pub route: Option<String>,
    /// HTTP method if applicable
    pub method: Option<String>,
    /// Description or docstring
    pub description: Option<String>,
    /// Symbol information
    pub symbol: SymbolInfo,
}

/// Direction for graph traversal.
#[derive(Clone, Copy, Debug, PartialEq, Eq, Structural)]
pub enum TraversalDirection {
    /// Follow outgoing edges
    Outgoing,
    /// Follow incoming edges
    Incoming,
    /// Bidirectional traversal
    Both,
}

/// Filter options for graph traversal.
#[derive(Clone, Debug)]
pub struct TraversalFilter {
    /// Filter by symbol types
    pub symbol_types: Vec<SymbolType>,
    /// Maximum number of nodes to return
    pub max_nodes: usize,
}

impl TraversalFilter {
    /// A filter that accepts every type and returns at most 1000 nodes.
    pub fn new() -> (r: Self)
        ensures
            r.symbol_types@.len() == 0,
            r.max_nodes == 1000,
    {
        TraversalFilter { symbol_types: Vec::new(), max_nodes: 1000 }
    }

    /// Set maximum nodes.
    pub fn with_max_nodes(self, max: usize) -> (r: Self)
        ensures
            r.max_nodes == max,
            r.symbol_types@ == self.symbol_types@,
    {
        let mut s = self;
        s.max_nodes = max;
        s
    }

    /// Filter by symbol types.
    pub fn with_symbol_types(self, types: Vec<SymbolType>) -> (r: Self)
        ensures
            r.symbol_types@ == types@,
            r.max_nodes == self.max_nodes,
    {
        let mut s = self;
        s.symbol_types = types;
        s
    }
}

/// A node in a graph traversal result.
#[derive(Clone, Debug)]
pub struct TraversalNode {
    /// Node ID
    pub node_id: u64,
    /// Depth from starting node
    pub depth: u32,
    /// Path from start (list of node IDs)
    pub path: Vec<u64>,
    /// Edge type that led to this node
    pub edge_type: String,
    /// Symbol information
    pub symbol: SymbolInfo,
}

/// Information about a caller/callee relationship.
#[derive(Clone, Debug)]
pub struct CallInfo {
    /// The caller or callee node
    pub node_id: u64,
    /// Symbol information
    pub symbol: SymbolInfo,
    /// Location of the call site
    pub call_site: SymbolLocation,
    /// Depth in the call chain (1 = direct)
    pub depth: u32,
}

/// Detailed information about a symbol.
#[derive(Clone, Debug)]
pub struct DetailedSymbolInfo {
    /// Basic symbol information
    pub symbol: SymbolInfo,
    /// Direct callers
    pub callers: Vec<CallInfo>,
    /// Direct callees
    pub callees: Vec<CallInfo>,
    /// Imported dependencies
    pub dependencies: Vec<String>,
    /// Modules that import this
    pub dependents: Vec<String>,
    /// Code complexity metrics
    pub complexity: Option<u32>,
    /// Lines of code
    pub lines_of_code: usize,
    /// Whether this symbol has tests
    pub has_tests: bool,
    /// Whether this symbol is exported/public
    pub is_public: bool,
    /// Whether this symbol is deprecated
    pub is_deprecated: bool,
    /// Number of references to this symbol
    pub reference_count: usize,
}

/// Function signature pattern for find_by_signature.
#[derive(Clone, Debug)]
pub struct SignaturePattern {
    /// Regex pattern for function name
    pub name_pattern: Option<String>,
    /// Expected return type
    pub return_type: Option<String>,
    /// Parameter count range (min, max)
    pub param_count: Option<(usize, usize)>,
    /// Required modifiers (async, public, static, etc.)
    pub modifiers: Vec<String>,
}

impl SignaturePattern {
    /// A pattern with no constraints.
    pub fn new() -> (r: Self)
        ensures
            r.name_pattern is None,
            r.return_type is None,
            r.param_count is None,
            r.modifiers@.len() == 0,
    {
        SignaturePattern { name_pattern: None, return_type: None, param_count: None, modifiers: Vec::new() }
    }

    /// Set name pattern.
    pub fn with_name_pattern(self, pattern: &str) -> (r: Self)
        ensures
            opt_view(r.name_pattern) == Some(pattern@),
            r.return_type == self.return_type,
            r.param_count == self.param_count,
            r.modifiers@ == self.modifiers@,
    {
        let mut s = self;
        s.name_pattern = Some(owned(pattern));
        s
    }

    /// Set return type.
    pub fn with_return_type(self, return_type: &str) -> (r: Self)
        ensures
            opt_view(r.return_type) == Some(return_type@),
            r.name_pattern == self.name_pattern,
            r.param_count == self.param_count,
            r.modifiers@ == self.modifiers@,
    {
        let mut s = self;
        s.return_type = Some(owned(return_type));
        s
    }

    /// Set parameter count range.
    pub fn with_param_count(self, min: usize, max: usize) -> (r: Self)
        ensures
            r.param_count == Some((min, max)),
            r.name_pattern == self.name_pattern,
            r.return_type == self.return_type,
            r.modifiers@ == self.modifiers@,
    {
        let mut s = self;
        s.param_count = Some((min, max));
        s
    }

    /// Add required modifier.
    pub fn with_modifier(self, modifier: &str) -> (r: Self)
        ensures
            r.modifiers@.len() == self.modifiers@.len() + 1,
            r.modifiers@.drop_last() == self.modifiers@,
            r.modifiers@.last()@ == modifier@,
            r.name_pattern == self.name_pattern,
            r.return_type == self.return_type,
            r.param_count == self.param_count,
    {
        let mut s = self;
        s.modifiers.push(owned(modifier));
        s
    }
}

} // verus!
