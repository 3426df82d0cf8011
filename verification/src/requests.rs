//! The query requests of editor agents: their parameters, how the
//! parameters become query options, and the responses built from what the
//! query engine returns.
use vstd::prelude::*;
use crate::engine::QueryEngine;
use crate::primitives::{
    CallInfo, EntryPoint, EntryType, ImportMatchMode, ImportSearchOptions, SearchOptions, SearchScope,
    SignaturePattern, SymbolInfo, SymbolInfoV, SymbolLocation, SymbolLocationV, SymbolType,
    TraversalDirection, TraversalFilter, TraversalNode, opt_view,
};
use crate::engine::{import_hits, import_view};
use crate::entry::{EntryPointV, entry_hits};
use crate::graph::{CodeGraph, NodeType};
use crate::primitives::SymbolMatch;
use crate::query::{clone_opt, is_call_chain};
use crate::reach::swapped;
use crate::text::{copy_strings, decimal, decimal_string, owned, parsed_u64, parse_u64, str_eq, views};
use crate::traverse::{graph_direction, symbol_node_type, traversal_result_ok, type_passes};
use crate::analysis::lower_type_name;

verus! {

/// Parameters of a symbol search.
#[derive(Clone, Debug)]
pub struct SymbolSearchParams {
    /// Search query keywords
    pub query: String,
    /// Search scope: "workspace", "module", or "file"
    pub scope: Option<String>,
    /// Filter by symbol types: "function", "class", "variable", "module", "interface", "type"
    pub symbol_types: Option<Vec<String>>,
    /// Maximum number of results
    pub limit: Option<usize>,
    /// Include private symbols (default: false)
    pub include_private: Option<bool>,
}

/// A symbol as a response reports it.
#[derive(Clone, Debug)]
pub struct SymbolInfoResponse {
    pub name: String,
    pub kind: String,
    pub location: SymbolLocationResponse,
    pub signature: Option<String>,
    pub docstring: Option<String>,
    pub is_public: bool,
}

/// A source location as a response reports it.
#[derive(Clone, Debug)]
pub struct SymbolLocationResponse {
    pub file: String,
    pub line: u32,
    pub column: u32,
    pub end_line: u32,
    pub end_column: u32,
}

impl View for SymbolLocationResponse {
    type V = SymbolLocationV;

    open spec fn view(&self) -> SymbolLocationV {
        SymbolLocationV {
            file: self.file@,
            line: self.line,
            column: self.column,
            end_line: self.end_line,
            end_column: self.end_column,
        }
    }
}

impl View for SymbolInfoResponse {
    type V = SymbolInfoV;

    open spec fn view(&self) -> SymbolInfoV {
        SymbolInfoV {
            name: self.name@,
            kind: self.kind@,
            location: self.location@,
            signature: opt_view(self.signature),
            docstring: opt_view(self.docstring),
            is_public: self.is_public,
        }
    }
}

/// Parameters of a search by imported library.
#[derive(Clone, Debug)]
pub struct FindByImportsParams {
    /// Libraries/modules to search for
    pub libraries: Vec<String>,
    /// Match mode: "exact", "prefix", or "fuzzy"
    pub match_mode: Option<String>,
}

/// Parameters of a search for entry points.
#[derive(Clone, Debug)]
pub struct FindEntryPointsParams {
    /// Entry type: "http_handler", "cli_command", "public_api", "event_handler", "test_entry", "main"
    pub entry_type: Option<String>,
}

/// The entry points found.
#[derive(Clone, Debug)]
pub struct FindEntryPointsResponse {
    pub entry_points: Vec<EntryPointResponse>,
    pub total_found: usize,
}

/// An entry point as a response reports it.
#[derive(Clone, Debug)]
pub struct EntryPointResponse {
    pub node_id: String,
    pub entry_type: String,
    pub route: Option<String>,
    pub method: Option<String>,
    pub description: Option<String>,
    pub symbol: SymbolInfoResponse,
}

/// Parameters of a graph traversal.
#[derive(Clone, Debug)]
pub struct TraverseGraphParams {
    /// Starting point: either node_id or uri+line
    pub start_node_id: Option<String>,
    pub uri: Option<String>,
    pub line: Option<u32>,
    /// Traversal direction: "outgoing", "incoming", or "both"
    pub direction: Option<String>,
    /// Maximum traversal depth
    pub depth: Option<u32>,
    /// Filter by symbol types
    pub filter_symbol_types: Option<Vec<String>>,
    /// Maximum nodes to return
    pub max_nodes: Option<usize>,
}

/// The nodes a traversal reached.
#[derive(Clone, Debug)]
pub struct TraverseGraphResponse {
    pub nodes: Vec<TraversalNodeResponse>,
    pub query_time_ms: u64,
}

/// A reached node as a response reports it.
#[derive(Clone, Debug)]
pub struct TraversalNodeResponse {
    pub node_id: String,
    pub depth: u32,
    pub path: Vec<String>,
    pub edge_type: String,
    pub symbol: SymbolInfoResponse,
}

/// Parameters of a request for callers or callees.
#[derive(Clone, Debug)]
pub struct GetCallersParams {
    /// Node ID or uri+line
    pub node_id: Option<String>,
    pub uri: Option<String>,
    pub line: Option<u32>,
    /// Depth of caller chain (default: 1)
    pub depth: Option<u32>,
}

/// The callers or callees found.
#[derive(Clone, Debug)]
pub struct GetCallersResponse {
    pub callers: Vec<CallInfoResponse>,
    pub query_time_ms: u64,
}

/// A caller or callee as a response reports it.
#[derive(Clone, Debug)]
pub struct CallInfoResponse {
    pub node_id: String,
    pub symbol: SymbolInfoResponse,
    pub call_site: SymbolLocationResponse,
    pub depth: u32,
}

/// Parameters of a request for detailed symbol information.
#[derive(Clone, Debug)]
pub struct GetDetailedInfoParams {
    pub node_id: Option<String>,
    pub uri: Option<String>,
    pub line: Option<u32>,
    pub include_callers: Option<bool>,
    pub include_callees: Option<bool>,
}

/// Detailed information about a symbol as a response reports it.
#[derive(Clone, Debug)]
pub struct DetailedSymbolResponse {
    pub symbol: SymbolInfoResponse,
    pub callers: Vec<CallInfoResponse>,
    pub callees: Vec<CallInfoResponse>,
    pub complexity: Option<u32>,
    pub lines_of_code: usize,
    pub is_public: bool,
    pub is_deprecated: bool,
    pub reference_count: usize,
}

/// Parameters of a search by signature.
#[derive(Clone, Debug)]
pub struct FindBySignatureParams {
    /// Regex pattern for function name
    pub name_pattern: Option<String>,
    /// Expected return type
    pub return_type: Option<String>,
    /// Parameter count range: { min, max }
    pub param_count: Option<ParamCountRange>,
    /// Required modifiers: ["async", "public", "static", "const"]
    pub modifiers: Option<Vec<String>>,
}

/// A range of parameter counts.
#[derive(Clone, Copy, Debug, PartialEq, Eq, Structural)]
pub struct ParamCountRange {
    pub min: usize,
    pub max: usize,
}

/// A source location in response form.
pub fn location_to_response(l: &SymbolLocation) -> (r: SymbolLocationResponse)
    ensures
        r@ == l@,
{
    SymbolLocationResponse {
        file: l.file.clone(),
        line: l.line,
        column: l.column,
        end_line: l.end_line,
        end_column: l.end_column,
    }
}

/// A symbol in response form: the same name, kind, location, signature,
/// docstring and visibility.
pub fn symbol_info_to_response(info: &SymbolInfo) -> (r: SymbolInfoResponse)
    ensures
        r@ == info@,
{
    SymbolInfoResponse {
        name: info.name.clone(),
        kind: info.kind.clone(),
        location: location_to_response(&info.location),
        signature: clone_opt(&info.signature),
        docstring: clone_opt(&info.docstring),
        is_public: info.is_public,
    }
}

/// The symbol type a request names, if it names one.
pub open spec fn symbol_type_of(s: Seq<char>) -> Option<SymbolType> {
    if s == "function"@ {
        Some(SymbolType::Function)
    } else if s == "class"@ {
        Some(SymbolType::Class)
    } else if s == "variable"@ {
        Some(SymbolType::Variable)
    } else if s == "module"@ {
        Some(SymbolType::Module)
    } else if s == "interface"@ {
        Some(SymbolType::Interface)
    } else if s == "type"@ {
        Some(SymbolType::Type)
    } else {
        None
    }
}

/// A symbol type stands for the node type of the same name.
proof fn lemma_symbol_type_by_name(st: SymbolType, t: NodeType)
    ensures
        symbol_node_type(st) == t <==> symbol_type_of(lower_type_name(t)) == Some(st),
{
    reveal_strlit("codefile");
    reveal_strlit("function");
    reveal_strlit("class");
    reveal_strlit("module");
    reveal_strlit("variable");
    reveal_strlit("type");
    reveal_strlit("interface");
    reveal_strlit("generic");
    assert("codefile"@[0] != "function"@[0]);
    assert("codefile"@[0] != "variable"@[0]);
    assert("variable"@[0] != "function"@[0]);
    assert("generic"@.len() != "function"@.len());
    assert("class"@[0] != "type"@[0]);
    assert("codefile"@.len() == 8 && "function"@.len() == 8 && "class"@.len() == 5 && "module"@.len() == 6);
    assert("variable"@.len() == 8 && "type"@.len() == 4 && "interface"@.len() == 9 && "generic"@.len() == 7);
    assert("interface"@ != "function"@ && "interface"@ != "class"@ && "interface"@ != "variable"@ && "interface"@
        != "module"@);
    assert("codefile"@ != "function"@ && "codefile"@ != "class"@ && "codefile"@ != "variable"@ && "codefile"@
        != "module"@ && "codefile"@ != "interface"@ && "codefile"@ != "type"@);
    assert("generic"@ != "function"@ && "generic"@ != "class"@ && "generic"@ != "variable"@ && "generic"@
        != "module"@ && "generic"@ != "interface"@ && "generic"@ != "type"@);
    match t {
        NodeType::CodeFile => {},
        NodeType::Function => assert(symbol_type_of(lower_type_name(t)) == Some(SymbolType::Function)),
        NodeType::Class => assert(symbol_type_of(lower_type_name(t)) == Some(SymbolType::Class)),
        NodeType::Module => assert(symbol_type_of(lower_type_name(t)) == Some(SymbolType::Module)),
        NodeType::Variable => assert(symbol_type_of(lower_type_name(t)) == Some(SymbolType::Variable)),
        NodeType::Type => assert(symbol_type_of(lower_type_name(t)) == Some(SymbolType::Type)),
        NodeType::Interface => assert(symbol_type_of(lower_type_name(t)) == Some(SymbolType::Interface)),
        NodeType::Generic => {},
    }
}

/// The symbol-type filter admits a node exactly when no types are asked
/// for, or one of them has the name of the node's type (a class filter
/// admits classes, an interface filter interfaces, and so on).
pub proof fn lemma_type_filter_by_name(types: Seq<SymbolType>, t: NodeType)
    ensures
        type_passes(types, t) <==> (types.len() == 0 || exists|i: int|
            0 <= i < types.len() && symbol_type_of(lower_type_name(t)) == Some(#[trigger] types[i])),
{
    assert forall|i: int| 0 <= i < types.len() implies (symbol_node_type(#[trigger] types[i]) == t
        <==> symbol_type_of(lower_type_name(t)) == Some(types[i])) by {
        lemma_symbol_type_by_name(types[i], t);
    }
}

/// The symbol types named in `names`, in order, unknown names skipped.
pub open spec fn named_types(names: Seq<Seq<char>>) -> Seq<SymbolType>
    decreases names.len(),
{
    if names.len() == 0 {
        seq![]
    } else {
        let rest = named_types(names.drop_last());
        match symbol_type_of(names.last()) {
            Some(t) => rest.push(t),
            None => rest,
        }
    }
}

/// The symbol type named `s`.
pub fn symbol_type_named(s: &str) -> (r: Option<SymbolType>)
    ensures
        r == symbol_type_of(s@),
{
    if str_eq(s, "function") {
        Some(SymbolType::Function)
    } else if str_eq(s, "class") {
        Some(SymbolType::Class)
    } else if str_eq(s, "variable") {
        Some(SymbolType::Variable)
    } else if str_eq(s, "module") {
        Some(SymbolType::Module)
    } else if str_eq(s, "interface") {
        Some(SymbolType::Interface)
    } else if str_eq(s, "type") {
        Some(SymbolType::Type)
    } else {
        None
    }
}

/// The symbol types named in `names`, unknown names skipped.
pub fn symbol_types_named(names: &Vec<String>) -> (r: Vec<SymbolType>)
    ensures
        r@ == named_types(views(names@)),
{
    let mut r: Vec<SymbolType> = Vec::new();
    let mut i: usize = 0;
    while i < names.len()
        invariant
            i <= names@.len(),
            r@ == named_types(views(names@).take(i as int)),
        decreases names@.len() - i,
    {
        proof {
            assert(views(names@).take(i + 1).drop_last() =~= views(names@).take(i as int));
            assert(views(names@).take(i + 1).last() == names@[i as int]@);
        }
        match symbol_type_named(names[i].as_str()) {
            Some(t) => r.push(t),
            None => {},
        }
        i = i + 1;
    }
    proof {
        assert(views(names@).take(i as int) =~= views(names@));
    }
    r
}

/// The options of a symbol search: the requested limit (else 20), private
/// symbols only when asked for, the named symbol types when given; the
/// scope parameter is not used.
pub fn search_options_for(params: &SymbolSearchParams) -> (r: SearchOptions)
    ensures
        r.scope == SearchScope::Workspace,
        r.languages@.len() == 0,
        r.limit == (match params.limit {
            Some(l) => l,
            None => 20,
        }),
        r.include_private == (params.include_private == Some(true)),
        r.symbol_types@ == (match params.symbol_types {
            Some(ts) => named_types(views(ts@)),
            None => seq![],
        }),
{
    let mut options = SearchOptions::new();
    if let Some(limit) = params.limit {
        options = options.with_limit(limit);
    }
    if let Some(true) = params.include_private {
        options = options.include_private();
    }
    if let Some(types) = &params.symbol_types {
        options = options.with_symbol_types(symbol_types_named(types));
    }
    options
}

/// The import match mode a request names: `prefix`, `fuzzy`, else exact.
pub open spec fn match_mode_of(m: Option<Seq<char>>) -> ImportMatchMode {
    match m {
        Some(s) => if s == "prefix"@ {
            ImportMatchMode::Prefix
        } else if s == "fuzzy"@ {
            ImportMatchMode::Fuzzy
        } else {
            ImportMatchMode::Exact
        },
        None => ImportMatchMode::Exact,
    }
}

/// The import match mode named by `m`.
pub fn match_mode_named(m: &Option<String>) -> (r: ImportMatchMode)
    ensures
        r == match_mode_of(opt_view(*m)),
{
    match m {
        Some(s) => if str_eq(s.as_str(), "prefix") {
            ImportMatchMode::Prefix
        } else if str_eq(s.as_str(), "fuzzy") {
            ImportMatchMode::Fuzzy
        } else {
            ImportMatchMode::Exact
        },
        None => ImportMatchMode::Exact,
    }
}

/// The import hits for each library of `libs`, one library after another.
pub open spec fn all_import_hits(
    g: CodeGraph,
    idx: Seq<(Seq<char>, u64)>,
    mode: ImportMatchMode,
    libs: Seq<Seq<char>>,
) -> Seq<crate::primitives::SymbolMatchV>
    decreases libs.len(),
{
    if libs.len() == 0 {
        seq![]
    } else {
        all_import_hits(g, idx, mode, libs.drop_last()) + import_hits(g, idx, mode, libs.last())
    }
}

/// Code that imports any of the requested libraries: the hits for each
/// library in turn, under the requested match mode.
pub fn find_by_libraries(engine: &QueryEngine, params: &FindByImportsParams) -> (r: Vec<SymbolMatch>)
    requires
        engine.wf(),
    ensures
        r@.map_values(|m: SymbolMatch| m@) == all_import_hits(
            engine.graph,
            import_view(engine.imports@),
            match_mode_of(opt_view(params.match_mode)),
            views(params.libraries@),
        ),
{
    let options = ImportSearchOptions::new().with_match_mode(match_mode_named(&params.match_mode));
    let ghost libs = views(params.libraries@);
    let ghost mode = options.match_mode;
    let mut all: Vec<SymbolMatch> = Vec::new();
    let mut i: usize = 0;
    while i < params.libraries.len()
        invariant
            engine.wf(),
            i <= libs.len(),
            libs == views(params.libraries@),
            mode == options.match_mode,
            all@.map_values(|m: SymbolMatch| m@) == all_import_hits(engine.graph, import_view(engine.imports@), mode, libs.take(i as int)),
        decreases libs.len() - i,
    {
        let mut hits = engine.find_by_imports(params.libraries[i].as_str(), &options);
        let ghost a0 = all@;
        let ghost h0 = hits@;
        all.append(&mut hits);
        proof {
            assert(libs.take(i + 1).drop_last() =~= libs.take(i as int));
            assert(libs.take(i + 1).last() == params.libraries@[i as int]@);
            assert(all@ == a0 + h0);
            assert(all@.map_values(|m: SymbolMatch| m@) =~= a0.map_values(|m: SymbolMatch| m@) + h0.map_values(
                |m: SymbolMatch| m@,
            ));
        }
        i = i + 1;
    }
    proof {
        assert(libs.take(i as int) =~= libs);
    }
    all
}

/// The entry types a request asks for: the one it names, none (meaning
/// all) when it names none or an unknown one.
pub open spec fn entry_types_of(t: Option<Seq<char>>) -> Seq<EntryType> {
    match t {
        Some(s) => if s == "http_handler"@ {
            seq![EntryType::HttpHandler]
        } else if s == "cli_command"@ {
            seq![EntryType::CliCommand]
        } else if s == "public_api"@ {
            seq![EntryType::PublicApi]
        } else if s == "event_handler"@ {
            seq![EntryType::EventHandler]
        } else if s == "test_entry"@ {
            seq![EntryType::TestEntry]
        } else if s == "main"@ {
            seq![EntryType::Main]
        } else {
            seq![]
        },
        None => seq![],
    }
}

/// The entry types named by `t`.
pub fn entry_types_named(t: &Option<String>) -> (r: Vec<EntryType>)
    ensures
        r@ == entry_types_of(opt_view(*t)),
{
    match t {
        Some(s) => {
            let s = s.as_str();
            if str_eq(s, "http_handler") {
                vec![EntryType::HttpHandler]
            } else if str_eq(s, "cli_command") {
                vec![EntryType::CliCommand]
            } else if str_eq(s, "public_api") {
                vec![EntryType::PublicApi]
            } else if str_eq(s, "event_handler") {
                vec![EntryType::EventHandler]
            } else if str_eq(s, "test_entry") {
                vec![EntryType::TestEntry]
            } else if str_eq(s, "main") {
                vec![EntryType::Main]
            } else {
                Vec::new()
            }
        },
        None => Vec::new(),
    }
}

/// The name a response gives an entry type: its variant name in lower case.
pub open spec fn entry_label(t: EntryType) -> Seq<char> {
    match t {
        EntryType::HttpHandler => "httphandler"@,
        EntryType::CliCommand => "clicommand"@,
        EntryType::PublicApi => "publicapi"@,
        EntryType::EventHandler => "eventhandler"@,
        EntryType::TestEntry => "testentry"@,
        EntryType::Main => "main"@,
    }
}

/// The name of an entry type.
pub fn entry_type_label(t: EntryType) -> (r: String)
    ensures
        r@ == entry_label(t),
{
    match t {
        EntryType::HttpHandler => owned("httphandler"),
        EntryType::CliCommand => owned("clicommand"),
        EntryType::PublicApi => owned("publicapi"),
        EntryType::EventHandler => owned("eventhandler"),
        EntryType::TestEntry => owned("testentry"),
        EntryType::Main => owned("main"),
    }
}

/// `resp` reports the entry point `e`.
pub open spec fn entry_response_ok(resp: EntryPointResponse, e: EntryPointV) -> bool {
    &&& resp.node_id@ == decimal(e.node_id as nat)
    &&& resp.entry_type@ == entry_label(e.entry_type)
    &&& opt_view(resp.route) == e.route
    &&& opt_view(resp.method) == e.method
    &&& opt_view(resp.description) == e.description
    &&& resp.symbol@ == e.symbol
}

/// An entry point in response form.
pub fn entry_point_to_response(e: &EntryPoint) -> (r: EntryPointResponse)
    ensures
        entry_response_ok(r, e@),
{
    EntryPointResponse {
        node_id: decimal_string(e.node_id),
        entry_type: entry_type_label(e.entry_type),
        route: clone_opt(&e.route),
        method: clone_opt(&e.method),
        description: clone_opt(&e.description),
        symbol: symbol_info_to_response(&e.symbol),
    }
}

/// The entry points of the requested type (of every type when none or an
/// unknown one is named), in node order, with their number.
pub fn handle_find_entry_points(engine: &QueryEngine, params: &FindEntryPointsParams) -> (r: FindEntryPointsResponse)
    requires
        engine.wf(),
    ensures
        ({
            let hits = entry_hits(engine.graph.nodes@, entry_types_of(opt_view(params.entry_type)), false);
            &&& r.total_found == hits.len()
            &&& r.entry_points@.len() == hits.len()
            &&& forall|k: int| 0 <= k < hits.len() ==> entry_response_ok(#[trigger] r.entry_points@[k], hits[k])
        }),
{
    let types = entry_types_named(&params.entry_type);
    let results = engine.find_entry_points(types.as_slice());
    let ghost hits = entry_hits(engine.graph.nodes@, types@, false);
    let total_found = results.len();
    let mut entry_points: Vec<EntryPointResponse> = Vec::new();
    let mut i: usize = 0;
    while i < results.len()
        invariant
            i <= results@.len(),
            results@.map_values(|e: EntryPoint| e@) == hits,
            entry_points@.len() == i,
            forall|k: int| 0 <= k < i ==> entry_response_ok(#[trigger] entry_points@[k], hits[k]),
        decreases results@.len() - i,
    {
        proof {
            assert(hits[i as int] == results@[i as int]@);
        }
        entry_points.push(entry_point_to_response(&results[i]));
        i = i + 1;
    }
    FindEntryPointsResponse { entry_points, total_found }
}

/// The traversal direction a request names: `incoming`, `both`, else
/// outgoing.
pub open spec fn direction_of(d: Option<Seq<char>>) -> TraversalDirection {
    match d {
        Some(s) => if s == "incoming"@ {
            TraversalDirection::Incoming
        } else if s == "both"@ {
            TraversalDirection::Both
        } else {
            TraversalDirection::Outgoing
        },
        None => TraversalDirection::Outgoing,
    }
}

/// The traversal direction named by `d`.
pub fn direction_named(d: &Option<String>) -> (r: TraversalDirection)
    ensures
        r == direction_of(opt_view(*d)),
{
    match d {
        Some(s) => if str_eq(s.as_str(), "incoming") {
            TraversalDirection::Incoming
        } else if str_eq(s.as_str(), "both") {
            TraversalDirection::Both
        } else {
            TraversalDirection::Outgoing
        },
        None => TraversalDirection::Outgoing,
    }
}

/// The node limit of a traversal request: the requested one, else 1000.
pub open spec fn max_nodes_of(params: TraverseGraphParams) -> usize {
    match params.max_nodes {
        Some(m) => m,
        None => 1000,
    }
}

/// The symbol types a traversal request filters by: the named ones, else
/// none (meaning all).
pub open spec fn filter_types_of(params: TraverseGraphParams) -> Seq<SymbolType> {
    match params.filter_symbol_types {
        Some(ts) => named_types(views(ts@)),
        None => seq![],
    }
}

/// The filter of a traversal request.
pub fn traversal_filter_for(params: &TraverseGraphParams) -> (r: TraversalFilter)
    ensures
        r.max_nodes == max_nodes_of(*params),
        r.symbol_types@ == filter_types_of(*params),
{
    let mut filter = TraversalFilter::new();
    if let Some(max) = params.max_nodes {
        filter = filter.with_max_nodes(max);
    }
    if let Some(types) = &params.filter_symbol_types {
        filter = filter.with_symbol_types(symbol_types_named(types));
    }
    filter
}

/// `resp` reports the reached node `n`, its path as decimal node ids.
pub open spec fn traversal_response_ok(resp: TraversalNodeResponse, n: TraversalNode) -> bool {
    &&& resp.node_id@ == decimal(n.node_id as nat)
    &&& resp.depth == n.depth
    &&& views(resp.path@) == n.path@.map_values(|id: u64| decimal(id as nat))
    &&& resp.edge_type@ == n.edge_type@
    &&& resp.symbol@ == n.symbol@
}

/// A reached node in response form.
pub fn traversal_node_to_response(n: &TraversalNode) -> (r: TraversalNodeResponse)
    ensures
        traversal_response_ok(r, *n),
{
    let mut path: Vec<String> = Vec::new();
    let mut i: usize = 0;
    while i < n.path.len()
        invariant
            i <= n.path@.len(),
            views(path@) == n.path@.take(i as int).map_values(|id: u64| decimal(id as nat)),
        decreases n.path@.len() - i,
    {
        let ghost pb = path@;
        path.push(decimal_string(n.path[i]));
        proof {
            assert(views(path@) =~= views(pb).push(decimal(n.path@[i as int] as nat)));
            assert(n.path@.take(i + 1).map_values(|id: u64| decimal(id as nat)) =~= n.path@.take(i as int).map_values(
                |id: u64| decimal(id as nat),
            ).push(decimal(n.path@[i as int] as nat)));
        }
        i = i + 1;
    }
    proof {
        assert(n.path@.take(i as int) =~= n.path@);
    }
    TraversalNodeResponse {
        node_id: decimal_string(n.node_id),
        depth: n.depth,
        path,
        edge_type: n.edge_type.clone(),
        symbol: symbol_info_to_response(&n.symbol),
    }
}

/// Some correct traversal gives the reported nodes `nodes`.
pub open spec fn traversal_answer(
    g: CodeGraph,
    types: Seq<SymbolType>,
    max_nodes: usize,
    start: u64,
    direction: TraversalDirection,
    depth: u32,
    nodes: Seq<TraversalNodeResponse>,
) -> bool {
    exists|res: Seq<TraversalNode>|
        #[trigger] traversal_result_ok(g, types, start, graph_direction(direction), depth, max_nodes, res)
            && res.len() == nodes.len() && forall|k: int| 0 <= k < res.len() ==> traversal_response_ok(nodes[k], #[trigger] res[k])
}

/// A traversal from `start_node` as the request asks: in its direction
/// (outgoing by default), within its depth (3 by default), under its filter.
/// The query time is left 0 for the caller to fill in.
pub fn handle_traverse_graph(engine: &QueryEngine, start_node: u64, params: &TraverseGraphParams) -> (r: TraverseGraphResponse)
    requires
        engine.wf(),
    ensures
        traversal_answer(
            engine.graph,
            filter_types_of(*params),
            max_nodes_of(*params),
            start_node,
            direction_of(opt_view(params.direction)),
            match params.depth {
                Some(d) => d,
                None => 3,
            },
            r.nodes@,
        ),
        r.query_time_ms == 0,
{
    let direction = direction_named(&params.direction);
    let depth: u32 = match params.depth {
        Some(d) => d,
        None => 3,
    };
    let filter = traversal_filter_for(params);
    let results = engine.traverse_graph(start_node, direction, depth, &filter);
    let mut nodes: Vec<TraversalNodeResponse> = Vec::new();
    let mut i: usize = 0;
    while i < results.len()
        invariant
            i <= results@.len(),
            nodes@.len() == i,
            forall|k: int| 0 <= k < i ==> traversal_response_ok(nodes@[k], #[trigger] results@[k]),
        decreases results@.len() - i,
    {
        nodes.push(traversal_node_to_response(&results[i]));
        i = i + 1;
    }
    proof {
        assert(traversal_result_ok(
            engine.graph,
            filter_types_of(*params),
            start_node,
            graph_direction(direction),
            depth,
            max_nodes_of(*params),
            results@,
        ));
    }
    TraverseGraphResponse { nodes, query_time_ms: 0 }
}

/// `resp` reports the caller or callee `c`.
pub open spec fn call_response_ok(resp: CallInfoResponse, c: CallInfo) -> bool {
    &&& resp.node_id@ == decimal(c.node_id as nat)
    &&& resp.symbol@ == c.symbol@
    &&& resp.call_site@ == c.call_site@
    &&& resp.depth == c.depth
}

/// A caller or callee in response form.
pub fn call_info_to_response(c: &CallInfo) -> (r: CallInfoResponse)
    ensures
        call_response_ok(r, *c),
{
    CallInfoResponse {
        node_id: decimal_string(c.node_id),
        symbol: symbol_info_to_response(&c.symbol),
        call_site: location_to_response(&c.call_site),
        depth: c.depth,
    }
}

/// Callers or callees in response form, in order.
fn calls_to_responses(cs: &Vec<CallInfo>) -> (r: Vec<CallInfoResponse>)
    ensures
        r@.len() == cs@.len(),
        forall|k: int| 0 <= k < cs@.len() ==> call_response_ok(#[trigger] r@[k], cs@[k]),
{
    let mut r: Vec<CallInfoResponse> = Vec::new();
    let mut i: usize = 0;
    while i < cs.len()
        invariant
            i <= cs@.len(),
            r@.len() == i,
            forall|k: int| 0 <= k < i ==> call_response_ok(#[trigger] r@[k], cs@[k]),
        decreases cs@.len() - i,
    {
        r.push(call_info_to_response(&cs[i]));
        i = i + 1;
    }
    r
}

/// Some correct call chain from `start` along `adj` within `depth` steps
/// gives the reported calls `rs`.
pub open spec fn call_answer(g: CodeGraph, adj: Seq<(u64, u64)>, start: u64, depth: u32, rs: Seq<CallInfoResponse>) -> bool {
    exists|c: Seq<CallInfo>|
        #[trigger] is_call_chain(g, adj, start, depth, c) && c.len() == rs.len() && forall|k: int|
            0 <= k < c.len() ==> call_response_ok(rs[k], #[trigger] c[k])
}

/// The depth a request for callers or callees asks for: 1 by default.
pub open spec fn call_depth_of(params: GetCallersParams) -> u32 {
    match params.depth {
        Some(d) => d,
        None => 1,
    }
}

/// The callers of `node_id` within the requested depth. The query time is
/// left 0 for the caller to fill in.
pub fn handle_get_callers(engine: &QueryEngine, node_id: u64, params: &GetCallersParams) -> (r: GetCallersResponse)
    requires
        engine.wf(),
    ensures
        call_answer(engine.graph, swapped(engine.calls@), node_id, call_depth_of(*params), r.callers@),
        r.query_time_ms == 0,
{
    let depth: u32 = match params.depth {
        Some(d) => d,
        None => 1,
    };
    let results = engine.get_callers(node_id, depth);
    let callers = calls_to_responses(&results);
    proof {
        assert(is_call_chain(engine.graph, swapped(engine.calls@), node_id, depth, results@));
    }
    GetCallersResponse { callers, query_time_ms: 0 }
}

/// The callees of `node_id` within the requested depth. The query time is
/// left 0 for the caller to fill in.
pub fn handle_get_callees(engine: &QueryEngine, node_id: u64, params: &GetCallersParams) -> (r: GetCallersResponse)
    requires
        engine.wf(),
    ensures
        call_answer(engine.graph, engine.calls@, node_id, call_depth_of(*params), r.callers@),
        r.query_time_ms == 0,
{
    let depth: u32 = match params.depth {
        Some(d) => d,
        None => 1,
    };
    let results = engine.get_callees(node_id, depth);
    let callers = calls_to_responses(&results);
    proof {
        assert(is_call_chain(engine.graph, engine.calls@, node_id, depth, results@));
    }
    GetCallersResponse { callers, query_time_ms: 0 }
}

/// Detailed information about the symbol of `node_id`, none where the node
/// is absent or unnamed; its direct callers and callees unless the request
/// leaves them out (both are included by default).
pub fn handle_get_detailed_symbol_info(engine: &QueryEngine, node_id: u64, params: &GetDetailedInfoParams) -> (r: Option<
    DetailedSymbolResponse,
>)
    requires
        engine.wf(),
    ensures
        r is None <==> crate::query::info_of_id(engine.graph, node_id) is None,
        r matches Some(d) ==> {
            let p = engine.graph.node(node_id).props;
            &&& Some(d.symbol@) == crate::query::info_of_id(engine.graph, node_id)
            &&& (if params.include_callers != Some(false) {
                call_answer(engine.graph, swapped(engine.calls@), node_id, 1, d.callers@)
            } else {
                d.callers@.len() == 0
            })
            &&& (if params.include_callees != Some(false) {
                call_answer(engine.graph, engine.calls@, node_id, 1, d.callees@)
            } else {
                d.callees@.len() == 0
            })
            &&& d.complexity == crate::engine::complexity_of(p)
            &&& d.lines_of_code == crate::engine::lines_of(p)
            &&& d.is_public == crate::query::public_of(p)
            &&& d.is_deprecated == crate::query::bool_or(p.deprecated, None, false)
            &&& d.reference_count == crate::engine::neighbor_set(
                engine.graph.edges@,
                node_id,
                crate::graph::Direction::Incoming,
            ).len()
        },
{
    let info = match engine.get_symbol_info(node_id) {
        Some(i) => i,
        None => {
            return None;
        },
    };
    let include_callers = match params.include_callers {
        Some(b) => b,
        None => true,
    };
    let include_callees = match params.include_callees {
        Some(b) => b,
        None => true,
    };
    let callers = if include_callers {
        calls_to_responses(&info.callers)
    } else {
        Vec::new()
    };
    let callees = if include_callees {
        calls_to_responses(&info.callees)
    } else {
        Vec::new()
    };
    proof {
        assert(is_call_chain(engine.graph, swapped(engine.calls@), node_id, 1, info.callers@));
        assert(is_call_chain(engine.graph, engine.calls@, node_id, 1, info.callees@));
    }
    Some(
        DetailedSymbolResponse {
            symbol: symbol_info_to_response(&info.symbol),
            callers,
            callees,
            complexity: info.complexity,
            lines_of_code: info.lines_of_code,
            is_public: info.is_public,
            is_deprecated: info.is_deprecated,
            reference_count: info.reference_count,
        },
    )
}

/// The signature pattern of a request: its name pattern, return type and
/// parameter count range as given, its modifiers (none by default).
pub fn signature_pattern_for(params: &FindBySignatureParams) -> (r: SignaturePattern)
    ensures
        opt_view(r.name_pattern) == opt_view(params.name_pattern),
        opt_view(r.return_type) == opt_view(params.return_type),
        r.param_count == (match params.param_count {
            Some(p) => Some((p.min, p.max)),
            None => None,
        }),
        views(r.modifiers@) == (match params.modifiers {
            Some(m) => views(m@),
            None => seq![],
        }),
{
    let modifiers: Vec<String> = match &params.modifiers {
        Some(m) => copy_strings(m),
        None => Vec::new(),
    };
    SignaturePattern {
        name_pattern: clone_opt(&params.name_pattern),
        return_type: clone_opt(&params.return_type),
        param_count: match params.param_count {
            Some(p) => Some((p.min, p.max)),
            None => None,
        },
        modifiers,
    }
}

/// Where a request points: a node by id, or a line of a document (0-based)
/// to look a node up at.
#[derive(Clone, Debug)]
pub enum NodeTarget {
    Id(u64),
    Position { uri: String, line: u32 },
}

/// Why a request points nowhere.
#[derive(Clone, Copy, Debug, PartialEq, Eq, Structural)]
pub enum ResolveError {
    /// The node id is not a number.
    InvalidNodeId,
    /// Neither a node id nor a document was given.
    MissingTarget,
}

/// Where a request with these fields points: the node id when one is given
/// (an error when it is not a number); else the document's line (1-based,
/// 1 by default) made 0-based; an error when neither is given.
pub fn resolve_target(node_id: &Option<String>, uri: &Option<String>, line: Option<u32>) -> (r: Result<NodeTarget, ResolveError>)
    ensures
        match node_id {
            Some(s) => match parsed_u64(s@) {
                Some(v) => r matches Ok(NodeTarget::Id(x)) && x == v,
                None => r == Err::<NodeTarget, ResolveError>(ResolveError::InvalidNodeId),
            },
            None => match uri {
                Some(u) => r matches Ok(NodeTarget::Position { uri: ru, line: l }) && ru@ == u@ && l == (match line {
                    Some(x) => x,
                    None => 1u32,
                }).saturating_sub(1),
                None => r == Err::<NodeTarget, ResolveError>(ResolveError::MissingTarget),
            },
        },
{
    if let Some(s) = node_id {
        return match parse_u64(s.as_str()) {
            Some(v) => Ok(NodeTarget::Id(v)),
            None => Err(ResolveError::InvalidNodeId),
        };
    }
    match uri {
        Some(u) => {
            let line_num: u32 = match line {
                Some(x) => x,
                None => 1,
            };
            Ok(NodeTarget::Position { uri: u.clone(), line: line_num.saturating_sub(1) })
        },
        None => Err(ResolveError::MissingTarget),
    }
}

} // verus!
