//! Entry points: HTTP handlers, mains, tests, CLI commands, event handlers
//! and public API functions.
use vstd::prelude::*;
use crate::graph::{GraphNode, NodeProps, NodeType};
use crate::engine::QueryEngine;
use crate::primitives::{EntryPoint, EntryType, SymbolInfo, SymbolInfoV, opt_view};
use crate::query::{bool_or, clone_opt, node_symbol_info, opt_info, str_or_empty, string_or_empty, symbol_info_of, first_bool};
use crate::signature::capped;
use crate::text::{lowercase, seq_contains, seq_ends_with, seq_starts_with, str_contains, str_ends_with, str_eq, str_starts_with, to_lower};

verus! {

/// The entry type of a function node with name `name` (lower-case form
/// `lower`), checked in this order: HTTP handler, main, test, CLI command,
/// event handler, public API.
pub open spec fn entry_class(p: NodeProps, name: Seq<char>, lower: Seq<char>) -> Option<EntryType> {
    if p.route is Some || p.http_method is Some {
        Some(EntryType::HttpHandler)
    } else if name == "main"@ || name == "__main__"@ {
        Some(EntryType::Main)
    } else if seq_starts_with(lower, "test_"@) || seq_starts_with(lower, "test"@) || bool_or(
        p.is_test,
        None,
        false,
    ) {
        Some(EntryType::TestEntry)
    } else if seq_contains(lower, "command"@) || seq_contains(lower, "cli"@) || bool_or(
        p.is_cli,
        None,
        false,
    ) {
        Some(EntryType::CliCommand)
    } else if seq_starts_with(lower, "on_"@) || seq_starts_with(lower, "handle_"@) || seq_ends_with(
        lower,
        "_handler"@,
    ) || seq_ends_with(lower, "_callback"@) {
        Some(EntryType::EventHandler)
    } else if bool_or(p.exported, None, false) || bool_or(p.is_public, None, false) {
        Some(EntryType::PublicApi)
    } else {
        None
    }
}

/// The entry type of a node, read from its name.
pub open spec fn entry_type_of(n: GraphNode) -> Option<EntryType> {
    let name = str_or_empty(n.props.name);
    entry_class(n.props, name, lowercase(name))
}

/// How a function is recognised as a test: without a route or HTTP method
/// and not named `main` or `__main__`, it is a test entry when it is marked
/// as a test or its lower-case name starts with `test`; and every test entry
/// is marked as one or named so.
pub proof fn lemma_test_entries(n: GraphNode)
    ensures
        ({
            let name = str_or_empty(n.props.name);
            let plain = n.props.route is None && n.props.http_method is None && name != "main"@ && name
                != "__main__"@;
            &&& plain && n.props.is_test == Some(true) ==> entry_type_of(n) == Some(EntryType::TestEntry)
            &&& plain && seq_starts_with(lowercase(name), "test"@) ==> entry_type_of(n) == Some(EntryType::TestEntry)
            &&& entry_type_of(n) == Some(EntryType::TestEntry) ==> n.props.is_test == Some(true) || seq_starts_with(
                lowercase(name),
                "test"@,
            )
        }),
{
    reveal_strlit("test_");
    reveal_strlit("test");
    let lower = lowercase(str_or_empty(n.props.name));
    if seq_starts_with(lower, "test_"@) {
        assert(lower.subrange(0, 4) =~= lower.subrange(0, 5).subrange(0, 4));
        assert("test_"@.subrange(0, 4) =~= "test"@);
    }
}

/// How a function is recognised as an entry point, in order of precedence:
/// a route or HTTP method makes an HTTP handler; the name `main` or
/// `__main__` a main function; then a test (see `lemma_test_entries`); then
/// a CLI command (lower-case name containing `command` or `cli`, or marked
/// as one); then an event handler (`on_...`, `handle_...`, `..._handler`,
/// `..._callback`); then a public API (exported or public); anything else is
/// no entry point.
pub proof fn lemma_entry_classes(n: GraphNode)
    ensures
        ({
            let p = n.props;
            let name = str_or_empty(p.name);
            let lower = lowercase(name);
            let http = p.route is Some || p.http_method is Some;
            let main = name == "main"@ || name == "__main__"@;
            let test = seq_starts_with(lower, "test"@) || p.is_test == Some(true);
            let cli = seq_contains(lower, "command"@) || seq_contains(lower, "cli"@) || p.is_cli == Some(true);
            let event = seq_starts_with(lower, "on_"@) || seq_starts_with(lower, "handle_"@) || seq_ends_with(
                lower,
                "_handler"@,
            ) || seq_ends_with(lower, "_callback"@);
            let public = p.exported == Some(true) || p.is_public == Some(true);
            &&& http ==> entry_type_of(n) == Some(EntryType::HttpHandler)
            &&& !http && main ==> entry_type_of(n) == Some(EntryType::Main)
            &&& !http && !main && !test && cli ==> entry_type_of(n) == Some(EntryType::CliCommand)
            &&& !http && !main && !test && !cli && event ==> entry_type_of(n) == Some(EntryType::EventHandler)
            &&& !http && !main && !test && !cli && !event && public ==> entry_type_of(n) == Some(
                EntryType::PublicApi,
            )
            &&& !http && !main && !test && !cli && !event && !public ==> entry_type_of(n) is None
        }),
{
    lemma_test_entries(n);
    reveal_strlit("test_");
    reveal_strlit("test");
    let lower = lowercase(str_or_empty(n.props.name));
    if seq_starts_with(lower, "test_"@) {
        assert(lower.subrange(0, 4) =~= lower.subrange(0, 5).subrange(0, 4));
        assert("test_"@.subrange(0, 4) =~= "test"@);
    }
}

/// Symbol information without signature and docstring.
pub open spec fn compacted(s: SymbolInfoV) -> SymbolInfoV {
    SymbolInfoV { signature: None, docstring: None, ..s }
}

/// Mathematical view of an entry point.
pub struct EntryPointV {
    pub node_id: u64,
    pub entry_type: EntryType,
    pub route: Option<Seq<char>>,
    pub method: Option<Seq<char>>,
    pub description: Option<Seq<char>>,
    pub symbol: SymbolInfoV,
}

impl View for EntryPoint {
    type V = EntryPointV;

    open spec fn view(&self) -> EntryPointV {
        EntryPointV {
            node_id: self.node_id,
            entry_type: self.entry_type,
            route: opt_view(self.route),
            method: opt_view(self.method),
            description: opt_view(self.description),
            symbol: self.symbol@,
        }
    }
}

/// Whether an entry type is requested: every type when none is named.
pub open spec fn requested(types: Seq<EntryType>, t: EntryType) -> bool {
    types.len() == 0 || types.contains(t)
}

/// The entry point reported for node `n` of type `t`.
pub open spec fn entry_of(n: GraphNode, t: EntryType, compact: bool) -> EntryPointV {
    let info = symbol_info_of(n).unwrap();
    EntryPointV {
        node_id: n.id,
        entry_type: t,
        route: opt_view(n.props.route),
        method: opt_view(n.props.http_method),
        description: if compact { None } else { opt_view(n.props.doc) },
        symbol: if compact { compacted(info) } else { info },
    }
}

/// All requested entry points among `nodes`, in order.
pub open spec fn entry_hits(nodes: Seq<GraphNode>, types: Seq<EntryType>, compact: bool) -> Seq<
    EntryPointV,
>
    decreases nodes.len(),
{
    if nodes.len() == 0 {
        seq![]
    } else {
        let rest = entry_hits(nodes.drop_last(), types, compact);
        let n = nodes.last();
        match entry_type_of(n) {
            Some(t) => if n.node_type == NodeType::Function && requested(types, t) && symbol_info_of(
                n,
            ) is Some {
                rest.push(entry_of(n, t, compact))
            } else {
                rest
            },
            None => rest,
        }
    }
}

/// The entry type of a node's properties, given its name and the name's
/// lower-case form.
pub fn classify_entry(p: &NodeProps, name: &str, lower: &str) -> (r: Option<EntryType>)
    ensures
        r == entry_class(*p, name@, lower@),
{
    if p.route.is_some() || p.http_method.is_some() {
        Some(EntryType::HttpHandler)
    } else if str_eq(name, "main") || str_eq(name, "__main__") {
        Some(EntryType::Main)
    } else if str_starts_with(lower, "test_") || str_starts_with(lower, "test") || first_bool(
        p.is_test,
        None,
        false,
    ) {
        Some(EntryType::TestEntry)
    } else if str_contains(lower, "command") || str_contains(lower, "cli") || first_bool(
        p.is_cli,
        None,
        false,
    ) {
        Some(EntryType::CliCommand)
    } else if str_starts_with(lower, "on_") || str_starts_with(lower, "handle_") || str_ends_with(
        lower,
        "_handler",
    ) || str_ends_with(lower, "_callback") {
        Some(EntryType::EventHandler)
    } else if first_bool(p.exported, None, false) || first_bool(p.is_public, None, false) {
        Some(EntryType::PublicApi)
    } else {
        None
    }
}

/// The entry type of a node, if any.
pub fn detect_entry_type(n: &GraphNode) -> (r: Option<EntryType>)
    ensures
        r == entry_type_of(*n),
{
    let name = string_or_empty(&n.props.name);
    let lower = to_lower(name.as_str());
    classify_entry(&n.props, name.as_str(), lower.as_str())
}

/// Whether `types` holds `t`.
fn has_type(types: &[EntryType], t: EntryType) -> (r: bool)
    ensures
        r == types@.contains(t),
{
    let mut i: usize = 0;
    while i < types.len()
        invariant
            i <= types@.len(),
            forall|k: int| 0 <= k < i ==> types@[k] != t,
        decreases types@.len() - i,
    {
        if types[i] == t {
            assert(types@[i as int] == t);
            return true;
        }
        i = i + 1;
    }
    false
}

/// The entry points of `nodes[..j]` are a prefix of those of `nodes`.
pub proof fn lemma_entry_prefix(nodes: Seq<GraphNode>, types: Seq<EntryType>, compact: bool, j: int)
    requires
        0 <= j <= nodes.len(),
    ensures
        entry_hits(nodes.take(j), types, compact).len() <= entry_hits(nodes, types, compact).len(),
        entry_hits(nodes, types, compact).take(entry_hits(nodes.take(j), types, compact).len() as int)
            == entry_hits(nodes.take(j), types, compact),
    decreases nodes.len() - j,
{
    if j < nodes.len() {
        lemma_entry_prefix(nodes, types, compact, j + 1);
        let a = entry_hits(nodes.take(j), types, compact);
        let b = entry_hits(nodes.take(j + 1), types, compact);
        assert(nodes.take(j + 1).drop_last() =~= nodes.take(j));
        let h = entry_hits(nodes, types, compact);
        assert(b == a || b == a.push(b.last()));
        assert(h.take(a.len() as int) =~= b.take(a.len() as int));
    } else {
        assert(nodes.take(j) =~= nodes);
    }
}

impl QueryEngine {
    /// Entry points of the requested types (all types when `entry_types` is
    /// empty), in node order.
    pub fn find_entry_points(&self, entry_types: &[EntryType]) -> (r: Vec<EntryPoint>)
        requires
            self.wf(),
        ensures
            r@.map_values(|e: EntryPoint| e@) == entry_hits(self.graph.nodes@, entry_types@, false),
    {
        self.find_entry_points_opts(entry_types, false, None)
    }

    /// Entry points of the requested types, in node order; `compact` drops
    /// signatures, docstrings and descriptions, and the search stops once
    /// `limit` results are held.
    pub fn find_entry_points_opts(&self, entry_types: &[EntryType], compact: bool, limit: Option<usize>) -> (r: Vec<
        EntryPoint,
    >)
        requires
            self.wf(),
        ensures
            r@.map_values(|e: EntryPoint| e@) == capped(
                entry_hits(self.graph.nodes@, entry_types@, compact),
                limit,
            ),
    {
        let ghost fv = |e: EntryPoint| e@;
        let ghost nodes = self.graph.nodes@;
        let ghost types = entry_types@;
        let mut r: Vec<EntryPoint> = Vec::new();
        let mut i: usize = 0;
        while i < self.graph.nodes.len()
            invariant
                i <= nodes.len(),
                nodes == self.graph.nodes@,
                types == entry_types@,
                fv == (|e: EntryPoint| e@),
                r@.map_values(fv) == entry_hits(nodes.take(i as int), types, compact),
                limit matches Some(m) ==> r@.len() < (if m == 0 { 1 } else { m as int }),
            decreases nodes.len() - i,
        {
            let n = &self.graph.nodes[i];
            proof {
                assert(nodes.take(i + 1).drop_last() =~= nodes.take(i as int));
                assert(nodes.take(i + 1).last() == *n);
            }
            if n.node_type == NodeType::Function {
                match detect_entry_type(n) {
                    Some(t) => {
                        if entry_types.len() == 0 || has_type(entry_types, t) {
                            match node_symbol_info(n) {
                                Some(symbol) => {
                                    let symbol = if compact {
                                        SymbolInfo { signature: None, docstring: None, ..symbol }
                                    } else {
                                        symbol
                                    };
                                    let description = if compact {
                                        None
                                    } else {
                                        clone_opt(&n.props.doc)
                                    };
                                    let e = EntryPoint {
                                        node_id: n.id,
                                        entry_type: t,
                                        route: clone_opt(&n.props.route),
                                        method: clone_opt(&n.props.http_method),
                                        description,
                                        symbol,
                                    };
                                    let ghost r0 = r@;
                                    proof {
                                        assert(e@ == entry_of(*n, t, compact));
                                    }
                                    r.push(e);
                                    proof {
                                        assert(r@.map_values(fv) =~= r0.map_values(fv).push(e@));
                                    }
                                    match limit {
                                        Some(max) => {
                                            if r.len() >= max {
                                                proof {
                                                    lemma_entry_prefix(nodes, types, compact, i + 1);
                                                }
                                                return r;
                                            }
                                        },
                                        None => {},
                                    }
                                },
                                None => {},
                            }
                        }
                    },
                    None => {},
                }
            }
            i = i + 1;
        }
        proof {
            assert(nodes.take(i as int) =~= nodes);
        }
        r
    }
}

} // verus!
