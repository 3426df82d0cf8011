//! The query engine: a code graph together with the call and import indexes
//! built from it, and the queries that read them.
use vstd::prelude::*;
use crate::graph::{CodeGraph, GraphEdge, EdgeType, Direction, NodeProps, select_edges, is_neighbor};
use crate::primitives::{CallInfo, DetailedSymbolInfo, ImportMatchMode, ImportSearchOptions, SymbolMatch, SymbolMatchV};
use crate::query::{call_chain, is_call_chain, info_of_id, node_to_symbol_info, node_symbol_info, opt_info, str_or_empty, string_or_empty, public_of, bool_or, first_bool};
use crate::reach::{swapped, swap_pairs, lemma_push_contains};
use crate::text::{concat, lowercase, seq_contains, seq_starts_with, seq_ends_with, views, str_ends_with, str_contains, str_eq, str_starts_with, to_lower};

verus! {

/// The name of node `id`, or the empty string.
pub open spec fn name_of(g: CodeGraph, id: u64) -> Seq<char> {
    str_or_empty(g.node(id).props.name)
}

/// The `(caller, callee)` pairs of the graph's call edges, in edge order.
pub open spec fn call_pairs(edges: Seq<GraphEdge>) -> Seq<(u64, u64)> {
    select_edges(edges, |e: GraphEdge| e.edge_type == EdgeType::Calls).map_values(
        |e: GraphEdge| (e.source, e.target),
    )
}

/// An import edge whose target has a non-empty name.
pub open spec fn is_named_import(g: CodeGraph, e: GraphEdge) -> bool {
    e.edge_type == EdgeType::Imports && name_of(g, e.target).len() > 0
}

/// The `(module name, importer)` pairs of the graph's named import edges,
/// in edge order.
pub open spec fn import_pairs(g: CodeGraph, edges: Seq<GraphEdge>) -> Seq<(Seq<char>, u64)> {
    select_edges(edges, |e: GraphEdge| is_named_import(g, e)).map_values(
        |e: GraphEdge| (name_of(g, e.target), e.source),
    )
}

/// View of an import index.
pub open spec fn import_view(v: Seq<(String, u64)>) -> Seq<(Seq<char>, u64)> {
    v.map_values(|p: (String, u64)| (p.0@, p.1))
}

/// Whether a module name is selected by `library` under `mode`; `library_lower`
/// and `module_lower` are the lower-case forms used by the fuzzy mode.
pub open spec fn module_selected(
    mode: ImportMatchMode,
    library: Seq<char>,
    module: Seq<char>,
    library_lower: Seq<char>,
    module_lower: Seq<char>,
) -> bool {
    match mode {
        ImportMatchMode::Exact => module == library,
        ImportMatchMode::Prefix => seq_starts_with(module, library),
        ImportMatchMode::Fuzzy => seq_contains(module_lower, library_lower),
    }
}

/// The import match modes, from strictest to loosest: a module matched
/// exactly is matched as a prefix too, and one matched as a prefix is one
/// that begins with the library's name (the library itself among them);
/// fuzzy matching compares lower-case forms by containment, so a module
/// whose lower-case form is the library's is matched.
pub proof fn lemma_import_modes(library: Seq<char>, module: Seq<char>, library_lower: Seq<char>, module_lower: Seq<char>)
    ensures
        module_selected(ImportMatchMode::Exact, library, module, library_lower, module_lower) ==> module_selected(
            ImportMatchMode::Prefix,
            library,
            module,
            library_lower,
            module_lower,
        ),
        module_selected(ImportMatchMode::Exact, library, module, library_lower, module_lower) <==> module == library,
        module_selected(ImportMatchMode::Prefix, library, module, library_lower, module_lower) <==> (library.len()
            <= module.len() && module.take(library.len() as int) == library),
        module_lower == library_lower ==> module_selected(
            ImportMatchMode::Fuzzy,
            library,
            module,
            library_lower,
            module_lower,
        ),
        module_selected(ImportMatchMode::Fuzzy, library, module, library_lower, module_lower) ==> library_lower.len()
            <= module_lower.len(),
{
    if module == library {
        assert(module.subrange(0, library.len() as int) =~= library);
    }
    assert(module.take(library.len() as int) =~= module.subrange(0, library.len() as int)) by {
        if library.len() <= module.len() {
        }
    }
    if module_lower == library_lower {
        assert(module_lower.subrange(0, library_lower.len() as int) =~= library_lower);
        assert(crate::text::occurs_at(module_lower, library_lower, 0));
    }
    if module_selected(ImportMatchMode::Fuzzy, library, module, library_lower, module_lower) {
        let i = choose|i: int| #[trigger] crate::text::occurs_at(module_lower, library_lower, i);
    }
}

/// The match reason reported by an import search.
pub open spec fn imports_reason(library: Seq<char>) -> Seq<char> {
    "imports "@ + library
}

/// The results of an import search over the index entries `idx`: one per
/// entry whose module is selected and whose importer has symbol information.
pub open spec fn import_hits(
    g: CodeGraph,
    idx: Seq<(Seq<char>, u64)>,
    mode: ImportMatchMode,
    library: Seq<char>,
) -> Seq<SymbolMatchV>
    decreases idx.len(),
{
    if idx.len() == 0 {
        seq![]
    } else {
        let rest = import_hits(g, idx.drop_last(), mode, library);
        let (module, id) = idx.last();
        if module_selected(mode, library, module, lowercase(library), lowercase(module))
            && info_of_id(g, id) is Some {
            rest.push(
                SymbolMatchV {
                    node_id: id,
                    symbol: info_of_id(g, id).unwrap(),
                    match_reason: imports_reason(library),
                },
            )
        } else {
            rest
        }
    }
}

/// Whether `module` is selected by `library` under `mode`, given the
/// lower-case forms of both.
pub fn module_matches(
    mode: ImportMatchMode,
    library: &str,
    module: &str,
    library_lower: &str,
    module_lower: &str,
) -> (r: bool)
    ensures
        r == module_selected(mode, library@, module@, library_lower@, module_lower@),
{
    match mode {
        ImportMatchMode::Exact => str_eq(module, library),
        ImportMatchMode::Prefix => str_starts_with(module, library),
        ImportMatchMode::Fuzzy => str_contains(module_lower, library_lower),
    }
}

/// A code graph with its call index (`(caller, callee)` pairs) and import
/// index (`(module name, importer)` pairs).
pub struct QueryEngine {
    pub graph: CodeGraph,
    pub calls: Vec<(u64, u64)>,
    pub imports: Vec<(String, u64)>,
}

impl QueryEngine {
    /// Well-formed: the graph is well-formed (the indexes may be stale).
    pub open spec fn wf(&self) -> bool {
        self.graph.wf()
    }

    /// The indexes describe the current graph.
    pub open spec fn indexed(&self) -> bool {
        &&& self.calls@ == call_pairs(self.graph.edges@)
        &&& import_view(self.imports@) == import_pairs(self.graph, self.graph.edges@)
    }

    /// An engine over `graph` with empty indexes.
    pub fn new(graph: CodeGraph) -> (r: Self)
        ensures
            r.graph == graph,
            r.calls@.len() == 0,
            r.imports@.len() == 0,
    {
        QueryEngine { graph, calls: Vec::new(), imports: Vec::new() }
    }

    /// Rebuild the call and import indexes from the graph.
    pub fn build_indexes(&mut self)
        requires
            old(self).wf(),
        ensures
            final(self).graph == old(self).graph,
            final(self).indexed(),
    {
        let ghost g = self.graph;
        let ghost pc = |e: GraphEdge| e.edge_type == EdgeType::Calls;
        let ghost pi = |e: GraphEdge| is_named_import(g, e);
        let ghost fc = |e: GraphEdge| (e.source, e.target);
        let ghost fi = |e: GraphEdge| (name_of(g, e.target), e.source);
        let mut calls: Vec<(u64, u64)> = Vec::new();
        let mut imports: Vec<(String, u64)> = Vec::new();
        let mut i: usize = 0;
        while i < self.graph.edges.len()
            invariant
                g == self.graph,
                g.wf(),
                i <= g.edges@.len(),
                pc == (|e: GraphEdge| e.edge_type == EdgeType::Calls),
                pi == (|e: GraphEdge| is_named_import(g, e)),
                fc == (|e: GraphEdge| (e.source, e.target)),
                fi == (|e: GraphEdge| (name_of(g, e.target), e.source)),
                calls@ == select_edges(g.edges@.take(i as int), pc).map_values(fc),
                import_view(imports@) == select_edges(g.edges@.take(i as int), pi).map_values(fi),
            decreases g.edges@.len() - i,
        {
            let e = self.graph.edges[i];
            proof {
                assert(g.edges@.take(i + 1).drop_last() =~= g.edges@.take(i as int));
                assert(g.edges@.take(i + 1).last() == e);
            }
            let ghost calls0 = calls@;
            let ghost imports0 = imports@;
            let ghost sc = select_edges(g.edges@.take(i as int), pc);
            let ghost si = select_edges(g.edges@.take(i as int), pi);
            match e.edge_type {
                EdgeType::Calls => {
                    calls.push((e.source, e.target));
                    proof {
                        assert(sc.push(e).map_values(fc) =~= sc.map_values(fc).push(fc(e)));
                    }
                },
                EdgeType::Imports => {
                    proof {
                        assert(g.edges@[i as int] == e);
                    }
                    match self.graph.get_node(e.target) {
                        Some(n) => {
                            match &n.props.name {
                                Some(name) => {
                                    if !name.as_str().is_empty() {
                                        imports.push((name.clone(), e.source));
                                        proof {
                                            assert(si.push(e).map_values(fi) =~= si.map_values(fi).push(fi(e)));
                                            assert(import_view(imports@) =~= import_view(imports0).push((name@, e.source)));
                                        }
                                    }
                                },
                                None => {},
                            }
                        },
                        None => {},
                    }
                },
                _ => {},
            }
            i = i + 1;
        }
        proof {
            assert(g.edges@.take(i as int) =~= g.edges@);
        }
        self.calls = calls;
        self.imports = imports;
    }

    /// Callers of `node_id` up to `depth` steps back along the call index.
    pub fn get_callers(&self, node_id: u64, depth: u32) -> (r: Vec<CallInfo>)
        requires
            self.wf(),
        ensures
            is_call_chain(self.graph, swapped(self.calls@), node_id, depth, r@),
    {
        let rev = swap_pairs(&self.calls);
        call_chain(&self.graph, &rev, node_id, depth)
    }

    /// Callees of `node_id` up to `depth` steps along the call index.
    pub fn get_callees(&self, node_id: u64, depth: u32) -> (r: Vec<CallInfo>)
        requires
            self.wf(),
        ensures
            is_call_chain(self.graph, self.calls@, node_id, depth, r@),
    {
        call_chain(&self.graph, &self.calls, node_id, depth)
    }

    /// Code that imports `library`: for each import index entry whose module
    /// is selected under the options' match mode, the importer's symbol (unnamed importers are
    /// skipped), with the reason `imports <library>`.
    pub fn find_by_imports(&self, library: &str, options: &ImportSearchOptions) -> (r: Vec<SymbolMatch>)
        requires
            self.wf(),
        ensures
            r@.map_values(|m: SymbolMatch| m@) == import_hits(
                self.graph,
                import_view(self.imports@),
                options.match_mode,
                library@,
            ),
    {
        let mode = options.match_mode;
        let library_lower = to_lower(library);
        let reason = concat("imports ", library);
        let ghost idx = import_view(self.imports@);
        let ghost fv = |m: SymbolMatch| m@;
        let mut r: Vec<SymbolMatch> = Vec::new();
        let mut i: usize = 0;
        while i < self.imports.len()
            invariant
                self.wf(),
                i <= self.imports@.len(),
                idx == import_view(self.imports@),
                library_lower@ == lowercase(library@),
                reason@ == imports_reason(library@),
                fv == (|m: SymbolMatch| m@),
                r@.map_values(fv) == import_hits(self.graph, idx.take(i as int), mode, library@),
            decreases self.imports@.len() - i,
        {
            let module = &self.imports[i].0;
            let id = self.imports[i].1;
            proof {
                assert(idx.take(i + 1).drop_last() =~= idx.take(i as int));
                assert(idx.take(i + 1).last() == (module@, id));
            }
            let module_lower = to_lower(module.as_str());
            if module_matches(mode, library, module.as_str(), library_lower.as_str(), module_lower.as_str()) {
                match node_to_symbol_info(&self.graph, id) {
                    Some(symbol) => {
                        let m = SymbolMatch { node_id: id, symbol, match_reason: reason.clone() };
                        let ghost r0 = r@;
                        r.push(m);
                        proof {
                            assert(r@.map_values(fv) =~= r0.map_values(fv).push(m@));
                        }
                    },
                    None => {},
                }
            }
            i = i + 1;
        }
        proof {
            assert(idx.take(i as int) =~= idx);
        }
        r
    }
}

/// The distinct neighbors of `id` in direction `dir`.
pub open spec fn neighbor_set(edges: Seq<GraphEdge>, id: u64, dir: Direction) -> Set<u64> {
    Set::new(|b: u64| is_neighbor(edges, id, b, dir))
}

/// An import-like edge (`Imports` or `ImportsFrom`).
pub open spec fn is_import_kind(t: EdgeType) -> bool {
    t == EdgeType::Imports || t == EdgeType::ImportsFrom
}

/// Edge `e` is an import-like edge from `id` (when `out`) or to `id`.
pub open spec fn import_link(e: GraphEdge, id: u64, out: bool) -> bool {
    is_import_kind(e.edge_type) && (if out { e.source == id } else { e.target == id })
}

/// The node at the other end of an edge from `id`'s side.
pub open spec fn other_end(e: GraphEdge, out: bool) -> u64 {
    if out { e.target } else { e.source }
}

/// The non-empty names of the nodes that `id` imports (when `out`) or that
/// import `id`.
pub open spec fn import_names(g: CodeGraph, id: u64, out: bool) -> Set<Seq<char>> {
    Set::new(
        |x: Seq<char>|
            x.len() > 0 && exists|k: int|
                0 <= k < g.edges@.len() && #[trigger] import_link(g.edges@[k], id, out) && name_of(
                    g,
                    other_end(g.edges@[k], out),
                ) == x,
    )
}

/// Whether a node looks like a test by its name or path.
pub open spec fn is_test_like(p: NodeProps) -> bool {
    let name = str_or_empty(p.name);
    let path = str_or_empty(p.path);
    seq_starts_with(name, "test_"@) || seq_ends_with(name, "_test"@) || seq_contains(name, "test "@)
        || seq_contains(path, "/test"@) || seq_contains(path, "/tests"@)
}

/// The complexity property as reported: truncated to 32 bits.
pub open spec fn complexity_of(p: NodeProps) -> Option<u32> {
    match p.complexity {
        Some(c) => Some(c as u32),
        None => None,
    }
}

/// Lines spanned by a node: `line_end - line_start + 1`, with a missing start
/// read as 0 and a missing end as the start.
pub open spec fn lines_of(p: NodeProps) -> usize {
    let start: int = match p.line_start { Some(x) => x as int, None => 0 };
    let end: int = match p.line_end { Some(x) => x as int, None => start };
    (end - start + 1) as usize
}

/// Appending an element that is not present keeps a sequence free of duplicates.
pub proof fn lemma_push_no_dup<A>(s: Seq<A>, x: A)
    requires
        s.no_duplicates(),
        !s.contains(x),
    ensures
        s.push(x).no_duplicates(),
{
    let t = s.push(x);
    assert forall|i: int, j: int| 0 <= i < t.len() && 0 <= j < t.len() && i != j implies t[i] != t[j] by {
        if i == s.len() as int {
            assert(s[j] == t[j]);
        } else if j == s.len() as int {
            assert(s[i] == t[i]);
        }
    }
}

/// Whether `v` holds a string equal to `s`.
pub fn contains_string(v: &Vec<String>, s: &str) -> (r: bool)
    ensures
        r == views(v@).contains(s@),
{
    let mut i: usize = 0;
    while i < v.len()
        invariant
            i <= v@.len(),
            forall|k: int| 0 <= k < i ==> v@[k]@ != s@,
        decreases v@.len() - i,
    {
        if str_eq(v[i].as_str(), s) {
            assert(views(v@)[i as int] == s@);
            return true;
        }
        i = i + 1;
    }
    assert forall|k: int| 0 <= k < views(v@).len() implies views(v@)[k] != s@ by {
        assert(views(v@)[k] == v@[k]@);
    }
    false
}

/// The distinct non-empty names of the nodes that `id` imports (`out`) or
/// that import `id`, each once.
pub fn import_name_list(g: &CodeGraph, id: u64, out: bool) -> (r: Vec<String>)
    requires
        g.wf(),
    ensures
        views(r@).no_duplicates(),
        forall|x: Seq<char>| views(r@).contains(x) <==> import_names(*g, id, out).contains(x),
{
    let mut r: Vec<String> = Vec::new();
    let mut i: usize = 0;
    while i < g.edges.len()
        invariant
            g.wf(),
            i <= g.edges@.len(),
            views(r@).no_duplicates(),
            forall|x: Seq<char>|
                views(r@).contains(x) <==> (x.len() > 0 && exists|k: int|
                    0 <= k < i && #[trigger] import_link(g.edges@[k], id, out) && name_of(
                        *g,
                        other_end(g.edges@[k], out),
                    ) == x),
        decreases g.edges@.len() - i,
    {
        let e = g.edges[i];
        let ghost r0 = views(r@);
        let is_import = match e.edge_type {
            EdgeType::Imports => true,
            EdgeType::ImportsFrom => true,
            _ => false,
        };
        let linked = is_import && (if out { e.source == id } else { e.target == id });
        let ghost cand: Seq<char> = name_of(*g, other_end(e, out));
        proof {
            assert(g.edges@[i as int] == e);
            assert(linked == import_link(e, id, out));
        }
        if linked {
            let other = if out { e.target } else { e.source };
            proof {
                assert(g.has_node(e.source) && g.has_node(e.target));
            }
            match g.get_node(other) {
                Some(n) => {
                    match &n.props.name {
                        Some(name) => {
                            if !name.as_str().is_empty() && !contains_string(&r, name.as_str()) {
                                r.push(name.clone());
                                proof {
                                    assert(views(r@) =~= r0.push(name@));
                                    lemma_push_no_dup(r0, name@);
                                    assert forall|x: Seq<char>| views(r@).contains(x) <==> (r0.contains(x)
                                        || x == cand) by {
                                        lemma_push_contains(r0, name@, x);
                                    }
                                }
                            }
                        },
                        None => {},
                    }
                },
                None => {},
            }
        }
        proof {
            assert forall|x: Seq<char>| views(r@).contains(x) <==> (r0.contains(x) || (linked && cand.len() > 0
                && x == cand)) by {}
            assert forall|x: Seq<char>|
                views(r@).contains(x) <==> (x.len() > 0 && exists|k: int|
                    0 <= k < i + 1 && #[trigger] import_link(g.edges@[k], id, out) && name_of(
                        *g,
                        other_end(g.edges@[k], out),
                    ) == x) by {
                if x.len() > 0 && exists|k: int|
                    0 <= k < i + 1 && #[trigger] import_link(g.edges@[k], id, out) && name_of(
                        *g,
                        other_end(g.edges@[k], out),
                    ) == x {
                    let k = choose|k: int|
                        0 <= k < i + 1 && #[trigger] import_link(g.edges@[k], id, out) && name_of(
                            *g,
                            other_end(g.edges@[k], out),
                        ) == x;
                    if k == i {
                        assert(linked && x == cand);
                    }
                }
                if r0.contains(x) {
                    let k = choose|k: int|
                        0 <= k < i && #[trigger] import_link(g.edges@[k], id, out) && name_of(
                            *g,
                            other_end(g.edges@[k], out),
                        ) == x;
                    assert(0 <= k < i + 1);
                }
                if linked && cand.len() > 0 && x == cand {
                    assert(import_link(g.edges@[i as int], id, out));
                }
            }
        }
        i = i + 1;
    }
    r
}

impl QueryEngine {
    /// Detailed information about the symbol of node `node_id`: none when the
    /// node is absent or unnamed.
    pub fn get_symbol_info(&self, node_id: u64) -> (r: Option<DetailedSymbolInfo>)
        requires
            self.wf(),
        ensures
            r is None <==> info_of_id(self.graph, node_id) is None,
            r matches Some(d) ==> {
                let p = self.graph.node(node_id).props;
                &&& Some(d.symbol@) == info_of_id(self.graph, node_id)
                &&& is_call_chain(self.graph, swapped(self.calls@), node_id, 1, d.callers@)
                &&& is_call_chain(self.graph, self.calls@, node_id, 1, d.callees@)
                &&& d.reference_count == neighbor_set(self.graph.edges@, node_id, Direction::Incoming).len()
                &&& d.complexity == complexity_of(p)
                &&& d.lines_of_code == lines_of(p)
                &&& d.is_public == public_of(p)
                &&& d.is_deprecated == bool_or(p.deprecated, None, false)
                &&& views(d.dependencies@).no_duplicates()
                &&& views(d.dependencies@).to_set() == import_names(self.graph, node_id, true)
                &&& views(d.dependents@).no_duplicates()
                &&& views(d.dependents@).to_set() == import_names(self.graph, node_id, false)
                &&& d.has_tests == exists|i: int|
                    0 <= i < d.callers@.len() && is_test_like(
                        self.graph.node((#[trigger] d.callers@[i]).node_id).props,
                    )
            },
    {
        let n = match self.graph.get_node(node_id) {
            Some(n) => n,
            None => {
                return None;
            },
        };
        let symbol = match node_symbol_info(n) {
            Some(s) => s,
            None => {
                return None;
            },
        };
        let callers = self.get_callers(node_id, 1);
        let callees = self.get_callees(node_id, 1);
        let incoming = self.graph.neighbors(node_id, Direction::Incoming);
        let reference_count = incoming.len();
        proof {
            incoming@.unique_seq_to_set();
            assert(incoming@.to_set() =~= neighbor_set(self.graph.edges@, node_id, Direction::Incoming));
        }
        let complexity = match n.props.complexity {
            Some(c) => Some(c as u32),
            None => None,
        };
        let start: i64 = match n.props.line_start {
            Some(x) => x,
            None => 0,
        };
        let end: i64 = match n.props.line_end {
            Some(x) => x,
            None => start,
        };
        let lines_of_code = (end as i128 - start as i128 + 1) as usize;
        let is_public = first_bool(n.props.is_public, n.props.exported, true);
        let is_deprecated = match n.props.deprecated {
            Some(b) => b,
            None => false,
        };
        let dependencies = import_name_list(&self.graph, node_id, true);
        let dependents = import_name_list(&self.graph, node_id, false);
        proof {
            assert(views(dependencies@).to_set() =~= import_names(self.graph, node_id, true));
            assert(views(dependents@).to_set() =~= import_names(self.graph, node_id, false));
        }
        let has_tests = any_test_node(&self.graph, &callers);
        Some(
            DetailedSymbolInfo {
                symbol,
                callers,
                callees,
                dependencies,
                dependents,
                complexity,
                lines_of_code,
                has_tests,
                is_public,
                is_deprecated,
                reference_count,
            },
        )
    }
}

/// Whether a node's properties look like a test.
pub fn props_test_like(p: &NodeProps) -> (r: bool)
    ensures
        r == is_test_like(*p),
{
    let name = string_or_empty(&p.name);
    let path = string_or_empty(&p.path);
    str_starts_with(name.as_str(), "test_") || str_ends_with(name.as_str(), "_test") || str_contains(
        name.as_str(),
        "test ",
    ) || str_contains(path.as_str(), "/test") || str_contains(path.as_str(), "/tests")
}

/// Whether some reported call partner is a test-like node.
pub fn any_test_node(g: &CodeGraph, calls: &Vec<CallInfo>) -> (r: bool)
    requires
        g.wf(),
        forall|i: int| 0 <= i < calls@.len() ==> g.has_node((#[trigger] calls@[i]).node_id),
    ensures
        r == exists|i: int|
            0 <= i < calls@.len() && is_test_like(g.node((#[trigger] calls@[i]).node_id).props),
{
    let mut i: usize = 0;
    while i < calls.len()
        invariant
            g.wf(),
            i <= calls@.len(),
            forall|j: int| 0 <= j < calls@.len() ==> g.has_node((#[trigger] calls@[j]).node_id),
            forall|j: int| 0 <= j < i ==> !is_test_like(g.node((#[trigger] calls@[j]).node_id).props),
        decreases calls@.len() - i,
    {
        let id = calls[i].node_id;
        proof {
            assert(g.has_node(calls@[i as int].node_id));
        }
        match g.get_node(id) {
            Some(n) => {
                if props_test_like(&n.props) {
                    assert(is_test_like(g.node(calls@[i as int].node_id).props));
                    return true;
                }
            },
            None => {},
        }
        i = i + 1;
    }
    false
}

} // verus!
