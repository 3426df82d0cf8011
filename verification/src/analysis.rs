//! Graph analyses behind the editor requests: dependency subgraphs, related
//! tests, call graphs and change impact.
use vstd::prelude::*;
use crate::bfs::{bfs_walks, is_bfs, found, reached_ok, Reached};
use crate::graph::{CodeGraph, EdgeType, GraphEdge, GraphNode, NodeProps, NodeType, edge_triple, incoming_of, outgoing_of, select_edges};
use crate::navigation::{LspRange, first_covering, find_node_at_position, node_range_of, node_to_range};
use crate::uri::{UriError, file_path_of_uri, symbols_for, symbols_of_file, url_parses};
use crate::query::{str_or_empty, string_or_empty};
use crate::text::{concat, decimal, decimal_string, owned, seq_contains, seq_ends_with, seq_starts_with, str_contains, str_ends_with, str_eq, str_starts_with, views};
use crate::reach::{within, at_level, succs};

verus! {

/// The lower-case name of a node type.
pub open spec fn lower_type_name(t: NodeType) -> Seq<char> {
    match t {
        NodeType::CodeFile => "codefile"@,
        NodeType::Function => "function"@,
        NodeType::Class => "class"@,
        NodeType::Module => "module"@,
        NodeType::Variable => "variable"@,
        NodeType::Type => "type"@,
        NodeType::Interface => "interface"@,
        NodeType::Generic => "generic"@,
    }
}

/// The lower-case name of a node type.
pub fn lower_type(t: NodeType) -> (r: String)
    ensures
        r@ == lower_type_name(t),
{
    match t {
        NodeType::CodeFile => owned("codefile"),
        NodeType::Function => owned("function"),
        NodeType::Class => owned("class"),
        NodeType::Module => owned("module"),
        NodeType::Variable => owned("variable"),
        NodeType::Type => owned("type"),
        NodeType::Interface => owned("interface"),
        NodeType::Generic => owned("generic"),
    }
}

/// A string property, or `d`.
pub open spec fn str_or(s: Option<String>, d: Seq<char>) -> Seq<char> {
    match s {
        Some(x) => x@,
        None => d,
    }
}

/// A string property, or the literal `d`.
pub fn string_or(s: &Option<String>, d: &str) -> (r: String)
    ensures
        r@ == str_or(*s, d@),
{
    match s {
        Some(x) => x.clone(),
        None => owned(d),
    }
}

/// The file the symbol index records for node `id`: the first entry for it.
pub open spec fn file_lookup(files: Seq<(u64, String)>, id: u64) -> Option<Seq<char>>
    decreases files.len(),
{
    if files.len() == 0 {
        None
    } else if files[0].0 == id {
        Some(files[0].1@)
    } else {
        file_lookup(files.drop_first(), id)
    }
}

/// The URI reported for a node: its `path` property, else `file://` and the
/// file the symbol index records for it, else empty.
pub open spec fn uri_of(p: NodeProps, id: u64, files: Seq<(u64, String)>) -> Seq<char> {
    match p.path {
        Some(x) => x@,
        None => match file_lookup(files, id) {
            Some(f) => "file://"@ + f,
            None => seq![],
        },
    }
}

/// The file the symbol index records for node `id`.
pub fn file_for_node(files: &Vec<(u64, String)>, id: u64) -> (r: Option<String>)
    ensures
        match r {
            Some(s) => file_lookup(files@, id) == Some(s@),
            None => file_lookup(files@, id) is None,
        },
{
    let mut i: usize = 0;
    assert(files@.skip(0) =~= files@);
    while i < files.len()
        invariant
            i <= files@.len(),
            file_lookup(files@, id) == file_lookup(files@.skip(i as int), id),
        decreases files@.len() - i,
    {
        proof {
            assert(files@.skip(i as int)[0] == files@[i as int]);
            assert(files@.skip(i as int).drop_first() =~= files@.skip(i + 1));
        }
        if files[i].0 == id {
            return Some(files[i].1.clone());
        }
        i = i + 1;
    }
    None
}

/// The URI reported for a node.
pub fn node_uri(p: &NodeProps, id: u64, files: &Vec<(u64, String)>) -> (r: String)
    ensures
        r@ == uri_of(*p, id, files@),
{
    match &p.path {
        Some(x) => x.clone(),
        None => match file_for_node(files, id) {
            Some(f) => concat("file://", f.as_str()),
            None => String::new(),
        },
    }
}

/// A node that looks like a test: its name starts with `test_`, ends with
/// `_test` or contains `test `, or its path has a `test` directory.
pub open spec fn is_test_props(p: NodeProps) -> bool {
    let name = str_or_empty(p.name);
    let path = str_or_empty(p.path);
    ||| seq_starts_with(name, "test_"@)
    ||| seq_ends_with(name, "_test"@)
    ||| seq_contains(name, "test "@)
    ||| seq_contains(path, "/test"@)
    ||| seq_contains(path, "/tests"@)
    ||| seq_contains(path, "\\test"@)
    ||| seq_contains(path, "\\tests"@)
}

/// Whether a node looks like a test.
pub fn is_test_node(p: &NodeProps) -> (r: bool)
    ensures
        r == is_test_props(*p),
{
    let name = string_or_empty(&p.name);
    let path = string_or_empty(&p.path);
    let name_is_test = str_starts_with(name.as_str(), "test_") || str_ends_with(name.as_str(), "_test")
        || str_contains(name.as_str(), "test ");
    let path_is_test = str_contains(path.as_str(), "/test") || str_contains(path.as_str(), "/tests")
        || str_contains(path.as_str(), "\\test") || str_contains(path.as_str(), "\\tests");
    name_is_test || path_is_test
}

/// The edges of `id` for a direction named by a string: its outgoing edges
/// unless the name is `skip_outgoing`, then its incoming edges unless the
/// name is `skip_incoming`.
pub open spec fn edges_for_direction(
    edges: Seq<GraphEdge>,
    id: u64,
    direction: Seq<char>,
    skip_outgoing: Seq<char>,
    skip_incoming: Seq<char>,
) -> Seq<GraphEdge> {
    (if direction != skip_outgoing { outgoing_of(edges, id) } else { seq![] }) + (if direction
        != skip_incoming {
        incoming_of(edges, id)
    } else {
        seq![]
    })
}

/// The edges of `id` for a direction named by a string, as triples.
pub fn collect_edges_for_direction(
    g: &CodeGraph,
    node_id: u64,
    direction: &str,
    skip_outgoing: &str,
    skip_incoming: &str,
) -> (r: Vec<(u64, u64, EdgeType)>)
    ensures
        r@ == edges_for_direction(g.edges@, node_id, direction@, skip_outgoing@, skip_incoming@).map_values(
            |e: GraphEdge| edge_triple(e),
        ),
{
    let ghost f = |e: GraphEdge| edge_triple(e);
    let mut r: Vec<(u64, u64, EdgeType)> = Vec::new();
    if !str_eq(direction, skip_outgoing) {
        r = g.get_connected_edges(node_id, crate::graph::Direction::Outgoing);
    }
    let ghost first = r@;
    if !str_eq(direction, skip_incoming) {
        let mut inc = g.get_connected_edges(node_id, crate::graph::Direction::Incoming);
        r.append(&mut inc);
    }
    proof {
        let a: Seq<GraphEdge> = if direction@ != skip_outgoing@ { outgoing_of(g.edges@, node_id) } else { seq![] };
        let b: Seq<GraphEdge> = if direction@ != skip_incoming@ { incoming_of(g.edges@, node_id) } else { seq![] };
        assert((a + b).map_values(f) =~= a.map_values(f) + b.map_values(f));
    }
    r
}

/// The edges entering `id`, as triples.
pub fn get_incoming_edges(g: &CodeGraph, node_id: u64) -> (r: Vec<(u64, u64, EdgeType)>)
    ensures
        r@ == incoming_of(g.edges@, node_id).map_values(|e: GraphEdge| edge_triple(e)),
{
    g.get_connected_edges(node_id, crate::graph::Direction::Incoming)
}

/// An optional string property equals `s`.
pub open spec fn opt_eq(p: Option<String>, s: Seq<char>) -> bool {
    match p {
        Some(x) => x@ == s,
        None => false,
    }
}

/// The ids of the nodes whose `path` property is `path`, in id order.
pub open spec fn nodes_with_path(nodes: Seq<GraphNode>, path: Seq<char>) -> Seq<u64>
    decreases nodes.len(),
{
    if nodes.len() == 0 {
        seq![]
    } else {
        let rest = nodes_with_path(nodes.drop_last(), path);
        if opt_eq(nodes.last().props.path, path) {
            rest.push(nodes.last().id)
        } else {
            rest
        }
    }
}

/// The ids of the nodes whose `path` property is `path`, in id order.
pub fn query_by_path(g: &CodeGraph, path: &str) -> (r: Vec<u64>)
    ensures
        r@ == nodes_with_path(g.nodes@, path@),
{
    let mut r: Vec<u64> = Vec::new();
    let mut i: usize = 0;
    while i < g.nodes.len()
        invariant
            i <= g.nodes@.len(),
            r@ == nodes_with_path(g.nodes@.take(i as int), path@),
        decreases g.nodes@.len() - i,
    {
        let n = &g.nodes[i];
        proof {
            assert(g.nodes@.take(i + 1).drop_last() =~= g.nodes@.take(i as int));
            assert(g.nodes@.take(i + 1).last() == *n);
        }
        let hit = match &n.props.path {
            Some(p) => str_eq(p.as_str(), path),
            None => false,
        };
        if hit {
            r.push(n.id);
        }
        i = i + 1;
    }
    assert(g.nodes@.take(i as int) =~= g.nodes@);
    r
}

/// Whether node `x` takes part in a dependency graph: it is in the graph
/// and is not an external node left out (`external` is `"true"` and
/// externals were not requested).
pub open spec fn dep_kept(g: CodeGraph, include_external: bool, x: u64) -> bool {
    g.has_node(x) && !(opt_eq(g.node(x).props.external, "true"@) && !include_external)
}

/// The edges of type `t`, in order.
pub open spec fn typed_edges(edges: Seq<GraphEdge>, t: EdgeType) -> Seq<GraphEdge> {
    select_edges(edges, |e: GraphEdge| e.edge_type == t)
}

/// Steps along edges: forwards when `out`, backwards when `inc`.
pub open spec fn dir_steps(edges: Seq<GraphEdge>, out: bool, inc: bool) -> Seq<(u64, u64)> {
    (if out { edges.map_values(|e: GraphEdge| (e.source, e.target)) } else { seq![] }) + (if inc {
        edges.map_values(|e: GraphEdge| (e.target, e.source))
    } else {
        seq![]
    })
}

/// The steps of a walk along edges of type `t` in the chosen directions,
/// out of nodes that take part only.
pub open spec fn dep_adj(g: CodeGraph, t: EdgeType, include_external: bool, out: bool, inc: bool) -> Seq<(u64, u64)> {
    dir_steps(typed_edges(g.edges@, t), out, inc).filter(|p: (u64, u64)| dep_kept(g, include_external, p.0))
}

/// The node ids of a walk along edges of type `t` from `start` within
/// `depth` steps: none when `start` does not take part; otherwise `start`
/// first, then every other taking-part node reachable within `depth` steps,
/// once each.
pub open spec fn dep_ids_ok(
    g: CodeGraph,
    start: u64,
    depth: nat,
    t: EdgeType,
    include_external: bool,
    out: bool,
    inc: bool,
    ids: Seq<u64>,
) -> bool {
    let adj = dep_adj(g, t, include_external, out, inc);
    if !dep_kept(g, include_external, start) {
        ids.len() == 0
    } else {
        &&& ids.len() >= 1
        &&& ids[0] == start
        &&& forall|i: int|
            1 <= i < ids.len() ==> #[trigger] ids[i] != start && dep_kept(g, include_external, ids[i])
                && within(adj, start, depth).contains(ids[i])
        &&& forall|i: int, j: int| 0 <= i < j < ids.len() ==> ids[i] != ids[j]
        &&& forall|v: u64|
            v != start && within(adj, start, depth).contains(v) && dep_kept(g, include_external, v)
                ==> #[trigger] ids.contains(v)
    }
}

/// The node ids of a dependency graph walked in the directions named by
/// `direction` (`imports`: forwards only, `importedBy`: backwards only,
/// otherwise both).
pub open spec fn dep_ids_for(
    g: CodeGraph,
    start: u64,
    depth: nat,
    include_external: bool,
    direction: Seq<char>,
    ids: Seq<u64>,
) -> bool {
    dep_ids_ok(g, start, depth, EdgeType::Imports, include_external, direction != "importedBy"@, direction != "imports"@, ids)
}

/// The steps of a walk along edges of type `t`.
pub fn dependency_steps(g: &CodeGraph, t: EdgeType, include_external: bool, out: bool, inc: bool) -> (r: Vec<(u64, u64)>)
    requires
        g.wf(),
    ensures
        r@ == dep_adj(*g, t, include_external, out, inc),
{
    let ghost imp = typed_edges(g.edges@, t);
    let ghost pi = |e: GraphEdge| e.edge_type == t;
    let mut fwd: Vec<(u64, u64)> = Vec::new();
    let mut back: Vec<(u64, u64)> = Vec::new();
    let mut i: usize = 0;
    while i < g.edges.len()
        invariant
            i <= g.edges@.len(),
            pi == (|e: GraphEdge| e.edge_type == t),
            fwd@ == select_edges(g.edges@.take(i as int), pi).map_values(|e: GraphEdge| (e.source, e.target)),
            back@ == select_edges(g.edges@.take(i as int), pi).map_values(|e: GraphEdge| (e.target, e.source)),
        decreases g.edges@.len() - i,
    {
        let e = g.edges[i];
        proof {
            assert(g.edges@.take(i + 1).drop_last() =~= g.edges@.take(i as int));
            assert(g.edges@.take(i + 1).last() == e);
        }
        let ghost sel = select_edges(g.edges@.take(i as int), pi);
        if e.edge_type == t {
            fwd.push((e.source, e.target));
            back.push((e.target, e.source));
            assert(sel.push(e).map_values(|e: GraphEdge| (e.source, e.target)) =~= sel.map_values(
                |e: GraphEdge| (e.source, e.target),
            ).push((e.source, e.target)));
            assert(sel.push(e).map_values(|e: GraphEdge| (e.target, e.source)) =~= sel.map_values(
                |e: GraphEdge| (e.target, e.source),
            ).push((e.target, e.source)));
        }
        i = i + 1;
    }
    assert(g.edges@.take(i as int) =~= g.edges@);
    let mut all: Vec<(u64, u64)> = Vec::new();
    if out {
        all.append(&mut fwd);
    }
    if inc {
        all.append(&mut back);
    }
    assert(all@ =~= dir_steps(imp, out, inc));
    let ghost pred = |p: (u64, u64)| dep_kept(*g, include_external, p.0);
    let mut r: Vec<(u64, u64)> = Vec::new();
    let mut k: usize = 0;
    while k < all.len()
        invariant
            g.wf(),
            k <= all@.len(),
            pred == (|p: (u64, u64)| dep_kept(*g, include_external, p.0)),
            r@ == all@.take(k as int).filter(pred),
        decreases all@.len() - k,
    {
        let (x, y) = all[k];
        proof {
            assert(all@.take(k + 1).drop_last() =~= all@.take(k as int));
            assert(all@.take(k + 1).last() == (x, y));
            reveal(Seq::filter);
        }
        if node_kept(g, include_external, x) {
            r.push((x, y));
        }
        k = k + 1;
    }
    assert(all@.take(k as int) =~= all@);
    r
}

/// Whether a node takes part in a dependency graph.
pub fn node_kept(g: &CodeGraph, include_external: bool, x: u64) -> (r: bool)
    requires
        g.wf(),
    ensures
        r == dep_kept(*g, include_external, x),
{
    match g.get_node(x) {
        Some(n) => {
            let external = match &n.props.external {
                Some(v) => str_eq(v.as_str(), "true"),
                None => false,
            };
            !(external && !include_external)
        },
        None => false,
    }
}

/// The node ids of a walk along edges of type `t` from `start` within
/// `depth` steps, breadth first.
pub fn dependency_node_ids(
    g: &CodeGraph,
    start: u64,
    depth: usize,
    t: EdgeType,
    include_external: bool,
    out: bool,
    inc: bool,
) -> (r: Vec<u64>)
    requires
        g.wf(),
    ensures
        dep_ids_ok(*g, start, depth as nat, t, include_external, out, inc, r@),
{
    let mut ids: Vec<u64> = Vec::new();
    if !node_kept(g, include_external, start) {
        return ids;
    }
    let ghost adj = dep_adj(*g, t, include_external, out, inc);
    let steps = dependency_steps(g, t, include_external, out, inc);
    let reached = bfs_walks(&steps, start, depth as u64);
    ids.push(start);
    let mut i: usize = 0;
    while i < reached.len()
        invariant
            g.wf(),
            dep_kept(*g, include_external, start),
            adj == dep_adj(*g, t, include_external, out, inc),
            is_bfs(adj, start, depth as nat, reached@),
            i <= reached@.len(),
            ids@.len() >= 1,
            ids@[0] == start,
            forall|k: int|
                1 <= k < ids@.len() ==> #[trigger] ids@[k] != start && dep_kept(*g, include_external, ids@[k])
                    && exists|j: int| 0 <= j < i && (#[trigger] reached@[j]).node == ids@[k],
            forall|k: int, l: int| 0 <= k < l < ids@.len() ==> ids@[k] != ids@[l],
            forall|j: int|
                0 <= j < i && dep_kept(*g, include_external, (#[trigger] reached@[j]).node) ==> ids@.contains(reached@[j].node),
        decreases reached@.len() - i,
    {
        let v = reached[i].node;
        let ghost ids0 = ids@;
        if node_kept(g, include_external, v) {
            ids.push(v);
            proof {
                assert(reached_ok(adj, start, reached@[i as int]));
                assert forall|k: int, l: int| 0 <= k < l < ids@.len() implies ids@[k] != ids@[l] by {
                    if l == ids0.len() && k >= 1 {
                        let j = choose|j: int| 0 <= j < i && (#[trigger] reached@[j]).node == ids0[k];
                        assert(reached@[j].node != reached@[i as int].node);
                    }
                    if l < ids0.len() {
                        assert(ids@[k] == ids0[k] && ids@[l] == ids0[l]);
                    }
                }
                assert forall|k: int| 1 <= k < ids@.len() implies #[trigger] ids@[k] != start && dep_kept(
                    *g,
                    include_external,
                    ids@[k],
                ) && exists|j: int| 0 <= j < i + 1 && (#[trigger] reached@[j]).node == ids@[k] by {
                    if k < ids0.len() {
                        assert(ids@[k] == ids0[k]);
                        let j = choose|j: int| 0 <= j < i && (#[trigger] reached@[j]).node == ids0[k];
                        assert(0 <= j < i + 1);
                    } else {
                        assert(reached@[i as int].node == ids@[k]);
                    }
                }
                assert forall|j: int|
                    0 <= j < i + 1 && dep_kept(*g, include_external, (#[trigger] reached@[j]).node) implies ids@.contains(
                    reached@[j].node,
                ) by {
                    if j < i {
                        let k = choose|k: int| 0 <= k < ids0.len() && ids0[k] == reached@[j].node;
                        assert(ids@[k] == ids0[k]);
                    } else {
                        assert(ids@[ids0.len() as int] == v);
                    }
                }
            }
        } else {
            proof {
                assert forall|k: int| 1 <= k < ids@.len() implies #[trigger] ids@[k] != start && dep_kept(
                    *g,
                    include_external,
                    ids@[k],
                ) && exists|j: int| 0 <= j < i + 1 && (#[trigger] reached@[j]).node == ids@[k] by {
                    let j = choose|j: int| 0 <= j < i && (#[trigger] reached@[j]).node == ids@[k];
                    assert(0 <= j < i + 1);
                }
            }
        }
        i = i + 1;
    }
    proof {
        assert forall|k: int| 1 <= k < ids@.len() implies #[trigger] ids@[k] != start && dep_kept(
            *g,
            include_external,
            ids@[k],
        ) && within(adj, start, depth as nat).contains(ids@[k]) by {
            let j = choose|j: int| 0 <= j < i && (#[trigger] reached@[j]).node == ids@[k];
            assert(reached_ok(adj, start, reached@[j]));
            crate::reach::lemma_within_mono(adj, start, reached@[j].depth as nat, depth as nat);
        }
        assert forall|v: u64|
            v != start && within(adj, start, depth as nat).contains(v) && dep_kept(*g, include_external, v)
                implies #[trigger] ids@.contains(v) by {
            assert(found(reached@, v));
            let j = choose|j: int| 0 <= j < reached@.len() && (#[trigger] reached@[j]).node == v;
        }
    }
    ids
}

/// A node of a dependency graph.
#[derive(Clone, Debug)]
pub struct DependencyNode {
    pub id: String,
    pub label: String,
    pub node_type: String,
    pub language: String,
    pub uri: String,
}

/// An edge of a dependency graph.
#[derive(Clone, Debug)]
pub struct DependencyEdge {
    pub from: String,
    pub to: String,
    pub edge_type: String,
}

/// A dependency graph.
#[derive(Clone, Debug)]
pub struct DependencyGraphResponse {
    pub nodes: Vec<DependencyNode>,
    pub edges: Vec<DependencyEdge>,
}

/// Mathematical view of a dependency node.
pub struct DependencyNodeV {
    pub id: Seq<char>,
    pub label: Seq<char>,
    pub node_type: Seq<char>,
    pub language: Seq<char>,
    pub uri: Seq<char>,
}

/// Mathematical view of a dependency edge.
pub struct DependencyEdgeV {
    pub from: Seq<char>,
    pub to: Seq<char>,
    pub edge_type: Seq<char>,
}

impl View for DependencyNode {
    type V = DependencyNodeV;

    open spec fn view(&self) -> DependencyNodeV {
        DependencyNodeV {
            id: self.id@,
            label: self.label@,
            node_type: self.node_type@,
            language: self.language@,
            uri: self.uri@,
        }
    }
}

impl View for DependencyEdge {
    type V = DependencyEdgeV;

    open spec fn view(&self) -> DependencyEdgeV {
        DependencyEdgeV { from: self.from@, to: self.to@, edge_type: self.edge_type@ }
    }
}

/// The dependency-graph node reported for node `id`.
pub open spec fn dep_node_of(g: CodeGraph, id: u64, files: Seq<(u64, String)>) -> DependencyNodeV {
    let p = g.node(id).props;
    DependencyNodeV {
        id: decimal(id as nat),
        label: str_or_empty(p.name),
        node_type: lower_type_name(g.node(id).node_type),
        language: str_or(p.language, "unknown"@),
        uri: uri_of(p, id, files),
    }
}

/// The import edges reported for node `id`, in the order they are collected.
pub open spec fn dep_edges_of(g: CodeGraph, id: u64, direction: Seq<char>) -> Seq<DependencyEdgeV> {
    edges_for_direction(g.edges@, id, direction, "importedBy"@, "imports"@).filter(
        |e: GraphEdge| e.edge_type == EdgeType::Imports,
    ).map_values(
        |e: GraphEdge| DependencyEdgeV { from: decimal(e.source as nat), to: decimal(e.target as nat), edge_type: "import"@ },
    )
}

/// The import edges reported for each of `ids`, in turn.
pub open spec fn all_dep_edges(g: CodeGraph, ids: Seq<u64>, direction: Seq<char>) -> Seq<DependencyEdgeV>
    decreases ids.len(),
{
    if ids.len() == 0 {
        seq![]
    } else {
        all_dep_edges(g, ids.drop_last(), direction) + dep_edges_of(g, ids.last(), direction)
    }
}

/// The import edges of `id` for a direction name, as reported.
fn dep_edges(g: &CodeGraph, id: u64, direction: &str, out: &mut Vec<DependencyEdge>)
    ensures
        final(out)@.map_values(|e: DependencyEdge| e@) == old(out)@.map_values(|e: DependencyEdge| e@)
            + dep_edges_of(*g, id, direction@),
{
    let triples = collect_edges_for_direction(g, id, direction, "importedBy", "imports");
    let ghost es = edges_for_direction(g.edges@, id, direction@, "importedBy"@, "imports"@);
    let ghost pred = |e: GraphEdge| e.edge_type == EdgeType::Imports;
    let ghost f = |e: GraphEdge| DependencyEdgeV { from: decimal(e.source as nat), to: decimal(e.target as nat), edge_type: "import"@ };
    let ghost fv = |e: DependencyEdge| e@;
    let ghost out0 = out@.map_values(fv);
    let mut i: usize = 0;
    while i < triples.len()
        invariant
            i <= triples@.len(),
            triples@ == es.map_values(|e: GraphEdge| edge_triple(e)),
            pred == (|e: GraphEdge| e.edge_type == EdgeType::Imports),
            f == (|e: GraphEdge| DependencyEdgeV { from: decimal(e.source as nat), to: decimal(e.target as nat), edge_type: "import"@ }),
            fv == (|e: DependencyEdge| e@),
            out@.map_values(fv) == out0 + es.take(i as int).filter(pred).map_values(f),
        decreases triples@.len() - i,
    {
        let (a, b, t) = triples[i];
        proof {
            assert(triples@[i as int] == edge_triple(es[i as int]));
            assert(es.take(i + 1).drop_last() =~= es.take(i as int));
            assert(es.take(i + 1).last() == es[i as int]);
            reveal(Seq::filter);
        }
        let ghost prev = es.take(i as int).filter(pred);
        if t == EdgeType::Imports {
            let e = DependencyEdge { from: decimal_string(a), to: decimal_string(b), edge_type: owned("import") };
            let ghost before = out@;
            out.push(e);
            proof {
                assert(out@.map_values(fv) =~= before.map_values(fv).push(e@));
                assert(prev.push(es[i as int]).map_values(f) =~= prev.map_values(f).push(f(es[i as int])));
            }
        }
        i = i + 1;
    }
    proof {
        assert(es.take(i as int) =~= es);
    }
}

/// The dependency graph over the node ids `ids`: each node's description,
/// and the import edges of each node in turn.
pub fn dependency_response(
    g: &CodeGraph,
    ids: &Vec<u64>,
    direction: &str,
    files: &Vec<(u64, String)>,
) -> (r: DependencyGraphResponse)
    requires
        g.wf(),
        forall|i: int| 0 <= i < ids@.len() ==> g.has_node(#[trigger] ids@[i]),
    ensures
        r.nodes@.map_values(|n: DependencyNode| n@) == ids@.map_values(|id: u64| dep_node_of(*g, id, files@)),
        r.edges@.map_values(|e: DependencyEdge| e@) == all_dep_edges(*g, ids@, direction@),
{
    let ghost fn_ = |n: DependencyNode| n@;
    let ghost fe = |e: DependencyEdge| e@;
    let ghost fd = |id: u64| dep_node_of(*g, id, files@);
    let mut nodes: Vec<DependencyNode> = Vec::new();
    let mut edges: Vec<DependencyEdge> = Vec::new();
    let mut i: usize = 0;
    while i < ids.len()
        invariant
            g.wf(),
            i <= ids@.len(),
            forall|k: int| 0 <= k < ids@.len() ==> g.has_node(#[trigger] ids@[k]),
            fn_ == (|n: DependencyNode| n@),
            fe == (|e: DependencyEdge| e@),
            fd == (|id: u64| dep_node_of(*g, id, files@)),
            nodes@.map_values(fn_) == ids@.take(i as int).map_values(fd),
            edges@.map_values(fe) == all_dep_edges(*g, ids@.take(i as int), direction@),
        decreases ids@.len() - i,
    {
        let id = ids[i];
        proof {
            assert(g.has_node(ids@[i as int]));
            assert(ids@.take(i + 1).drop_last() =~= ids@.take(i as int));
            assert(ids@.take(i + 1).last() == id);
        }
        match g.get_node(id) {
            Some(n) => {
                let node = DependencyNode {
                    id: decimal_string(id),
                    label: string_or_empty(&n.props.name),
                    node_type: lower_type(n.node_type),
                    language: string_or(&n.props.language, "unknown"),
                    uri: node_uri(&n.props, id, files),
                };
                let ghost before = nodes@;
                nodes.push(node);
                proof {
                    assert(node@ == dep_node_of(*g, id, files@));
                    assert(nodes@.map_values(fn_) =~= before.map_values(fn_).push(node@));
                    assert(ids@.take(i + 1).map_values(fd) =~= ids@.take(i as int).map_values(fd).push(fd(id)));
                }
            },
            None => {},
        }
        dep_edges(g, id, direction, &mut edges);
        i = i + 1;
    }
    proof {
        assert(ids@.take(i as int) =~= ids@);
    }
    DependencyGraphResponse { nodes, edges }
}

/// `r` is the dependency graph over the node ids `ids`.
pub open spec fn dep_response_ok(
    g: CodeGraph,
    ids: Seq<u64>,
    direction: Seq<char>,
    files: Seq<(u64, String)>,
    r: DependencyGraphResponse,
) -> bool {
    &&& r.nodes@.map_values(|n: DependencyNode| n@) == ids.map_values(|id: u64| dep_node_of(g, id, files))
    &&& r.edges@.map_values(|e: DependencyEdge| e@) == all_dep_edges(g, ids, direction)
}

/// `r` is the dependency graph from `start`: over some node ids that a
/// dependency walk from `start` yields.
pub open spec fn dep_graph_from(
    g: CodeGraph,
    start: u64,
    depth: nat,
    include_external: bool,
    direction: Seq<char>,
    files: Seq<(u64, String)>,
    r: DependencyGraphResponse,
) -> bool {
    exists|ids: Seq<u64>|
        #[trigger] dep_ids_for(g, start, depth, include_external, direction, ids) && dep_response_ok(
            g,
            ids,
            direction,
            files,
            r,
        )
}

/// `r` is the dependency graph of the file at `path`: none where no node has
/// that path; else the graph from the first such node.
pub open spec fn dependency_graph_fits(
    g: CodeGraph,
    params: DependencyGraphParams,
    path: Seq<char>,
    files: Seq<(u64, String)>,
    r: DependencyGraphResponse,
) -> bool {
    let starts = nodes_with_path(g.nodes@, path);
    let d: nat = match params.depth { Some(x) => x as nat, None => 3 };
    let inc_ext = match params.include_external { Some(b) => b, None => false };
    let dir: Seq<char> = match params.direction { Some(s) => s@, None => "both"@ };
    if starts.len() == 0 {
        r.nodes@.len() == 0 && r.edges@.len() == 0
    } else {
        dep_graph_from(g, starts[0], d, inc_ext, dir, files, r)
    }
}

/// No node has path `path`, so none is found by it.
proof fn lemma_no_path_nodes(nodes: Seq<GraphNode>, path: Seq<char>)
    requires
        forall|k: int| 0 <= k < nodes.len() ==> !opt_eq(#[trigger] nodes[k].props.path, path),
    ensures
        nodes_with_path(nodes, path).len() == 0,
    decreases nodes.len(),
{
    if nodes.len() > 0 {
        let d = nodes.drop_last();
        assert forall|k: int| 0 <= k < d.len() implies !opt_eq(#[trigger] d[k].props.path, path) by {
            assert(d[k] == nodes[k]);
        }
        lemma_no_path_nodes(d, path);
        assert(!opt_eq(nodes[nodes.len() - 1].props.path, path));
    }
}

/// Every edge reported for a dependency graph is an import.
proof fn lemma_dep_edges_import(g: CodeGraph, ids: Seq<u64>, direction: Seq<char>)
    ensures
        forall|k: int|
            0 <= k < all_dep_edges(g, ids, direction).len() ==> (#[trigger] all_dep_edges(g, ids, direction)[k]).edge_type
                == "import"@,
    decreases ids.len(),
{
    if ids.len() > 0 {
        lemma_dep_edges_import(g, ids.drop_last(), direction);
        let a = all_dep_edges(g, ids.drop_last(), direction);
        let b = dep_edges_of(g, ids.last(), direction);
        let all = all_dep_edges(g, ids, direction);
        assert forall|k: int| 0 <= k < all.len() implies (#[trigger] all[k]).edge_type == "import"@ by {
            if k < a.len() {
                assert(all[k] == a[k]);
            } else {
                assert(all[k] == b[k - a.len()]);
            }
        }
    }
}

/// `s` spells node `id`, which is in the graph and not external.
pub open spec fn node_is_internal(g: CodeGraph, id: u64, s: Seq<char>) -> bool {
    s == decimal(id as nat) && g.has_node(id) && !opt_eq(g.node(id).props.external, "true"@)
}

/// `s` spells the id of a node of the graph that is not external.
pub open spec fn internal_id(g: CodeGraph, s: Seq<char>) -> bool {
    exists|id: u64| #[trigger] node_is_internal(g, id, s)
}

/// A dependency graph is empty for a file no node has; its node ids are
/// distinct; all its edges are imports; and unless external nodes are asked
/// for, none of its nodes is external.
pub proof fn lemma_dependency_graph_shape(
    g: CodeGraph,
    params: DependencyGraphParams,
    path: Seq<char>,
    files: Seq<(u64, String)>,
    r: DependencyGraphResponse,
)
    requires
        g.wf(),
        dependency_graph_fits(g, params, path, files, r),
    ensures
        (forall|k: int| 0 <= k < g.nodes@.len() ==> !opt_eq(#[trigger] g.nodes@[k].props.path, path)) ==> r.nodes@.len()
            == 0 && r.edges@.len() == 0,
        forall|a: int, b: int| 0 <= a < b < r.nodes@.len() ==> (#[trigger] r.nodes@[a]).id@ != (#[trigger] r.nodes@[b]).id@,
        forall|k: int| 0 <= k < r.edges@.len() ==> (#[trigger] r.edges@[k]).edge_type@ == "import"@,
        params.include_external != Some(true) ==> forall|k: int|
            0 <= k < r.nodes@.len() ==> internal_id(g, (#[trigger] r.nodes@[k]).id@),
{
    if forall|k: int| 0 <= k < g.nodes@.len() ==> !opt_eq(#[trigger] g.nodes@[k].props.path, path) {
        lemma_no_path_nodes(g.nodes@, path);
    }
    let starts = nodes_with_path(g.nodes@, path);
    if starts.len() == 0 {
        assert(r.nodes@.len() == 0 && r.edges@.len() == 0);
    } else {
        let d: nat = match params.depth { Some(x) => x as nat, None => 3 };
        let inc_ext = match params.include_external { Some(b) => b, None => false };
        let dir: Seq<char> = match params.direction { Some(s) => s@, None => "both"@ };
        let ids = choose|ids: Seq<u64>|
            #[trigger] dep_ids_for(g, starts[0], d, inc_ext, dir, ids) && dep_response_ok(g, ids, dir, files, r);
        let nv = r.nodes@.map_values(|n: DependencyNode| n@);
        assert(nv.len() == ids.len());
        assert forall|k: int| 0 <= k < r.nodes@.len() implies (#[trigger] r.nodes@[k]).id@ == decimal(ids[k] as nat) by {
            assert(nv[k] == r.nodes@[k]@);
        }
        assert forall|a: int, b: int| 0 <= a < b < r.nodes@.len() implies (#[trigger] r.nodes@[a]).id@ != (
        #[trigger] r.nodes@[b]).id@ by {
            crate::text::lemma_decimal_injective(ids[a], ids[b]);
        }
        lemma_dep_edges_import(g, ids, dir);
        let ev = r.edges@.map_values(|e: DependencyEdge| e@);
        assert forall|k: int| 0 <= k < r.edges@.len() implies (#[trigger] r.edges@[k]).edge_type@ == "import"@ by {
            assert(ev[k] == r.edges@[k]@);
        }
        if params.include_external != Some(true) {
            assert(!inc_ext);
            assert forall|k: int| 0 <= k < r.nodes@.len() implies internal_id(g, (#[trigger] r.nodes@[k]).id@) by {
                assert(dep_ids_ok(g, starts[0], d, EdgeType::Imports, inc_ext, dir != "importedBy"@, dir != "imports"@, ids));
                let id = ids[k];
                assert(dep_kept(g, inc_ext, id));
                assert(r.nodes@[k].id@ == decimal(id as nat));
                assert(node_is_internal(g, id, r.nodes@[k].id@));
            }
        }
    }
}

/// A request for the dependency graph of a file.
#[derive(Clone, Debug)]
pub struct DependencyGraphParams {
    pub uri: String,
    pub depth: Option<usize>,
    pub include_external: Option<bool>,
    pub direction: Option<String>,
}

/// The dependency graph of the file at `path` (the file the request's URI
/// names): a breadth-first walk along import edges from the first node with
/// that path, up to the requested depth (default 3), leaving out external
/// nodes unless asked to include them (default not), in the requested
/// direction (`imports`, `importedBy`, otherwise both; default both). Empty
/// when no node has the path.
pub fn handle_get_dependency_graph(
    g: &CodeGraph,
    params: &DependencyGraphParams,
    path: &str,
    files: &Vec<(u64, String)>,
) -> (r: DependencyGraphResponse)
    requires
        g.wf(),
    ensures
        dependency_graph_fits(*g, *params, path@, files@, r),
{
    let starts = query_by_path(g, path);
    if starts.len() == 0 {
        return DependencyGraphResponse { nodes: Vec::new(), edges: Vec::new() };
    }
    let start = starts[0];
    let d = match params.depth {
        Some(x) => x,
        None => 3,
    };
    let inc_ext = match params.include_external {
        Some(b) => b,
        None => false,
    };
    let dir: &str = match &params.direction {
        Some(s) => s.as_str(),
        None => "both",
    };
    let out = !str_eq(dir, "importedBy");
    let inc = !str_eq(dir, "imports");
    let ids = dependency_node_ids(g, start, d, EdgeType::Imports, inc_ext, out, inc);
    proof {
        assert forall|i: int| 0 <= i < ids@.len() implies g.has_node(#[trigger] ids@[i]) by {
            if i >= 1 {
                assert(dep_kept(*g, inc_ext, ids@[i]));
            }
        }
    }
    let r = dependency_response(g, &ids, dir, files);
    proof {
        let dd: nat = match params.depth { Some(x) => x as nat, None => 3 };
        assert(d as nat == dd);
        assert(dep_ids_ok(*g, start, dd, EdgeType::Imports, inc_ext, dir@ != "importedBy"@, dir@ != "imports"@, ids@));
        assert(dep_ids_for(*g, start, dd, inc_ext, dir@, ids@));
        assert(dep_response_ok(*g, ids@, dir@, files@, r));
        assert(dep_graph_from(*g, start, dd, inc_ext, dir@, files@, r));
        assert(r.nodes@.map_values(|n: DependencyNode| n@) == ids@.map_values(|id: u64| dep_node_of(*g, id, files@)));
        assert(r.edges@.map_values(|e: DependencyEdge| e@) == all_dep_edges(*g, ids@, dir@));
    }
    r
}

/// The dependency graph request: the document `params.uri` is resolved to a
/// file and its graph is built as `handle_get_dependency_graph` does.
/// `InvalidUri` exactly when the URI is no URL.
pub fn dependency_graph_at(
    g: &CodeGraph,
    params: &DependencyGraphParams,
    files: &Vec<(u64, String)>,
) -> (r: Result<DependencyGraphResponse, UriError>)
    requires
        g.wf(),
    ensures
        (r matches Err(e) && e == UriError::InvalidUri) <==> !url_parses(params.uri@),
        r matches Ok(resp) ==> exists|path: Seq<char>| dependency_graph_fits(*g, *params, path, files@, resp),
{
    let path = match file_path_of_uri(params.uri.as_str()) {
        Ok(p) => p,
        Err(e) => {
            return Err(e);
        },
    };
    let resp = handle_get_dependency_graph(g, params, path.as_str(), files);
    let r = Ok(resp);
    assert(r matches Ok(x) && dependency_graph_fits(*g, *params, path@, files@, x));
    r
}

/// A function node of a call graph.
#[derive(Clone, Debug)]
pub struct FunctionNode {
    pub id: String,
    pub name: String,
    pub signature: String,
    pub uri: String,
    pub range: LspRange,
    pub language: String,
}

/// A call edge of a call graph.
#[derive(Clone, Debug)]
pub struct CallEdge {
    pub from: String,
    pub to: String,
    pub call_sites: Vec<LspRange>,
    pub is_recursive: bool,
}

/// A call graph around a root function.
#[derive(Clone, Debug)]
pub struct CallGraphResponse {
    pub root: Option<FunctionNode>,
    pub nodes: Vec<FunctionNode>,
    pub edges: Vec<CallEdge>,
}

/// Mathematical view of a function node.
pub struct FunctionNodeV {
    pub id: Seq<char>,
    pub name: Seq<char>,
    pub signature: Seq<char>,
    pub uri: Seq<char>,
    pub range: LspRange,
    pub language: Seq<char>,
}

/// Mathematical view of a call edge.
pub struct CallEdgeV {
    pub from: Seq<char>,
    pub to: Seq<char>,
    pub call_sites: Seq<LspRange>,
    pub is_recursive: bool,
}

impl View for FunctionNode {
    type V = FunctionNodeV;

    open spec fn view(&self) -> FunctionNodeV {
        FunctionNodeV {
            id: self.id@,
            name: self.name@,
            signature: self.signature@,
            uri: self.uri@,
            range: self.range,
            language: self.language@,
        }
    }
}

impl View for CallEdge {
    type V = CallEdgeV;

    open spec fn view(&self) -> CallEdgeV {
        CallEdgeV { from: self.from@, to: self.to@, call_sites: self.call_sites@, is_recursive: self.is_recursive }
    }
}

/// The call-graph node reported for node `id`; the root gets the requested
/// URI.
pub open spec fn function_node_of(
    g: CodeGraph,
    id: u64,
    root: u64,
    root_uri: Seq<char>,
    files: Seq<(u64, String)>,
) -> FunctionNodeV {
    let p = g.node(id).props;
    FunctionNodeV {
        id: decimal(id as nat),
        name: str_or_empty(p.name),
        signature: str_or_empty(p.signature),
        uri: if id == root { root_uri } else { uri_of(p, id, files) },
        range: node_range_of(p),
        language: str_or(p.language, "unknown"@),
    }
}

/// The call edges reported for node `id`, in the order they are collected.
pub open spec fn call_edges_of(g: CodeGraph, id: u64, direction: Seq<char>) -> Seq<CallEdgeV> {
    edges_for_direction(g.edges@, id, direction, "callers"@, "callees"@).filter(
        |e: GraphEdge| e.edge_type == EdgeType::Calls,
    ).map_values(
        |e: GraphEdge|
            CallEdgeV {
                from: decimal(e.source as nat),
                to: decimal(e.target as nat),
                call_sites: seq![],
                is_recursive: e.source == e.target,
            },
    )
}

/// The call edges reported for each of `ids`, in turn.
pub open spec fn all_call_edges(g: CodeGraph, ids: Seq<u64>, direction: Seq<char>) -> Seq<CallEdgeV>
    decreases ids.len(),
{
    if ids.len() == 0 {
        seq![]
    } else {
        all_call_edges(g, ids.drop_last(), direction) + call_edges_of(g, ids.last(), direction)
    }
}

/// Append the call edges of `id` for a direction name.
fn call_edges(g: &CodeGraph, id: u64, direction: &str, out: &mut Vec<CallEdge>)
    ensures
        final(out)@.map_values(|e: CallEdge| e@) == old(out)@.map_values(|e: CallEdge| e@) + call_edges_of(
            *g,
            id,
            direction@,
        ),
{
    let triples = collect_edges_for_direction(g, id, direction, "callers", "callees");
    let ghost es = edges_for_direction(g.edges@, id, direction@, "callers"@, "callees"@);
    let ghost pred = |e: GraphEdge| e.edge_type == EdgeType::Calls;
    let ghost f = |e: GraphEdge|
        CallEdgeV {
            from: decimal(e.source as nat),
            to: decimal(e.target as nat),
            call_sites: seq![],
            is_recursive: e.source == e.target,
        };
    let ghost fv = |e: CallEdge| e@;
    let ghost out0 = out@.map_values(fv);
    let mut i: usize = 0;
    while i < triples.len()
        invariant
            i <= triples@.len(),
            triples@ == es.map_values(|e: GraphEdge| edge_triple(e)),
            pred == (|e: GraphEdge| e.edge_type == EdgeType::Calls),
            f == (|e: GraphEdge|
                CallEdgeV {
                    from: decimal(e.source as nat),
                    to: decimal(e.target as nat),
                    call_sites: seq![],
                    is_recursive: e.source == e.target,
                }),
            fv == (|e: CallEdge| e@),
            out@.map_values(fv) == out0 + es.take(i as int).filter(pred).map_values(f),
        decreases triples@.len() - i,
    {
        let (a, b, t) = triples[i];
        proof {
            assert(triples@[i as int] == edge_triple(es[i as int]));
            assert(es.take(i + 1).drop_last() =~= es.take(i as int));
            assert(es.take(i + 1).last() == es[i as int]);
            reveal(Seq::filter);
        }
        let ghost prev = es.take(i as int).filter(pred);
        if t == EdgeType::Calls {
            let e = CallEdge {
                from: decimal_string(a),
                to: decimal_string(b),
                call_sites: Vec::new(),
                is_recursive: a == b,
            };
            let ghost before = out@;
            out.push(e);
            proof {
                assert(e@.call_sites =~= Seq::<LspRange>::empty());
                assert(e@ == f(es[i as int]));
                assert(out@.map_values(fv) =~= before.map_values(fv).push(e@));
                assert(prev.push(es[i as int]).map_values(f) =~= prev.map_values(f).push(f(es[i as int])));
            }
        }
        i = i + 1;
    }
    proof {
        assert(es.take(i as int) =~= es);
    }
}

/// The call-graph node of node `id`.
fn function_node(g: &CodeGraph, id: u64, root: u64, root_uri: &str, files: &Vec<(u64, String)>) -> (r: Option<
    FunctionNode,
>)
    requires
        g.wf(),
    ensures
        r is Some <==> g.has_node(id),
        r matches Some(n) ==> n@ == function_node_of(*g, id, root, root_uri@, files@),
{
    match g.get_node(id) {
        Some(n) => {
            let uri = if id == root {
                owned(root_uri)
            } else {
                node_uri(&n.props, id, files)
            };
            Some(
                FunctionNode {
                    id: decimal_string(id),
                    name: string_or_empty(&n.props.name),
                    signature: string_or_empty(&n.props.signature),
                    uri,
                    range: node_to_range(&n.props),
                    language: string_or(&n.props.language, "unknown"),
                },
            )
        },
        None => None,
    }
}

/// `r` is the call graph over the node ids `ids` rooted at `root`.
pub open spec fn call_response_ok(
    g: CodeGraph,
    ids: Seq<u64>,
    root: u64,
    root_uri: Seq<char>,
    direction: Seq<char>,
    files: Seq<(u64, String)>,
    r: CallGraphResponse,
) -> bool {
    &&& r.nodes@.map_values(|n: FunctionNode| n@) == ids.map_values(
        |id: u64| function_node_of(g, id, root, root_uri, files),
    )
    &&& r.edges@.map_values(|e: CallEdge| e@) == all_call_edges(g, ids, direction)
    &&& match r.root {
        Some(n) => ids.len() > 0 && n@ == function_node_of(g, root, root, root_uri, files),
        None => ids.len() == 0,
    }
}

/// The node ids of a walk along call edges from `root` within `depth` steps,
/// towards callees unless `direction` is `callers`, towards callers unless it
/// is `callees`; every node of the graph takes part.
pub open spec fn call_ids_for(g: CodeGraph, root: u64, depth: nat, direction: Seq<char>, ids: Seq<u64>) -> bool {
    dep_ids_ok(g, root, depth, EdgeType::Calls, true, direction != "callers"@, direction != "callees"@, ids)
}

/// `r` is the call graph from `root`: over the node ids that a walk along
/// call edges from `root` yields.
pub open spec fn call_graph_from(
    g: CodeGraph,
    root: u64,
    root_uri: Seq<char>,
    depth: nat,
    direction: Seq<char>,
    files: Seq<(u64, String)>,
    r: CallGraphResponse,
) -> bool {
    exists|ids: Seq<u64>|
        #[trigger] call_ids_for(g, root, depth, direction, ids) && call_response_ok(
            g,
            ids,
            root,
            root_uri,
            direction,
            files,
            r,
        )
}

/// `r` is the call graph around `target`: empty where there is none.
pub open spec fn call_graph_response_fits(
    g: CodeGraph,
    target: Option<u64>,
    uri: Seq<char>,
    depth: nat,
    direction: Seq<char>,
    files: Seq<(u64, String)>,
    r: CallGraphResponse,
) -> bool {
    match target {
        None => r.root is None && r.nodes@.len() == 0 && r.edges@.len() == 0,
        Some(t) => call_graph_from(g, t, uri, depth, direction, files, r),
    }
}

/// The call graph around the function `target` (found at the requested
/// position, whose document is `uri`): a breadth-first walk along call edges
/// up to `depth` steps (default 3), towards callees unless `direction` is
/// `callers`, towards callers unless it is `callees` (default both); every
/// node reached, and every call edge of each in turn. Empty when there is no
/// target.
pub fn handle_get_call_graph(
    g: &CodeGraph,
    target: Option<u64>,
    uri: &str,
    direction: Option<&str>,
    depth: Option<usize>,
    files: &Vec<(u64, String)>,
) -> (r: CallGraphResponse)
    requires
        g.wf(),
    ensures
        call_graph_response_fits(
            *g,
            target,
            uri@,
            match depth { Some(x) => x as nat, None => 3 },
            match direction { Some(s) => s@, None => "both"@ },
            files@,
            r,
        ),
{
    let start = match target {
        Some(t) => t,
        None => {
            return CallGraphResponse { root: None, nodes: Vec::new(), edges: Vec::new() };
        },
    };
    let d = match depth {
        Some(x) => x,
        None => 3,
    };
    let dir: &str = match direction {
        Some(s) => s,
        None => "both",
    };
    let out = !str_eq(dir, "callers");
    let inc = !str_eq(dir, "callees");
    let ids = dependency_node_ids(g, start, d, EdgeType::Calls, true, out, inc);
    let ghost fnv = |n: FunctionNode| n@;
    let ghost fid = |id: u64| function_node_of(*g, id, start, uri@, files@);
    let ghost fe = |e: CallEdge| e@;
    let mut nodes: Vec<FunctionNode> = Vec::new();
    let mut edges: Vec<CallEdge> = Vec::new();
    let mut root: Option<FunctionNode> = None;
    let mut i: usize = 0;
    while i < ids.len()
        invariant
            g.wf(),
            i <= ids@.len(),
            dep_ids_ok(*g, start, d as nat, EdgeType::Calls, true, out, inc, ids@),
            fnv == (|n: FunctionNode| n@),
            fid == (|id: u64| function_node_of(*g, id, start, uri@, files@)),
            fe == (|e: CallEdge| e@),
            nodes@.map_values(fnv) == ids@.take(i as int).map_values(fid),
            edges@.map_values(fe) == all_call_edges(*g, ids@.take(i as int), dir@),
        decreases ids@.len() - i,
    {
        let id = ids[i];
        proof {
            if i >= 1 {
                assert(dep_kept(*g, true, ids@[i as int]));
            }
            assert(ids@.take(i + 1).drop_last() =~= ids@.take(i as int));
            assert(ids@.take(i + 1).last() == id);
        }
        match function_node(g, id, start, uri, files) {
            Some(n) => {
                let ghost before = nodes@;
                let ghost nv = n@;
                nodes.push(n);
                proof {
                    assert(nodes@.map_values(fnv) =~= before.map_values(fnv).push(nv));
                    assert(ids@.take(i + 1).map_values(fid) =~= ids@.take(i as int).map_values(fid).push(fid(id)));
                }
            },
            None => {},
        }
        call_edges(g, id, dir, &mut edges);
        i = i + 1;
    }
    proof {
        assert(ids@.take(i as int) =~= ids@);
    }
    if ids.len() > 0 {
        root = function_node(g, start, start, uri, files);
    }
    let r = CallGraphResponse { root, nodes, edges };
    proof {
        assert(call_response_ok(*g, ids@, start, uri@, dir@, files@, r));
        assert(call_ids_for(*g, start, d as nat, dir@, ids@));
    }
    r
}

/// The call graph request: the document `uri` is resolved to a file, the
/// function at the 0-based position is looked up among the symbols that
/// `file_symbols` holds for that file, and its call graph is built as
/// `handle_get_call_graph` does. `InvalidUri` exactly when `uri` is no URL.
pub fn call_graph_at(
    g: &CodeGraph,
    uri: &str,
    line: u32,
    character: u32,
    direction: Option<&str>,
    depth: Option<usize>,
    file_symbols: &Vec<(String, Vec<u64>)>,
    files: &Vec<(u64, String)>,
) -> (r: Result<CallGraphResponse, UriError>)
    requires
        g.wf(),
        line < u32::MAX,
    ensures
        (r matches Err(e) && e == UriError::InvalidUri) <==> !url_parses(uri@),
        r matches Ok(resp) ==> exists|path: Seq<char>|
            call_graph_response_fits(
                *g,
                first_covering(*g, #[trigger] symbols_for(file_symbols@, path), line + 1, character as int),
                uri@,
                match depth { Some(x) => x as nat, None => 3 },
                match direction { Some(s) => s@, None => "both"@ },
                files@,
                resp,
            ),
{
    let path = match file_path_of_uri(uri) {
        Ok(p) => p,
        Err(e) => {
            return Err(e);
        },
    };
    let symbols = symbols_of_file(file_symbols, path.as_str());
    let target = find_node_at_position(g, None, &symbols, line, character);
    let resp = handle_get_call_graph(g, target, uri, direction, depth, files);
    assert(call_graph_response_fits(
        *g,
        first_covering(*g, symbols_for(file_symbols@, path@), line + 1, character as int),
        uri@,
        match depth { Some(x) => x as nat, None => 3 },
        match direction { Some(s) => s@, None => "both"@ },
        files@,
        resp,
    ));
    Ok(resp)
}

/// A test related to a symbol.
#[derive(Clone, Debug)]
pub struct RelatedTest {
    pub uri: String,
    pub test_name: String,
    pub relationship: String,
    pub range: LspRange,
}

/// The tests related to a symbol.
#[derive(Clone, Debug)]
pub struct RelatedTestsResponse {
    pub tests: Vec<RelatedTest>,
    pub truncated: Option<bool>,
}

/// Mathematical view of a related test.
pub struct RelatedTestV {
    pub uri: Seq<char>,
    pub test_name: Seq<char>,
    pub relationship: Seq<char>,
    pub range: LspRange,
}

impl View for RelatedTest {
    type V = RelatedTestV;

    open spec fn view(&self) -> RelatedTestV {
        RelatedTestV { uri: self.uri@, test_name: self.test_name@, relationship: self.relationship@, range: self.range }
    }
}

/// A node looks like a test when its name starts with `test_`, ends with
/// `_test` or holds `test `, or its path holds a `test` or `tests`
/// directory (with either separator); and only then.
pub proof fn lemma_test_like(p: NodeProps)
    ensures
        is_test_props(p) <==> (seq_starts_with(str_or_empty(p.name), "test_"@) || seq_ends_with(
            str_or_empty(p.name),
            "_test"@,
        ) || seq_contains(str_or_empty(p.name), "test "@) || seq_contains(str_or_empty(p.path), "/test"@)
            || seq_contains(str_or_empty(p.path), "/tests"@) || seq_contains(str_or_empty(p.path), "\\test"@)
            || seq_contains(str_or_empty(p.path), "\\tests"@)),
{
}

/// How a test relates to the symbol through an edge of type `t`.
pub open spec fn relationship_of(t: EdgeType) -> Seq<char> {
    match t {
        EdgeType::Calls => "calls_target"@,
        EdgeType::References => "references_target"@,
        _ => "related"@,
    }
}

/// The related test reported for node `id`.
pub open spec fn test_of(g: CodeGraph, id: u64, relationship: Seq<char>, files: Seq<(u64, String)>) -> RelatedTestV {
    let p = g.node(id).props;
    RelatedTestV { uri: uri_of(p, id, files), test_name: str_or_empty(p.name), relationship, range: node_range_of(p) }
}

/// The sources of some edges.
pub open spec fn sources(es: Seq<GraphEdge>) -> Seq<u64> {
    es.map_values(|e: GraphEdge| e.source)
}

/// The edges whose source is a test node, keeping the first edge of each
/// source.
pub open spec fn direct_candidates(g: CodeGraph, es: Seq<GraphEdge>) -> Seq<GraphEdge>
    decreases es.len(),
{
    if es.len() == 0 {
        seq![]
    } else {
        let rest = direct_candidates(g, es.drop_last());
        let e = es.last();
        if g.has_node(e.source) && is_test_props(g.node(e.source).props) && !sources(es.drop_last()).contains(
            e.source,
        ) {
            rest.push(e)
        } else {
            rest
        }
    }
}

/// The candidates of a prefix are a prefix of the candidates.
pub proof fn lemma_candidates_prefix(g: CodeGraph, es: Seq<GraphEdge>, j: int)
    requires
        0 <= j <= es.len(),
    ensures
        direct_candidates(g, es.take(j)).len() <= direct_candidates(g, es).len(),
        direct_candidates(g, es).take(direct_candidates(g, es.take(j)).len() as int) == direct_candidates(g, es.take(j)),
    decreases es.len() - j,
{
    if j < es.len() {
        lemma_candidates_prefix(g, es, j + 1);
        let a = direct_candidates(g, es.take(j));
        let b = direct_candidates(g, es.take(j + 1));
        assert(es.take(j + 1).drop_last() =~= es.take(j));
        let h = direct_candidates(g, es);
        assert(b == a || b == a.push(b.last()));
        assert(h.take(a.len() as int) =~= b.take(a.len() as int));
    } else {
        assert(es.take(j) =~= es);
    }
}

/// The test siblings of a symbol: the nodes of its file other than itself
/// and the tests already found, that are test nodes.
pub open spec fn sibling_candidates(g: CodeGraph, siblings: Seq<u64>, node: u64, taken: Seq<u64>) -> Seq<u64> {
    siblings.filter(|s: u64| sibling_ok(g, node, taken, s))
}

/// A sibling counts as a test of the symbol.
pub open spec fn sibling_ok(g: CodeGraph, node: u64, taken: Seq<u64>, s: u64) -> bool {
    s != node && !taken.contains(s) && g.has_node(s) && is_test_props(g.node(s).props)
}

/// The tests related to the symbol `node` of the file at `path`: first the
/// test nodes with an edge into it (the first edge of each), then, while
/// fewer than `limit` (default 10) were found, the other test nodes of the
/// same file; at most `limit` in all (at least one when a test is found),
/// flagged as truncated when the limit was reached.
pub open spec fn related_tests_of(
    g: CodeGraph,
    node: u64,
    path: Seq<char>,
    limit: nat,
    files: Seq<(u64, String)>,
) -> (Seq<RelatedTestV>, Option<bool>) {
    let keep: int = if limit == 0 { 1 } else { limit as int };
    let all1 = direct_candidates(g, incoming_of(g.edges@, node));
    let first = if all1.len() <= keep { all1 } else { all1.take(keep) };
    let tests1 = first.map_values(|e: GraphEdge| test_of(g, e.source, relationship_of(e.edge_type), files));
    let tests2: Seq<RelatedTestV> = if first.len() < limit {
        let c = sibling_candidates(g, nodes_with_path(g.nodes@, path), node, sources(first));
        let room = limit - first.len();
        let picked = if c.len() <= room { c } else { c.take(room) };
        picked.map_values(|s: u64| test_of(g, s, "same_file"@, files))
    } else {
        seq![]
    };
    let tests = tests1 + tests2;
    (tests, if tests.len() >= limit { Some(true) } else { None })
}

/// The related test of node `id`.
fn related_test(g: &CodeGraph, id: u64, relationship: &str, files: &Vec<(u64, String)>) -> (r: RelatedTest)
    requires
        g.wf(),
        g.has_node(id),
    ensures
        r@ == test_of(*g, id, relationship@, files@),
{
    match g.get_node(id) {
        Some(n) => RelatedTest {
            uri: node_uri(&n.props, id, files),
            test_name: string_or_empty(&n.props.name),
            relationship: owned(relationship),
            range: node_to_range(&n.props),
        },
        None => {
            proof {
                assert(false);
            }
            RelatedTest { uri: String::new(), test_name: String::new(), relationship: String::new(), range: LspRange { start_line: 0, start_character: 0, end_line: 0, end_character: 0 } }
        },
    }
}

/// Whether a node is a test node of the graph.
fn node_is_test(g: &CodeGraph, id: u64) -> (r: bool)
    requires
        g.wf(),
    ensures
        r == (g.has_node(id) && is_test_props(g.node(id).props)),
{
    match g.get_node(id) {
        Some(n) => is_test_node(&n.props),
        None => false,
    }
}

/// The relationship label of an edge type.
fn relationship(t: EdgeType) -> (r: String)
    ensures
        r@ == relationship_of(t),
{
    match t {
        EdgeType::Calls => owned("calls_target"),
        EdgeType::References => owned("references_target"),
        _ => owned("related"),
    }
}

/// `r` lists the tests related to `target`: none where there is no target.
pub open spec fn related_tests_fits(
    g: CodeGraph,
    target: Option<u64>,
    path: Seq<char>,
    limit: nat,
    files: Seq<(u64, String)>,
    r: RelatedTestsResponse,
) -> bool {
    match target {
        None => r.tests@.len() == 0 && r.truncated is None,
        Some(node) => {
            let expected = related_tests_of(g, node, path, limit, files);
            &&& r.tests@.map_values(|t: RelatedTest| t@) == expected.0
            &&& r.truncated == expected.1
        },
    }
}

/// The tests related to the symbol `target` (found at the requested
/// position) of the file at `path`; nothing when there is no target.
pub fn handle_find_related_tests(
    g: &CodeGraph,
    target: Option<u64>,
    path: &str,
    limit: Option<usize>,
    files: &Vec<(u64, String)>,
) -> (r: RelatedTestsResponse)
    requires
        g.wf(),
    ensures
        related_tests_fits(*g, target, path@, match limit { Some(l) => l as nat, None => 10 }, files@, r),
{
    let node = match target {
        Some(t) => t,
        None => {
            return RelatedTestsResponse { tests: Vec::new(), truncated: None };
        },
    };
    let lim = match limit {
        Some(l) => l,
        None => 10,
    };
    let keep: usize = if lim == 0 { 1 } else { lim };
    let ghost fv = |t: RelatedTest| t@;
    let ghost ft = |e: GraphEdge| test_of(*g, e.source, relationship_of(e.edge_type), files@);
    let ghost es = incoming_of(g.edges@, node);
    let incoming = get_incoming_edges(g, node);
    let mut tests: Vec<RelatedTest> = Vec::new();
    let mut seen: Vec<u64> = Vec::new();
    let ghost mut picked: Seq<GraphEdge> = seq![];
    let mut i: usize = 0;
    while i < incoming.len() && tests.len() < keep
        invariant
            g.wf(),
            i <= incoming@.len(),
            incoming@ == es.map_values(|e: GraphEdge| edge_triple(e)),
            es == incoming_of(g.edges@, node),
            fv == (|t: RelatedTest| t@),
            ft == (|e: GraphEdge| test_of(*g, e.source, relationship_of(e.edge_type), files@)),
            picked == direct_candidates(*g, es.take(i as int)),
            picked.len() <= keep,
            keep == (if lim == 0 { 1 } else { lim }),
            tests@.map_values(fv) == picked.map_values(ft),
            seen@ == sources(picked),
            forall|x: u64| g.has_node(x) && is_test_props(g.node(x).props) ==> (sources(es.take(i as int)).contains(x) <==> seen@.contains(x)),
        decreases incoming@.len() - i,
    {
        let (src, _, et) = incoming[i];
        proof {
            assert(incoming@[i as int] == edge_triple(es[i as int]));
            assert(es.take(i + 1).drop_last() =~= es.take(i as int));
            assert(es.take(i + 1).last() == es[i as int]);
            assert(sources(es.take(i + 1)) =~= sources(es.take(i as int)).push(src));
        }
        let ghost seen0 = seen@;
        if node_is_test(g, src) && !crate::graph::vec_contains_u64(&seen, src) {
            let t = related_test(g, src, relationship(et).as_str(), files);
            let ghost before = tests@;
            tests.push(t);
            seen.push(src);
            proof {
                let e = es[i as int];
                picked = picked.push(e);
                assert(tests@.map_values(fv) =~= before.map_values(fv).push(t@));
                assert(seen@ =~= sources(picked));
            }
        }
        proof {
            assert forall|x: u64| g.has_node(x) && is_test_props(g.node(x).props) implies (sources(es.take(i + 1)).contains(x)
                <==> seen@.contains(x)) by {
                crate::reach::lemma_push_contains(sources(es.take(i as int)), src, x);
                crate::reach::lemma_push_contains(seen0, src, x);
            }
        }
        i = i + 1;
    }
    proof {
        lemma_candidates_prefix(*g, es, i as int);
        let all1 = direct_candidates(*g, es);
        let kk: int = if lim == 0 { 1 } else { lim as int };
        assert(tests@.len() == picked.len());
        if picked.len() < kk {
            assert(i == incoming@.len());
            assert(es.take(i as int) =~= es);
            assert(picked == all1);
        } else {
            assert(picked.len() == kk);
            if all1.len() == kk {
                assert(all1.take(kk) =~= all1);
            }
        }
        let fst = if all1.len() <= kk { all1 } else { all1.take(kk) };
        assert(fst == picked);
    }
    let ghost first = picked;
    let n1 = tests.len();
    if tests.len() < lim {
        let siblings = query_by_path(g, path);
        let ghost sib_pred = |s: u64| sibling_ok(*g, node, sources(first), s);
        let ghost fs = |s: u64| test_of(*g, s, "same_file"@, files@);
        let ghost t1 = tests@.map_values(fv);
        let mut j: usize = 0;
        while j < siblings.len() && tests.len() < lim
            invariant
                g.wf(),
                j <= siblings@.len(),
                fv == (|t: RelatedTest| t@),
                sib_pred == (|s: u64| sibling_ok(*g, node, sources(first), s)),
                fs == (|s: u64| test_of(*g, s, "same_file"@, files@)),
                seen@ == sources(first),
                tests@.len() >= n1,
                tests@.len() <= lim,
                tests@.map_values(fv) == t1 + siblings@.take(j as int).filter(sib_pred).map_values(fs),
                t1.len() == n1,
            decreases siblings@.len() - j,
        {
            let sib = siblings[j];
            proof {
                assert(siblings@.take(j + 1).drop_last() =~= siblings@.take(j as int));
                assert(siblings@.take(j + 1).last() == sib);
                reveal(Seq::filter);
            }
            let ghost prev = siblings@.take(j as int).filter(sib_pred);
            if sib != node && !crate::graph::vec_contains_u64(&seen, sib) && node_is_test(g, sib) {
                let t = related_test(g, sib, "same_file", files);
                let ghost before = tests@;
                tests.push(t);
                proof {
                    assert(tests@.map_values(fv) =~= before.map_values(fv).push(t@));
                    assert(prev.push(sib).map_values(fs) =~= prev.map_values(fs).push(fs(sib)));
                }
            }
            j = j + 1;
        }
        proof {
            let c = sibling_candidates(*g, siblings@, node, sources(first));
            assert(c == siblings@.filter(sib_pred));
            lemma_filter_prefix(siblings@, sib_pred, j as int);
            let got = siblings@.take(j as int).filter(sib_pred);
            let room = lim - n1;
            assert(tests@.len() == n1 + got.len());
            if tests@.len() < lim {
                assert(j == siblings@.len());
                assert(siblings@.take(j as int) =~= siblings@);
                assert(got == c);
            } else {
                assert(got.len() == room);
                if c.len() == room {
                    assert(c.take(room as int) =~= c);
                }
            }
            let picked2 = if c.len() <= room { c } else { c.take(room as int) };
            assert(picked2 == got);
        }
    }
    let truncated = if tests.len() >= lim {
        Some(true)
    } else {
        None
    };
    proof {
        let expected = related_tests_of(*g, node, path@, lim as nat, files@);
        let all1 = direct_candidates(*g, es);
        let kk: int = if lim == 0 { 1 } else { lim as int };
        let fst = if all1.len() <= kk { all1 } else { all1.take(kk) };
        assert(fst == first);
    }
    RelatedTestsResponse { tests, truncated }
}

/// The related tests request: the document `uri` is resolved to a file, the
/// symbol at the 0-based position is looked up among the symbols that
/// `file_symbols` holds for that file, and its tests are found as
/// `handle_find_related_tests` does. `InvalidUri` exactly when `uri` is no URL.
pub fn related_tests_at(
    g: &CodeGraph,
    uri: &str,
    line: u32,
    character: u32,
    limit: Option<usize>,
    file_symbols: &Vec<(String, Vec<u64>)>,
    files: &Vec<(u64, String)>,
) -> (r: Result<RelatedTestsResponse, UriError>)
    requires
        g.wf(),
        line < u32::MAX,
    ensures
        (r matches Err(e) && e == UriError::InvalidUri) <==> !url_parses(uri@),
        r matches Ok(resp) ==> exists|path: Seq<char>|
            related_tests_fits(
                *g,
                first_covering(*g, #[trigger] symbols_for(file_symbols@, path), line + 1, character as int),
                path,
                match limit { Some(l) => l as nat, None => 10 },
                files@,
                resp,
            ),
{
    let path = match file_path_of_uri(uri) {
        Ok(p) => p,
        Err(e) => {
            return Err(e);
        },
    };
    let symbols = symbols_of_file(file_symbols, path.as_str());
    let target = find_node_at_position(g, None, &symbols, line, character);
    let resp = handle_find_related_tests(g, target, path.as_str(), limit, files);
    assert(related_tests_fits(
        *g,
        first_covering(*g, symbols_for(file_symbols@, path@), line + 1, character as int),
        path@,
        match limit { Some(l) => l as nat, None => 10 },
        files@,
        resp,
    ));
    Ok(resp)
}

/// Filtering a prefix gives a prefix of the filter.
pub proof fn lemma_filter_prefix<A>(s: Seq<A>, p: spec_fn(A) -> bool, j: int)
    requires
        0 <= j <= s.len(),
    ensures
        s.take(j).filter(p).len() <= s.filter(p).len(),
        s.filter(p).take(s.take(j).filter(p).len() as int) == s.take(j).filter(p),
    decreases s.len() - j,
{
    reveal(Seq::filter);
    if j < s.len() {
        lemma_filter_prefix(s, p, j + 1);
        assert(s.take(j + 1).drop_last() =~= s.take(j));
        let a = s.take(j).filter(p);
        let b = s.take(j + 1).filter(p);
        let h = s.filter(p);
        assert(h.take(a.len() as int) =~= b.take(a.len() as int));
    } else {
        assert(s.take(j) =~= s);
    }
}

/// The nodes whose tests are reported for the symbol `node`: the sources of
/// the direct candidates kept, then the same-file tests picked.
pub open spec fn related_test_ids(g: CodeGraph, node: u64, path: Seq<char>, limit: nat) -> Seq<u64> {
    let keep: int = if limit == 0 { 1 } else { limit as int };
    let all1 = direct_candidates(g, incoming_of(g.edges@, node));
    let first = if all1.len() <= keep { all1 } else { all1.take(keep) };
    let second: Seq<u64> = if first.len() < limit {
        let c = sibling_candidates(g, nodes_with_path(g.nodes@, path), node, sources(first));
        let room = limit - first.len();
        if c.len() <= room { c } else { c.take(room) }
    } else {
        seq![]
    };
    sources(first) + second
}

/// The direct candidates have distinct test sources, each a source of the
/// edges given.
proof fn lemma_direct_candidates(g: CodeGraph, es: Seq<GraphEdge>)
    ensures
        sources(direct_candidates(g, es)).no_duplicates(),
        forall|k: int|
            0 <= k < direct_candidates(g, es).len() ==> g.has_node((#[trigger] direct_candidates(g, es)[k]).source)
                && is_test_props(g.node(direct_candidates(g, es)[k].source).props) && sources(es).contains(
                direct_candidates(g, es)[k].source,
            ),
    decreases es.len(),
{
    if es.len() > 0 {
        let d = es.drop_last();
        lemma_direct_candidates(g, d);
        let rest = direct_candidates(g, d);
        let dc = direct_candidates(g, es);
        let e = es.last();
        assert forall|k: int| 0 <= k < rest.len() implies sources(es).contains(#[trigger] rest[k].source) by {
            let j = choose|j: int| 0 <= j < sources(d).len() && sources(d)[j] == rest[k].source;
            assert(sources(es)[j] == sources(d)[j]);
        }
        if g.has_node(e.source) && is_test_props(g.node(e.source).props) && !sources(d).contains(e.source) {
            assert(sources(es)[es.len() - 1] == e.source);
            assert(sources(dc) =~= sources(rest).push(e.source));
            assert forall|a: int, b: int| 0 <= a < b < sources(dc).len() implies sources(dc)[a] != sources(dc)[b] by {
                if b == rest.len() {
                    assert(sources(d).contains(rest[a].source));
                } else {
                    assert(sources(rest)[a] == sources(dc)[a] && sources(rest)[b] == sources(dc)[b]);
                }
            }
            assert forall|k: int| 0 <= k < dc.len() implies g.has_node((#[trigger] dc[k]).source) && is_test_props(
                g.node(dc[k].source).props,
            ) && sources(es).contains(dc[k].source) by {
                if k < rest.len() {
                    assert(dc[k] == rest[k]);
                }
            }
        }
    }
}

/// The ids of the nodes with a path increase with the nodes' ids.
proof fn lemma_path_nodes_increase(nodes: Seq<GraphNode>, path: Seq<char>)
    requires
        forall|a: int, b: int| 0 <= a < b < nodes.len() ==> (#[trigger] nodes[a]).id < (#[trigger] nodes[b]).id,
    ensures
        nodes_with_path(nodes, path).no_duplicates(),
        forall|k: int|
            0 <= k < nodes_with_path(nodes, path).len() ==> exists|i: int|
                0 <= i < nodes.len() && (#[trigger] nodes[i]).id == #[trigger] nodes_with_path(nodes, path)[k],
    decreases nodes.len(),
{
    if nodes.len() > 0 {
        let d = nodes.drop_last();
        assert forall|a: int, b: int| 0 <= a < b < d.len() implies (#[trigger] d[a]).id < (#[trigger] d[b]).id by {
            assert(d[a] == nodes[a] && d[b] == nodes[b]);
        }
        lemma_path_nodes_increase(d, path);
        let rest = nodes_with_path(d, path);
        let w = nodes_with_path(nodes, path);
        let last = nodes[nodes.len() - 1];
        assert forall|k: int| 0 <= k < rest.len() implies rest[k] < last.id by {
            let i = choose|i: int| 0 <= i < d.len() && (#[trigger] d[i]).id == #[trigger] rest[k];
            assert(nodes[i] == d[i]);
        }
        assert forall|k: int| 0 <= k < w.len() implies exists|i: int| 0 <= i < nodes.len() && (#[trigger] nodes[i]).id
            == #[trigger] w[k] by {
            if k < rest.len() {
                assert(w[k] == rest[k]);
                let i = choose|i: int| 0 <= i < d.len() && (#[trigger] d[i]).id == #[trigger] rest[k];
                assert(nodes[i] == d[i]);
            } else {
                assert(w[k] == last.id);
            }
        }
        assert forall|a: int, b: int| 0 <= a < b < w.len() implies w[a] != w[b] by {
            if b < rest.len() {
                assert(w[a] == rest[a] && w[b] == rest[b]);
            } else {
                assert(w[a] == rest[a]);
            }
        }
    }
}

/// Filtering keeps a sequence free of repeats, and keeps only what holds.
proof fn lemma_filter_no_dup(s: Seq<u64>, p: spec_fn(u64) -> bool)
    requires
        s.no_duplicates(),
    ensures
        s.filter(p).no_duplicates(),
        forall|k: int| 0 <= k < s.filter(p).len() ==> p(#[trigger] s.filter(p)[k]) && s.contains(s.filter(p)[k]),
    decreases s.len(),
{
    reveal(Seq::filter);
    if s.len() > 0 {
        let d = s.drop_last();
        assert(d.no_duplicates()) by {
            assert forall|a: int, b: int| 0 <= a < b < d.len() implies d[a] != d[b] by {
                assert(d[a] == s[a] && d[b] == s[b]);
            }
        }
        lemma_filter_no_dup(d, p);
        let f = s.filter(p);
        let fd = d.filter(p);
        assert forall|k: int| 0 <= k < fd.len() implies s.contains(#[trigger] fd[k]) by {
            let j = choose|j: int| 0 <= j < d.len() && d[j] == fd[k];
            assert(s[j] == d[j]);
        }
        if p(s.last()) {
            assert(f == fd.push(s.last()));
            assert forall|a: int, b: int| 0 <= a < b < f.len() implies f[a] != f[b] by {
                if b == fd.len() {
                    let j = choose|j: int| 0 <= j < d.len() && d[j] == fd[a];
                    assert(s[j] == d[j]);
                    assert(j != s.len() - 1);
                } else {
                    assert(f[a] == fd[a] && f[b] == fd[b]);
                }
            }
            assert forall|k: int| 0 <= k < f.len() implies p(#[trigger] f[k]) && s.contains(f[k]) by {
                if k < fd.len() {
                    assert(f[k] == fd[k]);
                } else {
                    assert(s[s.len() - 1] == f[k]);
                }
            }
        } else {
            assert(f == fd);
        }
    }
}

/// How each related test is related to the symbol: those found through an
/// edge into it come first, each called `calls_target` for a call,
/// `references_target` for a reference and `related` for any other edge,
/// under the name of the edge's source; every later one is `same_file`.
pub proof fn lemma_related_test_relationships(
    g: CodeGraph,
    node: u64,
    path: Seq<char>,
    limit: nat,
    files: Seq<(u64, String)>,
)
    ensures
        ({
            let tests = related_tests_of(g, node, path, limit, files).0;
            let edges = direct_candidates(g, incoming_of(g.edges@, node));
            let keep: int = if limit == 0 { 1 } else { limit as int };
            let n: int = if edges.len() <= keep { edges.len() as int } else { keep };
            &&& n <= tests.len()
            &&& forall|k: int|
                0 <= k < n ==> {
                    &&& (edges[k].edge_type == EdgeType::Calls ==> (#[trigger] tests[k]).relationship
                        == "calls_target"@)
                    &&& (edges[k].edge_type == EdgeType::References ==> tests[k].relationship
                        == "references_target"@)
                    &&& (edges[k].edge_type != EdgeType::Calls && edges[k].edge_type != EdgeType::References
                        ==> tests[k].relationship == "related"@)
                    &&& tests[k].test_name == str_or_empty(g.node(edges[k].source).props.name)
                }
            &&& forall|k: int| n <= k < tests.len() ==> (#[trigger] tests[k]).relationship == "same_file"@
        }),
{
    let tests = related_tests_of(g, node, path, limit, files).0;
    let all1 = direct_candidates(g, incoming_of(g.edges@, node));
    let keep: int = if limit == 0 { 1 } else { limit as int };
    let first = if all1.len() <= keep { all1 } else { all1.take(keep) };
    let tests1 = first.map_values(|e: GraphEdge| test_of(g, e.source, relationship_of(e.edge_type), files));
    let tests2: Seq<RelatedTestV> = if first.len() < limit {
        let c = sibling_candidates(g, nodes_with_path(g.nodes@, path), node, sources(first));
        let room = limit - first.len();
        let picked = if c.len() <= room { c } else { c.take(room) };
        picked.map_values(|s: u64| test_of(g, s, "same_file"@, files))
    } else {
        seq![]
    };
    assert(tests == tests1 + tests2);
    assert forall|k: int| 0 <= k < first.len() implies tests[k] == tests1[k] && first[k] == all1[k] by {}
    assert forall|k: int| first.len() <= k < tests.len() implies (#[trigger] tests[k]).relationship
        == "same_file"@ by {
        assert(tests[k] == tests2[k - first.len()]);
    }
}

/// The related tests of a symbol, with a limit of at least one, number at
/// most the limit and are flagged as truncated exactly when they reach it;
/// they are the tests of distinct test nodes, in turn, each reported with
/// one of the four relationships.
pub proof fn lemma_related_tests_shape(g: CodeGraph, node: u64, path: Seq<char>, limit: nat, files: Seq<(u64, String)>)
    requires
        g.wf(),
        limit >= 1,
    ensures
        ({
            let (tests, truncated) = related_tests_of(g, node, path, limit, files);
            let ids = related_test_ids(g, node, path, limit);
            &&& tests.len() <= limit
            &&& (truncated == Some(true) <==> tests.len() >= limit)
            &&& (truncated is None <==> tests.len() < limit)
            &&& ids.len() == tests.len()
            &&& ids.no_duplicates()
            &&& forall|k: int|
                0 <= k < ids.len() ==> g.has_node(#[trigger] ids[k]) && is_test_props(g.node(ids[k]).props)
                    && tests[k].test_name == str_or_empty(g.node(ids[k]).props.name)
            &&& forall|k: int|
                0 <= k < tests.len() ==> {
                    let rel = (#[trigger] tests[k]).relationship;
                    rel == "calls_target"@ || rel == "references_target"@ || rel == "related"@ || rel == "same_file"@
                }
        }),
{
    let keep: int = limit as int;
    let es = incoming_of(g.edges@, node);
    let all1 = direct_candidates(g, es);
    lemma_direct_candidates(g, es);
    let first = if all1.len() <= keep { all1 } else { all1.take(keep) };
    assert forall|k: int| 0 <= k < first.len() implies first[k] == all1[k] by {}
    let sf = sources(first);
    assert(sf.no_duplicates()) by {
        assert forall|a: int, b: int| 0 <= a < b < sf.len() implies sf[a] != sf[b] by {
            assert(sf[a] == sources(all1)[a] && sf[b] == sources(all1)[b]);
        }
    }
    let (tests, truncated) = related_tests_of(g, node, path, limit, files);
    let ids = related_test_ids(g, node, path, limit);
    let tests1 = first.map_values(|e: GraphEdge| test_of(g, e.source, relationship_of(e.edge_type), files));
    if first.len() < limit {
        let siblings = nodes_with_path(g.nodes@, path);
        lemma_path_nodes_increase(g.nodes@, path);
        let pr = |s: u64| sibling_ok(g, node, sf, s);
        let c = sibling_candidates(g, siblings, node, sf);
        lemma_filter_no_dup(siblings, pr);
        let room = limit - first.len();
        let picked = if c.len() <= room { c } else { c.take(room) };
        assert forall|k: int| 0 <= k < picked.len() implies picked[k] == c[k] by {}
        let tests2 = picked.map_values(|s: u64| test_of(g, s, "same_file"@, files));
        assert(tests == tests1 + tests2);
        assert(ids == sf + picked);
        assert forall|a: int, b: int| 0 <= a < b < ids.len() implies ids[a] != ids[b] by {
            if b < sf.len() {
            } else if a >= sf.len() {
                assert(ids[a] == c[a - sf.len()] && ids[b] == c[b - sf.len()]);
            } else {
                assert(pr(c[b - sf.len()]));
                assert(sf.contains(sf[a]));
            }
        }
        assert forall|k: int| 0 <= k < ids.len() implies g.has_node(#[trigger] ids[k]) && is_test_props(g.node(ids[k]).props)
            && tests[k].test_name == str_or_empty(g.node(ids[k]).props.name) by {
            if k < sf.len() {
                assert(first[k] == all1[k]);
                assert(tests[k] == tests1[k]);
            } else {
                assert(pr(c[k - sf.len()]));
                assert(tests[k] == tests2[k - sf.len()]);
            }
        }
        assert forall|k: int| 0 <= k < tests.len() implies {
            let rel = (#[trigger] tests[k]).relationship;
            rel == "calls_target"@ || rel == "references_target"@ || rel == "related"@ || rel == "same_file"@
        } by {
            if k < tests1.len() {
                assert(tests[k] == tests1[k]);
            } else {
                assert(tests[k] == tests2[k - tests1.len()]);
            }
        }
    } else {
        assert(tests == tests1 + Seq::<RelatedTestV>::empty());
        assert(tests =~= tests1);
        assert(ids =~= sf);
        assert forall|k: int| 0 <= k < ids.len() implies g.has_node(#[trigger] ids[k]) && is_test_props(g.node(ids[k]).props)
            && tests[k].test_name == str_or_empty(g.node(ids[k]).props.name) by {
            assert(first[k] == all1[k]);
            assert(tests[k] == tests1[k]);
        }
        assert forall|k: int| 0 <= k < tests.len() implies {
            let rel = (#[trigger] tests[k]).relationship;
            rel == "calls_target"@ || rel == "references_target"@ || rel == "related"@ || rel == "same_file"@
        } by {
            assert(tests[k] == tests1[k]);
        }
    }
}

} // verus!
