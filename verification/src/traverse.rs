//! Graph traversal from a start node with a symbol-type filter, and the
//! adjacency of the graph taken in a direction.
use vstd::prelude::*;
use crate::bfs::{bfs_walks, is_bfs, is_walk, found, reached_ok, Reached};
use crate::engine::QueryEngine;
use crate::graph::{CodeGraph, Direction, EdgeType, GraphEdge, NodeType, edge_links, edge_type_name, is_neighbor, select_edges};
use crate::primitives::{SymbolInfoV, SymbolType, TraversalDirection, TraversalFilter, TraversalNode};
use crate::query::{info_of_id, node_symbol_info};
use crate::reach::{succs, within, at_level};

verus! {

/// The edges as `(from, to)` steps when followed in direction `dir`.
pub open spec fn oriented(edges: Seq<GraphEdge>, dir: Direction) -> Seq<(u64, u64)> {
    match dir {
        Direction::Outgoing => edges.map_values(|e: GraphEdge| (e.source, e.target)),
        Direction::Incoming => edges.map_values(|e: GraphEdge| (e.target, e.source)),
        Direction::Both => edges.map_values(|e: GraphEdge| (e.source, e.target)) + edges.map_values(
            |e: GraphEdge| (e.target, e.source),
        ),
    }
}

/// One step of the oriented adjacency is exactly a neighbor link.
pub proof fn lemma_oriented_succs(edges: Seq<GraphEdge>, dir: Direction, x: u64, v: u64)
    ensures
        succs(oriented(edges, dir), x).contains(v) <==> is_neighbor(edges, x, v, dir),
{
    let o = oriented(edges, dir);
    let n = edges.len() as int;
    if succs(o, x).contains(v) {
        let k = choose|k: int| 0 <= k < o.len() && #[trigger] o[k] == (x, v);
        match dir {
            Direction::Both => {
                if k < n {
                    assert(edge_links(edges[k], x, v, dir));
                } else {
                    assert(edge_links(edges[k - n], x, v, dir));
                }
            },
            _ => {
                assert(edge_links(edges[k], x, v, dir));
            },
        }
    }
    if is_neighbor(edges, x, v, dir) {
        let k = choose|k: int| 0 <= k < edges.len() && #[trigger] edge_links(edges[k], x, v, dir);
        match dir {
            Direction::Both => {
                if edges[k].source == x && edges[k].target == v {
                    assert(o[k] == (x, v));
                } else {
                    assert(o[k + n] == (x, v));
                }
            },
            _ => {
                assert(o[k] == (x, v));
            },
        }
    }
}

/// The steps of the graph in direction `dir`.
pub fn oriented_pairs(g: &CodeGraph, dir: Direction) -> (r: Vec<(u64, u64)>)
    ensures
        r@ == oriented(g.edges@, dir),
{
    let mut out: Vec<(u64, u64)> = Vec::new();
    let mut back: Vec<(u64, u64)> = Vec::new();
    let mut i: usize = 0;
    while i < g.edges.len()
        invariant
            i <= g.edges@.len(),
            out@ == g.edges@.take(i as int).map_values(|e: GraphEdge| (e.source, e.target)),
            back@ == g.edges@.take(i as int).map_values(|e: GraphEdge| (e.target, e.source)),
        decreases g.edges@.len() - i,
    {
        let e = g.edges[i];
        out.push((e.source, e.target));
        back.push((e.target, e.source));
        assert(g.edges@.take(i + 1) =~= g.edges@.take(i as int).push(e));
        assert(out@ =~= g.edges@.take(i + 1).map_values(|e: GraphEdge| (e.source, e.target)));
        assert(back@ =~= g.edges@.take(i + 1).map_values(|e: GraphEdge| (e.target, e.source)));
        i = i + 1;
    }
    assert(g.edges@.take(i as int) =~= g.edges@);
    match dir {
        Direction::Outgoing => out,
        Direction::Incoming => back,
        Direction::Both => {
            out.append(&mut back);
            out
        },
    }
}

/// The node type a symbol type stands for.
pub open spec fn symbol_node_type(st: SymbolType) -> NodeType {
    match st {
        SymbolType::Function => NodeType::Function,
        SymbolType::Class => NodeType::Class,
        SymbolType::Variable => NodeType::Variable,
        SymbolType::Module => NodeType::Module,
        SymbolType::Interface => NodeType::Interface,
        SymbolType::Type => NodeType::Type,
    }
}

/// A node type passes a type filter: the filter is empty or names it.
pub open spec fn type_passes(types: Seq<SymbolType>, t: NodeType) -> bool {
    types.len() == 0 || exists|i: int| 0 <= i < types.len() && symbol_node_type(#[trigger] types[i]) == t
}

/// The graph direction of a traversal direction.
pub open spec fn graph_direction(d: TraversalDirection) -> Direction {
    match d {
        TraversalDirection::Outgoing => Direction::Outgoing,
        TraversalDirection::Incoming => Direction::Incoming,
        TraversalDirection::Both => Direction::Both,
    }
}

/// A node is expanded by the traversal: the start node, or a node whose type
/// passes the filter.
pub open spec fn expands(g: CodeGraph, types: Seq<SymbolType>, start: u64, x: u64) -> bool {
    x == start || type_passes(types, g.node(x).node_type)
}

/// The steps the traversal can take: along `dir`, out of expanded nodes only.
pub open spec fn trav_adj(g: CodeGraph, types: Seq<SymbolType>, start: u64, dir: Direction) -> Seq<(u64, u64)> {
    oriented(g.edges@, dir).filter(|p: (u64, u64)| expands(g, types, start, p.0))
}

/// The name of the first edge from `a` to `b`, or the empty string.
pub open spec fn first_edge_name(edges: Seq<GraphEdge>, a: u64, b: u64) -> Seq<char> {
    let s = select_edges(edges, |e: GraphEdge| e.source == a && e.target == b);
    if s.len() > 0 {
        edge_type_name(s[0].edge_type)
    } else {
        seq![]
    }
}

/// Mathematical view of a traversal node.
pub struct TraversalNodeV {
    pub node_id: u64,
    pub depth: u32,
    pub path: Seq<u64>,
    pub edge_type: Seq<char>,
    pub symbol: SymbolInfoV,
}

impl View for TraversalNode {
    type V = TraversalNodeV;

    open spec fn view(&self) -> TraversalNodeV {
        TraversalNodeV {
            node_id: self.node_id,
            depth: self.depth,
            path: self.path@,
            edge_type: self.edge_type@,
            symbol: self.symbol@,
        }
    }
}

/// A reported traversal node is correct: a node other than the start, first
/// reached (along the traversal's steps) after `depth` steps, at most
/// `max_depth`, along the recorded walk; its type passes the filter; it
/// carries its symbol and the name of the first edge of the last step.
pub open spec fn traversal_ok(
    g: CodeGraph,
    types: Seq<SymbolType>,
    start: u64,
    dir: Direction,
    max_depth: u32,
    t: TraversalNodeV,
) -> bool {
    let adj = trav_adj(g, types, start, dir);
    &&& t.node_id != start
    &&& 1 <= t.depth <= max_depth
    &&& at_level(adj, start, t.node_id, t.depth as nat)
    &&& is_walk(adj, start, t.path, t.node_id, t.depth as nat)
    &&& type_passes(types, g.node(t.node_id).node_type)
    &&& info_of_id(g, t.node_id) == Some(t.symbol)
    &&& t.edge_type == first_edge_name(g.edges@, t.path[t.depth - 1], t.node_id)
}

/// `r` is a traversal from `start` in `dir` within `max_depth` steps under
/// the type filter `types`, reporting at most `max_nodes` nodes: each
/// reported node correct, each once, in order of depth, and every named
/// node within reach that passes the filter reported unless the report is
/// full.
pub open spec fn traversal_result_ok(
    g: CodeGraph,
    types: Seq<SymbolType>,
    start: u64,
    dir: Direction,
    max_depth: u32,
    max_nodes: usize,
    r: Seq<TraversalNode>,
) -> bool {
    &&& r.len() <= max_nodes
    &&& forall|i: int| 0 <= i < r.len() ==> traversal_ok(g, types, start, dir, max_depth, (#[trigger] r[i])@)
    &&& forall|i: int, j: int| 0 <= i < j < r.len() ==> r[i].node_id != r[j].node_id
    &&& forall|i: int, j: int| 0 <= i < j < r.len() ==> r[i].depth <= r[j].depth
    &&& r.len() < max_nodes ==> forall|v: u64|
        v != start && within(trav_adj(g, types, start, dir), start, max_depth as nat).contains(v) && type_passes(
            types,
            g.node(v).node_type,
        ) && info_of_id(g, v) is Some ==> exists|i: int| 0 <= i < r.len() && (#[trigger] r[i]).node_id == v
}

/// Whether a node type passes a type filter.
pub fn passes_filter(types: &Vec<SymbolType>, t: NodeType) -> (r: bool)
    ensures
        r == type_passes(types@, t),
{
    if types.len() == 0 {
        return true;
    }
    let mut i: usize = 0;
    while i < types.len()
        invariant
            i <= types@.len(),
            forall|k: int| 0 <= k < i ==> symbol_node_type(#[trigger] types@[k]) != t,
        decreases types@.len() - i,
    {
        let nt = match types[i] {
            SymbolType::Function => NodeType::Function,
            SymbolType::Class => NodeType::Class,
            SymbolType::Variable => NodeType::Variable,
            SymbolType::Module => NodeType::Module,
            SymbolType::Interface => NodeType::Interface,
            SymbolType::Type => NodeType::Type,
        };
        if nt == t {
            assert(symbol_node_type(types@[i as int]) == t);
            return true;
        }
        i = i + 1;
    }
    false
}

/// The name of the first edge from `a` to `b`, or the empty string.
pub fn first_edge_type_name(g: &CodeGraph, a: u64, b: u64) -> (r: String)
    ensures
        r@ == first_edge_name(g.edges@, a, b),
{
    let types = g.edges_between(a, b);
    proof {
        let s = select_edges(g.edges@, |e: GraphEdge| e.source == a && e.target == b);
        assert(types@.len() == s.len());
        if s.len() > 0 {
            assert(types@[0] == s[0].edge_type);
        }
    }
    if types.len() > 0 {
        types[0].name()
    } else {
        String::new()
    }
}

/// The traversal's steps: the oriented steps out of expanded nodes.
fn traversal_steps(g: &CodeGraph, types: &Vec<SymbolType>, start: u64, dir: Direction) -> (r: Vec<(u64, u64)>)
    requires
        g.wf(),
    ensures
        r@ == trav_adj(*g, types@, start, dir),
{
    let all = oriented_pairs(g, dir);
    let ghost pred = |p: (u64, u64)| expands(*g, types@, start, p.0);
    let mut r: Vec<(u64, u64)> = Vec::new();
    let mut i: usize = 0;
    while i < all.len()
        invariant
            g.wf(),
            i <= all@.len(),
            all@ == oriented(g.edges@, dir),
            pred == (|p: (u64, u64)| expands(*g, types@, start, p.0)),
            r@ == all@.take(i as int).filter(pred),
        decreases all@.len() - i,
    {
        let (x, v) = all[i];
        proof {
            assert(all@.take(i + 1).drop_last() =~= all@.take(i as int));
            assert(all@.take(i + 1).last() == (x, v));
            reveal(Seq::filter);
        }
        let keep = if x == start {
            true
        } else {
            proof {
                // Every step starts at a node of the graph.
                lemma_oriented_succs(g.edges@, dir, x, v);
                assert(succs(all@, x).contains(v)) by {
                    assert(all@[i as int] == (x, v));
                }
                let k = choose|k: int| 0 <= k < g.edges@.len() && #[trigger] edge_links(g.edges@[k], x, v, dir);
                assert(g.has_node(g.edges@[k].source) && g.has_node(g.edges@[k].target));
            }
            match g.get_node(x) {
                Some(n) => passes_filter(types, n.node_type),
                None => false,
            }
        };
        if keep {
            r.push((x, v));
        }
        i = i + 1;
    }
    proof {
        assert(all@.take(i as int) =~= all@);
    }
    r
}

/// The traversal node reported for a reached entry, if its type passes the
/// filter and it is named.
fn report_entry(
    g: &CodeGraph,
    types: &Vec<SymbolType>,
    start: u64,
    dir: Direction,
    max_depth: u32,
    e: &Reached,
) -> (r: Option<TraversalNode>)
    requires
        g.wf(),
        reached_ok(trav_adj(*g, types@, start, dir), start, *e),
        e.depth <= max_depth,
    ensures
        r is Some <==> (type_passes(types@, g.node(e.node).node_type) && info_of_id(*g, e.node) is Some),
        r matches Some(t) ==> t.node_id == e.node && t.depth == e.depth && traversal_ok(
            *g,
            types@,
            start,
            dir,
            max_depth,
            t@,
        ),
{
    let node_id = e.node;
    let depth = e.depth;
    match g.get_node(node_id) {
        Some(n) => {
            if passes_filter(types, n.node_type) {
                match node_symbol_info(n) {
                    Some(symbol) => {
                        let prev = e.path[(depth - 1) as usize];
                        let edge_type = first_edge_type_name(g, prev, node_id);
                        let path = crate::bfs::copy_path(&e.path);
                        Some(TraversalNode { node_id, depth: depth as u32, path, edge_type, symbol })
                    },
                    None => None,
                }
            } else {
                None
            }
        },
        None => None,
    }
}

/// What the scan over the reached entries `reached[..i]` has established for
/// the reported nodes `r`.
pub closed spec fn scan_ok(
    g: CodeGraph,
    types: Seq<SymbolType>,
    start: u64,
    dir: Direction,
    max_depth: u32,
    reached: Seq<Reached>,
    i: int,
    r: Seq<TraversalNode>,
) -> bool {
    &&& 0 <= i <= reached.len()
    &&& forall|k: int| 0 <= k < r.len() ==> traversal_ok(g, types, start, dir, max_depth, (#[trigger] r[k])@)
    &&& forall|k: int|
        0 <= k < r.len() ==> exists|j: int|
            0 <= j < i && (#[trigger] reached[j]).node == (#[trigger] r[k]).node_id && reached[j].depth
                == r[k].depth
    &&& forall|k: int, l: int| 0 <= k < l < r.len() ==> r[k].node_id != r[l].node_id
    &&& forall|k: int, l: int| 0 <= k < l < r.len() ==> r[k].depth <= r[l].depth
    &&& r.len() > 0 ==> r[r.len() - 1].depth <= (if i > 0 { reached[i - 1].depth as int } else { 0 })
    &&& forall|j: int|
        0 <= j < i && type_passes(types, g.node((#[trigger] reached[j]).node).node_type) && info_of_id(
            g,
            reached[j].node,
        ) is Some ==> exists|k: int| 0 <= k < r.len() && (#[trigger] r[k]).node_id == reached[j].node
}

/// The scan starts with nothing reported.
proof fn lemma_scan_start(
    g: CodeGraph,
    types: Seq<SymbolType>,
    start: u64,
    dir: Direction,
    max_depth: u32,
    reached: Seq<Reached>,
)
    ensures
        scan_ok(g, types, start, dir, max_depth, reached, 0, seq![]),
{
}

/// Reporting entry `i` keeps the scan's facts.
proof fn lemma_scan_push(
    g: CodeGraph,
    types: Seq<SymbolType>,
    start: u64,
    dir: Direction,
    max_depth: u32,
    reached: Seq<Reached>,
    i: int,
    r0: Seq<TraversalNode>,
    t: TraversalNode,
)
    requires
        is_bfs(trav_adj(g, types, start, dir), start, max_depth as nat, reached),
        scan_ok(g, types, start, dir, max_depth, reached, i, r0),
        0 <= i < reached.len(),
        t.node_id == reached[i].node,
        t.depth == reached[i].depth,
        traversal_ok(g, types, start, dir, max_depth, t@),
    ensures
        scan_ok(g, types, start, dir, max_depth, reached, i + 1, r0.push(t)),
{
    let r = r0.push(t);
    assert forall|k: int| 0 <= k < r.len() implies traversal_ok(g, types, start, dir, max_depth, (#[trigger] r[k])@) by {
        if k < r0.len() {
            assert(r[k] == r0[k]);
        }
    }
    assert forall|k: int| 0 <= k < r.len() implies exists|j: int|
        0 <= j < i + 1 && (#[trigger] reached[j]).node == (#[trigger] r[k]).node_id && reached[j].depth == r[k].depth by {
        if k < r0.len() {
            assert(r[k] == r0[k]);
            let j = choose|j: int|
                0 <= j < i && (#[trigger] reached[j]).node == (#[trigger] r0[k]).node_id && reached[j].depth == r0[k].depth;
            assert(0 <= j < i + 1 && reached[j].node == r[k].node_id);
        } else {
            assert(reached[i].node == r[k].node_id);
        }
    }
    assert forall|k: int, l: int| 0 <= k < l < r.len() implies r[k].node_id != r[l].node_id by {
        if l == r0.len() {
            assert(r[k] == r0[k]);
            let j = choose|j: int|
                0 <= j < i && (#[trigger] reached[j]).node == (#[trigger] r0[k]).node_id && reached[j].depth == r0[k].depth;
            assert(reached[j].node != reached[i].node);
        } else {
            assert(r[k] == r0[k] && r[l] == r0[l]);
        }
    }
    assert forall|k: int, l: int| 0 <= k < l < r.len() implies r[k].depth <= r[l].depth by {
        if l == r0.len() {
            assert(r[k] == r0[k]);
            if k < r0.len() - 1 {
                assert(r0[k].depth <= r0[r0.len() - 1].depth);
            }
            if i > 0 {
                assert(reached[i - 1].depth <= reached[i].depth);
            }
        } else {
            assert(r[k] == r0[k] && r[l] == r0[l]);
        }
    }
    assert forall|j: int|
        0 <= j < i + 1 && type_passes(types, g.node((#[trigger] reached[j]).node).node_type) && info_of_id(
            g,
            reached[j].node,
        ) is Some implies exists|k: int| 0 <= k < r.len() && (#[trigger] r[k]).node_id == reached[j].node by {
        if j < i {
            let k = choose|k: int| 0 <= k < r0.len() && (#[trigger] r0[k]).node_id == reached[j].node;
            assert(r[k] == r0[k]);
        } else {
            assert(r[r0.len() as int].node_id == reached[j].node);
        }
    }
}

/// Skipping entry `i`, which is filtered out or unnamed, keeps the scan's facts.
proof fn lemma_scan_skip(
    g: CodeGraph,
    types: Seq<SymbolType>,
    start: u64,
    dir: Direction,
    max_depth: u32,
    reached: Seq<Reached>,
    i: int,
    r: Seq<TraversalNode>,
)
    requires
        is_bfs(trav_adj(g, types, start, dir), start, max_depth as nat, reached),
        scan_ok(g, types, start, dir, max_depth, reached, i, r),
        0 <= i < reached.len(),
        !(type_passes(types, g.node(reached[i].node).node_type) && info_of_id(g, reached[i].node) is Some),
    ensures
        scan_ok(g, types, start, dir, max_depth, reached, i + 1, r),
{
    assert forall|k: int| 0 <= k < r.len() implies exists|j: int|
        0 <= j < i + 1 && (#[trigger] reached[j]).node == (#[trigger] r[k]).node_id && reached[j].depth == r[k].depth by {
        let j = choose|j: int|
            0 <= j < i && (#[trigger] reached[j]).node == (#[trigger] r[k]).node_id && reached[j].depth == r[k].depth;
        assert(0 <= j < i + 1);
    }
    if r.len() > 0 && i > 0 {
        assert(reached[i - 1].depth <= reached[i].depth);
    }
}

/// What a finished scan gives.
proof fn lemma_scan_done(
    g: CodeGraph,
    types: Seq<SymbolType>,
    start: u64,
    dir: Direction,
    max_depth: u32,
    reached: Seq<Reached>,
    i: int,
    r: Seq<TraversalNode>,
)
    requires
        is_bfs(trav_adj(g, types, start, dir), start, max_depth as nat, reached),
        scan_ok(g, types, start, dir, max_depth, reached, i, r),
    ensures
        forall|k: int| 0 <= k < r.len() ==> traversal_ok(g, types, start, dir, max_depth, (#[trigger] r[k])@),
        forall|k: int, l: int| 0 <= k < l < r.len() ==> r[k].node_id != r[l].node_id,
        forall|k: int, l: int| 0 <= k < l < r.len() ==> r[k].depth <= r[l].depth,
        i == reached.len() ==> forall|v: u64|
            v != start && within(trav_adj(g, types, start, dir), start, max_depth as nat).contains(v)
                && type_passes(types, g.node(v).node_type) && info_of_id(g, v) is Some ==> exists|k: int|
                0 <= k < r.len() && (#[trigger] r[k]).node_id == v,
{
    if i == reached.len() {
        assert forall|v: u64|
            v != start && within(trav_adj(g, types, start, dir), start, max_depth as nat).contains(v)
                && type_passes(types, g.node(v).node_type) && info_of_id(g, v) is Some implies exists|k: int|
            0 <= k < r.len() && (#[trigger] r[k]).node_id == v by {
            assert(found(reached, v));
            let j = choose|j: int| 0 <= j < reached.len() && (#[trigger] reached[j]).node == v;
        }
    }
}

impl QueryEngine {
    /// Nodes reached from `start_node` in `direction` within `max_depth`
    /// steps, breadth first; nodes whose type fails the filter are neither
    /// reported nor expanded, unnamed nodes are expanded but not reported, and
    /// at most `filter.max_nodes` nodes are reported.
    pub fn traverse_graph(
        &self,
        start_node: u64,
        direction: TraversalDirection,
        max_depth: u32,
        filter: &TraversalFilter,
    ) -> (r: Vec<TraversalNode>)
        requires
            self.wf(),
        ensures
            traversal_result_ok(self.graph, filter.symbol_types@, start_node, graph_direction(direction), max_depth, filter.max_nodes, r@),
    {
        let dir = match direction {
            TraversalDirection::Outgoing => Direction::Outgoing,
            TraversalDirection::Incoming => Direction::Incoming,
            TraversalDirection::Both => Direction::Both,
        };
        let ghost types = filter.symbol_types@;
        let ghost g = self.graph;
        let ghost adj = trav_adj(g, types, start_node, dir);
        let steps = traversal_steps(&self.graph, &filter.symbol_types, start_node, dir);
        let reached = bfs_walks(&steps, start_node, max_depth as u64);
        let mut r: Vec<TraversalNode> = Vec::new();
        let mut i: usize = 0;
        proof {
            lemma_scan_start(g, types, start_node, dir, max_depth, reached@);
        }
        while i < reached.len() && r.len() < filter.max_nodes
            invariant
                g == self.graph,
                g.wf(),
                types == filter.symbol_types@,
                dir == graph_direction(direction),
                adj == trav_adj(g, types, start_node, dir),
                is_bfs(adj, start_node, max_depth as nat, reached@),
                i <= reached@.len(),
                r@.len() <= filter.max_nodes,
                scan_ok(g, types, start_node, dir, max_depth, reached@, i as int, r@),
            decreases reached@.len() - i,
        {
            proof {
                assert(reached_ok(adj, start_node, reached@[i as int]));
                assert(reached@[i as int].depth <= max_depth);
            }
            let ghost r0 = r@;
            match report_entry(&self.graph, &filter.symbol_types, start_node, dir, max_depth, &reached[i]) {
                Some(t) => {
                    proof {
                        lemma_scan_push(g, types, start_node, dir, max_depth, reached@, i as int, r0, t);
                    }
                    r.push(t);
                },
                None => {
                    proof {
                        lemma_scan_skip(g, types, start_node, dir, max_depth, reached@, i as int, r0);
                    }
                },
            }
            i = i + 1;
        }
        proof {
            lemma_scan_done(g, types, start_node, dir, max_depth, reached@, i as int, r@);
        }
        r
    }
}

} // verus!
