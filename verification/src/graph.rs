//! A plain-value model of the code graph: typed nodes with the properties the
//! analyses read, and typed directed edges between node ids.
use vstd::prelude::*;
use crate::text::owned;

verus! {

/// Kind of code entity a node stands for.
#[derive(Clone, Copy, Debug, PartialEq, Eq, Structural)]
pub enum NodeType {
    CodeFile,
    Function,
    Class,
    Module,
    Variable,
    Type,
    Interface,
    Generic,
}

/// Kind of relationship an edge stands for.
#[derive(Clone, Copy, Debug, PartialEq, Eq, Structural)]
pub enum EdgeType {
    Imports,
    ImportsFrom,
    Contains,
    Calls,
    Invokes,
    Instantiates,
    Extends,
    Implements,
    Uses,
    Defines,
    References,
}

/// Which edges of a node to follow.
#[derive(Clone, Copy, Debug, PartialEq, Eq, Structural)]
pub enum Direction {
    Outgoing,
    Incoming,
    Both,
}

/// Display name of a node type.
pub open spec fn node_type_name(t: NodeType) -> Seq<char> {
    match t {
        NodeType::CodeFile => "CodeFile"@,
        NodeType::Function => "Function"@,
        NodeType::Class => "Class"@,
        NodeType::Module => "Module"@,
        NodeType::Variable => "Variable"@,
        NodeType::Type => "Type"@,
        NodeType::Interface => "Interface"@,
        NodeType::Generic => "Generic"@,
    }
}

/// Display name of an edge type.
pub open spec fn edge_type_name(t: EdgeType) -> Seq<char> {
    match t {
        EdgeType::Imports => "Imports"@,
        EdgeType::ImportsFrom => "ImportsFrom"@,
        EdgeType::Contains => "Contains"@,
        EdgeType::Calls => "Calls"@,
        EdgeType::Invokes => "Invokes"@,
        EdgeType::Instantiates => "Instantiates"@,
        EdgeType::Extends => "Extends"@,
        EdgeType::Implements => "Implements"@,
        EdgeType::Uses => "Uses"@,
        EdgeType::Defines => "Defines"@,
        EdgeType::References => "References"@,
    }
}

impl NodeType {
    /// The display name, e.g. `Function`.
    pub fn name(self) -> (r: String)
        ensures
            r@ == node_type_name(self),
    {
        match self {
            NodeType::CodeFile => owned("CodeFile"),
            NodeType::Function => owned("Function"),
            NodeType::Class => owned("Class"),
            NodeType::Module => owned("Module"),
            NodeType::Variable => owned("Variable"),
            NodeType::Type => owned("Type"),
            NodeType::Interface => owned("Interface"),
            NodeType::Generic => owned("Generic"),
        }
    }
}

impl EdgeType {
    /// The display name, e.g. `Calls`.
    pub fn name(self) -> (r: String)
        ensures
            r@ == edge_type_name(self),
    {
        match self {
            EdgeType::Imports => owned("Imports"),
            EdgeType::ImportsFrom => owned("ImportsFrom"),
            EdgeType::Contains => owned("Contains"),
            EdgeType::Calls => owned("Calls"),
            EdgeType::Invokes => owned("Invokes"),
            EdgeType::Instantiates => owned("Instantiates"),
            EdgeType::Extends => owned("Extends"),
            EdgeType::Implements => owned("Implements"),
            EdgeType::Uses => owned("Uses"),
            EdgeType::Defines => owned("Defines"),
            EdgeType::References => owned("References"),
        }
    }
}

/// The node properties that the analyses read, each as the typed getter of
/// the property map returns it (absent, or present with another type, is `None`).
#[derive(Clone, Debug)]
pub struct NodeProps {
    pub name: Option<String>,
    pub path: Option<String>,
    pub doc: Option<String>,
    pub signature: Option<String>,
    pub source: Option<String>,
    pub language: Option<String>,
    pub return_type: Option<String>,
    pub route: Option<String>,
    pub http_method: Option<String>,
    pub external: Option<String>,
    pub line_start: Option<i64>,
    pub start_line: Option<i64>,
    pub line_end: Option<i64>,
    pub end_line: Option<i64>,
    pub col_start: Option<i64>,
    pub start_col: Option<i64>,
    pub col_end: Option<i64>,
    pub end_col: Option<i64>,
    pub complexity: Option<i64>,
    pub param_count: Option<i64>,
    pub is_public: Option<bool>,
    pub exported: Option<bool>,
    pub deprecated: Option<bool>,
    pub is_async: Option<bool>,
    pub is_static: Option<bool>,
    pub is_const: Option<bool>,
    pub is_test: Option<bool>,
    pub is_cli: Option<bool>,
}

impl NodeProps {
    /// Properties with nothing set.
    pub fn new() -> (r: NodeProps)
        ensures
            r.name is None && r.path is None && r.doc is None && r.signature is None,
            r.source is None && r.language is None && r.return_type is None,
            r.route is None && r.http_method is None && r.external is None,
            r.line_start is None && r.start_line is None && r.line_end is None,
            r.end_line is None && r.col_start is None && r.start_col is None,
            r.col_end is None && r.end_col is None && r.complexity is None,
            r.param_count is None && r.is_public is None && r.exported is None,
            r.deprecated is None && r.is_async is None && r.is_static is None,
            r.is_const is None && r.is_test is None && r.is_cli is None,
    {
        NodeProps {
            name: None,
            path: None,
            doc: None,
            signature: None,
            source: None,
            language: None,
            return_type: None,
            route: None,
            http_method: None,
            external: None,
            line_start: None,
            start_line: None,
            line_end: None,
            end_line: None,
            col_start: None,
            start_col: None,
            col_end: None,
            end_col: None,
            complexity: None,
            param_count: None,
            is_public: None,
            exported: None,
            deprecated: None,
            is_async: None,
            is_static: None,
            is_const: None,
            is_test: None,
            is_cli: None,
        }
    }
}

/// A node: its id, type and properties.
#[derive(Clone, Debug)]
pub struct GraphNode {
    pub id: u64,
    pub node_type: NodeType,
    pub props: NodeProps,
}

/// A directed edge between two node ids.
#[derive(Clone, Copy, Debug, PartialEq, Eq, Structural)]
pub struct GraphEdge {
    pub source: u64,
    pub target: u64,
    pub edge_type: EdgeType,
}

/// Errors of graph updates.
#[derive(Clone, Copy, Debug, PartialEq, Eq, Structural)]
pub enum GraphError {
    NodeNotFound,
    IdsExhausted,
}

/// The code graph: nodes in the order they were added (ids increasing) and
/// edges in the order they were added.
#[derive(Clone, Debug)]
pub struct CodeGraph {
    pub nodes: Vec<GraphNode>,
    pub edges: Vec<GraphEdge>,
    pub next_id: u64,
}

/// Some node in `nodes` has id `id`.
pub open spec fn seq_has_node(nodes: Seq<GraphNode>, id: u64) -> bool {
    exists|i: int| 0 <= i < nodes.len() && (#[trigger] nodes[i]).id == id
}

/// The edges of `edges` that satisfy `p`, in order.
pub open spec fn select_edges(edges: Seq<GraphEdge>, p: spec_fn(GraphEdge) -> bool) -> Seq<
    GraphEdge,
>
    decreases edges.len(),
{
    if edges.len() == 0 {
        seq![]
    } else {
        let r = select_edges(edges.drop_last(), p);
        if p(edges.last()) {
            r.push(edges.last())
        } else {
            r
        }
    }
}

/// An edge as a `(source, target, type)` triple.
pub open spec fn edge_triple(e: GraphEdge) -> (u64, u64, EdgeType) {
    (e.source, e.target, e.edge_type)
}

/// Edges leaving `id`.
pub open spec fn outgoing_of(edges: Seq<GraphEdge>, id: u64) -> Seq<GraphEdge> {
    select_edges(edges, |e: GraphEdge| e.source == id)
}

/// Edges entering `id`.
pub open spec fn incoming_of(edges: Seq<GraphEdge>, id: u64) -> Seq<GraphEdge> {
    select_edges(edges, |e: GraphEdge| e.target == id)
}

/// The edges a connected-edge query for `id` in direction `dir` reports:
/// outgoing, incoming, or outgoing followed by incoming (a self-loop is then
/// reported once from each side).
pub open spec fn connected_of(edges: Seq<GraphEdge>, id: u64, dir: Direction) -> Seq<GraphEdge> {
    match dir {
        Direction::Outgoing => outgoing_of(edges, id),
        Direction::Incoming => incoming_of(edges, id),
        Direction::Both => outgoing_of(edges, id) + incoming_of(edges, id),
    }
}

/// Edge `e` links `a` to `b` when followed in direction `dir`.
pub open spec fn edge_links(e: GraphEdge, a: u64, b: u64, dir: Direction) -> bool {
    match dir {
        Direction::Outgoing => e.source == a && e.target == b,
        Direction::Incoming => e.target == a && e.source == b,
        Direction::Both => (e.source == a && e.target == b) || (e.target == a && e.source == b),
    }
}

/// `b` is a neighbor of `a` in direction `dir`: some edge links them that way.
pub open spec fn is_neighbor(edges: Seq<GraphEdge>, a: u64, b: u64, dir: Direction) -> bool {
    exists|k: int| 0 <= k < edges.len() && #[trigger] edge_links(edges[k], a, b, dir)
}

/// Membership in a selection: exactly the satisfying elements.
pub proof fn lemma_select_contains(edges: Seq<GraphEdge>, p: spec_fn(GraphEdge) -> bool, e: GraphEdge)
    ensures
        select_edges(edges, p).contains(e) <==> (p(e) && edges.contains(e)),
    decreases edges.len(),
{
    if edges.len() > 0 {
        lemma_select_contains(edges.drop_last(), p, e);
        let r = select_edges(edges.drop_last(), p);
        if edges.contains(e) && p(e) {
            let i = choose|i: int| 0 <= i < edges.len() && edges[i] == e;
            if i < edges.len() - 1 {
                assert(edges.drop_last()[i] == e);
            }
        }
        if edges.drop_last().contains(e) {
            let i = choose|i: int| 0 <= i < edges.drop_last().len() && edges.drop_last()[i] == e;
            assert(edges[i] == e);
        }
        if p(edges.last()) {
            assert(r.push(edges.last())[r.len() as int] == edges.last());
            if r.push(edges.last()).contains(e) {
                let j = choose|j: int| 0 <= j < r.len() + 1 && r.push(edges.last())[j] == e;
                if j < r.len() {
                    assert(r[j] == e);
                }
            }
            if r.contains(e) {
                let j = choose|j: int| 0 <= j < r.len() && r[j] == e;
                assert(r.push(edges.last())[j] == e);
            }
        }
    }
}

/// Length of a selection is at most the length of the sequence.
pub proof fn lemma_select_len(edges: Seq<GraphEdge>, p: spec_fn(GraphEdge) -> bool)
    ensures
        select_edges(edges, p).len() <= edges.len(),
    decreases edges.len(),
{
    if edges.len() > 0 {
        lemma_select_len(edges.drop_last(), p);
    }
}

impl CodeGraph {
    /// Well-formed: node ids strictly increase and stay below `next_id`, and
    /// every edge connects two present nodes.
    pub open spec fn wf(&self) -> bool {
        &&& forall|i: int, j: int|
            0 <= i < j < self.nodes@.len() ==> (#[trigger] self.nodes@[i]).id < (
            #[trigger] self.nodes@[j]).id
        &&& forall|i: int| 0 <= i < self.nodes@.len() ==> (#[trigger] self.nodes@[i]).id < self.next_id
        &&& forall|k: int|
            0 <= k < self.edges@.len() ==> seq_has_node(self.nodes@, (#[trigger] self.edges@[k]).source)
                && seq_has_node(self.nodes@, self.edges@[k].target)
    }

    /// A node with id `id` is present.
    pub open spec fn has_node(&self, id: u64) -> bool {
        seq_has_node(self.nodes@, id)
    }

    /// The position of node `id` (meaningful when it is present).
    pub open spec fn index_of(&self, id: u64) -> int {
        choose|i: int| 0 <= i < self.nodes@.len() && self.nodes@[i].id == id
    }

    /// The node with id `id` (meaningful when it is present).
    pub open spec fn node(&self, id: u64) -> GraphNode {
        self.nodes@[self.index_of(id)]
    }

    /// An empty graph.
    pub fn new() -> (g: CodeGraph)
        ensures
            g.wf(),
            g.nodes@.len() == 0,
            g.edges@.len() == 0,
    {
        CodeGraph { nodes: Vec::new(), edges: Vec::new(), next_id: 0 }
    }

    /// Add a node; it gets the next id.
    pub fn add_node(&mut self, node_type: NodeType, props: NodeProps) -> (r: Result<u64, GraphError>)
        requires
            old(self).wf(),
        ensures
            final(self).wf(),
            old(self).next_id == u64::MAX ==> r == Err::<u64, GraphError>(GraphError::IdsExhausted)
                && *final(self) == *old(self),
            old(self).next_id < u64::MAX ==> r == Ok::<u64, GraphError>(old(self).next_id)
                && final(self).nodes@ == old(self).nodes@.push(
                GraphNode { id: old(self).next_id, node_type, props },
            ) && final(self).edges@ == old(self).edges@ && final(self).next_id == old(self).next_id + 1,
    {
        if self.next_id == u64::MAX {
            return Err(GraphError::IdsExhausted);
        }
        let id = self.next_id;
        let ghost old_nodes = self.nodes@;
        self.nodes.push(GraphNode { id, node_type, props });
        self.next_id = id + 1;
        assert forall|k: int| 0 <= k < self.edges@.len() implies seq_has_node(
            self.nodes@,
            (#[trigger] self.edges@[k]).source,
        ) && seq_has_node(self.nodes@, self.edges@[k].target) by {
            let a = choose|i: int| 0 <= i < old_nodes.len() && old_nodes[i].id == self.edges@[k].source;
            assert(self.nodes@[a] == old_nodes[a]);
            let b = choose|i: int| 0 <= i < old_nodes.len() && old_nodes[i].id == self.edges@[k].target;
            assert(self.nodes@[b] == old_nodes[b]);
        }
        Ok(id)
    }

    /// Position of node `id`, if present.
    pub fn find_index(&self, id: u64) -> (r: Option<usize>)
        requires
            self.wf(),
        ensures
            r matches Some(i) ==> i < self.nodes@.len() && self.nodes@[i as int].id == id && i
                == self.index_of(id),
            r is None <==> !self.has_node(id),
    {
        let mut i: usize = 0;
        while i < self.nodes.len()
            invariant
                self.wf(),
                i <= self.nodes@.len(),
                forall|k: int| 0 <= k < i ==> self.nodes@[k].id != id,
            decreases self.nodes@.len() - i,
        {
            if self.nodes[i].id == id {
                assert(self.has_node(id));
                let ghost j = self.index_of(id);
                assert(j == i as int) by {
                    if j < i {
                        assert(self.nodes@[j].id < self.nodes@[i as int].id);
                    } else if j > i {
                        assert(self.nodes@[i as int].id < self.nodes@[j].id);
                    }
                }
                return Some(i);
            }
            i = i + 1;
        }
        None
    }

    /// The node with id `id`, if present.
    pub fn get_node(&self, id: u64) -> (r: Option<&GraphNode>)
        requires
            self.wf(),
        ensures
            r is None <==> !self.has_node(id),
            r matches Some(n) ==> *n == self.node(id) && n.id == id,
    {
        match self.find_index(id) {
            Some(i) => Some(&self.nodes[i]),
            None => None,
        }
    }

    /// Add an edge between two present nodes.
    pub fn add_edge(&mut self, source: u64, target: u64, edge_type: EdgeType) -> (r: Result<(), GraphError>)
        requires
            old(self).wf(),
        ensures
            final(self).wf(),
            r is Ok <==> old(self).has_node(source) && old(self).has_node(target),
            r is Ok ==> final(self).nodes@ == old(self).nodes@ && final(self).edges@ == old(self).edges@.push(
                GraphEdge { source, target, edge_type },
            ) && final(self).next_id == old(self).next_id,
            r is Err ==> r == Err::<(), GraphError>(GraphError::NodeNotFound) && *final(self) == *old(self),
    {
        if self.find_index(source).is_none() || self.find_index(target).is_none() {
            return Err(GraphError::NodeNotFound);
        }
        self.edges.push(GraphEdge { source, target, edge_type });
        Ok(())
    }

    /// Delete node `id` together with every edge that leaves or enters it;
    /// refused where the node is absent.
    pub fn delete_node(&mut self, id: u64) -> (r: Result<(), GraphError>)
        requires
            old(self).wf(),
        ensures
            final(self).wf(),
            r is Ok <==> old(self).has_node(id),
            r is Ok ==> final(self).nodes@ == old(self).nodes@.remove(old(self).index_of(id))
                && final(self).edges@ == old(self).edges@.filter(|e: GraphEdge| e.source != id && e.target != id)
                && final(self).next_id == old(self).next_id,
            r is Err ==> r == Err::<(), GraphError>(GraphError::NodeNotFound) && *final(self) == *old(self),
            forall|x: u64| #[trigger] final(self).has_node(x) <==> old(self).has_node(x) && (r is Err || x != id),
            r is Ok ==> forall|q: int|
                0 <= q < final(self).edges@.len() ==> (#[trigger] final(self).edges@[q]).source != id
                    && final(self).edges@[q].target != id,
    {
        let i = match self.find_index(id) {
            Some(i) => i,
            None => {
                return Err(GraphError::NodeNotFound);
            },
        };
        let ghost old_nodes = self.nodes@;
        let ghost old_edges = self.edges@;
        let ghost keep = |e: GraphEdge| e.source != id && e.target != id;
        self.nodes.remove(i);
        let mut kept: Vec<GraphEdge> = Vec::new();
        let mut k: usize = 0;
        while k < self.edges.len()
            invariant
                self.edges@ == old_edges,
                k <= old_edges.len(),
                keep == (|e: GraphEdge| e.source != id && e.target != id),
                kept@ == old_edges.take(k as int).filter(keep),
            decreases old_edges.len() - k,
        {
            let e = self.edges[k];
            proof {
                assert(old_edges.take(k + 1).drop_last() =~= old_edges.take(k as int));
                assert(old_edges.take(k + 1).last() == e);
                reveal(Seq::filter);
            }
            if e.source != id && e.target != id {
                kept.push(e);
            }
            k = k + 1;
        }
        proof {
            assert(old_edges.take(k as int) =~= old_edges);
        }
        self.edges = kept;
        let ghost new_nodes = self.nodes@;
        assert forall|x: u64| seq_has_node(new_nodes, x) <==> seq_has_node(old_nodes, x) && x != id by {
            if seq_has_node(new_nodes, x) {
                let j = choose|j: int| 0 <= j < new_nodes.len() && (#[trigger] new_nodes[j]).id == x;
                if j < i {
                    assert(old_nodes[j] == new_nodes[j]);
                    assert(old_nodes[j].id < old_nodes[i as int].id);
                } else {
                    assert(old_nodes[j + 1] == new_nodes[j]);
                    assert(old_nodes[i as int].id < old_nodes[j + 1].id);
                }
            }
            if seq_has_node(old_nodes, x) && x != id {
                let j = choose|j: int| 0 <= j < old_nodes.len() && (#[trigger] old_nodes[j]).id == x;
                if j < i {
                    assert(new_nodes[j] == old_nodes[j]);
                } else {
                    assert(j != i);
                    assert(new_nodes[j - 1] == old_nodes[j]);
                }
            }
        }
        assert forall|a: int, b: int| 0 <= a < b < new_nodes.len() implies (#[trigger] new_nodes[a]).id < (
        #[trigger] new_nodes[b]).id by {
            let oa = if a < i { a } else { a + 1 };
            let ob = if b < i { b } else { b + 1 };
            assert(new_nodes[a] == old_nodes[oa]);
            assert(new_nodes[b] == old_nodes[ob]);
        }
        assert forall|a: int| 0 <= a < new_nodes.len() implies (#[trigger] new_nodes[a]).id < self.next_id by {
            let oa = if a < i { a } else { a + 1 };
            assert(new_nodes[a] == old_nodes[oa]);
        }
        assert forall|q: int| 0 <= q < self.edges@.len() implies seq_has_node(
            new_nodes,
            (#[trigger] self.edges@[q]).source,
        ) && seq_has_node(new_nodes, self.edges@[q].target) by {
            let e = self.edges@[q];
            crate::graph::lemma_filter_member(old_edges, keep, q);
            let w = choose|w: int| 0 <= w < old_edges.len() && old_edges[w] == e;
            assert(seq_has_node(old_nodes, old_edges[w].source));
            assert(seq_has_node(old_nodes, old_edges[w].target));
        }
        Ok(())
    }

    /// Delete every node that records `path` as its file, together with the
    /// edges that leave or enter them; the ids of the deleted nodes, in order.
    pub fn remove_file_nodes(&mut self, path: &str) -> (r: Vec<u64>)
        requires
            old(self).wf(),
        ensures
            final(self).wf(),
            r@ == old(self).nodes@.filter(|n: GraphNode| in_file(n, path@)).map_values(|n: GraphNode| n.id),
            final(self).nodes@ == old(self).nodes@.filter(|n: GraphNode| !in_file(n, path@)),
            final(self).edges@ == old(self).edges@.filter(
                |e: GraphEdge| !r@.contains(e.source) && !r@.contains(e.target),
            ),
            final(self).next_id == old(self).next_id,
            forall|x: u64| #[trigger] final(self).has_node(x) <==> old(self).has_node(x) && !r@.contains(x),
            forall|q: int| 0 <= q < final(self).nodes@.len() ==> !in_file(#[trigger] final(self).nodes@[q], path@),
    {
        let ghost old_nodes = self.nodes@;
        let ghost old_edges = self.edges@;
        let ghost keep = |n: GraphNode| !in_file(n, path@);
        let ghost drop = |n: GraphNode| in_file(n, path@);
        let ghost idf = |n: GraphNode| n.id;
        let ghost old_next = self.next_id;
        let mut removed: Vec<u64> = Vec::new();
        let mut i: usize = 0;
        let ghost mut j: int = 0;
        while i < self.nodes.len()
            invariant
                0 <= j <= old_nodes.len(),
                keep == (|n: GraphNode| !in_file(n, path@)),
                drop == (|n: GraphNode| in_file(n, path@)),
                idf == (|n: GraphNode| n.id),
                self.nodes@ == old_nodes.take(j).filter(keep) + old_nodes.skip(j),
                i == old_nodes.take(j).filter(keep).len(),
                removed@ == old_nodes.take(j).filter(drop).map_values(idf),
                self.edges@ == old_edges,
                self.next_id == old_next,
                forall|a: int| 0 <= a < old_nodes.len() ==> (#[trigger] old_nodes[a]).id < old_next,
                forall|a: int, b: int|
                    0 <= a < b < old_nodes.len() ==> (#[trigger] old_nodes[a]).id < (#[trigger] old_nodes[b]).id,
                forall|a: int, b: int|
                    0 <= a < b < self.nodes@.len() ==> (#[trigger] self.nodes@[a]).id < (
                    #[trigger] self.nodes@[b]).id,
            decreases self.nodes@.len() - i,
        {
            let ghost before = self.nodes@;
            let ghost a = old_nodes.take(j).filter(keep);
            proof {
                assert(old_nodes.take(j + 1).drop_last() =~= old_nodes.take(j));
                assert(old_nodes.take(j + 1).last() == old_nodes[j]);
                assert(before[i as int] == old_nodes[j]);
                reveal(Seq::filter);
            }
            let hit = match &self.nodes[i].props.path {
                Some(p) => crate::text::str_eq(p.as_str(), path),
                None => false,
            };
            if hit {
                removed.push(self.nodes[i].id);
                self.nodes.remove(i);
                proof {
                    assert(old_nodes.take(j + 1).filter(keep) == a);
                    let f = old_nodes.take(j).filter(drop);
                    assert(old_nodes.take(j + 1).filter(drop) == f.push(old_nodes[j]));
                    assert(f.push(old_nodes[j]).map_values(idf) =~= f.map_values(idf).push(old_nodes[j].id));
                    assert(self.nodes@ =~= a + old_nodes.skip(j + 1));
                    assert forall|x: int, y: int| 0 <= x < y < self.nodes@.len() implies (
                    #[trigger] self.nodes@[x]).id < (#[trigger] self.nodes@[y]).id by {
                        let ox = if x < i { x } else { x + 1 };
                        let oy = if y < i { y } else { y + 1 };
                        assert(self.nodes@[x] == before[ox]);
                        assert(self.nodes@[y] == before[oy]);
                    }
                }
            } else {
                proof {
                    assert(old_nodes.take(j + 1).filter(keep) == a.push(old_nodes[j]));
                    assert(old_nodes.take(j + 1).filter(drop) == old_nodes.take(j).filter(drop));
                    assert(self.nodes@ =~= a.push(old_nodes[j]) + old_nodes.skip(j + 1));
                }
                i = i + 1;
            }
            proof {
                j = j + 1;
            }
        }
        proof {
            assert(old_nodes.skip(j).len() == 0);
            assert(old_nodes.take(j) =~= old_nodes);
            assert(self.nodes@ =~= old_nodes.filter(keep));
        }
        let ghost gone = removed@;
        let ghost ekeep = |e: GraphEdge| !gone.contains(e.source) && !gone.contains(e.target);
        let mut kept: Vec<GraphEdge> = Vec::new();
        let mut k: usize = 0;
        while k < self.edges.len()
            invariant
                self.edges@ == old_edges,
                self.next_id == old_next,
                k <= old_edges.len(),
                gone == removed@,
                ekeep == (|e: GraphEdge| !gone.contains(e.source) && !gone.contains(e.target)),
                kept@ == old_edges.take(k as int).filter(ekeep),
            decreases old_edges.len() - k,
        {
            let e = self.edges[k];
            proof {
                assert(old_edges.take(k + 1).drop_last() =~= old_edges.take(k as int));
                assert(old_edges.take(k + 1).last() == e);
                reveal(Seq::filter);
            }
            if !vec_contains_u64(&removed, e.source) && !vec_contains_u64(&removed, e.target) {
                kept.push(e);
            }
            k = k + 1;
        }
        proof {
            assert(old_edges.take(k as int) =~= old_edges);
        }
        self.edges = kept;
        let ghost new_nodes = self.nodes@;
        assert forall|x: u64| seq_has_node(new_nodes, x) <==> seq_has_node(old_nodes, x) && !gone.contains(x) by {
            if seq_has_node(new_nodes, x) {
                let q = choose|q: int| 0 <= q < new_nodes.len() && (#[trigger] new_nodes[q]).id == x;
                lemma_filter_member(old_nodes, keep, q);
                let w = choose|w: int| 0 <= w < old_nodes.len() && old_nodes[w] == new_nodes[q];
                assert(old_nodes[w].id == x);
                if gone.contains(x) {
                    let t = choose|t: int| 0 <= t < gone.len() && gone[t] == x;
                    lemma_filter_member(old_nodes, drop, t);
                    let v = choose|v: int| 0 <= v < old_nodes.len() && old_nodes[v] == old_nodes.filter(drop)[t];
                    assert(old_nodes[v].id == x);
                    if v < w {
                        assert(old_nodes[v].id < old_nodes[w].id);
                    } else if w < v {
                        assert(old_nodes[w].id < old_nodes[v].id);
                    }
                }
            }
            if seq_has_node(old_nodes, x) && !gone.contains(x) {
                let w = choose|w: int| 0 <= w < old_nodes.len() && (#[trigger] old_nodes[w]).id == x;
                if in_file(old_nodes[w], path@) {
                    old_nodes.lemma_filter_contains(drop, w);
                    let t = choose|t: int| 0 <= t < old_nodes.filter(drop).len() && old_nodes.filter(drop)[t]
                        == old_nodes[w];
                    assert(gone[t] == x);
                } else {
                    old_nodes.lemma_filter_contains(keep, w);
                    let t = choose|t: int| 0 <= t < new_nodes.len() && new_nodes[t] == old_nodes[w];
                    assert(new_nodes[t].id == x);
                }
            }
        }
        assert forall|a: int| 0 <= a < new_nodes.len() implies (#[trigger] new_nodes[a]).id < self.next_id by {
            lemma_filter_member(old_nodes, keep, a);
            let w = choose|w: int| 0 <= w < old_nodes.len() && old_nodes[w] == new_nodes[a];
            assert(old_nodes[w].id < self.next_id);
        }
        assert forall|q: int| 0 <= q < self.edges@.len() implies seq_has_node(
            new_nodes,
            (#[trigger] self.edges@[q]).source,
        ) && seq_has_node(new_nodes, self.edges@[q].target) by {
            let e = self.edges@[q];
            lemma_filter_member(old_edges, ekeep, q);
            let w = choose|w: int| 0 <= w < old_edges.len() && old_edges[w] == e;
            assert(seq_has_node(old_nodes, old_edges[w].source));
            assert(seq_has_node(old_nodes, old_edges[w].target));
        }
        assert forall|q: int| 0 <= q < new_nodes.len() implies !in_file(#[trigger] new_nodes[q], path@) by {
            lemma_filter_member(old_nodes, keep, q);
        }
        removed
    }

    /// Number of nodes.
    pub fn node_count(&self) -> (r: usize)
        ensures
            r == self.nodes@.len(),
    {
        self.nodes.len()
    }

    /// Number of edges.
    pub fn edge_count(&self) -> (r: usize)
        ensures
            r == self.edges@.len(),
    {
        self.edges.len()
    }

    /// Edges connected to `id` in direction `dir`, as `(source, target, type)`
    /// triples in edge order; with `Both`, the outgoing ones come first.
    pub fn get_connected_edges(&self, id: u64, dir: Direction) -> (r: Vec<(u64, u64, EdgeType)>)
        ensures
            r@ == connected_of(self.edges@, id, dir).map_values(|e: GraphEdge| edge_triple(e)),
    {
        match dir {
            Direction::Outgoing => self.select_triples(id, true),
            Direction::Incoming => self.select_triples(id, false),
            Direction::Both => {
                let mut a = self.select_triples(id, true);
                let mut b = self.select_triples(id, false);
                a.append(&mut b);
                proof {
                    let f = |e: GraphEdge| edge_triple(e);
                    assert((outgoing_of(self.edges@, id) + incoming_of(self.edges@, id)).map_values(f)
                        =~= outgoing_of(self.edges@, id).map_values(f) + incoming_of(self.edges@, id).map_values(f));
                }
                a
            },
        }
    }

    fn select_triples(&self, id: u64, out: bool) -> (r: Vec<(u64, u64, EdgeType)>)
        ensures
            out ==> r@ == outgoing_of(self.edges@, id).map_values(|e: GraphEdge| edge_triple(e)),
            !out ==> r@ == incoming_of(self.edges@, id).map_values(|e: GraphEdge| edge_triple(e)),
    {
        let ghost p = if out { |e: GraphEdge| e.source == id } else { |e: GraphEdge| e.target == id };
        let mut r: Vec<(u64, u64, EdgeType)> = Vec::new();
        let mut i: usize = 0;
        while i < self.edges.len()
            invariant
                i <= self.edges@.len(),
                p == (if out { |e: GraphEdge| e.source == id } else { |e: GraphEdge| e.target == id }),
                r@ == select_edges(self.edges@.take(i as int), p).map_values(|e: GraphEdge| edge_triple(e)),
            decreases self.edges@.len() - i,
        {
            let e = self.edges[i];
            assert(self.edges@.take(i + 1).drop_last() =~= self.edges@.take(i as int));
            assert(self.edges@.take(i + 1).last() == e);
            let keep = if out { e.source == id } else { e.target == id };
            if keep {
                r.push((e.source, e.target, e.edge_type));
            }
            proof {
                let f = |e: GraphEdge| edge_triple(e);
                let prev = select_edges(self.edges@.take(i as int), p);
                if keep {
                    assert(prev.push(e).map_values(f) =~= prev.map_values(f).push(edge_triple(e)));
                }
            }
            i = i + 1;
        }
        assert(self.edges@.take(i as int) =~= self.edges@);
        r
    }

    /// Types of the edges from `source` to `target`, in edge order.
    pub fn edges_between(&self, source: u64, target: u64) -> (r: Vec<EdgeType>)
        ensures
            r@ == select_edges(self.edges@, |e: GraphEdge| e.source == source && e.target == target).map_values(
                |e: GraphEdge| e.edge_type,
            ),
    {
        let ghost p = |e: GraphEdge| e.source == source && e.target == target;
        let mut r: Vec<EdgeType> = Vec::new();
        let mut i: usize = 0;
        while i < self.edges.len()
            invariant
                i <= self.edges@.len(),
                p == (|e: GraphEdge| e.source == source && e.target == target),
                r@ == select_edges(self.edges@.take(i as int), p).map_values(|e: GraphEdge| e.edge_type),
            decreases self.edges@.len() - i,
        {
            let e = self.edges[i];
            assert(self.edges@.take(i + 1).drop_last() =~= self.edges@.take(i as int));
            assert(self.edges@.take(i + 1).last() == e);
            if e.source == source && e.target == target {
                r.push(e.edge_type);
            }
            proof {
                let f = |e: GraphEdge| e.edge_type;
                let prev = select_edges(self.edges@.take(i as int), p);
                if e.source == source && e.target == target {
                    assert(prev.push(e).map_values(f) =~= prev.map_values(f).push(e.edge_type));
                }
            }
            i = i + 1;
        }
        assert(self.edges@.take(i as int) =~= self.edges@);
        r
    }

    /// The distinct neighbors of `id` in direction `dir`, in order of first
    /// appearance in the edge list.
    pub fn neighbors(&self, id: u64, dir: Direction) -> (r: Vec<u64>)
        ensures
            r@.no_duplicates(),
            forall|b: u64| r@.contains(b) <==> is_neighbor(self.edges@, id, b, dir),
    {
        let mut r: Vec<u64> = Vec::new();
        let mut i: usize = 0;
        while i < self.edges.len()
            invariant
                i <= self.edges@.len(),
                r@.no_duplicates(),
                forall|b: u64|
                    r@.contains(b) <==> exists|k: int|
                        0 <= k < i && #[trigger] edge_links(self.edges@[k], id, b, dir),
            decreases self.edges@.len() - i,
        {
            let e = self.edges[i];
            let a = match dir {
                Direction::Outgoing => if e.source == id { Some(e.target) } else { None },
                Direction::Incoming => if e.target == id { Some(e.source) } else { None },
                Direction::Both => if e.source == id {
                    Some(e.target)
                } else if e.target == id {
                    Some(e.source)
                } else {
                    None
                },
            };
            assert(forall|b: u64| edge_links(e, id, b, dir) <==> a == Some(b));
            let ghost old_r = r@;
            if let Some(b) = a {
                if !vec_contains_u64(&r, b) {
                    r.push(b);
                }
            }
            assert forall|b: u64| r@.contains(b) <==> exists|k: int|
                0 <= k < i + 1 && #[trigger] edge_links(self.edges@[k], id, b, dir) by {
                if r@.contains(b) && !old_r.contains(b) {
                    assert(edge_links(self.edges@[i as int], id, b, dir));
                }
                if exists|k: int| 0 <= k < i + 1 && #[trigger] edge_links(self.edges@[k], id, b, dir) {
                    let k = choose|k: int| 0 <= k < i + 1 && #[trigger] edge_links(self.edges@[k], id, b, dir);
                    if k < i {
                        assert(old_r.contains(b));
                        let j = choose|j: int| 0 <= j < old_r.len() && old_r[j] == b;
                        assert(r@[j] == b);
                    } else {
                        assert(a == Some(b));
                        if !old_r.contains(b) {
                            assert(r@[r@.len() - 1] == b);
                        } else {
                            let j = choose|j: int| 0 <= j < old_r.len() && old_r[j] == b;
                            assert(r@[j] == b);
                        }
                    }
                }
                if old_r.contains(b) {
                    let j = choose|j: int| 0 <= j < old_r.len() && old_r[j] == b;
                    assert(r@[j] == b);
                }
            }
            i = i + 1;
        }
        r
    }
}

/// A node records `path` as its file.
pub open spec fn in_file(n: GraphNode, path: Seq<char>) -> bool {
    n.props.path matches Some(p) && p@ == path
}

/// Once no node records `path`, removing the file's nodes again removes
/// nothing: no node is selected and all are kept.
pub proof fn lemma_file_gone(g: CodeGraph, path: Seq<char>)
    requires
        forall|q: int| 0 <= q < g.nodes@.len() ==> !in_file(#[trigger] g.nodes@[q], path),
    ensures
        g.nodes@.filter(|n: GraphNode| in_file(n, path)).len() == 0,
        g.nodes@.filter(|n: GraphNode| !in_file(n, path)) == g.nodes@,
{
    lemma_filter_none(g.nodes@, path);
}

proof fn lemma_filter_none(s: Seq<GraphNode>, path: Seq<char>)
    requires
        forall|q: int| 0 <= q < s.len() ==> !in_file(#[trigger] s[q], path),
    ensures
        s.filter(|n: GraphNode| in_file(n, path)).len() == 0,
        s.filter(|n: GraphNode| !in_file(n, path)) == s,
    decreases s.len(),
{
    reveal(Seq::filter);
    if s.len() > 0 {
        let t = s.drop_last();
        assert forall|q: int| 0 <= q < t.len() implies !in_file(#[trigger] t[q], path) by {
            assert(t[q] == s[q]);
        }
        lemma_filter_none(t, path);
        assert(!in_file(s[s.len() - 1], path));
        assert(t.push(s.last()) =~= s);
    }
}

/// An element of a filtered sequence is an element of the sequence that
/// satisfies the filter.
pub proof fn lemma_filter_member<A>(s: Seq<A>, p: spec_fn(A) -> bool, q: int)
    requires
        0 <= q < s.filter(p).len(),
    ensures
        p(s.filter(p)[q]),
        exists|w: int| 0 <= w < s.len() && s[w] == s.filter(p)[q],
{
    s.filter_lemma(p);
    let x = s.filter(p)[q];
    assert(s.filter(p).contains(x));
    s.lemma_filter_contains_rev(p, x);
    let w = choose|w: int| 0 <= w < s.len() && s[w] == x;
    assert(s[w] == x);
}

/// Whether `v` contains `x`.
pub fn vec_contains_u64(v: &Vec<u64>, x: u64) -> (r: bool)
    ensures
        r == v@.contains(x),
{
    let mut i: usize = 0;
    while i < v.len()
        invariant
            i <= v@.len(),
            forall|k: int| 0 <= k < i ==> v@[k] != x,
        decreases v@.len() - i,
    {
        if v[i] == x {
            return true;
        }
        i = i + 1;
    }
    false
}

} // verus!
