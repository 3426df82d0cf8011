//! Navigation over the graph: the node at a source position, the nearest
//! node, definitions of references, node ranges and locations.
use vstd::prelude::*;
use crate::graph::{CodeGraph, Direction, EdgeType, GraphEdge, NodeProps, outgoing_of};
use crate::query::{int_or, str_or_empty, string_or_empty};

verus! {

/// A source range in editor coordinates (lines and characters 0-based).
#[derive(Clone, Copy, Debug, PartialEq, Eq, Structural)]
pub struct LspRange {
    pub start_line: u32,
    pub start_character: u32,
    pub end_line: u32,
    pub end_character: u32,
}

/// The first present of two integer properties.
pub open spec fn int_either(a: Option<i64>, b: Option<i64>) -> Option<i64> {
    match a {
        Some(x) => Some(x),
        None => b,
    }
}

/// First line of a node (`line_start`, else `start_line`, else 1), as `u32`.
pub open spec fn start_line_of(p: NodeProps) -> u32 {
    int_or(p.line_start, p.start_line, 1) as u32
}

/// Last line of a node (`line_end`, else `end_line`, else `d`), as `u32`.
pub open spec fn end_line_of(p: NodeProps, d: u32) -> u32 {
    match int_either(p.line_end, p.end_line) {
        Some(x) => x as u32,
        None => d,
    }
}

/// First column of a node (`col_start`, else `start_col`, else 0), as `u32`.
pub open spec fn start_col_of(p: NodeProps) -> u32 {
    int_or(p.col_start, p.start_col, 0) as u32
}

/// Last column of a node (`col_end`, else `end_col`, else 0), as `u32`.
pub open spec fn end_col_of(p: NodeProps) -> u32 {
    int_or(p.col_end, p.end_col, 0) as u32
}

/// The editor range of a node as the graph handlers report it: lines made
/// 0-based, a missing end line taken as two lines after the start.
pub open spec fn node_range_of(p: NodeProps) -> LspRange {
    let start = start_line_of(p).saturating_sub(1);
    LspRange {
        start_line: start,
        start_character: start_col_of(p),
        end_line: end_line_of(p, start.wrapping_add(2)).saturating_sub(1),
        end_character: end_col_of(p),
    }
}

/// The editor range of a node as a location reports it: lines made 0-based,
/// a missing end line taken as the start line.
pub open spec fn location_range_of(p: NodeProps) -> LspRange {
    let start = start_line_of(p);
    LspRange {
        start_line: start.saturating_sub(1),
        start_character: start_col_of(p),
        end_line: end_line_of(p, start).saturating_sub(1),
        end_character: end_col_of(p),
    }
}

/// The editor range read from the `start_line`/`start_col`/`end_line`/`end_col`
/// properties only: a missing start line is 1, a missing end line one after
/// the start.
pub open spec fn symbol_range_of(p: NodeProps) -> LspRange {
    let start = (match p.start_line { Some(x) => x as u32, None => 1u32 }).saturating_sub(1);
    LspRange {
        start_line: start,
        start_character: match p.start_col { Some(x) => x as u32, None => 0u32 },
        end_line: (match p.end_line { Some(x) => x as u32, None => (start + 1) as u32 }).saturating_sub(1),
        end_character: match p.end_col { Some(x) => x as u32, None => 0u32 },
    }
}

/// First line of a node.
pub fn get_line_start(p: &NodeProps) -> (r: u32)
    ensures
        r == start_line_of(*p),
{
    let v: i64 = match p.line_start {
        Some(x) => x,
        None => match p.start_line {
            Some(y) => y,
            None => 1,
        },
    };
    v as u32
}

/// Last line of a node, `d` when it has none.
pub fn get_line_end(p: &NodeProps, d: u32) -> (r: u32)
    ensures
        r == end_line_of(*p, d),
{
    match p.line_end {
        Some(x) => x as u32,
        None => match p.end_line {
            Some(y) => y as u32,
            None => d,
        },
    }
}

/// First column of a node.
pub fn get_col_start(p: &NodeProps) -> (r: u32)
    ensures
        r == start_col_of(*p),
{
    let v: i64 = match p.col_start {
        Some(x) => x,
        None => match p.start_col {
            Some(y) => y,
            None => 0,
        },
    };
    v as u32
}

/// Last column of a node.
pub fn get_col_end(p: &NodeProps) -> (r: u32)
    ensures
        r == end_col_of(*p),
{
    let v: i64 = match p.col_end {
        Some(x) => x,
        None => match p.end_col {
            Some(y) => y,
            None => 0,
        },
    };
    v as u32
}

/// The editor range of a node as the graph handlers report it.
pub fn node_to_range(p: &NodeProps) -> (r: LspRange)
    ensures
        r == node_range_of(*p),
{
    let start = get_line_start(p).saturating_sub(1);
    LspRange {
        start_line: start,
        start_character: get_col_start(p),
        end_line: get_line_end(p, start.wrapping_add(2)).saturating_sub(1),
        end_character: get_col_end(p),
    }
}

/// The editor range of a node as a location reports it.
pub fn location_range(p: &NodeProps) -> (r: LspRange)
    ensures
        r == location_range_of(*p),
{
    let start = get_line_start(p);
    LspRange {
        start_line: start.saturating_sub(1),
        start_character: get_col_start(p),
        end_line: get_line_end(p, start).saturating_sub(1),
        end_character: get_col_end(p),
    }
}

/// The editor range read from the `start_*`/`end_*` properties only.
pub fn symbol_range(p: &NodeProps) -> (r: LspRange)
    ensures
        r == symbol_range_of(*p),
{
    let start = (match p.start_line {
        Some(x) => x as u32,
        None => 1u32,
    }).saturating_sub(1);
    LspRange {
        start_line: start,
        start_character: match p.start_col {
            Some(x) => x as u32,
            None => 0u32,
        },
        end_line: (match p.end_line {
            Some(x) => x as u32,
            None => start + 1,
        }).saturating_sub(1),
        end_character: match p.end_col {
            Some(x) => x as u32,
            None => 0u32,
        },
    }
}

/// Whether 1-based line `line` and column `col` fall in a node's span: its
/// `line_start..=line_end` (missing as 0), not before `col_start` on the
/// first line (missing as 0), not after `col_end` on the last (missing as no
/// limit).
pub open spec fn covers(p: NodeProps, line: int, col: int) -> bool {
    let start: int = match p.line_start { Some(x) => x as int, None => 0 };
    let end: int = match p.line_end { Some(x) => x as int, None => 0 };
    let sc: int = match p.col_start { Some(x) => x as int, None => 0 };
    let ec: int = match p.col_end { Some(x) => x as int, None => i64::MAX as int };
    &&& start <= line <= end
    &&& !(line == start && col < sc)
    &&& !(line == end && col > ec)
}

/// Whether a node covers a position.
pub fn node_covers(p: &NodeProps, line: i64, col: i64) -> (r: bool)
    ensures
        r == covers(*p, line as int, col as int),
{
    let start: i64 = match p.line_start {
        Some(x) => x,
        None => 0,
    };
    let end: i64 = match p.line_end {
        Some(x) => x,
        None => 0,
    };
    let sc: i64 = match p.col_start {
        Some(x) => x,
        None => 0,
    };
    let ec: i64 = match p.col_end {
        Some(x) => x,
        None => i64::MAX,
    };
    if line >= start && line <= end {
        if line == start && col < sc {
            return false;
        }
        if line == end && col > ec {
            return false;
        }
        true
    } else {
        false
    }
}

/// The first of `symbols` that is in the graph and covers the position.
pub open spec fn first_covering(g: CodeGraph, symbols: Seq<u64>, line: int, col: int) -> Option<u64>
    decreases symbols.len(),
{
    if symbols.len() == 0 {
        None
    } else {
        let id = symbols[0];
        if g.has_node(id) && covers(g.node(id).props, line, col) {
            Some(id)
        } else {
            first_covering(g, symbols.drop_first(), line, col)
        }
    }
}

/// The node at a 0-based editor position: the symbol index's answer
/// `indexed` when it has one, else the first of the file's `symbols` that
/// covers the position (made 1-based).
pub fn find_node_at_position(
    g: &CodeGraph,
    indexed: Option<u64>,
    symbols: &Vec<u64>,
    line: u32,
    character: u32,
) -> (r: Option<u64>)
    requires
        g.wf(),
        line < u32::MAX,
    ensures
        r == match indexed {
            Some(id) => Some(id),
            None => first_covering(*g, symbols@, line + 1, character as int),
        },
{
    if let Some(id) = indexed {
        return Some(id);
    }
    let l: i64 = (line + 1) as i64;
    let c: i64 = character as i64;
    let mut i: usize = 0;
    assert(symbols@.skip(0) =~= symbols@);
    while i < symbols.len()
        invariant
            g.wf(),
            indexed is None,
            i <= symbols@.len(),
            l == line + 1,
            c == character,
            first_covering(*g, symbols@, l as int, c as int) == first_covering(*g, symbols@.skip(i as int), l as int, c as int),
        decreases symbols@.len() - i,
    {
        let id = symbols[i];
        proof {
            assert(symbols@.skip(i as int)[0] == id);
            assert(symbols@.skip(i as int).drop_first() =~= symbols@.skip(i + 1));
        }
        match g.get_node(id) {
            Some(n) => {
                if node_covers(&n.props, l, c) {
                    assert(first_covering(*g, symbols@.skip(i as int), l as int, c as int) == Some(id));
                    return Some(id);
                }
            },
            None => {},
        }
        i = i + 1;
    }
    proof {
        assert(symbols@.skip(i as int).len() == 0);
    }
    None
}

/// How far a node's lines are from a 1-based target line: 0 inside, the
/// lines ahead for a node after it, and the lines behind plus 1000 for a
/// node before it.
pub open spec fn line_distance(p: NodeProps, target: int) -> int {
    let start: int = match p.line_start { Some(x) => x as int, None => 0 };
    let end: int = match p.line_end { Some(x) => x as int, None => 0 };
    if start <= target && target <= end {
        0
    } else if start > target {
        start - target
    } else {
        (target - end) + 1000
    }
}

/// `id` is a node of the graph among `symbols` with the least distance to
/// `target`, the first such in order.
pub open spec fn nearest_among(g: CodeGraph, symbols: Seq<u64>, target: int, k: int) -> bool {
    &&& 0 <= k < symbols.len()
    &&& g.has_node(symbols[k])
    &&& forall|j: int|
        0 <= j < symbols.len() && g.has_node(#[trigger] symbols[j]) ==> line_distance(g.node(symbols[k]).props, target)
            <= line_distance(g.node(symbols[j]).props, target)
    &&& forall|j: int|
        0 <= j < k && g.has_node(#[trigger] symbols[j]) ==> line_distance(g.node(symbols[k]).props, target)
            < line_distance(g.node(symbols[j]).props, target)
}

/// The distance of a node to a target line.
fn node_distance(p: &NodeProps, target: i64) -> (r: i128)
    ensures
        r == line_distance(*p, target as int),
{
    let start: i128 = match p.line_start {
        Some(x) => x as i128,
        None => 0,
    };
    let end: i128 = match p.line_end {
        Some(x) => x as i128,
        None => 0,
    };
    let t = target as i128;
    if start <= t && t <= end {
        0
    } else if start > t {
        start - t
    } else {
        (t - end) + 1000
    }
}

/// `r` is the node at a position, or else the nearest of the file's
/// `symbols`, flagged as a fallback; none when nothing is found and the file
/// has no symbol in the graph.
pub open spec fn nearest_node_fits(
    g: CodeGraph,
    indexed: Option<u64>,
    symbols: Seq<u64>,
    line: u32,
    character: u32,
    r: Option<(u64, bool)>,
) -> bool {
    let exact = match indexed {
        Some(id) => Some(id),
        None => first_covering(g, symbols, line + 1, character as int),
    };
    match exact {
        Some(id) => r == Some((id, false)),
        None => match r {
            Some((id, fb)) => fb && exists|k: int| nearest_among(g, symbols, line + 1, k) && symbols[k] == id,
            None => forall|j: int| 0 <= j < symbols.len() ==> !g.has_node(#[trigger] symbols[j]),
        },
    }
}

/// The node at a position, or else the nearest of the file's symbols,
/// flagged as a fallback; none when nothing is found and the file has no
/// symbol in the graph.
pub fn find_nearest_node(
    g: &CodeGraph,
    indexed: Option<u64>,
    symbols: &Vec<u64>,
    line: u32,
    character: u32,
) -> (r: Option<(u64, bool)>)
    requires
        g.wf(),
        line < u32::MAX,
    ensures
        nearest_node_fits(*g, indexed, symbols@, line, character, r),
{
    if let Some(id) = find_node_at_position(g, indexed, symbols, line, character) {
        return Some((id, false));
    }
    let target: i64 = (line + 1) as i64;
    let mut best: Option<(u64, i128)> = None;
    let ghost mut best_k: int = -1;
    let mut i: usize = 0;
    while i < symbols.len()
        invariant
            g.wf(),
            i <= symbols@.len(),
            target == line + 1,
            match best {
                None => forall|j: int| 0 <= j < i ==> !g.has_node(#[trigger] symbols@[j]),
                Some((id, d)) => {
                    &&& 0 <= best_k < i
                    &&& symbols@[best_k] == id
                    &&& g.has_node(id)
                    &&& d == line_distance(g.node(id).props, target as int)
                    &&& forall|j: int|
                        0 <= j < i && g.has_node(#[trigger] symbols@[j]) ==> d <= line_distance(
                            g.node(symbols@[j]).props,
                            target as int,
                        )
                    &&& forall|j: int|
                        0 <= j < best_k && g.has_node(#[trigger] symbols@[j]) ==> d < line_distance(
                            g.node(symbols@[j]).props,
                            target as int,
                        )
                },
            },
        decreases symbols@.len() - i,
    {
        let id = symbols[i];
        match g.get_node(id) {
            Some(n) => {
                let d = node_distance(&n.props, target);
                let better = match best {
                    None => true,
                    Some((_, bd)) => d < bd,
                };
                if better {
                    best = Some((id, d));
                    proof {
                        best_k = i as int;
                    }
                }
            },
            None => {},
        }
        i = i + 1;
    }
    match best {
        Some((id, _)) => {
            proof {
                assert(nearest_among(*g, symbols@, line + 1, best_k));
            }
            Some((id, true))
        },
        None => None,
    }
}

/// An edge kind that leads from a reference to its definition.
pub open spec fn is_definition_link(t: EdgeType) -> bool {
    t == EdgeType::Calls || t == EdgeType::References || t == EdgeType::Imports
}

/// The definition a reference node leads to: the target of its first
/// outgoing `Calls`, `References` or `Imports` edge.
pub open spec fn definition_of(edges: Seq<GraphEdge>, id: u64) -> Option<u64> {
    let s = outgoing_of(edges, id).filter(|e: GraphEdge| is_definition_link(e.edge_type));
    if s.len() > 0 {
        Some(s[0].target)
    } else {
        None
    }
}

/// The definition a reference node leads to, if any.
pub fn find_definition_for_reference(g: &CodeGraph, ref_node_id: u64) -> (r: Option<u64>)
    ensures
        r == definition_of(g.edges@, ref_node_id),
{
    let edges = g.get_connected_edges(ref_node_id, Direction::Outgoing);
    let ghost out = outgoing_of(g.edges@, ref_node_id);
    let ghost pred = |e: GraphEdge| is_definition_link(e.edge_type);
    let mut i: usize = 0;
    while i < edges.len()
        invariant
            i <= edges@.len(),
            out == outgoing_of(g.edges@, ref_node_id),
            edges@ == out.map_values(|e: GraphEdge| crate::graph::edge_triple(e)),
            pred == (|e: GraphEdge| is_definition_link(e.edge_type)),
            out.take(i as int).filter(pred).len() == 0,
        decreases edges@.len() - i,
    {
        let (_, target, edge_type) = edges[i];
        proof {
            assert(edges@[i as int] == crate::graph::edge_triple(out[i as int]));
            assert(out.take(i + 1).drop_last() =~= out.take(i as int));
            reveal(Seq::filter);
        }
        let link = match edge_type {
            EdgeType::Calls => true,
            EdgeType::References => true,
            EdgeType::Imports => true,
            _ => false,
        };
        if link {
            proof {
                lemma_filter_first(out, pred, i as int);
            }
            return Some(target);
        }
        i = i + 1;
    }
    proof {
        assert(out.take(i as int) =~= out);
    }
    None
}

/// When nothing before position `i` satisfies `p` and `s[i]` does, `s[i]` is
/// the first element of the filter.
pub proof fn lemma_filter_first(s: Seq<GraphEdge>, p: spec_fn(GraphEdge) -> bool, i: int)
    requires
        0 <= i < s.len(),
        s.take(i).filter(p).len() == 0,
        p(s[i]),
    ensures
        s.filter(p).len() > 0,
        s.filter(p)[0] == s[i],
    decreases s.len() - i,
{
    reveal(Seq::filter);
    if i == s.len() - 1 {
        assert(s.drop_last() =~= s.take(i));
    } else {
        assert(s.drop_last().take(i) =~= s.take(i));
        lemma_filter_first(s.drop_last(), p, i);
    }
}

/// A request for the location of a node by its id.
#[derive(Clone, Debug)]
pub struct GetNodeLocationParams {
    pub node_id: String,
}

/// Why a location request is refused: the node id is not a number.
#[derive(Clone, Copy, Debug, PartialEq, Eq, Structural)]
pub enum LocationError {
    InvalidNodeId,
}

/// Where a node is: the file its `path` names and its range there.
#[derive(Clone, Debug)]
pub struct NodeLocation {
    pub path: String,
    pub range: LspRange,
}

/// The location of the node a request names: an error where the id is not
/// a number; none where the node is absent or records no path; else its
/// path and the range its `start_line`/`start_col`/`end_line`/`end_col`
/// properties give.
pub fn locate_node(g: &CodeGraph, params: &GetNodeLocationParams) -> (r: Result<Option<NodeLocation>, LocationError>)
    requires
        g.wf(),
    ensures
        match crate::text::parsed_u64(params.node_id@) {
            None => r == Err::<Option<NodeLocation>, LocationError>(LocationError::InvalidNodeId),
            Some(id) => match r {
                Ok(None) => !g.has_node(id) || g.node(id).props.path is None,
                Ok(Some(l)) => g.has_node(id) && g.node(id).props.path == Some(l.path) && l.range == symbol_range_of(
                    g.node(id).props,
                ),
                Err(_) => false,
            },
        },
{
    let id = match crate::text::parse_u64(params.node_id.as_str()) {
        Some(id) => id,
        None => {
            return Err(LocationError::InvalidNodeId);
        },
    };
    let n = match g.get_node(id) {
        Some(n) => n,
        None => {
            return Ok(None);
        },
    };
    match &n.props.path {
        Some(p) => Ok(Some(NodeLocation { path: p.clone(), range: symbol_range(&n.props) })),
        None => Ok(None),
    }
}

/// A request for workspace symbols.
#[derive(Clone, Debug)]
pub struct WorkspaceSymbolsParams {
    pub query: Option<String>,
}

/// A symbol listed for the workspace, with the path of its file.
#[derive(Clone, Debug)]
pub struct WorkspaceSymbol {
    pub id: String,
    pub name: String,
    pub kind: String,
    pub language: String,
    pub path: String,
    pub range: LspRange,
}

/// `s` lists node `id` of `g`.
pub open spec fn workspace_symbol_ok(g: CodeGraph, id: u64, s: WorkspaceSymbol) -> bool {
    let p = g.node(id).props;
    &&& s.id@ == crate::text::decimal(id as nat)
    &&& s.name@ == str_or_empty(p.name)
    &&& s.kind@ == crate::graph::node_type_name(g.node(id).node_type)
    &&& s.language@ == (match p.language {
        Some(l) => l@,
        None => "unknown"@,
    })
    &&& s.path@ == str_or_empty(p.path)
    &&& s.range == symbol_range_of(p)
}

/// The nodes of `ids` that are present, in order.
pub open spec fn present_ids(g: CodeGraph, ids: Seq<u64>) -> Seq<u64> {
    ids.filter(|id: u64| g.has_node(id))
}

/// The workspace symbols for the nodes `ids`, in order, absent nodes
/// skipped.
pub fn workspace_symbols(g: &CodeGraph, ids: &Vec<u64>) -> (r: Vec<WorkspaceSymbol>)
    requires
        g.wf(),
    ensures
        r@.len() == present_ids(*g, ids@).len(),
        forall|k: int| 0 <= k < r@.len() ==> workspace_symbol_ok(*g, present_ids(*g, ids@)[k], #[trigger] r@[k]),
{
    let ghost keep = |id: u64| g.has_node(id);
    let mut r: Vec<WorkspaceSymbol> = Vec::new();
    let mut i: usize = 0;
    while i < ids.len()
        invariant
            g.wf(),
            i <= ids@.len(),
            keep == (|id: u64| g.has_node(id)),
            r@.len() == ids@.take(i as int).filter(keep).len(),
            forall|k: int| 0 <= k < r@.len() ==> workspace_symbol_ok(*g, ids@.take(i as int).filter(keep)[k], #[trigger] r@[k]),
        decreases ids@.len() - i,
    {
        proof {
            assert(ids@.take(i + 1).drop_last() =~= ids@.take(i as int));
            reveal(Seq::filter);
        }
        let id = ids[i];
        match g.get_node(id) {
            Some(n) => {
                let language = match &n.props.language {
                    Some(l) => l.clone(),
                    None => crate::text::owned("unknown"),
                };
                r.push(
                    WorkspaceSymbol {
                        id: crate::text::decimal_string(id),
                        name: string_or_empty(&n.props.name),
                        kind: n.node_type.name(),
                        language,
                        path: string_or_empty(&n.props.path),
                        range: symbol_range(&n.props),
                    },
                );
            },
            None => {},
        }
        i = i + 1;
    }
    proof {
        assert(ids@.take(i as int) =~= ids@);
    }
    r
}

/// The nodes listed when no query is given: the functions, then the
/// classes, then the modules, at most 100 in all.
pub fn default_symbol_ids(functions: &Vec<u64>, classes: &Vec<u64>, modules: &Vec<u64>) -> (r: Vec<u64>)
    ensures
        ({
            let all = functions@ + classes@ + modules@;
            r@ == if all.len() <= 100 { all } else { all.take(100) }
        }),
{
    let ghost all = functions@ + classes@ + modules@;
    let mut r: Vec<u64> = Vec::new();
    let mut k: usize = 0;
    while k < functions.len() && r.len() < 100
        invariant
            k <= functions@.len(),
            r@ == functions@.take(k as int),
            r@.len() == k,
            k <= 100,
        decreases functions@.len() - k,
    {
        r.push(functions[k]);
        proof {
            assert(functions@.take(k + 1) =~= functions@.take(k as int).push(functions@[k as int]));
        }
        k = k + 1;
    }
    let mut j: usize = 0;
    while j < classes.len() && r.len() < 100
        invariant
            k <= functions@.len(),
            j <= classes@.len(),
            r@.len() <= 100,
            r@.len() < 100 ==> k == functions@.len(),
            j > 0 ==> k == functions@.len(),
            r@ == functions@.take(k as int) + classes@.take(j as int),
        decreases classes@.len() - j,
    {
        r.push(classes[j]);
        proof {
            assert(classes@.take(j + 1) =~= classes@.take(j as int).push(classes@[j as int]));
        }
        j = j + 1;
    }
    let mut m: usize = 0;
    while m < modules.len() && r.len() < 100
        invariant
            k <= functions@.len(),
            j <= classes@.len(),
            m <= modules@.len(),
            r@.len() <= 100,
            r@.len() < 100 ==> k == functions@.len() && j == classes@.len(),
            m > 0 ==> k == functions@.len() && j == classes@.len(),
            r@ == functions@.take(k as int) + classes@.take(j as int) + modules@.take(m as int),
        decreases modules@.len() - m,
    {
        r.push(modules[m]);
        proof {
            assert(modules@.take(m + 1) =~= modules@.take(m as int).push(modules@[m as int]));
        }
        m = m + 1;
    }
    proof {
        if r@.len() < 100 {
            assert(functions@.take(k as int) =~= functions@);
            assert(classes@.take(j as int) =~= classes@);
            assert(modules@.take(m as int) =~= modules@);
            assert(r@ =~= all);
        } else {
            assert(r@.len() == 100);
            assert forall|x: int| 0 <= x < 100 implies r@[x] == all[x] by {
                if x < k {
                    assert(r@[x] == functions@[x]);
                } else if x < k + j {
                    if k < functions@.len() {
                        assert(j == 0);
                    }
                    assert(r@[x] == classes@[x - k]);
                } else {
                    assert(r@[x] == modules@[x - k - j]);
                }
            }
            assert(r@ =~= all.take(100));
        }
    }
    r
}

/// Which symbols a workspace-symbols request lists.
#[derive(Clone, Debug)]
pub enum SymbolListing {
    /// The top-level symbols (modules), for an empty query.
    TopLevel,
    /// The symbols whose names match the query.
    ByName(String),
    /// Functions, classes and modules, at most 100, for no query.
    All,
}

/// Which symbols a workspace-symbols request lists: the top-level ones for
/// an empty query, those matching a non-empty query, all (capped) for none.
pub fn symbol_listing(params: &WorkspaceSymbolsParams) -> (r: SymbolListing)
    ensures
        match params.query {
            None => r is All,
            Some(q) => if q@.len() == 0 {
                r is TopLevel
            } else {
                r matches SymbolListing::ByName(s) && s@ == q@
            },
        },
{
    match &params.query {
        None => SymbolListing::All,
        Some(q) => if q.as_str().is_empty() {
            SymbolListing::TopLevel
        } else {
            SymbolListing::ByName(q.clone())
        },
    }
}

} // verus!
