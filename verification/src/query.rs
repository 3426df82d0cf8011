//! The query engine: symbol information, call chains, traversals and
//! signature, import and entry-point searches over a code graph.
use vstd::prelude::*;
use crate::graph::{CodeGraph, GraphNode, GraphEdge, EdgeType, NodeProps, NodeType, node_type_name, select_edges};
use crate::primitives::{SymbolInfo, SymbolInfoV, SymbolLocation, SymbolLocationV, CallInfo, opt_view};
use crate::reach::{lemma_push_contains, in_prefix, in_prefix_index, lemma_in_prefix_zero, lemma_in_prefix_step, lemma_in_prefix_full, within, at_level, succs, successors, swap_pairs, swapped, lemma_within_mono, lemma_next_level, lemma_succ_in_next, lemma_stable};
use crate::text::owned;

verus! {

/// The first present of two integer properties, else `d`.
pub open spec fn int_or(a: Option<i64>, b: Option<i64>, d: i64) -> i64 {
    match a {
        Some(x) => x,
        None => match b {
            Some(y) => y,
            None => d,
        },
    }
}

/// The first present of two boolean properties, else `d`.
pub open spec fn bool_or(a: Option<bool>, b: Option<bool>, d: bool) -> bool {
    match a {
        Some(x) => x,
        None => match b {
            Some(y) => y,
            None => d,
        },
    }
}

/// A string property, or the empty string.
pub open spec fn str_or_empty(s: Option<String>) -> Seq<char> {
    match s {
        Some(x) => x@,
        None => seq![],
    }
}

/// Whether a node counts as public: `is_public`, else `exported`, else true.
pub open spec fn public_of(p: NodeProps) -> bool {
    bool_or(p.is_public, p.exported, true)
}

/// Source location of a node (lines 1-based, columns 0-based), reading both
/// property naming conventions.
pub open spec fn location_of(p: NodeProps) -> SymbolLocationV {
    let line = int_or(p.line_start, p.start_line, 1) as u32;
    SymbolLocationV {
        file: str_or_empty(p.path),
        line: line,
        column: int_or(p.col_start, p.start_col, 0) as u32,
        end_line: int_or(p.line_end, p.end_line, line as i64) as u32,
        end_column: int_or(p.col_end, p.end_col, 0) as u32,
    }
}

/// Symbol information of a node: none when it has no name.
pub open spec fn symbol_info_of(n: GraphNode) -> Option<SymbolInfoV> {
    match n.props.name {
        None => None,
        Some(name) => Some(
            SymbolInfoV {
                name: name@,
                kind: node_type_name(n.node_type),
                location: location_of(n.props),
                signature: opt_view(n.props.signature),
                docstring: opt_view(n.props.doc),
                is_public: public_of(n.props),
            },
        ),
    }
}

/// Symbol information of the node with id `id`, none when absent.
pub open spec fn info_of_id(g: CodeGraph, id: u64) -> Option<SymbolInfoV> {
    if g.has_node(id) {
        symbol_info_of(g.node(id))
    } else {
        None
    }
}

/// View of an optional symbol information.
pub open spec fn opt_info(s: Option<SymbolInfo>) -> Option<SymbolInfoV> {
    match s {
        Some(x) => Some(x@),
        None => None,
    }
}

/// Copy of an optional string.
pub fn clone_opt(s: &Option<String>) -> (r: Option<String>)
    ensures
        opt_view(r) == opt_view(*s),
{
    match s {
        Some(x) => Some(x.clone()),
        None => None,
    }
}

/// A string property or the empty string.
pub fn string_or_empty(s: &Option<String>) -> (r: String)
    ensures
        r@ == str_or_empty(*s),
{
    match s {
        Some(x) => x.clone(),
        None => String::new(),
    }
}

/// First of two integer properties, else `d`.
pub fn first_int(a: Option<i64>, b: Option<i64>, d: i64) -> (r: i64)
    ensures
        r == int_or(a, b, d),
{
    match a {
        Some(x) => x,
        None => match b {
            Some(y) => y,
            None => d,
        },
    }
}

/// First of two boolean properties, else `d`.
pub fn first_bool(a: Option<bool>, b: Option<bool>, d: bool) -> (r: bool)
    ensures
        r == bool_or(a, b, d),
{
    match a {
        Some(x) => x,
        None => match b {
            Some(y) => y,
            None => d,
        },
    }
}

/// The source location of a node's properties.
pub fn location_from(p: &NodeProps) -> (r: SymbolLocation)
    ensures
        r@ == location_of(*p),
{
    let line = first_int(p.line_start, p.start_line, 1) as u32;
    SymbolLocation {
        file: string_or_empty(&p.path),
        line: line,
        column: first_int(p.col_start, p.start_col, 0) as u32,
        end_line: first_int(p.line_end, p.end_line, line as i64) as u32,
        end_column: first_int(p.col_end, p.end_col, 0) as u32,
    }
}

/// Symbol information of a node; none when the node has no name.
pub fn node_symbol_info(n: &GraphNode) -> (r: Option<SymbolInfo>)
    ensures
        opt_info(r) == symbol_info_of(*n),
{
    match &n.props.name {
        None => None,
        Some(name) => Some(
            SymbolInfo {
                name: name.clone(),
                kind: n.node_type.name(),
                location: location_from(&n.props),
                signature: clone_opt(&n.props.signature),
                docstring: clone_opt(&n.props.doc),
                is_public: first_bool(n.props.is_public, n.props.exported, true),
            },
        ),
    }
}

/// Symbol information of the node with id `id`; none when absent or unnamed.
pub fn node_to_symbol_info(g: &CodeGraph, id: u64) -> (r: Option<SymbolInfo>)
    requires
        g.wf(),
    ensures
        opt_info(r) == info_of_id(*g, id),
{
    match g.get_node(id) {
        Some(n) => node_symbol_info(n),
        None => None,
    }
}

/// A call chain reported for `start` within `max` steps of `adj` is exactly
/// the named nodes first reached at each step, each once, with the step as
/// its depth, in order of depth.
pub open spec fn is_call_chain(
    g: CodeGraph,
    adj: Seq<(u64, u64)>,
    start: u64,
    max: u32,
    r: Seq<CallInfo>,
) -> bool {
    &&& forall|i: int|
        0 <= i < r.len() ==> {
            let c = #[trigger] r[i];
            &&& 1 <= c.depth <= max
            &&& at_level(adj, start, c.node_id, c.depth as nat)
            &&& info_of_id(g, c.node_id) == Some(c.symbol@)
            &&& c.call_site@ == c.symbol@.location
        }
    &&& forall|i: int, j: int| 0 <= i < j < r.len() ==> r[i].node_id != r[j].node_id
    &&& forall|i: int, j: int| 0 <= i < j < r.len() ==> r[i].depth <= r[j].depth
    &&& forall|v: u64|
        within(adj, start, max as nat).contains(v) && info_of_id(g, v) is Some ==> exists|i: int|
            0 <= i < r.len() && (#[trigger] r[i]).node_id == v
}

/// Invariant of the walk: `results` reports exactly the named nodes of
/// `visited`, each once, at the step it was first reached (at most `top`),
/// in order of step.
pub open spec fn chain_state_ok(
    g: CodeGraph,
    a: Seq<(u64, u64)>,
    start: u64,
    results: Seq<CallInfo>,
    visited: Seq<u64>,
    top: nat,
) -> bool {
    &&& forall|i: int|
        0 <= i < results.len() ==> {
            let c = #[trigger] results[i];
            &&& 1 <= c.depth
            &&& c.depth as nat <= top
            &&& at_level(a, start, c.node_id, c.depth as nat)
            &&& info_of_id(g, c.node_id) == Some(c.symbol@)
            &&& c.call_site@ == c.symbol@.location
        }
    &&& forall|i: int, j: int| 0 <= i < j < results.len() ==> results[i].node_id != results[j].node_id
    &&& forall|i: int, j: int| 0 <= i < j < results.len() ==> results[i].depth <= results[j].depth
    &&& forall|v: u64|
        #[trigger] reported(results, v) <==> (visited.contains(v) && info_of_id(g, v) is Some)
}

/// Some entry of `results` reports node `v`.
pub open spec fn reported(results: Seq<CallInfo>, v: u64) -> bool {
    exists|i: int| 0 <= i < results.len() && (#[trigger] results[i]).node_id == v
}

/// Reporting after appending one more entry.
pub proof fn lemma_reported_push(results: Seq<CallInfo>, c: CallInfo, v: u64)
    ensures
        reported(results.push(c), v) <==> (reported(results, v) || c.node_id == v),
{
    let r = results.push(c);
    if reported(r, v) {
        let i = choose|i: int| 0 <= i < r.len() && (#[trigger] r[i]).node_id == v;
        if i < results.len() {
            assert(results[i].node_id == v);
        }
    }
    if reported(results, v) {
        let i = choose|i: int| 0 <= i < results.len() && (#[trigger] results[i]).node_id == v;
        assert(r[i] == results[i]);
    }
    if c.node_id == v {
        assert(r[results.len() as int].node_id == v);
    }
}

/// Record the first visit of `u` at step `depth`.
fn record_visit(
    g: &CodeGraph,
    adj: &Vec<(u64, u64)>,
    start: u64,
    u: u64,
    depth: u64,
    results: &mut Vec<CallInfo>,
    visited: &Vec<u64>,
)
    requires
        g.wf(),
        1 <= depth <= u32::MAX,
        chain_state_ok(*g, adj@, start, old(results)@, visited@, depth as nat),
        !visited@.contains(u),
        at_level(adj@, start, u, depth as nat),
    ensures
        chain_state_ok(*g, adj@, start, final(results)@, visited@.push(u), depth as nat),
{
    let ghost res_before = results@;
    let ghost vis = visited@;
    proof {
        assert forall|v: u64| vis.push(u).contains(v) <==> (vis.contains(v) || v == u) by {
            lemma_push_contains(vis, u, v);
        }
    }
    match node_to_symbol_info(g, u) {
        Some(symbol) => {
            let call_site = SymbolLocation {
                file: symbol.location.file.clone(),
                line: symbol.location.line,
                column: symbol.location.column,
                end_line: symbol.location.end_line,
                end_column: symbol.location.end_column,
            };
            let c = CallInfo { node_id: u, symbol, call_site, depth: depth as u32 };
            let ghost cg = c;
            results.push(c);
            proof {
                let r = results@;
                assert(r == res_before.push(cg));
                assert forall|v: u64| #[trigger] reported(r, v) <==> (vis.push(u).contains(v) && info_of_id(*g, v) is Some) by {
                    lemma_reported_push(res_before, cg, v);
                    assert(reported(res_before, v) <==> (vis.contains(v) && info_of_id(*g, v) is Some));
                }
                assert forall|i: int, k: int| 0 <= i < k < r.len() implies r[i].node_id != r[k].node_id by {
                    if k == r.len() - 1 {
                        assert(r[i] == res_before[i]);
                        assert(reported(res_before, res_before[i].node_id));
                    }
                }
            }
        },
        None => {
            proof {
                assert forall|v: u64| #[trigger] reported(results@, v) <==> (vis.push(u).contains(v) && info_of_id(*g, v) is Some) by {
                    assert(reported(res_before, v) <==> (vis.contains(v) && info_of_id(*g, v) is Some));
                }
            }
        },
    }
}

/// Append to `next` every successor of `u` that is not in `visited`.
fn push_unvisited_succs(adj: &Vec<(u64, u64)>, u: u64, visited: &Vec<u64>, next: &mut Vec<u64>)
    ensures
        forall|w: u64| old(next)@.contains(w) ==> final(next)@.contains(w),
        forall|w: u64| final(next)@.contains(w) ==> old(next)@.contains(w) || succs(adj@, u).contains(w),
        forall|w: u64| #[trigger] succs(adj@, u).contains(w) ==> final(next)@.contains(w) || visited@.contains(w),
{
    let succ = successors(adj, u);
    let ghost start_next = next@;
    let mut m: usize = 0;
    while m < succ.len()
        invariant
            m <= succ@.len(),
            forall|v: u64| succ@.contains(v) <==> succs(adj@, u).contains(v),
            forall|w: u64| start_next.contains(w) ==> next@.contains(w),
            forall|w: u64| next@.contains(w) ==> start_next.contains(w) || succs(adj@, u).contains(w),
            forall|k: int| 0 <= k < m ==> next@.contains(succ@[k]) || visited@.contains(succ@[k]),
        decreases succ@.len() - m,
    {
        let v = succ[m];
        proof {
            assert(succ@[m as int] == v);
            assert(succ@.contains(v));
        }
        let ghost next_before = next@;
        let seen = crate::graph::vec_contains_u64(visited, v);
        if !seen {
            next.push(v);
        }
        proof {
            assert forall|w: u64| next_before.contains(w) || (w == v && !seen) <==> next@.contains(w) by {
                if !seen {
                    lemma_push_contains(next_before, v, w);
                }
            }
            assert forall|k: int| 0 <= k < m + 1 implies next@.contains(succ@[k]) || visited@.contains(succ@[k]) by {
                if !seen {
                    lemma_push_contains(next_before, v, succ@[k]);
                }
            }
        }
        m = m + 1;
    }
    proof {
        assert forall|w: u64| #[trigger] succs(adj@, u).contains(w) implies next@.contains(w) || visited@.contains(w) by {
            assert(succ@.contains(w));
            let k = choose|k: int| 0 <= k < succ@.len() && succ@[k] == w;
        }
    }
}

/// Breadth-first walk of `adj` from `start`, up to `max_depth` steps,
/// reporting each named node at the step it is first reached.
pub fn call_chain(g: &CodeGraph, adj: &Vec<(u64, u64)>, start: u64, max_depth: u32) -> (r: Vec<CallInfo>)
    requires
        g.wf(),
    ensures
        is_call_chain(*g, adj@, start, max_depth, r@),
{
    let ghost a = adj@;
    let mut visited: Vec<u64> = Vec::new();
    let mut results: Vec<CallInfo> = Vec::new();
    let mut frontier = successors(adj, start);
    let mut depth: u64 = 1;
    proof {
        assert(within(a, start, 0) =~= Set::empty());
    }
    while depth <= max_depth as u64 && frontier.len() > 0
        invariant
            g.wf(),
            a == adj@,
            1 <= depth <= max_depth as u64 + 1,
            forall|v: u64| visited@.contains(v) <==> within(a, start, (depth - 1) as nat).contains(v),
            forall|v: u64| frontier@.contains(v) ==> within(a, start, depth as nat).contains(v),
            depth <= max_depth as u64 ==> forall|v: u64|
                at_level(a, start, v, depth as nat) ==> #[trigger] frontier@.contains(v),
            chain_state_ok(*g, a, start, results@, visited@, (depth - 1) as nat),
        decreases max_depth as u64 + 1 - depth,
    {
        let mut next: Vec<u64> = Vec::new();
        let ghost d = depth as nat;
        let ghost visited0 = visited@;
        assert forall|v: u64| visited@.contains(v) <==> (visited0.contains(v) || in_prefix(frontier@, 0, v)) by {
            lemma_in_prefix_zero(frontier@, v);
        }
        let mut j: usize = 0;
        while j < frontier.len()
            invariant
                g.wf(),
                a == adj@,
                d == depth as nat,
                1 <= depth <= max_depth as u64,
                j <= frontier@.len(),
                forall|v: u64| visited0.contains(v) <==> within(a, start, (d - 1) as nat).contains(v),
                forall|v: u64| frontier@.contains(v) ==> within(a, start, d).contains(v),
                forall|v: u64|
                    visited@.contains(v) <==> (visited0.contains(v) || in_prefix(frontier@, j as int, v)),
                forall|v: u64| next@.contains(v) ==> within(a, start, d + 1).contains(v),
                depth < max_depth as u64 ==> forall|k: int, v: u64|
                    0 <= k < j && !visited0.contains(frontier@[k]) && #[trigger] succs(a, frontier@[k]).contains(v)
                        ==> next@.contains(v) || visited@.contains(v),
                chain_state_ok(*g, a, start, results@, visited@, d),
            decreases frontier@.len() - j,
        {
            let u = frontier[j];
            let ghost vis_before = visited@;
            let ghost next_body_start = next@;
            assert(forall|v: u64| vis_before.contains(v) <==> (visited0.contains(v) || in_prefix(frontier@, j as int, v)));
            proof {
                assert(frontier@[j as int] == u);
                assert(frontier@.contains(u));
            }
            if !crate::graph::vec_contains_u64(&visited, u) {
                proof {
                    assert(!visited0.contains(u));
                    assert(within(a, start, d).contains(u));
                    assert(at_level(a, start, u, d));
                }
                record_visit(g, adj, start, u, depth, &mut results, &visited);
                visited.push(u);
                proof {
                    assert(visited@ == vis_before.push(u));
                    assert forall|v: u64| visited@.contains(v) <==> (visited0.contains(v) || in_prefix(frontier@, j + 1, v)) by {
                        lemma_push_contains(vis_before, u, v);
                        lemma_in_prefix_step(frontier@, j as int, v);
                    }
                    assert forall|v: u64| visited@.contains(v) <==> (vis_before.contains(v) || v == u) by {
                        lemma_push_contains(vis_before, u, v);
                    }
                }
                if depth < max_depth as u64 {
                    let ghost next_start = next@;
                    push_unvisited_succs(adj, u, &visited, &mut next);
                    proof {
                        assert forall|w: u64| next@.contains(w) implies within(a, start, d + 1).contains(w) by {
                            if !next_start.contains(w) {
                                lemma_succ_in_next(a, start, d, u, w);
                            }
                        }
                    }
                }
            }
            proof {
                if vis_before.contains(u) {
                    assert(visited@ == vis_before);
                    assert(next@ == next_body_start);
                    assert forall|v: u64| visited@.contains(v) <==> (visited0.contains(v) || in_prefix(frontier@, j + 1, v)) by {
                        lemma_in_prefix_step(frontier@, j as int, v);
                    }
                }
                assert(forall|v: u64| vis_before.contains(v) ==> visited@.contains(v));
                assert(forall|v: u64| next_body_start.contains(v) ==> next@.contains(v));
                assert(forall|v: u64| #[trigger] visited@.contains(v) <==> (visited0.contains(v) || in_prefix(frontier@, j + 1, v)));
                if depth < max_depth as u64 {
                    assert forall|k: int, v: u64|
                        0 <= k < j + 1 && !visited0.contains(frontier@[k]) && #[trigger] succs(a, frontier@[k]).contains(v)
                            implies next@.contains(v) || visited@.contains(v) by {
                        if k < j {
                            assert(next_body_start.contains(v) || vis_before.contains(v));
                        } else if vis_before.contains(u) {
                            assert(in_prefix(frontier@, j as int, u));
                            let k2 = in_prefix_index(frontier@, j as int, u);
                            assert(succs(a, frontier@[k2]).contains(v));
                            assert(next_body_start.contains(v) || vis_before.contains(v));
                        }
                    }
                }
            }
            let ghost jj = j;
            j = j + 1;
            assert(j as int == jj + 1);
            assert forall|v: u64| visited@.contains(v) <==> (visited0.contains(v) || in_prefix(frontier@, j as int, v)) by {
                assert(visited@.contains(v) <==> (visited0.contains(v) || in_prefix(frontier@, jj + 1, v)));
            }
        }
        proof {
            lemma_within_mono(a, start, (d - 1) as nat, d);
            assert forall|v: u64| visited@.contains(v) <==> within(a, start, d).contains(v) by {
                lemma_in_prefix_full(frontier@, v);
                assert(visited@.contains(v) <==> (visited0.contains(v) || in_prefix(frontier@, j as int, v)));
                assert(visited0.contains(v) <==> within(a, start, (d - 1) as nat).contains(v));
                if within(a, start, d).contains(v) && !within(a, start, (d - 1) as nat).contains(v) {
                    assert(at_level(a, start, v, d));
                }
            }
            if depth < max_depth as u64 {
                assert forall|v: u64| at_level(a, start, v, d + 1) implies #[trigger] next@.contains(v) by {
                    lemma_next_level(a, start, d, v);
                    let u = choose|u: u64| #[trigger] at_level(a, start, u, d) && succs(a, u).contains(v);
                    assert(frontier@.contains(u));
                    let k = choose|k: int| 0 <= k < frontier@.len() && frontier@[k] == u;
                    assert(!visited0.contains(frontier@[k]));
                    assert(succs(a, frontier@[k]).contains(v));
                }
            }
        }
        frontier = next;
        depth = depth + 1;
    }
    proof {
        if depth <= max_depth as u64 {
            // The frontier ran out: nothing new is reachable at step `depth`.
            assert(within(a, start, depth as nat) =~= within(a, start, (depth - 1) as nat)) by {
                lemma_within_mono(a, start, (depth - 1) as nat, depth as nat);
                assert forall|v: u64| within(a, start, depth as nat).contains(v) implies within(
                    a,
                    start,
                    (depth - 1) as nat,
                ).contains(v) by {
                    if !within(a, start, (depth - 1) as nat).contains(v) {
                        assert(at_level(a, start, v, depth as nat));
                        assert(frontier@.contains(v));
                    }
                }
            }
            lemma_stable(a, start, depth as nat, max_depth as nat);
        }
        assert forall|i: int| 0 <= i < results@.len() implies (#[trigger] results@[i]).depth <= max_depth by {}
        assert forall|v: u64|
            within(a, start, max_depth as nat).contains(v) && info_of_id(*g, v) is Some implies exists|i: int|
                0 <= i < results@.len() && (#[trigger] results@[i]).node_id == v by {
            assert(visited@.contains(v));
            assert(reported(results@, v));
        }
    }
    results
}

} // verus!
