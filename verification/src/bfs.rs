//! Breadth-first search with paths: every node reachable from a start node
//! within a number of steps, at the step it is first reached, with one
//! shortest walk leading to it.
use vstd::prelude::*;
use crate::graph::vec_contains_u64;
use crate::reach::{in_prefix, lemma_in_prefix_zero, lemma_in_prefix_step, lemma_in_prefix_full, succs, within, at_level, successors, lemma_within_mono, lemma_next_level, lemma_succ_in_next, lemma_push_contains, lemma_stable};

verus! {

/// `path` is a walk of `d` steps along `adj` from `start` to `v`.
pub open spec fn is_walk(adj: Seq<(u64, u64)>, start: u64, path: Seq<u64>, v: u64, d: nat) -> bool {
    &&& path.len() == d + 1
    &&& path[0] == start
    &&& path[d as int] == v
    &&& forall|k: int| 0 <= k < d ==> #[trigger] succs(adj, path[k]).contains(path[k + 1])
}

/// A node reached by the search: the step it was first reached at and the
/// walk that reached it.
pub struct Reached {
    pub node: u64,
    pub depth: u64,
    pub path: Vec<u64>,
}

/// A reached entry is correct: a node other than `start`, first reached after
/// `depth` steps (at least 1), along the recorded walk.
pub open spec fn reached_ok(adj: Seq<(u64, u64)>, start: u64, r: Reached) -> bool {
    &&& r.node != start
    &&& r.depth >= 1
    &&& at_level(adj, start, r.node, r.depth as nat)
    &&& is_walk(adj, start, r.path@, r.node, r.depth as nat)
}

/// The complete result of a search from `start` up to `max` steps: each node
/// other than `start` reachable within `max` steps exactly once, at its
/// level, in order of level.
pub open spec fn is_bfs(adj: Seq<(u64, u64)>, start: u64, max: nat, r: Seq<Reached>) -> bool {
    &&& forall|i: int| 0 <= i < r.len() ==> reached_ok(adj, start, #[trigger] r[i]) && r[i].depth <= max
    &&& forall|i: int, j: int| 0 <= i < j < r.len() ==> r[i].node != r[j].node
    &&& forall|i: int, j: int| 0 <= i < j < r.len() ==> r[i].depth <= r[j].depth
    &&& forall|v: u64| #[trigger] found(r, v) <==> (v != start && within(adj, start, max).contains(v))
}

/// Some entry of `r` is node `v`.
pub open spec fn found(r: Seq<Reached>, v: u64) -> bool {
    exists|i: int| 0 <= i < r.len() && (#[trigger] r[i]).node == v
}

/// Extending a walk by one step.
pub proof fn lemma_walk_push(adj: Seq<(u64, u64)>, start: u64, path: Seq<u64>, u: u64, d: nat, v: u64)
    requires
        is_walk(adj, start, path, u, d),
        succs(adj, u).contains(v),
    ensures
        is_walk(adj, start, path.push(v), v, d + 1),
{
    let p = path.push(v);
    assert forall|k: int| 0 <= k < d + 1 implies #[trigger] succs(adj, p[k]).contains(p[k + 1]) by {
        if k < d {
            assert(p[k] == path[k] && p[k + 1] == path[k + 1]);
            assert(succs(adj, path[k]).contains(path[k + 1]));
        } else {
            assert(p[k] == u);
        }
    }
}

/// A copy of a path.
pub fn copy_path(p: &Vec<u64>) -> (r: Vec<u64>)
    ensures
        r@ == p@,
{
    let mut r: Vec<u64> = Vec::new();
    let mut i: usize = 0;
    while i < p.len()
        invariant
            i <= p@.len(),
            r@ == p@.take(i as int),
        decreases p@.len() - i,
    {
        r.push(p[i]);
        assert(p@.take(i + 1) =~= p@.take(i as int).push(p@[i as int]));
        i = i + 1;
    }
    assert(p@.take(i as int) =~= p@);
    r
}

/// Record every successor of `u` that is not yet visited: mark it visited
/// and append it, with the walk to `u` extended by it, to `next`.
fn expand(
    adj: &Vec<(u64, u64)>,
    start: u64,
    u: u64,
    path: &Vec<u64>,
    d: u64,
    visited: &mut Vec<u64>,
    next: &mut Vec<Reached>,
)
    requires
        d < u64::MAX,
        is_walk(adj@, start, path@, u, d as nat),
        old(visited)@.contains(start),
        forall|i: int| 0 <= i < old(next)@.len() ==> #[trigger] old(visited)@.contains(old(next)@[i].node),
    ensures
        forall|v: u64| final(visited)@.contains(v) <==> (old(visited)@.contains(v) || succs(adj@, u).contains(v)),
        final(next)@.len() >= old(next)@.len(),
        forall|i: int| 0 <= i < old(next)@.len() ==> final(next)@[i] == old(next)@[i],
        forall|i: int|
            old(next)@.len() <= i < final(next)@.len() ==> {
                let e = #[trigger] final(next)@[i];
                &&& succs(adj@, u).contains(e.node)
                &&& !old(visited)@.contains(e.node)
                &&& e.depth == d + 1
                &&& is_walk(adj@, start, e.path@, e.node, (d + 1) as nat)
            },
        forall|i: int, j: int| old(next)@.len() <= i < j < final(next)@.len() ==> final(next)@[i].node != final(next)@[j].node,
        forall|v: u64|
            final(visited)@.contains(v) && !old(visited)@.contains(v) ==> exists|i: int|
                old(next)@.len() <= i < final(next)@.len() && (#[trigger] final(next)@[i]).node == v,
        forall|i: int| 0 <= i < final(next)@.len() ==> #[trigger] final(visited)@.contains(final(next)@[i].node),
{
    let succ = successors(adj, u);
    let ghost vis0 = visited@;
    let ghost next0 = next@;
    let mut m: usize = 0;
    proof {
        assert forall|w: u64| visited@.contains(w) <==> (vis0.contains(w) || in_prefix(succ@, 0, w)) by {
            lemma_in_prefix_zero(succ@, w);
        }
    }
    while m < succ.len()
        invariant
            m <= succ@.len(),
            d < u64::MAX,
            is_walk(adj@, start, path@, u, d as nat),
            forall|v: u64| succ@.contains(v) <==> succs(adj@, u).contains(v),
            forall|v: u64|
                visited@.contains(v) <==> (vis0.contains(v) || in_prefix(succ@, m as int, v)),
            next@.len() >= next0.len(),
            forall|i: int| 0 <= i < next0.len() ==> next@[i] == next0[i],
            forall|i: int|
                next0.len() <= i < next@.len() ==> {
                    let e = #[trigger] next@[i];
                    &&& succs(adj@, u).contains(e.node)
                    &&& !vis0.contains(e.node)
                    &&& e.depth == d + 1
                    &&& is_walk(adj@, start, e.path@, e.node, (d + 1) as nat)
                },
            forall|i: int, j: int| next0.len() <= i < j < next@.len() ==> next@[i].node != next@[j].node,
            forall|v: u64|
                visited@.contains(v) && !vis0.contains(v) ==> exists|i: int|
                    next0.len() <= i < next@.len() && (#[trigger] next@[i]).node == v,
            forall|i: int| 0 <= i < next@.len() ==> #[trigger] visited@.contains(next@[i].node),
        decreases succ@.len() - m,
    {
        let v = succ[m];
        proof {
            assert(succ@[m as int] == v);
            assert(succ@.contains(v));
        }
        let ghost vis_before = visited@;
        let ghost next_before = next@;
        if !vec_contains_u64(visited, v) {
            let mut p = copy_path(path);
            p.push(v);
            proof {
                lemma_walk_push(adj@, start, path@, u, d as nat, v);
            }
            visited.push(v);
            next.push(Reached { node: v, depth: d + 1, path: p });
            proof {
                assert forall|w: u64| visited@.contains(w) <==> (vis_before.contains(w) || w == v) by {
                    lemma_push_contains(vis_before, v, w);
                }
                assert forall|i: int, j: int| next0.len() <= i < j < next@.len() implies next@[i].node
                    != next@[j].node by {
                    if j == next@.len() - 1 {
                        assert(vis_before.contains(next_before[i].node));
                    }
                }
                assert forall|w: u64| visited@.contains(w) && !vis0.contains(w) implies exists|i: int|
                    next0.len() <= i < next@.len() && (#[trigger] next@[i]).node == w by {
                    if w == v {
                        assert(next@[next@.len() - 1].node == w);
                    } else {
                        let i = choose|i: int| next0.len() <= i < next_before.len() && (#[trigger] next_before[i]).node == w;
                        assert(next@[i].node == w);
                    }
                }
                assert forall|i: int| 0 <= i < next@.len() implies #[trigger] visited@.contains(next@[i].node) by {
                    if i < next_before.len() {
                        assert(vis_before.contains(next_before[i].node));
                    }
                }
            }
        }
        proof {
            assert forall|w: u64| visited@.contains(w) <==> (vis0.contains(w) || in_prefix(succ@, m + 1, w)) by {
                lemma_in_prefix_step(succ@, m as int, w);
            }
        }
        let ghost mm = m;
        m = m + 1;
        assert forall|w: u64| visited@.contains(w) <==> (vis0.contains(w) || in_prefix(succ@, m as int, w)) by {
            assert(visited@.contains(w) <==> (vis0.contains(w) || in_prefix(succ@, mm + 1, w)));
        }
    }
    proof {
        assert forall|w: u64| visited@.contains(w) <==> (vis0.contains(w) || succs(adj@, u).contains(w)) by {
            lemma_in_prefix_full(succ@, w);
            assert(m == succ@.len());
            assert(visited@.contains(w) <==> (vis0.contains(w) || in_prefix(succ@, succ@.len() as int, w)));
            assert(succ@.contains(w) <==> succs(adj@, u).contains(w));
        }
    }
}

/// `v` is a successor of one of the entries `r[lo..j]`.
pub closed spec fn expanded(adj: Seq<(u64, u64)>, r: Seq<Reached>, lo: int, j: int, v: u64) -> bool {
    exists|k: int| lo <= k < j && #[trigger] succs(adj, r[k].node).contains(v)
}

/// Extending the expanded range by one entry.
pub proof fn lemma_expanded_step(adj: Seq<(u64, u64)>, r: Seq<Reached>, lo: int, j: int, v: u64)
    requires
        lo <= j,
    ensures
        expanded(adj, r, lo, j + 1, v) <==> (expanded(adj, r, lo, j, v) || succs(adj, r[j].node).contains(v)),
{
    if expanded(adj, r, lo, j + 1, v) {
        let k = choose|k: int| lo <= k < j + 1 && #[trigger] succs(adj, r[k].node).contains(v);
        if k < j {
            assert(expanded(adj, r, lo, j, v));
        }
    }
    if expanded(adj, r, lo, j, v) {
        let k = choose|k: int| lo <= k < j && #[trigger] succs(adj, r[k].node).contains(v);
        assert(lo <= k < j + 1);
    }
    if succs(adj, r[j].node).contains(v) {
        assert(lo <= j < j + 1);
    }
}

/// A witness of an expanded node.
pub proof fn expanded_witness(adj: Seq<(u64, u64)>, r: Seq<Reached>, lo: int, j: int, v: u64) -> (k: int)
    requires
        expanded(adj, r, lo, j, v),
    ensures
        lo <= k < j,
        succs(adj, r[k].node).contains(v),
{
    choose|k: int| lo <= k < j && #[trigger] succs(adj, r[k].node).contains(v)
}

/// A node first reached at step `d` is reached at no other step.
pub proof fn lemma_level_unique(adj: Seq<(u64, u64)>, start: u64, v: u64, a: nat, b: nat)
    requires
        at_level(adj, start, v, a),
        at_level(adj, start, v, b),
    ensures
        a == b,
{
    if a < b {
        lemma_within_mono(adj, start, a, (b - 1) as nat);
    } else if b < a {
        lemma_within_mono(adj, start, b, (a - 1) as nat);
    }
}

/// Breadth-first search from `start` along `adj` up to `max_depth` steps:
/// every other node reachable within that many steps, once, at the step it
/// is first reached, with a shortest walk to it, in order of step.
pub fn bfs_walks(adj: &Vec<(u64, u64)>, start: u64, max_depth: u64) -> (r: Vec<Reached>)
    ensures
        is_bfs(adj@, start, max_depth as nat, r@),
{
    let ghost a = adj@;
    let mut results: Vec<Reached> = Vec::new();
    if max_depth == 0 {
        proof {
            assert(within(a, start, 0) =~= Set::empty());
        }
        return results;
    }
    let mut visited: Vec<u64> = Vec::new();
    visited.push(start);
    let mut sp: Vec<u64> = Vec::new();
    sp.push(start);
    proof {
        assert(is_walk(a, start, sp@, start, 0));
        assert(visited@[0] == start);
    }
    expand(adj, start, start, &sp, 0, &mut visited, &mut results);
    proof {
        assert(within(a, start, 0) =~= Set::empty());
        assert forall|v: u64| visited@.contains(v) <==> (v == start || within(a, start, 1).contains(v)) by {
            if v == start {
                assert(seq![start].contains(start));
            }
        }
        assert forall|i: int| 0 <= i < results@.len() implies reached_ok(a, start, #[trigger] results@[i])
            && results@[i].depth <= 1 by {
            assert(seq![start].contains(start));
        }
        assert forall|v: u64| #[trigger] found(results@, v) <==> (v != start && within(a, start, 1).contains(v)) by {
            if found(results@, v) {
                let i = choose|i: int| 0 <= i < results@.len() && (#[trigger] results@[i]).node == v;
                assert(reached_ok(a, start, results@[i]));
            }
            if v != start && within(a, start, 1).contains(v) {
                assert(!seq![start].contains(v)) by {
                    if seq![start].contains(v) {
                        let k = choose|k: int| 0 <= k < 1 && seq![start][k] == v;
                    }
                }
            }
        }
    }
    let mut lo: usize = 0;
    let mut d: u64 = 1;
    while d < max_depth && lo < results.len()
        invariant
            a == adj@,
            1 <= d <= max_depth,
            lo <= results@.len(),
            forall|v: u64| visited@.contains(v) <==> (v == start || within(a, start, d as nat).contains(v)),
            forall|i: int| 0 <= i < results@.len() ==> reached_ok(a, start, #[trigger] results@[i]) && results@[i].depth <= d,
            forall|i: int| 0 <= i < results@.len() ==> ((#[trigger] results@[i]).depth == d <==> i >= lo),
            forall|i: int| 0 <= i < results@.len() ==> #[trigger] visited@.contains(results@[i].node),
            forall|i: int, j: int| 0 <= i < j < results@.len() ==> results@[i].node != results@[j].node,
            forall|i: int, j: int| 0 <= i < j < results@.len() ==> results@[i].depth <= results@[j].depth,
            forall|v: u64| #[trigger] found(results@, v) <==> (v != start && within(a, start, d as nat).contains(v)),
        decreases max_depth - d,
    {
        let hi = results.len();
        let ghost res0 = results@;
        let ghost vis0 = visited@;
        let mut j: usize = lo;
        proof {
            assert forall|v: u64| visited@.contains(v) <==> (vis0.contains(v) || expanded(a, results@, lo as int, j as int, v)) by {}
        }
        while j < hi
            invariant
                a == adj@,
                1 <= d < max_depth,
                lo <= j <= hi <= results@.len(),
                hi == res0.len(),
                forall|i: int| 0 <= i < hi ==> results@[i] == res0[i],
                forall|v: u64| vis0.contains(v) <==> (v == start || within(a, start, d as nat).contains(v)),
                forall|i: int| 0 <= i < hi ==> reached_ok(a, start, #[trigger] res0[i]) && res0[i].depth <= d,
                forall|i: int| 0 <= i < hi ==> ((#[trigger] res0[i]).depth == d <==> i >= lo),
                forall|i: int, k: int| 0 <= i < k < hi ==> res0[i].depth <= res0[k].depth,
                forall|v: u64| #[trigger] found(res0, v) <==> (v != start && within(a, start, d as nat).contains(v)),
                forall|v: u64| visited@.contains(v) <==> (vis0.contains(v) || expanded(a, res0, lo as int, j as int, v)),
                forall|i: int|
                    hi <= i < results@.len() ==> {
                        let e = #[trigger] results@[i];
                        &&& !vis0.contains(e.node)
                        &&& e.depth == d + 1
                        &&& within(a, start, (d + 1) as nat).contains(e.node)
                        &&& is_walk(a, start, e.path@, e.node, (d + 1) as nat)
                    },
                forall|i: int, k: int| 0 <= i < k < results@.len() ==> results@[i].node != results@[k].node,
                forall|i: int| 0 <= i < results@.len() ==> #[trigger] visited@.contains(results@[i].node),
                forall|v: u64|
                    visited@.contains(v) && !vis0.contains(v) ==> exists|i: int|
                        hi <= i < results@.len() && (#[trigger] results@[i]).node == v,
            decreases hi - j,
        {
            let u = results[j].node;
            let p = copy_path(&results[j].path);
            let ghost before = results@;
            let ghost vis_before = visited@;
            proof {
                assert(results@[j as int] == res0[j as int]);
                assert(reached_ok(a, start, res0[j as int]));
                assert(vis0.contains(start));
                assert(visited@.contains(start));
            }
            expand(adj, start, u, &p, d, &mut visited, &mut results);
            proof {
                assert forall|i: int| 0 <= i < hi implies results@[i] == res0[i] by {
                    assert(results@[i] == before[i]);
                }
                assert forall|v: u64| visited@.contains(v) <==> (vis0.contains(v) || expanded(a, res0, lo as int, j + 1, v)) by {
                    lemma_expanded_step(a, res0, lo as int, j as int, v);
                }
                assert forall|i: int| hi <= i < results@.len() implies {
                    let e = #[trigger] results@[i];
                    &&& !vis0.contains(e.node)
                    &&& e.depth == d + 1
                    &&& within(a, start, (d + 1) as nat).contains(e.node)
                    &&& is_walk(a, start, e.path@, e.node, (d + 1) as nat)
                } by {
                    if i < before.len() {
                        assert(results@[i] == before[i]);
                    } else {
                        let e = results@[i];
                        assert(succs(a, u).contains(e.node));
                        lemma_succ_in_next(a, start, d as nat, u, e.node);
                    }
                }
                assert forall|i: int, k: int| 0 <= i < k < results@.len() implies results@[i].node != results@[k].node by {
                    if k >= before.len() && i < before.len() {
                        assert(results@[i] == before[i]);
                        assert(vis_before.contains(before[i].node));
                    }
                    if k < before.len() {
                        assert(results@[i] == before[i] && results@[k] == before[k]);
                    }
                }
                assert forall|v: u64| visited@.contains(v) && !vis0.contains(v) implies exists|i: int|
                    hi <= i < results@.len() && (#[trigger] results@[i]).node == v by {
                    if vis_before.contains(v) {
                        let i = choose|i: int| hi <= i < before.len() && (#[trigger] before[i]).node == v;
                        assert(results@[i] == before[i]);
                    }
                }
            }
            let ghost jj = j;
            j = j + 1;
            proof {
                assert forall|v: u64| visited@.contains(v) <==> (vis0.contains(v) || expanded(a, res0, lo as int, j as int, v)) by {
                    assert(visited@.contains(v) <==> (vis0.contains(v) || expanded(a, res0, lo as int, jj + 1, v)));
                }
            }
        }
        proof {
            let dn = d as nat;
            lemma_within_mono(a, start, dn, dn + 1);
            assert forall|v: u64| visited@.contains(v) <==> (v == start || within(a, start, dn + 1).contains(v)) by {
                if visited@.contains(v) && !vis0.contains(v) {
                    assert(expanded(a, res0, lo as int, hi as int, v));
                    let k = expanded_witness(a, res0, lo as int, hi as int, v);
                    assert(reached_ok(a, start, res0[k]));
                    assert(res0[k].depth == d);
                    assert(within(a, start, dn).contains(res0[k].node));
                    lemma_succ_in_next(a, start, dn, res0[k].node, v);
                }
                if vis0.contains(v) {
                    assert(visited@.contains(v));
                    if v != start {
                        assert(within(a, start, dn).contains(v));
                    }
                }
                if v == start {
                    assert(vis0.contains(v));
                }
                if within(a, start, dn).contains(v) {
                    assert(vis0.contains(v));
                }
                if within(a, start, dn + 1).contains(v) && !within(a, start, dn).contains(v) && v != start {
                    lemma_next_level(a, start, dn, v);
                    let u = choose|u: u64| #[trigger] at_level(a, start, u, dn) && succs(a, u).contains(v);
                    if u == start {
                        lemma_within_mono(a, start, 1, dn);
                        assert(within(a, start, 1).contains(v));
                    } else {
                        assert(found(res0, u));
                        let i = choose|i: int| 0 <= i < res0.len() && (#[trigger] res0[i]).node == u;
                        assert(reached_ok(a, start, res0[i]));
                        lemma_level_unique(a, start, u, res0[i].depth as nat, dn);
                        assert(i >= lo);
                        assert(succs(a, res0[i].node).contains(v));
                        assert(expanded(a, res0, lo as int, hi as int, v));
                    }
                }
            }
            assert forall|i: int| 0 <= i < results@.len() implies reached_ok(a, start, #[trigger] results@[i])
                && results@[i].depth <= d + 1 by {
                if i >= hi {
                    let e = results@[i];
                    assert(!vis0.contains(e.node));
                    assert(!within(a, start, dn).contains(e.node));
                    assert(e.node != start);
                    assert(at_level(a, start, e.node, (d + 1) as nat));
                } else {
                    assert(results@[i] == res0[i]);
                    assert(reached_ok(a, start, res0[i]));
                }
            }
            assert forall|v: u64| #[trigger] found(results@, v) <==> (v != start && within(a, start, dn + 1).contains(v)) by {
                if found(results@, v) {
                    let i = choose|i: int| 0 <= i < results@.len() && (#[trigger] results@[i]).node == v;
                    if i < hi {
                        assert(results@[i] == res0[i]);
                        assert(res0[i].node == v);
                        assert(found(res0, v));
                    } else {
                        assert(!vis0.contains(v));
                        assert(within(a, start, dn + 1).contains(v));
                    }
                }
                if v != start && within(a, start, dn + 1).contains(v) {
                    if within(a, start, dn).contains(v) {
                        assert(found(res0, v));
                        let i = choose|i: int| 0 <= i < res0.len() && (#[trigger] res0[i]).node == v;
                        assert(results@[i].node == v);
                    } else {
                        assert(visited@.contains(v));
                        assert(!vis0.contains(v));
                    }
                }
            }
            assert forall|i: int| 0 <= i < results@.len() implies ((#[trigger] results@[i]).depth == d + 1 <==> i >= hi) by {
                if i < hi {
                    assert(results@[i] == res0[i]);
                }
            }
            assert forall|i: int, k: int| 0 <= i < k < results@.len() implies results@[i].depth <= results@[k].depth by {
                if k < hi {
                    assert(results@[i] == res0[i] && results@[k] == res0[k]);
                } else if i < hi {
                    assert(results@[i] == res0[i]);
                }
            }
        }
        lo = hi;
        d = d + 1;
    }
    proof {
        let dn = d as nat;
        if d < max_depth {
            // No node but possibly `start` is first reached at step `d`: nothing new later.
            assert(within(a, start, dn + 1) =~= within(a, start, dn)) by {
                lemma_within_mono(a, start, dn, dn + 1);
                assert forall|v: u64| within(a, start, dn + 1).contains(v) implies within(a, start, dn).contains(v) by {
                    if !within(a, start, dn).contains(v) {
                        lemma_next_level(a, start, dn, v);
                        let u = choose|u: u64| #[trigger] at_level(a, start, u, dn) && succs(a, u).contains(v);
                        if u == start {
                            lemma_within_mono(a, start, 1, dn);
                            assert(within(a, start, 1).contains(v));
                        } else {
                            assert(found(results@, u));
                            let i = choose|i: int| 0 <= i < results@.len() && (#[trigger] results@[i]).node == u;
                            assert(reached_ok(a, start, results@[i]));
                            lemma_level_unique(a, start, u, results@[i].depth as nat, dn);
                            assert(i >= lo);
                        }
                    }
                }
            }
            lemma_stable(a, start, dn + 1, max_depth as nat);
        }
    }
    results
}

} // verus!
