//! Breadth-first reachability over an adjacency list of `(from, to)` pairs:
//! the sets of nodes reachable in at most `k` steps, and their properties.
use vstd::prelude::*;

verus! {

/// Nodes one step after `x`.
pub open spec fn succs(adj: Seq<(u64, u64)>, x: u64) -> Set<u64> {
    Set::new(|v: u64| exists|k: int| 0 <= k < adj.len() && #[trigger] adj[k] == (x, v))
}

/// Nodes one step after some node of `s`.
pub open spec fn image(adj: Seq<(u64, u64)>, s: Set<u64>) -> Set<u64> {
    Set::new(|v: u64| exists|u: u64| s.contains(u) && #[trigger] succs(adj, u).contains(v))
}

/// Nodes reachable from `start` by a path of 1 to `k` steps.
pub open spec fn within(adj: Seq<(u64, u64)>, start: u64, k: nat) -> Set<u64>
    decreases k,
{
    if k == 0 {
        Set::empty()
    } else if k == 1 {
        succs(adj, start)
    } else {
        let w = within(adj, start, (k - 1) as nat);
        w.union(image(adj, w))
    }
}

/// `v` is first reached after exactly `d` steps.
pub open spec fn at_level(adj: Seq<(u64, u64)>, start: u64, v: u64, d: nat) -> bool {
    d >= 1 && within(adj, start, d).contains(v) && !within(adj, start, (d - 1) as nat).contains(v)
}

/// Reachability sets grow with the step bound.
pub proof fn lemma_within_mono(adj: Seq<(u64, u64)>, start: u64, a: nat, b: nat)
    requires
        a <= b,
    ensures
        within(adj, start, a).subset_of(within(adj, start, b)),
    decreases b - a,
{
    if a < b {
        lemma_within_mono(adj, start, a, (b - 1) as nat);
        if b >= 2 {
            assert(within(adj, start, (b - 1) as nat).subset_of(within(adj, start, b)));
        } else {
            assert(within(adj, start, a) =~= Set::empty());
        }
    }
}

/// One more step only adds successors of the nodes first reached at the last step.
pub proof fn lemma_next_level(adj: Seq<(u64, u64)>, start: u64, d: nat, v: u64)
    requires
        d >= 1,
        within(adj, start, d + 1).contains(v),
        !within(adj, start, d).contains(v),
    ensures
        exists|u: u64| #[trigger] at_level(adj, start, u, d) && succs(adj, u).contains(v),
{
    let w = within(adj, start, d);
    assert(image(adj, w).contains(v));
    let u = choose|u: u64| w.contains(u) && #[trigger] succs(adj, u).contains(v);
    if d >= 2 {
        let w0 = within(adj, start, (d - 1) as nat);
        if w0.contains(u) {
            assert(image(adj, w0).contains(v));
            assert(w.contains(v));
        }
    }
    assert(at_level(adj, start, u, d));
}

/// Successors of anything reached within `d` steps are reached within `d + 1`.
pub proof fn lemma_succ_in_next(adj: Seq<(u64, u64)>, start: u64, d: nat, u: u64, v: u64)
    requires
        d >= 1,
        within(adj, start, d).contains(u),
        succs(adj, u).contains(v),
    ensures
        within(adj, start, d + 1).contains(v),
{
    assert(image(adj, within(adj, start, d)).contains(v));
}

/// Once a step adds nothing new, no later step does.
pub proof fn lemma_stable(adj: Seq<(u64, u64)>, start: u64, d: nat, k: nat)
    requires
        d >= 1,
        within(adj, start, d) == within(adj, start, (d - 1) as nat),
        k >= d,
    ensures
        within(adj, start, k) == within(adj, start, (d - 1) as nat),
    decreases k - d,
{
    if k > d {
        lemma_stable(adj, start, d, (k - 1) as nat);
        let w = within(adj, start, (k - 1) as nat);
        let w0 = within(adj, start, (d - 1) as nat);
        assert(w == w0);
        assert forall|v: u64| image(adj, w).contains(v) implies w.contains(v) by {
            let u = choose|u: u64| w.contains(u) && #[trigger] succs(adj, u).contains(v);
            if d >= 2 {
                assert(image(adj, within(adj, start, (d - 1) as nat)).contains(v));
                assert(within(adj, start, d).contains(v));
            } else {
                assert(w0 =~= Set::empty());
            }
        }
        assert(within(adj, start, k) =~= w);
    }
}

/// `v` is among the first `j` elements of `s`.
pub closed spec fn in_prefix(s: Seq<u64>, j: int, v: u64) -> bool {
    exists|k: int| 0 <= k < j && #[trigger] s[k] == v
}

/// Extending a prefix by one element.
pub proof fn lemma_in_prefix_step(s: Seq<u64>, j: int, v: u64)
    requires
        0 <= j < s.len(),
    ensures
        in_prefix(s, j + 1, v) <==> (in_prefix(s, j, v) || s[j] == v),
{
    if in_prefix(s, j + 1, v) {
        let k = choose|k: int| 0 <= k < j + 1 && #[trigger] s[k] == v;
        if k < j {
            assert(in_prefix(s, j, v));
        }
    }
    if in_prefix(s, j, v) {
        let k = choose|k: int| 0 <= k < j && #[trigger] s[k] == v;
        assert(0 <= k < j + 1 && s[k] == v);
    }
    if s[j] == v {
        assert(0 <= j < j + 1 && s[j] == v);
    }
}

/// Nothing is in the empty prefix.
pub proof fn lemma_in_prefix_zero(s: Seq<u64>, v: u64)
    ensures
        !in_prefix(s, 0, v),
{
}

/// A position of `v` within the prefix.
pub proof fn in_prefix_index(s: Seq<u64>, j: int, v: u64) -> (k: int)
    requires
        in_prefix(s, j, v),
    ensures
        0 <= k < j,
        s[k] == v,
{
    choose|k: int| 0 <= k < j && #[trigger] s[k] == v
}

/// The whole sequence as a prefix.
pub proof fn lemma_in_prefix_full(s: Seq<u64>, v: u64)
    ensures
        in_prefix(s, s.len() as int, v) <==> s.contains(v),
{
    if s.contains(v) {
        let k = choose|k: int| 0 <= k < s.len() && s[k] == v;
        assert(0 <= k < s.len() && s[k] == v);
    }
}

/// Membership after a push.
pub proof fn lemma_push_contains<A>(s: Seq<A>, x: A, v: A)
    ensures
        s.push(x).contains(v) <==> (s.contains(v) || v == x),
{
    if s.contains(v) {
        let i = choose|i: int| 0 <= i < s.len() && s[i] == v;
        assert(s.push(x)[i] == v);
    }
    if v == x {
        assert(s.push(x)[s.len() as int] == v);
    }
    if s.push(x).contains(v) && v != x {
        let i = choose|i: int| 0 <= i < s.len() + 1 && s.push(x)[i] == v;
        assert(s[i] == v);
    }
}

/// The successors of `x`, in adjacency order (repeats kept).
pub fn successors(adj: &Vec<(u64, u64)>, x: u64) -> (r: Vec<u64>)
    ensures
        forall|v: u64| r@.contains(v) <==> succs(adj@, x).contains(v),
{
    let mut r: Vec<u64> = Vec::new();
    let mut i: usize = 0;
    while i < adj.len()
        invariant
            i <= adj@.len(),
            forall|v: u64|
                r@.contains(v) <==> exists|k: int| 0 <= k < i && #[trigger] adj@[k] == (x, v),
        decreases adj@.len() - i,
    {
        let (a, b) = adj[i];
        let ghost old_r = r@;
        if a == x {
            r.push(b);
        }
        assert forall|v: u64|
            r@.contains(v) <==> exists|k: int| 0 <= k < i + 1 && #[trigger] adj@[k] == (x, v) by {
            if old_r.contains(v) {
                let j = choose|j: int| 0 <= j < old_r.len() && old_r[j] == v;
                assert(r@[j] == v);
            }
            if r@.contains(v) && !old_r.contains(v) {
                assert(adj@[i as int] == (x, v));
            }
            if exists|k: int| 0 <= k < i + 1 && #[trigger] adj@[k] == (x, v) {
                let k = choose|k: int| 0 <= k < i + 1 && #[trigger] adj@[k] == (x, v);
                if k == i {
                    assert(r@[r@.len() - 1] == v);
                }
            }
        }
        i = i + 1;
    }
    r
}

/// The pairs with their two ends swapped.
pub open spec fn swapped(adj: Seq<(u64, u64)>) -> Seq<(u64, u64)> {
    adj.map_values(|p: (u64, u64)| (p.1, p.0))
}

/// Swap both ends of every pair.
pub fn swap_pairs(adj: &Vec<(u64, u64)>) -> (r: Vec<(u64, u64)>)
    ensures
        r@ == swapped(adj@),
{
    let mut r: Vec<(u64, u64)> = Vec::new();
    let mut i: usize = 0;
    while i < adj.len()
        invariant
            i <= adj@.len(),
            r@ == adj@.take(i as int).map_values(|p: (u64, u64)| (p.1, p.0)),
        decreases adj@.len() - i,
    {
        let (a, b) = adj[i];
        r.push((b, a));
        assert(adj@.take(i + 1).map_values(|p: (u64, u64)| (p.1, p.0)) =~= adj@.take(
            i as int,
        ).map_values(|p: (u64, u64)| (p.1, p.0)).push((b, a)));
        i = i + 1;
    }
    assert(adj@.take(i as int) =~= adj@);
    r
}

/// Callers and callees are inverse: `a` is one step back from `b` along
/// `adj` exactly when `b` is one step forward from `a`.
pub proof fn lemma_callers_callees_inverse(adj: Seq<(u64, u64)>, a: u64, b: u64)
    ensures
        within(swapped(adj), b, 1).contains(a) <==> within(adj, a, 1).contains(b),
{
    let sw = swapped(adj);
    if within(adj, a, 1).contains(b) {
        let k = choose|k: int| 0 <= k < adj.len() && #[trigger] adj[k] == (a, b);
        assert(sw[k] == (b, a));
    }
    if within(sw, b, 1).contains(a) {
        let k = choose|k: int| 0 <= k < sw.len() && #[trigger] sw[k] == (b, a);
        assert(adj[k] == (a, b));
    }
}

} // verus!
