//! Coupling and cohesion of the symbols of one file: references inside the
//! file and out of it, the files it depends on and the files depending on it.
use vstd::prelude::*;
use crate::analysis::{file_lookup, file_for_node};
use crate::engine::{contains_string, lemma_push_no_dup};
use crate::graph::{CodeGraph, Direction, EdgeType, GraphEdge, GraphNode, edge_triple, incoming_of, outgoing_of, vec_contains_u64};
use crate::reach::lemma_push_contains;
use crate::uri::{UriError, file_path_of_uri, symbols_for, symbols_of_file, url_parses};
use crate::text::{seq_starts_with, file_stem_text, plain_path, concat, decimal, decimal_string, owned, views};

verus! {

/// An edge kind that makes one symbol depend on another.
pub open spec fn is_dep_kind(t: EdgeType) -> bool {
    t == EdgeType::Imports || t == EdgeType::Calls
}

/// `s` without repeated elements, keeping first occurrences.
pub open spec fn dedup(s: Seq<u64>) -> Seq<u64>
    decreases s.len(),
{
    if s.len() == 0 {
        seq![]
    } else {
        let rest = dedup(s.drop_last());
        if rest.contains(s.last()) {
            rest
        } else {
            rest.push(s.last())
        }
    }
}

/// The dependency-kind edges leaving each of `syms`, in turn, as triples.
pub open spec fn out_events(edges: Seq<GraphEdge>, syms: Seq<u64>) -> Seq<(u64, u64, EdgeType)>
    decreases syms.len(),
{
    if syms.len() == 0 {
        seq![]
    } else {
        out_events(edges, syms.drop_last()) + outgoing_of(edges, syms.last()).map_values(
            |e: GraphEdge| edge_triple(e),
        ).filter(|t: (u64, u64, EdgeType)| is_dep_kind(t.2))
    }
}

/// The dependency-kind edges entering each of `syms` from outside `syms`, in
/// turn, as triples.
pub open spec fn in_events(edges: Seq<GraphEdge>, syms: Seq<u64>, all: Seq<u64>) -> Seq<(u64, u64, EdgeType)>
    decreases syms.len(),
{
    if syms.len() == 0 {
        seq![]
    } else {
        in_events(edges, syms.drop_last(), all) + incoming_of(edges, syms.last()).map_values(
            |e: GraphEdge| edge_triple(e),
        ).filter(|t: (u64, u64, EdgeType)| is_dep_kind(t.2) && !all.contains(t.0))
    }
}

/// The file name a node is known by: the stem recorded for it, or `unknown`.
pub open spec fn stem_of(stems: Seq<(u64, String)>, id: u64) -> Seq<char> {
    match file_lookup(stems, id) {
        Some(s) => s,
        None => "unknown"@,
    }
}

/// Whether node `id` has a `path` property.
pub open spec fn has_path(g: CodeGraph, id: u64) -> bool {
    g.has_node(id) && g.node(id).props.path is Some
}

/// Reference counts and dependency names of a file's symbols.
pub struct CouplingCounts {
    pub internal_refs: u32,
    pub external_refs: u32,
    pub dependencies: Vec<String>,
    pub dependents: Vec<String>,
}

/// The names of the files the symbols depend on, one per outgoing reference
/// out of the file to a node with a path.
pub open spec fn dependency_names(g: CodeGraph, syms: Seq<u64>, stems: Seq<(u64, String)>) -> Seq<Seq<char>> {
    out_events(g.edges@, syms).filter(|t: (u64, u64, EdgeType)| !syms.contains(t.1) && has_path(g, t.1)).map_values(
        |t: (u64, u64, EdgeType)| stem_of(stems, t.1),
    )
}

/// The names of the files depending on the symbols, one per incoming
/// reference from outside the file by a node with a path.
pub open spec fn dependent_names(g: CodeGraph, syms: Seq<u64>, stems: Seq<(u64, String)>) -> Seq<Seq<char>> {
    in_events(g.edges@, syms, syms).filter(|t: (u64, u64, EdgeType)| has_path(g, t.0)).map_values(
        |t: (u64, u64, EdgeType)| stem_of(stems, t.0),
    )
}

/// The elements of `s` without repeats, keeping first occurrences.
pub fn dedup_ids(s: &Vec<u64>) -> (r: Vec<u64>)
    ensures
        r@ == dedup(s@),
{
    let mut r: Vec<u64> = Vec::new();
    let mut i: usize = 0;
    while i < s.len()
        invariant
            i <= s@.len(),
            r@ == dedup(s@.take(i as int)),
        decreases s@.len() - i,
    {
        proof {
            assert(s@.take(i + 1).drop_last() =~= s@.take(i as int));
            assert(s@.take(i + 1).last() == s@[i as int]);
        }
        if !vec_contains_u64(&r, s[i]) {
            r.push(s[i]);
        }
        i = i + 1;
    }
    assert(s@.take(i as int) =~= s@);
    r
}

/// A sequence without repeats is free of duplicates.
pub proof fn lemma_dedup_no_dup(s: Seq<u64>)
    ensures
        dedup(s).no_duplicates(),
        forall|x: u64| dedup(s).contains(x) <==> s.contains(x),
    decreases s.len(),
{
    if s.len() > 0 {
        lemma_dedup_no_dup(s.drop_last());
        let rest = dedup(s.drop_last());
        if !rest.contains(s.last()) {
            lemma_push_no_dup(rest, s.last());
        }
        assert forall|x: u64| dedup(s).contains(x) <==> s.contains(x) by {
            lemma_push_contains(rest, s.last(), x);
            lemma_push_contains(s.drop_last(), s.last(), x);
            assert(s.drop_last().push(s.last()) =~= s);
        }
    }
}

/// Collect the dependency-kind edges leaving each of `syms`.
fn collect_out_events(g: &CodeGraph, syms: &Vec<u64>) -> (r: Vec<(u64, u64, EdgeType)>)
    ensures
        r@ == out_events(g.edges@, syms@),
{
    let ghost pred = |t: (u64, u64, EdgeType)| is_dep_kind(t.2);
    let mut r: Vec<(u64, u64, EdgeType)> = Vec::new();
    let mut k: usize = 0;
    while k < syms.len()
        invariant
            k <= syms@.len(),
            pred == (|t: (u64, u64, EdgeType)| is_dep_kind(t.2)),
            r@ == out_events(g.edges@, syms@.take(k as int)),
        decreases syms@.len() - k,
    {
        let s = syms[k];
        let out = g.get_connected_edges(s, Direction::Outgoing);
        let ghost r0 = r@;
        let mut i: usize = 0;
        while i < out.len()
            invariant
                i <= out@.len(),
                pred == (|t: (u64, u64, EdgeType)| is_dep_kind(t.2)),
                out@ == outgoing_of(g.edges@, s).map_values(|e: GraphEdge| edge_triple(e)),
                r@ == r0 + out@.take(i as int).filter(pred),
            decreases out@.len() - i,
        {
            let t = out[i];
            proof {
                assert(out@.take(i + 1).drop_last() =~= out@.take(i as int));
                assert(out@.take(i + 1).last() == t);
                reveal(Seq::filter);
            }
            let dep = match t.2 {
                EdgeType::Imports => true,
                EdgeType::Calls => true,
                _ => false,
            };
            if dep {
                r.push(t);
            }
            i = i + 1;
        }
        proof {
            assert(out@.take(i as int) =~= out@);
            assert(syms@.take(k + 1).drop_last() =~= syms@.take(k as int));
            assert(syms@.take(k + 1).last() == s);
        }
        k = k + 1;
    }
    assert(syms@.take(k as int) =~= syms@);
    r
}

/// Collect the dependency-kind edges entering each of `syms` from outside
/// `all`.
fn collect_in_events(g: &CodeGraph, syms: &Vec<u64>, all: &Vec<u64>) -> (r: Vec<(u64, u64, EdgeType)>)
    ensures
        r@ == in_events(g.edges@, syms@, all@),
{
    let ghost pred = |t: (u64, u64, EdgeType)| is_dep_kind(t.2) && !all@.contains(t.0);
    let mut r: Vec<(u64, u64, EdgeType)> = Vec::new();
    let mut k: usize = 0;
    while k < syms.len()
        invariant
            k <= syms@.len(),
            pred == (|t: (u64, u64, EdgeType)| is_dep_kind(t.2) && !all@.contains(t.0)),
            r@ == in_events(g.edges@, syms@.take(k as int), all@),
        decreases syms@.len() - k,
    {
        let s = syms[k];
        let inc = g.get_connected_edges(s, Direction::Incoming);
        let ghost r0 = r@;
        let mut i: usize = 0;
        while i < inc.len()
            invariant
                i <= inc@.len(),
                pred == (|t: (u64, u64, EdgeType)| is_dep_kind(t.2) && !all@.contains(t.0)),
                inc@ == incoming_of(g.edges@, s).map_values(|e: GraphEdge| edge_triple(e)),
                r@ == r0 + inc@.take(i as int).filter(pred),
            decreases inc@.len() - i,
        {
            let t = inc[i];
            proof {
                assert(inc@.take(i + 1).drop_last() =~= inc@.take(i as int));
                assert(inc@.take(i + 1).last() == t);
                reveal(Seq::filter);
            }
            let dep = match t.2 {
                EdgeType::Imports => true,
                EdgeType::Calls => true,
                _ => false,
            };
            if dep && !vec_contains_u64(all, t.0) {
                r.push(t);
            }
            i = i + 1;
        }
        proof {
            assert(inc@.take(i as int) =~= inc@);
            assert(syms@.take(k + 1).drop_last() =~= syms@.take(k as int));
            assert(syms@.take(k + 1).last() == s);
        }
        k = k + 1;
    }
    assert(syms@.take(k as int) =~= syms@);
    r
}

/// The name a node is known by under the recorded stems.
fn stem_name(stems: &Vec<(u64, String)>, id: u64) -> (r: String)
    ensures
        r@ == stem_of(stems@, id),
{
    match file_for_node(stems, id) {
        Some(s) => s,
        None => owned("unknown"),
    }
}

/// Whether a node has a path.
fn node_has_path(g: &CodeGraph, id: u64) -> (r: bool)
    requires
        g.wf(),
    ensures
        r == has_path(*g, id),
{
    match g.get_node(id) {
        Some(n) => n.props.path.is_some(),
        None => false,
    }
}

/// Append `name` to `names` unless it is already there.
fn push_unique(names: &mut Vec<String>, name: String)
    requires
        views(old(names)@).no_duplicates(),
    ensures
        views(final(names)@).no_duplicates(),
        forall|x: Seq<char>| views(final(names)@).contains(x) <==> (views(old(names)@).contains(x) || x == name@),
{
    let ghost before = views(names@);
    if !contains_string(names, name.as_str()) {
        let ghost nv = name@;
        names.push(name);
        proof {
            assert(views(names@) =~= before.push(nv));
            lemma_push_no_dup(before, nv);
            assert forall|x: Seq<char>| views(names@).contains(x) <==> (before.contains(x) || x == nv) by {
                lemma_push_contains(before, nv, x);
            }
        }
    }
}

/// Count and name the references of the symbols `syms` (free of repeats):
/// internal and external outgoing references (counts taken modulo 2^32),
/// the names of the files depended on and of the files depending on them.
pub fn coupling_counts(g: &CodeGraph, syms: &Vec<u64>, stems: &Vec<(u64, String)>) -> (r: CouplingCounts)
    requires
        g.wf(),
    ensures
        r.internal_refs == out_events(g.edges@, syms@).filter(|t: (u64, u64, EdgeType)| syms@.contains(t.1)).len() as u32,
        r.external_refs == out_events(g.edges@, syms@).filter(|t: (u64, u64, EdgeType)| !syms@.contains(t.1)).len() as u32,
        views(r.dependencies@).no_duplicates(),
        views(r.dependencies@).to_set() == dependency_names(*g, syms@, stems@).to_set(),
        views(r.dependents@).no_duplicates(),
        views(r.dependents@).to_set() == dependent_names(*g, syms@, stems@).to_set(),
{
    let out = collect_out_events(g, syms);
    let inc = collect_in_events(g, syms, syms);
    let ghost pin = |t: (u64, u64, EdgeType)| syms@.contains(t.1);
    let ghost pout = |t: (u64, u64, EdgeType)| !syms@.contains(t.1);
    let ghost pdep = |t: (u64, u64, EdgeType)| !syms@.contains(t.1) && has_path(*g, t.1);
    let ghost fdep = |t: (u64, u64, EdgeType)| stem_of(stems@, t.1);
    let mut internal: u64 = 0;
    let mut external: u64 = 0;
    let mut dependencies: Vec<String> = Vec::new();
    let mut i: usize = 0;
    while i < out.len()
        invariant
            g.wf(),
            i <= out@.len(),
            out@ == out_events(g.edges@, syms@),
            pin == (|t: (u64, u64, EdgeType)| syms@.contains(t.1)),
            pout == (|t: (u64, u64, EdgeType)| !syms@.contains(t.1)),
            pdep == (|t: (u64, u64, EdgeType)| !syms@.contains(t.1) && has_path(*g, t.1)),
            fdep == (|t: (u64, u64, EdgeType)| stem_of(stems@, t.1)),
            internal == out@.take(i as int).filter(pin).len(),
            external == out@.take(i as int).filter(pout).len(),
            internal <= i,
            external <= i,
            views(dependencies@).no_duplicates(),
            forall|x: Seq<char>| views(dependencies@).contains(x) <==> out@.take(i as int).filter(pdep).map_values(fdep).contains(x),
        decreases out@.len() - i,
    {
        let t = out[i];
        proof {
            assert(out@.take(i + 1).drop_last() =~= out@.take(i as int));
            assert(out@.take(i + 1).last() == t);
            reveal(Seq::filter);
            out@.take(i as int).lemma_filter_len(pin);
            out@.take(i as int).lemma_filter_len(pout);
        }
        let ghost prev = out@.take(i as int).filter(pdep).map_values(fdep);
        if vec_contains_u64(syms, t.1) {
            internal = internal + 1;
            assert(prev =~= out@.take(i + 1).filter(pdep).map_values(fdep));
        } else {
            external = external + 1;
            if node_has_path(g, t.1) {
                let name = stem_name(stems, t.1);
                proof {
                    assert(out@.take(i + 1).filter(pdep).map_values(fdep) =~= prev.push(name@));
                }
                let ghost nv = name@;
                push_unique(&mut dependencies, name);
                proof {
                    assert forall|x: Seq<char>| views(dependencies@).contains(x) <==> prev.push(nv).contains(x) by {
                        lemma_push_contains(prev, nv, x);
                    }
                }
            } else {
                assert(prev =~= out@.take(i + 1).filter(pdep).map_values(fdep));
            }
        }
        i = i + 1;
    }
    proof {
        assert(out@.take(i as int) =~= out@);
        assert(views(dependencies@).to_set() =~= dependency_names(*g, syms@, stems@).to_set());
    }
    let ghost pdn = |t: (u64, u64, EdgeType)| has_path(*g, t.0);
    let ghost fdn = |t: (u64, u64, EdgeType)| stem_of(stems@, t.0);
    let mut dependents: Vec<String> = Vec::new();
    let mut j: usize = 0;
    while j < inc.len()
        invariant
            g.wf(),
            j <= inc@.len(),
            inc@ == in_events(g.edges@, syms@, syms@),
            pdn == (|t: (u64, u64, EdgeType)| has_path(*g, t.0)),
            fdn == (|t: (u64, u64, EdgeType)| stem_of(stems@, t.0)),
            views(dependents@).no_duplicates(),
            forall|x: Seq<char>| views(dependents@).contains(x) <==> inc@.take(j as int).filter(pdn).map_values(fdn).contains(x),
        decreases inc@.len() - j,
    {
        let t = inc[j];
        proof {
            assert(inc@.take(j + 1).drop_last() =~= inc@.take(j as int));
            assert(inc@.take(j + 1).last() == t);
            reveal(Seq::filter);
        }
        let ghost prev = inc@.take(j as int).filter(pdn).map_values(fdn);
        if node_has_path(g, t.0) {
            let name = stem_name(stems, t.0);
            proof {
                assert(inc@.take(j + 1).filter(pdn).map_values(fdn) =~= prev.push(name@));
            }
            let ghost nv = name@;
            push_unique(&mut dependents, name);
            proof {
                assert forall|x: Seq<char>| views(dependents@).contains(x) <==> prev.push(nv).contains(x) by {
                    lemma_push_contains(prev, nv, x);
                }
            }
        } else {
            assert(prev =~= inc@.take(j + 1).filter(pdn).map_values(fdn));
        }
        j = j + 1;
    }
    proof {
        assert(inc@.take(j as int) =~= inc@);
        assert(views(dependents@).to_set() =~= dependent_names(*g, syms@, stems@).to_set());
    }
    CouplingCounts {
        internal_refs: internal as u32,
        external_refs: external as u32,
        dependencies,
        dependents,
    }
}

/// `stems` holds, for each of `nodes` that records a path, in order, its id
/// and a name, the name of a plain path being its file stem.
pub open spec fn stems_match(nodes: Seq<GraphNode>, stems: Seq<(u64, String)>) -> bool {
    let with_path = nodes.filter(|n: GraphNode| n.props.path is Some);
    &&& stems.len() == with_path.len()
    &&& forall|k: int|
        0 <= k < stems.len() ==> (#[trigger] stems[k]).0 == with_path[k].id && match with_path[k].props.path {
            Some(p) => plain_path(p@) ==> stems[k].1@ == file_stem_text(p@),
            None => true,
        }
}

/// The file stem of every node with a path (`unknown` where it has none),
/// in node order.
fn stem_table(g: &CodeGraph) -> (r: Vec<(u64, String)>)
    ensures
        stems_match(g.nodes@, r@),
{
    let ghost has_path = |n: GraphNode| n.props.path is Some;
    let mut r: Vec<(u64, String)> = Vec::new();
    let mut i: usize = 0;
    while i < g.nodes.len()
        invariant
            i <= g.nodes@.len(),
            has_path == (|n: GraphNode| n.props.path is Some),
            stems_match(g.nodes@.take(i as int), r@),
        decreases g.nodes@.len() - i,
    {
        let n = &g.nodes[i];
        let ghost prev = g.nodes@.take(i as int).filter(has_path);
        proof {
            assert(g.nodes@.take(i + 1).drop_last() =~= g.nodes@.take(i as int));
            assert(g.nodes@.take(i + 1).last() == *n);
            reveal(Seq::filter);
        }
        match &n.props.path {
            Some(p) => {
                let stem = match crate::text::path_file_stem(p.as_str()) {
                    Some(s) => s,
                    None => owned("unknown"),
                };
                let ghost before = r@;
                r.push((n.id, stem));
                proof {
                    let cur = g.nodes@.take(i + 1).filter(has_path);
                    assert(cur == prev.push(*n));
                    assert forall|k: int| 0 <= k < r@.len() implies (#[trigger] r@[k]).0 == cur[k].id && match cur[k].props.path {
                        Some(q) => plain_path(q@) ==> r@[k].1@ == file_stem_text(q@),
                        None => true,
                    } by {
                        if k < before.len() {
                            assert(r@[k] == before[k]);
                            assert(cur[k] == prev[k]);
                        }
                    }
                }
            },
            None => {
                proof {
                    assert(g.nodes@.take(i + 1).filter(has_path) == prev);
                }
            },
        }
        i = i + 1;
    }
    proof {
        assert(g.nodes@.take(i as int) =~= g.nodes@);
    }
    r
}

/// The report's counts and names are those of the symbols `syms` under the
/// file names `stems`.
pub open spec fn counts_fit(g: CodeGraph, syms: Seq<u64>, stems: Seq<(u64, String)>, r: CouplingReport) -> bool {
    let out = out_events(g.edges@, syms);
    &&& r.internal_refs == out.filter(|t: (u64, u64, EdgeType)| syms.contains(t.1)).len() as u32
    &&& r.external_refs == out.filter(|t: (u64, u64, EdgeType)| !syms.contains(t.1)).len() as u32
    &&& views(r.dependencies@).no_duplicates()
    &&& views(r.dependencies@).to_set() == dependency_names(g, syms, stems).to_set()
    &&& views(r.dependents@).no_duplicates()
    &&& views(r.dependents@).to_set() == dependent_names(g, syms, stems).to_set()
}

/// The cohesion of a file from its internal references and all its
/// references: functional above 70% internal (or with no references),
/// sequential above 40%, coincidental otherwise.
pub open spec fn cohesion_of(internal: u32, total: u32) -> Seq<char> {
    if total == 0 || 10 * internal > 7 * total {
        "functional"@
    } else if 10 * internal > 4 * total {
        "sequential"@
    } else {
        "coincidental"@
    }
}

/// The advice given on a file's coupling: high instability (more than 80% of
/// its couplings outgoing), low cohesion (under 30% internal references), and
/// many dependents (more than 10).
pub open spec fn recommendations_of(afferent: u32, efferent: u32, internal: u32, total: u32) -> Seq<Seq<char>> {
    let sum = afferent.wrapping_add(efferent);
    (if sum > 0 && 5 * efferent > 4 * sum {
        seq!["High instability - this module depends on many others. Consider reducing dependencies."@]
    } else {
        seq![]
    }) + (if total > 0 && 10 * internal < 3 * total {
        seq!["Low cohesion - functions in this module don't reference each other much. Consider splitting."@]
    } else {
        seq![]
    }) + (if afferent > 10 {
        seq!["Many modules ("@ + decimal(afferent as nat) + ") depend on this one. Changes here have wide impact."@]
    } else {
        seq![]
    })
}

/// Whether a file is a stable module with many outgoing dependencies: under
/// 20% of its couplings outgoing, and more than 5 dependencies.
pub open spec fn stable_violation(afferent: u32, efferent: u32) -> bool {
    let sum = afferent.wrapping_add(efferent);
    (sum == 0 || 5 * efferent < sum) && efferent > 5
}

/// An architectural rule a file breaks.
#[derive(Clone, Debug)]
pub struct ArchViolation {
    pub violation_type: String,
    pub severity: String,
    pub description: String,
    pub suggestion: String,
}

/// The coupling report of a file; instability and cohesion ratios are the
/// quotients of the counts.
pub struct CouplingReport {
    pub afferent: u32,
    pub efferent: u32,
    pub dependents: Vec<String>,
    pub dependencies: Vec<String>,
    pub internal_refs: u32,
    pub external_refs: u32,
    pub cohesion_type: String,
    pub violations: Vec<ArchViolation>,
    pub recommendations: Vec<String>,
}

/// The rank of a cohesion label: coincidental, sequential, functional.
pub open spec fn cohesion_rank(label: Seq<char>) -> int {
    if label == "functional"@ {
        2
    } else if label == "sequential"@ {
        1
    } else {
        0
    }
}

/// The cohesion label by the share of internal references: a file that makes
/// no references is functional; otherwise at most 40% internal is
/// coincidental, above 40% and at most 70% sequential, above 70% functional.
pub proof fn lemma_cohesion_thresholds(internal: u32, total: u32)
    ensures
        total == 0 ==> cohesion_of(internal, total) == "functional"@,
        total > 0 && internal * 10 <= total * 4 ==> cohesion_of(internal, total) == "coincidental"@,
        total > 0 && total * 4 < internal * 10 && internal * 10 <= total * 7 ==> cohesion_of(internal, total)
            == "sequential"@,
        total > 0 && internal * 10 > total * 7 ==> cohesion_of(internal, total) == "functional"@,
{
}

/// A larger share of internal references never gives a lower cohesion label.
pub proof fn lemma_cohesion_monotone(i1: u32, t1: u32, i2: u32, t2: u32)
    requires
        t1 > 0,
        t2 > 0,
        i1 * t2 <= i2 * t1,
    ensures
        cohesion_rank(cohesion_of(i1, t1)) <= cohesion_rank(cohesion_of(i2, t2)),
{
    reveal_strlit("functional");
    reveal_strlit("sequential");
    reveal_strlit("coincidental");
    assert("functional"@[0] != "sequential"@[0]);
    assert("functional"@.len() != "coincidental"@.len());
    assert("sequential"@.len() != "coincidental"@.len());
    let (a1, b1, a2, b2) = (i1 as int, t1 as int, i2 as int, t2 as int);
    assert(10 * a2 <= 4 * b2 ==> 10 * a1 <= 4 * b1) by (nonlinear_arith)
        requires
            b1 > 0,
            b2 > 0,
            a1 >= 0,
            a1 * b2 <= a2 * b1,
    ;
    assert(10 * a2 <= 7 * b2 ==> 10 * a1 <= 7 * b1) by (nonlinear_arith)
        requires
            b1 > 0,
            b2 > 0,
            a1 >= 0,
            a1 * b2 <= a2 * b1,
    ;
}

/// The advice on a file's coupling, for counts that do not overflow: it
/// warns of high instability exactly when more than 80% of the couplings are
/// outgoing, of low cohesion exactly when there are references and under 30%
/// are internal, and of wide impact exactly when more than ten files depend
/// on it; a stable module (under 20% outgoing) with more than five
/// dependencies breaks the stable-dependency rule, and no other does.
pub proof fn lemma_coupling_advice(afferent: u32, efferent: u32, internal: u32, total: u32)
    requires
        afferent + efferent <= u32::MAX,
    ensures
        recommendations_of(afferent, efferent, internal, total).contains(
            "High instability - this module depends on many others. Consider reducing dependencies."@,
        ) <==> (afferent + efferent > 0 && efferent * 5 > (afferent + efferent) * 4),
        recommendations_of(afferent, efferent, internal, total).contains(
            "Low cohesion - functions in this module don't reference each other much. Consider splitting."@,
        ) <==> (total > 0 && internal * 10 < total * 3),
        (exists|k: int|
            0 <= k < recommendations_of(afferent, efferent, internal, total).len() && seq_starts_with(
                #[trigger] recommendations_of(afferent, efferent, internal, total)[k],
                "Many modules ("@,
            )) <==> afferent > 10,
        stable_violation(afferent, efferent) <==> (efferent * 5 < afferent + efferent && efferent > 5),
{
    let hi = "High instability - this module depends on many others. Consider reducing dependencies."@;
    let lo = "Low cohesion - functions in this module don't reference each other much. Consider splitting."@;
    let many = "Many modules ("@;
    reveal_strlit("High instability - this module depends on many others. Consider reducing dependencies.");
    reveal_strlit("Low cohesion - functions in this module don't reference each other much. Consider splitting.");
    reveal_strlit("Many modules (");
    reveal_strlit(") depend on this one. Changes here have wide impact.");
    assert(afferent.wrapping_add(efferent) == afferent + efferent);
    let a = if afferent + efferent > 0 && efferent * 5 > (afferent + efferent) * 4 { seq![hi] } else { seq![] };
    let b = if total > 0 && internal * 10 < total * 3 { seq![lo] } else { seq![] };
    let m = many + decimal(afferent as nat) + ") depend on this one. Changes here have wide impact."@;
    let c = if afferent > 10 { seq![m] } else { seq![] };
    let all = recommendations_of(afferent, efferent, internal, total);
    assert(all =~= a + b + c);
    assert(hi[0] != lo[0] && hi[0] != many[0] && lo[0] != many[0]);
    assert(m.subrange(0, many.len() as int) =~= many);
    assert forall|x: Seq<char>| all.contains(x) implies (x == hi && a.len() == 1) || (x == lo && b.len() == 1) || (x
        == m && c.len() == 1) by {
        let k = choose|k: int| 0 <= k < all.len() && all[k] == x;
        if k < a.len() {
            assert(all[k] == a[k]);
        } else if k < a.len() + b.len() {
            assert(all[k] == b[k - a.len()]);
        } else {
            assert(all[k] == c[k - a.len() - b.len()]);
        }
    }
    if a.len() == 1 {
        assert(all[0] == hi);
    }
    if b.len() == 1 {
        assert(all[a.len() as int] == lo);
    }
    if c.len() == 1 {
        assert(all[(a.len() + b.len()) as int] == m);
        assert(seq_starts_with(all[(a.len() + b.len()) as int], many));
    }
    if all.contains(hi) {
        assert(hi != lo) by {
            assert(hi[0] != lo[0]);
        }
        if hi == m {
            assert(hi[0] == m[0]);
            assert(m[0] == many[0]);
        }
    }
    if all.contains(lo) {
        if lo == m {
            assert(lo[0] == m[0]);
            assert(m[0] == many[0]);
        }
    }
    assert forall|k: int| 0 <= k < all.len() && seq_starts_with(#[trigger] all[k], many) implies afferent > 10 by {
        let x = all[k];
        assert(all.contains(x));
        if x == hi {
            assert(x.subrange(0, many.len() as int)[0] == x[0]);
        } else if x == lo {
            assert(x.subrange(0, many.len() as int)[0] == x[0]);
        }
    }
}

/// The cohesion label of a file.
pub fn cohesion_type(internal: u32, total: u32) -> (r: String)
    ensures
        r@ == cohesion_of(internal, total),
{
    let i = internal as u64;
    let t = total as u64;
    if t == 0 || 10 * i > 7 * t {
        owned("functional")
    } else if 10 * i > 4 * t {
        owned("sequential")
    } else {
        owned("coincidental")
    }
}

/// The advice on a file's coupling.
pub fn coupling_recommendations(afferent: u32, efferent: u32, internal: u32, total: u32) -> (r: Vec<String>)
    ensures
        views(r@) == recommendations_of(afferent, efferent, internal, total),
{
    let sum = afferent.wrapping_add(efferent) as u64;
    let e = efferent as u64;
    let mut r: Vec<String> = Vec::new();
    if sum > 0 && 5 * e > 4 * sum {
        r.push(owned("High instability - this module depends on many others. Consider reducing dependencies."));
    }
    let ghost r1 = views(r@);
    let i = internal as u64;
    let t = total as u64;
    if t > 0 && 10 * i < 3 * t {
        r.push(owned("Low cohesion - functions in this module don't reference each other much. Consider splitting."));
    }
    let ghost r2 = views(r@);
    if afferent > 10 {
        let a = decimal_string(afferent as u64);
        let m = concat("Many modules (", a.as_str());
        let m2 = concat(m.as_str(), ") depend on this one. Changes here have wide impact.");
        r.push(m2);
    }
    assert(views(r@) =~= recommendations_of(afferent, efferent, internal, total));
    r
}

/// `r` is the coupling report of the symbols `syms` of one file.
pub open spec fn coupling_fits(g: CodeGraph, syms: Seq<u64>, r: CouplingReport) -> bool {
    &&& exists|stems: Seq<(u64, String)>|
        stems_match(g.nodes@, stems) && #[trigger] counts_fit(g, dedup(syms), stems, r)
    &&& r.afferent == r.dependents@.len() as u32
    &&& r.efferent == r.dependencies@.len() as u32
    &&& r.cohesion_type@ == cohesion_of(r.internal_refs, r.internal_refs.wrapping_add(r.external_refs))
    &&& views(r.recommendations@) == recommendations_of(
        r.afferent,
        r.efferent,
        r.internal_refs,
        r.internal_refs.wrapping_add(r.external_refs),
    )
    &&& stable_violation(r.afferent, r.efferent) ==> r.violations@.len() == 1 && r.violations@[0].violation_type@
        == "stable_dependency"@
    &&& !stable_violation(r.afferent, r.efferent) ==> r.violations@.len() == 0
}

/// A coupling report names each depending and each depended-on file once,
/// counts them as its afferent and efferent coupling, and labels its
/// cohesion functional, sequential or coincidental (functional where the
/// file makes no references).
pub proof fn lemma_coupling_shape(g: CodeGraph, syms: Seq<u64>, r: CouplingReport)
    requires
        coupling_fits(g, syms, r),
    ensures
        views(r.dependents@).no_duplicates(),
        views(r.dependencies@).no_duplicates(),
        r.afferent == r.dependents@.len() as u32,
        r.efferent == r.dependencies@.len() as u32,
        r.cohesion_type@ == "functional"@ || r.cohesion_type@ == "sequential"@ || r.cohesion_type@ == "coincidental"@,
        r.internal_refs.wrapping_add(r.external_refs) == 0 ==> r.cohesion_type@ == "functional"@,
{
    let stems = choose|stems: Seq<(u64, String)>|
        stems_match(g.nodes@, stems) && #[trigger] counts_fit(g, dedup(syms), stems, r);
    assert(counts_fit(g, dedup(syms), stems, r));
}

/// The coupling report of the symbols of one file (`file_symbols`, repeats
/// ignored): afferent and efferent coupling are the numbers of distinct file
/// names depending on it and depended on; the references are counted as
/// `coupling_counts` does under the file stems of the graph's nodes.
pub fn handle_analyze_coupling(g: &CodeGraph, file_symbols: &Vec<u64>) -> (r: CouplingReport)
    requires
        g.wf(),
    ensures
        coupling_fits(*g, file_symbols@, r),
{
    let syms = dedup_ids(file_symbols);
    let stems = stem_table(g);
    let counts = coupling_counts(g, &syms, &stems);
    let afferent = counts.dependents.len() as u32;
    let efferent = counts.dependencies.len() as u32;
    let total = counts.internal_refs.wrapping_add(counts.external_refs);
    let cohesion = cohesion_type(counts.internal_refs, total);
    let recommendations = coupling_recommendations(afferent, efferent, counts.internal_refs, total);
    let mut violations: Vec<ArchViolation> = Vec::new();
    let sum = afferent.wrapping_add(efferent) as u64;
    if (sum == 0 || 5 * (efferent as u64) < sum) && efferent > 5 {
        violations.push(
            ArchViolation {
                violation_type: owned("stable_dependency"),
                severity: owned("warning"),
                description: owned("Stable module has many outgoing dependencies"),
                suggestion: owned("Consider extracting dependencies to make module more focused"),
            },
        );
    }
    let r = CouplingReport {
        afferent,
        efferent,
        dependents: counts.dependents,
        dependencies: counts.dependencies,
        internal_refs: counts.internal_refs,
        external_refs: counts.external_refs,
        cohesion_type: cohesion,
        violations,
        recommendations,
    };
    proof {
        assert(counts_fit(*g, dedup(file_symbols@), stems@, r));
    }
    r
}


/// A coupling request: the document, whether external dependencies count,
/// and how deep to look (both accepted, neither changes the report).
#[derive(Clone, Debug)]
pub struct CouplingParams {
    pub uri: String,
    pub include_external: Option<bool>,
    pub depth: Option<u32>,
}

/// The coupling request: the document `params.uri` is resolved to a file and
/// the symbols that `file_symbols` holds for it are reported on as
/// `handle_analyze_coupling` does. `InvalidUri` exactly when the URI is no URL.
pub fn coupling_at(g: &CodeGraph, params: &CouplingParams, file_symbols: &Vec<(String, Vec<u64>)>) -> (r: Result<
    CouplingReport,
    UriError,
>)
    requires
        g.wf(),
    ensures
        (r matches Err(e) && e == UriError::InvalidUri) <==> !url_parses(params.uri@),
        r matches Ok(rep) ==> exists|path: Seq<char>| coupling_fits(*g, #[trigger] symbols_for(file_symbols@, path), rep),
{
    let path = match file_path_of_uri(params.uri.as_str()) {
        Ok(p) => p,
        Err(e) => {
            return Err(e);
        },
    };
    let symbols = symbols_of_file(file_symbols, path.as_str());
    let rep = handle_analyze_coupling(g, &symbols);
    assert(coupling_fits(*g, symbols_for(file_symbols@, path@), rep));
    Ok(rep)
}

} // verus!
