//! Change impact: what a change to a symbol affects directly (the places
//! that refer to it), indirectly (one or two steps further back), and which
//! tests are among them.
use vstd::prelude::*;
use crate::analysis::{get_incoming_edges, node_uri, nodes_with_path, query_by_path, uri_of};
use crate::engine::contains_string;
use crate::graph::{CodeGraph, EdgeType, GraphEdge, GraphNode, edge_triple, incoming_of};
use crate::navigation::{LspRange, first_covering, find_node_at_position, node_range_of, node_to_range};
use crate::uri::{UriError, file_path_of_uri, symbols_for, symbols_of_file, url_parses};
use crate::query::{str_or_empty, string_or_empty};
use crate::text::{copy_strings, owned, seq_contains, seq_ends_with, seq_starts_with, str_contains, str_ends_with, str_eq, str_starts_with, views};

verus! {

/// How a referring node is affected, by the edge type of its reference.
pub open spec fn impact_kind(t: EdgeType) -> Seq<char> {
    match t {
        EdgeType::Calls => "caller"@,
        EdgeType::References => "reference"@,
        EdgeType::Extends => "subclass"@,
        EdgeType::Implements => "implementation"@,
        _ => "reference"@,
    }
}

/// The severity of a direct impact by the kind of change.
pub open spec fn severity_of(analysis: Seq<char>) -> Seq<char> {
    if analysis == "delete"@ || analysis == "rename"@ {
        "breaking"@
    } else if analysis == "modify"@ {
        "warning"@
    } else {
        "info"@
    }
}

/// Some edge goes from `v` to `w`.
pub open spec fn has_edge(g: CodeGraph, v: u64, w: u64) -> bool {
    exists|k: int| 0 <= k < g.edges@.len() && (#[trigger] g.edges@[k]).source == v && g.edges@[k].target == w
}

/// Node `s` is a seed of the indirect impact: not the symbol itself, and a
/// node of one of the directly affected files `files`.
pub open spec fn is_seed(g: CodeGraph, node: u64, files: Seq<Seq<char>>, s: u64) -> bool {
    s != node && exists|i: int| 0 <= i < files.len() && #[trigger] nodes_with_path(g.nodes@, files[i]).contains(s)
}

/// An indirectly affected place.
#[derive(Clone, Debug)]
pub struct IndirectImpact {
    pub uri: String,
    pub path: Vec<String>,
    pub severity: String,
}

/// Whether `v` is new to the indirect walk: not the symbol, not visited, and
/// in a file not directly affected.
pub open spec fn fresh_source(g: CodeGraph, node: u64, files: Seq<Seq<char>>, extra: Seq<(u64, String)>, visited: Seq<u64>, v: u64) -> bool {
    v != node && !visited.contains(v) && !files.contains(uri_of(g.node(v).props, v, extra))
}

/// Record the sources of the edges into `w` that are new to the walk, each
/// with `chain` extended by its URI.
fn expand_impact(
    g: &CodeGraph,
    node: u64,
    w: u64,
    chain: &Vec<String>,
    files: &Vec<String>,
    extra: &Vec<(u64, String)>,
    visited: &mut Vec<u64>,
    out: &mut Vec<IndirectImpact>,
    ids: &mut Vec<u64>,
)
    requires
        g.wf(),
        old(out)@.len() == old(ids)@.len(),
    ensures
        final(out)@.len() == final(ids)@.len(),
        final(ids)@.len() >= old(ids)@.len(),
        forall|k: int| 0 <= k < old(ids)@.len() ==> final(ids)@[k] == old(ids)@[k] && final(out)@[k] == old(out)@[k],
        forall|v: u64| final(visited)@.contains(v) <==> (old(visited)@.contains(v) || exists|k: int|
            old(ids)@.len() <= k < final(ids)@.len() && final(ids)@[k] == v),
        forall|k: int|
            old(ids)@.len() <= k < final(ids)@.len() ==> {
                let v = #[trigger] final(ids)@[k];
                &&& has_edge(*g, v, w)
                &&& fresh_source(*g, node, views(files@), extra@, old(visited)@, v)
                &&& final(out)@[k].uri@ == uri_of(g.node(v).props, v, extra@)
                &&& views(final(out)@[k].path@) == views(chain@).push(uri_of(g.node(v).props, v, extra@))
                &&& final(out)@[k].severity@ == "warning"@
            },
        forall|k: int, l: int| old(ids)@.len() <= k < l < final(ids)@.len() ==> final(ids)@[k] != final(ids)@[l],
        forall|v: u64|
            has_edge(*g, v, w) && v != node && !views(files@).contains(uri_of(g.node(v).props, v, extra@))
                ==> #[trigger] final(visited)@.contains(v),
{
    let inc = get_incoming_edges(g, w);
    let ghost es = incoming_of(g.edges@, w);
    let ghost vis0 = visited@;
    let ghost ids0 = ids@;
    let ghost out0 = out@;
    let mut i: usize = 0;
    while i < inc.len()
        invariant
            g.wf(),
            i <= inc@.len(),
            inc@ == es.map_values(|e: GraphEdge| edge_triple(e)),
            es == incoming_of(g.edges@, w),
            out@.len() == ids@.len(),
            ids@.len() >= ids0.len(),
            forall|k: int| 0 <= k < ids0.len() ==> ids@[k] == ids0[k] && out@[k] == out0[k],
            forall|v: u64| visited@.contains(v) <==> (vis0.contains(v) || exists|k: int| ids0.len() <= k < ids@.len() && ids@[k] == v),
            forall|k: int|
                ids0.len() <= k < ids@.len() ==> {
                    let v = #[trigger] ids@[k];
                    &&& has_edge(*g, v, w)
                    &&& fresh_source(*g, node, views(files@), extra@, vis0, v)
                    &&& out@[k].uri@ == uri_of(g.node(v).props, v, extra@)
                    &&& views(out@[k].path@) == views(chain@).push(uri_of(g.node(v).props, v, extra@))
                    &&& out@[k].severity@ == "warning"@
                },
            forall|k: int, l: int| ids0.len() <= k < l < ids@.len() ==> ids@[k] != ids@[l],
            forall|j: int|
                0 <= j < i && es[j].source != node && !views(files@).contains(
                    uri_of(g.node(es[j].source).props, es[j].source, extra@),
                ) ==> #[trigger] visited@.contains(es[j].source),
        decreases inc@.len() - i,
    {
        let v = inc[i].0;
        let ghost e = es[i as int];
        proof {
            assert(inc@[i as int] == edge_triple(e));
            crate::graph::lemma_select_contains(g.edges@, |e: GraphEdge| e.target == w, e);
            assert(es.contains(e));
            let m = choose|m: int| 0 <= m < g.edges@.len() && g.edges@[m] == e;
            assert(g.edges@[m].source == v && g.edges@[m].target == w);
            assert(has_edge(*g, v, w));
            assert(g.has_node(v));
        }
        let ghost vis_b = visited@;
        let ghost ids_b = ids@;
        let ghost out_b = out@;
        if v != node && !crate::graph::vec_contains_u64(visited, v) {
            match g.get_node(v) {
                Some(n) => {
                    let ru = node_uri(&n.props, v, extra);
                    if !crate::engine::contains_string(files, ru.as_str()) {
                        let mut path: Vec<String> = Vec::new();
                        let mut k: usize = 0;
                        while k < chain.len()
                            invariant
                                k <= chain@.len(),
                                views(path@) == views(chain@).take(k as int),
                            decreases chain@.len() - k,
                        {
                            let ghost pb = path@;
                            path.push(chain[k].clone());
                            proof {
                                assert(views(path@) =~= views(pb).push(chain@[k as int]@));
                                assert(views(chain@).take(k + 1) =~= views(chain@).take(k as int).push(views(chain@)[k as int]));
                            }
                            k = k + 1;
                        }
                        let ghost pb = path@;
                        let ghost ruv = ru@;
                        path.push(ru.clone());
                        proof {
                            assert(views(chain@).take(k as int) =~= views(chain@));
                            assert(views(path@) =~= views(pb).push(ruv));
                        }
                        visited.push(v);
                        ids.push(v);
                        out.push(IndirectImpact { uri: ru, path, severity: owned("warning") });
                        proof {
                            assert forall|x: u64| visited@.contains(x) <==> (vis0.contains(x) || exists|k2: int| ids0.len() <= k2 < ids@.len() && ids@[k2] == x) by {
                                crate::reach::lemma_push_contains(vis_b, v, x);
                                if x == v {
                                    assert(ids@[ids@.len() - 1] == v);
                                }
                                if exists|k2: int| ids0.len() <= k2 < ids@.len() && ids@[k2] == x {
                                    let k2 = choose|k2: int| ids0.len() <= k2 < ids@.len() && ids@[k2] == x;
                                    if k2 < ids_b.len() {
                                        assert(ids_b[k2] == x);
                                    }
                                }
                                if vis_b.contains(x) && !vis0.contains(x) {
                                    let k2 = choose|k2: int| ids0.len() <= k2 < ids_b.len() && ids_b[k2] == x;
                                    assert(ids@[k2] == x);
                                }
                            }
                            assert forall|k2: int, l: int| ids0.len() <= k2 < l < ids@.len() implies ids@[k2] != ids@[l] by {
                                if l == ids@.len() - 1 {
                                    assert(vis_b.contains(ids_b[k2]));
                                } else {
                                    assert(ids@[k2] == ids_b[k2] && ids@[l] == ids_b[l]);
                                }
                            }
                            assert forall|k2: int| 0 <= k2 < ids0.len() implies ids@[k2] == ids0[k2] && out@[k2] == out0[k2] by {
                                assert(ids@[k2] == ids_b[k2] && out@[k2] == out_b[k2]);
                            }
                            assert forall|k2: int|
                                ids0.len() <= k2 < ids@.len() implies {
                                    let x = #[trigger] ids@[k2];
                                    &&& has_edge(*g, x, w)
                                    &&& fresh_source(*g, node, views(files@), extra@, vis0, x)
                                    &&& out@[k2].uri@ == uri_of(g.node(x).props, x, extra@)
                                    &&& views(out@[k2].path@) == views(chain@).push(uri_of(g.node(x).props, x, extra@))
                                    &&& out@[k2].severity@ == "warning"@
                                } by {
                                if k2 < ids_b.len() {
                                    assert(ids@[k2] == ids_b[k2] && out@[k2] == out_b[k2]);
                                } else {
                                    assert(ids@[k2] == v);
                                    assert(!vis0.contains(v));
                                }
                            }
                        }
                    }
                },
                None => {},
            }
        }
        proof {
            assert forall|x: u64| vis_b.contains(x) implies visited@.contains(x) by {
                if visited@ != vis_b {
                    crate::reach::lemma_push_contains(vis_b, v, x);
                }
            }
            if v != node && !views(files@).contains(uri_of(g.node(v).props, v, extra@)) {
                if !vis_b.contains(v) {
                    assert(visited@ == vis_b.push(v));
                    crate::reach::lemma_push_contains(vis_b, v, v);
                }
                assert(visited@.contains(v));
            }
            assert forall|j: int|
                0 <= j < i + 1 && es[j].source != node && !views(files@).contains(
                    uri_of(g.node(es[j].source).props, es[j].source, extra@),
                ) implies #[trigger] visited@.contains(es[j].source) by {
                if j < i {
                    assert(vis_b.contains(es[j].source));
                } else {
                    assert(es[j].source == v);
                }
            }
        }
        i = i + 1;
    }
    proof {
        assert forall|x: u64|
            has_edge(*g, x, w) && x != node && !views(files@).contains(uri_of(g.node(x).props, x, extra@))
                implies #[trigger] visited@.contains(x) by {
            let m = choose|m: int| 0 <= m < g.edges@.len() && (#[trigger] g.edges@[m]).source == x && g.edges@[m].target == w;
            let e = g.edges@[m];
            crate::graph::lemma_select_contains(g.edges@, |e: GraphEdge| e.target == w, e);
            assert(es.contains(e));
            let j = choose|j: int| 0 <= j < es.len() && es[j] == e;
            assert(es[j].source == x);
        }
    }
}

/// `v` may be reported as indirectly affected by a change to `node` whose
/// directly affected files are `files`: not the symbol, not a node of an
/// affected file, itself in a file not affected.
pub open spec fn impact_candidate(g: CodeGraph, node: u64, files: Seq<Seq<char>>, extra: Seq<(u64, String)>, v: u64) -> bool {
    v != node && !is_seed(g, node, files, v) && !files.contains(uri_of(g.node(v).props, v, extra))
}

/// The report `imp` names `v` as an indirect impact.
pub open spec fn names_impact(g: CodeGraph, extra: Seq<(u64, String)>, v: u64, imp: IndirectImpact) -> bool {
    imp.uri@ == uri_of(g.node(v).props, v, extra) && imp.severity@ == "warning"@
}

/// `path` leads to `v` in one step: `v` refers to a node of the affected
/// file that starts the path.
pub open spec fn first_level(g: CodeGraph, node: u64, files: Seq<Seq<char>>, extra: Seq<(u64, String)>, v: u64, path: Seq<Seq<char>>) -> bool {
    exists|s: u64, i: int|
        0 <= i < files.len() && #[trigger] seed_from(g, node, files, s, files[i]) && has_edge(g, v, s)
            && path == seq![files[i], uri_of(g.node(v).props, v, extra)]
}

/// Entry `k` of the reports is reached in a second step from an earlier
/// first-step entry.
pub open spec fn second_level(g: CodeGraph, extra: Seq<(u64, String)>, ids: Seq<u64>, out: Seq<IndirectImpact>, k: int) -> bool {
    exists|j: int|
        0 <= j < k && views(out[j].path@).len() == 2 && #[trigger] has_edge(g, ids[k], ids[j])
            && views(out[k].path@) == views(out[j].path@).push(uri_of(g.node(ids[k]).props, ids[k], extra))
}

/// The indirect impacts `out` of nodes `ids` are those of a change to `node`
/// whose directly affected files are `files`: each a candidate reached
/// backwards along an edge from a node of an affected file (a path of two
/// files) or from such a first-step node (a path of three), each once; all
/// of both steps are found.
pub open spec fn indirect_ok(
    g: CodeGraph,
    node: u64,
    files: Seq<Seq<char>>,
    extra: Seq<(u64, String)>,
    ids: Seq<u64>,
    out: Seq<IndirectImpact>,
) -> bool {
    &&& ids.len() == out.len()
    &&& forall|k: int, l: int| 0 <= k < l < ids.len() ==> ids[k] != ids[l]
    &&& forall|k: int|
        0 <= k < ids.len() ==> impact_candidate(g, node, files, extra, #[trigger] ids[k]) && names_impact(g, extra, ids[k], out[k])
            && (first_level(g, node, files, extra, ids[k], views(out[k].path@)) || second_level(g, extra, ids, out, k))
    &&& forall|v: u64, s: u64|
        is_seed(g, node, files, s) && #[trigger] has_edge(g, v, s) && impact_candidate(g, node, files, extra, v)
            ==> exists|k: int| 0 <= k < ids.len() && ids[k] == v && views(out[k].path@).len() == 2
    &&& forall|v: u64, k: int|
        0 <= k < ids.len() && views(out[k].path@).len() == 2 && #[trigger] has_edge(g, v, ids[k])
            && impact_candidate(g, node, files, extra, v) ==> ids.contains(v)
}

/// Node `s` (not the symbol) lies in file `f`, one of the affected files `files`.
pub open spec fn seed_from(g: CodeGraph, node: u64, files: Seq<Seq<char>>, s: u64, f: Seq<char>) -> bool {
    s != node && nodes_with_path(g.nodes@, f).contains(s) && files.contains(f)
}

/// The nodes of the directly affected files (other than the symbol), each
/// once, each with the file it was found by.
fn impact_seeds(g: &CodeGraph, node: u64, files: &Vec<String>) -> (r: (Vec<u64>, Vec<String>))
    ensures
        r.0@.len() == r.1@.len(),
        forall|x: u64| r.0@.contains(x) <==> is_seed(*g, node, views(files@), x),
        forall|k: int|
            0 <= k < r.0@.len() ==> seed_from(*g, node, views(files@), #[trigger] r.0@[k], r.1@[k]@),
{
    let ghost fv = views(files@);
    let mut seeds: Vec<u64> = Vec::new();
    let mut via: Vec<String> = Vec::new();
    let mut i: usize = 0;
    while i < files.len()
        invariant
            i <= files@.len(),
            fv == views(files@),
            seeds@.len() == via@.len(),
            forall|x: u64| seeds@.contains(x) <==> (x != node && exists|i2: int| 0 <= i2 < i && #[trigger] nodes_with_path(g.nodes@, fv[i2]).contains(x)),
            forall|k: int|
                0 <= k < seeds@.len() ==> seed_from(*g, node, fv, #[trigger] seeds@[k], via@[k]@),
        decreases files@.len() - i,
    {
        let q = query_by_path(g, files[i].as_str());
        let ghost s0 = seeds@;
        let mut j: usize = 0;
        while j < q.len()
            invariant
                i < files@.len(),
                j <= q@.len(),
                fv == views(files@),
                q@ == nodes_with_path(g.nodes@, fv[i as int]),
                seeds@.len() == via@.len(),
                forall|x: u64| #[trigger] seeds@.contains(x) <==> (s0.contains(x) || (x != node && q@.take(j as int).contains(x))),
                forall|x: u64| s0.contains(x) <==> (x != node && exists|i2: int| 0 <= i2 < i && #[trigger] nodes_with_path(g.nodes@, fv[i2]).contains(x)),
                forall|k: int|
                    0 <= k < seeds@.len() ==> seed_from(*g, node, fv, #[trigger] seeds@[k], via@[k]@),
            decreases q@.len() - j,
        {
            let n = q[j];
            proof {
                assert(q@.take(j + 1) =~= q@.take(j as int).push(n));
            }
            let ghost sb = seeds@;
            let ghost vb = via@;
            if !crate::graph::vec_contains_u64(&seeds, n) && n != node {
                seeds.push(n);
                via.push(files[i].clone());
                proof {
                    assert(q@.contains(n)) by {
                        assert(q@[j as int] == n);
                    }
                    assert(fv[i as int] == files@[i as int]@);
                    assert(fv.contains(fv[i as int]));
                    assert forall|k: int|
                        0 <= k < seeds@.len() implies seed_from(*g, node, fv, #[trigger] seeds@[k], via@[k]@) by {
                        if k < sb.len() {
                            assert(seeds@[k] == sb[k] && via@[k] == vb[k]);
                        }
                    }
                }
            }
            proof {
                assert forall|x: u64| #[trigger] seeds@.contains(x) <==> (s0.contains(x) || (x != node && q@.take(j + 1).contains(x))) by {
                    crate::reach::lemma_push_contains(sb, n, x);
                    crate::reach::lemma_push_contains(q@.take(j as int), n, x);
                    assert(sb.contains(x) <==> (s0.contains(x) || (x != node && q@.take(j as int).contains(x))));
                    assert(q@.take(j + 1) == q@.take(j as int).push(n));
                    if seeds@.len() == sb.len() {
                        assert(seeds@ == sb);
                        if x == n && n != node {
                            assert(sb.contains(n));
                        }
                    } else {
                        assert(seeds@ == sb.push(n));
                    }
                }
            }
            j = j + 1;
        }
        proof {
            assert(q@.take(j as int) =~= q@);
            assert forall|x: u64| seeds@.contains(x) <==> (x != node && exists|i2: int| 0 <= i2 < i + 1 && #[trigger] nodes_with_path(g.nodes@, fv[i2]).contains(x)) by {
                if x != node && exists|i2: int| 0 <= i2 < i + 1 && #[trigger] nodes_with_path(g.nodes@, fv[i2]).contains(x) {
                    let i2 = choose|i2: int| 0 <= i2 < i + 1 && #[trigger] nodes_with_path(g.nodes@, fv[i2]).contains(x);
                    if i2 < i {
                        assert(s0.contains(x));
                    }
                }
                if s0.contains(x) {
                    let i2 = choose|i2: int| 0 <= i2 < i && #[trigger] nodes_with_path(g.nodes@, fv[i2]).contains(x);
                    assert(0 <= i2 < i + 1);
                }
            }
        }
        i = i + 1;
    }
    (seeds, via)
}

/// The first step of the indirect walk: from each seed, in order, the new
/// sources of edges into it.
fn impact_first_step(
    g: &CodeGraph,
    node: u64,
    files: &Vec<String>,
    extra: &Vec<(u64, String)>,
    seeds: &Vec<u64>,
    via: &Vec<String>,
) -> (r: (Vec<u64>, Vec<IndirectImpact>, Vec<u64>))
    requires
        g.wf(),
        seeds@.len() == via@.len(),
        forall|x: u64| seeds@.contains(x) <==> is_seed(*g, node, views(files@), x),
        forall|k: int| 0 <= k < seeds@.len() ==> seed_from(*g, node, views(files@), #[trigger] seeds@[k], via@[k]@),
    ensures
        r.0@.len() == r.1@.len(),
        forall|x: u64| r.2@.contains(x) <==> (seeds@.contains(x) || r.0@.contains(x)),
        forall|k: int, l: int| 0 <= k < l < r.0@.len() ==> r.0@[k] != r.0@[l],
        forall|k: int|
            0 <= k < r.0@.len() ==> impact_candidate(*g, node, views(files@), extra@, #[trigger] r.0@[k])
                && names_impact(*g, extra@, r.0@[k], r.1@[k])
                && first_level(*g, node, views(files@), extra@, r.0@[k], views(r.1@[k].path@))
                && views(r.1@[k].path@).len() == 2,
        forall|v: u64, s: u64|
            is_seed(*g, node, views(files@), s) && #[trigger] has_edge(*g, v, s) && impact_candidate(*g, node, views(files@), extra@, v)
                ==> r.0@.contains(v),
{
    let ghost fv = views(files@);
    let mut visited: Vec<u64> = Vec::new();
    let mut c: usize = 0;
    while c < seeds.len()
        invariant
            c <= seeds@.len(),
            visited@ == seeds@.take(c as int),
        decreases seeds@.len() - c,
    {
        proof {
            assert(seeds@.take(c + 1) =~= seeds@.take(c as int).push(seeds@[c as int]));
        }
        visited.push(seeds[c]);
        c = c + 1;
    }
    proof {
        assert(seeds@.take(c as int) =~= seeds@);
    }
    let mut ids: Vec<u64> = Vec::new();
    let mut out: Vec<IndirectImpact> = Vec::new();
    let mut i: usize = 0;
    while i < seeds.len()
        invariant
            g.wf(),
            i <= seeds@.len(),
            fv == views(files@),
            seeds@.len() == via@.len(),
            forall|x: u64| seeds@.contains(x) <==> is_seed(*g, node, fv, x),
            forall|k: int| 0 <= k < seeds@.len() ==> seed_from(*g, node, fv, #[trigger] seeds@[k], via@[k]@),
            out@.len() == ids@.len(),
            forall|x: u64| visited@.contains(x) <==> (seeds@.contains(x) || ids@.contains(x)),
            forall|k: int, l: int| 0 <= k < l < ids@.len() ==> ids@[k] != ids@[l],
            forall|k: int|
                0 <= k < ids@.len() ==> impact_candidate(*g, node, fv, extra@, #[trigger] ids@[k])
                    && names_impact(*g, extra@, ids@[k], out@[k])
                    && first_level(*g, node, fv, extra@, ids@[k], views(out@[k].path@))
                    && views(out@[k].path@).len() == 2,
            forall|j: int, v: u64|
                0 <= j < i && #[trigger] has_edge(*g, v, seeds@[j]) && v != node && !fv.contains(uri_of(g.node(v).props, v, extra@))
                    ==> visited@.contains(v),
        decreases seeds@.len() - i,
    {
        let w = seeds[i];
        let mut chain: Vec<String> = Vec::new();
        chain.push(via[i].clone());
        let ghost vis0 = visited@;
        let ghost ids0 = ids@;
        let ghost out0 = out@;
        expand_impact(g, node, w, &chain, files, extra, &mut visited, &mut out, &mut ids);
        proof {
            assert(views(chain@) =~= seq![via@[i as int]@]);
            assert(seed_from(*g, node, fv, seeds@[i as int], via@[i as int]@));
            let i2 = choose|i2: int| 0 <= i2 < fv.len() && fv[i2] == via@[i as int]@;
            assert(seed_from(*g, node, fv, w, fv[i2]));
            assert forall|x: u64| visited@.contains(x) <==> (seeds@.contains(x) || ids@.contains(x)) by {
                if ids@.contains(x) {
                    let k = choose|k: int| 0 <= k < ids@.len() && ids@[k] == x;
                    if k < ids0.len() {
                        assert(ids0[k] == x);
                        assert(ids0.contains(x));
                    }
                }
                if ids0.contains(x) {
                    let k = choose|k: int| 0 <= k < ids0.len() && ids0[k] == x;
                    assert(ids@[k] == x);
                }
                if exists|k: int| ids0.len() <= k < ids@.len() && ids@[k] == x {
                    let k = choose|k: int| ids0.len() <= k < ids@.len() && ids@[k] == x;
                    assert(ids@.contains(x));
                }
            }
            assert forall|k: int, l: int| 0 <= k < l < ids@.len() implies ids@[k] != ids@[l] by {
                if l >= ids0.len() {
                    if k < ids0.len() {
                        assert(ids0[k] == ids@[k]);
                        assert(vis0.contains(ids@[k]));
                    }
                } else {
                    assert(ids0[k] == ids@[k] && ids0[l] == ids@[l]);
                }
            }
            assert forall|k: int|
                0 <= k < ids@.len() implies impact_candidate(*g, node, fv, extra@, #[trigger] ids@[k])
                    && names_impact(*g, extra@, ids@[k], out@[k])
                    && first_level(*g, node, fv, extra@, ids@[k], views(out@[k].path@))
                    && views(out@[k].path@).len() == 2 by {
                if k < ids0.len() {
                    assert(ids0[k] == ids@[k] && out0[k] == out@[k]);
                } else {
                    let v = ids@[k];
                    assert(fresh_source(*g, node, fv, extra@, vis0, v));
                    assert(!seeds@.contains(v));
                    assert(views(out@[k].path@) == seq![fv[i2], uri_of(g.node(v).props, v, extra@)]);
                    assert(has_edge(*g, v, w));
                }
            }
            assert forall|j: int, v: u64|
                0 <= j < i + 1 && #[trigger] has_edge(*g, v, seeds@[j]) && v != node && !fv.contains(uri_of(g.node(v).props, v, extra@))
                    implies visited@.contains(v) by {
                if j < i {
                    assert(vis0.contains(v));
                }
            }
        }
        i = i + 1;
    }
    proof {
        assert forall|v: u64, s: u64|
            is_seed(*g, node, fv, s) && #[trigger] has_edge(*g, v, s) && impact_candidate(*g, node, fv, extra@, v)
                implies ids@.contains(v) by {
            assert(seeds@.contains(s));
            let j = choose|j: int| 0 <= j < seeds@.len() && seeds@[j] == s;
            assert(has_edge(*g, v, seeds@[j]));
            assert(visited@.contains(v));
            assert(!seeds@.contains(v));
        }
    }
    (ids, out, visited)
}

/// The indirect impact of a change to `node` whose directly affected files
/// are `files`: the first step from the nodes of those files, then one more
/// step from each first-step node.
fn indirect_impacts(g: &CodeGraph, node: u64, files: &Vec<String>, extra: &Vec<(u64, String)>) -> (r: (Vec<u64>, Vec<IndirectImpact>))
    requires
        g.wf(),
    ensures
        indirect_ok(*g, node, views(files@), extra@, r.0@, r.1@),
{
    let ghost fv = views(files@);
    let (seeds, via) = impact_seeds(g, node, files);
    let (mut ids, mut out, mut visited) = impact_first_step(g, node, files, extra, &seeds, &via);
    let n1 = ids.len();
    let ghost ids1 = ids@;
    let ghost out1 = out@;
    let mut j: usize = 0;
    while j < n1
        invariant
            g.wf(),
            fv == views(files@),
            j <= n1,
            n1 == ids1.len(),
            ids1.len() == out1.len(),
            out@.len() == ids@.len(),
            ids@.len() >= n1,
            forall|k: int| 0 <= k < n1 ==> ids@[k] == ids1[k] && out@[k] == out1[k],
            forall|x: u64| seeds@.contains(x) <==> is_seed(*g, node, fv, x),
            forall|x: u64| visited@.contains(x) <==> (seeds@.contains(x) || ids@.contains(x)),
            forall|k: int, l: int| 0 <= k < l < ids@.len() ==> ids@[k] != ids@[l],
            forall|k: int|
                0 <= k < n1 ==> impact_candidate(*g, node, fv, extra@, #[trigger] ids1[k])
                    && names_impact(*g, extra@, ids1[k], out1[k])
                    && first_level(*g, node, fv, extra@, ids1[k], views(out1[k].path@))
                    && views(out1[k].path@).len() == 2,
            forall|k: int|
                n1 <= k < ids@.len() ==> impact_candidate(*g, node, fv, extra@, #[trigger] ids@[k])
                    && names_impact(*g, extra@, ids@[k], out@[k])
                    && views(out@[k].path@).len() == 3
                    && exists|jj: int|
                        0 <= jj < n1 && #[trigger] has_edge(*g, ids@[k], ids1[jj])
                            && views(out@[k].path@) == views(out1[jj].path@).push(uri_of(g.node(ids@[k]).props, ids@[k], extra@)),
            forall|v: u64, s: u64|
                is_seed(*g, node, fv, s) && #[trigger] has_edge(*g, v, s) && impact_candidate(*g, node, fv, extra@, v)
                    ==> ids1.contains(v),
            forall|jj: int, v: u64|
                0 <= jj < j && #[trigger] has_edge(*g, v, ids1[jj]) && v != node && !fv.contains(uri_of(g.node(v).props, v, extra@))
                    ==> visited@.contains(v),
        decreases n1 - j,
    {
        let w = ids[j];
        let chain = copy_strings(&out[j].path);
        let ghost vis0 = visited@;
        let ghost ids0 = ids@;
        let ghost out0 = out@;
        expand_impact(g, node, w, &chain, files, extra, &mut visited, &mut out, &mut ids);
        proof {
            assert(w == ids1[j as int]);
            assert(views(chain@) == views(out1[j as int].path@));
            assert forall|x: u64| visited@.contains(x) <==> (seeds@.contains(x) || ids@.contains(x)) by {
                if ids@.contains(x) {
                    let k = choose|k: int| 0 <= k < ids@.len() && ids@[k] == x;
                    if k < ids0.len() {
                        assert(ids0[k] == x);
                        assert(ids0.contains(x));
                    }
                }
                if ids0.contains(x) {
                    let k = choose|k: int| 0 <= k < ids0.len() && ids0[k] == x;
                    assert(ids@[k] == x);
                }
                if exists|k: int| ids0.len() <= k < ids@.len() && ids@[k] == x {
                    let k = choose|k: int| ids0.len() <= k < ids@.len() && ids@[k] == x;
                    assert(ids@.contains(x));
                }
            }
            assert forall|k: int, l: int| 0 <= k < l < ids@.len() implies ids@[k] != ids@[l] by {
                if l >= ids0.len() {
                    if k < ids0.len() {
                        assert(ids0[k] == ids@[k]);
                        assert(vis0.contains(ids@[k]));
                    }
                } else {
                    assert(ids0[k] == ids@[k] && ids0[l] == ids@[l]);
                }
            }
            assert forall|k: int| 0 <= k < n1 implies ids@[k] == ids1[k] && out@[k] == out1[k] by {
                assert(ids0[k] == ids@[k] && out0[k] == out@[k]);
            }
            assert forall|k: int|
                n1 <= k < ids@.len() implies impact_candidate(*g, node, fv, extra@, #[trigger] ids@[k])
                    && names_impact(*g, extra@, ids@[k], out@[k])
                    && views(out@[k].path@).len() == 3
                    && exists|jj: int|
                        0 <= jj < n1 && #[trigger] has_edge(*g, ids@[k], ids1[jj])
                            && views(out@[k].path@) == views(out1[jj].path@).push(uri_of(g.node(ids@[k]).props, ids@[k], extra@)) by {
                if k < ids0.len() {
                    assert(ids0[k] == ids@[k] && out0[k] == out@[k]);
                } else {
                    let v = ids@[k];
                    assert(fresh_source(*g, node, fv, extra@, vis0, v));
                    assert(!seeds@.contains(v));
                    assert(has_edge(*g, v, ids1[j as int]));
                }
            }
            assert forall|jj: int, v: u64|
                0 <= jj < j + 1 && #[trigger] has_edge(*g, v, ids1[jj]) && v != node && !fv.contains(uri_of(g.node(v).props, v, extra@))
                    implies visited@.contains(v) by {
                if jj < j {
                    assert(vis0.contains(v));
                }
            }
        }
        j = j + 1;
    }
    proof {
        assert forall|k: int|
            0 <= k < ids@.len() implies impact_candidate(*g, node, fv, extra@, #[trigger] ids@[k]) && names_impact(*g, extra@, ids@[k], out@[k])
                && (first_level(*g, node, fv, extra@, ids@[k], views(out@[k].path@)) || second_level(*g, extra@, ids@, out@, k)) by {
            if k < n1 {
                assert(ids@[k] == ids1[k] && out@[k] == out1[k]);
            } else {
                let jj = choose|jj: int|
                    0 <= jj < n1 && #[trigger] has_edge(*g, ids@[k], ids1[jj])
                        && views(out@[k].path@) == views(out1[jj].path@).push(uri_of(g.node(ids@[k]).props, ids@[k], extra@));
                assert(ids@[jj] == ids1[jj] && out@[jj] == out1[jj]);
                assert(has_edge(*g, ids@[k], ids@[jj]));
            }
        }
        assert forall|v: u64, s: u64|
            is_seed(*g, node, fv, s) && #[trigger] has_edge(*g, v, s) && impact_candidate(*g, node, fv, extra@, v)
                implies exists|k: int| 0 <= k < ids@.len() && ids@[k] == v && views(out@[k].path@).len() == 2 by {
            assert(ids1.contains(v));
            let k = choose|k: int| 0 <= k < ids1.len() && ids1[k] == v;
            assert(ids@[k] == v && out@[k] == out1[k]);
        }
        assert forall|v: u64, k: int|
            0 <= k < ids@.len() && views(out@[k].path@).len() == 2 && #[trigger] has_edge(*g, v, ids@[k])
                && impact_candidate(*g, node, fv, extra@, v) implies ids@.contains(v) by {
            if k >= n1 {
                assert(views(out@[k].path@).len() == 3);
            }
            assert(ids@[k] == ids1[k]);
            assert(visited@.contains(v));
            assert(!seeds@.contains(v));
        }
    }
    (ids, out)
}

/// A place that refers to the changed symbol.
#[derive(Clone, Debug)]
pub struct DirectImpact {
    pub uri: String,
    pub range: LspRange,
    pub impact_type: String,
    pub severity: String,
}

/// Mathematical view of a direct impact.
pub struct DirectImpactV {
    pub uri: Seq<char>,
    pub range: LspRange,
    pub impact_type: Seq<char>,
    pub severity: Seq<char>,
}

impl View for DirectImpact {
    type V = DirectImpactV;

    open spec fn view(&self) -> DirectImpactV {
        DirectImpactV { uri: self.uri@, range: self.range, impact_type: self.impact_type@, severity: self.severity@ }
    }
}

/// A test among the places that refer to the changed symbol.
#[derive(Clone, Debug)]
pub struct AffectedTest {
    pub uri: String,
    pub test_name: String,
}

/// Mathematical view of an affected test.
pub struct AffectedTestV {
    pub uri: Seq<char>,
    pub test_name: Seq<char>,
}

impl View for AffectedTest {
    type V = AffectedTestV;

    open spec fn view(&self) -> AffectedTestV {
        AffectedTestV { uri: self.uri@, test_name: self.test_name@ }
    }
}

/// Counts over an impact analysis.
#[derive(Clone, Copy, Debug, PartialEq, Eq, Structural)]
pub struct ImpactSummary {
    pub files_affected: usize,
    pub breaking_changes: usize,
    pub warnings: usize,
}

/// What a change to a symbol affects.
#[derive(Clone, Debug)]
pub struct ImpactAnalysisResponse {
    pub direct_impact: Vec<DirectImpact>,
    pub indirect_impact: Vec<IndirectImpact>,
    pub affected_tests: Vec<AffectedTest>,
    pub summary: ImpactSummary,
}

/// The direct impact reported for an edge into the symbol.
pub open spec fn direct_of(g: CodeGraph, e: GraphEdge, analysis: Seq<char>, extra: Seq<(u64, String)>) -> DirectImpactV {
    let p = g.node(e.source).props;
    DirectImpactV {
        uri: uri_of(p, e.source, extra),
        range: node_range_of(p),
        impact_type: impact_kind(e.edge_type),
        severity: severity_of(analysis),
    }
}

/// A referring node counts as a test: its name starts with `test_` or ends
/// with `_test`, or its URI mentions `test`.
pub open spec fn is_test_ref(g: CodeGraph, v: u64, extra: Seq<(u64, String)>) -> bool {
    let name = str_or_empty(g.node(v).props.name);
    seq_starts_with(name, "test_"@) || seq_ends_with(name, "_test"@) || seq_contains(uri_of(g.node(v).props, v, extra), "test"@)
}

/// The tests among the sources of the edges `es`, in order.
pub open spec fn affected_tests_of(g: CodeGraph, es: Seq<GraphEdge>, extra: Seq<(u64, String)>) -> Seq<AffectedTestV>
    decreases es.len(),
{
    if es.len() == 0 {
        seq![]
    } else {
        let rest = affected_tests_of(g, es.drop_last(), extra);
        let v = es.last().source;
        if is_test_ref(g, v, extra) {
            rest.push(AffectedTestV { uri: uri_of(g.node(v).props, v, extra), test_name: str_or_empty(g.node(v).props.name) })
        } else {
            rest
        }
    }
}

/// The URIs of the sources of the edges `es`, in order.
pub open spec fn direct_uris(g: CodeGraph, es: Seq<GraphEdge>, extra: Seq<(u64, String)>) -> Seq<Seq<char>> {
    es.map_values(|e: GraphEdge| uri_of(g.node(e.source).props, e.source, extra))
}

/// The name of how a referring node is affected.
fn impact_kind_name(t: EdgeType) -> (r: String)
    ensures
        r@ == impact_kind(t),
{
    match t {
        EdgeType::Calls => owned("caller"),
        EdgeType::References => owned("reference"),
        EdgeType::Extends => owned("subclass"),
        EdgeType::Implements => owned("implementation"),
        _ => owned("reference"),
    }
}

/// The severity of a direct impact for the kind of change `analysis`.
pub fn severity_name(analysis: &str) -> (r: String)
    ensures
        r@ == severity_of(analysis@),
{
    if str_eq(analysis, "delete") || str_eq(analysis, "rename") {
        owned("breaking")
    } else if str_eq(analysis, "modify") {
        owned("warning")
    } else {
        owned("info")
    }
}

/// The direct impacts of a change to `node`, one per edge into it, with the
/// tests among them, the URIs of all of them and the number of distinct
/// URIs.
fn direct_impacts(g: &CodeGraph, node: u64, analysis: &str, extra: &Vec<(u64, String)>) -> (r: (
    Vec<DirectImpact>,
    Vec<AffectedTest>,
    Vec<String>,
    usize,
))
    requires
        g.wf(),
    ensures
        r.0@.len() == incoming_of(g.edges@, node).len(),
        forall|k: int| 0 <= k < r.0@.len() ==> #[trigger] r.0@[k]@ == direct_of(*g, incoming_of(g.edges@, node)[k], analysis@, extra@),
        r.1@.map_values(|t: AffectedTest| t@) == affected_tests_of(*g, incoming_of(g.edges@, node), extra@),
        views(r.2@) == direct_uris(*g, incoming_of(g.edges@, node), extra@),
        r.3 == direct_uris(*g, incoming_of(g.edges@, node), extra@).to_set().len(),
{
    let inc = get_incoming_edges(g, node);
    let ghost es = incoming_of(g.edges@, node);
    let sev = severity_name(analysis);
    let mut direct: Vec<DirectImpact> = Vec::new();
    let mut tests: Vec<AffectedTest> = Vec::new();
    let mut uris: Vec<String> = Vec::new();
    let mut distinct: Vec<String> = Vec::new();
    let mut i: usize = 0;
    while i < inc.len()
        invariant
            g.wf(),
            i <= inc@.len(),
            inc@ == es.map_values(|e: GraphEdge| edge_triple(e)),
            es == incoming_of(g.edges@, node),
            sev@ == severity_of(analysis@),
            direct@.len() == i,
            forall|k: int| 0 <= k < i ==> #[trigger] direct@[k]@ == direct_of(*g, es[k], analysis@, extra@),
            tests@.map_values(|t: AffectedTest| t@) == affected_tests_of(*g, es.take(i as int), extra@),
            views(uris@) == direct_uris(*g, es.take(i as int), extra@),
            views(distinct@).no_duplicates(),
            views(distinct@).to_set() == direct_uris(*g, es.take(i as int), extra@).to_set(),
        decreases inc@.len() - i,
    {
        let v = inc[i].0;
        let t = inc[i].2;
        let ghost e = es[i as int];
        proof {
            assert(inc@[i as int] == edge_triple(e));
            crate::graph::lemma_select_contains(g.edges@, |e: GraphEdge| e.target == node, e);
            assert(es.contains(e));
            let m = choose|m: int| 0 <= m < g.edges@.len() && g.edges@[m] == e;
            assert(g.edges@[m].source == v);
            assert(g.has_node(v));
            assert(es.take(i + 1).drop_last() =~= es.take(i as int));
            assert(es.take(i + 1).last() == e);
            assert(direct_uris(*g, es.take(i + 1), extra@) =~= direct_uris(*g, es.take(i as int), extra@).push(
                uri_of(g.node(v).props, v, extra@),
            ));
        }
        let n = g.get_node(v).unwrap();
        let ru = node_uri(&n.props, v, extra);
        let name = string_or_empty(&n.props.name);
        let is_test = str_starts_with(name.as_str(), "test_") || str_ends_with(name.as_str(), "_test") || str_contains(
            ru.as_str(),
            "test",
        );
        let ghost tb = tests@;
        if is_test {
            tests.push(AffectedTest { uri: ru.clone(), test_name: name });
            proof {
                assert(tests@.map_values(|t: AffectedTest| t@) =~= tb.map_values(|t: AffectedTest| t@).push(tests@.last()@));
            }
        }
        let ghost ub = uris@;
        let ghost db = distinct@;
        let ghost ruv = ru@;
        if !contains_string(&distinct, ru.as_str()) {
            distinct.push(ru.clone());
            proof {
                assert(views(distinct@) =~= views(db).push(ruv));
                assert forall|a: int, b: int| 0 <= a < b < views(distinct@).len() implies views(distinct@)[a] != views(
                    distinct@,
                )[b] by {
                    if b == views(db).len() {
                        assert(views(db).contains(views(db)[a]));
                    }
                }
            }
        }
        proof {
            let old_set = direct_uris(*g, es.take(i as int), extra@).to_set();
            let new_seq = direct_uris(*g, es.take(i + 1), extra@);
            assert(new_seq == direct_uris(*g, es.take(i as int), extra@).push(ruv));
            direct_uris(*g, es.take(i as int), extra@).lemma_push_to_set_commute(ruv);
            if distinct@.len() == db.len() {
                assert(views(distinct@) == views(db));
                assert(views(db).to_set().contains(ruv));
                assert(views(distinct@).to_set() =~= old_set.insert(ruv));
            } else {
                views(db).lemma_push_to_set_commute(ruv);
            }
        }
        uris.push(ru.clone());
        proof {
            assert(views(uris@) =~= views(ub).push(ruv));
        }
        direct.push(DirectImpact { uri: ru, range: node_to_range(&n.props), impact_type: impact_kind_name(t), severity: sev.clone() });
        i = i + 1;
    }
    proof {
        assert(es.take(inc@.len() as int) =~= es);
        views(distinct@).unique_seq_to_set();
    }
    let count = distinct.len();
    (direct, tests, uris, count)
}

/// Some set of nodes gives the reports `out` as the indirect impact.
pub open spec fn indirect_report(
    g: CodeGraph,
    node: u64,
    files: Seq<Seq<char>>,
    extra: Seq<(u64, String)>,
    out: Seq<IndirectImpact>,
) -> bool {
    exists|ids: Seq<u64>| #[trigger] indirect_ok(g, node, files, extra, ids, out)
}

/// The report of a change of kind `analysis` to `node`: one direct impact
/// per edge into it, in order; the tests among their sources; the indirect
/// impact from the files of the direct ones; the number of distinct files
/// directly affected, the direct impacts counted as breaking or as warnings
/// by the kind of change, and every indirect one a warning.
pub open spec fn impact_report_ok(g: CodeGraph, node: u64, analysis: Seq<char>, extra: Seq<(u64, String)>, r: ImpactAnalysisResponse) -> bool {
    let es = incoming_of(g.edges@, node);
    let files = direct_uris(g, es, extra);
    &&& r.direct_impact@.len() == es.len()
    &&& forall|k: int| 0 <= k < es.len() ==> #[trigger] r.direct_impact@[k]@ == direct_of(g, es[k], analysis, extra)
    &&& r.affected_tests@.map_values(|t: AffectedTest| t@) == affected_tests_of(g, es, extra)
    &&& indirect_report(g, node, files, extra, r.indirect_impact@)
    &&& r.summary.files_affected == files.to_set().len()
    &&& r.summary.breaking_changes == (if severity_of(analysis) == "breaking"@ { es.len() } else { 0 })
    &&& r.summary.warnings == (if severity_of(analysis) == "warning"@ { es.len() } else { 0 }) + r.indirect_impact@.len()
}

/// Each direct impact names how its referrer depends on the changed symbol:
/// the `k`-th comes from the `k`-th edge into it: a caller for a call, a
/// subclass for an extension, an implementation for an implementation, a
/// reference for any other edge; and it is reported at the referrer's URI.
pub proof fn lemma_impact_kinds(
    g: CodeGraph,
    node: u64,
    analysis: Seq<char>,
    extra: Seq<(u64, String)>,
    r: ImpactAnalysisResponse,
)
    requires
        impact_report_ok(g, node, analysis, extra, r),
    ensures
        r.direct_impact@.len() == incoming_of(g.edges@, node).len(),
        forall|k: int|
            #![trigger r.direct_impact@[k]]
            0 <= k < r.direct_impact@.len() ==> r.direct_impact@[k].uri@ == uri_of(
                g.node(incoming_of(g.edges@, node)[k].source).props,
                incoming_of(g.edges@, node)[k].source,
                extra,
            ) && (incoming_of(g.edges@, node)[k].edge_type == EdgeType::Calls ==> r.direct_impact@[k].impact_type@
                == "caller"@) && (incoming_of(g.edges@, node)[k].edge_type == EdgeType::Extends
                ==> r.direct_impact@[k].impact_type@ == "subclass"@) && (incoming_of(g.edges@, node)[k].edge_type
                == EdgeType::Implements ==> r.direct_impact@[k].impact_type@ == "implementation"@) && (incoming_of(
                g.edges@,
                node,
            )[k].edge_type != EdgeType::Calls && incoming_of(g.edges@, node)[k].edge_type != EdgeType::Extends
                && incoming_of(g.edges@, node)[k].edge_type != EdgeType::Implements ==> r.direct_impact@[k].impact_type@
                == "reference"@),
{
    let es = incoming_of(g.edges@, node);
    assert forall|k: int|
        #![trigger r.direct_impact@[k]]
        0 <= k < r.direct_impact@.len() implies r.direct_impact@[k].uri@ == uri_of(
        g.node(es[k].source).props,
        es[k].source,
        extra,
    ) && (es[k].edge_type == EdgeType::Calls ==> r.direct_impact@[k].impact_type@ == "caller"@) && (
    es[k].edge_type == EdgeType::Extends ==> r.direct_impact@[k].impact_type@ == "subclass"@) && (es[k].edge_type
        == EdgeType::Implements ==> r.direct_impact@[k].impact_type@ == "implementation"@) && (es[k].edge_type
        != EdgeType::Calls && es[k].edge_type != EdgeType::Extends && es[k].edge_type != EdgeType::Implements
        ==> r.direct_impact@[k].impact_type@ == "reference"@) by {
        assert(r.direct_impact@[k]@ == direct_of(g, es[k], analysis, extra));
    }
}

/// The severity of a change: deleting or renaming the symbol breaks every
/// direct referrer, modifying it warns each, and any other kind of change
/// only informs; the summary counts breaking changes and warnings (every
/// indirect impact among the warnings) accordingly.
pub proof fn lemma_impact_severity(
    g: CodeGraph,
    node: u64,
    analysis: Seq<char>,
    extra: Seq<(u64, String)>,
    r: ImpactAnalysisResponse,
)
    requires
        impact_report_ok(g, node, analysis, extra, r),
    ensures
        analysis == "delete"@ || analysis == "rename"@ ==> r.summary.breaking_changes == r.direct_impact@.len()
            && r.summary.warnings == r.indirect_impact@.len() && forall|k: int|
            0 <= k < r.direct_impact@.len() ==> (#[trigger] r.direct_impact@[k]).severity@ == "breaking"@,
        analysis == "modify"@ ==> r.summary.breaking_changes == 0 && r.summary.warnings == r.direct_impact@.len()
            + r.indirect_impact@.len() && forall|k: int|
            0 <= k < r.direct_impact@.len() ==> (#[trigger] r.direct_impact@[k]).severity@ == "warning"@,
        analysis != "delete"@ && analysis != "rename"@ && analysis != "modify"@ ==> r.summary.breaking_changes == 0
            && r.summary.warnings == r.indirect_impact@.len() && forall|k: int|
            0 <= k < r.direct_impact@.len() ==> (#[trigger] r.direct_impact@[k]).severity@ == "info"@,
{
    reveal_strlit("delete");
    reveal_strlit("rename");
    reveal_strlit("modify");
    reveal_strlit("breaking");
    reveal_strlit("warning");
    reveal_strlit("info");
    assert("modify"@[0] != "delete"@[0] && "modify"@[0] != "rename"@[0]);
    assert("breaking"@.len() != "warning"@.len() && "info"@.len() != "warning"@.len() && "info"@.len()
        != "breaking"@.len());
    let es = incoming_of(g.edges@, node);
    assert forall|k: int| 0 <= k < r.direct_impact@.len() implies (#[trigger] r.direct_impact@[k]).severity@
        == severity_of(analysis) by {
        assert(r.direct_impact@[k]@ == direct_of(g, es[k], analysis, extra));
    }
}

/// A referrer counts as a test when its name starts with `test_` or ends
/// with `_test`, or its URI mentions `test`; and only then.
pub proof fn lemma_test_referrers(g: CodeGraph, v: u64, extra: Seq<(u64, String)>)
    ensures
        is_test_ref(g, v, extra) <==> (seq_starts_with(str_or_empty(g.node(v).props.name), "test_"@) || seq_ends_with(
            str_or_empty(g.node(v).props.name),
            "_test"@,
        ) || seq_contains(uri_of(g.node(v).props, v, extra), "test"@)),
{
}

/// Filtering a sequence by a predicate that holds of all of it, or of none
/// of it, keeps all of it, or none.
proof fn lemma_filter_uniform<A>(s: Seq<A>, p: spec_fn(A) -> bool, all: bool)
    requires
        forall|k: int| 0 <= k < s.len() ==> p(#[trigger] s[k]) == all,
    ensures
        s.filter(p).len() == (if all { s.len() } else { 0 }),
    decreases s.len(),
{
    reveal(Seq::filter);
    if s.len() > 0 {
        let pre = s.drop_last();
        assert forall|k: int| 0 <= k < pre.len() implies p(#[trigger] pre[k]) == all by {
            assert(pre[k] == s[k]);
        }
        lemma_filter_uniform(pre, p, all);
        assert(p(s[s.len() - 1]) == all);
    }
}

/// Every test found among the sources of `es` is in one of their files.
proof fn lemma_tests_in_direct_files(g: CodeGraph, es: Seq<GraphEdge>, extra: Seq<(u64, String)>)
    ensures
        forall|k: int|
            0 <= k < affected_tests_of(g, es, extra).len() ==> direct_uris(g, es, extra).contains(
                (#[trigger] affected_tests_of(g, es, extra)[k]).uri,
            ),
    decreases es.len(),
{
    if es.len() > 0 {
        let pre = es.drop_last();
        lemma_tests_in_direct_files(g, pre, extra);
        let rest = affected_tests_of(g, pre, extra);
        let all = direct_uris(g, es, extra);
        let fewer = direct_uris(g, pre, extra);
        assert forall|k: int| 0 <= k < affected_tests_of(g, es, extra).len() implies all.contains(
            (#[trigger] affected_tests_of(g, es, extra)[k]).uri,
        ) by {
            if k < rest.len() {
                assert(affected_tests_of(g, es, extra)[k] == rest[k]);
                let i = choose|i: int| 0 <= i < fewer.len() && fewer[i] == rest[k].uri;
                assert(all[i] == fewer[i]);
            } else {
                assert(all[es.len() - 1] == affected_tests_of(g, es, extra)[k].uri);
            }
        }
    }
}

/// The impact report of a change: every direct impact carries the severity
/// of the kind of change (`breaking` for a deletion or a renaming, `warning`
/// for a modification, `info` otherwise); the breaking changes are the
/// direct impacts marked breaking, the warnings those marked warning and
/// every indirect one; the files affected are the distinct files of the
/// direct impacts; every affected test lies in one of them; no indirect
/// impact does, each is a warning, and its path names two or three files.
pub proof fn lemma_impact_report_shape(
    g: CodeGraph,
    node: u64,
    analysis: Seq<char>,
    extra: Seq<(u64, String)>,
    r: ImpactAnalysisResponse,
)
    requires
        g.wf(),
        impact_report_ok(g, node, analysis, extra, r),
    ensures
        ({
            let direct = r.direct_impact@;
            let files = direct.map_values(|d: DirectImpact| d.uri@);
            &&& severity_of(analysis) == "breaking"@ || severity_of(analysis) == "warning"@ || severity_of(analysis)
                == "info"@
            &&& forall|k: int| 0 <= k < direct.len() ==> (#[trigger] direct[k]).severity@ == severity_of(analysis)
            &&& r.summary.breaking_changes == direct.filter(|d: DirectImpact| d.severity@ == "breaking"@).len()
            &&& r.summary.warnings == direct.filter(|d: DirectImpact| d.severity@ == "warning"@).len()
                + r.indirect_impact@.len()
            &&& r.summary.files_affected == files.to_set().len()
            &&& forall|k: int| 0 <= k < r.affected_tests@.len() ==> files.contains((#[trigger] r.affected_tests@[k]).uri@)
            &&& forall|k: int|
                0 <= k < r.indirect_impact@.len() ==> {
                    let imp = #[trigger] r.indirect_impact@[k];
                    &&& !files.contains(imp.uri@)
                    &&& imp.severity@ == "warning"@
                    &&& (imp.path@.len() == 2 || imp.path@.len() == 3)
                }
        }),
{
    let es = incoming_of(g.edges@, node);
    let uris = direct_uris(g, es, extra);
    let direct = r.direct_impact@;
    let files = direct.map_values(|d: DirectImpact| d.uri@);
    assert(files =~= uris) by {
        assert forall|k: int| 0 <= k < files.len() implies files[k] == uris[k] by {
            assert(direct[k]@ == direct_of(g, es[k], analysis, extra));
        }
    }
    assert forall|k: int| 0 <= k < direct.len() implies (#[trigger] direct[k]).severity@ == severity_of(analysis) by {
        assert(direct[k]@ == direct_of(g, es[k], analysis, extra));
    }
    let sev = severity_of(analysis);
    let pb = |d: DirectImpact| d.severity@ == "breaking"@;
    let pw = |d: DirectImpact| d.severity@ == "warning"@;
    assert forall|k: int| 0 <= k < direct.len() implies pb(#[trigger] direct[k]) == (sev == "breaking"@) by {
        assert(direct[k].severity@ == sev);
    }
    assert forall|k: int| 0 <= k < direct.len() implies pw(#[trigger] direct[k]) == (sev == "warning"@) by {
        assert(direct[k].severity@ == sev);
    }
    lemma_filter_uniform(direct, pb, sev == "breaking"@);
    lemma_filter_uniform(direct, pw, sev == "warning"@);
    lemma_tests_in_direct_files(g, es, extra);
    let ats = affected_tests_of(g, es, extra);
    assert forall|k: int| 0 <= k < r.affected_tests@.len() implies files.contains((#[trigger] r.affected_tests@[k]).uri@) by {
        assert(r.affected_tests@.map_values(|t: AffectedTest| t@)[k] == ats[k]);
        assert(uris.contains(ats[k].uri));
    }
    let out = r.indirect_impact@;
    let ids = choose|ids: Seq<u64>| #[trigger] indirect_ok(g, node, uris, extra, ids, out);
    assert forall|k: int| 0 <= k < out.len() implies {
        let imp = #[trigger] out[k];
        &&& !files.contains(imp.uri@)
        &&& imp.severity@ == "warning"@
        &&& (imp.path@.len() == 2 || imp.path@.len() == 3)
    } by {
        assert(impact_candidate(g, node, uris, extra, ids[k]));
        assert(names_impact(g, extra, ids[k], out[k]));
        if !first_level(g, node, uris, extra, ids[k], views(out[k].path@)) {
            assert(second_level(g, extra, ids, out, k));
            let j = choose|j: int|
                0 <= j < k && views(out[j].path@).len() == 2 && #[trigger] has_edge(g, ids[k], ids[j])
                    && views(out[k].path@) == views(out[j].path@).push(uri_of(g.node(ids[k]).props, ids[k], extra));
            assert(views(out[k].path@).len() == 3);
        } else {
            let (s0, i0) = choose|s0: u64, i0: int|
                0 <= i0 < uris.len() && #[trigger] seed_from(g, node, uris, s0, uris[i0]) && has_edge(g, ids[k], s0)
                    && views(out[k].path@) == seq![uris[i0], uri_of(g.node(ids[k]).props, ids[k], extra)];
            assert(views(out[k].path@).len() == 2);
        }
    }
}

/// Distinct nodes of the graph are no more than its nodes.
proof fn lemma_distinct_nodes_bounded(g: CodeGraph, ids: Seq<u64>)
    requires
        forall|k: int, l: int| 0 <= k < l < ids.len() ==> ids[k] != ids[l],
        forall|k: int| 0 <= k < ids.len() ==> g.has_node(#[trigger] ids[k]),
    ensures
        ids.len() <= g.nodes@.len(),
{
    let ns = g.nodes@.map_values(|n: GraphNode| n.id);
    assert(ids.no_duplicates());
    ids.unique_seq_to_set();
    assert forall|x: u64| ids.to_set().contains(x) implies ns.to_set().contains(x) by {
        let k = choose|k: int| 0 <= k < ids.len() && ids[k] == x;
        assert(g.has_node(ids[k]));
        let i = choose|i: int| 0 <= i < g.nodes@.len() && (#[trigger] g.nodes@[i]).id == x;
        assert(ns[i] == x);
    }
    ns.lemma_cardinality_of_set();
    vstd::seq_lib::seq_to_set_is_finite(ns);
    vstd::set_lib::lemma_len_subset(ids.to_set(), ns.to_set());
}

/// Every indirectly affected node is a node of the graph.
proof fn lemma_indirect_nodes(g: CodeGraph, node: u64, files: Seq<Seq<char>>, extra: Seq<(u64, String)>, ids: Seq<u64>, out: Seq<IndirectImpact>)
    requires
        g.wf(),
        indirect_ok(g, node, files, extra, ids, out),
    ensures
        forall|k: int| 0 <= k < ids.len() ==> g.has_node(#[trigger] ids[k]),
{
    assert forall|k: int| 0 <= k < ids.len() implies g.has_node(#[trigger] ids[k]) by {
        let w: u64 = if first_level(g, node, files, extra, ids[k], views(out[k].path@)) {
            let (s, i) = choose|s: u64, i: int|
                0 <= i < files.len() && #[trigger] seed_from(g, node, files, s, files[i]) && has_edge(g, ids[k], s)
                    && views(out[k].path@) == seq![files[i], uri_of(g.node(ids[k]).props, ids[k], extra)];
            s
        } else {
            let j = choose|j: int|
                0 <= j < k && views(out[j].path@).len() == 2 && #[trigger] has_edge(g, ids[k], ids[j])
                    && views(out[k].path@) == views(out[j].path@).push(uri_of(g.node(ids[k]).props, ids[k], extra));
            ids[j]
        };
        assert(has_edge(g, ids[k], w));
        let m = choose|m: int| 0 <= m < g.edges@.len() && (#[trigger] g.edges@[m]).source == ids[k] && g.edges@[m].target == w;
        assert(crate::graph::seq_has_node(g.nodes@, g.edges@[m].source));
    }
}

/// `r` is the impact report for `target`: empty where there is none.
pub open spec fn impact_response_fits(
    g: CodeGraph,
    target: Option<u64>,
    analysis: Seq<char>,
    extra: Seq<(u64, String)>,
    r: ImpactAnalysisResponse,
) -> bool {
    match target {
        None => r.direct_impact@.len() == 0 && r.indirect_impact@.len() == 0 && r.affected_tests@.len() == 0
            && r.summary == (ImpactSummary { files_affected: 0, breaking_changes: 0, warnings: 0 }),
        Some(node) => impact_report_ok(g, node, analysis, extra, r),
    }
}

/// The impact of a change of kind `analysis_type` (`modify`, `delete` or
/// `rename`) to the symbol `target`, the node found at the requested
/// position; an empty report where none was found. `files` is the symbol
/// index's table of the files of nodes that record none.
pub fn handle_analyze_impact(
    g: &CodeGraph,
    target: Option<u64>,
    analysis_type: &str,
    files: &Vec<(u64, String)>,
) -> (r: ImpactAnalysisResponse)
    requires
        g.wf(),
        g.nodes@.len() + g.edges@.len() <= usize::MAX,
    ensures
        impact_response_fits(*g, target, analysis_type@, files@, r),
{
    let node = match target {
        Some(n) => n,
        None => {
            return ImpactAnalysisResponse {
                direct_impact: Vec::new(),
                indirect_impact: Vec::new(),
                affected_tests: Vec::new(),
                summary: ImpactSummary { files_affected: 0, breaking_changes: 0, warnings: 0 },
            };
        },
    };
    let (direct, tests, uris, count) = direct_impacts(g, node, analysis_type, files);
    let (ids, indirect) = indirect_impacts(g, node, &uris, files);
    let ghost es = incoming_of(g.edges@, node);
    proof {
        crate::graph::lemma_select_len(g.edges@, |e: GraphEdge| e.target == node);
        lemma_indirect_nodes(*g, node, views(uris@), files@, ids@, indirect@);
        lemma_distinct_nodes_bounded(*g, ids@);
        assert(indirect_ok(*g, node, direct_uris(*g, es, files@), files@, ids@, indirect@));
    }
    let sev = severity_name(analysis_type);
    let n = direct.len();
    let breaking: usize = if str_eq(sev.as_str(), "breaking") {
        n
    } else {
        0
    };
    let warnings: usize = if str_eq(sev.as_str(), "warning") {
        n + indirect.len()
    } else {
        indirect.len()
    };
    ImpactAnalysisResponse {
        direct_impact: direct,
        indirect_impact: indirect,
        affected_tests: tests,
        summary: ImpactSummary { files_affected: count, breaking_changes: breaking, warnings },
    }
}

/// The impact analysis request: the document `uri` is resolved to a file,
/// the symbol at the 0-based position is looked up among the symbols that
/// `file_symbols` holds for that file, and its impact is reported as
/// `handle_analyze_impact` does. `InvalidUri` exactly when `uri` is no URL.
pub fn analyze_impact_at(
    g: &CodeGraph,
    uri: &str,
    line: u32,
    character: u32,
    analysis_type: &str,
    file_symbols: &Vec<(String, Vec<u64>)>,
    files: &Vec<(u64, String)>,
) -> (r: Result<ImpactAnalysisResponse, UriError>)
    requires
        g.wf(),
        g.nodes@.len() + g.edges@.len() <= usize::MAX,
        line < u32::MAX,
    ensures
        (r matches Err(e) && e == UriError::InvalidUri) <==> !url_parses(uri@),
        r matches Ok(resp) ==> exists|path: Seq<char>|
            impact_response_fits(
                *g,
                first_covering(*g, #[trigger] symbols_for(file_symbols@, path), line + 1, character as int),
                analysis_type@,
                files@,
                resp,
            ),
{
    let path = match file_path_of_uri(uri) {
        Ok(p) => p,
        Err(e) => {
            return Err(e);
        },
    };
    let symbols = symbols_of_file(file_symbols, path.as_str());
    let target = find_node_at_position(g, None, &symbols, line, character);
    let resp = handle_analyze_impact(g, target, analysis_type, files);
    assert(impact_response_fits(
        *g,
        first_covering(*g, symbols_for(file_symbols@, path@), line + 1, character as int),
        analysis_type@,
        files@,
        resp,
    ));
    Ok(resp)
}

} // verus!
