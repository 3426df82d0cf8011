//! Results shared by the editor and agent interfaces: call graphs around a
//! symbol, the impact of changing it, and the note on a fallback symbol.
use vstd::prelude::*;
use crate::engine::QueryEngine;
use crate::graph::CodeGraph;
use crate::primitives::CallInfo;
use crate::query::{is_call_chain, str_or_empty, string_or_empty};
use crate::reach::swapped;
use crate::text::{concat, decimal, decimal_string, owned, str_eq};

verus! {

/// The note given when the nearest symbol stands in for a position with none.
pub open spec fn fallback_note(requested_line: Option<u32>, name: Seq<char>) -> Seq<char> {
    let line: u32 = match requested_line { Some(l) => l, None => 0 };
    "No symbol at line "@ + decimal(line as nat) + ". Using nearest symbol '"@ + name + "' instead."@
}

/// The note given when the nearest symbol stands in for a position with none.
pub fn fallback_message(requested_line: Option<u32>, name: &str) -> (r: String)
    ensures
        r@ == fallback_note(requested_line, name@),
{
    let line: u32 = match requested_line {
        Some(l) => l,
        None => 0,
    };
    let d = decimal_string(line as u64);
    let a = concat("No symbol at line ", d.as_str());
    let b = concat(a.as_str(), ". Using nearest symbol '");
    let c = concat(b.as_str(), name);
    concat(c.as_str(), "' instead.")
}

/// The name of node `id`; empty when it has none or is absent.
pub open spec fn symbol_name_of(g: CodeGraph, id: u64) -> Seq<char> {
    if g.has_node(id) {
        str_or_empty(g.node(id).props.name)
    } else {
        seq![]
    }
}

/// The name of node `id`; empty when it has none or is absent.
pub fn symbol_name(g: &CodeGraph, id: u64) -> (r: String)
    requires
        g.wf(),
    ensures
        r@ == symbol_name_of(*g, id),
{
    match g.get_node(id) {
        Some(n) => string_or_empty(&n.props.name),
        None => String::new(),
    }
}

/// A node of a call graph.
pub struct CallGraphNode {
    pub id: String,
    pub name: String,
    pub depth: u32,
    pub direction: Option<String>,
}

/// An edge of a call graph.
pub struct CallGraphEdge {
    pub from: String,
    pub to: String,
    pub edge_type: String,
}

/// The note on an empty call graph.
pub struct CallGraphDiagnostic {
    pub node_found: bool,
    pub total_edges_in_graph: usize,
    pub note: String,
}

/// A call graph around a symbol.
pub struct CallGraphResult {
    pub root: String,
    pub symbol_name: String,
    pub nodes: Vec<CallGraphNode>,
    pub edges: Vec<CallGraphEdge>,
    pub diagnostic: Option<CallGraphDiagnostic>,
    pub used_fallback: Option<bool>,
    pub fallback_message: Option<String>,
}

/// A reported caller or callee: node, name, depth, and whether it is a caller.
pub type CallItem = (u64, Seq<char>, u32, bool);

/// The call partners as items.
pub open spec fn call_items(calls: Seq<CallInfo>, caller: bool) -> Seq<CallItem> {
    calls.map_values(|c: CallInfo| (c.node_id, c.symbol.name@, c.depth, caller))
}

/// The items kept: each node once (its first item), never the root.
pub open spec fn kept_items(items: Seq<CallItem>, root: u64) -> Seq<CallItem>
    decreases items.len(),
{
    if items.len() == 0 {
        seq![]
    } else {
        let rest = kept_items(items.drop_last(), root);
        let x = items.last();
        if x.0 != root && !items.drop_last().map_values(|y: CallItem| y.0).contains(x.0) {
            rest.push(x)
        } else {
            rest
        }
    }
}

/// Mathematical view of a call-graph node.
pub struct CallGraphNodeV {
    pub id: Seq<char>,
    pub name: Seq<char>,
    pub depth: u32,
    pub direction: Option<Seq<char>>,
}

impl View for CallGraphNode {
    type V = CallGraphNodeV;

    open spec fn view(&self) -> CallGraphNodeV {
        CallGraphNodeV {
            id: self.id@,
            name: self.name@,
            depth: self.depth,
            direction: match self.direction {
                Some(d) => Some(d@),
                None => None,
            },
        }
    }
}

/// The node reported for an item; tagged with its side when both sides are
/// shown.
pub open spec fn item_node(x: CallItem, both: bool) -> CallGraphNodeV {
    CallGraphNodeV {
        id: decimal(x.0 as nat),
        name: x.1,
        depth: x.2,
        direction: if both {
            Some(if x.3 { "caller"@ } else { "callee"@ })
        } else {
            None
        },
    }
}

/// The edge reported for an item: from a caller to the root, or from the
/// root to a callee.
pub open spec fn item_edge(x: CallItem, root: u64) -> (Seq<char>, Seq<char>, Seq<char>) {
    if x.3 {
        (decimal(x.0 as nat), decimal(root as nat), "calls"@)
    } else {
        (decimal(root as nat), decimal(x.0 as nat), "calls"@)
    }
}

/// The items of a call graph in a direction (`callers`, `callees`, otherwise
/// both: callers first).
pub open spec fn graph_items(callers: Seq<CallInfo>, callees: Seq<CallInfo>, direction: Seq<char>) -> Seq<CallItem> {
    if direction == "callers"@ {
        call_items(callers, true)
    } else if direction == "callees"@ {
        call_items(callees, false)
    } else {
        call_items(callers, true) + call_items(callees, false)
    }
}

/// The note on a call graph with no relationships.
pub open spec fn no_calls_note() -> Seq<char> {
    "No call relationships found. Call graph analysis depends on language parser support for extracting call edges. Some parsers may have limited call extraction capabilities."@
}

/// `r` is the call graph around `root` built from these callers and callees.
pub open spec fn call_graph_ok(
    g: CodeGraph,
    root: u64,
    callers: Seq<CallInfo>,
    callees: Seq<CallInfo>,
    direction: Seq<char>,
    used_fallback: bool,
    requested_line: Option<u32>,
    r: CallGraphResult,
) -> bool {
    let kept = kept_items(graph_items(callers, callees, direction), root);
    let both = direction != "callers"@ && direction != "callees"@;
    &&& r.root@ == decimal(root as nat)
    &&& r.symbol_name@ == symbol_name_of(g, root)
    &&& r.nodes@.map_values(|n: CallGraphNode| n@) == kept.map_values(|x: CallItem| item_node(x, both))
    &&& r.edges@.map_values(|e: CallGraphEdge| (e.from@, e.to@, e.edge_type@)) == kept.map_values(
        |x: CallItem| item_edge(x, root),
    )
    &&& match r.diagnostic {
        Some(d) => kept.len() == 0 && d.node_found && d.total_edges_in_graph == g.edges@.len() && d.note@
            == no_calls_note(),
        None => kept.len() > 0,
    }
    &&& r.used_fallback == (if used_fallback { Some(true) } else { None })
    &&& match r.fallback_message {
        Some(m) => used_fallback && m@ == fallback_note(requested_line, symbol_name_of(g, root)),
        None => !used_fallback,
    }
}

/// The call items of a list of call partners.
fn items_of(calls: &Vec<CallInfo>, caller: bool, out: &mut Vec<(u64, String, u32, bool)>)
    ensures
        final(out)@.map_values(|x: (u64, String, u32, bool)| (x.0, x.1@, x.2, x.3)) == old(out)@.map_values(
            |x: (u64, String, u32, bool)| (x.0, x.1@, x.2, x.3),
        ) + call_items(calls@, caller),
{
    let ghost f = |x: (u64, String, u32, bool)| (x.0, x.1@, x.2, x.3);
    let ghost out0 = out@.map_values(f);
    let mut i: usize = 0;
    while i < calls.len()
        invariant
            i <= calls@.len(),
            f == (|x: (u64, String, u32, bool)| (x.0, x.1@, x.2, x.3)),
            out@.map_values(f) == out0 + call_items(calls@.take(i as int), caller),
        decreases calls@.len() - i,
    {
        let c = &calls[i];
        let x = (c.node_id, c.symbol.name.clone(), c.depth, caller);
        let ghost before = out@;
        let ghost fx = f(x);
        out.push(x);
        proof {
            assert(out@.map_values(f) =~= before.map_values(f).push(fx));
            assert(call_items(calls@.take(i + 1), caller) =~= call_items(calls@.take(i as int), caller).push(fx));
        }
        i = i + 1;
    }
    proof {
        assert(calls@.take(i as int) =~= calls@);
    }
}

/// The call graph around `start`: its callers and/or callees up to `depth`
/// steps (`direction` is `callers`, `callees`, or anything else for both,
/// callers first, each tagged with its side), each node once and never the
/// root, with an edge for each; a note when there are none, and the fallback
/// note when the symbol stands in for a position with none.
pub fn get_call_graph(
    engine: &QueryEngine,
    start: u64,
    depth: u32,
    direction: &str,
    used_fallback: bool,
    requested_line: Option<u32>,
) -> (r: CallGraphResult)
    requires
        engine.wf(),
    ensures
        exists|callers: Seq<CallInfo>, callees: Seq<CallInfo>|
            (direction@ != "callees"@ ==> is_call_chain(engine.graph, swapped(engine.calls@), start, depth, callers))
                && (direction@ != "callers"@ ==> is_call_chain(engine.graph, engine.calls@, start, depth, callees))
                && #[trigger] call_graph_ok(engine.graph, start, callers, callees, direction@, used_fallback, requested_line, r),
{
    let g = &engine.graph;
    let name = symbol_name(g, start);
    let is_callers = str_eq(direction, "callers");
    let is_callees = str_eq(direction, "callees");
    let both = !is_callers && !is_callees;
    let callers = if is_callees {
        Vec::new()
    } else {
        engine.get_callers(start, depth)
    };
    let callees = if is_callers {
        Vec::new()
    } else {
        engine.get_callees(start, depth)
    };
    let ghost fi = |x: (u64, String, u32, bool)| (x.0, x.1@, x.2, x.3);
    let mut items: Vec<(u64, String, u32, bool)> = Vec::new();
    if !is_callees {
        items_of(&callers, true, &mut items);
    }
    if !is_callers {
        items_of(&callees, false, &mut items);
    }
    proof {
        assert(items@.map_values(fi) =~= graph_items(callers@, callees@, direction@));
    }
    let ghost all = items@.map_values(fi);
    let ghost fnode = |n: CallGraphNode| n@;
    let ghost fedge = |e: CallGraphEdge| (e.from@, e.to@, e.edge_type@);
    let ghost fn_item = |x: CallItem| item_node(x, both);
    let ghost fe_item = |x: CallItem| item_edge(x, start);
    let mut seen: Vec<u64> = Vec::new();
    seen.push(start);
    let mut nodes: Vec<CallGraphNode> = Vec::new();
    let mut edges: Vec<CallGraphEdge> = Vec::new();
    let mut i: usize = 0;
    proof {
        assert forall|v: u64| seen@.contains(v) <==> (v == start || all.take(0).map_values(|y: CallItem| y.0).contains(v)) by {
            assert(all.take(0).map_values(|y: CallItem| y.0).len() == 0);
            if v == start {
                assert(seen@[0] == start);
            }
        }
    }
    while i < items.len()
        invariant
            i <= items@.len(),
            all == items@.map_values(fi),
            fi == (|x: (u64, String, u32, bool)| (x.0, x.1@, x.2, x.3)),
            fnode == (|n: CallGraphNode| n@),
            fedge == (|e: CallGraphEdge| (e.from@, e.to@, e.edge_type@)),
            fn_item == (|x: CallItem| item_node(x, both)),
            fe_item == (|x: CallItem| item_edge(x, start)),
            forall|v: u64| seen@.contains(v) <==> (v == start || all.take(i as int).map_values(|y: CallItem| y.0).contains(v)),
            nodes@.map_values(fnode) == kept_items(all.take(i as int), start).map_values(fn_item),
            edges@.map_values(fedge) == kept_items(all.take(i as int), start).map_values(fe_item),
        decreases items@.len() - i,
    {
        let id = items[i].0;
        let ghost x = all[i as int];
        proof {
            assert(all.take(i + 1).drop_last() =~= all.take(i as int));
            assert(all.take(i + 1).last() == x);
            assert(x.0 == id);
            assert(all.take(i + 1).map_values(|y: CallItem| y.0) =~= all.take(i as int).map_values(|y: CallItem| y.0).push(id));
        }
        let ghost seen0 = seen@;
        if !crate::graph::vec_contains_u64(&seen, id) {
            seen.push(id);
            let dir = if both {
                if items[i].3 {
                    Some(owned("caller"))
                } else {
                    Some(owned("callee"))
                }
            } else {
                None
            };
            let node = CallGraphNode { id: decimal_string(id), name: items[i].1.clone(), depth: items[i].2, direction: dir };
            let edge = if items[i].3 {
                CallGraphEdge { from: decimal_string(id), to: decimal_string(start), edge_type: owned("calls") }
            } else {
                CallGraphEdge { from: decimal_string(start), to: decimal_string(id), edge_type: owned("calls") }
            };
            let ghost nb = nodes@;
            let ghost eb = edges@;
            let ghost nv = node@;
            let ghost ev = fedge(edge);
            nodes.push(node);
            edges.push(edge);
            proof {
                assert(nv == fn_item(x));
                assert(ev == fe_item(x));
                assert(nodes@.map_values(fnode) =~= nb.map_values(fnode).push(nv));
                assert(edges@.map_values(fedge) =~= eb.map_values(fedge).push(ev));
                let k0 = kept_items(all.take(i as int), start);
                assert(kept_items(all.take(i + 1), start) == k0.push(x));
                assert(k0.push(x).map_values(fn_item) =~= k0.map_values(fn_item).push(fn_item(x)));
                assert(k0.push(x).map_values(fe_item) =~= k0.map_values(fe_item).push(fe_item(x)));
            }
        }
        proof {
            assert forall|v: u64| seen@.contains(v) <==> (v == start || all.take(i + 1).map_values(|y: CallItem| y.0).contains(v)) by {
                crate::reach::lemma_push_contains(all.take(i as int).map_values(|y: CallItem| y.0), id, v);
                crate::reach::lemma_push_contains(seen0, id, v);
            }
        }
        i = i + 1;
    }
    proof {
        assert(all.take(i as int) =~= all);
    }
    let diagnostic = if nodes.len() == 0 {
        Some(
            CallGraphDiagnostic {
                node_found: true,
                total_edges_in_graph: g.edge_count(),
                note: owned("No call relationships found. Call graph analysis depends on language parser support for extracting call edges. Some parsers may have limited call extraction capabilities."),
            },
        )
    } else {
        None
    };
    let (uf, fm) = if used_fallback {
        (Some(true), Some(fallback_message(requested_line, name.as_str())))
    } else {
        (None, None)
    };
    let r = CallGraphResult {
        root: decimal_string(start),
        symbol_name: name,
        nodes,
        edges,
        diagnostic,
        used_fallback: uf,
        fallback_message: fm,
    };
    proof {
        let ce: Seq<CallInfo> = callers@;
        let cs: Seq<CallInfo> = callees@;
        assert(call_graph_ok(engine.graph, start, ce, cs, direction@, used_fallback, requested_line, r));
    }
    r
}

/// The risk of a change of kind `change` to a symbol with `n` dependents.
pub open spec fn risk_of(change: Seq<char>, n: nat) -> Seq<char> {
    if change == "delete"@ && n > 10 {
        "critical"@
    } else if change == "delete"@ && n > 0 {
        "high"@
    } else if change == "rename"@ && n > 10 {
        "high"@
    } else if change == "rename"@ && n > 0 {
        "medium"@
    } else if change == "modify"@ && n > 20 {
        "medium"@
    } else {
        "low"@
    }
}

/// The severity order of risk levels.
pub open spec fn risk_rank(r: Seq<char>) -> int {
    if r == "critical"@ {
        3
    } else if r == "high"@ {
        2
    } else if r == "medium"@ {
        1
    } else {
        0
    }
}

/// The risk of a change of kind `change` to a symbol with `n` dependents:
/// deleting is critical above 10 and high above 0; renaming high above 10
/// and medium above 0; modifying medium above 20; low otherwise.
pub fn risk_level(change: &str, n: usize) -> (r: String)
    ensures
        r@ == risk_of(change@, n as nat),
{
    let is_delete = str_eq(change, "delete");
    let is_rename = str_eq(change, "rename");
    let is_modify = str_eq(change, "modify");
    if is_delete && n > 10 {
        owned("critical")
    } else if is_delete && n > 0 {
        owned("high")
    } else if is_rename && n > 10 {
        owned("high")
    } else if is_rename && n > 0 {
        owned("medium")
    } else if is_modify && n > 20 {
        owned("medium")
    } else {
        owned("low")
    }
}

/// More dependents never lower the risk of a change, and for the same
/// dependents deleting is at least as risky as renaming, which is at least as
/// risky as modifying.
pub proof fn lemma_risk_monotonic(change: Seq<char>, a: nat, b: nat)
    requires
        a <= b,
    ensures
        risk_rank(risk_of(change, a)) <= risk_rank(risk_of(change, b)),
        risk_rank(risk_of("delete"@, a)) >= risk_rank(risk_of("rename"@, a)),
        risk_rank(risk_of("rename"@, a)) >= risk_rank(risk_of("modify"@, a)),
{
    reveal_strlit("delete");
    reveal_strlit("rename");
    reveal_strlit("modify");
    reveal_strlit("critical");
    reveal_strlit("high");
    reveal_strlit("medium");
    reveal_strlit("low");
    assert("delete"@.len() == 6);
    assert("rename"@.len() == 6);
    assert("modify"@.len() == 6);
    assert("delete"@[0] != "rename"@[0]);
    assert("delete"@[0] != "modify"@[0]);
    assert("rename"@[0] != "modify"@[0]);
    assert("critical"@.len() == 8);
    assert("high"@.len() == 4);
    assert("medium"@.len() == 6);
    assert("low"@.len() == 3);
}

/// The risk of a change by its kind and the number of dependents: deleting
/// a symbol with more than ten dependents is critical and with one to ten
/// high; renaming with more than ten is high and with one to ten medium;
/// modifying with more than twenty is medium; every other change is low.
pub proof fn lemma_risk_levels(change: Seq<char>, n: nat)
    ensures
        change == "delete"@ && n > 10 ==> risk_of(change, n) == "critical"@,
        change == "delete"@ && 0 < n <= 10 ==> risk_of(change, n) == "high"@,
        change == "rename"@ && n > 10 ==> risk_of(change, n) == "high"@,
        change == "rename"@ && 0 < n <= 10 ==> risk_of(change, n) == "medium"@,
        change == "modify"@ && n > 20 ==> risk_of(change, n) == "medium"@,
        change == "modify"@ && n <= 20 ==> risk_of(change, n) == "low"@,
        n == 0 ==> risk_of(change, n) == "low"@,
        change != "delete"@ && change != "rename"@ && change != "modify"@ ==> risk_of(change, n) == "low"@,
{
    reveal_strlit("delete");
    reveal_strlit("rename");
    reveal_strlit("modify");
    assert("delete"@[0] != "rename"@[0]);
    assert("delete"@[0] != "modify"@[0]);
    assert("rename"@[0] != "modify"@[0]);
}

/// A symbol affected by a change.
pub struct ImpactedSymbol {
    pub node_id: String,
    pub name: String,
    pub depth: u32,
    pub impact_type: String,
}

/// The impact of changing a symbol.
pub struct ImpactResult {
    pub symbol_id: String,
    pub symbol_name: String,
    pub change_type: String,
    pub impacted: Vec<ImpactedSymbol>,
    pub total_impacted: usize,
    pub direct_impacted: usize,
    pub risk_level: String,
    pub used_fallback: Option<bool>,
    pub fallback_message: Option<String>,
}

/// The affected symbol reported for a caller: direct at depth 1, indirect
/// beyond.
pub open spec fn impacted_of(c: CallInfo) -> (Seq<char>, Seq<char>, u32, Seq<char>) {
    (decimal(c.node_id as nat), c.symbol.name@, c.depth, if c.depth == 1 { "direct"@ } else { "indirect"@ })
}

/// `r` is the impact of a change to `root` whose callers (up to three steps)
/// are `callers`.
pub open spec fn impact_ok(
    g: CodeGraph,
    root: u64,
    change: Seq<char>,
    callers: Seq<CallInfo>,
    used_fallback: bool,
    requested_line: Option<u32>,
    r: ImpactResult,
) -> bool {
    &&& r.symbol_id@ == decimal(root as nat)
    &&& r.symbol_name@ == symbol_name_of(g, root)
    &&& r.change_type@ == change
    &&& r.impacted@.map_values(|s: ImpactedSymbol| (s.node_id@, s.name@, s.depth, s.impact_type@)) == callers.map_values(
        |c: CallInfo| impacted_of(c),
    )
    &&& r.total_impacted == callers.len()
    &&& r.direct_impacted == callers.filter(|c: CallInfo| c.depth == 1).len()
    &&& r.risk_level@ == risk_of(change, callers.len())
    &&& r.used_fallback == (if used_fallback { Some(true) } else { None })
    &&& match r.fallback_message {
        Some(m) => used_fallback && m@ == fallback_note(requested_line, symbol_name_of(g, root)),
        None => !used_fallback,
    }
}

/// The impact of a change of kind `change_type` to `start`: every caller up
/// to three steps back is affected (directly at depth 1), and the risk
/// follows the kind of change and their number.
pub fn analyze_impact(
    engine: &QueryEngine,
    start: u64,
    change_type: &str,
    used_fallback: bool,
    requested_line: Option<u32>,
) -> (r: ImpactResult)
    requires
        engine.wf(),
    ensures
        exists|callers: Seq<CallInfo>|
            is_call_chain(engine.graph, swapped(engine.calls@), start, 3, callers) && #[trigger] impact_ok(
                engine.graph,
                start,
                change_type@,
                callers,
                used_fallback,
                requested_line,
                r,
            ),
{
    let name = symbol_name(&engine.graph, start);
    let callers = engine.get_callers(start, 3);
    let ghost fs = |s: ImpactedSymbol| (s.node_id@, s.name@, s.depth, s.impact_type@);
    let ghost fc = |c: CallInfo| impacted_of(c);
    let ghost pd = |c: CallInfo| c.depth == 1;
    let mut impacted: Vec<ImpactedSymbol> = Vec::new();
    let mut direct: usize = 0;
    let mut i: usize = 0;
    while i < callers.len()
        invariant
            i <= callers@.len(),
            fs == (|s: ImpactedSymbol| (s.node_id@, s.name@, s.depth, s.impact_type@)),
            fc == (|c: CallInfo| impacted_of(c)),
            pd == (|c: CallInfo| c.depth == 1),
            impacted@.map_values(fs) == callers@.take(i as int).map_values(fc),
            direct == callers@.take(i as int).filter(pd).len(),
            direct <= i,
        decreases callers@.len() - i,
    {
        let c = &callers[i];
        proof {
            assert(callers@.take(i + 1).drop_last() =~= callers@.take(i as int));
            assert(callers@.take(i + 1).last() == *c);
            reveal(Seq::filter);
        }
        let kind = if c.depth == 1 {
            owned("direct")
        } else {
            owned("indirect")
        };
        let s = ImpactedSymbol { node_id: decimal_string(c.node_id), name: c.symbol.name.clone(), depth: c.depth, impact_type: kind };
        let ghost before = impacted@;
        let ghost sv = fs(s);
        impacted.push(s);
        proof {
            assert(sv == fc(*c));
            assert(impacted@.map_values(fs) =~= before.map_values(fs).push(sv));
            assert(callers@.take(i + 1).map_values(fc) =~= callers@.take(i as int).map_values(fc).push(fc(*c)));
        }
        if c.depth == 1 {
            direct = direct + 1;
        }
        i = i + 1;
    }
    proof {
        assert(callers@.take(i as int) =~= callers@);
    }
    let total = callers.len();
    let risk = risk_level(change_type, total);
    let (uf, fm) = if used_fallback {
        (Some(true), Some(fallback_message(requested_line, name.as_str())))
    } else {
        (None, None)
    };
    let r = ImpactResult {
        symbol_id: decimal_string(start),
        symbol_name: name,
        change_type: owned(change_type),
        impacted,
        total_impacted: total,
        direct_impacted: direct,
        risk_level: risk,
        used_fallback: uf,
        fallback_message: fm,
    };
    proof {
        assert(impact_ok(engine.graph, start, change_type@, callers@, used_fallback, requested_line, r));
    }
    r
}

/// The items kept are never the root and name each node once, and each is
/// an item given.
proof fn lemma_kept_items(items: Seq<CallItem>, root: u64)
    ensures
        ({
            let kept = kept_items(items, root);
            &&& forall|k: int| 0 <= k < kept.len() ==> (#[trigger] kept[k]).0 != root
            &&& forall|a: int, b: int| 0 <= a < b < kept.len() ==> (#[trigger] kept[a]).0 != (#[trigger] kept[b]).0
            &&& forall|k: int| 0 <= k < kept.len() ==> items.map_values(|y: CallItem| y.0).contains(#[trigger] kept[k].0)
        }),
    decreases items.len(),
{
    if items.len() > 0 {
        let d = items.drop_last();
        lemma_kept_items(d, root);
        let rest = kept_items(d, root);
        let x = items.last();
        let ids = items.map_values(|y: CallItem| y.0);
        let dids = d.map_values(|y: CallItem| y.0);
        assert forall|k: int| 0 <= k < rest.len() implies ids.contains(#[trigger] rest[k].0) by {
            let j = choose|j: int| 0 <= j < dids.len() && dids[j] == rest[k].0;
            assert(ids[j] == dids[j]);
        }
        if x.0 != root && !dids.contains(x.0) {
            let kept = rest.push(x);
            assert(ids[items.len() - 1] == x.0);
            assert forall|a: int, b: int| 0 <= a < b < kept.len() implies (#[trigger] kept[a]).0 != (#[trigger] kept[b]).0 by {
                if b == rest.len() {
                    assert(dids.contains(rest[a].0));
                } else {
                    assert(kept[a] == rest[a] && kept[b] == rest[b]);
                }
            }
            assert forall|k: int| 0 <= k < kept.len() implies ids.contains(#[trigger] kept[k].0) by {
                if k < rest.len() {
                    assert(kept[k] == rest[k]);
                }
            }
            assert forall|k: int| 0 <= k < kept.len() implies (#[trigger] kept[k]).0 != root by {
                if k < rest.len() {
                    assert(kept[k] == rest[k]);
                }
            }
        }
    }
}

/// A call graph names its root; its nodes are distinct and never the root;
/// it has one edge per node, joining that node and the root (from a caller
/// to the root, from the root to a callee); it carries a diagnostic exactly
/// when it has no nodes, the fallback flag exactly when the symbol stands in
/// for another position, and tags its nodes with their side only when both
/// sides are shown.
pub proof fn lemma_call_graph_shape(
    g: CodeGraph,
    root: u64,
    callers: Seq<CallInfo>,
    callees: Seq<CallInfo>,
    direction: Seq<char>,
    used_fallback: bool,
    requested_line: Option<u32>,
    r: CallGraphResult,
)
    requires
        call_graph_ok(g, root, callers, callees, direction, used_fallback, requested_line, r),
    ensures
        r.root@ == decimal(root as nat),
        forall|a: int, b: int| 0 <= a < b < r.nodes@.len() ==> (#[trigger] r.nodes@[a]).id@ != (#[trigger] r.nodes@[b]).id@,
        forall|k: int| 0 <= k < r.nodes@.len() ==> (#[trigger] r.nodes@[k]).id@ != r.root@,
        r.edges@.len() == r.nodes@.len(),
        forall|k: int|
            0 <= k < r.edges@.len() ==> ((#[trigger] r.edges@[k]).from@ == r.nodes@[k].id@ && r.edges@[k].to@ == r.root@)
                || (r.edges@[k].from@ == r.root@ && r.edges@[k].to@ == r.nodes@[k].id@),
        direction == "callers"@ ==> forall|k: int|
            0 <= k < r.edges@.len() ==> (#[trigger] r.edges@[k]).from@ == r.nodes@[k].id@ && r.edges@[k].to@ == r.root@,
        direction == "callees"@ ==> forall|k: int|
            0 <= k < r.edges@.len() ==> (#[trigger] r.edges@[k]).from@ == r.root@ && r.edges@[k].to@ == r.nodes@[k].id@,
        r.diagnostic is Some <==> r.nodes@.len() == 0,
        r.used_fallback == Some(true) <==> used_fallback,
        r.used_fallback is None <==> !used_fallback,
        forall|k: int|
            0 <= k < r.nodes@.len() ==> ((#[trigger] r.nodes@[k]).direction is Some <==> (direction != "callers"@
                && direction != "callees"@)),
{
    let items = graph_items(callers, callees, direction);
    let kept = kept_items(items, root);
    let both = direction != "callers"@ && direction != "callees"@;
    lemma_kept_items(items, root);
    let nv = r.nodes@.map_values(|n: CallGraphNode| n@);
    let ev = r.edges@.map_values(|e: CallGraphEdge| (e.from@, e.to@, e.edge_type@));
    assert(nv.len() == kept.len());
    assert(ev.len() == kept.len());
    assert forall|k: int| 0 <= k < r.nodes@.len() implies (#[trigger] r.nodes@[k]).id@ == decimal(kept[k].0 as nat)
        && (r.nodes@[k].direction is Some <==> both) by {
        assert(nv[k] == r.nodes@[k]@);
        assert(nv[k] == item_node(kept[k], both));
    }
    assert forall|a: int, b: int| 0 <= a < b < r.nodes@.len() implies (#[trigger] r.nodes@[a]).id@ != (
    #[trigger] r.nodes@[b]).id@ by {
        crate::text::lemma_decimal_injective(kept[a].0, kept[b].0);
    }
    assert forall|k: int| 0 <= k < r.nodes@.len() implies (#[trigger] r.nodes@[k]).id@ != r.root@ by {
        crate::text::lemma_decimal_injective(kept[k].0, root);
    }
    assert forall|k: int| 0 <= k < r.edges@.len() implies ((#[trigger] r.edges@[k]).from@, r.edges@[k].to@) == (if kept[k].3 {
        (r.nodes@[k].id@, r.root@)
    } else {
        (r.root@, r.nodes@[k].id@)
    }) by {
        assert(ev[k] == (r.edges@[k].from@, r.edges@[k].to@, r.edges@[k].edge_type@));
        assert(ev[k] == item_edge(kept[k], root));
    }
    if direction == "callers"@ {
        assert forall|k: int| 0 <= k < kept.len() implies (#[trigger] kept[k]).3 by {
            lemma_kept_sides(items, root, true);
        }
    }
    if direction == "callees"@ {
        reveal_strlit("callers");
        reveal_strlit("callees");
        assert("callers"@[5] != "callees"@[5]);
        assert(items == call_items(callees, false));
        lemma_kept_sides(items, root, false);
        assert forall|k: int| 0 <= k < kept.len() implies !(#[trigger] kept[k]).3 by {
        }
    }
}

/// In a call graph showing both sides, a node tagged `caller` is joined by
/// its edge to the root (from it), and a node tagged `callee` by its edge
/// from the root (to it); every edge is a call.
pub proof fn lemma_call_graph_tags(
    g: CodeGraph,
    root: u64,
    callers: Seq<CallInfo>,
    callees: Seq<CallInfo>,
    direction: Seq<char>,
    used_fallback: bool,
    requested_line: Option<u32>,
    r: CallGraphResult,
)
    requires
        call_graph_ok(g, root, callers, callees, direction, used_fallback, requested_line, r),
    ensures
        r.edges@.len() == r.nodes@.len(),
        forall|k: int|
            0 <= k < r.nodes@.len() && (#[trigger] r.nodes@[k])@.direction == Some("caller"@) ==> r.edges@[k].from@
                == r.nodes@[k].id@ && r.edges@[k].to@ == r.root@,
        forall|k: int|
            0 <= k < r.nodes@.len() && (#[trigger] r.nodes@[k])@.direction == Some("callee"@) ==> r.edges@[k].from@
                == r.root@ && r.edges@[k].to@ == r.nodes@[k].id@,
        forall|k: int| 0 <= k < r.edges@.len() ==> (#[trigger] r.edges@[k]).edge_type@ == "calls"@,
{
    reveal_strlit("caller");
    reveal_strlit("callee");
    assert("caller"@[5] != "callee"@[5]);
    let kept = kept_items(graph_items(callers, callees, direction), root);
    let both = direction != "callers"@ && direction != "callees"@;
    assert(r.nodes@.map_values(|n: CallGraphNode| n@).len() == kept.len());
    assert(r.edges@.map_values(|e: CallGraphEdge| (e.from@, e.to@, e.edge_type@)).len() == kept.len());
    assert forall|k: int| 0 <= k < r.edges@.len() implies (#[trigger] r.edges@[k]).edge_type@ == "calls"@ by {
        assert(r.edges@.map_values(|e: CallGraphEdge| (e.from@, e.to@, e.edge_type@))[k] == item_edge(kept[k], root));
    }
    assert forall|k: int| 0 <= k < r.nodes@.len() implies ((#[trigger] r.nodes@[k])@.direction == Some("caller"@)
        ==> r.edges@[k].from@ == r.nodes@[k].id@ && r.edges@[k].to@ == r.root@) && (r.nodes@[k]@.direction == Some(
        "callee"@,
    ) ==> r.edges@[k].from@ == r.root@ && r.edges@[k].to@ == r.nodes@[k].id@) by {
        assert(r.nodes@.map_values(|n: CallGraphNode| n@)[k] == item_node(kept[k], both));
        assert(r.edges@.map_values(|e: CallGraphEdge| (e.from@, e.to@, e.edge_type@))[k] == item_edge(kept[k], root));
    }
}

/// When every item is on one side, so is every item kept.
proof fn lemma_kept_sides(items: Seq<CallItem>, root: u64, side: bool)
    requires
        forall|k: int| 0 <= k < items.len() ==> (#[trigger] items[k]).3 == side,
    ensures
        forall|k: int| 0 <= k < kept_items(items, root).len() ==> (#[trigger] kept_items(items, root)[k]).3 == side,
    decreases items.len(),
{
    if items.len() > 0 {
        let d = items.drop_last();
        assert forall|k: int| 0 <= k < d.len() implies (#[trigger] d[k]).3 == side by {
            assert(d[k] == items[k]);
        }
        lemma_kept_sides(d, root, side);
        let rest = kept_items(d, root);
        let kept = kept_items(items, root);
        assert forall|k: int| 0 <= k < kept.len() implies (#[trigger] kept[k]).3 == side by {
            if k < rest.len() {
                assert(kept[k] == rest[k]);
            } else {
                assert(kept[k] == items.last());
            }
        }
    }
}

} // verus!
