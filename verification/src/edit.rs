//! The decisions behind an edit context: what of the symbol is reported,
//! which callers, tests and memories fit the token budget, and the recent
//! commits read from a git log.
use vstd::prelude::*;
use vstd::utf8::{encode_utf8, is_char_boundary};
use crate::reach::swapped;
use crate::analysis::{is_test_node, is_test_props, lower_type, lower_type_name, nodes_with_path, query_by_path};
use crate::engine::QueryEngine;
use crate::entry::entry_hits;
use crate::graph::{CodeGraph, NodeType, vec_contains_u64};
use crate::navigation::{end_line_of, get_line_end, get_line_start, start_line_of};
use crate::primitives::{CallInfo, EntryType};
use crate::query::{info_of_id, is_call_chain, str_or_empty, string_or_empty};
use crate::reach::within;
use crate::text::{extension_of_name, last_part, plain_path, split_char, split_on, text_lines, lines_of_text, owned, views};

verus! {

/// A recent commit of the symbol's file.
#[derive(Clone, Debug)]
pub struct RecentCommit {
    pub hash: String,
    pub subject: String,
    pub author: String,
    pub date: String,
}

/// The fields of a log line, separated by NUL characters.
pub open spec fn log_fields(line: Seq<char>) -> Seq<Seq<char>> {
    split_on(line, '\0')
}

/// The first eight bytes of `b` (all of it when shorter).
pub open spec fn first_eight(b: Seq<u8>) -> Seq<u8> {
    if b.len() <= 8 {
        b
    } else {
        b.take(8)
    }
}

/// Cutting the hash of `line` to eight bytes falls between characters (a
/// line with fewer than four fields has no hash cut).
pub open spec fn hash_cut_ok(line: Seq<char>) -> bool {
    log_fields(line).len() >= 4 ==> {
        let b = encode_utf8(log_fields(line)[0]);
        b.len() <= 8 || is_char_boundary(b, 8)
    }
}

/// The commit `c` is the one `line` records: the hash cut to eight bytes,
/// then subject, author and date.
pub open spec fn commit_of_line(c: RecentCommit, line: Seq<char>) -> bool {
    let f = log_fields(line);
    &&& encode_utf8(c.hash@) == first_eight(encode_utf8(f[0]))
    &&& c.subject@ == f[1]
    &&& c.author@ == f[2]
    &&& c.date@ == f[3]
}

/// Of the first `n` non-empty lines of `lines`, those with at least four
/// fields, in order.
pub open spec fn commit_lines(lines: Seq<Seq<char>>, n: nat) -> Seq<Seq<char>>
    decreases lines.len(),
{
    if lines.len() == 0 || n == 0 {
        seq![]
    } else if lines[0].len() == 0 {
        commit_lines(lines.drop_first(), n)
    } else {
        let rest = commit_lines(lines.drop_first(), (n - 1) as nat);
        if log_fields(lines[0]).len() >= 4 {
            seq![lines[0]] + rest
        } else {
            rest
        }
    }
}

/// Each of the first `n` non-empty lines of `lines` can have its hash cut.
pub open spec fn hash_cuts_ok(lines: Seq<Seq<char>>, n: nat) -> bool
    decreases lines.len(),
{
    if lines.len() == 0 || n == 0 {
        true
    } else if lines[0].len() == 0 {
        hash_cuts_ok(lines.drop_first(), n)
    } else {
        hash_cut_ok(lines[0]) && hash_cuts_ok(lines.drop_first(), (n - 1) as nat)
    }
}

/// The commit a log line with at least four fields records.
fn commit_from_line(line: &str) -> (r: Option<RecentCommit>)
    requires
        hash_cut_ok(line@),
    ensures
        log_fields(line@).len() >= 4 <==> r is Some,
        r matches Some(c) ==> commit_of_line(c, line@),
{
    let parts = split_char(line, '\0');
    if parts.len() < 4 {
        return None;
    }
    let f: &str = parts[0].as_str();
    let n: usize = f.as_bytes().len();
    let cut: usize = if n < 8 {
        n
    } else {
        8
    };
    proof {
        assert(f@ == log_fields(line@)[0]);
        vstd::utf8::encode_utf8_valid_utf8(f@);
        vstd::utf8::is_char_boundary_start_end_of_seq(encode_utf8(f@));
        assert(n == encode_utf8(f@).len());
        assert(is_char_boundary(encode_utf8(f@), cut as int));
    }
    let (h, _rest) = f.split_at(cut);
    let hash = owned(h);
    proof {
        assert(encode_utf8(hash@) == encode_utf8(f@).subrange(0, cut as int));
        assert(encode_utf8(f@).subrange(0, cut as int) =~= first_eight(encode_utf8(f@)));
    }
    Some(
        RecentCommit {
            hash,
            subject: parts[1].clone(),
            author: parts[2].clone(),
            date: parts[3].clone(),
        },
    )
}

/// The recent commits a git log (one commit per line, fields separated by
/// NUL: hash, subject, author, date) records: of its first five non-empty
/// lines, those with at least four fields, each with its hash cut to eight
/// bytes.
pub fn parse_recent_commits(log: &str) -> (r: Vec<RecentCommit>)
    requires
        hash_cuts_ok(text_lines(log@), 5),
    ensures
        r@.len() == commit_lines(text_lines(log@), 5).len(),
        forall|k: int| 0 <= k < r@.len() ==> commit_of_line(#[trigger] r@[k], commit_lines(text_lines(log@), 5)[k]),
{
    let lines = lines_of_text(log);
    let ghost all = text_lines(log@);
    let ghost want = commit_lines(all, 5);
    let mut r: Vec<RecentCommit> = Vec::new();
    let ghost mut picked: Seq<Seq<char>> = seq![];
    let mut taken: usize = 0;
    let mut i: usize = 0;
    proof {
        assert(all.skip(0) =~= all);
    }
    while i < lines.len() && taken < 5
        invariant
            i <= lines@.len(),
            taken <= 5,
            views(lines@) == all,
            picked + commit_lines(all.skip(i as int), (5 - taken) as nat) == want,
            hash_cuts_ok(all.skip(i as int), (5 - taken) as nat),
            r@.len() == picked.len(),
            forall|k: int| 0 <= k < r@.len() ==> commit_of_line(#[trigger] r@[k], picked[k]),
        decreases lines@.len() - i,
    {
        let ghost rest = all.skip(i as int);
        proof {
            assert(rest[0] == lines@[i as int]@);
            assert(rest.drop_first() =~= all.skip(i + 1));
        }
        let line = lines[i].as_str();
        if line.is_empty() {
            i = i + 1;
        } else {
            let ghost pb = picked;
            let ghost rb = r@;
            match commit_from_line(line) {
                Some(c) => {
                    r.push(c);
                    proof {
                        picked = pb.push(line@);
                        assert(seq![line@] + commit_lines(all.skip(i + 1), (5 - taken - 1) as nat) == commit_lines(
                            rest,
                            (5 - taken) as nat,
                        ));
                        assert(picked + commit_lines(all.skip(i + 1), (5 - taken - 1) as nat) =~= pb + commit_lines(
                            rest,
                            (5 - taken) as nat,
                        ));
                        assert forall|k: int| 0 <= k < r@.len() implies commit_of_line(#[trigger] r@[k], picked[k]) by {
                            if k < rb.len() {
                                assert(r@[k] == rb[k]);
                            }
                        }
                    }
                },
                None => {},
            }
            taken = taken + 1;
            i = i + 1;
        }
    }
    proof {
        if i >= lines.len() {
            assert(all.skip(i as int) =~= Seq::<Seq<char>>::empty());
        }
        assert(commit_lines(all.skip(i as int), (5 - taken) as nat) == Seq::<Seq<char>>::empty());
        assert(picked =~= want);
    }
    r
}

/// The sum of `costs`.
pub open spec fn cost_sum(costs: Seq<usize>) -> nat
    decreases costs.len(),
{
    if costs.len() == 0 {
        0
    } else {
        cost_sum(costs.drop_last()) + costs.last() as nat
    }
}

/// A prefix never costs more than a longer one.
proof fn lemma_cost_sum_prefix(costs: Seq<usize>, i: int, j: int)
    requires
        0 <= i <= j <= costs.len(),
    ensures
        cost_sum(costs.take(i)) <= cost_sum(costs.take(j)),
    decreases j - i,
{
    if i < j {
        lemma_cost_sum_prefix(costs, i, j - 1);
        assert(costs.take(j).drop_last() =~= costs.take(j - 1));
    }
}

/// Taking items in order from index `i`, with `used` tokens spent: stop at
/// the end, at `max` items, or once `used` reaches `budget`; else take the
/// item and add its cost. The index reached and the tokens used.
pub open spec fn budget_walk(costs: Seq<usize>, max: nat, budget: nat, i: int, used: nat) -> (int, nat)
    decreases costs.len() - i,
{
    if i >= costs.len() || i >= max || used >= budget {
        (i, used)
    } else {
        budget_walk(costs, max, budget, i + 1, used + costs[i] as nat)
    }
}

/// How many of the items (whose token costs are `costs`) are taken, in
/// order, while fewer than `max` are taken and the tokens used stay below
/// `budget`, and the tokens they use.
pub fn take_within_budget(costs: &Vec<usize>, max: usize, budget: usize) -> (r: (usize, usize))
    requires
        cost_sum(costs@) <= usize::MAX || forall|k: int| 0 <= k < costs@.len() ==> budget + #[trigger] costs@[k] <= usize::MAX,
    ensures
        (r.0 as int, r.1 as nat) == budget_walk(costs@, max as nat, budget as nat, 0, 0),
{
    let mut i: usize = 0;
    let mut used: usize = 0;
    while i < costs.len() && i < max && used < budget
        invariant
            i <= costs@.len(),
            used == cost_sum(costs@.take(i as int)),
            cost_sum(costs@) <= usize::MAX || forall|k: int| 0 <= k < costs@.len() ==> budget + #[trigger] costs@[k] <= usize::MAX,
            budget_walk(costs@, max as nat, budget as nat, i as int, used as nat) == budget_walk(
                costs@,
                max as nat,
                budget as nat,
                0,
                0,
            ),
        decreases costs@.len() - i,
    {
        proof {
            assert(costs@.take(i + 1).drop_last() =~= costs@.take(i as int));
            lemma_cost_sum_prefix(costs@, i + 1, costs@.len() as int);
            assert(costs@.take(costs@.len() as int) =~= costs@);
            if cost_sum(costs@) > usize::MAX {
                assert(budget + costs@[i as int] <= usize::MAX);
            }
        }
        used = used + costs[i];
        i = i + 1;
    }
    (i, used)
}

/// Walking memory results from index `i` with the titles `seen` already
/// reported and `used` tokens spent: stop at the end or once `used`
/// reaches `budget`; skip a title already seen; else report the result and
/// add its cost. The reported indices and the tokens used.
pub open spec fn memory_walk(
    titles: Seq<Seq<char>>,
    costs: Seq<usize>,
    budget: nat,
    i: int,
    seen: Set<Seq<char>>,
    used: nat,
    picked: Seq<usize>,
) -> (Seq<usize>, nat)
    decreases titles.len() - i,
{
    if i >= titles.len() || used >= budget {
        (picked, used)
    } else if seen.contains(titles[i]) {
        memory_walk(titles, costs, budget, i + 1, seen, used, picked)
    } else {
        memory_walk(titles, costs, budget, i + 1, seen.insert(titles[i]), used + costs[i] as nat, picked.push(i as usize))
    }
}

/// The memory results reported, by index, and the tokens they use: in
/// order, one per title, while the tokens used stay below `budget`.
pub fn select_memories(titles: &Vec<String>, costs: &Vec<usize>, budget: usize) -> (r: (Vec<usize>, usize))
    requires
        titles@.len() == costs@.len(),
        cost_sum(costs@) <= usize::MAX || forall|k: int| 0 <= k < costs@.len() ==> budget + #[trigger] costs@[k] <= usize::MAX,
    ensures
        (r.0@, r.1 as nat) == memory_walk(views(titles@), costs@, budget as nat, 0, Set::empty(), 0, seq![]),
{
    let ghost tv = views(titles@);
    let mut picked: Vec<usize> = Vec::new();
    let mut seen: Vec<String> = Vec::new();
    let mut used: usize = 0;
    let mut i: usize = 0;
    proof {
        assert(views(seen@).to_set() =~= Set::<Seq<char>>::empty());
        assert(picked@ =~= Seq::<usize>::empty());
    }
    while i < titles.len() && used < budget
        invariant
            i <= titles@.len(),
            titles@.len() == costs@.len(),
            tv == views(titles@),
            used <= cost_sum(costs@.take(i as int)),
            cost_sum(costs@) <= usize::MAX || forall|k: int| 0 <= k < costs@.len() ==> budget + #[trigger] costs@[k] <= usize::MAX,
            memory_walk(tv, costs@, budget as nat, i as int, views(seen@).to_set(), used as nat, picked@) == memory_walk(
                tv,
                costs@,
                budget as nat,
                0,
                Set::empty(),
                0,
                seq![],
            ),
        decreases titles@.len() - i,
    {
        proof {
            assert(costs@.take(i + 1).drop_last() =~= costs@.take(i as int));
            lemma_cost_sum_prefix(costs@, i + 1, costs@.len() as int);
            assert(costs@.take(costs@.len() as int) =~= costs@);
            assert(tv[i as int] == titles@[i as int]@);
            if cost_sum(costs@) > usize::MAX {
                assert(budget + costs@[i as int] <= usize::MAX);
            }
        }
        if !crate::engine::contains_string(&seen, titles[i].as_str()) {
            let ghost sb = views(seen@);
            seen.push(titles[i].clone());
            proof {
                assert(views(seen@) =~= sb.push(tv[i as int]));
                sb.lemma_push_to_set_commute(tv[i as int]);
            }
            picked.push(i);
            used = used + costs[i];
        }
        i = i + 1;
    }
    (picked, used)
}

/// The tokens reported in all: the budget less what is left after the
/// symbol's source, the callers, the tests and the memories.
pub open spec fn edit_tokens(max_tokens: usize, source: usize, callers: usize, tests: usize, memories: usize) -> usize {
    let left = max_tokens.saturating_sub(source).saturating_sub(callers).saturating_sub(tests).saturating_sub(memories);
    max_tokens.saturating_sub(left)
}

/// The tokens reported in all.
pub fn edit_total_tokens(max_tokens: usize, source: usize, callers: usize, tests: usize, memories: usize) -> (r: usize)
    ensures
        r == edit_tokens(max_tokens, source, callers, tests, memories),
{
    let left = max_tokens.saturating_sub(source).saturating_sub(callers).saturating_sub(tests).saturating_sub(memories);
    max_tokens.saturating_sub(left)
}

/// Test entry `t` (not the symbol itself) calls the named symbol `target`
/// within three steps along `calls`.
pub open spec fn test_reaches(g: CodeGraph, calls: Seq<(u64, u64)>, t: u64, target: u64) -> bool {
    t != target && within(calls, t, 3).contains(target) && info_of_id(g, target) is Some
}

/// Of the first twenty test entries `tests`, from index `i`, those that
/// call `target`, each once, after `acc`.
pub open spec fn calling_tests_walk(
    g: CodeGraph,
    calls: Seq<(u64, u64)>,
    tests: Seq<crate::entry::EntryPointV>,
    target: u64,
    i: int,
    acc: Seq<u64>,
) -> Seq<u64>
    decreases tests.len() - i,
{
    if i >= tests.len() || i >= 20 {
        acc
    } else {
        let t = tests[i].node_id;
        if test_reaches(g, calls, t, target) && !acc.contains(t) {
            calling_tests_walk(g, calls, tests, target, i + 1, acc.push(t))
        } else {
            calling_tests_walk(g, calls, tests, target, i + 1, acc)
        }
    }
}

/// A call chain names `target` exactly when `target` is named and within
/// its reach.
proof fn lemma_chain_names(g: CodeGraph, calls: Seq<(u64, u64)>, t: u64, depth: u32, r: Seq<CallInfo>, target: u64)
    requires
        is_call_chain(g, calls, t, depth, r),
    ensures
        (exists|i: int| 0 <= i < r.len() && (#[trigger] r[i]).node_id == target) <==> (within(calls, t, depth as nat).contains(
            target,
        ) && info_of_id(g, target) is Some),
{
    if exists|i: int| 0 <= i < r.len() && (#[trigger] r[i]).node_id == target {
        let i = choose|i: int| 0 <= i < r.len() && (#[trigger] r[i]).node_id == target;
        let c = r[i];
        crate::reach::lemma_within_mono(calls, t, c.depth as nat, depth as nat);
    }
}

/// Whether some call of `cs` is to `target`.
fn names_node(cs: &Vec<CallInfo>, target: u64) -> (r: bool)
    ensures
        r == exists|i: int| 0 <= i < cs@.len() && (#[trigger] cs@[i]).node_id == target,
{
    let mut i: usize = 0;
    while i < cs.len()
        invariant
            i <= cs@.len(),
            forall|j: int| 0 <= j < i ==> (#[trigger] cs@[j]).node_id != target,
        decreases cs@.len() - i,
    {
        if cs[i].node_id == target {
            return true;
        }
        i = i + 1;
    }
    false
}

/// The tests that call the symbol `target`: of the first twenty test
/// entries, each that reaches it within three calls, once.
pub fn tests_calling_target(engine: &QueryEngine, target: u64) -> (r: Vec<u64>)
    requires
        engine.wf(),
    ensures
        r@ == calling_tests_walk(
            engine.graph,
            engine.calls@,
            entry_hits(engine.graph.nodes@, seq![EntryType::TestEntry], false),
            target,
            0,
            seq![],
        ),
{
    let types = vec![EntryType::TestEntry];
    let tests = engine.find_entry_points(types.as_slice());
    let ghost hits = entry_hits(engine.graph.nodes@, seq![EntryType::TestEntry], false);
    proof {
        assert(types@ =~= seq![EntryType::TestEntry]);
    }
    let mut r: Vec<u64> = Vec::new();
    let mut i: usize = 0;
    while i < tests.len() && i < 20
        invariant
            engine.wf(),
            i <= tests@.len(),
            tests@.map_values(|e: crate::primitives::EntryPoint| e@) == hits,
            calling_tests_walk(engine.graph, engine.calls@, hits, target, i as int, r@) == calling_tests_walk(
                engine.graph,
                engine.calls@,
                hits,
                target,
                0,
                seq![],
            ),
        decreases tests@.len() - i,
    {
        let t = tests[i].node_id;
        proof {
            assert(hits[i as int].node_id == t);
        }
        if t != target && !vec_contains_u64(&r, t) {
            let callees = engine.get_callees(t, 3);
            let hit = names_node(&callees, target);
            proof {
                lemma_chain_names(engine.graph, engine.calls@, t, 3, callees@, target);
            }
            if hit {
                r.push(t);
            }
        }
        i = i + 1;
    }
    r
}

/// Walking the nodes `ids` of the symbol's file from index `i`, with the
/// nodes `seen` already handled: stop at the end or once `acc` holds
/// `room` nodes; skip a node seen; else note it seen and keep it when it is
/// a test function.
pub open spec fn same_file_walk(g: CodeGraph, ids: Seq<u64>, i: int, seen: Set<u64>, room: nat, acc: Seq<u64>) -> Seq<u64>
    decreases ids.len() - i,
{
    if i >= ids.len() || acc.len() >= room {
        acc
    } else if seen.contains(ids[i]) {
        same_file_walk(g, ids, i + 1, seen, room, acc)
    } else {
        let v = ids[i];
        let keep = g.has_node(v) && g.node(v).node_type == NodeType::Function && is_test_props(g.node(v).props);
        same_file_walk(g, ids, i + 1, seen.insert(v), room, if keep { acc.push(v) } else { acc })
    }
}

/// The test functions of the symbol's file `path` not yet reported
/// (`seen`), in node order, at most `room` of them; none once the test
/// tokens `used` have reached the `budget`.
pub fn same_file_tests(g: &CodeGraph, path: &str, seen: &Vec<u64>, room: usize, used: usize, budget: usize) -> (r: Vec<u64>)
    requires
        g.wf(),
    ensures
        r@ == (if used >= budget {
            seq![]
        } else {
            same_file_walk(*g, nodes_with_path(g.nodes@, path@), 0, seen@.to_set(), room as nat, seq![])
        }),
{
    let mut r: Vec<u64> = Vec::new();
    if used >= budget {
        return r;
    }
    let ids = query_by_path(g, path);
    let mut handled: Vec<u64> = Vec::new();
    let mut k: usize = 0;
    while k < seen.len()
        invariant
            k <= seen@.len(),
            handled@ == seen@.take(k as int),
        decreases seen@.len() - k,
    {
        handled.push(seen[k]);
        proof {
            assert(seen@.take(k + 1) =~= seen@.take(k as int).push(seen@[k as int]));
        }
        k = k + 1;
    }
    proof {
        assert(seen@.take(k as int) =~= seen@);
    }
    let mut i: usize = 0;
    while i < ids.len() && r.len() < room
        invariant
            g.wf(),
            i <= ids@.len(),
            same_file_walk(*g, ids@, i as int, handled@.to_set(), room as nat, r@) == same_file_walk(
                *g,
                ids@,
                0,
                seen@.to_set(),
                room as nat,
                seq![],
            ),
        decreases ids@.len() - i,
    {
        let v = ids[i];
        if !vec_contains_u64(&handled, v) {
            let ghost hb = handled@;
            handled.push(v);
            proof {
                hb.lemma_push_to_set_commute(v);
            }
            match g.get_node(v) {
                Some(n) => {
                    if n.node_type == NodeType::Function && is_test_node(&n.props) {
                        r.push(v);
                    }
                },
                None => {},
            }
        }
        i = i + 1;
    }
    r
}

/// What an edit context reports of its symbol.
#[derive(Clone, Debug)]
pub struct EditSymbol {
    pub name: String,
    pub node_type: String,
    pub language: String,
    pub path: String,
    pub line_start: i64,
    pub line_end: i64,
}

/// `s` is what an edit context reports of node `target`.
pub open spec fn edit_symbol_fits(g: CodeGraph, target: u64, s: EditSymbol) -> bool {
    let n = g.node(target);
    let start = start_line_of(n.props) as i64;
    let end = end_line_of(n.props, 0) as i64;
    &&& s.name@ == str_or_empty(n.props.name)
    &&& s.path@ == str_or_empty(n.props.path)
    &&& s.node_type@ == lower_type_name(n.node_type)
    &&& (n.props.language matches Some(l) ==> s.language@ == l@)
    &&& (n.props.language is None && n.props.path is None ==> s.language@ == "unknown"@)
    &&& (n.props.language is None ==> match n.props.path {
        Some(p) => plain_path(p@) ==> s.language@ == match extension_of_name(last_part(p@)) {
            Some(e) => e,
            None => "unknown"@,
        },
        None => true,
    })
    &&& s.line_start == start
    &&& s.line_end == (if end == 0 { start } else { end })
}

/// The symbol of node `target` as an edit context reports it, none where
/// the node is absent: its name and path (empty where missing), its
/// lower-case type, its language (recorded, else from the path's extension,
/// else `unknown`), its first line and its last (the first where none is
/// recorded).
pub fn edit_symbol(g: &CodeGraph, target: u64) -> (r: Option<EditSymbol>)
    requires
        g.wf(),
    ensures
        r is None <==> !g.has_node(target),
        r matches Some(s) ==> edit_symbol_fits(*g, target, s),
{
    let n = match g.get_node(target) {
        Some(n) => n,
        None => {
            return None;
        },
    };
    let language = match &n.props.language {
        Some(l) => l.clone(),
        None => match &n.props.path {
            Some(p) => match crate::text::path_extension(p.as_str()) {
                Some(e) => e,
                None => owned("unknown"),
            },
            None => owned("unknown"),
        },
    };
    let start = get_line_start(&n.props) as i64;
    let e = get_line_end(&n.props, 0) as i64;
    let end = if e == 0 {
        start
    } else {
        e
    };
    Some(
        EditSymbol {
            name: string_or_empty(&n.props.name),
            node_type: lower_type(n.node_type),
            language,
            path: string_or_empty(&n.props.path),
            line_start: start,
            line_end: end,
        },
    )
}

/// Whether the hash of the log line `line` can be cut to eight bytes.
fn line_hash_ok(line: &str) -> (r: bool)
    ensures
        r == hash_cut_ok(line@),
{
    let parts = split_char(line, '\0');
    if parts.len() < 4 {
        return true;
    }
    let f: &str = parts[0].as_str();
    proof {
        assert(f@ == log_fields(line@)[0]);
    }
    f.as_bytes().len() <= 8 || f.is_char_boundary(8)
}

/// Whether the hashes of the first five non-empty lines of a git log can be
/// cut to eight bytes.
pub fn log_hashes_cut(log: &str) -> (r: bool)
    ensures
        r == hash_cuts_ok(text_lines(log@), 5),
{
    let lines = lines_of_text(log);
    let ghost all = text_lines(log@);
    let mut i: usize = 0;
    let mut n: usize = 5;
    proof {
        assert(all.skip(0) =~= all);
    }
    while i < lines.len() && n > 0
        invariant
            all == text_lines(log@),
            views(lines@) == all,
            i <= lines@.len(),
            n <= 5,
            hash_cuts_ok(all, 5) == hash_cuts_ok(all.skip(i as int), n as nat),
        decreases lines@.len() - i,
    {
        proof {
            assert(all.skip(i as int)[0] == lines@[i as int]@);
            assert(all.skip(i as int).drop_first() =~= all.skip(i + 1));
        }
        if crate::text::chars_of(lines[i].as_str()).len() > 0 {
            if !line_hash_ok(lines[i].as_str()) {
                return false;
            }
            n = n - 1;
        }
        i = i + 1;
    }
    true
}

/// A memory found for an edit context: its id, title, content and kind.
#[derive(Clone, Debug)]
pub struct MemoryHit {
    pub id: String,
    pub title: String,
    pub content: String,
    pub kind: String,
}

/// A caller as an edit context reports it.
#[derive(Clone, Debug)]
pub struct EditCaller {
    pub node_id: u64,
    pub name: String,
    pub file: String,
    pub line: u32,
    pub code: Option<String>,
}

/// A test as an edit context reports it: one that calls the symbol, with
/// its code, or a test function of the same file.
#[derive(Clone, Debug)]
pub struct EditTest {
    pub node_id: u64,
    pub name: String,
    pub calls_target: bool,
    pub code: Option<String>,
}

/// What an edit context reports.
#[derive(Clone, Debug)]
pub struct EditReport {
    pub symbol: EditSymbol,
    pub code: String,
    pub callers: Vec<EditCaller>,
    pub tests: Vec<EditTest>,
    pub memories: Vec<usize>,
    pub recent_changes: Vec<RecentCommit>,
    pub source_tokens: usize,
    pub caller_tokens: usize,
    pub test_tokens: usize,
    pub memory_tokens: usize,
    pub total_tokens: usize,
    pub used_fallback: bool,
    pub fallback_message: Option<String>,
}

/// The answer to an edit context request.
#[derive(Clone, Debug)]
pub enum EditContext {
    /// No symbol is found at the location.
    NoSymbol,
    /// The symbol's node cannot be loaded.
    NodeMissing,
    /// The context of the symbol.
    Found(EditReport),
}

/// The token cost of a text: its length in bytes divided by four.
pub open spec fn text_cost(t: Seq<char>) -> usize {
    (encode_utf8(t).len() / 4) as usize
}

/// The source of node `id` among `sources`, if any.
pub open spec fn source_of(sources: Seq<(u64, String)>, id: u64) -> Option<Seq<char>> {
    crate::analysis::file_lookup(sources, id)
}

/// The token cost of the source of each of `ids` (0 where none is known).
pub open spec fn source_costs(sources: Seq<(u64, String)>, ids: Seq<u64>) -> Seq<usize> {
    ids.map_values(|id: u64| match source_of(sources, id) {
        Some(t) => text_cost(t),
        None => 0usize,
    })
}

/// The code reported for the symbol: its source, or a note that none is
/// available.
pub open spec fn symbol_code(sources: Seq<(u64, String)>, id: u64) -> Seq<char> {
    match source_of(sources, id) {
        Some(t) => t,
        None => "<source not available>"@,
    }
}

/// A caller reported from the call `c`.
pub open spec fn caller_fits(sources: Seq<(u64, String)>, c: CallInfo, e: EditCaller) -> bool {
    &&& e.node_id == c.node_id
    &&& e.name@ == c.symbol.name@
    &&& e.file@ == c.symbol.location.file@
    &&& e.line == c.symbol.location.line
    &&& crate::text::opt_text(e.code) == source_of(sources, c.node_id)
}

/// The tests of the same file reported after `first` tests that call the
/// symbol, which used `used` test tokens.
pub open spec fn same_file_part(g: CodeGraph, path: Seq<char>, target: u64, first: Seq<u64>, used: nat, budget: nat) -> Seq<u64> {
    if first.len() >= 5 || used >= budget {
        seq![]
    } else {
        same_file_walk(g, nodes_with_path(g.nodes@, path), 0, (seq![target] + first).to_set(), (5 - first.len()) as nat, seq![])
    }
}

/// `rep` is the edit context of node `t` (reached by fallback where `fb`
/// says so) at line `line`, under `max_tokens`, with the sources `sources`,
/// the memories `memories` found for it and the git log `git_log`.
pub open spec fn edit_report_fits(
    engine: QueryEngine,
    sources: Seq<(u64, String)>,
    memories: Seq<MemoryHit>,
    git_log: Option<Seq<char>>,
    t: u64,
    fb: bool,
    line: u32,
    max_tokens: usize,
    rep: EditReport,
) -> bool {
    let g = engine.graph;
    let hits = calling_tests_walk(g, engine.calls@, entry_hits(g.nodes@, seq![EntryType::TestEntry], false), t, 0, seq![]);
    let tw = budget_walk(source_costs(sources, hits), 5, (max_tokens / 5) as nat, 0, 0);
    let first = hits.take(tw.0);
    let second = same_file_part(g, rep.symbol.path@, t, first, tw.1, (max_tokens / 5) as nat);
    let mems = memories.take(if memories.len() <= 5 { memories.len() as int } else { 5 });
    let mw = memory_walk(
        mems.map_values(|m: MemoryHit| m.title@),
        mems.map_values(|m: MemoryHit| text_cost(m.content@)),
        (max_tokens * 15 / 100) as nat,
        0,
        Set::empty(),
        0,
        seq![],
    );
    &&& edit_symbol_fits(g, t, rep.symbol)
    &&& rep.code@ == symbol_code(sources, t)
    &&& rep.source_tokens == text_cost(rep.code@)
    &&& exists|chain: Seq<CallInfo>|
        is_call_chain(g, swapped(engine.calls@), t, 1, chain) && {
            let cw = budget_walk(
                source_costs(sources, chain.map_values(|c: CallInfo| c.node_id)),
                10,
                (max_tokens / 4) as nat,
                0,
                0,
            );
            &&& rep.callers@.len() == cw.0
            &&& rep.caller_tokens == cw.1
            &&& forall|j: int| 0 <= j < rep.callers@.len() ==> caller_fits(sources, chain[j], #[trigger] rep.callers@[j])
        }
    &&& rep.tests@.map_values(|x: EditTest| x.node_id) == first + second
    &&& forall|j: int| 0 <= j < rep.tests@.len() ==> (#[trigger] rep.tests@[j]).calls_target == (j < first.len())
    &&& forall|j: int|
        0 <= j < rep.tests@.len() ==> crate::text::opt_text((#[trigger] rep.tests@[j]).code) == (if j < first.len() {
            source_of(sources, rep.tests@[j].node_id)
        } else {
            None
        })
    &&& forall|j: int|
        0 <= j < rep.tests@.len() ==> (#[trigger] rep.tests@[j]).name@ == crate::domain::symbol_name_of(
            g,
            rep.tests@[j].node_id,
        )
    &&& rep.test_tokens == tw.1
    &&& rep.memories@ == mw.0
    &&& rep.memory_tokens == mw.1
    &&& match git_log {
        Some(l) => if hash_cuts_ok(text_lines(l), 5) {
            &&& rep.recent_changes@.len() == commit_lines(text_lines(l), 5).len()
            &&& forall|k: int|
                0 <= k < rep.recent_changes@.len() ==> commit_of_line(
                    #[trigger] rep.recent_changes@[k],
                    commit_lines(text_lines(l), 5)[k],
                )
        } else {
            rep.recent_changes@.len() == 0
        },
        None => rep.recent_changes@.len() == 0,
    }
    &&& rep.total_tokens == edit_tokens(max_tokens, rep.source_tokens, rep.caller_tokens, rep.test_tokens, rep.memory_tokens)
    &&& rep.used_fallback == fb
    &&& crate::text::opt_text(rep.fallback_message) == (if fb {
        Some(crate::domain::fallback_note(Some(line), rep.symbol.name@))
    } else {
        None
    })
}

fn source_cost(sources: &Vec<(u64, String)>, id: u64) -> (r: (Option<String>, usize))
    ensures
        crate::text::opt_text(r.0) == source_of(sources@, id),
        r.1 == (match source_of(sources@, id) {
            Some(t) => text_cost(t),
            None => 0usize,
        }),
        r.1 <= usize::MAX / 4,
{
    match crate::analysis::file_for_node(sources, id) {
        Some(t) => {
            let n = t.as_str().as_bytes().len() / 4;
            (Some(t), n)
        },
        None => (None, 0),
    }
}

/// The costs of the sources of `ids`.
fn costs_for(sources: &Vec<(u64, String)>, ids: &Vec<u64>) -> (r: Vec<usize>)
    ensures
        r@ == source_costs(sources@, ids@),
        forall|k: int| 0 <= k < r@.len() ==> #[trigger] r@[k] <= usize::MAX / 4,
{
    let mut r: Vec<usize> = Vec::new();
    let mut i: usize = 0;
    while i < ids.len()
        invariant
            i <= ids@.len(),
            r@ == source_costs(sources@, ids@.take(i as int)),
            forall|k: int| 0 <= k < r@.len() ==> #[trigger] r@[k] <= usize::MAX / 4,
        decreases ids@.len() - i,
    {
        let (_, c) = source_cost(sources, ids[i]);
        r.push(c);
        proof {
            assert(source_costs(sources@, ids@.take(i + 1)) =~= source_costs(sources@, ids@.take(i as int)).push(c));
        }
        i = i + 1;
    }
    proof {
        assert(ids@.take(i as int) =~= ids@);
    }
    r
}

/// The bounds an edit context keeps: at most ten callers; at most five
/// tests, distinct and other than the symbol; at most five memories, of
/// results given, with distinct titles; at most five recent commits; and
/// no more tokens than allowed.
pub open spec fn edit_context_bounded(memories: Seq<MemoryHit>, t: u64, max_tokens: usize, rep: EditReport) -> bool {
    &&& rep.callers@.len() <= 10
    &&& rep.tests@.len() <= 5
    &&& rep.tests@.map_values(|x: EditTest| x.node_id).no_duplicates()
    &&& forall|j: int| 0 <= j < rep.tests@.len() ==> (#[trigger] rep.tests@[j]).node_id != t
    &&& rep.memories@.len() <= 5
    &&& forall|k: int| 0 <= k < rep.memories@.len() ==> (#[trigger] rep.memories@[k]) < memories.len()
    &&& forall|a: int, b: int|
        0 <= a < b < rep.memories@.len() ==> memories[#[trigger] rep.memories@[a] as int].title@
            != memories[#[trigger] rep.memories@[b] as int].title@
    &&& rep.recent_changes@.len() <= 5
    &&& rep.total_tokens <= max_tokens
}

/// The git log as plain text.
pub open spec fn log_view(git_log: Option<&str>) -> Option<Seq<char>> {
    match git_log {
        Some(l) => Some(l@),
        None => None,
    }
}

/// The context for editing the symbol at a location: `target` is the node
/// found there (with whether it is the nearest one standing in), `sources`
/// the source texts read for nodes, `memories` the memories found for the
/// symbol's file, `git_log` the log of its file. The symbol and its code
/// come first; then up to ten direct callers while a quarter of the budget
/// lasts; up to five tests (those calling it, while a fifth of the budget
/// lasts, then test functions of its file); up to five memories with
/// distinct titles while 15% of the budget lasts; and up to five recent
/// commits.
pub fn get_edit_context(
    engine: &QueryEngine,
    target: Option<(u64, bool)>,
    line: u32,
    max_tokens: usize,
    sources: &Vec<(u64, String)>,
    memories: &Vec<MemoryHit>,
    git_log: Option<&str>,
) -> (r: EditContext)
    requires
        engine.wf(),
        max_tokens <= usize::MAX / 15,
    ensures
        target is None <==> r is NoSymbol,
        r is NodeMissing <==> (target matches Some(p) && !engine.graph.has_node(p.0)),
        r matches EditContext::Found(rep) ==> (target matches Some(p) && edit_report_fits(
            *engine,
            sources@,
            memories@,
            log_view(git_log),
            p.0,
            p.1,
            line,
            max_tokens,
            rep,
        ) && edit_context_bounded(memories@, p.0, max_tokens, rep)),
{
    let (t, fb) = match target {
        None => {
            return EditContext::NoSymbol;
        },
        Some(p) => p,
    };
    let g = &engine.graph;
    let symbol = match edit_symbol(g, t) {
        None => {
            return EditContext::NodeMissing;
        },
        Some(s) => s,
    };
    let code = match crate::analysis::file_for_node(sources, t) {
        Some(c) => c,
        None => owned("<source not available>"),
    };
    let source_tokens = code.as_str().as_bytes().len() / 4;
    // callers
    let chain = engine.get_callers(t, 1);
    let mut ids: Vec<u64> = Vec::new();
    let mut i: usize = 0;
    while i < chain.len()
        invariant
            i <= chain@.len(),
            ids@ == chain@.take(i as int).map_values(|c: CallInfo| c.node_id),
        decreases chain@.len() - i,
    {
        ids.push(chain[i].node_id);
        proof {
            assert(chain@.take(i + 1).map_values(|c: CallInfo| c.node_id) =~= chain@.take(i as int).map_values(
                |c: CallInfo| c.node_id,
            ).push(chain@[i as int].node_id));
        }
        i = i + 1;
    }
    proof {
        assert(chain@.take(i as int) =~= chain@);
    }
    let ccosts = costs_for(sources, &ids);
    let (k, cu) = take_within_budget(&ccosts, 10, max_tokens / 4);
    proof {
        lemma_walk_bound(ccosts@, 10, (max_tokens / 4) as nat, 0, 0);
    }
    let mut callers: Vec<EditCaller> = Vec::new();
    let mut j: usize = 0;
    while j < k
        invariant
            k <= chain@.len(),
            j <= k,
            callers@.len() == j,
            forall|q: int| 0 <= q < j ==> caller_fits(sources@, chain@[q], #[trigger] callers@[q]),
        decreases k - j,
    {
        let c = &chain[j];
        let e = EditCaller {
            node_id: c.node_id,
            name: c.symbol.name.clone(),
            file: c.symbol.location.file.clone(),
            line: c.symbol.location.line,
            code: crate::analysis::file_for_node(sources, c.node_id),
        };
        callers.push(e);
        j = j + 1;
    }
    // tests
    let hits = tests_calling_target(engine, t);
    let tcosts = costs_for(sources, &hits);
    let (kt, tu) = take_within_budget(&tcosts, 5, max_tokens / 5);
    proof {
        lemma_walk_bound(tcosts@, 5, (max_tokens / 5) as nat, 0, 0);
    }
    let mut tests: Vec<EditTest> = Vec::new();
    let mut seen: Vec<u64> = vec![t];
    let mut j: usize = 0;
    while j < kt
        invariant
            engine.wf(),
            kt <= hits@.len(),
            j <= kt,
            tests@.len() == j,
            seen@ == seq![t] + hits@.take(j as int),
            tests@.map_values(|x: EditTest| x.node_id) == hits@.take(j as int),
            forall|q: int|
                0 <= q < j ==> (#[trigger] tests@[q]).calls_target && crate::text::opt_text(tests@[q].code)
                    == source_of(sources@, tests@[q].node_id) && tests@[q].name@ == crate::domain::symbol_name_of(
                    engine.graph,
                    tests@[q].node_id,
                ),
        decreases kt - j,
    {
        let id = hits[j];
        let e = EditTest {
            node_id: id,
            name: crate::domain::symbol_name(&engine.graph, id),
            calls_target: true,
            code: crate::analysis::file_for_node(sources, id),
        };
        let ghost tb = tests@;
        tests.push(e);
        seen.push(id);
        proof {
            assert(tests@.map_values(|x: EditTest| x.node_id) =~= tb.map_values(|x: EditTest| x.node_id).push(id));
            assert(hits@.take(j + 1) =~= hits@.take(j as int).push(id));
            assert(seen@ =~= seq![t] + hits@.take(j + 1));
        }
        j = j + 1;
    }
    let ghost first = hits@.take(kt as int);
    if kt < 5 {
        let more = same_file_tests(g, symbol.path.as_str(), &seen, 5 - kt, tu, max_tokens / 5);
        let ghost base = tests@;
        let mut q: usize = 0;
        while q < more.len()
            invariant
                engine.wf(),
                q <= more@.len(),
                tests@.len() == base.len() + q,
                base.len() == first.len(),
                tests@.subrange(0, base.len() as int) == base,
                tests@.map_values(|x: EditTest| x.node_id) == first + more@.take(q as int),
                forall|w: int|
                    base.len() <= w < tests@.len() ==> !(#[trigger] tests@[w]).calls_target && tests@[w].code is None
                        && tests@[w].name@ == crate::domain::symbol_name_of(engine.graph, tests@[w].node_id),
            decreases more@.len() - q,
        {
            let id = more[q];
            let e = EditTest {
                node_id: id,
                name: crate::domain::symbol_name(&engine.graph, id),
                calls_target: false,
                code: None,
            };
            let ghost tb = tests@;
            tests.push(e);
            proof {
                assert(tests@.map_values(|x: EditTest| x.node_id) =~= tb.map_values(|x: EditTest| x.node_id).push(id));
                assert(more@.take(q + 1) =~= more@.take(q as int).push(id));
                assert(tests@.subrange(0, base.len() as int) =~= tb.subrange(0, base.len() as int));
            }
            q = q + 1;
        }
        proof {
            assert(more@.take(q as int) =~= more@);
            assert forall|w: int| 0 <= w < tests@.len() implies (#[trigger] tests@[w]).calls_target == (w < first.len())
                && crate::text::opt_text(tests@[w].code) == (if w < first.len() {
                source_of(sources@, tests@[w].node_id)
            } else {
                None
            }) && tests@[w].name@ == crate::domain::symbol_name_of(engine.graph, tests@[w].node_id) by {
                if w < base.len() {
                    assert(tests@[w] == base[w]);
                }
            }
        }
    }
    // memories
    let m: usize = if memories.len() <= 5 {
        memories.len()
    } else {
        5
    };
    let ghost mems = memories@.take(m as int);
    let mut titles: Vec<String> = Vec::new();
    let mut mcosts: Vec<usize> = Vec::new();
    let mut i: usize = 0;
    while i < m
        invariant
            m <= memories@.len(),
            mems == memories@.take(m as int),
            i <= m,
            views(titles@) == mems.take(i as int).map_values(|h: MemoryHit| h.title@),
            mcosts@ == mems.take(i as int).map_values(|h: MemoryHit| text_cost(h.content@)),
            forall|w: int| 0 <= w < mcosts@.len() ==> #[trigger] mcosts@[w] <= usize::MAX / 4,
        decreases m - i,
    {
        let h = &memories[i];
        let c = h.content.as_str().as_bytes().len() / 4;
        let ghost tb = titles@;
        titles.push(h.title.clone());
        mcosts.push(c);
        proof {
            assert(mems[i as int] == *h);
            assert(mems.take(i + 1) =~= mems.take(i as int).push(*h));
            assert(views(titles@) =~= views(tb).push(h.title@));
            assert(mems.take(i + 1).map_values(|h: MemoryHit| h.title@) =~= mems.take(i as int).map_values(
                |h: MemoryHit| h.title@,
            ).push(h.title@));
            assert(mems.take(i + 1).map_values(|h: MemoryHit| text_cost(h.content@)) =~= mems.take(i as int).map_values(
                |h: MemoryHit| text_cost(h.content@),
            ).push(text_cost(h.content@)));
        }
        i = i + 1;
    }
    proof {
        assert(mems.take(i as int) =~= mems);
    }
    let (picked, mu) = select_memories(&titles, &mcosts, max_tokens * 15 / 100);
    // recent changes
    let recent = match git_log {
        Some(l) => if log_hashes_cut(l) {
            parse_recent_commits(l)
        } else {
            Vec::new()
        },
        None => Vec::new(),
    };
    let total = edit_total_tokens(max_tokens, source_tokens, cu, tu, mu);
    let fallback_message = if fb {
        Some(crate::domain::fallback_message(Some(line), symbol.name.as_str()))
    } else {
        None
    };
    let rep = EditReport {
        symbol,
        code,
        callers,
        tests,
        memories: picked,
        recent_changes: recent,
        source_tokens,
        caller_tokens: cu,
        test_tokens: tu,
        memory_tokens: mu,
        total_tokens: total,
        used_fallback: fb,
        fallback_message,
    };
    proof {
        assert(ids@ =~= chain@.map_values(|c: CallInfo| c.node_id));
        // tests
        let hv = calling_tests_walk(
            engine.graph,
            engine.calls@,
            entry_hits(engine.graph.nodes@, seq![EntryType::TestEntry], false),
            t,
            0,
            seq![],
        );
        lemma_calling_tests_distinct(
            engine.graph,
            engine.calls@,
            entry_hits(engine.graph.nodes@, seq![EntryType::TestEntry], false),
            t,
            0,
            seq![],
        );
        let tw = budget_walk(source_costs(sources@, hv), 5, (max_tokens / 5) as nat, 0, 0);
        let fst = hv.take(tw.0);
        let snd = same_file_part(engine.graph, rep.symbol.path@, t, fst, tw.1, (max_tokens / 5) as nat);
        let seen_set = (seq![t] + fst).to_set();
        if !(fst.len() >= 5 || tw.1 >= (max_tokens / 5) as nat) {
            lemma_same_file_walk(
                engine.graph,
                nodes_with_path(engine.graph.nodes@, rep.symbol.path@),
                0,
                seen_set,
                (5 - fst.len()) as nat,
                seq![],
            );
            assert(snd.take(0) =~= Seq::<u64>::empty());
        }
        let all = fst + snd;
        assert(all == rep.tests@.map_values(|x: EditTest| x.node_id));
        assert forall|a: int, b: int| 0 <= a < b < all.len() implies all[a] != all[b] by {
            if b < fst.len() {
                assert(hv[a] != hv[b]);
            } else if a >= fst.len() {
                assert(snd[a - fst.len()] != snd[b - fst.len()]);
            } else {
                assert(!seen_set.contains(snd[b - fst.len()]));
                assert((seq![t] + fst)[a + 1] == fst[a]);
            }
        }
        assert forall|j: int| 0 <= j < rep.tests@.len() implies (#[trigger] rep.tests@[j]).node_id != t by {
            assert(all[j] == rep.tests@[j].node_id);
            if j < fst.len() {
                assert(!hv.contains(t));
                assert(hv[j] == fst[j]);
            } else {
                assert((seq![t] + fst)[0] == t);
                assert(!seen_set.contains(snd[j - fst.len()]));
            }
        }
        // memories
        lemma_memory_walk(
            mems.map_values(|h: MemoryHit| h.title@),
            mems.map_values(|h: MemoryHit| text_cost(h.content@)),
            (max_tokens * 15 / 100) as nat,
            0,
            Set::empty(),
            0,
            seq![],
        );
        assert forall|a: int, b: int| 0 <= a < b < rep.memories@.len() implies memories@[#[trigger] rep.memories@[a] as int].title@
            != memories@[#[trigger] rep.memories@[b] as int].title@ by {
            let ta = mems.map_values(|h: MemoryHit| h.title@);
            assert(ta[rep.memories@[a] as int] == memories@[rep.memories@[a] as int].title@);
            assert(ta[rep.memories@[b] as int] == memories@[rep.memories@[b] as int].title@);
        }
        // recent changes
        match git_log {
            Some(l) => {
                lemma_commit_lines_len(text_lines(l@), 5);
            },
            None => {},
        }
    }
    EditContext::Found(rep)
}

/// A budget walk stops at or before `max` items and the end.
proof fn lemma_walk_bound(costs: Seq<usize>, max: nat, budget: nat, i: int, used: nat)
    requires
        0 <= i <= costs.len(),
        i <= max,
    ensures
        i <= budget_walk(costs, max, budget, i, used).0 <= costs.len(),
        budget_walk(costs, max, budget, i, used).0 <= max,
    decreases costs.len() - i,
{
    if i < costs.len() && i < max && used < budget {
        lemma_walk_bound(costs, max, budget, i + 1, used + costs[i] as nat);
    }
}

/// The tests a walk over test entries reports are distinct and are not the
/// symbol itself.
proof fn lemma_calling_tests_distinct(
    g: CodeGraph,
    calls: Seq<(u64, u64)>,
    tests: Seq<crate::entry::EntryPointV>,
    target: u64,
    i: int,
    acc: Seq<u64>,
)
    requires
        acc.no_duplicates(),
        !acc.contains(target),
    ensures
        calling_tests_walk(g, calls, tests, target, i, acc).no_duplicates(),
        !calling_tests_walk(g, calls, tests, target, i, acc).contains(target),
    decreases tests.len() - i,
{
    if i >= tests.len() || i >= 20 {
    } else {
        let t = tests[i].node_id;
        if test_reaches(g, calls, t, target) && !acc.contains(t) {
            assert(!acc.push(t).contains(target)) by {
                if acc.push(t).contains(target) {
                    let k = choose|k: int| 0 <= k < acc.push(t).len() && acc.push(t)[k] == target;
                    if k < acc.len() {
                        assert(acc.contains(target));
                    }
                }
            }
            assert(acc.push(t).no_duplicates()) by {
                assert forall|a: int, b: int| 0 <= a < b < acc.push(t).len() implies acc.push(t)[a] != acc.push(t)[b] by {
                    if b == acc.len() {
                        assert(acc.contains(acc[a]));
                    }
                }
            }
            lemma_calling_tests_distinct(g, calls, tests, target, i + 1, acc.push(t));
        } else {
            lemma_calling_tests_distinct(g, calls, tests, target, i + 1, acc);
        }
    }
}

/// A walk over a file's nodes keeps what it had, adds at most `room` in all,
/// and adds only nodes not yet seen, each once.
proof fn lemma_same_file_walk(g: CodeGraph, ids: Seq<u64>, i: int, seen: Set<u64>, room: nat, acc: Seq<u64>)
    requires
        acc.len() <= room,
        acc.no_duplicates(),
        forall|k: int| 0 <= k < acc.len() ==> seen.contains(#[trigger] acc[k]),
    ensures
        ({
            let r = same_file_walk(g, ids, i, seen, room, acc);
            &&& acc.len() <= r.len() <= room
            &&& r.take(acc.len() as int) == acc
            &&& r.no_duplicates()
            &&& forall|k: int| acc.len() <= k < r.len() ==> !seen.contains(#[trigger] r[k])
        }),
    decreases ids.len() - i,
{
    let r = same_file_walk(g, ids, i, seen, room, acc);
    if i >= ids.len() || acc.len() >= room {
        assert(r.take(acc.len() as int) =~= acc);
    } else if seen.contains(ids[i]) {
        assert(r == same_file_walk(g, ids, i + 1, seen, room, acc));
        lemma_same_file_walk(g, ids, i + 1, seen, room, acc);
    } else {
        let v = ids[i];
        let keep = g.has_node(v) && g.node(v).node_type == NodeType::Function && is_test_props(g.node(v).props);
        let acc2 = if keep { acc.push(v) } else { acc };
        let seen2 = seen.insert(v);
        assert forall|k: int| 0 <= k < acc2.len() implies seen2.contains(#[trigger] acc2[k]) by {
            if k < acc.len() {
                assert(acc2[k] == acc[k]);
            }
        }
        assert(acc2.no_duplicates()) by {
            assert forall|a: int, b: int| 0 <= a < b < acc2.len() implies acc2[a] != acc2[b] by {
                if b >= acc.len() {
                    assert(seen.contains(acc[a]));
                } else {
                    assert(acc2[a] == acc[a] && acc2[b] == acc[b]);
                }
            }
        }
        assert(r == same_file_walk(g, ids, i + 1, seen2, room, acc2));
        lemma_same_file_walk(g, ids, i + 1, seen2, room, acc2);
        assert(r.take(acc.len() as int) =~= acc) by {
            assert(r.take(acc2.len() as int) == acc2);
            assert forall|k: int| 0 <= k < acc.len() implies r[k] == acc[k] by {
                assert(r.take(acc2.len() as int)[k] == acc2[k]);
            }
        }
        assert forall|k: int| acc.len() <= k < r.len() implies !seen.contains(#[trigger] r[k]) by {
            if k < acc2.len() {
                assert(r.take(acc2.len() as int)[k] == acc2[k]);
                assert(r[k] == v);
            } else {
                assert(!seen2.contains(r[k]));
            }
        }
    }
}

/// A memory walk picks at most one result per remaining index, each of an
/// index below the number of results, with titles all distinct.
proof fn lemma_memory_walk(
    titles: Seq<Seq<char>>,
    costs: Seq<usize>,
    budget: nat,
    i: int,
    seen: Set<Seq<char>>,
    used: nat,
    picked: Seq<usize>,
)
    requires
        0 <= i <= titles.len(),
        titles.len() <= usize::MAX,
        titles.len() == costs.len(),
        picked.len() <= i,
        forall|k: int| 0 <= k < picked.len() ==> (#[trigger] picked[k]) < i && seen.contains(titles[picked[k] as int]),
        forall|a: int, b: int|
            0 <= a < b < picked.len() ==> titles[#[trigger] picked[a] as int] != titles[#[trigger] picked[b] as int],
    ensures
        ({
            let r = memory_walk(titles, costs, budget, i, seen, used, picked).0;
            &&& r.len() <= titles.len()
            &&& forall|k: int| 0 <= k < r.len() ==> (#[trigger] r[k]) < titles.len()
            &&& forall|a: int, b: int|
                0 <= a < b < r.len() ==> titles[#[trigger] r[a] as int] != titles[#[trigger] r[b] as int]
        }),
    decreases titles.len() - i,
{
    if i >= titles.len() || used >= budget {
    } else if seen.contains(titles[i]) {
        lemma_memory_walk(titles, costs, budget, i + 1, seen, used, picked);
    } else {
        let p2 = picked.push(i as usize);
        let s2 = seen.insert(titles[i]);
        assert(p2[picked.len() as int] == i);
        assert forall|k: int| 0 <= k < p2.len() implies (#[trigger] p2[k]) < i + 1 && s2.contains(titles[p2[k] as int]) by {
            if k < picked.len() {
                assert(p2[k] == picked[k]);
            }
        }
        assert forall|a: int, b: int| 0 <= a < b < p2.len() implies titles[#[trigger] p2[a] as int] != titles[#[trigger] p2[b] as int] by {
            if b == picked.len() {
                assert(p2[a] == picked[a]);
                assert(seen.contains(titles[picked[a] as int]));
            } else {
                assert(p2[a] == picked[a] && p2[b] == picked[b]);
            }
        }
        lemma_memory_walk(titles, costs, budget, i + 1, s2, used + costs[i] as nat, p2);
    }
}

/// At most `n` commit lines are taken.
proof fn lemma_commit_lines_len(lines: Seq<Seq<char>>, n: nat)
    ensures
        commit_lines(lines, n).len() <= n,
    decreases lines.len(),
{
    if lines.len() == 0 || n == 0 {
    } else if lines[0].len() == 0 {
        lemma_commit_lines_len(lines.drop_first(), n);
    } else {
        lemma_commit_lines_len(lines.drop_first(), (n - 1) as nat);
    }
}

} // verus!
