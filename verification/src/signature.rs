//! Search for functions by signature: name pattern, return type, parameter
//! count and modifiers.
use vstd::prelude::*;
use crate::graph::{CodeGraph, GraphNode, NodeProps, NodeType};
use crate::engine::QueryEngine;
use crate::pattern::{CompiledPattern, regex_compiles, regex_matches};
use crate::primitives::{SignaturePattern, SymbolMatch, SymbolMatchV, opt_view};
use crate::query::{bool_or, int_or, node_symbol_info, str_or_empty, string_or_empty, symbol_info_of, first_bool};
use crate::text::{concat, decimal, decimal_string, joined, join_strings, lowercase, owned, push_char, str_eq, str_has_char, to_lower, views, chars_of};

verus! {

/// The canonical name of a primitive type alias, decided on its lower-case
/// form `lower`; any other name is returned unchanged.
pub open spec fn normalized_type(name: Seq<char>, lower: Seq<char>) -> Seq<char> {
    if lower == "boolean"@ {
        "bool"@
    } else if lower == "integer"@ || lower == "int"@ || lower == "i32"@ || lower == "i64"@ {
        "int"@
    } else if lower == "string"@ || lower == "str"@ || lower == "&str"@ {
        "string"@
    } else if lower == "void"@ || lower == "()"@ || lower == "none"@ || lower == "null"@ {
        "void"@
    } else {
        name
    }
}

/// `s` with every `*` replaced by `.*`.
pub open spec fn star_expand(s: Seq<char>) -> Seq<char>
    decreases s.len(),
{
    if s.len() == 0 {
        seq![]
    } else if s.last() == '*' {
        star_expand(s.drop_last()) + seq!['.', '*']
    } else {
        star_expand(s.drop_last()).push(s.last())
    }
}

/// The anchored regular expression for a type pattern with `*` wildcards.
pub open spec fn wildcard_pattern(expected: Seq<char>) -> Seq<char> {
    seq!['^'] + star_expand(expected) + seq!['$']
}

/// Whether an actual type matches an expected type: equal, equal after
/// normalising primitive aliases, or matched by the wildcard pattern.
pub open spec fn type_matches_spec(actual: Seq<char>, expected: Seq<char>) -> bool {
    ||| actual == expected
    ||| normalized_type(actual, lowercase(actual)) == normalized_type(expected, lowercase(expected))
    ||| (expected.contains('*') && regex_compiles(wildcard_pattern(expected)) && regex_matches(
        wildcard_pattern(expected),
        actual,
    ))
}

/// What each primitive alias (by its lower-case form) stands for.
proof fn lemma_alias_values(name: Seq<char>, lower: Seq<char>)
    ensures
        lower == "boolean"@ ==> normalized_type(name, lower) == "bool"@,
        seq!["integer"@, "int"@, "i32"@, "i64"@].contains(lower) ==> normalized_type(name, lower) == "int"@,
        seq!["string"@, "str"@, "&str"@].contains(lower) ==> normalized_type(name, lower) == "string"@,
        seq!["void"@, "()"@, "none"@, "null"@].contains(lower) ==> normalized_type(name, lower) == "void"@,
{
    reveal_strlit("boolean");
    reveal_strlit("integer");
    reveal_strlit("int");
    reveal_strlit("i32");
    reveal_strlit("i64");
    reveal_strlit("string");
    reveal_strlit("str");
    reveal_strlit("&str");
    reveal_strlit("void");
    reveal_strlit("()");
    reveal_strlit("none");
    reveal_strlit("null");
    assert("integer"@[0] != "boolean"@[0]);
    assert("str"@[0] != "int"@[0]);
    assert("str"@[0] != "i32"@[0]);
    assert("str"@[0] != "i64"@[0]);
    assert("void"@[0] != "&str"@[0]);
    assert("none"@[0] != "&str"@[0]);
    assert("null"@[0] != "&str"@[0]);
    let ints = seq!["integer"@, "int"@, "i32"@, "i64"@];
    let strs = seq!["string"@, "str"@, "&str"@];
    let voids = seq!["void"@, "()"@, "none"@, "null"@];
    if ints.contains(lower) {
        let i = choose|i: int| 0 <= i < ints.len() && ints[i] == lower;
        assert(lower == "integer"@ || lower == "int"@ || lower == "i32"@ || lower == "i64"@);
    }
    if strs.contains(lower) {
        let i = choose|i: int| 0 <= i < strs.len() && strs[i] == lower;
        assert(lower == "string"@ || lower == "str"@ || lower == "&str"@);
    }
    if voids.contains(lower) {
        let i = choose|i: int| 0 <= i < voids.len() && voids[i] == lower;
        assert(lower == "void"@ || lower == "()"@ || lower == "none"@ || lower == "null"@);
    }
}

/// Primitive type aliases match one another whatever their case: `boolean`
/// matches `boolean`; `integer`, `int`, `i32` and `i64` match one another;
/// so do `string`, `str` and `&str`; and `void`, `()`, `none` and `null`.
pub proof fn lemma_type_aliases_match(actual: Seq<char>, expected: Seq<char>)
    ensures
        lowercase(actual) == "boolean"@ && lowercase(expected) == "boolean"@ ==> type_matches_spec(actual, expected),
        seq!["integer"@, "int"@, "i32"@, "i64"@].contains(lowercase(actual)) && seq![
            "integer"@,
            "int"@,
            "i32"@,
            "i64"@,
        ].contains(lowercase(expected)) ==> type_matches_spec(actual, expected),
        seq!["string"@, "str"@, "&str"@].contains(lowercase(actual)) && seq!["string"@, "str"@, "&str"@].contains(
            lowercase(expected),
        ) ==> type_matches_spec(actual, expected),
        seq!["void"@, "()"@, "none"@, "null"@].contains(lowercase(actual)) && seq![
            "void"@,
            "()"@,
            "none"@,
            "null"@,
        ].contains(lowercase(expected)) ==> type_matches_spec(actual, expected),
{
    lemma_alias_values(actual, lowercase(actual));
    lemma_alias_values(expected, lowercase(expected));
}

/// Whether a node carries the modifier `m`.
pub open spec fn has_modifier(p: NodeProps, m: Seq<char>) -> bool {
    if m == "async"@ {
        bool_or(p.is_async, None, false)
    } else if m == "public"@ || m == "pub"@ {
        bool_or(p.is_public, p.exported, false)
    } else if m == "private"@ {
        !bool_or(p.is_public, p.exported, true)
    } else if m == "static"@ {
        bool_or(p.is_static, None, false)
    } else if m == "const"@ {
        bool_or(p.is_const, None, false)
    } else {
        false
    }
}

/// What each modifier asks of a function: `async`, `static` and `const`
/// that it is marked so; `public` (or `pub`) that it is marked public, or,
/// with no public mark, exported; `private` that it is marked not public,
/// or, with no public mark, not exported; any other modifier is never met.
/// No function is both public and private.
pub proof fn lemma_modifiers(p: NodeProps, m: Seq<char>)
    ensures
        m == "async"@ ==> (has_modifier(p, m) <==> p.is_async == Some(true)),
        m == "static"@ ==> (has_modifier(p, m) <==> p.is_static == Some(true)),
        m == "const"@ ==> (has_modifier(p, m) <==> p.is_const == Some(true)),
        m == "public"@ || m == "pub"@ ==> (has_modifier(p, m) <==> (p.is_public == Some(true) || (p.is_public is None
            && p.exported == Some(true)))),
        m == "private"@ ==> (has_modifier(p, m) <==> (p.is_public == Some(false) || (p.is_public is None
            && p.exported == Some(false)))),
        m != "async"@ && m != "static"@ && m != "const"@ && m != "public"@ && m != "pub"@ && m != "private"@
            ==> !has_modifier(p, m),
        !(has_modifier(p, "public"@) && has_modifier(p, "private"@)),
{
    reveal_strlit("async");
    reveal_strlit("static");
    reveal_strlit("const");
    reveal_strlit("public");
    reveal_strlit("pub");
    reveal_strlit("private");
    assert("async"@.len() == 5 && "static"@.len() == 6 && "const"@.len() == 5);
    assert("public"@.len() == 6 && "pub"@.len() == 3 && "private"@.len() == 7);
    assert("async"@[0] != "const"@[0]);
    assert("static"@[0] != "public"@[0]);
}

/// The parameter-count test: a function passes a range exactly when its
/// parameter count (0 where it records none) lies within it.
pub proof fn lemma_param_count(pat: SignaturePattern, p: NodeProps)
    ensures
        match (pat.param_count, p.param_count) {
            (None, _) => params_ok(pat, p),
            (Some((min, max)), Some(c)) => 0 <= c <= usize::MAX ==> (params_ok(pat, p) <==> (min <= c && c <= max)),
            (Some((min, max)), None) => params_ok(pat, p) <==> min == 0,
        },
{
}

/// The name test of a pattern: passes when there is no name pattern, when it
/// does not compile, or when it matches `name`.
pub open spec fn name_ok(pat: SignaturePattern, name: Seq<char>) -> bool {
    match pat.name_pattern {
        Some(src) => !regex_compiles(src@) || regex_matches(src@, name),
        None => true,
    }
}

/// The return-type test of a pattern.
pub open spec fn return_ok(pat: SignaturePattern, p: NodeProps) -> bool {
    match pat.return_type {
        Some(t) => type_matches_spec(str_or_empty(p.return_type), t@),
        None => true,
    }
}

/// The parameter-count test of a pattern (a missing count reads as 0).
pub open spec fn params_ok(pat: SignaturePattern, p: NodeProps) -> bool {
    match pat.param_count {
        Some((min, max)) => {
            let pc = int_or(p.param_count, None, 0) as usize;
            min <= pc && pc <= max
        },
        None => true,
    }
}

/// Whether node `n` is a function matching every part of the pattern.
pub open spec fn signature_fits(pat: SignaturePattern, n: GraphNode) -> bool {
    &&& n.node_type == NodeType::Function
    &&& name_ok(pat, str_or_empty(n.props.name))
    &&& return_ok(pat, n.props)
    &&& params_ok(pat, n.props)
    &&& forall|i: int| 0 <= i < pat.modifiers@.len() ==> has_modifier(n.props, #[trigger] pat.modifiers@[i]@)
}

/// The name part of a signature match reason.
pub open spec fn part_name(pat: SignaturePattern) -> Seq<Seq<char>> {
    match pat.name_pattern {
        Some(s) => seq!["name matches /"@ + s@ + "/"@],
        None => seq![],
    }
}

/// The return-type part of a signature match reason.
pub open spec fn part_returns(pat: SignaturePattern) -> Seq<Seq<char>> {
    match pat.return_type {
        Some(t) => seq!["returns "@ + t@],
        None => seq![],
    }
}

/// The parameter-count part of a signature match reason.
pub open spec fn part_params(pat: SignaturePattern) -> Seq<Seq<char>> {
    match pat.param_count {
        Some((a, b)) => if a == b {
            seq![decimal(a as nat) + " parameters"@]
        } else {
            seq![decimal(a as nat) + "-"@ + decimal(b as nat) + " parameters"@]
        },
        None => seq![],
    }
}

/// The modifiers part of a signature match reason.
pub open spec fn part_mods(pat: SignaturePattern) -> Seq<Seq<char>> {
    if pat.modifiers@.len() > 0 {
        seq!["modifiers: "@ + joined(views(pat.modifiers@), ", "@)]
    } else {
        seq![]
    }
}

/// The parts of a signature match reason.
pub open spec fn reason_parts(pat: SignaturePattern) -> Seq<Seq<char>> {
    part_name(pat) + part_returns(pat) + part_params(pat) + part_mods(pat)
}

/// The match reason of a signature search.
pub open spec fn signature_reason(pat: SignaturePattern) -> Seq<char> {
    if reason_parts(pat).len() == 0 {
        "Signature match"@
    } else {
        joined(reason_parts(pat), ", "@)
    }
}

/// All signature matches among `nodes`, in order.
pub open spec fn signature_hits(nodes: Seq<GraphNode>, pat: SignaturePattern) -> Seq<SymbolMatchV>
    decreases nodes.len(),
{
    if nodes.len() == 0 {
        seq![]
    } else {
        let rest = signature_hits(nodes.drop_last(), pat);
        let n = nodes.last();
        if signature_fits(pat, n) && symbol_info_of(n) is Some {
            rest.push(
                SymbolMatchV {
                    node_id: n.id,
                    symbol: symbol_info_of(n).unwrap(),
                    match_reason: signature_reason(pat),
                },
            )
        } else {
            rest
        }
    }
}

/// The first matches kept under an optional limit: the search stops once it
/// holds at least `limit` results, so a limit of 0 still keeps the first one.
pub open spec fn capped<A>(s: Seq<A>, limit: Option<usize>) -> Seq<A> {
    match limit {
        None => s,
        Some(m) => {
            let keep: int = if m == 0 { 1 } else { m as int };
            if s.len() <= keep { s } else { s.take(keep) }
        },
    }
}

/// The canonical name of a primitive type alias, given the name and its
/// lower-case form.
pub fn normalize_type_name(name: &str, lower: &str) -> (r: String)
    ensures
        r@ == normalized_type(name@, lower@),
{
    if str_eq(lower, "boolean") {
        owned("bool")
    } else if str_eq(lower, "integer") || str_eq(lower, "int") || str_eq(lower, "i32") || str_eq(
        lower,
        "i64",
    ) {
        owned("int")
    } else if str_eq(lower, "string") || str_eq(lower, "str") || str_eq(lower, "&str") {
        owned("string")
    } else if str_eq(lower, "void") || str_eq(lower, "()") || str_eq(lower, "none") || str_eq(
        lower,
        "null",
    ) {
        owned("void")
    } else {
        owned(name)
    }
}

/// The anchored regular expression for a type pattern: `^`, the pattern with
/// each `*` widened to `.*`, then `$`.
pub fn wildcard_regex(expected: &str) -> (r: String)
    ensures
        r@ == wildcard_pattern(expected@),
{
    let cs = chars_of(expected);
    let mut r = String::new();
    push_char(&mut r, '^');
    let mut i: usize = 0;
    while i < cs.len()
        invariant
            i <= cs@.len(),
            cs@ == expected@,
            r@ == seq!['^'] + star_expand(cs@.take(i as int)),
        decreases cs@.len() - i,
    {
        let c = cs[i];
        proof {
            assert(cs@.take(i + 1).drop_last() =~= cs@.take(i as int));
            assert(cs@.take(i + 1).last() == c);
        }
        if c == '*' {
            push_char(&mut r, '.');
            push_char(&mut r, '*');
            proof {
                assert(r@ =~= seq!['^'] + star_expand(cs@.take(i + 1)));
            }
        } else {
            push_char(&mut r, c);
            proof {
                assert(r@ =~= seq!['^'] + star_expand(cs@.take(i + 1)));
            }
        }
        i = i + 1;
    }
    push_char(&mut r, '$');
    proof {
        assert(cs@.take(i as int) =~= cs@);
        assert(r@ =~= wildcard_pattern(expected@));
    }
    r
}

/// Whether `actual` matches the expected type `expected`.
pub fn type_matches(actual: &str, expected: &str) -> (r: bool)
    ensures
        r == type_matches_spec(actual@, expected@),
{
    if str_eq(actual, expected) {
        return true;
    }
    let actual_lower = to_lower(actual);
    let expected_lower = to_lower(expected);
    let a = normalize_type_name(actual, actual_lower.as_str());
    let e = normalize_type_name(expected, expected_lower.as_str());
    if str_eq(a.as_str(), e.as_str()) {
        return true;
    }
    if str_has_char(expected, '*') {
        let pattern = wildcard_regex(expected);
        match CompiledPattern::compile(pattern.as_str()) {
            Some(re) => {
                return re.is_match(actual);
            },
            None => {},
        }
    }
    false
}

/// Whether a node's properties carry the modifier `m`.
pub fn node_has_modifier(p: &NodeProps, m: &str) -> (r: bool)
    ensures
        r == has_modifier(*p, m@),
{
    if str_eq(m, "async") {
        first_bool(p.is_async, None, false)
    } else if str_eq(m, "public") || str_eq(m, "pub") {
        first_bool(p.is_public, p.exported, false)
    } else if str_eq(m, "private") {
        !first_bool(p.is_public, p.exported, true)
    } else if str_eq(m, "static") {
        first_bool(p.is_static, None, false)
    } else if str_eq(m, "const") {
        first_bool(p.is_const, None, false)
    } else {
        false
    }
}

/// A human-readable reason for a signature match.
pub fn build_signature_match_reason(pattern: &SignaturePattern) -> (r: String)
    ensures
        r@ == signature_reason(*pattern),
{
    let mut parts: Vec<String> = Vec::new();
    match &pattern.name_pattern {
        Some(s) => {
            let t = concat("name matches /", s.as_str());
            let u = concat(t.as_str(), "/");
            parts.push(u);
        },
        None => {},
    }
    assert(views(parts@) =~= part_name(*pattern));
    match &pattern.return_type {
        Some(t) => {
            let u = concat("returns ", t.as_str());
            let ghost before = views(parts@);
            parts.push(u);
            assert(views(parts@) =~= before.push(u@));
        },
        None => {},
    }
    assert(views(parts@) =~= part_name(*pattern) + part_returns(*pattern));
    match pattern.param_count {
        Some((a, b)) => {
            let da = decimal_string(a as u64);
            let u = if a == b {
                concat(da.as_str(), " parameters")
            } else {
                let db = decimal_string(b as u64);
                let t = concat(da.as_str(), "-");
                let t2 = concat(t.as_str(), db.as_str());
                concat(t2.as_str(), " parameters")
            };
            let ghost before = views(parts@);
            parts.push(u);
            assert(views(parts@) =~= before.push(u@));
        },
        None => {},
    }
    assert(views(parts@) =~= part_name(*pattern) + part_returns(*pattern) + part_params(*pattern));
    if pattern.modifiers.len() > 0 {
        let mods = join_strings(&pattern.modifiers, ", ");
        let u = concat("modifiers: ", mods.as_str());
        let ghost before = views(parts@);
        parts.push(u);
        assert(views(parts@) =~= before.push(u@));
    }
    assert(views(parts@) =~= reason_parts(*pattern));
    if parts.len() == 0 {
        owned("Signature match")
    } else {
        join_strings(&parts, ", ")
    }
}

/// Whether node `n` fits the pattern, with the name pattern already compiled.
fn node_fits(n: &GraphNode, pattern: &SignaturePattern, name_regex: &Option<CompiledPattern>) -> (r: bool)
    requires
        match pattern.name_pattern {
            Some(src) => match *name_regex {
                Some(c) => regex_compiles(src@) && c.source() == src@,
                None => !regex_compiles(src@),
            },
            None => name_regex is None,
        },
    ensures
        r == signature_fits(*pattern, *n),
{
    if n.node_type != NodeType::Function {
        return false;
    }
    let name = string_or_empty(&n.props.name);
    match name_regex {
        Some(re) => {
            if !re.is_match(name.as_str()) {
                return false;
            }
        },
        None => {},
    }
    match &pattern.return_type {
        Some(expected) => {
            let actual = string_or_empty(&n.props.return_type);
            if !type_matches(actual.as_str(), expected.as_str()) {
                return false;
            }
        },
        None => {},
    }
    match pattern.param_count {
        Some((min, max)) => {
            let pc = int_param_count(&n.props);
            if pc < min || pc > max {
                return false;
            }
        },
        None => {},
    }
    let mut i: usize = 0;
    while i < pattern.modifiers.len()
        invariant
            i <= pattern.modifiers@.len(),
            forall|k: int| 0 <= k < i ==> has_modifier(n.props, #[trigger] pattern.modifiers@[k]@),
        decreases pattern.modifiers@.len() - i,
    {
        if !node_has_modifier(&n.props, pattern.modifiers[i].as_str()) {
            return false;
        }
        i = i + 1;
    }
    true
}

/// The parameter count of a node as the search reads it.
fn int_param_count(p: &NodeProps) -> (r: usize)
    ensures
        r == int_or(p.param_count, None, 0) as usize,
{
    let c: i64 = match p.param_count {
        Some(c) => c,
        None => 0,
    };
    c as usize
}

impl QueryEngine {
    /// Functions whose signature fits `pattern`, in node order, with the
    /// pattern's match reason; the search stops once `limit` results are held.
    pub fn find_by_signature(&self, pattern: &SignaturePattern, limit: Option<usize>) -> (r: Vec<
        SymbolMatch,
    >)
        requires
            self.wf(),
        ensures
            r@.map_values(|m: SymbolMatch| m@) == capped(signature_hits(self.graph.nodes@, *pattern), limit),
    {
        let name_regex: Option<CompiledPattern> = match &pattern.name_pattern {
            Some(p) => CompiledPattern::compile(p.as_str()),
            None => None,
        };
        let reason = build_signature_match_reason(pattern);
        let ghost fv = |m: SymbolMatch| m@;
        let ghost nodes = self.graph.nodes@;
        let mut r: Vec<SymbolMatch> = Vec::new();
        let mut i: usize = 0;
        while i < self.graph.nodes.len()
            invariant
                i <= nodes.len(),
                nodes == self.graph.nodes@,
                fv == (|m: SymbolMatch| m@),
                reason@ == signature_reason(*pattern),
                match pattern.name_pattern {
                    Some(src) => match name_regex {
                        Some(c) => regex_compiles(src@) && c.source() == src@,
                        None => !regex_compiles(src@),
                    },
                    None => name_regex is None,
                },
                r@.map_values(fv) == signature_hits(nodes.take(i as int), *pattern),
                limit matches Some(m) ==> r@.len() < (if m == 0 { 1 } else { m as int }),
            decreases nodes.len() - i,
        {
            let n = &self.graph.nodes[i];
            proof {
                assert(nodes.take(i + 1).drop_last() =~= nodes.take(i as int));
                assert(nodes.take(i + 1).last() == *n);
            }
            if node_fits(n, pattern, &name_regex) {
                match node_symbol_info(n) {
                    Some(symbol) => {
                        let m = SymbolMatch { node_id: n.id, symbol, match_reason: reason.clone() };
                        let ghost r0 = r@;
                        r.push(m);
                        proof {
                            assert(r@.map_values(fv) =~= r0.map_values(fv).push(m@));
                        }
                        match limit {
                            Some(max) => {
                                if r.len() >= max {
                                    proof {
                                        let hits = signature_hits(nodes, *pattern);
                                        lemma_hits_prefix(nodes, *pattern, i + 1);
                                        assert(hits.take(r@.len() as int) =~= r@.map_values(fv));
                                    }
                                    return r;
                                }
                            },
                            None => {},
                        }
                    },
                    None => {},
                }
            }
            i = i + 1;
        }
        proof {
            assert(nodes.take(i as int) =~= nodes);
        }
        r
    }
}

/// The hits of a prefix are a prefix of the hits.
pub proof fn lemma_hits_prefix(nodes: Seq<GraphNode>, pat: SignaturePattern, j: int)
    requires
        0 <= j <= nodes.len(),
    ensures
        signature_hits(nodes.take(j), pat).len() <= signature_hits(nodes, pat).len(),
        signature_hits(nodes, pat).take(signature_hits(nodes.take(j), pat).len() as int)
            == signature_hits(nodes.take(j), pat),
    decreases nodes.len() - j,
{
    if j < nodes.len() {
        lemma_hits_prefix(nodes, pat, j + 1);
        let a = signature_hits(nodes.take(j), pat);
        let b = signature_hits(nodes.take(j + 1), pat);
        assert(nodes.take(j + 1).drop_last() =~= nodes.take(j));
        let h = signature_hits(nodes, pat);
        assert(b == a || b == a.push(b.last()));
        assert(h.take(a.len() as int) =~= b.take(a.len() as int));
    } else {
        assert(nodes.take(j) =~= nodes);
    }
}

/// The hits of a signature search are nodes that fit the pattern, in
/// increasing id order when the nodes' ids increase, and every fitting node
/// with a name is among them.
proof fn lemma_hits_shape(nodes: Seq<GraphNode>, pat: SignaturePattern)
    requires
        forall|a: int, b: int| 0 <= a < b < nodes.len() ==> (#[trigger] nodes[a]).id < (#[trigger] nodes[b]).id,
    ensures
        ({
            let h = signature_hits(nodes, pat);
            &&& forall|k: int|
                0 <= k < h.len() ==> exists|i: int|
                    0 <= i < nodes.len() && (#[trigger] nodes[i]).id == (#[trigger] h[k]).node_id && signature_fits(
                        pat,
                        nodes[i],
                    )
            &&& forall|a: int, b: int| 0 <= a < b < h.len() ==> (#[trigger] h[a]).node_id < (#[trigger] h[b]).node_id
            &&& forall|i: int|
                0 <= i < nodes.len() && signature_fits(pat, #[trigger] nodes[i]) && symbol_info_of(nodes[i]) is Some
                    ==> exists|k: int| 0 <= k < h.len() && (#[trigger] h[k]).node_id == nodes[i].id
        }),
    decreases nodes.len(),
{
    if nodes.len() > 0 {
        let d = nodes.drop_last();
        assert forall|a: int, b: int| 0 <= a < b < d.len() implies (#[trigger] d[a]).id < (#[trigger] d[b]).id by {
            assert(d[a] == nodes[a] && d[b] == nodes[b]);
        }
        lemma_hits_shape(d, pat);
        let rest = signature_hits(d, pat);
        let n = nodes.last();
        let h = signature_hits(nodes, pat);
        assert forall|k: int| 0 <= k < rest.len() implies exists|i: int| 0 <= i < nodes.len() && (#[trigger] nodes[i]).id
            == (#[trigger] rest[k]).node_id && signature_fits(pat, nodes[i]) by {
            let i = choose|i: int| 0 <= i < d.len() && (#[trigger] d[i]).id == (#[trigger] rest[k]).node_id && signature_fits(pat, d[i]);
            assert(nodes[i] == d[i]);
        }
        assert forall|k: int| 0 <= k < rest.len() implies (#[trigger] rest[k]).node_id < n.id by {
            let i = choose|i: int| 0 <= i < d.len() && (#[trigger] d[i]).id == (#[trigger] rest[k]).node_id && signature_fits(pat, d[i]);
            assert(nodes[i] == d[i]);
            assert(nodes[i].id < nodes[nodes.len() - 1].id);
        }
        if signature_fits(pat, n) && symbol_info_of(n) is Some {
            assert(h[rest.len() as int].node_id == n.id);
            assert forall|k: int| 0 <= k < h.len() implies exists|i: int| 0 <= i < nodes.len() && (#[trigger] nodes[i]).id
                == (#[trigger] h[k]).node_id && signature_fits(pat, nodes[i]) by {
                if k < rest.len() {
                    assert(h[k] == rest[k]);
                } else {
                    assert(nodes[nodes.len() - 1].id == h[k].node_id);
                }
            }
            assert forall|i: int| 0 <= i < nodes.len() && signature_fits(pat, #[trigger] nodes[i]) && symbol_info_of(
                nodes[i],
            ) is Some implies exists|k: int| 0 <= k < h.len() && (#[trigger] h[k]).node_id == nodes[i].id by {
                if i < d.len() {
                    assert(d[i] == nodes[i]);
                    let k = choose|k: int| 0 <= k < rest.len() && (#[trigger] rest[k]).node_id == d[i].id;
                    assert(h[k] == rest[k]);
                } else {
                    assert(h[rest.len() as int].node_id == nodes[i].id);
                }
            }
        } else {
            assert forall|i: int| 0 <= i < nodes.len() && signature_fits(pat, #[trigger] nodes[i]) && symbol_info_of(
                nodes[i],
            ) is Some implies exists|k: int| 0 <= k < h.len() && (#[trigger] h[k]).node_id == nodes[i].id by {
                assert(i < d.len());
                assert(d[i] == nodes[i]);
            }
        }
    }
}

/// A signature search of a well-formed graph finds only functions that fit
/// the pattern, each once; with no limit it finds every fitting function
/// that has a name, and with a limit of at least one it holds no more
/// results than the limit.
pub proof fn lemma_signature_search(g: CodeGraph, pat: SignaturePattern, limit: Option<usize>, r: Seq<SymbolMatchV>)
    requires
        g.wf(),
        r == capped(signature_hits(g.nodes@, pat), limit),
    ensures
        forall|k: int|
            0 <= k < r.len() ==> exists|i: int|
                0 <= i < g.nodes@.len() && (#[trigger] g.nodes@[i]).id == (#[trigger] r[k]).node_id && signature_fits(
                    pat,
                    g.nodes@[i],
                ),
        forall|a: int, b: int| 0 <= a < b < r.len() ==> (#[trigger] r[a]).node_id != (#[trigger] r[b]).node_id,
        limit is None ==> forall|i: int|
            0 <= i < g.nodes@.len() && signature_fits(pat, #[trigger] g.nodes@[i]) && symbol_info_of(g.nodes@[i]) is Some
                ==> exists|k: int| 0 <= k < r.len() && (#[trigger] r[k]).node_id == g.nodes@[i].id,
        forall|m: usize| limit == Some(m) && m >= 1 ==> r.len() <= m,
{
    let nodes = g.nodes@;
    lemma_hits_shape(nodes, pat);
    let h = signature_hits(nodes, pat);
    assert forall|k: int| 0 <= k < r.len() implies r[k] == h[k] by {
    }
    assert forall|k: int| 0 <= k < r.len() implies exists|i: int|
        0 <= i < nodes.len() && (#[trigger] nodes[i]).id == (#[trigger] r[k]).node_id && signature_fits(pat, nodes[i]) by {
        assert(r[k] == h[k]);
    }
    assert forall|a: int, b: int| 0 <= a < b < r.len() implies (#[trigger] r[a]).node_id != (#[trigger] r[b]).node_id by {
        assert(r[a] == h[a] && r[b] == h[b]);
    }
}

} // verus!
