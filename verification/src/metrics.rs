//! Grades and labels of the code metrics reports.
use vstd::prelude::*;
use crate::graph::NodeType;
use crate::text::owned;

verus! {

/// The letter grade of a cyclomatic complexity: A up to 5, B up to 10, C up
/// to 20, D up to 50, F above.
pub open spec fn grade_of(complexity: u32) -> char {
    if complexity <= 5 {
        'A'
    } else if complexity <= 10 {
        'B'
    } else if complexity <= 20 {
        'C'
    } else if complexity <= 50 {
        'D'
    } else {
        'F'
    }
}

/// The letter grade of a cyclomatic complexity.
pub fn complexity_grade(complexity: u32) -> (r: char)
    ensures
        r == grade_of(complexity),
{
    if complexity <= 5 {
        'A'
    } else if complexity <= 10 {
        'B'
    } else if complexity <= 20 {
        'C'
    } else if complexity <= 50 {
        'D'
    } else {
        'F'
    }
}

/// Grades never improve as complexity grows.
pub proof fn lemma_grade_monotonic(a: u32, b: u32)
    requires
        a <= b,
    ensures
        grade_rank(grade_of(a)) <= grade_rank(grade_of(b)),
{
}

/// The grade bands of cyclomatic complexity: A for 0 to 5, B for 6 to 10,
/// C for 11 to 20, D for 21 to 50, F above 50.
pub proof fn lemma_grade_bands(c: u32)
    ensures
        c <= 5 ==> grade_of(c) == 'A',
        6 <= c <= 10 ==> grade_of(c) == 'B',
        11 <= c <= 20 ==> grade_of(c) == 'C',
        21 <= c <= 50 ==> grade_of(c) == 'D',
        c > 50 ==> grade_of(c) == 'F',
{
}

/// The position of a grade from best (0) to worst (4).
pub open spec fn grade_rank(c: char) -> int {
    if c == 'A' {
        0
    } else if c == 'B' {
        1
    } else if c == 'C' {
        2
    } else if c == 'D' {
        3
    } else {
        4
    }
}

/// The kind of item an unused-code report gives a node type.
pub open spec fn unused_item_type_of(t: NodeType) -> Seq<char> {
    match t {
        NodeType::Function => "function"@,
        NodeType::Class => "class"@,
        NodeType::Variable => "variable"@,
        _ => "type"@,
    }
}

/// An unused function, class or variable is reported under its node type's
/// lower-case name; every other kind of node as a type.
pub proof fn lemma_unused_item_types(t: NodeType)
    ensures
        t == NodeType::Function || t == NodeType::Class || t == NodeType::Variable ==> unused_item_type_of(t)
            == crate::analysis::lower_type_name(t),
        t != NodeType::Function && t != NodeType::Class && t != NodeType::Variable ==> unused_item_type_of(t)
            == "type"@,
{
}

/// The kind of item an unused-code report gives a node type.
pub fn unused_item_type(t: NodeType) -> (r: String)
    ensures
        r@ == unused_item_type_of(t),
{
    match t {
        NodeType::Function => owned("function"),
        NodeType::Class => owned("class"),
        NodeType::Variable => owned("variable"),
        _ => owned("type"),
    }
}

/// Why an unused item is reported, by whether it is exported.
pub fn unused_reason(is_public: bool) -> (r: String)
    ensures
        is_public ==> r@ == "Exported but no internal callers or importers found"@,
        !is_public ==> r@ == "No callers or importers found in codebase"@,
{
    if is_public {
        owned("Exported but no internal callers or importers found")
    } else {
        owned("No callers or importers found in codebase")
    }
}

/// The lines an unused item spans: `line_end - line_start + 1`, with the
/// difference floored at 0 and the sum wrapping at 2^32.
pub fn unused_lines(line_start: u32, line_end: u32) -> (r: u32)
    ensures
        r == line_end.saturating_sub(line_start).wrapping_add(1),
{
    line_end.saturating_sub(line_start).wrapping_add(1)
}

/// Unused items counted by kind.
#[derive(Clone, Copy, Debug, PartialEq, Eq, Structural)]
pub struct UnusedByType {
    pub functions: u32,
    pub classes: u32,
    pub imports: u32,
    pub variables: u32,
}

/// The summary of an unused-code report.
#[derive(Clone, Copy, Debug, PartialEq, Eq, Structural)]
pub struct UnusedSummary {
    pub total_items: u32,
    pub by_type: UnusedByType,
    pub safe_deletions: u32,
    pub estimated_lines_removable: u32,
}

/// How many of `kinds` are `t`.
pub open spec fn count_kind(kinds: Seq<NodeType>, t: NodeType) -> nat
    decreases kinds.len(),
{
    if kinds.len() == 0 {
        0
    } else {
        count_kind(kinds.drop_last(), t) + if kinds.last() == t { 1nat } else { 0nat }
    }
}

/// How many of `flags` are set.
pub open spec fn count_set(flags: Seq<bool>) -> nat
    decreases flags.len(),
{
    if flags.len() == 0 {
        0
    } else {
        count_set(flags.drop_last()) + if flags.last() { 1nat } else { 0nat }
    }
}

/// The lines of the items whose flag is set, summed.
pub open spec fn lines_where(flags: Seq<bool>, lines: Seq<u32>) -> nat
    decreases flags.len(),
{
    if flags.len() == 0 {
        0
    } else {
        lines_where(flags.drop_last(), lines.drop_last()) + if flags.last() { lines.last() as nat } else { 0nat }
    }
}

/// A prefix sums to no more than the whole.
proof fn lemma_lines_where_prefix(flags: Seq<bool>, lines: Seq<u32>, i: int, j: int)
    requires
        0 <= i <= j <= flags.len(),
        flags.len() == lines.len(),
    ensures
        lines_where(flags.take(i), lines.take(i)) <= lines_where(flags.take(j), lines.take(j)),
    decreases j - i,
{
    if i < j {
        lemma_lines_where_prefix(flags, lines, i, j - 1);
        assert(flags.take(j).drop_last() =~= flags.take(j - 1));
        assert(lines.take(j).drop_last() =~= lines.take(j - 1));
    }
}

/// The summary of the reported unused items, each given by its node type,
/// whether it is safe to remove, whether its confidence is high (above
/// 0.8), and the lines it spans: functions and classes counted (imports and
/// variables never are), the safe ones counted (modulo 2^32), and the lines
/// of the confident ones summed.
pub fn unused_summary(kinds: &Vec<NodeType>, safe: &Vec<bool>, confident: &Vec<bool>, lines: &Vec<u32>) -> (r: UnusedSummary)
    requires
        safe@.len() == kinds@.len(),
        confident@.len() == kinds@.len(),
        lines@.len() == kinds@.len(),
        count_kind(kinds@, NodeType::Function) + count_kind(kinds@, NodeType::Class) <= u32::MAX,
        lines_where(confident@, lines@) <= u32::MAX,
    ensures
        r.by_type.functions == count_kind(kinds@, NodeType::Function),
        r.by_type.classes == count_kind(kinds@, NodeType::Class),
        r.by_type.imports == 0,
        r.by_type.variables == 0,
        r.total_items == count_kind(kinds@, NodeType::Function) + count_kind(kinds@, NodeType::Class),
        r.safe_deletions == count_set(safe@) as u32,
        r.estimated_lines_removable == lines_where(confident@, lines@),
{
    let mut functions: u32 = 0;
    let mut classes: u32 = 0;
    let mut safe_count: usize = 0;
    let mut total_lines: u32 = 0;
    let mut i: usize = 0;
    while i < kinds.len()
        invariant
            i <= kinds@.len(),
            safe@.len() == kinds@.len(),
            confident@.len() == kinds@.len(),
            lines@.len() == kinds@.len(),
            count_kind(kinds@, NodeType::Function) + count_kind(kinds@, NodeType::Class) <= u32::MAX,
            lines_where(confident@, lines@) <= u32::MAX,
            functions == count_kind(kinds@.take(i as int), NodeType::Function),
            classes == count_kind(kinds@.take(i as int), NodeType::Class),
            safe_count == count_set(safe@.take(i as int)),
            safe_count <= i,
            total_lines == lines_where(confident@.take(i as int), lines@.take(i as int)),
        decreases kinds@.len() - i,
    {
        proof {
            assert(kinds@.take(i + 1).drop_last() =~= kinds@.take(i as int));
            assert(safe@.take(i + 1).drop_last() =~= safe@.take(i as int));
            assert(confident@.take(i + 1).drop_last() =~= confident@.take(i as int));
            assert(lines@.take(i + 1).drop_last() =~= lines@.take(i as int));
            lemma_count_kind_prefix(kinds@, i + 1);
            lemma_lines_where_prefix(confident@, lines@, i + 1, kinds@.len() as int);
            assert(confident@.take(kinds@.len() as int) =~= confident@);
            assert(lines@.take(kinds@.len() as int) =~= lines@);
        }
        match kinds[i] {
            NodeType::Function => {
                functions = functions + 1;
            },
            NodeType::Class => {
                classes = classes + 1;
            },
            _ => {},
        }
        if safe[i] {
            safe_count = safe_count + 1;
        }
        if confident[i] {
            total_lines = total_lines + lines[i];
        }
        i = i + 1;
    }
    proof {
        assert(kinds@.take(i as int) =~= kinds@);
        assert(safe@.take(i as int) =~= safe@);
        assert(confident@.take(i as int) =~= confident@);
        assert(lines@.take(i as int) =~= lines@);
    }
    UnusedSummary {
        total_items: functions + classes,
        by_type: UnusedByType { functions, classes, imports: 0, variables: 0 },
        safe_deletions: safe_count as u32,
        estimated_lines_removable: total_lines,
    }
}

/// Counts over a prefix never exceed those over a longer one.
proof fn lemma_count_kind_prefix(kinds: Seq<NodeType>, j: int)
    requires
        0 <= j <= kinds.len(),
    ensures
        count_kind(kinds.take(j), NodeType::Function) + count_kind(kinds.take(j), NodeType::Class) <= count_kind(
            kinds,
            NodeType::Function,
        ) + count_kind(kinds, NodeType::Class),
    decreases kinds.len() - j,
{
    if j < kinds.len() {
        lemma_count_kind_prefix(kinds, j + 1);
        assert(kinds.take(j + 1).drop_last() =~= kinds.take(j));
    } else {
        assert(kinds.take(j) =~= kinds);
    }
}

/// A request for parser metrics, of one language or of all.
#[derive(Clone, Debug)]
pub struct ParserMetricsParams {
    pub language: Option<String>,
}

/// What one language's parser has done.
#[derive(Clone, Debug)]
pub struct ParserMetric {
    pub language: String,
    pub files_attempted: usize,
    pub files_succeeded: usize,
    pub files_failed: usize,
    pub total_entities: usize,
    pub total_relationships: usize,
    pub total_parse_time_ms: u64,
    pub avg_parse_time_ms: u64,
}

/// Whether the metrics of `language` are asked for: all are when no
/// language is named.
pub fn metric_wanted(params: &ParserMetricsParams, language: &str) -> (r: bool)
    ensures
        r == match params.language {
            None => true,
            Some(l) => l@ == language@,
        },
{
    match &params.language {
        None => true,
        Some(l) => crate::text::str_eq(l.as_str(), language),
    }
}

/// The metric of a language's parser: its counts and total time as given,
/// and the average time per file parsed (0 when none was).
pub fn parser_metric(
    language: &str,
    files_attempted: usize,
    files_succeeded: usize,
    files_failed: usize,
    total_entities: usize,
    total_relationships: usize,
    total_parse_time_ms: u64,
) -> (r: ParserMetric)
    ensures
        r.language@ == language@,
        r.files_attempted == files_attempted,
        r.files_succeeded == files_succeeded,
        r.files_failed == files_failed,
        r.total_entities == total_entities,
        r.total_relationships == total_relationships,
        r.total_parse_time_ms == total_parse_time_ms,
        r.avg_parse_time_ms == (if files_succeeded > 0 { total_parse_time_ms / (files_succeeded as u64) } else { 0 }),
{
    let avg: u64 = if files_succeeded > 0 {
        total_parse_time_ms / (files_succeeded as u64)
    } else {
        0
    };
    ParserMetric {
        language: owned(language),
        files_attempted,
        files_succeeded,
        files_failed,
        total_entities,
        total_relationships,
        total_parse_time_ms,
        avg_parse_time_ms: avg,
    }
}

} // verus!
