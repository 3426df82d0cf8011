//! Where a node's source text comes from, and the lines of a file that a
//! node spans.
use vstd::prelude::*;
use crate::analysis::{file_for_node, file_lookup};
use crate::graph::CodeGraph;
use crate::query::int_or;
use crate::text::{join_strings, joined, lines_of_text, text_lines, views};

verus! {

/// Where to find a node's source.
#[derive(Clone, Debug)]
pub enum SourceLookup {
    /// The node records its source.
    Inline(String),
    /// Lines `start` to `end` (1-based, inclusive) of the file at `path`.
    File { path: String, start: usize, end: usize },
    /// No source and no file is known.
    Missing,
}

/// Where the source of node `id` is to be found, none where the node is
/// absent: its `source` property; else its file (its `path`, else the
/// symbol index's entry) from its first line (`line_start`, else
/// `start_line`, else 1) to its last (`line_end`, else `end_line`, else the
/// first), the numbers taken as `usize`; else nowhere.
pub fn source_lookup(g: &CodeGraph, id: u64, files: &Vec<(u64, String)>) -> (r: Option<SourceLookup>)
    requires
        g.wf(),
    ensures
        r is None <==> !g.has_node(id),
        r matches Some(l) ==> {
            let p = g.node(id).props;
            let start = int_or(p.line_start, p.start_line, 1);
            let end = int_or(p.line_end, p.end_line, start);
            match p.source {
                Some(s) => l matches SourceLookup::Inline(x) && x@ == s@,
                None => match p.path {
                    Some(f) => l matches SourceLookup::File { path, start: a, end: b } && path@ == f@ && a == start as usize
                        && b == end as usize,
                    None => match file_lookup(files@, id) {
                        Some(f) => l matches SourceLookup::File { path, start: a, end: b } && path@ == f && a
                            == start as usize && b == end as usize,
                        None => l is Missing,
                    },
                },
            }
        },
{
    let n = match g.get_node(id) {
        Some(n) => n,
        None => {
            return None;
        },
    };
    if let Some(s) = &n.props.source {
        return Some(SourceLookup::Inline(s.clone()));
    }
    let path = match &n.props.path {
        Some(p) => p.clone(),
        None => match file_for_node(files, id) {
            Some(f) => f,
            None => {
                return Some(SourceLookup::Missing);
            },
        },
    };
    let start: i64 = match n.props.line_start {
        Some(x) => x,
        None => match n.props.start_line {
            Some(y) => y,
            None => 1,
        },
    };
    let end: i64 = match n.props.line_end {
        Some(x) => x,
        None => match n.props.end_line {
            Some(y) => y,
            None => start,
        },
    };
    Some(SourceLookup::File { path, start: start as usize, end: end as usize })
}

/// Lines `start` to `end` (1-based, inclusive) of `content` joined by
/// newlines; none unless `start` is positive, `end` within the text and the
/// range not inverted by more than one line.
pub fn source_excerpt(content: &str, start: usize, end: usize) -> (r: Option<String>)
    ensures
        match r {
            Some(s) => start > 0 && end <= text_lines(content@).len() && start - 1 <= end && s@ == joined(
                text_lines(content@).subrange(start - 1, end as int),
                "\n"@,
            ),
            None => !(start > 0 && end <= text_lines(content@).len() && start - 1 <= end),
        },
{
    let lines = lines_of_text(content);
    if start > 0 && end <= lines.len() && start - 1 <= end {
        let mut part: Vec<String> = Vec::new();
        let mut i: usize = start - 1;
        while i < end
            invariant
                start > 0,
                start - 1 <= i <= end <= lines@.len(),
                views(part@) == views(lines@).subrange(start - 1, i as int),
            decreases end - i,
        {
            let ghost pb = part@;
            part.push(lines[i].clone());
            proof {
                let vl = views(lines@);
                assert(vl.len() == lines@.len());
                assert(vl[i as int] == lines@[i as int]@);
                assert(views(part@) =~= views(pb).push(lines@[i as int]@));
                assert(vl.subrange(start - 1, i + 1) =~= vl.subrange(start - 1, i as int).push(vl[i as int]));
            }
            i = i + 1;
        }
        proof {
            assert(i == end);
        }
        Some(join_strings(&part, "\n"))
    } else {
        None
    }
}

} // verus!
