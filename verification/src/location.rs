//! The function a similarity or comparison request points at: given by id, or
//! found as the smallest function spanning a line of a document.
use vstd::prelude::*;
use crate::graph::{CodeGraph, GraphNode, NodeType};
use crate::navigation::{end_line_of, get_line_end, get_line_start, start_line_of};
use crate::query::{str_or_empty, string_or_empty};
use crate::text::{chars_of, owned, parse_u64, parsed_u64, push_char, seq_ends_with, seq_starts_with, str_ends_with, str_starts_with};

verus! {

/// The document path a location URI names: what follows `file://`, or the
/// whole text where it has no such prefix.
pub open spec fn location_path(uri: Seq<char>) -> Seq<char> {
    if seq_starts_with(uri, "file://"@) {
        uri.skip(7)
    } else {
        uri
    }
}

/// `n` is a function of the document `path` (either path ends with the
/// other) whose lines span `line`.
pub open spec fn spans_line(n: GraphNode, path: Seq<char>, line: u32) -> bool {
    let np = str_or_empty(n.props.path);
    &&& n.node_type == NodeType::Function
    &&& (seq_ends_with(np, path) || seq_ends_with(path, np))
    &&& start_line_of(n.props) <= line
    &&& line <= end_line_of(n.props, 0)
}

/// The number of lines a node spans beyond its first.
pub open spec fn line_span(n: GraphNode) -> int {
    end_line_of(n.props, 0) - start_line_of(n.props)
}

/// The first of the smallest functions of `nodes` that span `line` of the
/// document `path`.
pub open spec fn smallest_spanning(nodes: Seq<GraphNode>, path: Seq<char>, line: u32) -> Option<GraphNode>
    decreases nodes.len(),
{
    if nodes.len() == 0 {
        None
    } else {
        let best = smallest_spanning(nodes.drop_last(), path, line);
        let n = nodes.last();
        if spans_line(n, path, line) && (best matches Some(b) ==> line_span(n) < line_span(b)) {
            Some(n)
        } else {
            best
        }
    }
}

/// The function picked at a line spans it, and no function spanning it has
/// fewer lines, nor as few lines and an earlier place; none is picked only
/// where no function spans the line.
pub proof fn lemma_smallest_spanning(nodes: Seq<GraphNode>, path: Seq<char>, line: u32)
    ensures
        match smallest_spanning(nodes, path, line) {
            None => forall|k: int| 0 <= k < nodes.len() ==> !spans_line(#[trigger] nodes[k], path, line),
            Some(b) => exists|j: int|
                0 <= j < nodes.len() && #[trigger] nodes[j] == b && spans_line(b, path, line) && forall|k: int|
                    0 <= k < nodes.len() && spans_line(#[trigger] nodes[k], path, line) ==> line_span(b)
                        <= line_span(nodes[k]) && (k < j ==> line_span(b) < line_span(nodes[k])),
        },
    decreases nodes.len(),
{
    if nodes.len() > 0 {
        let pre = nodes.drop_last();
        lemma_smallest_spanning(pre, path, line);
        let last = nodes.len() - 1;
        assert forall|k: int| 0 <= k < pre.len() implies #[trigger] pre[k] == nodes[k] by {}
        match smallest_spanning(pre, path, line) {
            None => {
                if spans_line(nodes.last(), path, line) {
                    assert(nodes[last] == nodes.last());
                    assert forall|k: int|
                        0 <= k < nodes.len() && spans_line(#[trigger] nodes[k], path, line) implies line_span(nodes.last())
                            <= line_span(nodes[k]) && (k < last ==> line_span(nodes.last()) < line_span(nodes[k])) by {
                        if k < last {
                            assert(pre[k] == nodes[k]);
                        }
                    }
                } else {
                    assert forall|k: int| 0 <= k < nodes.len() implies !spans_line(#[trigger] nodes[k], path, line) by {
                        if k < last {
                            assert(pre[k] == nodes[k]);
                        }
                    }
                }
            },
            Some(b) => {
                let j = choose|j: int|
                    0 <= j < pre.len() && #[trigger] pre[j] == b && spans_line(b, path, line) && forall|k: int|
                        0 <= k < pre.len() && spans_line(#[trigger] pre[k], path, line) ==> line_span(b)
                            <= line_span(pre[k]) && (k < j ==> line_span(b) < line_span(pre[k]));
                if spans_line(nodes.last(), path, line) && line_span(nodes.last()) < line_span(b) {
                    assert(nodes[last] == nodes.last());
                    assert forall|k: int|
                        0 <= k < nodes.len() && spans_line(#[trigger] nodes[k], path, line) implies line_span(nodes.last())
                            <= line_span(nodes[k]) && (k < last ==> line_span(nodes.last()) < line_span(nodes[k])) by {
                        if k < last {
                            assert(pre[k] == nodes[k]);
                        }
                    }
                } else {
                    assert(nodes[j] == b);
                    assert forall|k: int|
                        0 <= k < nodes.len() && spans_line(#[trigger] nodes[k], path, line) implies line_span(b)
                            <= line_span(nodes[k]) && (k < j ==> line_span(b) < line_span(nodes[k])) by {
                        if k < last {
                            assert(pre[k] == nodes[k]);
                        }
                    }
                }
            },
        }
    }
}

/// What the first `k` characters of `v` leave: the rest, as a string.
fn chars_after(v: &Vec<char>, k: usize) -> (r: String)
    requires
        k <= v@.len(),
    ensures
        r@ == v@.skip(k as int),
{
    let mut r = String::new();
    let mut i: usize = k;
    while i < v.len()
        invariant
            k <= i <= v@.len(),
            r@ == v@.subrange(k as int, i as int),
        decreases v@.len() - i,
    {
        push_char(&mut r, v[i]);
        proof {
            assert(v@.subrange(k as int, i + 1) =~= v@.subrange(k as int, i as int).push(v@[i as int]));
        }
        i = i + 1;
    }
    assert(v@.subrange(k as int, v@.len() as int) =~= v@.skip(k as int));
    r
}

/// The document path a location URI names.
pub fn location_path_of(uri: &str) -> (r: String)
    ensures
        r@ == location_path(uri@),
{
    proof {
        reveal_strlit("file://");
    }
    if str_starts_with(uri, "file://") {
        let cs = chars_of(uri);
        chars_after(&cs, 7)
    } else {
        owned(uri)
    }
}

/// The smallest function spanning the 0-based `line` of the document the
/// location `uri` names (the first of them, in node order, on a tie); `None`
/// where no function spans it.
pub fn function_at_line(g: &CodeGraph, uri: &str, line: u32) -> (r: Option<u64>)
    ensures
        r == (match smallest_spanning(g.nodes@, location_path(uri@), line) {
            Some(n) => Some(n.id),
            None => None::<u64>,
        }),
{
    let path = location_path_of(uri);
    let mut best: Option<(u64, u32)> = None;
    let ghost mut best_node: Option<GraphNode> = None;
    let mut i: usize = 0;
    while i < g.nodes.len()
        invariant
            i <= g.nodes@.len(),
            path@ == location_path(uri@),
            best_node == smallest_spanning(g.nodes@.take(i as int), path@, line),
            match best {
                None => best_node is None,
                Some((id, span)) => best_node matches Some(b) && b.id == id && span == line_span(b),
            },
        decreases g.nodes@.len() - i,
    {
        let n = &g.nodes[i];
        proof {
            assert(g.nodes@.take(i + 1).drop_last() =~= g.nodes@.take(i as int));
            assert(g.nodes@.take(i + 1).last() == g.nodes@[i as int]);
        }
        if n.node_type == NodeType::Function {
            let np = string_or_empty(&n.props.path);
            if str_ends_with(np.as_str(), path.as_str()) || str_ends_with(path.as_str(), np.as_str()) {
                let ls = get_line_start(&n.props);
                let le = get_line_end(&n.props, 0);
                if ls <= line && line <= le {
                    let span = le - ls;
                    let better = match best {
                        None => true,
                        Some((_, s)) => span < s,
                    };
                    if better {
                        best = Some((n.id, span));
                        proof {
                            best_node = Some(*n);
                        }
                    }
                }
            }
        }
        i = i + 1;
    }
    proof {
        assert(g.nodes@.take(i as int) =~= g.nodes@);
    }
    match best {
        Some((id, _)) => Some(id),
        None => None,
    }
}

/// Why no function could be picked.
#[derive(Clone, Copy, Debug, PartialEq, Eq, Structural)]
pub enum PickError {
    /// The node id given is not a number.
    InvalidNodeId,
    /// No function spans the line given.
    NotFound,
    /// Neither a node id nor a document was given.
    MissingTarget,
}

/// The function a request points at: the node id `node_id` when given (an
/// error when it is not a number); else the smallest function spanning the
/// 0-based `line` (the number given, cut to 32 bits; 0 by default) of the
/// document `uri`; an error when neither is given.
pub fn pick_function(g: &CodeGraph, node_id: Option<&str>, uri: Option<&str>, line: Option<u64>) -> (r: Result<u64, PickError>)
    ensures
        match node_id {
            Some(s) => match parsed_u64(s@) {
                Some(v) => r == Ok::<u64, PickError>(v),
                None => r == Err::<u64, PickError>(PickError::InvalidNodeId),
            },
            None => match uri {
                Some(u) => {
                    let l: u32 = match line { Some(x) => x as u32, None => 0u32 };
                    match smallest_spanning(g.nodes@, location_path(u@), l) {
                        Some(n) => r == Ok::<u64, PickError>(n.id),
                        None => r == Err::<u64, PickError>(PickError::NotFound),
                    }
                },
                None => r == Err::<u64, PickError>(PickError::MissingTarget),
            },
        },
{
    if let Some(s) = node_id {
        return match parse_u64(s) {
            Some(v) => Ok(v),
            None => Err(PickError::InvalidNodeId),
        };
    }
    match uri {
        Some(u) => {
            let l: u32 = match line {
                Some(x) => x as u32,
                None => 0,
            };
            match function_at_line(g, u, l) {
                Some(id) => Ok(id),
                None => Err(PickError::NotFound),
            }
        },
        None => Err(PickError::MissingTarget),
    }
}

} // verus!
