//! The editor features over the graph: where a node is, where "go to
//! definition" leads, the references of a definition, hover text, the
//! symbols of a file and the call hierarchy.
use vstd::prelude::*;
use crate::analysis::{file_for_node, file_lookup};
use crate::graph::{incoming_of, outgoing_of, node_type_name, CodeGraph, Direction, EdgeType, GraphEdge, NodeType};
use crate::navigation::{
    definition_of, find_definition_for_reference, location_range, location_range_of, LspRange, NodeLocation,
};
use crate::query::{str_or_empty, string_or_empty};
use crate::text::{chars_of, concat, decimal, decimal_string, parse_u64, parsed_u64};

verus! {

/// Why a node has no location.
#[derive(Clone, Copy, Debug, PartialEq, Eq, Structural)]
pub enum LocationFailure {
    /// The node is not in the graph.
    NodeNotFound,
    /// Neither the node nor the symbol index records its file.
    NoPath,
}

/// A location as its file and range.
pub open spec fn loc_view(l: NodeLocation) -> (Seq<char>, LspRange) {
    (l.path@, l.range)
}

/// Where node `id` is: its `path`, else the file the symbol index records for
/// it, with the range its line and column properties give (lines made
/// 0-based, a missing end line taken as the start line).
pub open spec fn location_of(g: CodeGraph, files: Seq<(u64, String)>, id: u64) -> Result<
    (Seq<char>, LspRange),
    LocationFailure,
> {
    if !g.has_node(id) {
        Err(LocationFailure::NodeNotFound)
    } else {
        let p = g.node(id).props;
        let path = match p.path {
            Some(x) => Some(x@),
            None => file_lookup(files, id),
        };
        match path {
            Some(f) => Ok((f, location_range_of(p))),
            None => Err(LocationFailure::NoPath),
        }
    }
}

/// The location of node `id`.
pub fn node_to_location(g: &CodeGraph, id: u64, files: &Vec<(u64, String)>) -> (r: Result<NodeLocation, LocationFailure>)
    requires
        g.wf(),
    ensures
        match r {
            Ok(l) => location_of(*g, files@, id) == Ok::<(Seq<char>, LspRange), LocationFailure>(loc_view(l)),
            Err(e) => location_of(*g, files@, id) == Err::<(Seq<char>, LspRange), LocationFailure>(e),
        },
{
    let n = match g.get_node(id) {
        Some(n) => n,
        None => {
            return Err(LocationFailure::NodeNotFound);
        },
    };
    let path = match &n.props.path {
        Some(p) => p.clone(),
        None => match file_for_node(files, id) {
            Some(f) => f,
            None => {
                return Err(LocationFailure::NoPath);
            },
        },
    };
    Ok(NodeLocation { path, range: location_range(&n.props) })
}

/// Where "go to definition" from node `id` leads: the location of the
/// definition its first `Calls`, `References` or `Imports` edge leads to,
/// where that has one; else the node's own location.
pub open spec fn definition_target(g: CodeGraph, files: Seq<(u64, String)>, id: u64) -> Result<
    (Seq<char>, LspRange),
    LocationFailure,
> {
    match definition_of(g.edges@, id) {
        Some(d) => match location_of(g, files, d) {
            Ok(l) => Ok(l),
            Err(_) => location_of(g, files, id),
        },
        None => location_of(g, files, id),
    }
}

/// The location "go to definition" from node `id` answers with.
pub fn goto_definition(g: &CodeGraph, id: u64, files: &Vec<(u64, String)>) -> (r: Result<NodeLocation, LocationFailure>)
    requires
        g.wf(),
    ensures
        match r {
            Ok(l) => definition_target(*g, files@, id) == Ok::<(Seq<char>, LspRange), LocationFailure>(loc_view(l)),
            Err(e) => definition_target(*g, files@, id) == Err::<(Seq<char>, LspRange), LocationFailure>(e),
        },
{
    if let Some(d) = find_definition_for_reference(g, id) {
        if let Ok(l) = node_to_location(g, d, files) {
            return Ok(l);
        }
    }
    node_to_location(g, id, files)
}

/// The locations of those of `ids` that have one, in order.
pub open spec fn located(g: CodeGraph, files: Seq<(u64, String)>, ids: Seq<u64>) -> Seq<(Seq<char>, LspRange)>
    decreases ids.len(),
{
    if ids.len() == 0 {
        seq![]
    } else {
        let r = located(g, files, ids.drop_last());
        match location_of(g, files, ids.last()) {
            Ok(l) => r.push(l),
            Err(_) => r,
        }
    }
}

/// The locations of those of `ids` that have one, in order.
pub fn locate_all(g: &CodeGraph, ids: &Vec<u64>, files: &Vec<(u64, String)>) -> (r: Vec<NodeLocation>)
    requires
        g.wf(),
    ensures
        r@.map_values(|l: NodeLocation| loc_view(l)) == located(*g, files@, ids@),
{
    let mut r: Vec<NodeLocation> = Vec::new();
    let mut i: usize = 0;
    while i < ids.len()
        invariant
            g.wf(),
            i <= ids@.len(),
            r@.map_values(|l: NodeLocation| loc_view(l)) == located(*g, files@, ids@.take(i as int)),
        decreases ids@.len() - i,
    {
        proof {
            assert(ids@.take(i + 1).drop_last() =~= ids@.take(i as int));
            assert(ids@.take(i + 1).last() == ids@[i as int]);
        }
        if let Ok(l) = node_to_location(g, ids[i], files) {
            let ghost before = r@;
            r.push(l);
            proof {
                assert(r@.map_values(|l: NodeLocation| loc_view(l)) =~= before.map_values(|l: NodeLocation| loc_view(l)).push(
                    loc_view(l),
                ));
            }
        }
        i = i + 1;
    }
    proof {
        assert(ids@.take(i as int) =~= ids@);
    }
    r
}

/// The definition the references of node `id` are gathered for: where its
/// first definition edge leads, else the node itself.
pub open spec fn referenced(g: CodeGraph, id: u64) -> u64 {
    match definition_of(g.edges@, id) {
        Some(d) => d,
        None => id,
    }
}

/// The nodes whose locations "find references" from node `id` lists: the
/// definition itself where the declaration is asked for, then the source of
/// every edge into the definition, in edge order.
pub open spec fn reference_ids(g: CodeGraph, id: u64, include_declaration: bool) -> Seq<u64> {
    let d = referenced(g, id);
    (if include_declaration { seq![d] } else { seq![] }) + incoming_of(g.edges@, d).map_values(
        |e: GraphEdge| e.source,
    )
}

/// The locations "find references" from node `id` answers with (none are
/// left out but those without a location).
pub fn find_references(g: &CodeGraph, id: u64, include_declaration: bool, files: &Vec<(u64, String)>) -> (r: Vec<
    NodeLocation,
>)
    requires
        g.wf(),
    ensures
        r@.map_values(|l: NodeLocation| loc_view(l)) == located(*g, files@, reference_ids(*g, id, include_declaration)),
{
    let d = match find_definition_for_reference(g, id) {
        Some(d) => d,
        None => id,
    };
    let mut ids: Vec<u64> = Vec::new();
    if include_declaration {
        ids.push(d);
    }
    let edges = g.get_connected_edges(d, Direction::Incoming);
    let ghost first = ids@;
    let mut i: usize = 0;
    while i < edges.len()
        invariant
            i <= edges@.len(),
            edges@ == incoming_of(g.edges@, d).map_values(|e: GraphEdge| crate::graph::edge_triple(e)),
            ids@ == first + incoming_of(g.edges@, d).map_values(|e: GraphEdge| e.source).take(i as int),
        decreases edges@.len() - i,
    {
        ids.push(edges[i].0);
        proof {
            let s = incoming_of(g.edges@, d).map_values(|e: GraphEdge| e.source);
            assert(s.take(i + 1) =~= s.take(i as int).push(s[i as int]));
        }
        i = i + 1;
    }
    proof {
        let s = incoming_of(g.edges@, d).map_values(|e: GraphEdge| e.source);
        assert(s.take(i as int) =~= s);
        assert(ids@ =~= reference_ids(*g, id, include_declaration));
    }
    locate_all(g, &ids, files)
}

/// The hover text of a node that `refs` edges enter: its kind and name, its
/// signature in a code block where it has one, its documentation where it has
/// one, then its file and the number of references.
pub open spec fn hover_text(t: NodeType, name: Seq<char>, signature: Seq<char>, doc: Option<Seq<char>>, path: Seq<char>, refs: nat) -> Seq<char> {
    "**"@ + node_type_name(t) + "** `"@ + name + "`"@ + (if signature.len() > 0 {
        "\n\n```\n"@ + signature + "\n```"@
    } else {
        seq![]
    }) + match doc {
        Some(d) => "\n\n"@ + d,
        None => seq![],
    } + "\n\n---\n\n**Defined in:** "@ + path + "\n**References:** "@ + decimal(refs)
}

/// The hover text of node `id`, none where the node is absent.
pub fn hover_markdown(g: &CodeGraph, id: u64) -> (r: Option<String>)
    requires
        g.wf(),
    ensures
        r is None <==> !g.has_node(id),
        r matches Some(s) ==> {
            let n = g.node(id);
            s@ == hover_text(
                n.node_type,
                str_or_empty(n.props.name),
                str_or_empty(n.props.signature),
                match n.props.doc {
                    Some(d) => Some(d@),
                    None => None,
                },
                str_or_empty(n.props.path),
                incoming_of(g.edges@, id).len(),
            )
        },
{
    let n = match g.get_node(id) {
        Some(n) => n,
        None => {
            return None;
        },
    };
    let name = string_or_empty(&n.props.name);
    let signature = string_or_empty(&n.props.signature);
    let path = string_or_empty(&n.props.path);
    let refs = g.get_connected_edges(id, Direction::Incoming).len();
    let mut s = concat("**", n.node_type.name().as_str());
    s = concat(s.as_str(), "** `");
    s = concat(s.as_str(), name.as_str());
    s = concat(s.as_str(), "`");
    if chars_of(signature.as_str()).len() > 0 {
        s = concat(s.as_str(), "\n\n```\n");
        s = concat(s.as_str(), signature.as_str());
        s = concat(s.as_str(), "\n```");
    }
    if let Some(d) = &n.props.doc {
        s = concat(s.as_str(), "\n\n");
        s = concat(s.as_str(), d.as_str());
    }
    s = concat(s.as_str(), "\n\n---\n\n**Defined in:** ");
    s = concat(s.as_str(), path.as_str());
    s = concat(s.as_str(), "\n**References:** ");
    s = concat(s.as_str(), decimal_string(refs as u64).as_str());
    Some(s)
}

/// The kind of symbol an editor shows for a node.
#[derive(Clone, Copy, Debug, PartialEq, Eq, Structural)]
pub enum SymbolKindName {
    File,
    Module,
    Class,
    Interface,
    Function,
    Variable,
    TypeParameter,
}

/// The kind of symbol shown for a node type: a type is a type parameter, a
/// file a file, a generic a variable, the others their namesakes.
pub open spec fn symbol_kind_of(t: NodeType) -> SymbolKindName {
    match t {
        NodeType::Function => SymbolKindName::Function,
        NodeType::Class => SymbolKindName::Class,
        NodeType::Interface => SymbolKindName::Interface,
        NodeType::Module => SymbolKindName::Module,
        NodeType::Variable => SymbolKindName::Variable,
        NodeType::Type => SymbolKindName::TypeParameter,
        NodeType::CodeFile => SymbolKindName::File,
        NodeType::Generic => SymbolKindName::Variable,
    }
}

/// The kind of symbol shown for a node type.
pub fn symbol_kind(t: NodeType) -> (r: SymbolKindName)
    ensures
        r == symbol_kind_of(t),
{
    match t {
        NodeType::Function => SymbolKindName::Function,
        NodeType::Class => SymbolKindName::Class,
        NodeType::Interface => SymbolKindName::Interface,
        NodeType::Module => SymbolKindName::Module,
        NodeType::Variable => SymbolKindName::Variable,
        NodeType::Type => SymbolKindName::TypeParameter,
        NodeType::CodeFile => SymbolKindName::File,
        NodeType::Generic => SymbolKindName::Variable,
    }
}

/// A symbol of a document: its name, kind and location.
#[derive(Clone, Debug)]
pub struct DocumentSymbol {
    pub name: String,
    pub kind: SymbolKindName,
    pub location: NodeLocation,
}

/// A document symbol as its name, kind and location.
pub open spec fn doc_symbol_view(d: DocumentSymbol) -> (Seq<char>, SymbolKindName, (Seq<char>, LspRange)) {
    (d.name@, d.kind, loc_view(d.location))
}

/// The symbols of those of `ids` that have a location, in order: name (empty
/// where missing), kind and location.
pub open spec fn doc_symbols(g: CodeGraph, files: Seq<(u64, String)>, ids: Seq<u64>) -> Seq<
    (Seq<char>, SymbolKindName, (Seq<char>, LspRange)),
>
    decreases ids.len(),
{
    if ids.len() == 0 {
        seq![]
    } else {
        let r = doc_symbols(g, files, ids.drop_last());
        let id = ids.last();
        match location_of(g, files, id) {
            Ok(l) => r.push((str_or_empty(g.node(id).props.name), symbol_kind_of(g.node(id).node_type), l)),
            Err(_) => r,
        }
    }
}

/// The symbols of a document whose nodes the symbol index lists as `ids`.
pub fn document_symbols(g: &CodeGraph, ids: &Vec<u64>, files: &Vec<(u64, String)>) -> (r: Vec<DocumentSymbol>)
    requires
        g.wf(),
    ensures
        r@.map_values(|d: DocumentSymbol| doc_symbol_view(d)) == doc_symbols(*g, files@, ids@),
{
    let mut r: Vec<DocumentSymbol> = Vec::new();
    let mut i: usize = 0;
    while i < ids.len()
        invariant
            g.wf(),
            i <= ids@.len(),
            r@.map_values(|d: DocumentSymbol| doc_symbol_view(d)) == doc_symbols(*g, files@, ids@.take(i as int)),
        decreases ids@.len() - i,
    {
        proof {
            assert(ids@.take(i + 1).drop_last() =~= ids@.take(i as int));
            assert(ids@.take(i + 1).last() == ids@[i as int]);
        }
        let id = ids[i];
        if let Ok(l) = node_to_location(g, id, files) {
            let n = g.get_node(id).unwrap();
            let d = DocumentSymbol { name: string_or_empty(&n.props.name), kind: symbol_kind(n.node_type), location: l };
            let ghost before = r@;
            r.push(d);
            proof {
                assert(r@.map_values(|d: DocumentSymbol| doc_symbol_view(d)) =~= before.map_values(
                    |d: DocumentSymbol| doc_symbol_view(d),
                ).push(doc_symbol_view(d)));
            }
        }
        i = i + 1;
    }
    proof {
        assert(ids@.take(i as int) =~= ids@);
    }
    r
}

/// An entry of a call hierarchy: the node, its name, its signature as detail
/// and its location.
#[derive(Clone, Debug)]
pub struct CallItem {
    pub node_id: u64,
    pub name: String,
    pub detail: Option<String>,
    pub location: NodeLocation,
}

/// A call hierarchy entry as plain values.
pub open spec fn call_item_view(c: CallItem) -> (u64, Seq<char>, Option<Seq<char>>, (Seq<char>, LspRange)) {
    (
        c.node_id,
        c.name@,
        match c.detail {
            Some(d) => Some(d@),
            None => None,
        },
        loc_view(c.location),
    )
}

/// The call hierarchy entry of node `id`, where it has a location.
pub open spec fn call_item_of(g: CodeGraph, files: Seq<(u64, String)>, id: u64) -> Option<
    (u64, Seq<char>, Option<Seq<char>>, (Seq<char>, LspRange)),
> {
    match location_of(g, files, id) {
        Ok(l) => Some(
            (
                id,
                str_or_empty(g.node(id).props.name),
                match g.node(id).props.signature {
                    Some(s) => Some(s@),
                    None => None,
                },
                l,
            ),
        ),
        Err(_) => None,
    }
}

/// The entries of those of `ids` that have a location, in order.
pub open spec fn call_items(g: CodeGraph, files: Seq<(u64, String)>, ids: Seq<u64>) -> Seq<
    (u64, Seq<char>, Option<Seq<char>>, (Seq<char>, LspRange)),
>
    decreases ids.len(),
{
    if ids.len() == 0 {
        seq![]
    } else {
        let r = call_items(g, files, ids.drop_last());
        match call_item_of(g, files, ids.last()) {
            Some(c) => r.push(c),
            None => r,
        }
    }
}

fn call_item(g: &CodeGraph, id: u64, files: &Vec<(u64, String)>) -> (r: Result<CallItem, LocationFailure>)
    requires
        g.wf(),
    ensures
        match r {
            Ok(c) => call_item_of(*g, files@, id) == Some(call_item_view(c)),
            Err(e) => call_item_of(*g, files@, id) is None && location_of(*g, files@, id) == Err::<
                (Seq<char>, LspRange),
                LocationFailure,
            >(e),
        },
{
    let l = match node_to_location(g, id, files) {
        Ok(l) => l,
        Err(e) => {
            return Err(e);
        },
    };
    let n = g.get_node(id).unwrap();
    let detail = match &n.props.signature {
        Some(s) => Some(s.clone()),
        None => None,
    };
    Ok(CallItem { node_id: id, name: string_or_empty(&n.props.name), detail, location: l })
}

fn call_items_for(g: &CodeGraph, ids: &Vec<u64>, files: &Vec<(u64, String)>) -> (r: Vec<CallItem>)
    requires
        g.wf(),
    ensures
        r@.map_values(|c: CallItem| call_item_view(c)) == call_items(*g, files@, ids@),
{
    let mut r: Vec<CallItem> = Vec::new();
    let mut i: usize = 0;
    while i < ids.len()
        invariant
            g.wf(),
            i <= ids@.len(),
            r@.map_values(|c: CallItem| call_item_view(c)) == call_items(*g, files@, ids@.take(i as int)),
        decreases ids@.len() - i,
    {
        proof {
            assert(ids@.take(i + 1).drop_last() =~= ids@.take(i as int));
            assert(ids@.take(i + 1).last() == ids@[i as int]);
        }
        if let Ok(c) = call_item(g, ids[i], files) {
            let ghost before = r@;
            r.push(c);
            proof {
                assert(r@.map_values(|c: CallItem| call_item_view(c)) =~= before.map_values(
                    |c: CallItem| call_item_view(c),
                ).push(call_item_view(c)));
            }
        }
        i = i + 1;
    }
    proof {
        assert(ids@.take(i as int) =~= ids@);
    }
    r
}

/// Where a call hierarchy starts at node `id`: none where the node is not a
/// function; its entry where it has a location; else why it has none.
pub fn prepare_call_hierarchy(g: &CodeGraph, id: u64, files: &Vec<(u64, String)>) -> (r: Result<
    Option<CallItem>,
    LocationFailure,
>)
    requires
        g.wf(),
    ensures
        !g.has_node(id) ==> r == Err::<Option<CallItem>, LocationFailure>(LocationFailure::NodeNotFound),
        g.has_node(id) && g.node(id).node_type != NodeType::Function ==> r matches Ok(None),
        g.has_node(id) && g.node(id).node_type == NodeType::Function ==> match r {
            Ok(Some(c)) => call_item_of(*g, files@, id) == Some(call_item_view(c)),
            Ok(None) => false,
            Err(e) => location_of(*g, files@, id) == Err::<(Seq<char>, LspRange), LocationFailure>(e),
        },
{
    let n = match g.get_node(id) {
        Some(n) => n,
        None => {
            return Err(LocationFailure::NodeNotFound);
        },
    };
    if n.node_type != NodeType::Function {
        return Ok(None);
    }
    match call_item(g, id, files) {
        Ok(c) => Ok(Some(c)),
        Err(e) => Err(e),
    }
}

/// An edge of the call kind.
pub open spec fn is_call(e: GraphEdge) -> bool {
    e.edge_type == EdgeType::Calls
}

/// The callers of node `id` by its incoming `Calls` edges, in edge order.
pub open spec fn caller_ids(g: CodeGraph, id: u64) -> Seq<u64> {
    incoming_of(g.edges@, id).filter(|e: GraphEdge| is_call(e)).map_values(|e: GraphEdge| e.source)
}

/// The callees of node `id` by its outgoing `Calls` edges, in edge order.
pub open spec fn callee_ids(g: CodeGraph, id: u64) -> Seq<u64> {
    outgoing_of(g.edges@, id).filter(|e: GraphEdge| is_call(e)).map_values(|e: GraphEdge| e.target)
}

fn call_ends(g: &CodeGraph, id: u64, incoming: bool) -> (r: Vec<u64>)
    ensures
        incoming ==> r@ == caller_ids(*g, id),
        !incoming ==> r@ == callee_ids(*g, id),
{
    let dir = if incoming { Direction::Incoming } else { Direction::Outgoing };
    let edges = g.get_connected_edges(id, dir);
    let ghost es = if incoming { incoming_of(g.edges@, id) } else { outgoing_of(g.edges@, id) };
    let ghost p = |e: GraphEdge| is_call(e);
    let ghost end = if incoming { |e: GraphEdge| e.source } else { |e: GraphEdge| e.target };
    let mut r: Vec<u64> = Vec::new();
    let mut i: usize = 0;
    while i < edges.len()
        invariant
            i <= edges@.len(),
            edges@ == es.map_values(|e: GraphEdge| crate::graph::edge_triple(e)),
            p == (|e: GraphEdge| is_call(e)),
            end == (if incoming { |e: GraphEdge| e.source } else { |e: GraphEdge| e.target }),
            r@ == es.take(i as int).filter(p).map_values(end),
        decreases edges@.len() - i,
    {
        let (source, target, t) = edges[i];
        proof {
            assert(edges@[i as int] == crate::graph::edge_triple(es[i as int]));
            assert(es.take(i + 1).drop_last() =~= es.take(i as int));
            assert(es.take(i + 1).last() == es[i as int]);
            reveal(Seq::filter);
        }
        if t == EdgeType::Calls {
            let ghost before = r@;
            r.push(if incoming { source } else { target });
            proof {
                let f = es.take(i as int).filter(p);
                assert(es.take(i + 1).filter(p) == f.push(es[i as int]));
                assert(f.push(es[i as int]).map_values(end) =~= f.map_values(end).push(end(es[i as int])));
            }
        } else {
            proof {
                assert(es.take(i + 1).filter(p) == es.take(i as int).filter(p));
            }
        }
        i = i + 1;
    }
    proof {
        assert(es.take(i as int) =~= es);
    }
    r
}

/// The calls into node `id`: the entry of each caller by an incoming
/// `Calls` edge that has a location, in edge order.
pub fn incoming_calls(g: &CodeGraph, id: u64, files: &Vec<(u64, String)>) -> (r: Vec<CallItem>)
    requires
        g.wf(),
    ensures
        r@.map_values(|c: CallItem| call_item_view(c)) == call_items(*g, files@, caller_ids(*g, id)),
{
    let ids = call_ends(g, id, true);
    call_items_for(g, &ids, files)
}

/// The calls out of node `id`: the entry of each callee by an outgoing
/// `Calls` edge that has a location, in edge order.
pub fn outgoing_calls(g: &CodeGraph, id: u64, files: &Vec<(u64, String)>) -> (r: Vec<CallItem>)
    requires
        g.wf(),
    ensures
        r@.map_values(|c: CallItem| call_item_view(c)) == call_items(*g, files@, callee_ids(*g, id)),
{
    let ids = call_ends(g, id, false);
    call_items_for(g, &ids, files)
}

/// Why a call hierarchy entry names no node.
#[derive(Clone, Copy, Debug, PartialEq, Eq, Structural)]
pub enum ItemIdError {
    /// The entry carries no data.
    MissingData,
    /// Its data has no `nodeId` string.
    MissingNodeId,
    /// Its `nodeId` is not a number.
    InvalidNodeId,
}

/// The node a call hierarchy entry names, from its data (`None` where it
/// has none) and the data's `nodeId` string (`None` where it has none).
pub fn extract_node_id_from_item(data: &Option<Option<String>>) -> (r: Result<u64, ItemIdError>)
    ensures
        match *data {
            None => r == Err::<u64, ItemIdError>(ItemIdError::MissingData),
            Some(None) => r == Err::<u64, ItemIdError>(ItemIdError::MissingNodeId),
            Some(Some(s)) => match parsed_u64(s@) {
                Some(n) => r == Ok::<u64, ItemIdError>(n),
                None => r == Err::<u64, ItemIdError>(ItemIdError::InvalidNodeId),
            },
        },
{
    match data {
        None => Err(ItemIdError::MissingData),
        Some(None) => Err(ItemIdError::MissingNodeId),
        Some(Some(s)) => match parse_u64(s.as_str()) {
            Some(n) => Ok(n),
            None => Err(ItemIdError::InvalidNodeId),
        },
    }
}

} // verus!
