//! The decisions of the memory requests: reading a memory's kind and code
//! links from a request, applying an edit to a memory, and choosing the
//! page of memories a listing returns.
use vstd::prelude::*;
use crate::engine::contains_string;
use crate::primitives::opt_view;
use crate::query::{str_or_empty, string_or_empty};
use crate::graph::{in_file, CodeGraph, GraphNode, NodeType};
use crate::text::{decimal, decimal_string, owned, str_eq, views};

verus! {

/// The kinds of memory.
#[derive(Clone, Copy, Debug, PartialEq, Eq, Structural)]
pub enum MemoryKindName {
    DebugContext,
    ArchitecturalDecision,
    KnownIssue,
    Convention,
    ProjectContext,
}

/// The name of a kind of memory.
pub open spec fn kind_name_of(k: MemoryKindName) -> Seq<char> {
    match k {
        MemoryKindName::DebugContext => "debug_context"@,
        MemoryKindName::ArchitecturalDecision => "architectural_decision"@,
        MemoryKindName::KnownIssue => "known_issue"@,
        MemoryKindName::Convention => "convention"@,
        MemoryKindName::ProjectContext => "project_context"@,
    }
}

impl MemoryKindName {
    /// The name of the kind, e.g. `debug_context`.
    pub fn name(self) -> (r: String)
        ensures
            r@ == kind_name_of(self),
    {
        match self {
            MemoryKindName::DebugContext => owned("debug_context"),
            MemoryKindName::ArchitecturalDecision => owned("architectural_decision"),
            MemoryKindName::KnownIssue => owned("known_issue"),
            MemoryKindName::Convention => owned("convention"),
            MemoryKindName::ProjectContext => owned("project_context"),
        }
    }
}

/// How severe a known issue is.
#[derive(Clone, Copy, Debug, PartialEq, Eq, Structural)]
pub enum IssueSeverity {
    Critical,
    High,
    Medium,
    Low,
}

/// The severity a request names: `critical`, `high`, `low`, else medium
/// (also when none is named).
pub open spec fn severity_named(s: Option<Seq<char>>) -> IssueSeverity {
    match s {
        Some(x) => if x == "critical"@ {
            IssueSeverity::Critical
        } else if x == "high"@ {
            IssueSeverity::High
        } else if x == "low"@ {
            IssueSeverity::Low
        } else {
            IssueSeverity::Medium
        },
        None => IssueSeverity::Medium,
    }
}

/// The severity named by `s`.
pub fn issue_severity(s: &Option<String>) -> (r: IssueSeverity)
    ensures
        r == severity_named(opt_view(*s)),
{
    match s {
        Some(x) => if str_eq(x.as_str(), "critical") {
            IssueSeverity::Critical
        } else if str_eq(x.as_str(), "high") {
            IssueSeverity::High
        } else if str_eq(x.as_str(), "low") {
            IssueSeverity::Low
        } else {
            IssueSeverity::Medium
        },
        None => IssueSeverity::Medium,
    }
}

/// The kind of code a memory links to.
#[derive(Clone, Copy, Debug, PartialEq, Eq, Structural)]
pub enum LinkedNodeType {
    Function,
    Class,
    Module,
    File,
    Variable,
    Import,
    Interface,
    Trait,
}

/// The kind of code a request names; a function where the name is unknown.
pub open spec fn linked_type_named(s: Seq<char>) -> LinkedNodeType {
    if s == "class"@ {
        LinkedNodeType::Class
    } else if s == "module"@ {
        LinkedNodeType::Module
    } else if s == "file"@ {
        LinkedNodeType::File
    } else if s == "variable"@ {
        LinkedNodeType::Variable
    } else if s == "import"@ {
        LinkedNodeType::Import
    } else if s == "interface"@ {
        LinkedNodeType::Interface
    } else if s == "trait"@ {
        LinkedNodeType::Trait
    } else {
        LinkedNodeType::Function
    }
}

/// The kind of code named by `s`.
pub fn linked_node_type(s: &str) -> (r: LinkedNodeType)
    ensures
        r == linked_type_named(s@),
{
    if str_eq(s, "class") {
        LinkedNodeType::Class
    } else if str_eq(s, "module") {
        LinkedNodeType::Module
    } else if str_eq(s, "file") {
        LinkedNodeType::File
    } else if str_eq(s, "variable") {
        LinkedNodeType::Variable
    } else if str_eq(s, "import") {
        LinkedNodeType::Import
    } else if str_eq(s, "interface") {
        LinkedNodeType::Interface
    } else if str_eq(s, "trait") {
        LinkedNodeType::Trait
    } else {
        LinkedNodeType::Function
    }
}

/// The lower-case name of a kind of code, as responses print it.
pub open spec fn linked_type_name(t: LinkedNodeType) -> Seq<char> {
    match t {
        LinkedNodeType::Function => "function"@,
        LinkedNodeType::Class => "class"@,
        LinkedNodeType::Module => "module"@,
        LinkedNodeType::File => "file"@,
        LinkedNodeType::Variable => "variable"@,
        LinkedNodeType::Import => "import"@,
        LinkedNodeType::Interface => "interface"@,
        LinkedNodeType::Trait => "trait"@,
    }
}

impl LinkedNodeType {
    /// The lower-case name of the kind, e.g. `function`.
    pub fn name(self) -> (r: String)
        ensures
            r@ == linked_type_name(self),
    {
        match self {
            LinkedNodeType::Function => owned("function"),
            LinkedNodeType::Class => owned("class"),
            LinkedNodeType::Module => owned("module"),
            LinkedNodeType::File => owned("file"),
            LinkedNodeType::Variable => owned("variable"),
            LinkedNodeType::Import => owned("import"),
            LinkedNodeType::Interface => owned("interface"),
            LinkedNodeType::Trait => owned("trait"),
        }
    }
}

/// The lower-case name of a severity, as responses print it.
pub open spec fn severity_name_of(s: IssueSeverity) -> Seq<char> {
    match s {
        IssueSeverity::Critical => "critical"@,
        IssueSeverity::High => "high"@,
        IssueSeverity::Medium => "medium"@,
        IssueSeverity::Low => "low"@,
    }
}

impl IssueSeverity {
    /// The lower-case name of the severity, e.g. `high`.
    pub fn name(self) -> (r: String)
        ensures
            r@ == severity_name_of(self),
    {
        match self {
            IssueSeverity::Critical => owned("critical"),
            IssueSeverity::High => owned("high"),
            IssueSeverity::Medium => owned("medium"),
            IssueSeverity::Low => owned("low"),
        }
    }
}

/// A severity's name names that severity again, and so does a kind of
/// code's name.
pub proof fn lemma_names_parse_back(s: IssueSeverity, t: LinkedNodeType)
    ensures
        severity_named(Some(severity_name_of(s))) == s,
        linked_type_named(linked_type_name(t)) == t,
{
    reveal_strlit("critical");
    reveal_strlit("high");
    reveal_strlit("medium");
    reveal_strlit("low");
    assert("critical"@.len() == 8 && "high"@.len() == 4 && "medium"@.len() == 6 && "low"@.len() == 3);
    reveal_strlit("function");
    reveal_strlit("class");
    reveal_strlit("module");
    reveal_strlit("file");
    reveal_strlit("variable");
    reveal_strlit("import");
    reveal_strlit("interface");
    reveal_strlit("trait");
    assert("function"@.len() == 8 && "class"@.len() == 5 && "module"@.len() == 6 && "file"@.len() == 4);
    assert("variable"@.len() == 8 && "import"@.len() == 6 && "interface"@.len() == 9 && "trait"@.len() == 5);
    assert("function"@[0] != "variable"@[0]);
    assert("class"@[0] != "trait"@[0]);
    assert("module"@[0] != "import"@[0]);
}

/// Severities are named by the words of the risk scale, in order: critical
/// ranks above high, high above medium, medium above low; and a kind of code
/// that is also a kind of graph node is named as that node type is.
pub proof fn lemma_names_agree(s: IssueSeverity, t: LinkedNodeType)
    ensures
        crate::domain::risk_rank(severity_name_of(s)) == (match s {
            IssueSeverity::Critical => 3int,
            IssueSeverity::High => 2int,
            IssueSeverity::Medium => 1int,
            IssueSeverity::Low => 0int,
        }),
        t == LinkedNodeType::Function ==> linked_type_name(t) == crate::analysis::lower_type_name(NodeType::Function),
        t == LinkedNodeType::Class ==> linked_type_name(t) == crate::analysis::lower_type_name(NodeType::Class),
        t == LinkedNodeType::Module ==> linked_type_name(t) == crate::analysis::lower_type_name(NodeType::Module),
        t == LinkedNodeType::Variable ==> linked_type_name(t) == crate::analysis::lower_type_name(NodeType::Variable),
        t == LinkedNodeType::Interface ==> linked_type_name(t) == crate::analysis::lower_type_name(
            NodeType::Interface,
        ),
{
    reveal_strlit("critical");
    reveal_strlit("high");
    reveal_strlit("medium");
    reveal_strlit("low");
    assert("critical"@.len() == 8 && "high"@.len() == 4 && "medium"@.len() == 6 && "low"@.len() == 3);
}

/// The fields a request may give for a memory's kind.
#[derive(Clone, Debug)]
pub struct KindFields {
    pub problem: Option<String>,
    pub solution: Option<String>,
    pub decision: Option<String>,
    pub rationale: Option<String>,
    pub description: Option<String>,
    pub severity: Option<String>,
    pub name: Option<String>,
    pub topic: Option<String>,
}

/// A memory's kind with what a request gives of it.
#[derive(Clone, Debug)]
pub enum MemoryKindSpec {
    DebugContext { problem: String, solution: String },
    ArchitecturalDecision { decision: String, rationale: String },
    KnownIssue { description: String, severity: IssueSeverity },
    Convention { name: String, description: String },
    ProjectContext { topic: String, description: String },
}

impl MemoryKindSpec {
    /// Which kind of memory this is.
    pub fn kind(&self) -> (r: MemoryKindName)
        ensures
            r == (match *self {
                MemoryKindSpec::DebugContext { .. } => MemoryKindName::DebugContext,
                MemoryKindSpec::ArchitecturalDecision { .. } => MemoryKindName::ArchitecturalDecision,
                MemoryKindSpec::KnownIssue { .. } => MemoryKindName::KnownIssue,
                MemoryKindSpec::Convention { .. } => MemoryKindName::Convention,
                MemoryKindSpec::ProjectContext { .. } => MemoryKindName::ProjectContext,
            }),
    {
        match self {
            MemoryKindSpec::DebugContext { .. } => MemoryKindName::DebugContext,
            MemoryKindSpec::ArchitecturalDecision { .. } => MemoryKindName::ArchitecturalDecision,
            MemoryKindSpec::KnownIssue { .. } => MemoryKindName::KnownIssue,
            MemoryKindSpec::Convention { .. } => MemoryKindName::Convention,
            MemoryKindSpec::ProjectContext { .. } => MemoryKindName::ProjectContext,
        }
    }
}

/// A request names a kind of memory that does not exist.
#[derive(Clone, Debug)]
pub struct UnknownKind {
    pub kind: String,
}

/// The kind of memory a request describes: the named kind with its fields
/// (empty where missing; a missing or unknown severity is medium), or an
/// error naming the kind where it is unknown.
pub fn memory_kind_from(kind: &str, f: &KindFields) -> (r: Result<MemoryKindSpec, UnknownKind>)
    ensures
        kind@ == "debug_context"@ ==> (r matches Ok(MemoryKindSpec::DebugContext { problem, solution }) && problem@
            == str_or_empty(f.problem) && solution@ == str_or_empty(f.solution)),
        kind@ == "architectural_decision"@ ==> (r matches Ok(MemoryKindSpec::ArchitecturalDecision { decision, rationale })
            && decision@ == str_or_empty(f.decision) && rationale@ == str_or_empty(f.rationale)),
        kind@ == "known_issue"@ ==> (r matches Ok(MemoryKindSpec::KnownIssue { description, severity }) && description@
            == str_or_empty(f.description) && severity == severity_named(opt_view(f.severity))),
        kind@ == "convention"@ ==> (r matches Ok(MemoryKindSpec::Convention { name, description }) && name@
            == str_or_empty(f.name) && description@ == str_or_empty(f.description)),
        kind@ == "project_context"@ ==> (r matches Ok(MemoryKindSpec::ProjectContext { topic, description }) && topic@
            == str_or_empty(f.topic) && description@ == str_or_empty(f.description)),
        kind@ != "debug_context"@ && kind@ != "architectural_decision"@ && kind@ != "known_issue"@ && kind@
            != "convention"@ && kind@ != "project_context"@ ==> (r matches Err(e) && e.kind@ == kind@),
{
    proof {
        reveal_strlit("debug_context");
        reveal_strlit("architectural_decision");
        reveal_strlit("known_issue");
        reveal_strlit("convention");
        reveal_strlit("project_context");
        assert("debug_context"@.len() == 13);
        assert("architectural_decision"@.len() == 22);
        assert("known_issue"@.len() == 11);
        assert("convention"@.len() == 10);
        assert("project_context"@.len() == 15);
    }
    if str_eq(kind, "debug_context") {
        Ok(MemoryKindSpec::DebugContext { problem: string_or_empty(&f.problem), solution: string_or_empty(&f.solution) })
    } else if str_eq(kind, "architectural_decision") {
        Ok(
            MemoryKindSpec::ArchitecturalDecision {
                decision: string_or_empty(&f.decision),
                rationale: string_or_empty(&f.rationale),
            },
        )
    } else if str_eq(kind, "known_issue") {
        Ok(MemoryKindSpec::KnownIssue { description: string_or_empty(&f.description), severity: issue_severity(&f.severity) })
    } else if str_eq(kind, "convention") {
        Ok(MemoryKindSpec::Convention { name: string_or_empty(&f.name), description: string_or_empty(&f.description) })
    } else if str_eq(kind, "project_context") {
        Ok(MemoryKindSpec::ProjectContext { topic: string_or_empty(&f.topic), description: string_or_empty(&f.description) })
    } else {
        Err(UnknownKind { kind: owned(kind) })
    }
}

/// A link from a memory to a node of the code.
#[derive(Clone, Debug)]
pub struct CodeLink {
    pub node_id: String,
    pub node_type: LinkedNodeType,
}

/// What a memory's edit can change: its text, tags and links.
#[derive(Clone, Debug)]
pub struct MemoryText {
    pub title: String,
    pub content: String,
    pub tags: Vec<String>,
    pub code_links: Vec<CodeLink>,
}

/// An edit of a memory: replacements where given, links to add (node and
/// type name), and nodes whose links to drop.
#[derive(Clone, Debug)]
pub struct MemoryEdit {
    pub title: Option<String>,
    pub content: Option<String>,
    pub tags: Option<Vec<String>>,
    pub add_code_links: Vec<(String, String)>,
    pub remove_code_links: Vec<String>,
}

/// A link's node and type.
pub open spec fn link_view(l: CodeLink) -> (Seq<char>, LinkedNodeType) {
    (l.node_id@, l.node_type)
}

/// The links an edit adds, as node and type.
pub open spec fn added_links(adds: Seq<(String, String)>) -> Seq<(Seq<char>, LinkedNodeType)> {
    adds.map_values(|a: (String, String)| (a.0@, linked_type_named(a.1@)))
}

/// The links of `links` that do not go to any node of `removed`.
pub open spec fn links_kept(links: Seq<(Seq<char>, LinkedNodeType)>, removed: Seq<Seq<char>>) -> Seq<(Seq<char>, LinkedNodeType)> {
    links.filter(|l: (Seq<char>, LinkedNodeType)| !removed.contains(l.0))
}

/// Apply an edit: the title, content and tags replaced where the edit gives
/// them; the added links appended to the old ones, then every link to a
/// removed node dropped.
pub fn apply_memory_edit(m: &mut MemoryText, edit: &MemoryEdit)
    ensures
        final(m).title@ == (match edit.title {
            Some(t) => t@,
            None => old(m).title@,
        }),
        final(m).content@ == (match edit.content {
            Some(c) => c@,
            None => old(m).content@,
        }),
        views(final(m).tags@) == (match edit.tags {
            Some(t) => views(t@),
            None => views(old(m).tags@),
        }),
        final(m).code_links@.map_values(|l: CodeLink| link_view(l)) == links_kept(
            old(m).code_links@.map_values(|l: CodeLink| link_view(l)) + added_links(edit.add_code_links@),
            views(edit.remove_code_links@),
        ),
{
    if let Some(t) = &edit.title {
        m.title = t.clone();
    }
    if let Some(c) = &edit.content {
        m.content = c.clone();
    }
    if let Some(t) = &edit.tags {
        m.tags = crate::text::copy_strings(t);
    }
    let ghost lv = |l: CodeLink| link_view(l);
    let ghost all = m.code_links@.map_values(lv) + added_links(edit.add_code_links@);
    let ghost removed = views(edit.remove_code_links@);
    let ghost keep = |l: (Seq<char>, LinkedNodeType)| !removed.contains(l.0);
    let mut links: Vec<CodeLink> = Vec::new();
    let n_old = m.code_links.len();
    let mut i: usize = 0;
    while i < n_old
        invariant
            n_old == m.code_links@.len(),
            i <= n_old,
            all == m.code_links@.map_values(lv) + added_links(edit.add_code_links@),
            removed == views(edit.remove_code_links@),
            lv == (|l: CodeLink| link_view(l)),
            keep == (|l: (Seq<char>, LinkedNodeType)| !removed.contains(l.0)),
            links@.map_values(lv) == all.take(i as int).filter(keep),
        decreases n_old - i,
    {
        let link = CodeLink { node_id: m.code_links[i].node_id.clone(), node_type: m.code_links[i].node_type };
        proof {
            assert(all[i as int] == link_view(link));
            assert(all.take(i + 1).drop_last() =~= all.take(i as int));
            reveal(Seq::filter);
        }
        if !contains_string(&edit.remove_code_links, link.node_id.as_str()) {
            let ghost lb = links@;
            links.push(link);
            proof {
                assert(links@.map_values(lv) =~= lb.map_values(lv).push(link_view(link)));
            }
        }
        i = i + 1;
    }
    let mut j: usize = 0;
    while j < edit.add_code_links.len()
        invariant
            n_old == m.code_links@.len(),
            j <= edit.add_code_links@.len(),
            all == m.code_links@.map_values(lv) + added_links(edit.add_code_links@),
            removed == views(edit.remove_code_links@),
            lv == (|l: CodeLink| link_view(l)),
            keep == (|l: (Seq<char>, LinkedNodeType)| !removed.contains(l.0)),
            links@.map_values(lv) == all.take(n_old + j).filter(keep),
        decreases edit.add_code_links@.len() - j,
    {
        let (node, kind) = &edit.add_code_links[j];
        let link = CodeLink { node_id: node.clone(), node_type: linked_node_type(kind.as_str()) };
        proof {
            assert(all[n_old + j] == link_view(link));
            assert(all.take(n_old + j + 1).drop_last() =~= all.take(n_old + j));
            reveal(Seq::filter);
        }
        if !contains_string(&edit.remove_code_links, link.node_id.as_str()) {
            let ghost lb = links@;
            links.push(link);
            proof {
                assert(links@.map_values(lv) =~= lb.map_values(lv).push(link_view(link)));
            }
        }
        j = j + 1;
    }
    proof {
        assert(all.take(n_old + j) =~= all);
    }
    m.code_links = links;
}

/// What a listing needs to know of a stored memory.
#[derive(Clone, Debug)]
pub struct MemoryListing {
    pub kind: MemoryKindName,
    pub tags: Vec<String>,
    pub current: bool,
}

/// A request for a page of memories.
#[derive(Clone, Debug)]
pub struct MemoryListParams {
    pub kinds: Vec<String>,
    pub tags: Vec<String>,
    pub current_only: bool,
    pub offset: usize,
    pub limit: usize,
}

/// A memory is listed: current unless only current ones are asked for, of
/// one of the requested kinds (any when none is), with one of the requested
/// tags (any when none is).
pub open spec fn listed(m: MemoryListing, p: MemoryListParams) -> bool {
    &&& (p.current_only ==> m.current)
    &&& (p.kinds@.len() == 0 || views(p.kinds@).contains(kind_name_of(m.kind)))
    &&& (p.tags@.len() == 0 || exists|i: int| 0 <= i < p.tags@.len() && views(m.tags@).contains(#[trigger] p.tags@[i]@))
}

/// The positions of the listed memories, in order.
pub open spec fn listed_positions(ms: Seq<MemoryListing>, p: MemoryListParams) -> Seq<usize>
    decreases ms.len(),
{
    if ms.len() == 0 {
        seq![]
    } else {
        let rest = listed_positions(ms.drop_last(), p);
        if listed(ms.last(), p) {
            rest.push((ms.len() - 1) as usize)
        } else {
            rest
        }
    }
}

/// The page of a listing: the positions of the listed memories from
/// `offset`, at most `limit`.
pub open spec fn page_of(all: Seq<usize>, offset: usize, limit: usize) -> Seq<usize> {
    let rest = if offset <= all.len() { all.skip(offset as int) } else { seq![] };
    if rest.len() <= limit { rest } else { rest.take(limit as int) }
}

/// Whether some tag of `tags` is among `have`.
fn any_tag(tags: &Vec<String>, have: &Vec<String>) -> (r: bool)
    ensures
        r == exists|i: int| 0 <= i < tags@.len() && views(have@).contains(#[trigger] tags@[i]@),
{
    let mut i: usize = 0;
    while i < tags.len()
        invariant
            i <= tags@.len(),
            forall|j: int| 0 <= j < i ==> !views(have@).contains(#[trigger] tags@[j]@),
        decreases tags@.len() - i,
    {
        if contains_string(have, tags[i].as_str()) {
            return true;
        }
        i = i + 1;
    }
    false
}

/// The page of memories a listing returns, by position among `ms`, the
/// number of memories listed in all, and whether more follow the page.
pub fn list_memories(ms: &Vec<MemoryListing>, p: &MemoryListParams) -> (r: (Vec<usize>, usize, bool))
    requires
        p.offset + p.limit <= usize::MAX,
    ensures
        r.1 == listed_positions(ms@, *p).len(),
        r.0@ == page_of(listed_positions(ms@, *p), p.offset, p.limit),
        r.2 == (p.offset + p.limit < r.1),
{
    let mut hits: Vec<usize> = Vec::new();
    let mut i: usize = 0;
    while i < ms.len()
        invariant
            i <= ms@.len(),
            hits@ == listed_positions(ms@.take(i as int), *p),
            hits@.len() <= i,
        decreases ms@.len() - i,
    {
        proof {
            assert(ms@.take(i + 1).drop_last() =~= ms@.take(i as int));
            assert(ms@.take(i + 1).last() == ms@[i as int]);
        }
        let m = &ms[i];
        let kind_ok = p.kinds.len() == 0 || contains_string(&p.kinds, m.kind.name().as_str());
        let tag_ok = p.tags.len() == 0 || any_tag(&p.tags, &m.tags);
        if (!p.current_only || m.current) && kind_ok && tag_ok {
            hits.push(i);
        }
        i = i + 1;
    }
    proof {
        assert(ms@.take(i as int) =~= ms@);
    }
    let total = hits.len();
    let mut page: Vec<usize> = Vec::new();
    if p.offset < total {
        let mut k: usize = p.offset;
        while k < total && page.len() < p.limit
            invariant
                hits@.len() == total,
                p.offset <= k <= total,
                page@ == hits@.subrange(p.offset as int, k as int),
                page@.len() == k - p.offset,
                page@.len() <= p.limit,
            decreases total - k,
        {
            page.push(hits[k]);
            proof {
                assert(hits@.subrange(p.offset as int, k + 1) =~= hits@.subrange(p.offset as int, k as int).push(
                    hits@[k as int],
                ));
            }
            k = k + 1;
        }
        proof {
            let rest = hits@.skip(p.offset as int);
            if rest.len() <= p.limit {
                assert(page@ =~= rest);
            } else {
                assert(page@ =~= rest.take(p.limit as int));
            }
        }
    } else {
        proof {
            if p.offset <= total {
                assert(hits@.skip(p.offset as int) =~= Seq::<usize>::empty());
            }
        }
        assert(page@ =~= page_of(hits@, p.offset, p.limit));
    }
    (page, total, p.offset + p.limit < total)
}

/// The kind of memory a name denotes, if any.
pub open spec fn kind_named(s: Seq<char>) -> Option<MemoryKindName> {
    if s == "debug_context"@ {
        Some(MemoryKindName::DebugContext)
    } else if s == "architectural_decision"@ {
        Some(MemoryKindName::ArchitecturalDecision)
    } else if s == "known_issue"@ {
        Some(MemoryKindName::KnownIssue)
    } else if s == "convention"@ {
        Some(MemoryKindName::Convention)
    } else if s == "project_context"@ {
        Some(MemoryKindName::ProjectContext)
    } else {
        None
    }
}

/// The kinds that names denote, in order, the unknown names left out.
pub open spec fn kinds_named(names: Seq<Seq<char>>) -> Seq<MemoryKindName>
    decreases names.len(),
{
    if names.len() == 0 {
        seq![]
    } else {
        let r = kinds_named(names.drop_last());
        match kind_named(names.last()) {
            Some(k) => r.push(k),
            None => r,
        }
    }
}

/// The kind of memory a name denotes, if any.
pub fn memory_kind_named(s: &str) -> (r: Option<MemoryKindName>)
    ensures
        r == kind_named(s@),
{
    if str_eq(s, "debug_context") {
        Some(MemoryKindName::DebugContext)
    } else if str_eq(s, "architectural_decision") {
        Some(MemoryKindName::ArchitecturalDecision)
    } else if str_eq(s, "known_issue") {
        Some(MemoryKindName::KnownIssue)
    } else if str_eq(s, "convention") {
        Some(MemoryKindName::Convention)
    } else if str_eq(s, "project_context") {
        Some(MemoryKindName::ProjectContext)
    } else {
        None
    }
}

/// The kind filter of a memory search: the kinds its names denote, in
/// order, unknown names left out.
pub fn kind_filters(names: &Vec<String>) -> (r: Vec<MemoryKindName>)
    ensures
        r@ == kinds_named(views(names@)),
{
    let mut r: Vec<MemoryKindName> = Vec::new();
    let mut i: usize = 0;
    while i < names.len()
        invariant
            i <= names@.len(),
            r@ == kinds_named(views(names@).take(i as int)),
        decreases names@.len() - i,
    {
        proof {
            assert(views(names@).take(i + 1).drop_last() =~= views(names@).take(i as int));
            assert(views(names@).take(i + 1).last() == names@[i as int]@);
        }
        if let Some(k) = memory_kind_named(names[i].as_str()) {
            r.push(k);
        }
        i = i + 1;
    }
    proof {
        assert(views(names@).take(i as int) =~= views(names@));
    }
    r
}

/// The code a memory context request is about, as node ids in decimal:
/// every node of the file at `path`, in graph order, then the node at the
/// requested position where one was found.
pub open spec fn context_ids(g: CodeGraph, path: Seq<char>, at: Option<u64>) -> Seq<Seq<char>> {
    g.nodes@.filter(|n: GraphNode| in_file(n, path)).map_values(|n: GraphNode| decimal(n.id as nat)) + match at {
        Some(id) => seq![decimal(id as nat)],
        None => seq![],
    }
}

/// The code a memory context request is about, as node ids in decimal.
pub fn memory_code_context(g: &CodeGraph, path: &str, at: Option<u64>) -> (r: Vec<String>)
    ensures
        views(r@) == context_ids(*g, path@, at),
{
    let ghost p = |n: GraphNode| in_file(n, path@);
    let ghost f = |n: GraphNode| decimal(n.id as nat);
    let mut r: Vec<String> = Vec::new();
    let mut i: usize = 0;
    while i < g.nodes.len()
        invariant
            i <= g.nodes@.len(),
            p == (|n: GraphNode| in_file(n, path@)),
            f == (|n: GraphNode| decimal(n.id as nat)),
            views(r@) == g.nodes@.take(i as int).filter(p).map_values(f),
        decreases g.nodes@.len() - i,
    {
        let n = &g.nodes[i];
        proof {
            assert(g.nodes@.take(i + 1).drop_last() =~= g.nodes@.take(i as int));
            assert(g.nodes@.take(i + 1).last() == *n);
            reveal(Seq::filter);
        }
        let hit = match &n.props.path {
            Some(x) => str_eq(x.as_str(), path),
            None => false,
        };
        if hit {
            let ghost before = r@;
            r.push(decimal_string(n.id));
            proof {
                let q = g.nodes@.take(i as int).filter(p);
                assert(g.nodes@.take(i + 1).filter(p) == q.push(*n));
                assert(q.push(*n).map_values(f) =~= q.map_values(f).push(f(*n)));
                assert(views(r@) =~= views(before).push(decimal(n.id as nat)));
            }
        } else {
            proof {
                assert(g.nodes@.take(i + 1).filter(p) == g.nodes@.take(i as int).filter(p));
            }
        }
        i = i + 1;
    }
    proof {
        assert(g.nodes@.take(i as int) =~= g.nodes@);
    }
    let ghost before = r@;
    if let Some(id) = at {
        r.push(decimal_string(id));
        assert(views(r@) =~= views(before).push(decimal(id as nat)));
    } else {
        assert(views(r@) =~= views(before) + Seq::<Seq<char>>::empty());
    }
    r
}

} // verus!
