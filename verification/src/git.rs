//! The git commands that history mining runs, and what is read from their
//! output. Running them is left to the caller: each function here says which
//! program arguments to run in which directory.
use vstd::prelude::*;
use crate::text::{chars_of, concat, decimal, decimal_string, join_strings, joined, lines_of_text, owned, text_lines, views};

verus! {

/// A git repository that commands run in.
#[derive(Clone, Debug)]
pub struct GitExecutor {
    repo_path: String,
}

/// A git command: the directory it runs in and its arguments after `git`.
#[derive(Clone, Debug)]
pub struct GitCommand {
    pub dir: String,
    pub args: Vec<String>,
}

/// The `-n` argument that limits a log to `n` commits.
pub open spec fn limit_arg(limit: Option<usize>) -> Seq<Seq<char>> {
    match limit {
        Some(n) => seq!["-n"@ + decimal(n as nat)],
        None => seq![],
    }
}

/// The arguments of a log in the given format, at most `limit` commits,
/// restricted to `path` where one is given.
pub open spec fn log_args(format: Seq<char>, limit: Option<usize>, path: Option<Seq<char>>) -> Seq<Seq<char>> {
    seq!["log"@, "--format="@ + format] + limit_arg(limit) + seq!["--"@] + match path {
        Some(p) => seq![p],
        None => seq![],
    }
}

/// The arguments of a log over all branches of the commits whose message
/// matches `pattern`, ignoring case.
pub open spec fn log_grep_args(pattern: Seq<char>, format: Seq<char>, limit: Option<usize>) -> Seq<Seq<char>> {
    seq!["log"@, "--format="@ + format, "--all"@, "-i"@, "--grep="@ + pattern] + limit_arg(limit)
}

/// The arguments of a blame of `path` in porcelain form, of the lines
/// `start` to `end` where a range is given.
pub open spec fn blame_args(path: Seq<char>, range: Option<(u32, u32)>) -> Seq<Seq<char>> {
    seq!["blame"@, "--porcelain"@] + match range {
        Some((s, e)) => seq!["-L"@ + decimal(s as nat) + ","@ + decimal(e as nat)],
        None => seq![],
    } + seq![path]
}

/// The non-empty lines of a command's output.
pub open spec fn nonempty_lines(out: Seq<char>) -> Seq<Seq<char>> {
    text_lines(out).filter(|l: Seq<char>| l.len() > 0)
}

fn push_str(v: &mut Vec<String>, s: &str)
    ensures
        views(final(v)@) == views(old(v)@).push(s@),
{
    let ghost before = v@;
    v.push(owned(s));
    assert(views(v@) =~= views(before).push(s@));
}

fn push_string(v: &mut Vec<String>, s: String)
    ensures
        views(final(v)@) == views(old(v)@).push(s@),
{
    let ghost before = v@;
    v.push(s);
    assert(views(v@) =~= views(before).push(s@));
}

fn push_limit(v: &mut Vec<String>, limit: Option<usize>)
    ensures
        views(final(v)@) == views(old(v)@) + limit_arg(limit),
{
    match limit {
        Some(n) => {
            let d = decimal_string(n as u64);
            push_string(v, concat("-n", d.as_str()));
        },
        None => {
            assert(views(v@) =~= views(v@) + Seq::<Seq<char>>::empty());
        },
    }
}

fn show_args(what: &str, format: &str, commit: &str) -> (r: Vec<String>)
    ensures
        views(r@) == seq!["show"@, what@, format@, commit@],
{
    let mut v: Vec<String> = Vec::new();
    push_str(&mut v, "show");
    push_str(&mut v, what);
    push_str(&mut v, format);
    push_str(&mut v, commit);
    assert(views(v@) =~= seq!["show"@, what@, format@, commit@]);
    v
}

impl GitExecutor {
    /// A repository at `repo_path`, which the caller has found to be one.
    pub fn at(repo_path: String) -> (r: Self)
        ensures
            r.path_view() == repo_path@,
    {
        GitExecutor { repo_path }
    }

    /// The repository's root path.
    pub closed spec fn path_view(&self) -> Seq<char> {
        self.repo_path@
    }

    /// The repository's root path.
    pub fn repo_path(&self) -> (r: &str)
        ensures
            r@ == self.path_view(),
    {
        self.repo_path.as_str()
    }

    fn command(&self, args: Vec<String>) -> (r: GitCommand)
        ensures
            r.dir@ == self.path_view(),
            r.args@ == args@,
    {
        GitCommand { dir: self.repo_path.clone(), args }
    }

    /// The log of the repository in `format`, at most `limit` commits, of the
    /// commits that touch `path` where one is given.
    pub fn log(&self, format: &str, limit: Option<usize>, path_filter: Option<&str>) -> (r: GitCommand)
        ensures
            r.dir@ == self.path_view(),
            views(r.args@) == log_args(
                format@,
                limit,
                match path_filter {
                    Some(p) => Some(p@),
                    None => None,
                },
            ),
    {
        let mut v: Vec<String> = Vec::new();
        push_str(&mut v, "log");
        push_string(&mut v, concat("--format=", format));
        push_limit(&mut v, limit);
        push_str(&mut v, "--");
        match path_filter {
            Some(p) => push_str(&mut v, p),
            None => {},
        }
        let ghost pv = match path_filter {
            Some(p) => Some(p@),
            None => None::<Seq<char>>,
        };
        assert(views(v@) =~= log_args(format@, limit, pv));
        self.command(v)
    }

    /// The commits of all branches whose message matches `pattern`, ignoring
    /// case, in `format`, at most `limit` of them.
    pub fn log_grep(&self, pattern: &str, format: &str, limit: Option<usize>) -> (r: GitCommand)
        ensures
            r.dir@ == self.path_view(),
            views(r.args@) == log_grep_args(pattern@, format@, limit),
    {
        let mut v: Vec<String> = Vec::new();
        push_str(&mut v, "log");
        push_string(&mut v, concat("--format=", format));
        push_str(&mut v, "--all");
        push_str(&mut v, "-i");
        push_string(&mut v, concat("--grep=", pattern));
        push_limit(&mut v, limit);
        assert(views(v@) =~= log_grep_args(pattern@, format@, limit));
        self.command(v)
    }

    /// The names of the files a commit changed.
    pub fn show_files(&self, commit_hash: &str) -> (r: GitCommand)
        ensures
            r.dir@ == self.path_view(),
            views(r.args@) == seq!["show"@, "--name-only"@, "--format="@, commit_hash@],
    {
        self.command(show_args("--name-only", "--format=", commit_hash))
    }

    /// The diff statistics of a commit.
    pub fn show_stat(&self, commit_hash: &str) -> (r: GitCommand)
        ensures
            r.dir@ == self.path_view(),
            views(r.args@) == seq!["show"@, "--stat"@, "--format="@, commit_hash@],
    {
        self.command(show_args("--stat", "--format=", commit_hash))
    }

    /// The full message of a commit.
    pub fn show_message(&self, commit_hash: &str) -> (r: GitCommand)
        ensures
            r.dir@ == self.path_view(),
            views(r.args@) == seq!["show"@, "-s"@, "--format=%B"@, commit_hash@],
    {
        self.command(show_args("-s", "--format=%B", commit_hash))
    }

    /// The blame of a file in porcelain form, of the lines `start` to `end`
    /// where a range is given.
    pub fn blame(&self, path: &str, line_range: Option<(u32, u32)>) -> (r: GitCommand)
        ensures
            r.dir@ == self.path_view(),
            views(r.args@) == blame_args(path@, line_range),
    {
        let mut v: Vec<String> = Vec::new();
        push_str(&mut v, "blame");
        push_str(&mut v, "--porcelain");
        match line_range {
            Some((start, end)) => {
                let a = concat("-L", decimal_string(start as u64).as_str());
                let b = concat(a.as_str(), ",");
                push_string(&mut v, concat(b.as_str(), decimal_string(end as u64).as_str()));
            },
            None => {},
        }
        push_str(&mut v, path);
        assert(views(v@) =~= blame_args(path@, line_range));
        self.command(v)
    }
}

/// The files that the output of `show_files` names: its non-empty lines.
pub fn changed_files(output: &str) -> (r: Vec<String>)
    ensures
        views(r@) == nonempty_lines(output@),
{
    let lines = lines_of_text(output);
    let ghost keep = |l: Seq<char>| l.len() > 0;
    let ghost all = views(lines@);
    let mut r: Vec<String> = Vec::new();
    let mut i: usize = 0;
    while i < lines.len()
        invariant
            i <= lines@.len(),
            all == views(lines@),
            all == text_lines(output@),
            keep == (|l: Seq<char>| l.len() > 0),
            views(r@) == all.take(i as int).filter(keep),
        decreases lines@.len() - i,
    {
        proof {
            assert(all.take(i + 1).drop_last() =~= all.take(i as int));
            reveal(Seq::filter);
        }
        if chars_of(lines[i].as_str()).len() > 0 {
            push_str(&mut r, lines[i].as_str());
        }
        i = i + 1;
    }
    proof {
        assert(all.take(i as int) =~= all);
    }
    r
}

/// What a history mining request asks for, each `None` where the request
/// leaves it out.
#[derive(Clone, Copy, Debug)]
pub struct MiningRequest {
    pub max_commits: Option<u64>,
    pub mine_bug_fixes: Option<bool>,
    pub mine_arch_decisions: Option<bool>,
    pub mine_breaking_changes: Option<bool>,
    pub mine_reverts: Option<bool>,
    pub mine_features: Option<bool>,
    pub mine_deprecations: Option<bool>,
    pub include_hotspots: Option<bool>,
    pub include_coupling: Option<bool>,
}

/// The settings of a history mining run.
#[derive(Clone, Copy, Debug, PartialEq, Eq, Structural)]
pub struct MiningSettings {
    pub max_commits: u64,
    pub mine_bug_fixes: bool,
    pub mine_arch_decisions: bool,
    pub mine_breaking_changes: bool,
    pub mine_reverts: bool,
    pub mine_features: bool,
    pub mine_deprecations: bool,
    pub include_hotspots: bool,
    pub include_coupling: bool,
}

/// A flag's value, `d` where it is not given.
pub open spec fn flag_or(b: Option<bool>, d: bool) -> bool {
    match b {
        Some(x) => x,
        None => d,
    }
}

fn flag(b: Option<bool>, d: bool) -> (r: bool)
    ensures
        r == flag_or(b, d),
{
    match b {
        Some(x) => x,
        None => d,
    }
}

/// The settings a mining request asks for: at most 500 commits, and every
/// kind of commit but features mined, hotspots and coupling not detected,
/// where the request does not say otherwise.
pub fn mining_settings(q: &MiningRequest) -> (r: MiningSettings)
    ensures
        r.max_commits == match q.max_commits {
            Some(n) => n,
            None => 500,
        },
        r.mine_bug_fixes == flag_or(q.mine_bug_fixes, true),
        r.mine_arch_decisions == flag_or(q.mine_arch_decisions, true),
        r.mine_breaking_changes == flag_or(q.mine_breaking_changes, true),
        r.mine_reverts == flag_or(q.mine_reverts, true),
        r.mine_features == flag_or(q.mine_features, false),
        r.mine_deprecations == flag_or(q.mine_deprecations, true),
        r.include_hotspots == flag_or(q.include_hotspots, false),
        r.include_coupling == flag_or(q.include_coupling, false),
{
    MiningSettings {
        max_commits: match q.max_commits {
            Some(n) => n,
            None => 500,
        },
        mine_bug_fixes: flag(q.mine_bug_fixes, true),
        mine_arch_decisions: flag(q.mine_arch_decisions, true),
        mine_breaking_changes: flag(q.mine_breaking_changes, true),
        mine_reverts: flag(q.mine_reverts, true),
        mine_features: flag(q.mine_features, false),
        mine_deprecations: flag(q.mine_deprecations, true),
        include_hotspots: flag(q.include_hotspots, false),
        include_coupling: flag(q.include_coupling, false),
    }
}

/// The commit message patterns a mining run greps for.
pub open spec fn grep_pattern_names() -> Seq<Seq<char>> {
    seq!["fix:"@, "bug:"@, "BREAKING"@, "revert"@, "arch:"@, "adr:"@, "feat:"@, "deprecate"@]
}

/// The commit message patterns a mining run greps for.
pub fn grep_patterns() -> (r: Vec<String>)
    ensures
        views(r@) == grep_pattern_names(),
{
    let mut v: Vec<String> = Vec::new();
    push_str(&mut v, "fix:");
    push_str(&mut v, "bug:");
    push_str(&mut v, "BREAKING");
    push_str(&mut v, "revert");
    push_str(&mut v, "arch:");
    push_str(&mut v, "adr:");
    push_str(&mut v, "feat:");
    push_str(&mut v, "deprecate");
    assert(views(v@) =~= grep_pattern_names());
    v
}

/// A file that changes often.
#[derive(Clone, Debug)]
pub struct Hotspot {
    pub file_path: String,
    pub change_count: u64,
    pub unique_commits: u64,
    pub recent_changes: Vec<String>,
}

/// The memory recorded for a hotspot.
#[derive(Clone, Debug)]
pub struct HotspotMemory {
    pub topic: String,
    pub description: String,
    pub title: String,
    pub content: String,
}

/// The texts of the memory recorded for a hotspot: its topic and title name
/// the file, its description and content give the change counts, and the
/// content lists the recent changes.
pub open spec fn hotspot_texts(h: Hotspot) -> (Seq<char>, Seq<char>, Seq<char>, Seq<char>) {
    let c = decimal(h.change_count as nat);
    let u = decimal(h.unique_commits as nat);
    (
        "High-activity file: "@ + h.file_path@,
        "Modified "@ + c + " times across "@ + u
            + " commits. This file shows high churn, indicating active development or potential complexity."@,
        "Hotspot: "@ + h.file_path@,
        "**Change Count:** "@ + c + "\n**Unique Commits:** "@ + u + "\n**Recent Changes:**\n"@ + joined(
            views(h.recent_changes@),
            "\n- "@,
        ),
    )
}

/// The memory recorded for a hotspot.
pub fn hotspot_memory(h: &Hotspot) -> (r: HotspotMemory)
    ensures
        (r.topic@, r.description@, r.title@, r.content@) == hotspot_texts(*h),
{
    let c = decimal_string(h.change_count);
    let u = decimal_string(h.unique_commits);
    let topic = concat("High-activity file: ", h.file_path.as_str());
    let d1 = concat("Modified ", c.as_str());
    let d2 = concat(d1.as_str(), " times across ");
    let d3 = concat(d2.as_str(), u.as_str());
    let description = concat(
        d3.as_str(),
        " commits. This file shows high churn, indicating active development or potential complexity.",
    );
    let title = concat("Hotspot: ", h.file_path.as_str());
    let k1 = concat("**Change Count:** ", c.as_str());
    let k2 = concat(k1.as_str(), "\n**Unique Commits:** ");
    let k3 = concat(k2.as_str(), u.as_str());
    let k4 = concat(k3.as_str(), "\n**Recent Changes:**\n");
    let recent = join_strings(&h.recent_changes, "\n- ");
    let content = concat(k4.as_str(), recent.as_str());
    HotspotMemory { topic, description, title, content }
}

} // verus!
