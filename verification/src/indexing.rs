//! Which entries of a workspace directory get indexed: hidden entries and
//! build or dependency directories are skipped, other directories are walked,
//! and files whose extension a parser supports are parsed.
use vstd::prelude::*;
use crate::text::{chars_of, str_eq, views};

verus! {

/// What indexing does with a directory entry.
#[derive(Clone, Copy, Debug, PartialEq, Eq, Structural)]
pub enum EntryAction {
    Skip,
    Descend,
    Parse,
}

/// A directory that indexing never walks into.
pub open spec fn skipped_dir(name: Seq<char>) -> bool {
    name == "node_modules"@ || name == "target"@ || name == "dist"@ || name == "build"@ || name == ".git"@
        || name == "__pycache__"@
}

/// `s` without its leading dots.
pub open spec fn without_leading_dots(s: Seq<char>) -> Seq<char>
    decreases s.len(),
{
    if s.len() > 0 && s[0] == '.' {
        without_leading_dots(s.drop_first())
    } else {
        s
    }
}

/// Whether a parser supports extension `ext`: some supported extension,
/// without its leading dots, is `ext`.
pub open spec fn supported_ext(ext: Seq<char>, supported: Seq<Seq<char>>) -> bool {
    exists|k: int| 0 <= k < supported.len() && without_leading_dots(#[trigger] supported[k]) == ext
}

/// What indexing does with the entry `name`: skip it when it is hidden (its
/// name starts with a dot); walk it when it is a directory other than the
/// skipped ones; parse it when it is a file whose extension is supported;
/// else skip it.
pub open spec fn entry_action_of(
    name: Seq<char>,
    is_dir: bool,
    is_file: bool,
    ext: Option<Seq<char>>,
    supported: Seq<Seq<char>>,
) -> EntryAction {
    if name.len() > 0 && name[0] == '.' {
        EntryAction::Skip
    } else if is_dir {
        if skipped_dir(name) {
            EntryAction::Skip
        } else {
            EntryAction::Descend
        }
    } else if is_file {
        match ext {
            Some(e) => if supported_ext(e, supported) {
                EntryAction::Parse
            } else {
                EntryAction::Skip
            },
            None => EntryAction::Skip,
        }
    } else {
        EntryAction::Skip
    }
}

fn strip_leading_dots(s: &str) -> (r: Vec<char>)
    ensures
        r@ == without_leading_dots(s@),
{
    let cs = chars_of(s);
    let mut i: usize = 0;
    assert(cs@.skip(0) =~= cs@);
    while i < cs.len() && cs[i] == '.'
        invariant
            i <= cs@.len(),
            cs@ == s@,
            without_leading_dots(s@) == without_leading_dots(cs@.skip(i as int)),
        decreases cs@.len() - i,
    {
        proof {
            assert(cs@.skip(i as int).drop_first() =~= cs@.skip(i + 1));
        }
        i = i + 1;
    }
    let mut r: Vec<char> = Vec::new();
    let mut j: usize = i;
    while j < cs.len()
        invariant
            i <= j <= cs@.len(),
            r@ == cs@.subrange(i as int, j as int),
        decreases cs@.len() - j,
    {
        r.push(cs[j]);
        proof {
            assert(cs@.subrange(i as int, j + 1) =~= cs@.subrange(i as int, j as int).push(cs@[j as int]));
        }
        j = j + 1;
    }
    proof {
        assert(cs@.skip(i as int) =~= cs@.subrange(i as int, cs@.len() as int));
    }
    r
}

fn chars_eq(a: &Vec<char>, b: &Vec<char>) -> (r: bool)
    ensures
        r == (a@ == b@),
{
    if a.len() != b.len() {
        return false;
    }
    let mut i: usize = 0;
    while i < a.len()
        invariant
            a@.len() == b@.len(),
            i <= a@.len(),
            forall|k: int| 0 <= k < i ==> a@[k] == b@[k],
        decreases a@.len() - i,
    {
        if a[i] != b[i] {
            return false;
        }
        i = i + 1;
    }
    assert(a@ =~= b@);
    true
}

/// What indexing does with the directory entry `name`, which is a directory
/// or a file as `is_dir` and `is_file` say and has extension `ext`, given
/// the extensions the parsers support.
pub fn entry_action(
    name: &str,
    is_dir: bool,
    is_file: bool,
    ext: Option<&str>,
    supported: &Vec<String>,
) -> (r: EntryAction)
    ensures
        r == entry_action_of(
            name@,
            is_dir,
            is_file,
            match ext {
                Some(e) => Some(e@),
                None => None,
            },
            views(supported@),
        ),
{
    let cs = chars_of(name);
    if cs.len() > 0 && cs[0] == '.' {
        return EntryAction::Skip;
    }
    if is_dir {
        if str_eq(name, "node_modules") || str_eq(name, "target") || str_eq(name, "dist") || str_eq(name, "build")
            || str_eq(name, ".git") || str_eq(name, "__pycache__") {
            return EntryAction::Skip;
        }
        return EntryAction::Descend;
    }
    if !is_file {
        return EntryAction::Skip;
    }
    let e = match ext {
        Some(e) => chars_of(e),
        None => {
            return EntryAction::Skip;
        },
    };
    let mut k: usize = 0;
    while k < supported.len()
        invariant
            k <= supported@.len(),
            !is_dir && is_file,
            !(name@.len() > 0 && name@[0] == '.'),
            ext matches Some(x) && x@ == e@,
            forall|j: int| 0 <= j < k ==> without_leading_dots(#[trigger] views(supported@)[j]) != e@,
        decreases supported@.len() - k,
    {
        let s = strip_leading_dots(supported[k].as_str());
        if chars_eq(&s, &e) {
            assert(without_leading_dots(views(supported@)[k as int]) == e@);
            assert(supported_ext(e@, views(supported@)));
            return EntryAction::Parse;
        }
        k = k + 1;
    }
    EntryAction::Skip
}

} // verus!
