//! Document URIs of requests, and the symbols the index holds for a file.
use vstd::prelude::*;
use tower_lsp::lsp_types::Url;
use crate::graph::CodeGraph;
use crate::navigation::{find_nearest_node, find_node_at_position, first_covering, nearest_node_fits};
use crate::text::str_eq;

verus! {

/// `url::Url`, as the LSP types crate re-exports it, carried as an opaque value.
#[verifier::external_type_specification]
#[verifier::external_body]
pub struct ExUrl(tower_lsp::lsp_types::Url);

/// Whether `url::Url::parse` accepts the text `uri` (a function of the text
/// alone).
pub uninterp spec fn url_parses(uri: Seq<char>) -> bool;

/// Why a request's document URI names no file.
#[derive(Clone, Copy, Debug, PartialEq, Eq, Structural)]
pub enum UriError {
    /// The text is not a URL.
    InvalidUri,
    /// The URL names no local file.
    InvalidFilePath,
}

/// Parses `uri` with `Url::parse`; `None` where it fails. The contract
/// claims only that success is what `url_parses` names.
#[verifier::external_body]
fn parse_url(uri: &str) -> (r: Option<Url>)
    ensures
        r is Some <==> url_parses(uri@),
{
    Url::parse(uri).ok()
}

/// The local path `Url::to_file_path` gives for `url`, as text; `None` where
/// it gives none. Which path a URL names depends on the platform the server
/// runs on, so nothing is claimed of the result.
#[verifier::external_body]
fn url_file_path(url: &Url) -> (r: Option<String>) {
    match url.to_file_path() {
        Ok(p) => Some(p.to_string_lossy().into_owned()),
        Err(_) => None,
    }
}

/// The file a request's document URI names: `InvalidUri` exactly when the
/// text is no URL, `InvalidFilePath` when the URL names no local file.
pub fn file_path_of_uri(uri: &str) -> (r: Result<String, UriError>)
    ensures
        (r matches Err(e) && e == UriError::InvalidUri) <==> !url_parses(uri@),
{
    match parse_url(uri) {
        None => Err(UriError::InvalidUri),
        Some(url) => match url_file_path(&url) {
            Some(p) => Ok(p),
            None => Err(UriError::InvalidFilePath),
        },
    }
}

/// The symbols the index holds for the file `path`: those of the first entry
/// for it, none where it has no entry.
pub open spec fn symbols_for(table: Seq<(String, Vec<u64>)>, path: Seq<char>) -> Seq<u64>
    decreases table.len(),
{
    if table.len() == 0 {
        seq![]
    } else if table[0].0@ == path {
        table[0].1@
    } else {
        symbols_for(table.drop_first(), path)
    }
}

/// The symbols the index holds for the file `path`.
pub fn symbols_of_file(table: &Vec<(String, Vec<u64>)>, path: &str) -> (r: Vec<u64>)
    ensures
        r@ == symbols_for(table@, path@),
{
    let mut i: usize = 0;
    assert(table@.skip(0) =~= table@);
    while i < table.len()
        invariant
            i <= table@.len(),
            symbols_for(table@, path@) == symbols_for(table@.skip(i as int), path@),
        decreases table@.len() - i,
    {
        proof {
            assert(table@.skip(i as int)[0] == table@[i as int]);
            assert(table@.skip(i as int).drop_first() =~= table@.skip(i + 1));
        }
        if str_eq(table[i].0.as_str(), path) {
            let ids = &table[i].1;
            let mut out: Vec<u64> = Vec::new();
            let mut k: usize = 0;
            while k < ids.len()
                invariant
                    k <= ids@.len(),
                    out@ == ids@.take(k as int),
                decreases ids@.len() - k,
            {
                out.push(ids[k]);
                k = k + 1;
                assert(out@ =~= ids@.take(k as int));
            }
            assert(ids@.take(k as int) =~= ids@);
            return out;
        }
        i = i + 1;
    }
    Vec::new()
}

/// The symbol at a 0-based position of the document `uri`: the first of the
/// symbols that `table` holds for the file it names that covers the position
/// (made 1-based). `InvalidUri` exactly when `uri` is no URL.
pub fn node_at_uri(
    g: &CodeGraph,
    uri: &str,
    line: u32,
    character: u32,
    table: &Vec<(String, Vec<u64>)>,
) -> (r: Result<Option<u64>, UriError>)
    requires
        g.wf(),
        line < u32::MAX,
    ensures
        (r matches Err(e) && e == UriError::InvalidUri) <==> !url_parses(uri@),
        r matches Ok(found) ==> exists|path: Seq<char>|
            found == first_covering(*g, #[trigger] symbols_for(table@, path), line + 1, character as int),
{
    let path = match file_path_of_uri(uri) {
        Ok(p) => p,
        Err(e) => {
            return Err(e);
        },
    };
    let symbols = symbols_of_file(table, path.as_str());
    let found = find_node_at_position(g, None, &symbols, line, character);
    assert(found == first_covering(*g, symbols_for(table@, path@), line + 1, character as int));
    Ok(found)
}

/// The symbol at a 0-based position of the document `uri`, or else the
/// nearest of the symbols that `table` holds for the file it names, flagged
/// as a fallback. `InvalidUri` exactly when `uri` is no URL.
pub fn nearest_node_at_uri(
    g: &CodeGraph,
    uri: &str,
    line: u32,
    character: u32,
    table: &Vec<(String, Vec<u64>)>,
) -> (r: Result<Option<(u64, bool)>, UriError>)
    requires
        g.wf(),
        line < u32::MAX,
    ensures
        (r matches Err(e) && e == UriError::InvalidUri) <==> !url_parses(uri@),
        r matches Ok(found) ==> exists|path: Seq<char>|
            nearest_node_fits(*g, None, #[trigger] symbols_for(table@, path), line, character, found),
{
    let path = match file_path_of_uri(uri) {
        Ok(p) => p,
        Err(e) => {
            return Err(e);
        },
    };
    let symbols = symbols_of_file(table, path.as_str());
    let found = find_nearest_node(g, None, &symbols, line, character);
    assert(nearest_node_fits(*g, None, symbols_for(table@, path@), line, character, found));
    Ok(found)
}

} // verus!
