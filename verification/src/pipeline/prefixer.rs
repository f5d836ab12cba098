//! Updating the project's own files (the call sites) with the prefixed names.

use vstd::prelude::*;
use crate::helpers::filesystem::{extension_of, path_extension};
use crate::helpers::namespace_sort::pair_views;
use crate::replacer::{original_names, replacement_outcome, result_view, ReplaceError, Replacer};
use crate::strs::{opt_seq, seqs, str_eq};
use crate::types::symbols_collection::DiscoveredSymbols;

verus! {

/// Whether a path's extension is exactly `php` (the case matters here).
pub fn has_php_extension(path: &str) -> (r: bool)
    ensures
        r == (extension_of(path@) == Some("php"@)),
{
    match path_extension(path) {
        Some(e) => str_eq(e.as_str(), "php"),
        None => false,
    }
}

/// What a project file is rewritten to: the replaced text when the replacement
/// succeeded and changed the file; nothing otherwise.
pub open spec fn project_update(res: Result<Seq<char>, ReplaceError>, contents: Seq<char>) -> Option<Seq<char>> {
    match res {
        Ok(x) => if x != contents { Some(x) } else { None },
        Err(_) => None,
    }
}

/// What a project file is rewritten to (see [`project_update`]), the replacement
/// being that of the prepared replacer.
pub fn project_file_update(replacer: &Replacer, contents: &str, symbols: &DiscoveredSymbols) -> (r: Option<String>)
    requires
        replacer.prepared() is Some,
    ensures
        exists|res: Result<Seq<char>, ReplaceError>|
            #[trigger] replacement_outcome(
                replacer.classmap_prefix_view(),
                replacer.constants_prefix_view(),
                contents@,
                pair_views(replacer.prepared()->0.namespace_changes@),
                original_names(replacer.prepared()->0.global_classes@),
                seqs(replacer.prepared()->0.constants@),
                pair_views(replacer.prepared()->0.functions@),
                res,
            ) && opt_seq(r) == project_update(res, contents@),
{
    let res = replacer.replace_in_string(contents, symbols);
    let ghost rv = result_view(res);
    match res {
        Ok(updated) => {
            if str_eq(updated.as_str(), contents) {
                None
            } else {
                Some(updated)
            }
        },
        Err(_) => None,
    }
}

} // verus!
