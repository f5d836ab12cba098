//! Which files are copied, and which of them are rewritten on the way.

use vstd::prelude::*;
use crate::helpers::filesystem::is_php_path;
use crate::replacer::{ReplaceError, Replacer, replacement_outcome, original_names, result_view};
use crate::helpers::namespace_sort::pair_views;
use crate::strs::seqs;
use crate::types::discovered_files::{DiscoveredFiles, file_views};
use crate::types::file::{DiscoveredFile, FileView};
use crate::types::symbols_collection::DiscoveredSymbols;

verus! {

/// A file is rewritten when it is a PHP file to be prefixed; any other copied
/// file is copied as it is.
pub open spec fn rewritten(f: FileView) -> bool {
    is_php_path(f.source_absolute_path) && f.do_prefix
}

/// The indices of the files to copy, in order.
pub fn files_to_copy(files: &DiscoveredFiles) -> (r: Vec<usize>)
    ensures
        forall|k: int| 0 <= k < r@.len() ==> (r@[k] as int) < files@.len() && files@[r@[k] as int].do_copy,
        forall|k: int, l: int| 0 <= k < l < r@.len() ==> r@[k] < r@[l],
        forall|i: int| 0 <= i < files@.len() && files@[i].do_copy ==> exists|k: int| 0 <= k < r@.len() && r@[k] == i,
{
    let v = files.get_files();
    let mut out: Vec<usize> = Vec::new();
    let mut i: usize = 0;
    while i < v.len()
        invariant
            file_views(v@) == files@,
            i <= v.len(),
            forall|k: int| 0 <= k < out@.len() ==> (out@[k] as int) < i && files@[out@[k] as int].do_copy,
            forall|k: int, l: int| 0 <= k < l < out@.len() ==> out@[k] < out@[l],
            forall|j: int| 0 <= j < i && files@[j].do_copy ==> exists|k: int| 0 <= k < out@.len() && out@[k] == j,
        decreases v.len() - i,
    {
        assert(files@[i as int] == v@[i as int]@);
        let ghost pre = out@;
        if v[i].do_copy {
            out.push(i);
            assert(out@[out@.len() - 1] == i);
            assert forall|j: int| 0 <= j < i && files@[j].do_copy implies exists|k: int| 0 <= k < out@.len() && out@[k] == j by {
                let k = choose|k: int| 0 <= k < pre.len() && pre[k] == j;
                assert(out@[k] == pre[k]);
            }
        }
        i += 1;
    }
    out
}

/// Whether a file is rewritten while it is copied (see [`rewritten`]).
pub fn is_rewritten(file: &DiscoveredFile) -> (r: bool)
    ensures
        r == rewritten(file@),
{
    file.is_php_file() && file.do_prefix
}

/// The text a rewritten file gets in the target directory: its contents with all
/// replacements applied.
pub fn rewritten_contents(replacer: &Replacer, contents: &str, symbols: &DiscoveredSymbols) -> (r: Result<String, ReplaceError>)
    requires
        replacer.prepared() is Some,
    ensures
        replacement_outcome(
            replacer.classmap_prefix_view(),
            replacer.constants_prefix_view(),
            contents@,
            pair_views(replacer.prepared()->0.namespace_changes@),
            original_names(replacer.prepared()->0.global_classes@),
            seqs(replacer.prepared()->0.constants@),
            pair_views(replacer.prepared()->0.functions@),
            result_view(r),
        ),
{
    replacer.replace_in_string(contents, symbols)
}

} // verus!
