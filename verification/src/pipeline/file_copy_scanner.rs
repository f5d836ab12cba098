//! Which files are copied, prefixed and deleted, by the copy exclusion rules.

use vstd::prelude::*;
use crate::config::strauss_config::StraussConfig;
use crate::matching::{CompiledRegex, regex_finds, regex_is_match};
use crate::pipeline::mark_symbols::{compile_all, compiled_from, compiling};
use crate::strs::{seqs, str_eq, vec_contains_str};
use crate::types::discovered_files::{DiscoveredFiles, file_views};
use crate::types::file::{DiscoveredFile, FileView};

verus! {

/// Some copy exclusion pattern that compiles matches the vendor path.
pub open spec fn copy_pattern_matches(patterns: Seq<Seq<char>>, path: Seq<char>) -> bool {
    exists|j: int| 0 <= j < compiling(patterns).len() && #[trigger] regex_finds(compiling(patterns)[j], path)
}

/// A file after the copy rules. A file of an excluded package, or whose vendor
/// path an exclusion pattern matches, is neither copied nor prefixed. Otherwise:
/// when the target directory is the vendor directory nothing is copied; with
/// vendor file deletion on, a file that is not a symbolic link is marked for
/// deletion; and a file that is not copied is not prefixed, unless files stay in
/// place.
pub open spec fn copy_scanned(
    f: FileView,
    packages: Seq<Seq<char>>,
    patterns: Seq<Seq<char>>,
    in_place: bool,
    delete_vendor_files: bool,
    is_symlink: bool,
) -> FileView {
    if (f.package_name matches Some(p) && packages.contains(p)) || copy_pattern_matches(patterns, f.vendor_relative_path) {
        FileView { do_copy: false, do_prefix: false, ..f }
    } else {
        let do_copy = if in_place { false } else { f.do_copy };
        let do_delete = if delete_vendor_files && !is_symlink { Some(true) } else { f.do_delete };
        let do_prefix = if !do_copy && !in_place { false } else { f.do_prefix };
        FileView { do_copy, do_delete, do_prefix, ..f }
    }
}

/// Whether files stay in place: the target directory is the vendor directory.
pub open spec fn in_place(config: StraussConfig) -> bool {
    config.target_directory@ == config.vendor_directory@
}

/// Whether some compiled pattern matches the path.
fn matches_any(compiled: &Vec<CompiledRegex>, path: &str, Ghost(raw): Ghost<Seq<Seq<char>>>) -> (r: bool)
    requires
        compiled_from(compiled@, raw),
    ensures
        r == copy_pattern_matches(raw, path@),
{
    let mut j: usize = 0;
    while j < compiled.len()
        invariant
            compiled_from(compiled@, raw),
            j <= compiled.len(),
            forall|b: int| 0 <= b < j ==> !regex_finds(#[trigger] compiled@[b].pattern(), path@),
        decreases compiled.len() - j,
    {
        if regex_is_match(&compiled[j], path) {
            assert(compiling(raw)[j as int] == compiled@[j as int].pattern());
            return true;
        }
        j += 1;
    }
    proof {
        if copy_pattern_matches(raw, path@) {
            let b = choose|b: int| 0 <= b < compiling(raw).len() && #[trigger] regex_finds(compiling(raw)[b], path@);
            assert(compiling(raw)[b] == compiled@[b].pattern());
        }
    }
    false
}

/// Applies the copy rules to every file (see [`copy_scanned`]). Whether a file is
/// a symbolic link is read from `symlinks`: the source paths that are links.
pub fn scan_files(files: &mut DiscoveredFiles, config: &StraussConfig, symlinks: &Vec<String>)
    ensures
        final(files)@.len() == old(files)@.len(),
        forall|i: int| 0 <= i < old(files)@.len() ==> #[trigger] final(files)@[i] == copy_scanned(
            old(files)@[i],
            seqs(config.exclude_from_copy.packages@),
            seqs(config.exclude_from_copy.file_patterns@),
            in_place(*config),
            config.delete_vendor_files,
            seqs(symlinks@).contains(old(files)@[i].source_absolute_path),
        ),
{
    let in_place_mode = str_eq(config.target_directory.as_str(), config.vendor_directory.as_str());
    let compiled = compile_all(&config.exclude_from_copy.file_patterns);
    let ghost raw = seqs(config.exclude_from_copy.file_patterns@);
    let ghost start = old(files)@;
    let mut j: usize = 0;
    while j < files.len()
        invariant
            j <= files@.len(),
            files@.len() == start.len(),
            in_place_mode == in_place(*config),
            compiled_from(compiled@, raw),
            raw == seqs(config.exclude_from_copy.file_patterns@),
            forall|i: int| 0 <= i < j ==> #[trigger] files@[i] == copy_scanned(
                start[i],
                seqs(config.exclude_from_copy.packages@),
                raw,
                in_place_mode,
                config.delete_vendor_files,
                seqs(symlinks@).contains(start[i].source_absolute_path),
            ),
            forall|i: int| j <= i < files@.len() ==> #[trigger] files@[i] == start[i],
        decreases files@.len() - j,
    {
        let mut f = files.get_files()[j].clone_file();
        let excluded_package = match &f.package_name {
            Some(p) => vec_contains_str(&config.exclude_from_copy.packages, p.as_str()),
            None => false,
        };
        if excluded_package || matches_any(&compiled, f.vendor_relative_path.as_str(), Ghost(raw)) {
            f.do_copy = false;
            f.do_prefix = false;
        } else {
            if in_place_mode {
                f.do_copy = false;
            }
            if config.delete_vendor_files && !vec_contains_str(symlinks, f.source_absolute_path.as_str()) {
                f.do_delete = Some(true);
            }
            if !f.do_copy && !in_place_mode {
                f.do_prefix = false;
            }
        }
        files.update_at(j, f);
        j += 1;
    }
}

} // verus!
