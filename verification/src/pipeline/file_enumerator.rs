//! The record of one file found in a dependency's directory.

use vstd::prelude::*;
use crate::helpers::filesystem::{joined, stripped_path, join_path, strip_path_prefix, normalize_path};
use crate::strs::{opt_seq, replace_char, seqs};
use crate::types::file::{DiscoveredFile, FileView};

verus! {

/// `path` relative to `dir` with forward slashes; the whole path, with forward
/// slashes, when it does not lie under `dir`.
pub open spec fn relative_under(path: Seq<char>, dir: Seq<char>) -> Seq<char> {
    replace_char(
        match stripped_path(path, dir) {
            Some(r) => r,
            None => path,
        },
        '\\',
        seq!['/'],
    )
}

/// The record of a file found under a package's directory: copied and prefixed,
/// not yet autoloaded, with its paths relative to the vendor and package
/// directories, and its target under the target directory.
pub open spec fn enumerated_file(
    source_path: Seq<char>,
    vendor_dir: Seq<char>,
    package_dir: Seq<char>,
    target_dir: Seq<char>,
    package_name: Seq<char>,
) -> FileView {
    let vendor_relative = relative_under(source_path, vendor_dir);
    FileView {
        source_absolute_path: source_path,
        vendor_relative_path: vendor_relative,
        absolute_target_path: joined(target_dir, vendor_relative),
        do_copy: true,
        do_prefix: true,
        do_delete: None,
        did_delete: false,
        did_update: false,
        is_autoloaded: false,
        autoloader_types: Seq::empty(),
        package_name: Some(package_name),
        package_relative_path: Some(relative_under(source_path, package_dir)),
        discovered_symbols: Seq::empty(),
        file_references: None,
    }
}

/// `path` relative to `dir` (see [`relative_under`]).
fn relative_to(path: &str, dir: &str) -> (r: String)
    ensures
        r@ == relative_under(path@, dir@),
{
    match strip_path_prefix(path, dir) {
        Some(x) => normalize_path(x.as_str()),
        None => normalize_path(path),
    }
}

/// The record of a file found under a package's directory (see [`enumerated_file`]).
pub fn enumerated_file_for(
    source_path: &str,
    vendor_dir: &str,
    package_dir: &str,
    target_dir: &str,
    package_name: &str,
) -> (r: DiscoveredFile)
    ensures
        r@ == enumerated_file(source_path@, vendor_dir@, package_dir@, target_dir@, package_name@),
{
    let vendor_relative = relative_to(source_path, vendor_dir);
    let package_relative = relative_to(source_path, package_dir);
    let target = join_path(target_dir, vendor_relative.as_str());
    let r = DiscoveredFile {
        source_absolute_path: crate::strs::to_owned(source_path),
        vendor_relative_path: vendor_relative,
        absolute_target_path: target,
        do_copy: true,
        do_prefix: true,
        do_delete: None,
        did_delete: false,
        did_update: false,
        is_autoloaded: false,
        autoloader_types: Vec::new(),
        package_name: Some(crate::strs::to_owned(package_name)),
        package_relative_path: Some(package_relative),
        discovered_symbols: Vec::new(),
        file_references: None,
    };
    assert(seqs(r.autoloader_types@) =~= Seq::<Seq<char>>::empty());
    assert(seqs(r.discovered_symbols@) =~= Seq::<Seq<char>>::empty());
    r
}

} // verus!
