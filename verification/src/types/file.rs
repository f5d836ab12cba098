//! A file discovered in the project or in a vendor package.

use vstd::prelude::*;
use crate::strs::{clone_opt, clone_strings, is_prefix, opt_seq, seqs, starts_with, to_chars, from_char_range, trim_start, trim_start_char, vec_contains_str};
use crate::helpers::filesystem::{is_php_file, is_php_path};
use crate::types::file_references::{FileReferences, FileReferencesView};

verus! {

/// A file discovered in the project: a project source file or a vendor file.
#[derive(Debug, Clone)]
pub struct DiscoveredFile {
    /// The absolute path of the file on disk.
    pub source_absolute_path: String,
    /// The path relative to the vendor directory, e.g. `vendor/package/src/Foo.php`.
    pub vendor_relative_path: String,
    /// The absolute path the file is copied to.
    pub absolute_target_path: String,
    /// Whether the file is copied to the target directory.
    pub do_copy: bool,
    /// Whether symbols in the file are prefixed.
    pub do_prefix: bool,
    /// Whether the file is deleted from the source directory; `None` defers to the package.
    pub do_delete: Option<bool>,
    /// Whether the file has been deleted.
    pub did_delete: bool,
    /// Whether the file has had replacements applied.
    pub did_update: bool,
    /// Whether an autoloader configuration references the file.
    pub is_autoloaded: bool,
    /// The autoloader kinds that include the file (`psr-4`, `classmap`, `files`, ...).
    pub autoloader_types: Vec<String>,
    /// The Composer package of the file, if any.
    pub package_name: Option<String>,
    /// The path relative to the package root.
    pub package_relative_path: Option<String>,
    /// Original names of the symbols discovered in the file.
    pub discovered_symbols: Vec<String>,
    /// The names the file mentions, once parsed.
    pub file_references: Option<FileReferences>,
}

/// The mathematical value of a [`DiscoveredFile`].
pub struct FileView {
    pub source_absolute_path: Seq<char>,
    pub vendor_relative_path: Seq<char>,
    pub absolute_target_path: Seq<char>,
    pub do_copy: bool,
    pub do_prefix: bool,
    pub do_delete: Option<bool>,
    pub did_delete: bool,
    pub did_update: bool,
    pub is_autoloaded: bool,
    pub autoloader_types: Seq<Seq<char>>,
    pub package_name: Option<Seq<char>>,
    pub package_relative_path: Option<Seq<char>>,
    pub discovered_symbols: Seq<Seq<char>>,
    pub file_references: Option<FileReferencesView>,
}

impl View for DiscoveredFile {
    type V = FileView;

    open spec fn view(&self) -> FileView {
        FileView {
            source_absolute_path: self.source_absolute_path@,
            vendor_relative_path: self.vendor_relative_path@,
            absolute_target_path: self.absolute_target_path@,
            do_copy: self.do_copy,
            do_prefix: self.do_prefix,
            do_delete: self.do_delete,
            did_delete: self.did_delete,
            did_update: self.did_update,
            is_autoloaded: self.is_autoloaded,
            autoloader_types: seqs(self.autoloader_types@),
            package_name: opt_seq(self.package_name),
            package_relative_path: opt_seq(self.package_relative_path),
            discovered_symbols: seqs(self.discovered_symbols@),
            file_references: match self.file_references {
                Some(r) => Some(r@),
                None => None,
            },
        }
    }
}

/// `s` without the prefix `p`, when `s` starts with `p` (as `str::strip_prefix`).
pub open spec fn strip_prefix_of(s: Seq<char>, p: Seq<char>) -> Option<Seq<char>> {
    if is_prefix(p, s) {
        Some(s.skip(p.len() as int))
    } else {
        None
    }
}

/// `s` without the prefix `p`, when `s` starts with `p`.
pub fn strip_prefix(s: &str, p: &str) -> (r: Option<String>)
    ensures
        opt_seq(r) == strip_prefix_of(s@, p@),
{
    if starts_with(s, p) {
        let c = to_chars(s);
        let q = to_chars(p);
        let r = from_char_range(c.as_slice(), q.len(), c.len());
        assert(c@.subrange(q@.len() as int, c@.len() as int) == s@.skip(p@.len() as int));
        Some(r)
    } else {
        None
    }
}

impl DiscoveredFile {
    /// A copy of this file record.
    pub fn clone_file(&self) -> (r: Self)
        ensures
            r@ == self@,
    {
        DiscoveredFile {
            source_absolute_path: self.source_absolute_path.clone(),
            vendor_relative_path: self.vendor_relative_path.clone(),
            absolute_target_path: self.absolute_target_path.clone(),
            do_copy: self.do_copy,
            do_prefix: self.do_prefix,
            do_delete: self.do_delete,
            did_delete: self.did_delete,
            did_update: self.did_update,
            is_autoloaded: self.is_autoloaded,
            autoloader_types: clone_strings(&self.autoloader_types),
            package_name: clone_opt(&self.package_name),
            package_relative_path: clone_opt(&self.package_relative_path),
            discovered_symbols: clone_strings(&self.discovered_symbols),
            file_references: match &self.file_references {
                Some(r) => Some(r.clone_refs()),
                None => None,
            },
        }
    }

    /// A project source file or autoload file, belonging to no package: copied, not
    /// prefixed, not deleted, target path equal to its source path.
    pub fn new(source_absolute_path: String, vendor_relative_path: String) -> (r: Self)
        ensures
            r@ == (FileView {
                source_absolute_path: source_absolute_path@,
                vendor_relative_path: vendor_relative_path@,
                absolute_target_path: source_absolute_path@,
                do_copy: true,
                do_prefix: false,
                do_delete: Some(false),
                did_delete: false,
                did_update: false,
                is_autoloaded: false,
                autoloader_types: Seq::empty(),
                package_name: None,
                package_relative_path: None,
                discovered_symbols: Seq::empty(),
                file_references: None,
            }),
    {
        let absolute_target_path = source_absolute_path.clone();
        let r = DiscoveredFile {
            source_absolute_path,
            vendor_relative_path,
            absolute_target_path,
            do_copy: true,
            do_prefix: false,
            do_delete: Some(false),
            did_delete: false,
            did_update: false,
            is_autoloaded: false,
            autoloader_types: Vec::new(),
            package_name: None,
            package_relative_path: None,
            discovered_symbols: Vec::new(),
            file_references: None,
        };
        assert(seqs(r.autoloader_types@) =~= Seq::<Seq<char>>::empty());
        assert(seqs(r.discovered_symbols@) =~= Seq::<Seq<char>>::empty());
        r
    }

    /// A file of a dependency package. The package-relative path is the source path
    /// without the package path as a prefix (when it is one); leading `/` and then
    /// leading `\` are removed from the vendor-relative path; deletion defers to the
    /// package.
    pub fn new_with_dependency(
        source_absolute_path: String,
        vendor_relative_path: String,
        package_name: String,
        package_absolute_path: &str,
    ) -> (r: Self)
        ensures
            r@ == (FileView {
                source_absolute_path: source_absolute_path@,
                vendor_relative_path: trim_start(trim_start(vendor_relative_path@, '/'), '\\'),
                absolute_target_path: source_absolute_path@,
                do_copy: true,
                do_prefix: false,
                do_delete: None,
                did_delete: false,
                did_update: false,
                is_autoloaded: false,
                autoloader_types: Seq::empty(),
                package_name: Some(package_name@),
                package_relative_path: strip_prefix_of(source_absolute_path@, package_absolute_path@),
                discovered_symbols: Seq::empty(),
                file_references: None,
            }),
    {
        let absolute_target_path = source_absolute_path.clone();
        let package_relative_path = strip_prefix(source_absolute_path.as_str(), package_absolute_path);
        let t = trim_start_char(vendor_relative_path.as_str(), '/');
        let vendor_relative_path = trim_start_char(t.as_str(), '\\');
        let r = DiscoveredFile {
            source_absolute_path,
            vendor_relative_path,
            absolute_target_path,
            do_copy: true,
            do_prefix: false,
            do_delete: None,
            did_delete: false,
            did_update: false,
            is_autoloaded: false,
            autoloader_types: Vec::new(),
            package_name: Some(package_name),
            package_relative_path,
            discovered_symbols: Vec::new(),
            file_references: None,
        };
        assert(seqs(r.autoloader_types@) =~= Seq::<Seq<char>>::empty());
        assert(seqs(r.discovered_symbols@) =~= Seq::<Seq<char>>::empty());
        r
    }

    /// Whether the source path has a `.php` extension, in any ASCII case.
    pub fn is_php_file(&self) -> (r: bool)
        ensures
            r == is_php_path(self@.source_absolute_path),
    {
        is_php_file(self.source_absolute_path.as_str())
    }

    /// Whether a `files` autoloader entry includes this file.
    pub fn is_files_autoloader_file(&self) -> (r: bool)
        ensures
            r == self@.autoloader_types.contains("files"@),
    {
        vec_contains_str(&self.autoloader_types, "files")
    }

    /// The source path.
    pub fn get_source_path(&self) -> (r: &str)
        ensures
            r@ == self@.source_absolute_path,
    {
        self.source_absolute_path.as_str()
    }

    /// The target path.
    pub fn get_absolute_target_path(&self) -> (r: &str)
        ensures
            r@ == self@.absolute_target_path,
    {
        self.absolute_target_path.as_str()
    }

    /// Records an autoloader kind, unless it is already listed.
    pub fn add_autoloader(&mut self, autoloader_type: String)
        ensures
            final(self)@ == (FileView {
                autoloader_types: if old(self)@.autoloader_types.contains(autoloader_type@) {
                    old(self)@.autoloader_types
                } else {
                    old(self)@.autoloader_types.push(autoloader_type@)
                },
                ..old(self)@
            }),
    {
        if !vec_contains_str(&self.autoloader_types, autoloader_type.as_str()) {
            let ghost pre = self.autoloader_types@;
            self.autoloader_types.push(autoloader_type);
            assert(seqs(self.autoloader_types@) == seqs(pre).push(autoloader_type@));
        }
    }

    /// Records a discovered symbol name, unless it is already listed.
    pub fn add_discovered_symbol(&mut self, symbol_key: String)
        ensures
            final(self)@ == (FileView {
                discovered_symbols: if old(self)@.discovered_symbols.contains(symbol_key@) {
                    old(self)@.discovered_symbols
                } else {
                    old(self)@.discovered_symbols.push(symbol_key@)
                },
                ..old(self)@
            }),
    {
        if !vec_contains_str(&self.discovered_symbols, symbol_key.as_str()) {
            let ghost pre = self.discovered_symbols@;
            self.discovered_symbols.push(symbol_key);
            assert(seqs(self.discovered_symbols@) == seqs(pre).push(symbol_key@));
        }
    }

    /// Whether the file belongs to a dependency package.
    pub fn has_dependency(&self) -> (r: bool)
        ensures
            r == (self@.package_name is Some),
    {
        self.package_name.is_some()
    }

    /// Whether the file is marked for deletion (an unset mark counts as no).
    pub fn is_do_delete(&self) -> (r: bool)
        ensures
            r == (self@.do_delete == Some(true)),
    {
        match self.do_delete {
            Some(b) => b,
            None => false,
        }
    }
}

} // verus!
