//! One Composer package (a dependency) with the metadata the pipeline needs.
//!
//! Where a package's directory is resolved on disk, the caller resolves it and
//! hands the resulting absolute path in.

use vstd::prelude::*;
use std::collections::HashMap;
use crate::strs::{clone_opt, clone_strings, distinct_in_order, lemma_distinct_in_order, opt_seq, seqs, to_owned, trim_end, trim_end_char, concat};
use crate::config::composer_json::{
    AutoloadConfig, ComposerJson, ComposerLockPackage, Psr4Value, empty_autoload, license_text,
    psr_keys, required_of, same_autoload,
};

verus! {

/// A PSR map as (namespace, paths) pairs.
pub open spec fn flat_psr(m: Seq<(String, Psr4Value)>) -> Seq<(Seq<char>, Seq<Seq<char>>)> {
    m.map_values(|e: (String, Psr4Value)| (e.0@, e.1.paths()))
}

/// The view of flattened (namespace, paths) pairs.
pub open spec fn flat_view(v: Seq<(String, Vec<String>)>) -> Seq<(Seq<char>, Seq<Seq<char>>)> {
    v.map_values(|e: (String, Vec<String>)| (e.0@, seqs(e.1@)))
}

/// Every (namespace, path) pair of a PSR map, entry by entry and path by path.
pub open spec fn psr_pairs(m: Seq<(String, Psr4Value)>) -> Seq<(Seq<char>, Seq<char>)>
    decreases m.len(),
{
    if m.len() == 0 {
        Seq::empty()
    } else {
        psr_pairs(m.drop_last()) + m.last().1.paths().map_values(|p: Seq<char>| (m.last().0@, p))
    }
}

/// Flattens a PSR map: each namespace with its list of paths.
fn flatten_psr4(psr: &Vec<(String, Psr4Value)>) -> (r: Vec<(String, Vec<String>)>)
    ensures
        flat_view(r@) == flat_psr(psr@),
{
    let mut out: Vec<(String, Vec<String>)> = Vec::new();
    let mut i: usize = 0;
    while i < psr.len()
        invariant
            i <= psr.len(),
            flat_view(out@) == flat_psr(psr@).take(i as int),
        decreases psr.len() - i,
    {
        let paths = psr[i].1.to_strings();
        let ghost pre = out@;
        out.push((psr[i].0.clone(), paths));
        assert(flat_view(out@) == flat_view(pre).push((psr@[i as int].0@, psr@[i as int].1.paths())));
        i += 1;
        assert(flat_psr(psr@).take(i as int) == flat_psr(psr@).take(i - 1).push(flat_psr(psr@)[i - 1]));
    }
    assert(flat_psr(psr@).take(psr.len() as int) == flat_psr(psr@));
    out
}

/// A Composer package: name, autoload configuration, requirements, license, and
/// where it lives and what happens to it in the pipeline.
#[derive(Debug, Clone)]
pub struct ComposerPackage {
    /// The package name, e.g. `vendor/package-name`.
    pub name: String,
    /// The version from `composer.lock`.
    pub version: Option<String>,
    /// The path relative to the vendor directory.
    pub relative_path: Option<String>,
    /// The absolute path of the package directory, as resolved on disk.
    pub absolute_path: Option<String>,
    /// The autoload configuration.
    pub autoload: AutoloadConfig,
    /// The packages this one requires (without `php` and `ext-*`).
    pub requires_names: Vec<String>,
    /// The license (comma-separated when there are several).
    pub license: String,
    /// Whether the package is to be copied to the target directory.
    pub is_copy: bool,
    /// Whether the package has been copied.
    pub did_copy: bool,
    /// Whether the package is to be deleted from the vendor directory.
    pub is_delete: bool,
    /// Whether the package has been deleted.
    pub did_delete: bool,
    /// PSR-4 namespaces with their directories, in file order.
    pub autoload_psr4: Vec<(String, Vec<String>)>,
    /// PSR-0 namespaces with their directories, in file order.
    pub autoload_psr0: Vec<(String, Vec<String>)>,
    /// Classmap directories.
    pub autoload_classmap: Vec<String>,
    /// Files autoloader entries.
    pub autoload_files: Vec<String>,
    /// The required packages again (same as `requires_names`).
    pub requires: Vec<String>,
}

/// The flattened autoload fields agree with the autoload configuration, and
/// `requires` with `requires_names`.
pub open spec fn flattened_agree(p: ComposerPackage) -> bool {
    &&& flat_view(p.autoload_psr4@) == flat_psr(p.autoload.psr4@)
    &&& flat_view(p.autoload_psr0@) == flat_psr(p.autoload.psr0@)
    &&& seqs(p.autoload_classmap@) == seqs(p.autoload.classmap@)
    &&& seqs(p.autoload_files@) == seqs(p.autoload.files@)
    &&& seqs(p.requires@) == seqs(p.requires_names@)
}

/// A new package is to be copied, and nothing has happened to it yet.
pub open spec fn fresh_flags(p: ComposerPackage) -> bool {
    p.is_copy && !p.did_copy && !p.is_delete && !p.did_delete
}

/// The name of a package read from its own `composer.json`: its `name`, or `__root__`.
pub open spec fn json_package_name(json: ComposerJson) -> Seq<char> {
    match json.name {
        Some(n) => n@,
        None => "__root__"@,
    }
}

/// The autoload section of a `composer.json` holds what `a` holds.
pub open spec fn has_json_autoload(json: ComposerJson, a: AutoloadConfig) -> bool {
    match json.autoload {
        Some(x) => same_autoload(a, x),
        None => empty_autoload(a),
    }
}

impl ComposerPackage {
    /// Builds a package around an autoload configuration, filling the flattened fields.
    fn assemble(
        name: String,
        version: Option<String>,
        relative_path: Option<String>,
        absolute_path: Option<String>,
        autoload: AutoloadConfig,
        requires_names: Vec<String>,
        license: String,
    ) -> (r: Self)
        ensures
            r.name == name,
            r.version == version,
            r.relative_path == relative_path,
            r.absolute_path == absolute_path,
            r.autoload == autoload,
            r.requires_names == requires_names,
            r.license == license,
            fresh_flags(r),
            flattened_agree(r),
    {
        let autoload_psr4 = flatten_psr4(&autoload.psr4);
        let autoload_psr0 = flatten_psr4(&autoload.psr0);
        let autoload_classmap = clone_strings(&autoload.classmap);
        let autoload_files = clone_strings(&autoload.files);
        let required = clone_strings(&requires_names);
        ComposerPackage {
            name,
            version,
            relative_path,
            absolute_path,
            autoload,
            requires_names,
            license,
            is_copy: true,
            did_copy: false,
            is_delete: false,
            did_delete: false,
            autoload_psr4,
            autoload_psr0,
            autoload_classmap,
            autoload_files,
            requires: required,
        }
    }

    /// The package described by a parsed `composer.json`; `absolute_path` is the
    /// resolved directory that holds the file.
    pub fn from_composer_json(json: &ComposerJson, absolute_path: Option<String>) -> (r: Self)
        ensures
            r.name@ == json_package_name(*json),
            opt_seq(r.version) == opt_seq(json.version),
            r.relative_path is None,
            r.absolute_path == absolute_path,
            has_json_autoload(*json, r.autoload),
            seqs(r.requires_names@) == required_of(json.require),
            r.license@ == license_text(json.license),
            fresh_flags(r),
            flattened_agree(r),
    {
        let name = match &json.name {
            Some(n) => n.clone(),
            None => to_owned("__root__"),
        };
        let autoload = json.autoload();
        let requires_names = json.require_names();
        let license = match &json.license {
            Some(l) => l.as_string(),
            None => to_owned("proprietary?"),
        };
        Self::assemble(name, clone_opt(&json.version), None, absolute_path, autoload, requires_names, license)
    }

    /// The package of a `composer.lock` entry. `absolute_path` is the resolved
    /// directory of the package; an override replaces the entry's autoload section.
    pub fn from_lock_entry(
        entry: &ComposerLockPackage,
        absolute_path: Option<String>,
        override_autoload: Option<&AutoloadConfig>,
    ) -> (r: Self)
        ensures
            r.name@ == entry.name@,
            opt_seq(r.version) == opt_seq(entry.version),
            opt_seq(r.relative_path) == Some(entry.name@),
            r.absolute_path == absolute_path,
            match override_autoload {
                Some(a) => same_autoload(r.autoload, *a),
                None => match entry.autoload {
                    Some(a) => same_autoload(r.autoload, a),
                    None => empty_autoload(r.autoload),
                },
            },
            seqs(r.requires_names@) == required_of(entry.require),
            r.license@ == license_text(entry.license),
            fresh_flags(r),
            flattened_agree(r),
    {
        let autoload = match override_autoload {
            Some(a) => a.clone_autoload(),
            None => entry.autoload(),
        };
        let requires_names = entry.require_names();
        let license = entry.license_string();
        Self::assemble(
            entry.name.clone(),
            clone_opt(&entry.version),
            Some(entry.name.clone()),
            absolute_path,
            autoload,
            requires_names,
            license,
        )
    }

    /// A package built from its parts (used for packages that have no directory).
    pub fn from_json_value(name: &str, autoload: AutoloadConfig, required: Vec<String>, license: &str) -> (r: Self)
        ensures
            r.name@ == name@,
            r.version is None,
            opt_seq(r.relative_path) == Some(name@),
            r.absolute_path is None,
            r.autoload == autoload,
            seqs(r.requires_names@) == seqs(required@),
            r.license@ == license@,
            fresh_flags(r),
            flattened_agree(r),
    {
        Self::assemble(to_owned(name), None, Some(to_owned(name)), None, autoload, required, to_owned(license))
    }

    /// The package in a vendor directory, read from the `composer.json` inside it,
    /// under the given name. `absolute_path` is the resolved package directory.
    pub fn from_vendor_dir(
        json: &ComposerJson,
        name: &str,
        absolute_path: Option<String>,
        override_autoload: &HashMap<String, serde_json::Value>,
    ) -> (r: Self)
        ensures
            r.name@ == name@,
            opt_seq(r.version) == opt_seq(json.version),
            opt_seq(r.relative_path) == Some(name@),
            r.absolute_path == absolute_path,
            has_json_autoload(*json, r.autoload),
            seqs(r.requires_names@) == required_of(json.require),
            r.license@ == license_text(json.license),
            fresh_flags(r),
            flattened_agree(r),
    {
        let pkg = Self::from_composer_json(json, absolute_path);
        Self::assemble(
            to_owned(name),
            pkg.version,
            Some(to_owned(name)),
            pkg.absolute_path,
            pkg.autoload,
            pkg.requires_names,
            pkg.license,
        )
    }

    /// The package of a `composer.lock` entry, with its entry's own autoload section.
    pub fn from_lock_package(
        entry: &ComposerLockPackage,
        absolute_path: Option<String>,
        override_autoload: &HashMap<String, serde_json::Value>,
    ) -> (r: Self)
        ensures
            r.name@ == entry.name@,
            opt_seq(r.version) == opt_seq(entry.version),
            opt_seq(r.relative_path) == Some(entry.name@),
            r.absolute_path == absolute_path,
            match entry.autoload {
                Some(a) => same_autoload(r.autoload, a),
                None => empty_autoload(r.autoload),
            },
            seqs(r.requires_names@) == required_of(entry.require),
            r.license@ == license_text(entry.license),
            fresh_flags(r),
            flattened_agree(r),
    {
        Self::from_lock_entry(entry, absolute_path, None)
    }

    /// The package name.
    pub fn name(&self) -> (r: &str)
        ensures
            r@ == self.name@,
    {
        self.name.as_str()
    }

    /// The version, if known.
    pub fn version(&self) -> (r: Option<&str>)
        ensures
            match r {
                Some(v) => self.version is Some && v@ == self.version.unwrap()@,
                None => self.version is None,
            },
    {
        match &self.version {
            Some(v) => Some(v.as_str()),
            None => None,
        }
    }

    /// The path relative to the vendor directory, ending in exactly one `/`.
    pub fn relative_path(&self) -> (r: Option<String>)
        ensures
            opt_seq(r) == match self.relative_path {
                Some(p) => Some(trim_end(p@, '/').push('/')),
                None => None,
            },
    {
        match &self.relative_path {
            Some(p) => {
                let t = trim_end_char(p.as_str(), '/');
                let r = concat(t.as_str(), "/");
                proof {
                    reveal_strlit("/");
                    assert("/"@ =~= seq!['/']);
                    assert(r@ =~= t@.push('/'));
                }
                Some(r)
            },
            None => None,
        }
    }

    /// The absolute path of the package directory.
    pub fn absolute_path(&self) -> (r: Option<&str>)
        ensures
            opt_seq(self.absolute_path) == match r {
                Some(p) => Some(p@),
                None => None::<Seq<char>>,
            },
    {
        match &self.absolute_path {
            Some(p) => Some(p.as_str()),
            None => None,
        }
    }

    /// The autoload configuration.
    pub fn autoload(&self) -> (r: &AutoloadConfig)
        ensures
            *r == self.autoload,
    {
        &self.autoload
    }

    /// Replaces the autoload configuration (the flattened fields stay as they are).
    pub fn set_autoload(&mut self, autoload: AutoloadConfig)
        ensures
            *final(self) == (ComposerPackage { autoload: autoload, ..*old(self) }),
    {
        self.autoload = autoload;
    }

    /// The packages this one requires.
    pub fn requires_names(&self) -> (r: &[String])
        ensures
            r@ == self.requires_names@,
    {
        self.requires_names.as_slice()
    }

    /// The license.
    pub fn license(&self) -> (r: &str)
        ensures
            r@ == self.license@,
    {
        self.license.as_str()
    }

    /// Whether the package is to be copied.
    pub fn is_copy(&self) -> (r: bool)
        ensures
            r == self.is_copy,
    {
        self.is_copy
    }

    /// Sets whether the package is to be copied.
    pub fn set_copy(&mut self, is_copy: bool)
        ensures
            *final(self) == (ComposerPackage { is_copy: is_copy, ..*old(self) }),
    {
        self.is_copy = is_copy;
    }

    /// Whether the package has been copied.
    pub fn did_copy(&self) -> (r: bool)
        ensures
            r == self.did_copy,
    {
        self.did_copy
    }

    /// Records whether the package has been copied.
    pub fn set_did_copy(&mut self, did_copy: bool)
        ensures
            *final(self) == (ComposerPackage { did_copy: did_copy, ..*old(self) }),
    {
        self.did_copy = did_copy;
    }

    /// Whether the package is to be deleted.
    pub fn is_delete(&self) -> (r: bool)
        ensures
            r == self.is_delete,
    {
        self.is_delete
    }

    /// Sets whether the package is to be deleted.
    pub fn set_delete(&mut self, is_delete: bool)
        ensures
            *final(self) == (ComposerPackage { is_delete: is_delete, ..*old(self) }),
    {
        self.is_delete = is_delete;
    }

    /// Whether the package has been deleted.
    pub fn did_delete(&self) -> (r: bool)
        ensures
            r == self.did_delete,
    {
        self.did_delete
    }

    /// Records whether the package has been deleted.
    pub fn set_did_delete(&mut self, did_delete: bool)
        ensures
            *final(self) == (ComposerPackage { did_delete: did_delete, ..*old(self) }),
    {
        self.did_delete = did_delete;
    }

    /// Sets the relative path.
    pub fn set_relative_path(&mut self, path: Option<String>)
        ensures
            *final(self) == (ComposerPackage { relative_path: path, ..*old(self) }),
    {
        self.relative_path = path;
    }

    /// Sets the absolute path.
    pub fn set_absolute_path(&mut self, path: Option<String>)
        ensures
            *final(self) == (ComposerPackage { absolute_path: path, ..*old(self) }),
    {
        self.absolute_path = path;
    }

    /// The PSR-4 namespace prefixes, each once, in order.
    pub fn psr4_namespaces(&self) -> (r: Vec<&str>)
        ensures
            r@.map_values(|s: &str| s@) == distinct_in_order(psr_keys(self.autoload.psr4@)),
            r@.map_values(|s: &str| s@).no_duplicates(),
    {
        namespaces_of(&self.autoload.psr4)
    }

    /// The PSR-0 namespace prefixes, each once, in order.
    pub fn psr0_namespaces(&self) -> (r: Vec<&str>)
        ensures
            r@.map_values(|s: &str| s@) == distinct_in_order(psr_keys(self.autoload.psr0@)),
            r@.map_values(|s: &str| s@).no_duplicates(),
    {
        namespaces_of(&self.autoload.psr0)
    }

    /// The classmap entries.
    pub fn classmap_entries(&self) -> (r: &[String])
        ensures
            r@ == self.autoload.classmap@,
    {
        self.autoload.classmap.as_slice()
    }

    /// The files entries.
    pub fn files_entries(&self) -> (r: &[String])
        ensures
            r@ == self.autoload.files@,
    {
        self.autoload.files.as_slice()
    }

    /// Every PSR-4 (namespace, path) pair.
    pub fn psr4_paths(&self) -> (r: Vec<(&str, &str)>)
        ensures
            r@.map_values(|e: (&str, &str)| (e.0@, e.1@)) == psr_pairs(self.autoload.psr4@),
    {
        pairs_of(&self.autoload.psr4)
    }

    /// Every PSR-0 (namespace, path) pair.
    pub fn psr0_paths(&self) -> (r: Vec<(&str, &str)>)
        ensures
            r@.map_values(|e: (&str, &str)| (e.0@, e.1@)) == psr_pairs(self.autoload.psr0@),
    {
        pairs_of(&self.autoload.psr0)
    }
}

/// The keys of a PSR map, each once, in order.
fn namespaces_of(m: &Vec<(String, Psr4Value)>) -> (r: Vec<&str>)
    ensures
        r@.map_values(|s: &str| s@) == distinct_in_order(psr_keys(m@)),
        r@.map_values(|s: &str| s@).no_duplicates(),
{
    let ghost keys = psr_keys(m@);
    let mut out: Vec<&str> = Vec::new();
    let mut i: usize = 0;
    while i < m.len()
        invariant
            i <= m.len(),
            keys == psr_keys(m@),
            out@.map_values(|s: &str| s@) == distinct_in_order(keys.take(i as int)),
        decreases m.len() - i,
    {
        assert(keys.take(i + 1).drop_last() =~= keys.take(i as int));
        assert(keys.take(i + 1).last() == m@[i as int].0@);
        let k = m[i].0.as_str();
        let mut seen = false;
        let mut j: usize = 0;
        while j < out.len()
            invariant
                j <= out@.len(),
                seen == (exists|x: int| 0 <= x < j && out@[x]@ == k@),
            decreases out.len() - j,
        {
            if crate::strs::str_eq(out[j], k) {
                seen = true;
            }
            j += 1;
        }
        proof {
            let v = out@.map_values(|s: &str| s@);
            if v.contains(k@) {
                let x = choose|x: int| 0 <= x < v.len() && v[x] == k@;
                assert(out@[x]@ == k@);
            }
            if seen {
                let x = choose|x: int| 0 <= x < j && out@[x]@ == k@;
                assert(v[x] == k@);
            }
        }
        if !seen {
            let ghost pre = out@;
            out.push(k);
            assert(out@.map_values(|s: &str| s@) =~= pre.map_values(|s: &str| s@).push(k@));
        }
        i += 1;
    }
    assert(keys.take(m.len() as int) =~= keys);
    proof {
        lemma_distinct_in_order(keys);
    }
    out
}

/// The (namespace, path) pairs of a PSR map.
fn pairs_of(m: &Vec<(String, Psr4Value)>) -> (r: Vec<(&str, &str)>)
    ensures
        r@.map_values(|e: (&str, &str)| (e.0@, e.1@)) == psr_pairs(m@),
{
    let mut out: Vec<(&str, &str)> = Vec::new();
    let mut i: usize = 0;
    while i < m.len()
        invariant
            i <= m.len(),
            out@.map_values(|e: (&str, &str)| (e.0@, e.1@)) == psr_pairs(m@.take(i as int)),
        decreases m.len() - i,
    {
        let ns = m[i].0.as_str();
        let paths = m[i].1.as_vec();
        let ghost base = out@.map_values(|e: (&str, &str)| (e.0@, e.1@));
        let ghost ps = m@[i as int].1.paths();
        let mut k: usize = 0;
        while k < paths.len()
            invariant
                k <= paths.len(),
                paths@.map_values(|s: &str| s@) == ps,
                ns@ == m@[i as int].0@,
                out@.map_values(|e: (&str, &str)| (e.0@, e.1@)) == base + ps.take(k as int).map_values(|p: Seq<char>| (ns@, p)),
            decreases paths.len() - k,
        {
            let ghost pre = out@;
            out.push((ns, paths[k]));
            assert(out@.map_values(|e: (&str, &str)| (e.0@, e.1@)) =~= pre.map_values(|e: (&str, &str)| (e.0@, e.1@)).push((ns@, paths@[k as int]@)));
            assert(ps.take(k + 1).map_values(|p: Seq<char>| (ns@, p)) =~= ps.take(k as int).map_values(|p: Seq<char>| (ns@, p)).push((ns@, ps[k as int])));
            k += 1;
        }
        assert(ps.take(paths.len() as int) == ps);
        assert(m@.take(i + 1).drop_last() == m@.take(i as int));
        assert(m@.take(i + 1).last() == m@[i as int]);
        i += 1;
    }
    assert(m@.take(m.len() as int) == m@);
    out
}

} // verus!
