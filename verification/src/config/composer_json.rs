//! The contents of `composer.json` and `composer.lock` that the prefixer reads.
//!
//! Maps of the JSON files are held as lists of entries in file order.

use vstd::prelude::*;
use std::collections::HashMap;
use crate::strs::{clone_opt, clone_strings, distinct_in_order, distinct_strings, is_prefix, lemma_distinct_in_order, join, join_str, opt_seq, seqs, split_char, split_char_str, starts_with, str_eq, to_owned, trim_slashes, trim_slashes_str, lemma_split_nonempty};

verus! {

#[verifier::external_type_specification]
#[verifier::external_body]
pub struct ExJsonValue(serde_json::Value);

/// A JSON setting that may be a boolean, a string, a list, or absent (`null`),
/// reduced to what the configuration reads of it.
#[derive(Debug, Clone)]
pub enum ConfigValue {
    Null,
    Bool(bool),
    Str(String),
    /// A list; each element is its string, or `None` when it is not a string.
    List(Vec<Option<String>>),
    /// Any other JSON value (a number or an object).
    Other,
}

/// PSR-4/PSR-0 paths: a single path or a list of paths.
#[derive(Debug, Clone)]
pub enum Psr4Value {
    Single(String),
    Multiple(Vec<String>),
}

impl Psr4Value {
    /// The paths, in order.
    pub open spec fn paths(&self) -> Seq<Seq<char>> {
        match self {
            Psr4Value::Single(s) => seq![s@],
            Psr4Value::Multiple(v) => seqs(v@),
        }
    }

    /// All paths as a list.
    pub fn as_vec(&self) -> (r: Vec<&str>)
        ensures
            r@.map_values(|s: &str| s@) == self.paths(),
    {
        match self {
            Psr4Value::Single(s) => {
                let r = vec![s.as_str()];
                assert(r@.map_values(|s: &str| s@) =~= seq![s@]);
                r
            },
            Psr4Value::Multiple(v) => {
                let mut out: Vec<&str> = Vec::new();
                let mut i: usize = 0;
                while i < v.len()
                    invariant
                        i <= v.len(),
                        out@.len() == i,
                        forall|j: int| 0 <= j < i ==> out@[j]@ == v@[j]@,
                    decreases v.len() - i,
                {
                    out.push(v[i].as_str());
                    i += 1;
                }
                assert(out@.map_values(|s: &str| s@) =~= seqs(v@));
                out
            },
        }
    }

    /// All paths as owned strings.
    pub fn to_strings(&self) -> (r: Vec<String>)
        ensures
            seqs(r@) == self.paths(),
    {
        match self {
            Psr4Value::Single(s) => {
                let r = vec![s.clone()];
                assert(seqs(r@) =~= seq![s@]);
                r
            },
            Psr4Value::Multiple(v) => clone_strings(v),
        }
    }
}

/// The namespace keys of a PSR map, in order.
pub open spec fn psr_keys(m: Seq<(String, Psr4Value)>) -> Seq<Seq<char>> {
    m.map_values(|e: (String, Psr4Value)| e.0@)
}

/// All paths of a PSR map, entry by entry.
pub open spec fn psr_paths(m: Seq<(String, Psr4Value)>) -> Seq<Seq<char>>
    decreases m.len(),
{
    if m.len() == 0 {
        Seq::empty()
    } else {
        psr_paths(m.drop_last()) + m.last().1.paths()
    }
}

/// The `autoload` (or `autoload-dev`) section of `composer.json`.
#[derive(Debug, Clone, Default)]
pub struct AutoloadConfig {
    /// PSR-4 mappings: namespace prefix and its path(s), in file order.
    pub psr4: Vec<(String, Psr4Value)>,
    /// PSR-0 mappings, in file order.
    pub psr0: Vec<(String, Psr4Value)>,
    /// Classmap directories and files.
    pub classmap: Vec<String>,
    /// Files always loaded.
    pub files: Vec<String>,
    /// Paths excluded from classmap generation.
    pub exclude_from_classmap: Vec<String>,
}

/// A copy of a PSR map.
fn clone_psr(m: &Vec<(String, Psr4Value)>) -> (r: Vec<(String, Psr4Value)>)
    ensures
        r@.len() == m@.len(),
        forall|i: int| 0 <= i < m@.len() ==> r@[i].0@ == m@[i].0@ && r@[i].1.paths() == m@[i].1.paths(),
{
    let mut out: Vec<(String, Psr4Value)> = Vec::new();
    let mut i: usize = 0;
    while i < m.len()
        invariant
            i <= m.len(),
            out@.len() == i,
            forall|j: int| 0 <= j < i ==> out@[j].0@ == m@[j].0@ && out@[j].1.paths() == m@[j].1.paths(),
        decreases m.len() - i,
    {
        let v = match &m[i].1 {
            Psr4Value::Single(s) => Psr4Value::Single(s.clone()),
            Psr4Value::Multiple(v) => Psr4Value::Multiple(clone_strings(v)),
        };
        out.push((m[i].0.clone(), v));
        i += 1;
    }
    out
}

/// Two PSR maps with the same keys and paths, entry by entry.
pub open spec fn same_psr(a: Seq<(String, Psr4Value)>, b: Seq<(String, Psr4Value)>) -> bool {
    a.len() == b.len() && forall|i: int| 0 <= i < a.len() ==> a[i].0@ == b[i].0@ && a[i].1.paths() == b[i].1.paths()
}

/// Two autoload sections with the same contents.
pub open spec fn same_autoload(a: AutoloadConfig, b: AutoloadConfig) -> bool {
    &&& same_psr(a.psr4@, b.psr4@)
    &&& same_psr(a.psr0@, b.psr0@)
    &&& seqs(a.classmap@) == seqs(b.classmap@)
    &&& seqs(a.files@) == seqs(b.files@)
    &&& seqs(a.exclude_from_classmap@) == seqs(b.exclude_from_classmap@)
}

/// An empty autoload section.
pub open spec fn empty_autoload(a: AutoloadConfig) -> bool {
    a.psr4@.len() == 0 && a.psr0@.len() == 0 && a.classmap@.len() == 0 && a.files@.len() == 0
        && a.exclude_from_classmap@.len() == 0
}

proof fn lemma_psr_paths_same(a: Seq<(String, Psr4Value)>, b: Seq<(String, Psr4Value)>)
    requires
        same_psr(a, b),
    ensures
        psr_paths(a) == psr_paths(b),
        psr_keys(a) == psr_keys(b),
    decreases a.len(),
{
    if a.len() > 0 {
        lemma_psr_paths_same(a.drop_last(), b.drop_last());
    }
    assert(psr_keys(a) =~= psr_keys(b));
}

/// Two autoload sections with the same contents have the same keys and paths.
pub proof fn lemma_same_autoload_paths(a: AutoloadConfig, b: AutoloadConfig)
    requires
        same_autoload(a, b),
    ensures
        a.all_paths() == b.all_paths(),
        psr_keys(a.psr4@) == psr_keys(b.psr4@),
        psr_keys(a.psr0@) == psr_keys(b.psr0@),
        forall|t: Seq<char>| a.has_path(t) == b.has_path(t),
{
    lemma_psr_paths_same(a.psr4@, b.psr4@);
    lemma_psr_paths_same(a.psr0@, b.psr0@);
}

/// An empty autoload section holds no path.
pub proof fn lemma_empty_autoload_paths(a: AutoloadConfig)
    requires
        empty_autoload(a),
    ensures
        a.all_paths().len() == 0,
        forall|t: Seq<char>| !a.has_path(t),
{
    assert(psr_paths(a.psr4@) =~= Seq::<Seq<char>>::empty());
    assert(psr_paths(a.psr0@) =~= Seq::<Seq<char>>::empty());
    assert(a.all_paths() =~= Seq::<Seq<char>>::empty());
}

impl AutoloadConfig {
    /// A copy of this section.
    pub fn clone_autoload(&self) -> (r: Self)
        ensures
            same_autoload(r, *self),
    {
        AutoloadConfig {
            psr4: clone_psr(&self.psr4),
            psr0: clone_psr(&self.psr0),
            classmap: clone_strings(&self.classmap),
            files: clone_strings(&self.files),
            exclude_from_classmap: clone_strings(&self.exclude_from_classmap),
        }
    }

    /// An empty section.
    pub fn empty() -> (r: Self)
        ensures
            empty_autoload(r),
    {
        AutoloadConfig {
            psr4: Vec::new(),
            psr0: Vec::new(),
            classmap: Vec::new(),
            files: Vec::new(),
            exclude_from_classmap: Vec::new(),
        }
    }

    /// All paths: PSR-4, then PSR-0, then classmap, then files.
    pub open spec fn all_paths(&self) -> Seq<Seq<char>> {
        psr_paths(self.psr4@) + psr_paths(self.psr0@) + seqs(self.classmap@) + seqs(self.files@)
    }

    /// The first PSR-4 namespace key.
    pub fn first_psr4_key(&self) -> (r: Option<&str>)
        ensures
            match r {
                Some(k) => self.psr4@.len() > 0 && k@ == self.psr4@[0].0@,
                None => self.psr4@.len() == 0,
            },
    {
        if self.psr4.len() > 0 {
            Some(self.psr4[0].0.as_str())
        } else {
            None
        }
    }

    /// The first PSR-0 namespace key.
    pub fn first_psr0_key(&self) -> (r: Option<&str>)
        ensures
            match r {
                Some(k) => self.psr0@.len() > 0 && k@ == self.psr0@[0].0@,
                None => self.psr0@.len() == 0,
            },
    {
        if self.psr0.len() > 0 {
            Some(self.psr0[0].0.as_str())
        } else {
            None
        }
    }

    /// All autoload paths in one list (see [`AutoloadConfig::all_paths`]).
    pub fn flat_paths(&self) -> (r: Vec<String>)
        ensures
            seqs(r@) == self.all_paths(),
    {
        let mut result = flatten_psr_paths(&self.psr4);
        let mut b = flatten_psr_paths(&self.psr0);
        let ghost av = seqs(result@);
        let ghost bv = seqs(b@);
        result.append(&mut b);
        assert(seqs(result@) =~= av + bv);
        let mut c = clone_strings(&self.classmap);
        let ghost rv = seqs(result@);
        let ghost cv = seqs(c@);
        result.append(&mut c);
        assert(seqs(result@) =~= rv + cv);
        let mut d = clone_strings(&self.files);
        let ghost rv2 = seqs(result@);
        let ghost dv = seqs(d@);
        result.append(&mut d);
        assert(seqs(result@) =~= rv2 + dv);
        result
    }

    /// Some autoload path names the same directory as `target`, both taken without
    /// leading and trailing slashes.
    pub open spec fn has_path(&self, target: Seq<char>) -> bool {
        exists|i: int| 0 <= i < self.all_paths().len()
            && trim_slashes(#[trigger] self.all_paths()[i]).push('/') == trim_slashes(target).push('/')
    }

    /// Whether some autoload path names the same directory as `target`, both taken
    /// without leading and trailing slashes.
    pub fn contains_path(&self, target: &str) -> (r: bool)
        ensures
            r == self.has_path(target@),
    {
        let t = trim_slashes_str(target);
        let paths = self.flat_paths();
        let mut i: usize = 0;
        while i < paths.len()
            invariant
                seqs(paths@) == self.all_paths(),
                t@ == trim_slashes(target@),
                i <= paths.len(),
                forall|j: int| 0 <= j < i ==> trim_slashes(#[trigger] self.all_paths()[j]).push('/') != t@.push('/'),
            decreases paths.len() - i,
        {
            let p = trim_slashes_str(paths[i].as_str());
            assert(seqs(paths@)[i as int] == paths@[i as int]@);
            if str_eq(p.as_str(), t.as_str()) {
                return true;
            }
            proof {
                if p@.push('/') == t@.push('/') {
                    assert(p@ == p@.push('/').drop_last());
                    assert(t@ == t@.push('/').drop_last());
                }
            }
            i += 1;
        }
        false
    }
}

/// All paths of a PSR map in one list.
fn flatten_psr_paths(m: &Vec<(String, Psr4Value)>) -> (r: Vec<String>)
    ensures
        seqs(r@) == psr_paths(m@),
{
    let mut out: Vec<String> = Vec::new();
    let mut i: usize = 0;
    while i < m.len()
        invariant
            i <= m.len(),
            seqs(out@) == psr_paths(m@.take(i as int)),
        decreases m.len() - i,
    {
        let mut v = m[i].1.to_strings();
        let ghost ov = seqs(out@);
        let ghost vv = seqs(v@);
        out.append(&mut v);
        assert(seqs(out@) =~= ov + vv);
        assert(m@.take(i + 1).drop_last() == m@.take(i as int));
        i += 1;
    }
    assert(m@.take(m.len() as int) == m@);
    out
}

/// `extra.strauss` in `composer.json`.
#[derive(Debug, Clone, Default)]
pub struct StraussExtra {
    pub target_directory: Option<String>,
    pub namespace_prefix: Option<String>,
    pub classmap_prefix: Option<String>,
    /// A string, a boolean, or `null`.
    pub functions_prefix: Option<ConfigValue>,
    pub constants_prefix: Option<String>,
    /// `true`, `false`, or a list of paths.
    pub update_call_sites: Option<ConfigValue>,
    pub packages: Option<Vec<String>>,
    pub exclude_from_copy: Option<ExcludeConfigRaw>,
    pub exclude_from_prefix: Option<ExcludeConfigRaw>,
    pub override_autoload: Option<HashMap<String, serde_json::Value>>,
    pub delete_vendor_files: Option<bool>,
    pub delete_vendor_packages: Option<bool>,
    pub classmap_output: Option<bool>,
    /// Pattern and replacement pairs, in file order.
    pub namespace_replacement_patterns: Option<Vec<(String, String)>>,
    pub include_modified_date: Option<bool>,
    pub include_author: Option<bool>,
    pub include_root_autoload: Option<bool>,
    pub vendor_directory: Option<String>,
}

/// `extra.mozart` in `composer.json` (the older configuration block).
#[derive(Debug, Clone, Default)]
pub struct MozartConfig {
    pub dep_directory: Option<String>,
    pub dep_namespace: Option<String>,
    pub classmap_prefix: Option<String>,
    pub exclude_packages: Option<Vec<String>>,
    pub function_prefix: Option<ConfigValue>,
    pub packages: Option<Vec<String>>,
    pub delete_vendor_files: Option<bool>,
    pub delete_vendor_packages: Option<bool>,
    pub override_autoload: Option<HashMap<String, serde_json::Value>>,
}

/// An exclusion block as written in `composer.json`.
#[derive(Debug, Clone, Default)]
pub struct ExcludeConfigRaw {
    pub packages: Option<Vec<String>>,
    pub namespaces: Option<Vec<String>>,
    pub file_patterns: Option<Vec<String>>,
}

/// `extra` in `composer.json`.
#[derive(Debug, Clone, Default)]
pub struct ComposerExtra {
    pub strauss: Option<StraussExtra>,
    pub mozart: Option<MozartConfig>,
}

/// `config` in `composer.json`.
#[derive(Debug, Clone, Default)]
pub struct ComposerConfigSection {
    pub vendor_dir: Option<String>,
}

/// An author entry.
#[derive(Debug, Clone, Default)]
pub struct AuthorEntry {
    pub name: Option<String>,
    pub email: Option<String>,
    pub homepage: Option<String>,
    pub role: Option<String>,
}

/// A license: one identifier or a list.
#[derive(Debug, Clone)]
pub enum LicenseValue {
    Single(String),
    Multiple(Vec<String>),
}

impl LicenseValue {
    /// The license text: the identifier, or the identifiers joined by commas.
    pub open spec fn text(&self) -> Seq<char> {
        match self {
            LicenseValue::Single(s) => s@,
            LicenseValue::Multiple(v) => join(seqs(v@), seq![',']),
        }
    }

    /// The license as one comma-separated string.
    pub fn as_string(&self) -> (r: String)
        ensures
            r@ == self.text(),
    {
        match self {
            LicenseValue::Single(s) => s.clone(),
            LicenseValue::Multiple(v) => {
                let r = join_str(v, ",");
                proof {
                    reveal_strlit(",");
                    assert(","@ =~= seq![',']);
                }
                r
            },
        }
    }
}

/// A full `composer.json`.
#[derive(Debug, Clone, Default)]
pub struct ComposerJson {
    pub name: Option<String>,
    pub autoload: Option<AutoloadConfig>,
    pub autoload_dev: Option<AutoloadConfig>,
    /// `require`: package name and version constraint, in file order.
    pub require: Option<Vec<(String, String)>>,
    pub require_dev: Option<Vec<(String, String)>>,
    pub extra: Option<ComposerExtra>,
    pub license: Option<LicenseValue>,
    pub config: Option<ComposerConfigSection>,
    pub authors: Option<Vec<AuthorEntry>>,
    pub package_type: Option<String>,
    pub version: Option<String>,
}

/// A requirement that names a package: not `php` and not an `ext-` extension.
pub open spec fn is_package_requirement(name: Seq<char>) -> bool {
    name != "php"@ && !is_prefix("ext-"@, name)
}

/// The package names among requirements, in order.
pub open spec fn required_packages(req: Seq<(String, String)>) -> Seq<Seq<char>> {
    req.map_values(|e: (String, String)| e.0@).filter(|n: Seq<char>| is_package_requirement(n))
}

/// The package names of an optional `require` section (none when it is absent),
/// each once, where it first occurs.
pub open spec fn required_of(req: Option<Vec<(String, String)>>) -> Seq<Seq<char>> {
    match req {
        Some(v) => distinct_in_order(required_packages(v@)),
        None => Seq::<Seq<char>>::empty(),
    }
}

/// The package names among requirements, each once, in order.
fn require_names_of(req: &Option<Vec<(String, String)>>) -> (r: Vec<String>)
    ensures
        seqs(r@) == required_of(*req),
{
    let all = required_names_listed(req);
    proof {
        if req is None {
            assert(distinct_in_order(Seq::<Seq<char>>::empty()) =~= Seq::<Seq<char>>::empty());
        }
    }
    distinct_strings(all)
}

/// The package names among requirements, in order, repeats kept.
fn required_names_listed(req: &Option<Vec<(String, String)>>) -> (r: Vec<String>)
    ensures
        seqs(r@) == match *req {
            Some(v) => required_packages(v@),
            None => Seq::<Seq<char>>::empty(),
        },
{
    match req {
        None => {
            let r: Vec<String> = Vec::new();
            assert(seqs(r@) =~= Seq::<Seq<char>>::empty());
            r
        },
        Some(v) => {
            let ghost names = v@.map_values(|e: (String, String)| e.0@);
            let mut out: Vec<String> = Vec::new();
            let mut i: usize = 0;
            proof { reveal(Seq::filter); }
            assert(names.take(0).filter(|n: Seq<char>| is_package_requirement(n)) =~= Seq::<Seq<char>>::empty());
            assert(seqs(out@) =~= Seq::<Seq<char>>::empty());
            while i < v.len()
                invariant
                    names == v@.map_values(|e: (String, String)| e.0@),
                    i <= v.len(),
                    seqs(out@) == names.take(i as int).filter(|n: Seq<char>| is_package_requirement(n)),
                decreases v.len() - i,
            {
                proof {
                    reveal(Seq::filter);
                    assert(names.take(i + 1).drop_last() == names.take(i as int));
                    assert(names.take(i + 1).last() == v@[i as int].0@);
                    reveal_strlit("php");
                    reveal_strlit("ext-");
                }
                let k = &v[i].0;
                let keep = !str_eq(k.as_str(), "php") && !starts_with(k.as_str(), "ext-");
                if keep {
                    let ghost pre = out@;
                    out.push(k.clone());
                    assert(seqs(out@) == seqs(pre).push(k@));
                }
                i += 1;
            }
            assert(names.take(v.len() as int) == names);
            out
        },
    }
}

impl ComposerJson {
    /// The vendor directory: `config.vendor-dir`, or `vendor`.
    pub open spec fn spec_vendor_dir(&self) -> Seq<char> {
        match self.config {
            Some(c) => match c.vendor_dir {
                Some(d) => d@,
                None => "vendor"@,
            },
            None => "vendor"@,
        }
    }

    /// The vendor directory: `config.vendor-dir`, or `vendor`.
    pub fn vendor_dir(&self) -> (r: &str)
        ensures
            r@ == self.spec_vendor_dir(),
    {
        match &self.config {
            Some(c) => match &c.vendor_dir {
                Some(d) => d.as_str(),
                None => "vendor",
            },
            None => "vendor",
        }
    }

    /// The autoload section, or an empty one.
    pub fn autoload(&self) -> (r: AutoloadConfig)
        ensures
            match self.autoload {
                Some(a) => same_autoload(r, a),
                None => empty_autoload(r),
            },
    {
        match &self.autoload {
            Some(a) => a.clone_autoload(),
            None => AutoloadConfig::empty(),
        }
    }

    /// The autoload-dev section, or an empty one.
    pub fn autoload_dev(&self) -> (r: AutoloadConfig)
        ensures
            match self.autoload_dev {
                Some(a) => same_autoload(r, a),
                None => empty_autoload(r),
            },
    {
        match &self.autoload_dev {
            Some(a) => a.clone_autoload(),
            None => AutoloadConfig::empty(),
        }
    }

    /// The first author's name; otherwise the vendor part of the package name
    /// (before the first `/`); otherwise `unknown`.
    pub fn author_name(&self) -> (r: String)
        ensures
            r@ == match self.authors {
                Some(a) => if a@.len() > 0 && a@[0].name is Some {
                    a@[0].name.unwrap()@
                } else {
                    match self.name {
                        Some(n) => split_char(n@, '/')[0],
                        None => "unknown"@,
                    }
                },
                None => match self.name {
                    Some(n) => split_char(n@, '/')[0],
                    None => "unknown"@,
                },
            },
    {
        if let Some(authors) = &self.authors {
            if authors.len() > 0 {
                if let Some(name) = &authors[0].name {
                    return name.clone();
                }
            }
        }
        if let Some(name) = &self.name {
            let parts = split_char_str(name.as_str(), '/');
            proof {
                lemma_split_nonempty(name@, '/');
                assert(seqs(parts@)[0] == parts@[0]@);
            }
            return parts[0].clone();
        }
        to_owned("unknown")
    }

    /// The required package names (without `php` and `ext-*`), each once, in order.
    pub fn require_names(&self) -> (r: Vec<String>)
        ensures
            seqs(r@) == required_of(self.require),
            seqs(r@).no_duplicates(),
    {
        let r = require_names_of(&self.require);
        proof {
            if self.require is Some {
                lemma_distinct_in_order(required_packages(self.require->0@));
            }
        }
        r
    }
}

/// `composer.lock`.
#[derive(Debug, Clone, Default)]
pub struct ComposerLock {
    pub packages: Vec<ComposerLockPackage>,
    pub packages_dev: Vec<ComposerLockPackage>,
}

impl ComposerLock {
    /// The first package with this name, searching `packages` then `packages-dev`.
    pub fn find_package(&self, name: &str) -> (r: Option<&ComposerLockPackage>)
        ensures
            match r {
                Some(p) => p.name@ == name@ && (exists|i: int| 0 <= i < (self.packages@ + self.packages_dev@).len()
                    && (self.packages@ + self.packages_dev@)[i] == *p
                    && (forall|j: int| 0 <= j < i ==> (#[trigger] (self.packages@ + self.packages_dev@)[j]).name@ != name@)),
                None => forall|i: int| 0 <= i < (self.packages@ + self.packages_dev@).len()
                    ==> (#[trigger] (self.packages@ + self.packages_dev@)[i]).name@ != name@,
            },
    {
        let ghost all = self.packages@ + self.packages_dev@;
        let mut i: usize = 0;
        while i < self.packages.len()
            invariant
                all == self.packages@ + self.packages_dev@,
                i <= self.packages.len(),
                forall|j: int| 0 <= j < i ==> (#[trigger] all[j]).name@ != name@,
            decreases self.packages.len() - i,
        {
            if str_eq(self.packages[i].name.as_str(), name) {
                assert(all[i as int] == self.packages@[i as int]);
                return Some(&self.packages[i]);
            }
            assert(all[i as int] == self.packages@[i as int]);
            i += 1;
        }
        let n = self.packages.len();
        let mut k: usize = 0;
        while k < self.packages_dev.len()
            invariant
                all == self.packages@ + self.packages_dev@,
                n == self.packages@.len(),
                k <= self.packages_dev.len(),
                forall|j: int| 0 <= j < n + k ==> (#[trigger] all[j]).name@ != name@,
            decreases self.packages_dev.len() - k,
        {
            assert(all[n + k] == self.packages_dev@[k as int]);
            if str_eq(self.packages_dev[k].name.as_str(), name) {
                return Some(&self.packages_dev[k]);
            }
            k += 1;
        }
        None
    }
}

/// One package entry of `composer.lock`.
#[derive(Debug, Clone, Default)]
pub struct ComposerLockPackage {
    pub name: String,
    pub version: Option<String>,
    pub autoload: Option<AutoloadConfig>,
    /// `require`: package name and version constraint, in file order.
    pub require: Option<Vec<(String, String)>>,
    pub package_type: Option<String>,
    pub license: Option<LicenseValue>,
}

/// The license text of an optional license, `proprietary?` when absent.
pub open spec fn license_text(l: Option<LicenseValue>) -> Seq<char> {
    match l {
        Some(v) => v.text(),
        None => "proprietary?"@,
    }
}

impl ComposerLockPackage {
    /// The autoload section, or an empty one.
    pub fn autoload(&self) -> (r: AutoloadConfig)
        ensures
            match self.autoload {
                Some(a) => same_autoload(r, a),
                None => empty_autoload(r),
            },
    {
        match &self.autoload {
            Some(a) => a.clone_autoload(),
            None => AutoloadConfig::empty(),
        }
    }

    /// The required package names (without `php` and `ext-*`), each once, in order.
    pub fn require_names(&self) -> (r: Vec<String>)
        ensures
            seqs(r@) == required_of(self.require),
            seqs(r@).no_duplicates(),
    {
        let r = require_names_of(&self.require);
        proof {
            if self.require is Some {
                lemma_distinct_in_order(required_packages(self.require->0@));
            }
        }
        r
    }

    /// The license text, `proprietary?` when absent.
    pub fn license_string(&self) -> (r: String)
        ensures
            r@ == license_text(self.license),
    {
        match &self.license {
            Some(l) => l.as_string(),
            None => to_owned("proprietary?"),
        }
    }
}

} // verus!
