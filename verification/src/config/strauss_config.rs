//! The resolved prefixer configuration: `extra.mozart`, overlaid by
//! `extra.strauss`, then completed by inference from the package's autoload
//! section and name.

use vstd::prelude::*;
use std::collections::HashMap;
use crate::strs::{
    clone_strings, concat, concat3, opt_seq, replace_char, replace_char_str, seqs, split_char,
    split_char_str, str_eq, to_chars, to_owned, trim_end, trim_end_char, trim_slashes,
    trim_slashes_slice, trim_slashes_str, trim_both, trim_char_slice, from_chars, push_char, push_str,
};
use crate::unicode::{is_alphanumeric, to_lowercase, to_uppercase, trim, unicode_alphanumeric, unicode_lowercase, unicode_trim, unicode_uppercase};
use crate::config::composer_json::{
    AutoloadConfig, ComposerJson, ConfigValue, ExcludeConfigRaw, MozartConfig, Psr4Value, StraussExtra,
    lemma_empty_autoload_paths, lemma_same_autoload_paths, required_of,
};
use crate::config::composer_package::json_package_name;

verus! {

// ---------------------------------------------------------------------------
// Names derived from a package name
// ---------------------------------------------------------------------------

/// One character of a package name in a namespace: `/` becomes `\`, letters,
/// digits and `_` stay, anything else becomes `_`.
pub open spec fn namespace_char(c: char) -> char {
    if c == '/' {
        '\\'
    } else if unicode_alphanumeric(c) || c == '_' {
        c
    } else {
        '_'
    }
}

/// The next character of a word-capitalised text starts a word: at the start,
/// and after `_` or `\`.
pub open spec fn at_word_start(done: Seq<char>) -> bool {
    done.len() == 0 || done.last() == '_' || done.last() == '\\'
}

/// Upper-cases the first character of every word; words start at the
/// beginning and after each `_` or `\`.
pub open spec fn capitalize_words(s: Seq<char>) -> Seq<char>
    decreases s.len(),
{
    if s.len() == 0 {
        Seq::empty()
    } else {
        let c = s.last();
        capitalize_words(s.drop_last()) + if c == '_' || c == '\\' {
            seq![c]
        } else if at_word_start(s.drop_last()) {
            unicode_uppercase(c)
        } else {
            seq![c]
        }
    }
}

/// The namespace derived from a package name: `vendor/package` gives `Vendor\Package\`.
pub open spec fn namespace_from_package_name(name: Seq<char>) -> Seq<char> {
    capitalize_words(name.map_values(|c: char| namespace_char(c)).push('\\'))
}

/// The classmap prefix derived from a package name: the derived namespace with
/// every `\` replaced by `_` (`vendor/package` gives `Vendor_Package_`).
pub open spec fn classmap_from_package_name(name: Seq<char>) -> Seq<char> {
    replace_char(namespace_from_package_name(name), '\\', seq!['_'])
}

/// One character of a namespace in a classmap prefix: anything but a letter,
/// a digit, `/` or `_` becomes `_`.
pub open spec fn classmap_char(c: char) -> char {
    if !unicode_alphanumeric(c) && c != '/' && c != '_' {
        '_'
    } else {
        c
    }
}

/// The classmap prefix derived from a namespace prefix: the namespace with
/// separators turned into `_`, and exactly one `_` at the end.
pub open spec fn classmap_from_namespace(ns: Seq<char>) -> Seq<char> {
    trim_end(ns.map_values(|c: char| classmap_char(c)), '_').push('_')
}

/// A directory with forward slashes only, ending in `/`.
pub open spec fn normalized_dir(s: Seq<char>) -> Seq<char> {
    let t = replace_char(s, '\\', seq!['/']);
    if t.len() > 0 && t.last() == '/' {
        t
    } else {
        t.push('/')
    }
}

/// Derives a namespace prefix from a package name (see [`namespace_from_package_name`]).
pub fn derive_namespace_from_package_name(name: &str) -> (r: String)
    ensures
        r@ == namespace_from_package_name(name@),
{
    let chars = to_chars(name);
    let ghost mapped = name@.map_values(|c: char| namespace_char(c));
    let mut with_ns: Vec<char> = Vec::new();
    let mut i: usize = 0;
    while i < chars.len()
        invariant
            chars@ == name@,
            mapped == name@.map_values(|c: char| namespace_char(c)),
            i <= chars.len(),
            with_ns@ == mapped.take(i as int),
        decreases chars.len() - i,
    {
        let c = chars[i];
        let m = if c == '/' {
            '\\'
        } else if is_alphanumeric(c) || c == '_' {
            c
        } else {
            '_'
        };
        with_ns.push(m);
        i += 1;
        assert(with_ns@ == mapped.take(i as int));
    }
    assert(mapped.take(chars.len() as int) == mapped);
    with_ns.push('\\');
    let ghost src = with_ns@;
    let mut result = String::new();
    let mut k: usize = 0;
    while k < with_ns.len()
        invariant
            with_ns@ == src,
            k <= with_ns.len(),
            result@ == capitalize_words(src.take(k as int)),
        decreases with_ns.len() - k,
    {
        let c = with_ns[k];
        let ghost done = src.take(k as int);
        assert(src.take(k + 1).drop_last() == done);
        assert(src.take(k + 1).last() == c);
        let capitalize_next = k == 0 || with_ns[k - 1] == '_' || with_ns[k - 1] == '\\';
        assert(capitalize_next == at_word_start(done));
        if c == '_' || c == '\\' {
            push_char(&mut result, c);
        } else if capitalize_next {
            let up = to_uppercase(c);
            push_str(&mut result, up.as_str());
        } else {
            push_char(&mut result, c);
        }
        k += 1;
    }
    assert(src.take(with_ns.len() as int) == src);
    result
}

/// Derives a classmap prefix from a package name (see [`classmap_from_package_name`]).
pub fn derive_classmap_prefix_from_package_name(name: &str) -> (r: String)
    ensures
        r@ == classmap_from_package_name(name@),
{
    let ns = derive_namespace_from_package_name(name);
    let r = replace_char_str(ns.as_str(), '\\', "_");
    proof {
        reveal_strlit("_");
        assert("_"@ =~= seq!['_']);
    }
    r
}

/// Makes a directory use forward slashes and end in `/` (see [`normalized_dir`]).
fn normalize_dir_str(s: &str) -> (r: String)
    ensures
        r@ == normalized_dir(s@),
{
    let t = replace_char_str(s, '\\', "/");
    proof {
        reveal_strlit("/");
        assert("/"@ =~= seq!['/']);
    }
    let x = to_chars(t.as_str());
    if x.len() > 0 && x[x.len() - 1] == '/' {
        t
    } else {
        let mut u = t;
        push_char(&mut u, '/');
        u
    }
}

/// Derives a classmap prefix from a namespace prefix (see [`classmap_from_namespace`]).
fn classmap_prefix_from_namespace(ns: &str) -> (r: String)
    ensures
        r@ == classmap_from_namespace(ns@),
{
    let chars = to_chars(ns);
    let ghost mapped = ns@.map_values(|c: char| classmap_char(c));
    let mut out: Vec<char> = Vec::new();
    let mut i: usize = 0;
    while i < chars.len()
        invariant
            chars@ == ns@,
            mapped == ns@.map_values(|c: char| classmap_char(c)),
            i <= chars.len(),
            out@ == mapped.take(i as int),
        decreases chars.len() - i,
    {
        let c = chars[i];
        let m = if !is_alphanumeric(c) && c != '/' && c != '_' {
            '_'
        } else {
            c
        };
        out.push(m);
        i += 1;
        assert(out@ == mapped.take(i as int));
    }
    assert(mapped.take(chars.len() as int) == mapped);
    let s = from_chars(out.as_slice());
    let mut t = trim_end_char(s.as_str(), '_');
    push_char(&mut t, '_');
    t
}

// ---------------------------------------------------------------------------
// The configuration
// ---------------------------------------------------------------------------

/// Which packages, namespaces and file patterns a step leaves alone.
#[derive(Debug, Clone, Default)]
pub struct ExcludeConfig {
    pub packages: Vec<String>,
    pub namespaces: Vec<String>,
    pub file_patterns: Vec<String>,
}

/// How the functions prefix was configured: not at all (it then follows the
/// classmap prefix), explicitly disabled, or as an explicit prefix.
#[derive(Debug, Clone)]
pub enum FunctionsPrefixState {
    NotSet,
    Disabled,
    Prefix(String),
}

/// A functions-prefix state as a value: `None` when not set, `Some(None)` when
/// disabled, `Some(Some(p))` for the prefix `p`.
pub open spec fn functions_prefix_setting_of(st: FunctionsPrefixState) -> Option<Option<Seq<char>>> {
    match st {
        FunctionsPrefixState::NotSet => None,
        FunctionsPrefixState::Disabled => Some(None),
        FunctionsPrefixState::Prefix(s) => Some(Some(s@)),
    }
}

/// The fully resolved configuration.
#[derive(Debug, Clone)]
pub struct StraussConfig {
    /// The directory holding `composer.json`; always ends with `/`.
    pub project_directory: String,
    /// The output directory, relative to the project directory.
    pub target_directory: String,
    /// The vendor directory, relative to the project directory.
    pub vendor_directory: String,
    /// The prefix for namespaces.
    pub namespace_prefix: Option<String>,
    /// The prefix for global classes.
    pub classmap_prefix: Option<String>,
    /// The explicit functions prefix, when one is configured.
    pub functions_prefix: Option<String>,
    /// The prefix for constants.
    pub constants_prefix: Option<String>,
    /// Where to update call sites: `None` means the autoload paths, an empty list
    /// means nowhere.
    pub update_call_sites: Option<Vec<String>>,
    /// The packages to copy and prefix.
    pub packages: Vec<String>,
    /// What the copy step leaves alone.
    pub exclude_from_copy: ExcludeConfig,
    /// What the prefix step leaves alone.
    pub exclude_from_prefix: ExcludeConfig,
    /// Autoload overrides by package name, as raw JSON.
    pub override_autoload: HashMap<String, serde_json::Value>,
    /// Delete the vendor files after prefixing.
    pub delete_vendor_files: bool,
    /// Delete the vendor packages after prefixing.
    pub delete_vendor_packages: bool,
    /// Whether to write a classmap.
    pub classmap_output: Option<bool>,
    /// Namespace rewriting patterns and their replacements, in file order.
    pub namespace_replacement_patterns: Vec<(String, String)>,
    /// Write the modification date into changed files' headers.
    pub include_modified_date: bool,
    /// Write the author into changed files' headers.
    pub include_author: bool,
    /// Print the changes instead of writing files.
    pub dry_run: bool,
    /// Include the project's own autoload in the generated autoloader.
    pub include_root_autoload: bool,
    /// How the functions prefix was configured.
    pub functions_prefix_state: FunctionsPrefixState,
}

// ---------------------------------------------------------------------------
// How `composer.json` resolves to a configuration
// ---------------------------------------------------------------------------

/// `extra.strauss`, when present.
pub open spec fn strauss_of(json: ComposerJson) -> Option<StraussExtra> {
    match json.extra {
        Some(e) => e.strauss,
        None => None,
    }
}

/// `extra.mozart`, when present.
pub open spec fn mozart_of(json: ComposerJson) -> Option<MozartConfig> {
    match json.extra {
        Some(e) => e.mozart,
        None => None,
    }
}

/// The first of two optional settings that is present.
pub open spec fn either<T>(a: Option<T>, b: Option<T>) -> Option<T> {
    match a {
        Some(x) => Some(x),
        None => b,
    }
}

/// An optional text, or a default.
pub open spec fn text_or(o: Option<String>, d: Seq<char>) -> Seq<char> {
    match o {
        Some(s) => s@,
        None => d,
    }
}

/// An optional list of strings, or the empty list.
pub open spec fn list_or_empty(o: Option<Vec<String>>) -> Seq<Seq<char>> {
    match o {
        Some(v) => seqs(v@),
        None => Seq::empty(),
    }
}

/// An optional flag, or a default.
pub open spec fn bool_or(o: Option<bool>, d: bool) -> bool {
    match o {
        Some(b) => b,
        None => d,
    }
}

/// The view of an optional list of strings.
pub open spec fn opt_seqs(o: Option<Vec<String>>) -> Option<Seq<Seq<char>>> {
    match o {
        Some(v) => Some(seqs(v@)),
        None => None,
    }
}

/// The view of a list of string pairs.
pub open spec fn pairs_view(v: Seq<(String, String)>) -> Seq<(Seq<char>, Seq<char>)> {
    v.map_values(|e: (String, String)| (e.0@, e.1@))
}

/// The string elements of a JSON list, in order.
pub open spec fn strings_in(l: Seq<Option<String>>) -> Seq<Seq<char>>
    decreases l.len(),
{
    if l.len() == 0 {
        Seq::empty()
    } else {
        strings_in(l.drop_last()) + match l.last() {
            Some(s) => seq![s@],
            None => Seq::<Seq<char>>::empty(),
        }
    }
}

/// The PSR-4 map of the package's autoload section.
pub open spec fn json_psr4(json: ComposerJson) -> Seq<(String, Psr4Value)> {
    match json.autoload {
        Some(a) => a.psr4@,
        None => Seq::empty(),
    }
}

/// The PSR-0 map of the package's autoload section.
pub open spec fn json_psr0(json: ComposerJson) -> Seq<(String, Psr4Value)> {
    match json.autoload {
        Some(a) => a.psr0@,
        None => Seq::empty(),
    }
}

/// Some path of the package's autoload section names the directory `t`.
pub open spec fn json_has_path(json: ComposerJson, t: Seq<char>) -> bool {
    match json.autoload {
        Some(a) => a.has_path(t),
        None => false,
    }
}

/// `strauss.target_directory`, else `mozart.dep_directory`, else `vendor-prefixed`.
pub open spec fn resolved_target_directory(json: ComposerJson) -> Seq<char> {
    let s = match strauss_of(json) { Some(x) => x.target_directory, None => None };
    let m = match mozart_of(json) { Some(x) => x.dep_directory, None => None };
    text_or(either(s, m), "vendor-prefixed"@)
}

/// `strauss.vendor_directory`, else the `composer.json` vendor directory.
pub open spec fn resolved_vendor_directory(json: ComposerJson) -> Seq<char> {
    let s = match strauss_of(json) { Some(x) => x.vendor_directory, None => None };
    text_or(s, json.spec_vendor_dir())
}

/// `strauss.namespace_prefix`, else `mozart.dep_namespace`.
pub open spec fn explicit_namespace_prefix(json: ComposerJson) -> Option<String> {
    let s = match strauss_of(json) { Some(x) => x.namespace_prefix, None => None };
    let m = match mozart_of(json) { Some(x) => x.dep_namespace, None => None };
    either(s, m)
}

/// `strauss.classmap_prefix`, else `mozart.classmap_prefix`.
pub open spec fn explicit_classmap_prefix(json: ComposerJson) -> Option<String> {
    let s = match strauss_of(json) { Some(x) => x.classmap_prefix, None => None };
    let m = match mozart_of(json) { Some(x) => x.classmap_prefix, None => None };
    either(s, m)
}

/// The namespace prefix: the configured one; else the first PSR-4 key; else the
/// first PSR-0 key; else one derived from the package name; else the configured
/// classmap prefix without its trailing `_`s; else none.
pub open spec fn resolved_namespace_prefix(json: ComposerJson) -> Option<Seq<char>> {
    match explicit_namespace_prefix(json) {
        Some(n) => Some(n@),
        None => if json_psr4(json).len() > 0 {
            Some(json_psr4(json)[0].0@)
        } else if json_psr0(json).len() > 0 {
            Some(json_psr0(json)[0].0@)
        } else if json_package_name(json) != "__root__"@ {
            Some(namespace_from_package_name(json_package_name(json)))
        } else {
            match explicit_classmap_prefix(json) {
                Some(c) => Some(trim_end(c@, '_')),
                None => None,
            }
        },
    }
}

/// The classmap prefix: the configured one; else one derived from the namespace
/// prefix (configured or inferred, see [`classmap_from_namespace`]); else none.
pub open spec fn resolved_classmap_prefix(json: ComposerJson) -> Option<Seq<char>> {
    match explicit_classmap_prefix(json) {
        Some(c) => Some(c@),
        None => match resolved_namespace_prefix(json) {
            Some(ns) => Some(classmap_from_namespace(ns)),
            None => None,
        },
    }
}

/// What a `functions_prefix` value configures: `false`, `null`, the empty string
/// or anything else disables it; `true` leaves it unset; a string sets it.
pub open spec fn parsed_functions_prefix(v: ConfigValue) -> Option<Option<Seq<char>>> {
    match v {
        ConfigValue::Bool(b) => if b { None } else { Some(None) },
        ConfigValue::Str(s) => if s@.len() == 0 { Some(None) } else { Some(Some(s@)) },
        _ => Some(None),
    }
}

/// `strauss.functions_prefix`, else `mozart.function_prefix`, each as parsed; else not set.
pub open spec fn resolved_functions_prefix_setting(json: ComposerJson) -> Option<Option<Seq<char>>> {
    let s = match strauss_of(json) { Some(x) => x.functions_prefix, None => None };
    let m = match mozart_of(json) { Some(x) => x.function_prefix, None => None };
    match either(s, m) {
        Some(v) => parsed_functions_prefix(v),
        None => None,
    }
}

/// `strauss.update_call_sites`: `true` means the autoload paths (`None`); a list
/// gives its strings; otherwise nowhere (the empty list).
pub open spec fn resolved_update_call_sites(json: ComposerJson) -> Option<Seq<Seq<char>>> {
    let s = match strauss_of(json) { Some(x) => x.update_call_sites, None => None };
    match s {
        Some(ConfigValue::Bool(b)) => if b { None } else { Some(Seq::empty()) },
        Some(ConfigValue::List(l)) => Some(strings_in(l@)),
        _ => Some(Seq::empty()),
    }
}

/// `strauss.packages`, else `mozart.packages`; when that is empty, the required packages.
pub open spec fn resolved_packages(json: ComposerJson) -> Seq<Seq<char>> {
    let s = match strauss_of(json) { Some(x) => x.packages, None => None };
    let m = match mozart_of(json) { Some(x) => x.packages, None => None };
    let listed = list_or_empty(either(s, m));
    if listed.len() == 0 {
        required_of(json.require)
    } else {
        listed
    }
}

/// `strauss.exclude_from_copy`.
pub open spec fn exclude_copy_raw(json: ComposerJson) -> Option<ExcludeConfigRaw> {
    match strauss_of(json) { Some(x) => x.exclude_from_copy, None => None }
}

/// `strauss.exclude_from_prefix`.
pub open spec fn exclude_prefix_raw(json: ComposerJson) -> Option<ExcludeConfigRaw> {
    match strauss_of(json) { Some(x) => x.exclude_from_prefix, None => None }
}

/// The packages excluded from copying.
pub open spec fn resolved_copy_packages(json: ComposerJson) -> Seq<Seq<char>> {
    list_or_empty(match exclude_copy_raw(json) { Some(e) => e.packages, None => None })
}

/// The namespaces excluded from copying.
pub open spec fn resolved_copy_namespaces(json: ComposerJson) -> Seq<Seq<char>> {
    list_or_empty(match exclude_copy_raw(json) { Some(e) => e.namespaces, None => None })
}

/// The file patterns excluded from copying.
pub open spec fn resolved_copy_file_patterns(json: ComposerJson) -> Seq<Seq<char>> {
    list_or_empty(match exclude_copy_raw(json) { Some(e) => e.file_patterns, None => None })
}

/// The packages excluded from prefixing: `strauss.exclude_from_prefix.packages`,
/// else `mozart.exclude_packages`.
pub open spec fn resolved_prefix_packages(json: ComposerJson) -> Seq<Seq<char>> {
    let s = match exclude_prefix_raw(json) { Some(e) => e.packages, None => None };
    let m = match mozart_of(json) { Some(x) => x.exclude_packages, None => None };
    list_or_empty(either(s, m))
}

/// The namespaces excluded from prefixing.
pub open spec fn resolved_prefix_namespaces(json: ComposerJson) -> Seq<Seq<char>> {
    list_or_empty(match exclude_prefix_raw(json) { Some(e) => e.namespaces, None => None })
}

/// The file patterns excluded from prefixing.
pub open spec fn resolved_prefix_file_patterns(json: ComposerJson) -> Seq<Seq<char>> {
    list_or_empty(match exclude_prefix_raw(json) { Some(e) => e.file_patterns, None => None })
}

/// The autoload overrides: `strauss.override_autoload`, else `mozart.override_autoload`, else none.
pub open spec fn resolved_override_autoload(json: ComposerJson) -> Map<String, serde_json::Value> {
    let s = match strauss_of(json) { Some(x) => x.override_autoload, None => None };
    let m = match mozart_of(json) { Some(x) => x.override_autoload, None => None };
    match either(s, m) {
        Some(h) => h@,
        None => Map::empty(),
    }
}

/// Delete vendor files: `strauss`, else `mozart`, else whether a `mozart` block is present.
pub open spec fn resolved_delete_vendor_files(json: ComposerJson) -> bool {
    let s = match strauss_of(json) { Some(x) => x.delete_vendor_files, None => None };
    let m = match mozart_of(json) { Some(x) => x.delete_vendor_files, None => None };
    bool_or(either(s, m), mozart_of(json) is Some)
}

/// Delete vendor packages: `strauss`, else `mozart`, else no.
pub open spec fn resolved_delete_vendor_packages(json: ComposerJson) -> bool {
    let s = match strauss_of(json) { Some(x) => x.delete_vendor_packages, None => None };
    let m = match mozart_of(json) { Some(x) => x.delete_vendor_packages, None => None };
    bool_or(either(s, m), false)
}

/// Write a classmap: as configured, else exactly when the target directory is not
/// among the package's autoload paths.
pub open spec fn resolved_classmap_output(json: ComposerJson) -> bool {
    let s = match strauss_of(json) { Some(x) => x.classmap_output, None => None };
    bool_or(s, !json_has_path(json, trim_slashes(resolved_target_directory(json)).push('/')))
}

/// The namespace replacement patterns of `strauss`, in file order.
pub open spec fn resolved_replacement_patterns(json: ComposerJson) -> Seq<(Seq<char>, Seq<char>)> {
    match strauss_of(json) {
        Some(x) => match x.namespace_replacement_patterns {
            Some(v) => pairs_view(v@),
            None => Seq::empty(),
        },
        None => Seq::empty(),
    }
}

/// Write the modification date into headers: as configured, else yes.
pub open spec fn resolved_include_modified_date(json: ComposerJson) -> bool {
    bool_or(match strauss_of(json) { Some(x) => x.include_modified_date, None => None }, true)
}

/// Write the author into headers: as configured, else yes.
pub open spec fn resolved_include_author(json: ComposerJson) -> bool {
    bool_or(match strauss_of(json) { Some(x) => x.include_author, None => None }, true)
}

/// Include the project's own autoload: as configured, else no.
pub open spec fn resolved_include_root_autoload(json: ComposerJson) -> bool {
    bool_or(match strauss_of(json) { Some(x) => x.include_root_autoload, None => None }, false)
}

/// The constants prefix of `strauss`.
pub open spec fn resolved_constants_prefix(json: ComposerJson) -> Option<Seq<char>> {
    opt_seq(match strauss_of(json) { Some(x) => x.constants_prefix, None => None })
}

/// The explicit prefix of a functions-prefix setting.
pub open spec fn explicit_prefix_of(setting: Option<Option<Seq<char>>>) -> Option<Seq<char>> {
    match setting {
        Some(Some(p)) => Some(p),
        _ => None,
    }
}

// ---------------------------------------------------------------------------
// Resolution
// ---------------------------------------------------------------------------

/// The state a `functions_prefix` value configures (see [`parsed_functions_prefix`]).
fn parse_functions_prefix(value: &ConfigValue) -> (r: FunctionsPrefixState)
    ensures
        functions_prefix_setting_of(r) == parsed_functions_prefix(*value),
{
    match value {
        ConfigValue::Bool(b) => if *b {
            FunctionsPrefixState::NotSet
        } else {
            FunctionsPrefixState::Disabled
        },
        ConfigValue::Str(s) => if s.as_str().is_empty() {
            FunctionsPrefixState::Disabled
        } else {
            FunctionsPrefixState::Prefix(s.clone())
        },
        _ => FunctionsPrefixState::Disabled,
    }
}

/// The explicit prefix of a state.
fn prefix_of_state(st: &FunctionsPrefixState) -> (r: Option<String>)
    ensures
        opt_seq(r) == explicit_prefix_of(functions_prefix_setting_of(*st)),
{
    match st {
        FunctionsPrefixState::Prefix(s) => Some(s.clone()),
        _ => None,
    }
}

/// A copy of a list of string pairs.
fn clone_pairs(v: &Vec<(String, String)>) -> (r: Vec<(String, String)>)
    ensures
        pairs_view(r@) == pairs_view(v@),
{
    let mut out: Vec<(String, String)> = Vec::new();
    let mut i: usize = 0;
    while i < v.len()
        invariant
            i <= v.len(),
            pairs_view(out@) == pairs_view(v@).take(i as int),
        decreases v.len() - i,
    {
        let ghost pre = out@;
        out.push((v[i].0.clone(), v[i].1.clone()));
        assert(pairs_view(out@) == pairs_view(pre).push((v@[i as int].0@, v@[i as int].1@)));
        i += 1;
        assert(pairs_view(v@).take(i as int) == pairs_view(v@).take(i - 1).push(pairs_view(v@)[i - 1]));
    }
    assert(pairs_view(v@).take(v.len() as int) == pairs_view(v@));
    out
}

/// The string elements of a JSON list.
fn list_strings(l: &Vec<Option<String>>) -> (r: Vec<String>)
    ensures
        seqs(r@) == strings_in(l@),
{
    let mut out: Vec<String> = Vec::new();
    let mut i: usize = 0;
    while i < l.len()
        invariant
            i <= l.len(),
            seqs(out@) == strings_in(l@.take(i as int)),
        decreases l.len() - i,
    {
        assert(l@.take(i + 1).drop_last() == l@.take(i as int));
        assert(l@.take(i + 1).last() == l@[i as int]);
        match &l[i] {
            Some(s) => {
                let ghost pre = out@;
                out.push(s.clone());
                assert(seqs(out@) == seqs(pre).push(s@));
                assert(seqs(pre).push(s@) =~= seqs(pre) + seq![s@]);
            },
            None => {
                assert(strings_in(l@.take(i + 1)) =~= strings_in(l@.take(i as int)));
            },
        }
        i += 1;
    }
    assert(l@.take(l.len() as int) == l@);
    out
}

/// An empty exclusion.
fn empty_exclude() -> (r: ExcludeConfig)
    ensures
        r.packages@.len() == 0,
        r.namespaces@.len() == 0,
        r.file_patterns@.len() == 0,
{
    ExcludeConfig { packages: Vec::new(), namespaces: Vec::new(), file_patterns: Vec::new() }
}

/// `extra.strauss`, when present.
fn strauss_ref(json: &ComposerJson) -> (r: Option<&StraussExtra>)
    ensures
        match r {
            Some(x) => strauss_of(*json) == Some(*x),
            None => strauss_of(*json) is None,
        },
{
    match &json.extra {
        Some(e) => match &e.strauss {
            Some(x) => Some(x),
            None => None,
        },
        None => None,
    }
}

/// `extra.mozart`, when present.
fn mozart_ref(json: &ComposerJson) -> (r: Option<&MozartConfig>)
    ensures
        match r {
            Some(x) => mozart_of(*json) == Some(*x),
            None => mozart_of(*json) is None,
        },
{
    match &json.extra {
        Some(e) => match &e.mozart {
            Some(x) => Some(x),
            None => None,
        },
        None => None,
    }
}

/// The first of two optional texts that is present, copied.
fn first_text(a: &Option<String>, b: &Option<String>) -> (r: Option<String>)
    ensures
        opt_seq(r) == opt_seq(either(*a, *b)),
{
    match a {
        Some(x) => Some(x.clone()),
        None => match b {
            Some(x) => Some(x.clone()),
            None => None,
        },
    }
}

/// The first of two optional lists that is present, copied; else the empty list.
fn first_list(a: &Option<Vec<String>>, b: &Option<Vec<String>>) -> (r: Vec<String>)
    ensures
        seqs(r@) == list_or_empty(either(*a, *b)),
{
    match a {
        Some(x) => clone_strings(x),
        None => match b {
            Some(x) => clone_strings(x),
            None => {
                let r: Vec<String> = Vec::new();
                assert(seqs(r@) =~= Seq::<Seq<char>>::empty());
                r
            },
        },
    }
}

/// The first of two optional flags that is present; else the default.
fn first_flag(a: Option<bool>, b: Option<bool>, d: bool) -> (r: bool)
    ensures
        r == bool_or(either(a, b), d),
{
    match a {
        Some(x) => x,
        None => match b {
            Some(x) => x,
            None => d,
        },
    }
}

const NO_TEXT: Option<String> = None;

const NO_LIST: Option<Vec<String>> = None;

/// The target directory (see [`resolved_target_directory`]).
fn resolve_target_directory(json: &ComposerJson) -> (r: String)
    ensures
        r@ == resolved_target_directory(*json),
{
    let s = match strauss_ref(json) { Some(x) => first_text(&x.target_directory, &NO_TEXT), None => None };
    let m = match mozart_ref(json) { Some(x) => first_text(&x.dep_directory, &NO_TEXT), None => None };
    match first_text(&s, &m) {
        Some(d) => d,
        None => to_owned("vendor-prefixed"),
    }
}

/// The vendor directory (see [`resolved_vendor_directory`]).
fn resolve_vendor_directory(json: &ComposerJson) -> (r: String)
    ensures
        r@ == resolved_vendor_directory(*json),
{
    match strauss_ref(json) {
        Some(x) => match &x.vendor_directory {
            Some(d) => d.clone(),
            None => to_owned(json.vendor_dir()),
        },
        None => to_owned(json.vendor_dir()),
    }
}

/// The configured namespace prefix (see [`explicit_namespace_prefix`]).
fn explicit_namespace(json: &ComposerJson) -> (r: Option<String>)
    ensures
        opt_seq(r) == opt_seq(explicit_namespace_prefix(*json)),
{
    let s = match strauss_ref(json) { Some(x) => first_text(&x.namespace_prefix, &NO_TEXT), None => None };
    let m = match mozart_ref(json) { Some(x) => first_text(&x.dep_namespace, &NO_TEXT), None => None };
    first_text(&s, &m)
}

/// The configured classmap prefix (see [`explicit_classmap_prefix`]).
fn explicit_classmap(json: &ComposerJson) -> (r: Option<String>)
    ensures
        opt_seq(r) == opt_seq(explicit_classmap_prefix(*json)),
{
    let s = match strauss_ref(json) { Some(x) => first_text(&x.classmap_prefix, &NO_TEXT), None => None };
    let m = match mozart_ref(json) { Some(x) => first_text(&x.classmap_prefix, &NO_TEXT), None => None };
    first_text(&s, &m)
}

/// The first PSR-4 and PSR-0 keys of the package's autoload section.
fn first_keys(json: &ComposerJson) -> (r: (Option<&str>, Option<&str>))
    ensures
        match r.0 {
            Some(k) => json_psr4(*json).len() > 0 && k@ == json_psr4(*json)[0].0@,
            None => json_psr4(*json).len() == 0,
        },
        match r.1 {
            Some(k) => json_psr0(*json).len() > 0 && k@ == json_psr0(*json)[0].0@,
            None => json_psr0(*json).len() == 0,
        },
{
    match &json.autoload {
        Some(a) => (a.first_psr4_key(), a.first_psr0_key()),
        None => (None, None),
    }
}

/// The package name, `__root__` when there is none.
fn package_name_of(json: &ComposerJson) -> (r: &str)
    ensures
        r@ == json_package_name(*json),
{
    match &json.name {
        Some(n) => n.as_str(),
        None => "__root__",
    }
}

/// The namespace prefix (see [`resolved_namespace_prefix`]).
fn resolve_namespace_prefix(json: &ComposerJson) -> (r: Option<String>)
    ensures
        opt_seq(r) == resolved_namespace_prefix(*json),
{
    if let Some(ns) = explicit_namespace(json) {
        return Some(ns);
    }
    let (k4, k0) = first_keys(json);
    let name = package_name_of(json);
    proof {
        reveal_strlit("__root__");
    }
    if let Some(key) = k4 {
        Some(to_owned(key))
    } else if let Some(key) = k0 {
        Some(to_owned(key))
    } else if !str_eq(name, "__root__") {
        Some(derive_namespace_from_package_name(name))
    } else if let Some(cp) = explicit_classmap(json) {
        Some(trim_end_char(cp.as_str(), '_'))
    } else {
        None
    }
}

/// The classmap prefix (see [`resolved_classmap_prefix`]), given the resolved
/// namespace prefix.
fn resolve_classmap_prefix(json: &ComposerJson, namespace_prefix: &Option<String>) -> (r: Option<String>)
    requires
        opt_seq(*namespace_prefix) == resolved_namespace_prefix(*json),
    ensures
        opt_seq(r) == resolved_classmap_prefix(*json),
{
    if let Some(cp) = explicit_classmap(json) {
        return Some(cp);
    }
    match namespace_prefix {
        Some(ns) => Some(classmap_prefix_from_namespace(ns.as_str())),
        None => None,
    }
}

/// The functions-prefix state (see [`resolved_functions_prefix_setting`]).
fn resolve_functions_prefix_state(json: &ComposerJson) -> (r: FunctionsPrefixState)
    ensures
        functions_prefix_setting_of(r) == resolved_functions_prefix_setting(*json),
{
    if let Some(x) = strauss_ref(json) {
        if let Some(v) = &x.functions_prefix {
            return parse_functions_prefix(v);
        }
    }
    if let Some(x) = mozart_ref(json) {
        if let Some(v) = &x.function_prefix {
            return parse_functions_prefix(v);
        }
    }
    FunctionsPrefixState::NotSet
}

/// Where to update call sites (see [`resolved_update_call_sites`]).
fn resolve_update_call_sites(json: &ComposerJson) -> (r: Option<Vec<String>>)
    ensures
        opt_seqs(r) == resolved_update_call_sites(*json),
{
    let none: Vec<String> = Vec::new();
    assert(seqs(none@) =~= Seq::<Seq<char>>::empty());
    match strauss_ref(json) {
        Some(x) => match &x.update_call_sites {
            Some(ConfigValue::Bool(b)) => if *b {
                None
            } else {
                Some(none)
            },
            Some(ConfigValue::List(l)) => Some(list_strings(l)),
            _ => Some(none),
        },
        None => Some(none),
    }
}

/// The packages to process (see [`resolved_packages`]).
fn resolve_packages(json: &ComposerJson) -> (r: Vec<String>)
    ensures
        seqs(r@) == resolved_packages(*json),
{
    let s = match strauss_ref(json) { Some(x) => first_text_list(&x.packages), None => None };
    let m = match mozart_ref(json) { Some(y) => first_text_list(&y.packages), None => None };
    let listed = first_list(&s, &m);
    if listed.len() == 0 {
        json.require_names()
    } else {
        listed
    }
}

/// The two exclusion configurations (see [`resolved_copy_packages`] and its siblings).
fn resolve_excludes(json: &ComposerJson) -> (r: (ExcludeConfig, ExcludeConfig))
    ensures
        seqs(r.0.packages@) == resolved_copy_packages(*json),
        seqs(r.0.namespaces@) == resolved_copy_namespaces(*json),
        seqs(r.0.file_patterns@) == resolved_copy_file_patterns(*json),
        seqs(r.1.packages@) == resolved_prefix_packages(*json),
        seqs(r.1.namespaces@) == resolved_prefix_namespaces(*json),
        seqs(r.1.file_patterns@) == resolved_prefix_file_patterns(*json),
{
    let mozart_excluded = match mozart_ref(json) { Some(y) => first_text_list(&y.exclude_packages), None => None };
    match strauss_ref(json) {
        Some(x) => {
            let copy = match &x.exclude_from_copy {
                Some(e) => ExcludeConfig {
                    packages: first_list(&e.packages, &NO_LIST),
                    namespaces: first_list(&e.namespaces, &NO_LIST),
                    file_patterns: first_list(&e.file_patterns, &NO_LIST),
                },
                None => empty_exclude(),
            };
            let prefix = match &x.exclude_from_prefix {
                Some(e) => ExcludeConfig {
                    packages: first_list(&e.packages, &mozart_excluded),
                    namespaces: first_list(&e.namespaces, &NO_LIST),
                    file_patterns: first_list(&e.file_patterns, &NO_LIST),
                },
                None => ExcludeConfig {
                    packages: first_list(&NO_LIST, &mozart_excluded),
                    namespaces: Vec::new(),
                    file_patterns: Vec::new(),
                },
            };
            (copy, prefix)
        },
        None => (empty_exclude(), ExcludeConfig {
            packages: first_list(&NO_LIST, &mozart_excluded),
            namespaces: Vec::new(),
            file_patterns: Vec::new(),
        }),
    }
}

/// A copy of an optional list.
fn first_text_list(o: &Option<Vec<String>>) -> (r: Option<Vec<String>>)
    ensures
        opt_seqs(r) == opt_seqs(*o),
{
    match o {
        Some(v) => Some(clone_strings(v)),
        None => None,
    }
}

/// The autoload overrides (see [`resolved_override_autoload`]).
fn resolve_override_autoload(json: &ComposerJson) -> (r: HashMap<String, serde_json::Value>)
    ensures
        r@ == resolved_override_autoload(*json),
{
    if let Some(x) = strauss_ref(json) {
        if let Some(h) = &x.override_autoload {
            return h.clone();
        }
    }
    if let Some(x) = mozart_ref(json) {
        if let Some(h) = &x.override_autoload {
            return h.clone();
        }
    }
    HashMap::new()
}

/// The deletion flags (see [`resolved_delete_vendor_files`] and
/// [`resolved_delete_vendor_packages`]).
fn resolve_delete_flags(json: &ComposerJson) -> (r: (bool, bool))
    ensures
        r.0 == resolved_delete_vendor_files(*json),
        r.1 == resolved_delete_vendor_packages(*json),
{
    let (sf, sp) = match strauss_ref(json) {
        Some(x) => (x.delete_vendor_files, x.delete_vendor_packages),
        None => (None, None),
    };
    let (mf, mp, has_mozart) = match mozart_ref(json) {
        Some(x) => (x.delete_vendor_files, x.delete_vendor_packages, true),
        None => (None, None, false),
    };
    (first_flag(sf, mf, has_mozart), first_flag(sp, mp, false))
}

/// The header and autoload flags (see [`resolved_include_modified_date`] and its siblings).
fn resolve_include_flags(json: &ComposerJson) -> (r: (bool, bool, bool))
    ensures
        r.0 == resolved_include_modified_date(*json),
        r.1 == resolved_include_author(*json),
        r.2 == resolved_include_root_autoload(*json),
{
    match strauss_ref(json) {
        Some(x) => (
            first_flag(x.include_modified_date, None, true),
            first_flag(x.include_author, None, true),
            first_flag(x.include_root_autoload, None, false),
        ),
        None => (true, true, false),
    }
}

/// Whether to write a classmap (see [`resolved_classmap_output`]), given the
/// resolved target directory and the package's autoload section.
fn resolve_classmap_output(json: &ComposerJson, target_directory: &str, autoload: &AutoloadConfig) -> (r: bool)
    requires
        target_directory@ == resolved_target_directory(*json),
        match json.autoload {
            Some(a) => forall|t: Seq<char>| autoload.has_path(t) == a.has_path(t),
            None => forall|t: Seq<char>| !autoload.has_path(t),
        },
    ensures
        r == resolved_classmap_output(*json),
{
    if let Some(x) = strauss_ref(json) {
        if let Some(co) = x.classmap_output {
            return co;
        }
    }
    let trimmed = trim_slashes_str(target_directory);
    let target_trimmed = concat(trimmed.as_str(), "/");
    proof {
        reveal_strlit("/");
        assert(target_trimmed@ =~= trimmed@.push('/'));
    }
    !autoload.contains_path(target_trimmed.as_str())
}

/// The namespace replacement patterns (see [`resolved_replacement_patterns`]).
fn resolve_replacement_patterns(json: &ComposerJson) -> (r: Vec<(String, String)>)
    ensures
        pairs_view(r@) == resolved_replacement_patterns(*json),
{
    let none: Vec<(String, String)> = Vec::new();
    assert(pairs_view(none@) =~= Seq::<(Seq<char>, Seq<char>)>::empty());
    match strauss_ref(json) {
        Some(x) => match &x.namespace_replacement_patterns {
            Some(v) => clone_pairs(v),
            None => none,
        },
        None => none,
    }
}

impl StraussConfig {
    /// How the functions prefix is configured (see [`functions_prefix_setting_of`]).
    pub open spec fn functions_prefix_setting(&self) -> Option<Option<Seq<char>>> {
        functions_prefix_setting_of(self.functions_prefix_state)
    }

    /// Resolves the configuration of a parsed `composer.json` that lies in the
    /// directory `project_dir`: the defaults, overlaid by `extra.mozart`, overlaid
    /// by `extra.strauss`, then completed by inference.
    pub fn from_composer_json(composer_json: &ComposerJson, project_dir: &str) -> (config: Self)
        ensures
            config.project_directory@ == normalized_dir(project_dir@),
            config.target_directory@ == resolved_target_directory(*composer_json),
            config.vendor_directory@ == resolved_vendor_directory(*composer_json),
            opt_seq(config.namespace_prefix) == resolved_namespace_prefix(*composer_json),
            opt_seq(config.classmap_prefix) == resolved_classmap_prefix(*composer_json),
            config.functions_prefix_setting() == resolved_functions_prefix_setting(*composer_json),
            opt_seq(config.functions_prefix) == explicit_prefix_of(resolved_functions_prefix_setting(*composer_json)),
            opt_seq(config.constants_prefix) == resolved_constants_prefix(*composer_json),
            opt_seqs(config.update_call_sites) == resolved_update_call_sites(*composer_json),
            seqs(config.packages@) == resolved_packages(*composer_json),
            seqs(config.exclude_from_copy.packages@) == resolved_copy_packages(*composer_json),
            seqs(config.exclude_from_copy.namespaces@) == resolved_copy_namespaces(*composer_json),
            seqs(config.exclude_from_copy.file_patterns@) == resolved_copy_file_patterns(*composer_json),
            seqs(config.exclude_from_prefix.packages@) == resolved_prefix_packages(*composer_json),
            seqs(config.exclude_from_prefix.namespaces@) == resolved_prefix_namespaces(*composer_json),
            seqs(config.exclude_from_prefix.file_patterns@) == resolved_prefix_file_patterns(*composer_json),
            config.override_autoload@ == resolved_override_autoload(*composer_json),
            config.delete_vendor_files == resolved_delete_vendor_files(*composer_json),
            config.delete_vendor_packages == resolved_delete_vendor_packages(*composer_json),
            config.classmap_output == Some(resolved_classmap_output(*composer_json)),
            pairs_view(config.namespace_replacement_patterns@) == resolved_replacement_patterns(*composer_json),
            config.include_modified_date == resolved_include_modified_date(*composer_json),
            config.include_author == resolved_include_author(*composer_json),
            config.include_root_autoload == resolved_include_root_autoload(*composer_json),
            !config.dry_run,
    {
        let autoload = composer_json.autoload();
        proof {
            if composer_json.autoload is Some {
                lemma_same_autoload_paths(autoload, composer_json.autoload->0);
            } else {
                lemma_empty_autoload_paths(autoload);
            }
        }
        let target_directory = resolve_target_directory(composer_json);
        let namespace_prefix = resolve_namespace_prefix(composer_json);
        let classmap_prefix = resolve_classmap_prefix(composer_json, &namespace_prefix);
        let state = resolve_functions_prefix_state(composer_json);
        let functions_prefix = prefix_of_state(&state);
        let constants_prefix = match strauss_ref(composer_json) {
            Some(x) => first_text(&x.constants_prefix, &NO_TEXT),
            None => None,
        };
        let (exclude_from_copy, exclude_from_prefix) = resolve_excludes(composer_json);
        let (delete_vendor_files, delete_vendor_packages) = resolve_delete_flags(composer_json);
        let classmap_output = resolve_classmap_output(composer_json, target_directory.as_str(), &autoload);
        let (include_modified_date, include_author, include_root_autoload) = resolve_include_flags(composer_json);
        StraussConfig {
            project_directory: normalize_dir_str(project_dir),
            target_directory,
            vendor_directory: resolve_vendor_directory(composer_json),
            namespace_prefix,
            classmap_prefix,
            functions_prefix,
            constants_prefix,
            update_call_sites: resolve_update_call_sites(composer_json),
            packages: resolve_packages(composer_json),
            exclude_from_copy,
            exclude_from_prefix,
            override_autoload: resolve_override_autoload(composer_json),
            delete_vendor_files,
            delete_vendor_packages,
            classmap_output: Some(classmap_output),
            namespace_replacement_patterns: resolve_replacement_patterns(composer_json),
            include_modified_date,
            include_author,
            dry_run: false,
            include_root_autoload,
            functions_prefix_state: state,
        }
    }
}

// ---------------------------------------------------------------------------
// Reading and changing the configuration
// ---------------------------------------------------------------------------

/// What a command-line `update_call_sites` value means: `false` is nowhere (the
/// empty list), `true` is the autoload paths (`None`), anything else a
/// comma-separated list of paths, each trimmed of white space, empty ones dropped.
pub open spec fn call_sites_from_string(value: Seq<char>) -> Option<Seq<Seq<char>>> {
    if value == "false"@ {
        Some(Seq::empty())
    } else if value == "true"@ {
        None
    } else {
        Some(split_char(value, ',').map_values(|p: Seq<char>| unicode_trim(p)).filter(|p: Seq<char>| p.len() > 0))
    }
}

impl StraussConfig {
    /// The project directory as used for paths: with `mem:/` in front in dry-run mode.
    pub open spec fn spec_project_directory(&self) -> Seq<char> {
        if self.dry_run {
            "mem:/"@ + self.project_directory@
        } else {
            self.project_directory@
        }
    }

    /// The functions prefix in effect: when not set, the classmap prefix in lower
    /// case; when disabled or empty, none; otherwise the configured prefix.
    pub open spec fn effective_functions_prefix(&self) -> Option<Seq<char>> {
        match self.functions_prefix_setting() {
            None => match self.classmap_prefix {
                Some(c) => Some(unicode_lowercase(c@)),
                None => None,
            },
            Some(None) => None,
            Some(Some(p)) => if p.len() == 0 { None } else { Some(p) },
        }
    }

    /// The project directory, with `mem:/` in front in dry-run mode.
    pub fn project_directory(&self) -> (r: String)
        ensures
            r@ == self.spec_project_directory(),
    {
        if self.dry_run {
            concat("mem:/", self.project_directory.as_str())
        } else {
            self.project_directory.clone()
        }
    }

    /// The project directory as configured.
    pub fn project_directory_raw(&self) -> (r: &str)
        ensures
            r@ == self.project_directory@,
    {
        self.project_directory.as_str()
    }

    /// The full target directory: the project directory, the target directory
    /// without separators at its ends, and `/`.
    pub fn target_directory(&self) -> (r: String)
        ensures
            r@ == self.spec_project_directory() + trim_slashes(self.target_directory@).push('/'),
    {
        let p = self.project_directory();
        let t = trim_slashes_slice(self.target_directory.as_str());
        let r = concat3(p.as_str(), t, "/");
        proof {
            reveal_strlit("/");
            assert(r@ =~= p@ + t@.push('/'));
        }
        r
    }

    /// The target directory without separators at its ends.
    pub fn target_directory_name(&self) -> (r: &str)
        ensures
            r@ == trim_slashes(self.target_directory@),
    {
        trim_slashes_slice(self.target_directory.as_str())
    }

    /// The full vendor directory: the project directory, the vendor directory
    /// without separators at its ends, and `/`.
    pub fn vendor_directory(&self) -> (r: String)
        ensures
            r@ == self.spec_project_directory() + trim_slashes(self.vendor_directory@).push('/'),
    {
        let p = self.project_directory();
        let t = trim_slashes_slice(self.vendor_directory.as_str());
        let r = concat3(p.as_str(), t, "/");
        proof {
            reveal_strlit("/");
            assert(r@ =~= p@ + t@.push('/'));
        }
        r
    }

    /// The vendor directory without separators at its ends.
    pub fn vendor_directory_name(&self) -> (r: &str)
        ensures
            r@ == trim_slashes(self.vendor_directory@),
    {
        trim_slashes_slice(self.vendor_directory.as_str())
    }

    /// The namespace prefix without `\` at its ends.
    pub fn namespace_prefix(&self) -> (r: Option<&str>)
        ensures
            match r {
                Some(p) => self.namespace_prefix is Some && p@ == trim_both(self.namespace_prefix->0@, '\\'),
                None => self.namespace_prefix is None,
            },
    {
        match &self.namespace_prefix {
            Some(p) => Some(trim_char_slice(p.as_str(), '\\')),
            None => None,
        }
    }

    /// The classmap prefix.
    pub fn classmap_prefix(&self) -> (r: Option<&str>)
        ensures
            match r {
                Some(p) => self.classmap_prefix is Some && p@ == self.classmap_prefix->0@,
                None => self.classmap_prefix is None,
            },
    {
        match &self.classmap_prefix {
            Some(p) => Some(p.as_str()),
            None => None,
        }
    }

    /// The functions prefix in effect (see [`StraussConfig::effective_functions_prefix`]).
    pub fn get_functions_prefix(&self) -> (r: Option<String>)
        ensures
            opt_seq(r) == self.effective_functions_prefix(),
    {
        match &self.functions_prefix_state {
            FunctionsPrefixState::NotSet => match &self.classmap_prefix {
                Some(cp) => Some(to_lowercase(cp.as_str())),
                None => None,
            },
            FunctionsPrefixState::Disabled => None,
            FunctionsPrefixState::Prefix(s) => if s.as_str().is_empty() {
                None
            } else {
                Some(s.clone())
            },
        }
    }

    /// The constants prefix.
    pub fn constants_prefix(&self) -> (r: Option<&str>)
        ensures
            match r {
                Some(p) => self.constants_prefix is Some && p@ == self.constants_prefix->0@,
                None => self.constants_prefix is None,
            },
    {
        match &self.constants_prefix {
            Some(p) => Some(p.as_str()),
            None => None,
        }
    }

    /// Where to update call sites: `None` for the autoload paths, an empty list
    /// for nowhere.
    pub fn update_call_sites(&self) -> (r: Option<&[String]>)
        ensures
            match r {
                Some(v) => self.update_call_sites is Some && v@ == self.update_call_sites->0@,
                None => self.update_call_sites is None,
            },
    {
        match &self.update_call_sites {
            Some(v) => Some(v.as_slice()),
            None => None,
        }
    }

    /// The packages to process.
    pub fn packages(&self) -> (r: &[String])
        ensures
            r@ == self.packages@,
    {
        self.packages.as_slice()
    }

    /// What the copy step leaves alone.
    pub fn exclude_from_copy(&self) -> (r: &ExcludeConfig)
        ensures
            *r == self.exclude_from_copy,
    {
        &self.exclude_from_copy
    }

    /// The packages the copy step leaves alone.
    pub fn exclude_packages_from_copy(&self) -> (r: &[String])
        ensures
            r@ == self.exclude_from_copy.packages@,
    {
        self.exclude_from_copy.packages.as_slice()
    }

    /// The namespaces the copy step leaves alone.
    pub fn exclude_namespaces_from_copy(&self) -> (r: &[String])
        ensures
            r@ == self.exclude_from_copy.namespaces@,
    {
        self.exclude_from_copy.namespaces.as_slice()
    }

    /// The file patterns the copy step leaves alone.
    pub fn exclude_file_patterns_from_copy(&self) -> (r: &[String])
        ensures
            r@ == self.exclude_from_copy.file_patterns@,
    {
        self.exclude_from_copy.file_patterns.as_slice()
    }

    /// What the prefix step leaves alone.
    pub fn exclude_from_prefix(&self) -> (r: &ExcludeConfig)
        ensures
            *r == self.exclude_from_prefix,
    {
        &self.exclude_from_prefix
    }

    /// The packages the prefix step leaves alone.
    pub fn exclude_packages_from_prefixing(&self) -> (r: &[String])
        ensures
            r@ == self.exclude_from_prefix.packages@,
    {
        self.exclude_from_prefix.packages.as_slice()
    }

    /// The namespaces the prefix step leaves alone, without separators at their ends.
    pub fn exclude_namespaces_from_prefixing(&self) -> (r: Vec<String>)
        ensures
            seqs(r@) == seqs(self.exclude_from_prefix.namespaces@).map_values(|n: Seq<char>| trim_slashes(n)),
    {
        let v = &self.exclude_from_prefix.namespaces;
        let mut out: Vec<String> = Vec::new();
        let mut i: usize = 0;
        while i < v.len()
            invariant
                i <= v.len(),
                v == &self.exclude_from_prefix.namespaces,
                seqs(out@) == seqs(v@).map_values(|n: Seq<char>| trim_slashes(n)).take(i as int),
            decreases v.len() - i,
        {
            let ghost pre = out@;
            out.push(trim_slashes_str(v[i].as_str()));
            assert(seqs(out@) == seqs(pre).push(trim_slashes(v@[i as int]@)));
            i += 1;
            assert(seqs(v@).map_values(|n: Seq<char>| trim_slashes(n)).take(i as int)
                == seqs(v@).map_values(|n: Seq<char>| trim_slashes(n)).take(i - 1).push(trim_slashes(v@[i - 1]@)));
        }
        assert(seqs(v@).map_values(|n: Seq<char>| trim_slashes(n)).take(v.len() as int)
            == seqs(v@).map_values(|n: Seq<char>| trim_slashes(n)));
        out
    }

    /// The file patterns the prefix step leaves alone.
    pub fn exclude_file_patterns_from_prefixing(&self) -> (r: &[String])
        ensures
            r@ == self.exclude_from_prefix.file_patterns@,
    {
        self.exclude_from_prefix.file_patterns.as_slice()
    }

    /// The autoload overrides by package name.
    pub fn override_autoload(&self) -> (r: &HashMap<String, serde_json::Value>)
        ensures
            r@ == self.override_autoload@,
    {
        &self.override_autoload
    }

    /// Whether to delete the vendor files after prefixing.
    pub fn delete_vendor_files(&self) -> (r: bool)
        ensures
            r == self.delete_vendor_files,
    {
        self.delete_vendor_files
    }

    /// Whether to delete the vendor packages after prefixing.
    pub fn delete_vendor_packages(&self) -> (r: bool)
        ensures
            r == self.delete_vendor_packages,
    {
        self.delete_vendor_packages
    }

    /// Whether to write a classmap; yes when it was never decided.
    pub fn classmap_output(&self) -> (r: bool)
        ensures
            r == bool_or(self.classmap_output, true),
    {
        match self.classmap_output {
            Some(b) => b,
            None => true,
        }
    }

    /// Whether to write a classmap, as stored.
    pub fn classmap_output_option(&self) -> (r: Option<bool>)
        ensures
            r == self.classmap_output,
    {
        self.classmap_output
    }

    /// The namespace replacement patterns, in order.
    pub fn namespace_replacement_patterns(&self) -> (r: &Vec<(String, String)>)
        ensures
            r@ == self.namespace_replacement_patterns@,
    {
        &self.namespace_replacement_patterns
    }

    /// Whether to write the modification date into headers.
    pub fn include_modified_date(&self) -> (r: bool)
        ensures
            r == self.include_modified_date,
    {
        self.include_modified_date
    }

    /// Whether to write the author into headers.
    pub fn include_author(&self) -> (r: bool)
        ensures
            r == self.include_author,
    {
        self.include_author
    }

    /// Whether this is a dry run.
    pub fn dry_run(&self) -> (r: bool)
        ensures
            r == self.dry_run,
    {
        self.dry_run
    }

    /// Whether to include the project's own autoload.
    pub fn include_root_autoload(&self) -> (r: bool)
        ensures
            r == self.include_root_autoload,
    {
        self.include_root_autoload
    }

    /// Whether class aliases are needed: when vendor packages or files are
    /// deleted, or when the target directory is `vendor` itself.
    pub fn create_aliases(&self) -> (r: bool)
        ensures
            r == (self.delete_vendor_packages || self.delete_vendor_files
                || trim_slashes(self.target_directory@) == "vendor"@),
    {
        self.delete_vendor_packages || self.delete_vendor_files
            || str_eq(trim_slashes_slice(self.target_directory.as_str()), "vendor")
    }

    /// Sets the project directory (normalised to forward slashes and a trailing `/`).
    pub fn set_project_directory(&mut self, dir: String)
        ensures
            final(self).project_directory@ == normalized_dir(dir@),
            *final(self) == (StraussConfig { project_directory: final(self).project_directory, ..*old(self) }),
    {
        self.project_directory = normalize_dir_str(dir.as_str());
    }

    /// Sets the target directory.
    pub fn set_target_directory(&mut self, dir: String)
        ensures
            *final(self) == (StraussConfig { target_directory: dir, ..*old(self) }),
    {
        self.target_directory = dir;
    }

    /// Sets the vendor directory.
    pub fn set_vendor_directory(&mut self, dir: String)
        ensures
            *final(self) == (StraussConfig { vendor_directory: dir, ..*old(self) }),
    {
        self.vendor_directory = dir;
    }

    /// Sets the namespace prefix.
    pub fn set_namespace_prefix(&mut self, prefix: String)
        ensures
            *final(self) == (StraussConfig { namespace_prefix: Some(prefix), ..*old(self) }),
    {
        self.namespace_prefix = Some(prefix);
    }

    /// Sets the classmap prefix.
    pub fn set_classmap_prefix(&mut self, prefix: String)
        ensures
            *final(self) == (StraussConfig { classmap_prefix: Some(prefix), ..*old(self) }),
    {
        self.classmap_prefix = Some(prefix);
    }

    /// Sets the functions prefix; `None` or the empty string disables it.
    pub fn set_functions_prefix(&mut self, prefix: Option<String>)
        ensures
            final(self).effective_functions_prefix() == match prefix {
                Some(p) => if p@.len() == 0 { None } else { Some(p@) },
                None => None,
            },
            match prefix {
                Some(p) => if p@.len() == 0 {
                    *final(self) == (StraussConfig {
                        functions_prefix_state: FunctionsPrefixState::Disabled,
                        functions_prefix: None,
                        ..*old(self)
                    })
                } else {
                    *final(self) == (StraussConfig {
                        functions_prefix_state: final(self).functions_prefix_state,
                        functions_prefix: Some(p),
                        ..*old(self)
                    }) && final(self).functions_prefix_setting() == Some(Some(p@))
                },
                None => *final(self) == (StraussConfig {
                    functions_prefix_state: FunctionsPrefixState::Disabled,
                    functions_prefix: None,
                    ..*old(self)
                }),
            },
    {
        match prefix {
            None => {
                self.functions_prefix_state = FunctionsPrefixState::Disabled;
                self.functions_prefix = None;
            },
            Some(s) => {
                if s.as_str().is_empty() {
                    self.functions_prefix_state = FunctionsPrefixState::Disabled;
                    self.functions_prefix = None;
                } else {
                    self.functions_prefix_state = FunctionsPrefixState::Prefix(s.clone());
                    self.functions_prefix = Some(s);
                }
            },
        }
    }

    /// Sets the constants prefix.
    pub fn set_constants_prefix(&mut self, prefix: Option<String>)
        ensures
            *final(self) == (StraussConfig { constants_prefix: prefix, ..*old(self) }),
    {
        self.constants_prefix = prefix;
    }

    /// Sets where to update call sites from a command-line value (see
    /// [`call_sites_from_string`]).
    pub fn set_update_call_sites_from_string(&mut self, value: &str)
        ensures
            opt_seqs(final(self).update_call_sites) == call_sites_from_string(value@),
            *final(self) == (StraussConfig { update_call_sites: final(self).update_call_sites, ..*old(self) }),
    {
        proof {
            reveal_strlit("false");
            reveal_strlit("true");
        }
        if str_eq(value, "false") {
            let none: Vec<String> = Vec::new();
            assert(seqs(none@) =~= Seq::<Seq<char>>::empty());
            self.update_call_sites = Some(none);
        } else if str_eq(value, "true") {
            self.update_call_sites = None;
        } else {
            self.update_call_sites = Some(call_site_paths(value));
        }
    }

    /// Sets where to update call sites.
    pub fn set_update_call_sites(&mut self, value: Option<Vec<String>>)
        ensures
            *final(self) == (StraussConfig { update_call_sites: value, ..*old(self) }),
    {
        self.update_call_sites = value;
    }

    /// Sets the packages to process.
    pub fn set_packages(&mut self, packages: Vec<String>)
        ensures
            *final(self) == (StraussConfig { packages: packages, ..*old(self) }),
    {
        self.packages = packages;
    }

    /// Sets what the copy step leaves alone.
    pub fn set_exclude_from_copy(&mut self, config: ExcludeConfig)
        ensures
            *final(self) == (StraussConfig { exclude_from_copy: config, ..*old(self) }),
    {
        self.exclude_from_copy = config;
    }

    /// Sets what the prefix step leaves alone.
    pub fn set_exclude_from_prefix(&mut self, config: ExcludeConfig)
        ensures
            *final(self) == (StraussConfig { exclude_from_prefix: config, ..*old(self) }),
    {
        self.exclude_from_prefix = config;
    }

    /// Sets the packages the prefix step leaves alone.
    pub fn set_exclude_packages_from_prefixing(&mut self, packages: Vec<String>)
        ensures
            final(self).exclude_from_prefix == (ExcludeConfig { packages: packages, ..old(self).exclude_from_prefix }),
            *final(self) == (StraussConfig { exclude_from_prefix: final(self).exclude_from_prefix, ..*old(self) }),
    {
        self.exclude_from_prefix.packages = packages;
    }

    /// Sets the autoload overrides.
    pub fn set_override_autoload(&mut self, overrides: HashMap<String, serde_json::Value>)
        ensures
            *final(self) == (StraussConfig { override_autoload: overrides, ..*old(self) }),
    {
        self.override_autoload = overrides;
    }

    /// Sets whether to delete the vendor files.
    pub fn set_delete_vendor_files(&mut self, delete: bool)
        ensures
            *final(self) == (StraussConfig { delete_vendor_files: delete, ..*old(self) }),
    {
        self.delete_vendor_files = delete;
    }

    /// Sets whether to delete the vendor packages.
    pub fn set_delete_vendor_packages(&mut self, delete: bool)
        ensures
            *final(self) == (StraussConfig { delete_vendor_packages: delete, ..*old(self) }),
    {
        self.delete_vendor_packages = delete;
    }

    /// Sets whether to write a classmap.
    pub fn set_classmap_output(&mut self, output: bool)
        ensures
            *final(self) == (StraussConfig { classmap_output: Some(output), ..*old(self) }),
    {
        self.classmap_output = Some(output);
    }

    /// Sets the namespace replacement patterns.
    pub fn set_namespace_replacement_patterns(&mut self, patterns: Vec<(String, String)>)
        ensures
            *final(self) == (StraussConfig { namespace_replacement_patterns: patterns, ..*old(self) }),
    {
        self.namespace_replacement_patterns = patterns;
    }

    /// Sets whether to write the modification date into headers.
    pub fn set_include_modified_date(&mut self, enabled: bool)
        ensures
            *final(self) == (StraussConfig { include_modified_date: enabled, ..*old(self) }),
    {
        self.include_modified_date = enabled;
    }

    /// Sets whether to write the author into headers.
    pub fn set_include_author(&mut self, enabled: bool)
        ensures
            *final(self) == (StraussConfig { include_author: enabled, ..*old(self) }),
    {
        self.include_author = enabled;
    }

    /// Sets dry-run mode.
    pub fn set_dry_run(&mut self, dry_run: bool)
        ensures
            *final(self) == (StraussConfig { dry_run: dry_run, ..*old(self) }),
    {
        self.dry_run = dry_run;
    }

    /// Sets whether to include the project's own autoload.
    pub fn set_include_root_autoload(&mut self, enabled: bool)
        ensures
            *final(self) == (StraussConfig { include_root_autoload: enabled, ..*old(self) }),
    {
        self.include_root_autoload = enabled;
    }

    /// The namespaces the prefix step leaves alone, as configured.
    pub fn get_exclude_namespaces_from_prefixing(&self) -> (r: Vec<String>)
        ensures
            seqs(r@) == seqs(self.exclude_from_prefix.namespaces@),
    {
        clone_strings(&self.exclude_from_prefix.namespaces)
    }
}

/// The comma-separated paths of a command-line value, trimmed, empty ones dropped.
fn call_site_paths(value: &str) -> (r: Vec<String>)
    ensures
        seqs(r@) == split_char(value@, ',').map_values(|p: Seq<char>| unicode_trim(p)).filter(|p: Seq<char>| p.len() > 0),
{
    let parts = split_char_str(value, ',');
    let ghost trimmed = seqs(parts@).map_values(|p: Seq<char>| unicode_trim(p));
    let mut out: Vec<String> = Vec::new();
    let mut i: usize = 0;
    proof {
        reveal(Seq::filter);
        assert(trimmed.take(0).filter(|p: Seq<char>| p.len() > 0) =~= Seq::<Seq<char>>::empty());
    }
    assert(seqs(out@) =~= Seq::<Seq<char>>::empty());
    while i < parts.len()
        invariant
            seqs(parts@) == split_char(value@, ','),
            trimmed == seqs(parts@).map_values(|p: Seq<char>| unicode_trim(p)),
            i <= parts.len(),
            seqs(out@) == trimmed.take(i as int).filter(|p: Seq<char>| p.len() > 0),
        decreases parts.len() - i,
    {
        proof {
            reveal(Seq::filter);
            assert(trimmed.take(i + 1).drop_last() == trimmed.take(i as int));
            assert(trimmed.take(i + 1).last() == unicode_trim(parts@[i as int]@));
        }
        let t = trim(parts[i].as_str());
        if !t.is_empty() {
            let ghost pre = out@;
            out.push(to_owned(t));
            assert(seqs(out@) == seqs(pre).push(t@));
        }
        i += 1;
    }
    assert(trimmed.take(parts.len() as int) == trimmed);
    out
}

} // verus!
