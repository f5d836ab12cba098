//! Which symbols keep being renamed: exclusion by package, namespace, file
//! pattern, and whether the symbol's file is copied at all.

use vstd::prelude::*;
use crate::config::strauss_config::StraussConfig;
use crate::matching::{CompiledRegex, compile_regex, regex_compiles, regex_finds, regex_is_match};
use crate::strs::{seqs, str_eq, vec_contains_str};
use crate::types::discovered_files::{DiscoveredFiles, file_views};
use crate::types::file::{DiscoveredFile, FileView};
use crate::types::symbol::{DiscoveredSymbol, SymbolType, SymbolView};
use crate::types::symbols_collection::{
    DiscoveredSymbols, keeps_identity, lemma_store_every_changed, lists_every_symbol, symbol_views,
};

verus! {

/// The patterns that compile, in order.
pub open spec fn compiling(patterns: Seq<Seq<char>>) -> Seq<Seq<char>> {
    patterns.filter(|p: Seq<char>| regex_compiles(p))
}

/// Some pattern that compiles matches the path.
pub open spec fn some_pattern_matches(patterns: Seq<Seq<char>>, path: Seq<char>) -> bool {
    exists|j: int| 0 <= j < compiling(patterns).len() && #[trigger] regex_finds(compiling(patterns)[j], path)
}

/// Some source path is matched by an exclusion pattern.
pub open spec fn pattern_excluded(paths: Seq<Seq<char>>, patterns: Seq<Seq<char>>) -> bool {
    exists|i: int| 0 <= i < paths.len() && #[trigger] some_pattern_matches(patterns, paths[i])
}

/// A file with this source path is copied.
pub open spec fn copied_at(files: Seq<FileView>, path: Seq<char>) -> bool {
    exists|j: int| 0 <= j < files.len() && #[trigger] files[j].source_absolute_path == path && files[j].do_copy
}

/// Some source path belongs to a copied file.
pub open spec fn in_copied_file(paths: Seq<Seq<char>>, files: Seq<FileView>) -> bool {
    exists|i: int| 0 <= i < paths.len() && #[trigger] copied_at(files, paths[i])
}

/// What the prefix step leaves alone.
pub struct Exclusions {
    pub packages: Seq<Seq<char>>,
    pub namespaces: Seq<Seq<char>>,
    pub file_patterns: Seq<Seq<char>>,
}

/// The exclusions of a configuration's prefix step.
pub open spec fn prefix_exclusions(config: StraussConfig) -> Exclusions {
    Exclusions {
        packages: seqs(config.exclude_from_prefix.packages@),
        namespaces: seqs(config.exclude_from_prefix.namespaces@),
        file_patterns: seqs(config.exclude_from_prefix.file_patterns@),
    }
}

/// A symbol is not renamed when its package is excluded, its namespace is
/// excluded, it is itself an excluded namespace, one of its files matches an
/// exclusion pattern, or (unless it is a namespace) none of its files is copied.
pub open spec fn excluded_from_renaming(s: SymbolView, ex: Exclusions, files: Seq<FileView>) -> bool {
    ||| (s.package_name matches Some(p) && ex.packages.contains(p))
    ||| (s.namespace matches Some(n) && ex.namespaces.contains(n))
    ||| ex.namespaces.contains(s.original_symbol)
    ||| pattern_excluded(s.source_files, ex.file_patterns)
    ||| (!in_copied_file(s.source_files, files) && s.symbol_type != SymbolType::Namespace)
}

/// The symbol after marking: renaming switched off when it is excluded.
pub open spec fn marked_for_renaming(s: SymbolView, ex: Exclusions, files: Seq<FileView>) -> SymbolView {
    if excluded_from_renaming(s, ex, files) {
        SymbolView { do_rename: false, ..s }
    } else {
        s
    }
}

/// The compiled patterns are those of `raw` that compile, in order.
pub open spec fn compiled_from(compiled: Seq<CompiledRegex>, raw: Seq<Seq<char>>) -> bool {
    compiled.map_values(|c: CompiledRegex| c.pattern()) == compiling(raw)
}

/// The patterns that compile.
pub fn compile_all(raw: &Vec<String>) -> (r: Vec<CompiledRegex>)
    ensures
        compiled_from(r@, seqs(raw@)),
{
    let mut out: Vec<CompiledRegex> = Vec::new();
    let mut i: usize = 0;
    proof {
        reveal(Seq::filter);
        assert(seqs(raw@).take(0).filter(|p: Seq<char>| regex_compiles(p)) =~= Seq::<Seq<char>>::empty());
    }
    assert(out@.map_values(|c: CompiledRegex| c.pattern()) =~= Seq::<Seq<char>>::empty());
    while i < raw.len()
        invariant
            i <= raw.len(),
            out@.map_values(|c: CompiledRegex| c.pattern()) == seqs(raw@).take(i as int).filter(|p: Seq<char>| regex_compiles(p)),
        decreases raw.len() - i,
    {
        proof {
            reveal(Seq::filter);
            assert(seqs(raw@).take(i + 1).drop_last() == seqs(raw@).take(i as int));
            assert(seqs(raw@).take(i + 1).last() == raw@[i as int]@);
        }
        let ghost pre = out@;
        match compile_regex(raw[i].as_str()) {
            Some(re) => {
                out.push(re);
                assert(out@.map_values(|c: CompiledRegex| c.pattern())
                    =~= pre.map_values(|c: CompiledRegex| c.pattern()).push(raw@[i as int]@));
            },
            None => {},
        }
        i += 1;
    }
    assert(seqs(raw@).take(raw.len() as int) == seqs(raw@));
    out
}

/// Whether some compiled pattern matches some of the paths.
fn any_path_matches(compiled: &Vec<CompiledRegex>, paths: &Vec<String>, Ghost(raw): Ghost<Seq<Seq<char>>>) -> (r: bool)
    requires
        compiled_from(compiled@, raw),
    ensures
        r == pattern_excluded(seqs(paths@), raw),
{
    let mut i: usize = 0;
    while i < paths.len()
        invariant
            compiled_from(compiled@, raw),
            i <= paths.len(),
            forall|a: int| 0 <= a < i ==> !some_pattern_matches(raw, #[trigger] seqs(paths@)[a]),
        decreases paths.len() - i,
    {
        let mut j: usize = 0;
        while j < compiled.len()
            invariant
                compiled_from(compiled@, raw),
                i < paths.len(),
                j <= compiled.len(),
                forall|b: int| 0 <= b < j ==> !regex_finds(#[trigger] compiled@[b].pattern(), paths@[i as int]@),
            decreases compiled.len() - j,
        {
            if regex_is_match(&compiled[j], paths[i].as_str()) {
                proof {
                    assert(compiling(raw)[j as int] == compiled@[j as int].pattern());
                    assert(seqs(paths@)[i as int] == paths@[i as int]@);
                    assert(regex_finds(compiling(raw)[j as int], seqs(paths@)[i as int]));
                    assert(some_pattern_matches(raw, seqs(paths@)[i as int]));
                }
                return true;
            }
            j += 1;
        }
        proof {
            assert(seqs(paths@)[i as int] == paths@[i as int]@);
            if some_pattern_matches(raw, seqs(paths@)[i as int]) {
                let b = choose|b: int| 0 <= b < compiling(raw).len() && #[trigger] regex_finds(compiling(raw)[b], seqs(paths@)[i as int]);
                assert(compiling(raw)[b] == compiled@[b].pattern());
                assert(!regex_finds(compiled@[b].pattern(), paths@[i as int]@));
            }
        }
        i += 1;
    }
    false
}

/// Whether some path belongs to a copied file.
fn any_path_copied(paths: &Vec<String>, files: &Vec<DiscoveredFile>) -> (r: bool)
    ensures
        r == in_copied_file(seqs(paths@), file_views(files@)),
{
    let mut i: usize = 0;
    while i < paths.len()
        invariant
            i <= paths.len(),
            forall|a: int| 0 <= a < i ==> !copied_at(file_views(files@), #[trigger] seqs(paths@)[a]),
        decreases paths.len() - i,
    {
        let mut j: usize = 0;
        while j < files.len()
            invariant
                i < paths.len(),
                j <= files.len(),
                forall|b: int| 0 <= b < j ==> !(#[trigger] file_views(files@)[b].source_absolute_path == paths@[i as int]@
                    && file_views(files@)[b].do_copy),
            decreases files.len() - j,
        {
            if str_eq(files[j].source_absolute_path.as_str(), paths[i].as_str()) && files[j].do_copy {
                proof {
                    assert(file_views(files@)[j as int] == files@[j as int]@);
                    assert(seqs(paths@)[i as int] == paths@[i as int]@);
                    assert(file_views(files@)[j as int].source_absolute_path == seqs(paths@)[i as int]);
                    assert(copied_at(file_views(files@), seqs(paths@)[i as int]));
                }
                return true;
            }
            assert(file_views(files@)[j as int] == files@[j as int]@);
            j += 1;
        }
        assert(seqs(paths@)[i as int] == paths@[i as int]@);
        i += 1;
    }
    false
}

/// Marks one symbol (see [`marked_for_renaming`]).
fn mark_symbol(
    symbol: &mut DiscoveredSymbol,
    compiled: &Vec<CompiledRegex>,
    files: &Vec<DiscoveredFile>,
    config: &StraussConfig,
)
    requires
        compiled_from(compiled@, seqs(config.exclude_from_prefix.file_patterns@)),
    ensures
        final(symbol)@ == marked_for_renaming(old(symbol)@, prefix_exclusions(*config), file_views(files@)),
{
    let exclude_packages = &config.exclude_from_prefix.packages;
    let exclude_namespaces = &config.exclude_from_prefix.namespaces;
    if let Some(pkg) = &symbol.package_name {
        if vec_contains_str(exclude_packages, pkg.as_str()) {
            symbol.do_rename = false;
            return;
        }
    }
    if let Some(ns) = &symbol.namespace {
        if vec_contains_str(exclude_namespaces, ns.as_str()) {
            symbol.do_rename = false;
            return;
        }
    }
    if vec_contains_str(exclude_namespaces, symbol.original_symbol.as_str()) {
        symbol.do_rename = false;
        return;
    }
    if any_path_matches(compiled, &symbol.source_files, Ghost(seqs(config.exclude_from_prefix.file_patterns@))) {
        symbol.do_rename = false;
        return;
    }
    let in_copied = any_path_copied(&symbol.source_files, files);
    if !in_copied && symbol.symbol_type != SymbolType::Namespace {
        symbol.do_rename = false;
    }
}

/// Switches renaming off for every excluded symbol (see
/// [`excluded_from_renaming`]); every other part of the collection stays as it was.
pub fn mark_symbols_for_renaming(symbols: &mut DiscoveredSymbols, files: &DiscoveredFiles, config: &StraussConfig)
    ensures
        forall|t: SymbolType| #[trigger] final(symbols).map_of(t) == old(symbols).map_of(t).map_values(
            |s: SymbolView| marked_for_renaming(s, prefix_exclusions(*config), files@),
        ),
{
    let compiled = compile_all(&config.exclude_from_prefix.file_patterns);
    let file_list = files.get_files();
    let all_symbols = symbols.all_symbols_mut();
    let ghost g = |s: SymbolView| marked_for_renaming(s, prefix_exclusions(*config), files@);
    let mut updated: Vec<DiscoveredSymbol> = Vec::new();
    let mut i: usize = 0;
    while i < all_symbols.len()
        invariant
            i <= all_symbols.len(),
            updated@.len() == i,
            file_views(file_list@) == files@,
            compiled_from(compiled@, seqs(config.exclude_from_prefix.file_patterns@)),
            g == (|s: SymbolView| marked_for_renaming(s, prefix_exclusions(*config), files@)),
            forall|j: int| 0 <= j < i ==> #[trigger] symbol_views(updated@)[j] == g(symbol_views(all_symbols@)[j]),
        decreases all_symbols.len() - i,
    {
        let mut s = all_symbols[i].clone_symbol();
        mark_symbol(&mut s, &compiled, file_list, config);
        let ghost pre = updated@;
        updated.push(s);
        proof {
            assert(symbol_views(all_symbols@)[i as int] == all_symbols@[i as int]@);
            assert(symbol_views(updated@)[i as int] == g(symbol_views(all_symbols@)[i as int]));
            assert forall|j: int| 0 <= j < i implies #[trigger] symbol_views(updated@)[j] == symbol_views(pre)[j] by {}
        }
        i += 1;
    }
    proof {
        assert(keeps_identity(g));
    }
    let ghost before = *symbols;
    symbols.update_symbols(updated);
    proof {
        assert forall|t: SymbolType| #[trigger] symbols.map_of(t) == before.map_of(t).map_values(g) by {
            lemma_store_every_changed(before, symbol_views(all_symbols@), symbol_views(updated@), g, t);
        }
    }
}

/// Marking only ever turns renaming off, and changes nothing else.
pub proof fn law_marking_only_disables(s: SymbolView, ex: Exclusions, files: Seq<FileView>)
    ensures
        marked_for_renaming(s, ex, files) == (SymbolView { do_rename: marked_for_renaming(s, ex, files).do_rename, ..s }),
        marked_for_renaming(s, ex, files).do_rename ==> s.do_rename,
{
}

/// A symbol excluded from renaming keeps its own name, whatever the replacement
/// decision that follows.
pub proof fn law_excluded_keeps_name(
    s: SymbolView,
    ex: Exclusions,
    files: Seq<FileView>,
    patterns: Seq<(Seq<char>, Seq<char>)>,
    prefixes: crate::pipeline::change_enumerator::Prefixes,
)
    requires
        excluded_from_renaming(s, ex, files),
    ensures
        crate::pipeline::change_enumerator::replacement_decided(marked_for_renaming(s, ex, files), patterns, prefixes)
            .effective_replacement() == s.original_symbol,
{
}

/// A symbol whose package is excluded from prefixing, whose namespace is an
/// excluded namespace, or which is itself an excluded namespace, is not marked
/// for renaming after marking.
pub proof fn law_excluded_packages_and_namespaces_unmarked(s: SymbolView, config: StraussConfig, files: Seq<FileView>)
    requires
        (s.package_name matches Some(p) && seqs(config.exclude_from_prefix.packages@).contains(p))
        || (s.namespace matches Some(n) && seqs(config.exclude_from_prefix.namespaces@).contains(n))
        || seqs(config.exclude_from_prefix.namespaces@).contains(s.original_symbol),
    ensures
        !marked_for_renaming(s, prefix_exclusions(config), files).do_rename,
{
}

/// A symbol other than a namespace none of whose source files is copied is not
/// marked for renaming after marking.
pub proof fn law_uncopied_symbols_unmarked(s: SymbolView, config: StraussConfig, files: Seq<FileView>)
    requires
        s.symbol_type != SymbolType::Namespace,
        forall|i: int, j: int| 0 <= i < s.source_files.len() && 0 <= j < files.len()
            && files[j].source_absolute_path == s.source_files[i] ==> !files[j].do_copy,
    ensures
        !marked_for_renaming(s, prefix_exclusions(config), files).do_rename,
{
    assert(!in_copied_file(s.source_files, files)) by {
        if in_copied_file(s.source_files, files) {
            let i = choose|i: int| 0 <= i < s.source_files.len() && #[trigger] copied_at(files, s.source_files[i]);
            let j = choose|j: int| 0 <= j < files.len() && #[trigger] files[j].source_absolute_path == s.source_files[i] && files[j].do_copy;
        }
    }
}

} // verus!
