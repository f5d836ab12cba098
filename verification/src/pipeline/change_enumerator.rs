//! The replacement name of every symbol marked for renaming.

use vstd::prelude::*;
use crate::config::strauss_config::{StraussConfig, pairs_view};
use crate::matching::{CompiledRegex, compile_regex, regex_compiles, regex_finds, regex_is_match, regex_replace_first, regex_replaced_first};
use crate::strs::{concat, concat3, is_prefix, opt_seq, starts_with, to_owned, trim_end, trim_end_char};
use crate::types::symbol::{DiscoveredSymbol, SymbolType, SymbolView};
use crate::types::symbols_collection::{
    DiscoveredSymbols, keeps_identity, lemma_store_every_changed, lists_every_symbol, stored, symbol_views,
};

verus! {

/// The first configured pattern that compiles and matches the name gives the
/// replacement: the name with its first match replaced by the pattern's template.
pub open spec fn pattern_replacement(patterns: Seq<(Seq<char>, Seq<char>)>, name: Seq<char>) -> Option<Seq<char>>
    decreases patterns.len(),
{
    if patterns.len() == 0 {
        None
    } else if regex_compiles(patterns[0].0) && regex_finds(patterns[0].0, name) {
        Some(regex_replaced_first(patterns[0].0, name, patterns[0].1))
    } else {
        pattern_replacement(patterns.drop_first(), name)
    }
}

/// With a prefix, a symbol whose name does not start with it is replaced by the
/// prefixed name, and one whose name does is not renamed; without a prefix no
/// symbol is renamed.
pub open spec fn prefixed_or_kept(s: SymbolView, prefix: Option<Seq<char>>) -> SymbolView {
    match prefix {
        Some(p) => if !is_prefix(p, s.original_symbol) {
            SymbolView { replacement: Some(p + s.original_symbol), ..s }
        } else {
            SymbolView { do_rename: false, ..s }
        },
        None => SymbolView { do_rename: false, ..s },
    }
}

/// The prefixes the replacement names are built from.
pub struct Prefixes {
    pub namespace: Option<Seq<char>>,
    pub classmap: Option<Seq<char>>,
    pub functions: Option<Seq<char>>,
    pub constants: Option<Seq<char>>,
}

/// The prefixes a configuration sets.
pub open spec fn config_prefixes(config: StraussConfig) -> Prefixes {
    Prefixes {
        namespace: opt_seq(config.namespace_prefix),
        classmap: opt_seq(config.classmap_prefix),
        functions: opt_seq(config.functions_prefix),
        constants: opt_seq(config.constants_prefix),
    }
}

/// The replacement decided for one symbol. A symbol not marked for renaming is
/// left alone. A namespace takes the first matching replacement pattern, else the
/// namespace prefix (without trailing `\`), a `\` and its name, else it is not
/// renamed. A class, interface or trait outside the global namespace keeps its name
/// (the namespace is what changes); a global one (no namespace, `\` or empty)
/// takes the classmap prefix (see
/// [`prefixed_or_kept`]). Functions take the functions prefix, constants the
/// constants prefix, likewise.
pub open spec fn replacement_decided(s: SymbolView, patterns: Seq<(Seq<char>, Seq<char>)>, prefixes: Prefixes) -> SymbolView {
    if !s.do_rename {
        s
    } else {
        match s.symbol_type {
            SymbolType::Namespace => match pattern_replacement(patterns, s.original_symbol) {
                Some(r) => SymbolView { replacement: Some(r), ..s },
                None => match prefixes.namespace {
                    Some(p) => SymbolView { replacement: Some(trim_end(p, '\\') + seq!['\\'] + s.original_symbol), ..s },
                    None => SymbolView { do_rename: false, ..s },
                },
            },
            SymbolType::Class | SymbolType::Interface | SymbolType::Trait => if !s.in_global_namespace() {
                SymbolView { replacement: Some(s.original_symbol), ..s }
            } else {
                prefixed_or_kept(s, prefixes.classmap)
            },
            SymbolType::Function => prefixed_or_kept(s, prefixes.functions),
            SymbolType::Constant => prefixed_or_kept(s, prefixes.constants),
        }
    }
}

/// The patterns that compile, with their templates, in order.
fn compile_patterns(patterns: &Vec<(String, String)>) -> (r: Vec<(CompiledRegex, String)>)
    ensures
        forall|text: Seq<char>| #[trigger] compiled_replacement(r@, text) == pattern_replacement(pairs_view(patterns@), text),
{
    let mut out: Vec<(CompiledRegex, String)> = Vec::new();
    let mut i: usize = patterns.len();
    while i > 0
        invariant
            i <= patterns.len(),
            forall|text: Seq<char>| #[trigger] compiled_replacement(out@, text) == pattern_replacement(pairs_view(patterns@).skip(i as int), text),
        decreases i,
    {
        i -= 1;
        let ghost pre = out@;
        proof {
            assert(pairs_view(patterns@).skip(i as int).drop_first() == pairs_view(patterns@).skip(i + 1));
            assert(pairs_view(patterns@).skip(i as int)[0] == (patterns@[i as int].0@, patterns@[i as int].1@));
        }
        let compiled = compile_regex(patterns[i].0.as_str());
        let is_some = compiled.is_some();
        match compiled {
            Some(re) => {
                out.insert(0, (re, patterns[i].1.clone()));
                proof {
                    assert(out@.drop_first() =~= pre);
                }
            },
            None => {},
        }
        proof {
            let rest = pairs_view(patterns@).skip(i as int);
            assert forall|text: Seq<char>| #[trigger] compiled_replacement(out@, text) == pattern_replacement(rest, text) by {
                assert(rest.drop_first() == pairs_view(patterns@).skip(i + 1));
                assert(compiled_replacement(pre, text) == pattern_replacement(rest.drop_first(), text));
                if is_some {
                    assert(out@[0].0.pattern() == patterns@[i as int].0@);
                    assert(out@[0].1@ == patterns@[i as int].1@);
                }
            }
        }
    }
    assert(pairs_view(patterns@).skip(0) == pairs_view(patterns@));
    out
}

/// The first compiled pattern that matches the text gives the replacement.
pub open spec fn compiled_replacement(c: Seq<(CompiledRegex, String)>, text: Seq<char>) -> Option<Seq<char>>
    decreases c.len(),
{
    if c.len() == 0 {
        None
    } else if regex_finds(c[0].0.pattern(), text) {
        Some(regex_replaced_first(c[0].0.pattern(), text, c[0].1@))
    } else {
        compiled_replacement(c.drop_first(), text)
    }
}

/// The replacement of the first compiled pattern that matches.
fn first_pattern_replacement(c: &Vec<(CompiledRegex, String)>, text: &str) -> (r: Option<String>)
    ensures
        opt_seq(r) == compiled_replacement(c@, text@),
{
    let mut i: usize = 0;
    assert(c@.skip(0) == c@);
    while i < c.len()
        invariant
            i <= c.len(),
            compiled_replacement(c@, text@) == compiled_replacement(c@.skip(i as int), text@),
        decreases c.len() - i,
    {
        assert(c@.skip(i as int)[0] == c@[i as int]);
        assert(c@.skip(i as int).drop_first() == c@.skip(i + 1));
        if regex_is_match(&c[i].0, text) {
            return Some(regex_replace_first(&c[i].0, text, c[i].1.as_str()));
        }
        i += 1;
    }
    None
}

/// Gives a symbol the replacement name with the prefix, or stops renaming it
/// (see [`prefixed_or_kept`]).
fn apply_prefix(symbol: &mut DiscoveredSymbol, prefix: &Option<String>)
    ensures
        final(symbol)@ == prefixed_or_kept(old(symbol)@, opt_seq(*prefix)),
{
    match prefix {
        Some(p) => {
            if !starts_with(symbol.original_symbol.as_str(), p.as_str()) {
                symbol.replacement = Some(concat(p.as_str(), symbol.original_symbol.as_str()));
            } else {
                symbol.do_rename = false;
            }
        },
        None => {
            symbol.do_rename = false;
        },
    }
}

/// Decides one symbol's replacement (see [`replacement_decided`]).
fn decide_replacement(
    symbol: &mut DiscoveredSymbol,
    patterns: &Vec<(CompiledRegex, String)>,
    config: &StraussConfig,
)
    requires
        forall|text: Seq<char>| #[trigger] compiled_replacement(patterns@, text)
            == pattern_replacement(pairs_view(config.namespace_replacement_patterns@), text),
    ensures
        final(symbol)@ == replacement_decided(old(symbol)@, pairs_view(config.namespace_replacement_patterns@), config_prefixes(*config)),
{
    if !symbol.do_rename {
        return;
    }
    match symbol.symbol_type {
        SymbolType::Namespace => {
            let found = first_pattern_replacement(patterns, symbol.original_symbol.as_str());
            match found {
                Some(r) => {
                    symbol.replacement = Some(r);
                },
                None => match &config.namespace_prefix {
                    Some(p) => {
                        let trimmed = trim_end_char(p.as_str(), '\\');
                        let r = concat3(trimmed.as_str(), "\\", symbol.original_symbol.as_str());
                        proof {
                            reveal_strlit("\\");
                            assert(r@ =~= trim_end(p@, '\\') + seq!['\\'] + old(symbol)@.original_symbol);
                        }
                        symbol.replacement = Some(r);
                    },
                    None => {
                        symbol.do_rename = false;
                    },
                },
            }
        },
        SymbolType::Class | SymbolType::Interface | SymbolType::Trait => {
            if !symbol.is_global_namespace() {
                symbol.replacement = Some(symbol.original_symbol.clone());
            } else {
                apply_prefix(symbol, &config.classmap_prefix);
            }
        },
        SymbolType::Function => {
            apply_prefix(symbol, &config.functions_prefix);
        },
        SymbolType::Constant => {
            apply_prefix(symbol, &config.constants_prefix);
        },
    }
}

/// Decides the replacement name of every symbol marked for renaming (see
/// [`replacement_decided`]); every other part of the collection stays as it was.
pub fn determine_replacements(symbols: &mut DiscoveredSymbols, config: &StraussConfig)
    ensures
        forall|t: SymbolType| #[trigger] final(symbols).map_of(t) == old(symbols).map_of(t).map_values(
            |s: SymbolView| replacement_decided(s, pairs_view(config.namespace_replacement_patterns@), config_prefixes(*config)),
        ),
{
    let patterns = compile_patterns(&config.namespace_replacement_patterns);
    let all_symbols = symbols.all_symbols_mut();
    let ghost g = |s: SymbolView| replacement_decided(s, pairs_view(config.namespace_replacement_patterns@), config_prefixes(*config));
    let mut updated: Vec<DiscoveredSymbol> = Vec::new();
    let mut i: usize = 0;
    while i < all_symbols.len()
        invariant
            i <= all_symbols.len(),
            updated@.len() == i,
            g == (|s: SymbolView| replacement_decided(s, pairs_view(config.namespace_replacement_patterns@), config_prefixes(*config))),
            forall|text: Seq<char>| #[trigger] compiled_replacement(patterns@, text)
                == pattern_replacement(pairs_view(config.namespace_replacement_patterns@), text),
            forall|j: int| 0 <= j < i ==> #[trigger] symbol_views(updated@)[j] == g(symbol_views(all_symbols@)[j]),
        decreases all_symbols.len() - i,
    {
        let mut s = all_symbols[i].clone_symbol();
        decide_replacement(&mut s, &patterns, config);
        let ghost pre = updated@;
        updated.push(s);
        proof {
            assert(symbol_views(all_symbols@)[i as int] == all_symbols@[i as int]@);
            assert(symbol_views(updated@)[i as int] == g(symbol_views(all_symbols@)[i as int]));
            assert forall|j: int| 0 <= j < i implies #[trigger] symbol_views(updated@)[j] == symbol_views(pre)[j] by {}
        }
        i += 1;
    }
    proof {
        assert(keeps_identity(g));
    }
    let ghost before = *symbols;
    symbols.update_symbols(updated);
    proof {
        assert forall|t: SymbolType| #[trigger] symbols.map_of(t) == before.map_of(t).map_values(g) by {
            lemma_store_every_changed(before, symbol_views(all_symbols@), symbol_views(updated@), g, t);
        }
    }
}

/// Deciding a replacement never changes what a symbol is: its kind, name,
/// namespace, source files, package and hierarchy stay; only whether it is
/// renamed and its replacement may change.
pub proof fn law_decision_keeps_identity(s: SymbolView, patterns: Seq<(Seq<char>, Seq<char>)>, prefixes: Prefixes)
    ensures
        replacement_decided(s, patterns, prefixes) == (SymbolView {
            do_rename: replacement_decided(s, patterns, prefixes).do_rename,
            replacement: replacement_decided(s, patterns, prefixes).replacement,
            ..s
        }),
{
}

/// Deciding twice decides nothing more than deciding once.
pub proof fn law_decision_idempotent(s: SymbolView, patterns: Seq<(Seq<char>, Seq<char>)>, prefixes: Prefixes)
    ensures
        replacement_decided(replacement_decided(s, patterns, prefixes), patterns, prefixes)
            == replacement_decided(s, patterns, prefixes),
{
}

/// A symbol not marked for renaming keeps its own name.
pub proof fn law_unmarked_keeps_name(s: SymbolView, patterns: Seq<(Seq<char>, Seq<char>)>, prefixes: Prefixes)
    requires
        !s.do_rename,
    ensures
        replacement_decided(s, patterns, prefixes).effective_replacement() == s.original_symbol,
{
}

/// A namespace to rename that no replacement pattern matches becomes the
/// namespace prefix (without its trailing `\`), a `\` and its own name.
pub proof fn law_namespace_takes_prefix(s: SymbolView, patterns: Seq<(Seq<char>, Seq<char>)>, prefixes: Prefixes)
    requires
        s.do_rename,
        s.symbol_type == SymbolType::Namespace,
        pattern_replacement(patterns, s.original_symbol) is None,
        prefixes.namespace is Some,
    ensures
        replacement_decided(s, patterns, prefixes).effective_replacement()
            == trim_end(prefixes.namespace->0, '\\') + seq!['\\'] + s.original_symbol,
{
}

/// A global class to rename takes the classmap prefix in front of its name,
/// unless its name already starts with it; then it is not renamed.
pub proof fn law_global_class_takes_prefix(s: SymbolView, patterns: Seq<(Seq<char>, Seq<char>)>, prefixes: Prefixes)
    requires
        s.do_rename,
        s.symbol_type == SymbolType::Class,
        s.in_global_namespace(),
        prefixes.classmap is Some,
    ensures
        replacement_decided(s, patterns, prefixes).effective_replacement() == if is_prefix(prefixes.classmap->0, s.original_symbol) {
            s.original_symbol
        } else {
            prefixes.classmap->0 + s.original_symbol
        },
{
}

/// A constant to rename, when a constants prefix is configured that its name does
/// not start with, stays marked for renaming and is renamed to that prefix
/// followed by its name.
pub proof fn law_constant_takes_constants_prefix(s: SymbolView, patterns: Seq<(Seq<char>, Seq<char>)>, config: StraussConfig)
    requires
        s.do_rename,
        s.symbol_type == SymbolType::Constant,
        config.constants_prefix is Some,
        !is_prefix(config.constants_prefix->0@, s.original_symbol),
    ensures
        replacement_decided(s, patterns, config_prefixes(config)).do_rename,
        replacement_decided(s, patterns, config_prefixes(config)).replacement
            == Some(config.constants_prefix->0@ + s.original_symbol),
        replacement_decided(s, patterns, config_prefixes(config)).original_symbol == s.original_symbol,
{
}

/// A constant's replacement never depends on the functions prefix, nor a
/// function's on the constants prefix.
pub proof fn law_constants_and_functions_prefixes_apart(
    s: SymbolView,
    patterns: Seq<(Seq<char>, Seq<char>)>,
    prefixes: Prefixes,
    other: Option<Seq<char>>,
)
    ensures
        s.symbol_type == SymbolType::Constant ==> replacement_decided(s, patterns, prefixes)
            == replacement_decided(s, patterns, Prefixes { functions: other, ..prefixes }),
        s.symbol_type == SymbolType::Function ==> replacement_decided(s, patterns, prefixes)
            == replacement_decided(s, patterns, Prefixes { constants: other, ..prefixes }),
{
}

/// A function to rename, when a functions prefix is configured that its name
/// does not start with, stays marked for renaming and is renamed to that prefix
/// followed by its name.
pub proof fn law_function_takes_functions_prefix(s: SymbolView, patterns: Seq<(Seq<char>, Seq<char>)>, config: StraussConfig)
    requires
        s.do_rename,
        s.symbol_type == SymbolType::Function,
        config.functions_prefix is Some,
        !is_prefix(config.functions_prefix->0@, s.original_symbol),
    ensures
        replacement_decided(s, patterns, config_prefixes(config)).do_rename,
        replacement_decided(s, patterns, config_prefixes(config)).replacement
            == Some(config.functions_prefix->0@ + s.original_symbol),
{
}

/// A class, interface or trait outside the global namespace stays marked and
/// keeps its own name (its namespace is what changes), whatever the prefixes.
pub proof fn law_namespaced_class_likes_keep_name(s: SymbolView, patterns: Seq<(Seq<char>, Seq<char>)>, prefixes: Prefixes)
    requires
        s.do_rename,
        s.symbol_type == SymbolType::Class || s.symbol_type == SymbolType::Interface || s.symbol_type == SymbolType::Trait,
        s.namespace matches Some(ns) && ns.len() > 0 && ns != seq!['\\'],
    ensures
        replacement_decided(s, patterns, prefixes).do_rename,
        replacement_decided(s, patterns, prefixes).replacement == Some(s.original_symbol),
{
}

} // verus!
