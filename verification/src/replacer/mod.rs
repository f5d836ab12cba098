pub mod namespace_replacer;
pub mod class_replacer;
pub mod constant_replacer;
pub mod string_literal;
pub mod function_replacer;
pub mod regex_cache;

use vstd::prelude::*;
use crate::helpers::namespace_sort::{pair_views, pairs_sorted_by_len, sort_pairs_by_len};
use crate::sorting::is_permutation;
use crate::matching::{regex_compiles, regex_replace_all, regex_replaced_all};
use crate::replacer::class_replacer::{ClassReplacer, classname_outcome, word_pattern, word_regex};
use crate::replacer::constant_replacer::{ConstantReplacer, constants_outcome};
use crate::replacer::namespace_replacer::{NamespaceReplacer, namespace_replacement_outcome, sorted_namespaces_outcome};
use crate::strs::{opt_seq, seqs, str_eq, to_owned, vec_contains_str};
use crate::types::file_references::{FileReferences, could_reference_ns};
use crate::types::symbol::{DiscoveredSymbol, SymbolType, SymbolView};
use crate::types::symbols_collection::{DiscoveredSymbols, enumerates_all, enumerates_global, symbol_views};

verus! {

/// Why a replacement could not be made.
#[derive(Debug, Clone, Copy, PartialEq, Eq, Structural)]
pub enum ReplaceError {
    /// The multi-pattern searcher could not be built for the patterns.
    SearcherBuild,
    /// A pattern did not compile.
    InvalidPattern,
    /// No PHP parser could be made to read the source.
    Parse,
}

/// The view of a textual result.
pub open spec fn result_view(r: Result<String, ReplaceError>) -> Result<Seq<char>, ReplaceError> {
    match r {
        Ok(s) => Ok(s@),
        Err(e) => Err(e),
    }
}

// ---------------------------------------------------------------------------
// What a file's text becomes
// ---------------------------------------------------------------------------

/// Global classes prefixed one after the other (see [`classname_outcome`]); the
/// first error stops the chain.
pub open spec fn classes_outcome(text: Seq<char>, names: Seq<Seq<char>>, prefix: Seq<char>) -> Result<Seq<char>, ReplaceError>
    decreases names.len(),
{
    if names.len() == 0 {
        Ok(text)
    } else {
        match classes_outcome(text, names.drop_last(), prefix) {
            Ok(t) => classname_outcome(t, names.last(), prefix),
            Err(e) => Err(e),
        }
    }
}

/// Functions renamed one after the other: each whole-word occurrence of the
/// original name gets the replacement; a name whose pattern does not compile is
/// skipped.
pub open spec fn functions_replaced(text: Seq<char>, functions: Seq<(Seq<char>, Seq<char>)>) -> Seq<char>
    decreases functions.len(),
{
    if functions.len() == 0 {
        text
    } else {
        let t = functions_replaced(text, functions.drop_last());
        let (original, replacement) = functions.last();
        if regex_compiles(word_pattern(original)) {
            regex_replaced_all(word_pattern(original), t, replacement)
        } else {
            t
        }
    }
}

/// What follows the namespaces: the constants, when a constants prefix is set and
/// there are constants, then the functions.
pub open spec fn after_namespaces(
    text: Seq<char>,
    constants_prefix: Option<Seq<char>>,
    constants: Seq<Seq<char>>,
    functions: Seq<(Seq<char>, Seq<char>)>,
) -> Result<Seq<char>, ReplaceError> {
    let c = match constants_prefix {
        Some(p) => if constants.len() > 0 { constants_outcome(text, constants, p) } else { Ok(text) },
        None => Ok(text),
    };
    match c {
        Ok(t) => Ok(functions_replaced(t, functions)),
        Err(e) => Err(e),
    }
}

/// The replacements that follow the global classes, with the namespace changes
/// already sorted longest first: namespaces (when there are any), then constants
/// (when a constants prefix is set), then functions; the first error stops.
pub open spec fn replacements_after_classes(
    constants_prefix: Option<Seq<char>>,
    text: Seq<char>,
    sorted_namespace_changes: Seq<(Seq<char>, Seq<char>)>,
    constants: Seq<Seq<char>>,
    functions: Seq<(Seq<char>, Seq<char>)>,
) -> Result<Seq<char>, ReplaceError> {
    let t2 = if sorted_namespace_changes.len() == 0 {
        Ok(text)
    } else {
        sorted_namespaces_outcome(sorted_namespace_changes, text)
    };
    match t2 {
        Err(e) => Err(e),
        Ok(t) => after_namespaces(t, constants_prefix, constants, functions),
    }
}

/// The outcome of all replacements on a text: global classes (when a classmap
/// prefix is set), then, with the namespace changes sorted longest first, the rest
/// (see [`replacements_after_classes`]); the first error stops.
pub open spec fn replacement_outcome(
    classmap_prefix: Option<Seq<char>>,
    constants_prefix: Option<Seq<char>>,
    contents: Seq<char>,
    namespace_changes: Seq<(Seq<char>, Seq<char>)>,
    classes: Seq<Seq<char>>,
    constants: Seq<Seq<char>>,
    functions: Seq<(Seq<char>, Seq<char>)>,
    r: Result<Seq<char>, ReplaceError>,
) -> bool {
    let c = match classmap_prefix {
        Some(p) => classes_outcome(contents, classes, p),
        None => Ok(contents),
    };
    match c {
        Err(e) => r == Err::<Seq<char>, ReplaceError>(e),
        Ok(t1) => exists|s: Seq<(Seq<char>, Seq<char>)>| #[trigger] pairs_sorted_by_len(namespace_changes, s, true)
            && r == replacements_after_classes(constants_prefix, t1, s, constants, functions),
    }
}

/// The original names of a list of symbols.
pub open spec fn original_names(v: Seq<DiscoveredSymbol>) -> Seq<Seq<char>> {
    v.map_values(|s: DiscoveredSymbol| s.original_symbol@)
}

// ---------------------------------------------------------------------------
// What is replaced
// ---------------------------------------------------------------------------

/// The replacement data, computed once and shared by all files.
pub struct ReplacementData {
    /// Namespace (original, replacement) pairs, shortest original first.
    pub namespace_changes: Vec<(String, String)>,
    /// The global classes to prefix.
    pub global_classes: Vec<DiscoveredSymbol>,
    /// The constants to prefix.
    pub constants: Vec<String>,
    /// Function (original, replacement) pairs.
    pub functions: Vec<(String, String)>,
}

/// The replacement data narrowed to what one file refers to.
pub struct FilteredReplacementData {
    pub namespace_changes: Vec<(String, String)>,
    pub global_classes: Vec<DiscoveredSymbol>,
    pub constants: Vec<String>,
    pub functions: Vec<(String, String)>,
}

/// A namespace marked for renaming and not excluded.
pub open spec fn changes_namespace(s: SymbolView, excluded: Seq<Seq<char>>) -> bool {
    s.do_rename && !excluded.contains(s.original_symbol)
}

/// A function marked for renaming whose name changes.
pub open spec fn changes_function(s: SymbolView) -> bool {
    s.do_rename && s.effective_replacement() != s.original_symbol
}

/// A symbol as its (original, replacement) pair.
pub open spec fn change_pair(s: SymbolView) -> (Seq<char>, Seq<char>) {
    (s.original_symbol, s.effective_replacement())
}

/// A symbol marked for renaming.
pub open spec fn marked(s: SymbolView) -> bool {
    s.do_rename
}

/// The replacement data prepared from the collected symbols.
pub open spec fn prepared_from(
    d: ReplacementData,
    symbols: DiscoveredSymbols,
    excluded: Seq<Seq<char>>,
    classmap_prefix: Option<Seq<char>>,
    constants_prefix: Option<Seq<char>>,
) -> bool {
    &&& exists|ns: Seq<SymbolView>| #[trigger] enumerates_all(ns, symbols.map_of(SymbolType::Namespace))
            && pairs_sorted_by_len(
                ns.filter(|s: SymbolView| changes_namespace(s, excluded)).map_values(|s: SymbolView| change_pair(s)),
                pair_views(d.namespace_changes@),
                false,
            )
    &&& if classmap_prefix is Some {
            exists|g: Seq<SymbolView>| #[trigger] enumerates_global(g, symbols.map_of(SymbolType::Class))
                && symbol_views(d.global_classes@) == g.filter(|s: SymbolView| marked(s))
        } else {
            d.global_classes@.len() == 0
        }
    &&& if constants_prefix is Some {
            exists|c: Seq<SymbolView>| #[trigger] enumerates_all(c, symbols.map_of(SymbolType::Constant))
                && seqs(d.constants@) == c.filter(|s: SymbolView| marked(s)).map_values(|s: SymbolView| s.original_symbol)
        } else {
            d.constants@.len() == 0
        }
    &&& exists|f: Seq<SymbolView>| #[trigger] enumerates_all(f, symbols.map_of(SymbolType::Function))
            && pair_views(d.functions@) == f.filter(|s: SymbolView| changes_function(s)).map_values(|s: SymbolView| change_pair(s))
}

/// Whether a file that has these references may mention the namespace change.
pub open spec fn ns_referenced(refs: FileReferences, e: (Seq<char>, Seq<char>)) -> bool {
    could_reference_ns(refs@, e.0)
}

/// Whether a file that has these references may mention the name.
pub open spec fn name_referenced(refs: FileReferences, name: Seq<char>) -> bool {
    refs@.identifiers.contains(name)
}

/// The view of a class symbol narrowed by references.
pub open spec fn class_referenced(refs: FileReferences, s: SymbolView) -> bool {
    refs@.identifiers.contains(s.original_symbol)
}

/// Whether a file may mention the original name of a pair.
pub open spec fn pair_referenced(refs: FileReferences, e: (Seq<char>, Seq<char>)) -> bool {
    refs@.identifiers.contains(e.0)
}

/// The replacement engine: all kinds of replacement, configured once.
pub struct Replacer {
    namespace_replacer: NamespaceReplacer,
    class_replacer: ClassReplacer,
    constant_replacer: ConstantReplacer,
    namespace_prefix: Option<String>,
    classmap_prefix: Option<String>,
    constants_prefix: Option<String>,
    exclude_namespaces: Vec<String>,
    data: Option<ReplacementData>,
}

impl Replacer {
    /// The namespace prefix.
    pub closed spec fn namespace_prefix_view(&self) -> Option<Seq<char>> {
        opt_seq(self.namespace_prefix)
    }

    /// The classmap prefix.
    pub closed spec fn classmap_prefix_view(&self) -> Option<Seq<char>> {
        opt_seq(self.classmap_prefix)
    }

    /// The constants prefix.
    pub closed spec fn constants_prefix_view(&self) -> Option<Seq<char>> {
        opt_seq(self.constants_prefix)
    }

    /// The namespaces left alone.
    pub closed spec fn excluded_namespaces(&self) -> Seq<Seq<char>> {
        seqs(self.exclude_namespaces@)
    }

    /// The prepared replacement data, once [`Replacer::prepare`] has run.
    pub closed spec fn prepared(&self) -> Option<ReplacementData> {
        self.data
    }

    /// A replacer with the given prefixes and excluded namespaces, not yet prepared.
    pub fn new(
        namespace_prefix: Option<String>,
        classmap_prefix: Option<String>,
        constants_prefix: Option<String>,
        exclude_namespaces: Vec<String>,
    ) -> (r: Self)
        ensures
            r.namespace_prefix_view() == opt_seq(namespace_prefix),
            r.classmap_prefix_view() == opt_seq(classmap_prefix),
            r.constants_prefix_view() == opt_seq(constants_prefix),
            r.excluded_namespaces() == seqs(exclude_namespaces@),
            r.prepared() is None,
    {
        Replacer {
            namespace_replacer: NamespaceReplacer::new(),
            class_replacer: ClassReplacer::new(),
            constant_replacer: ConstantReplacer::new(),
            namespace_prefix,
            classmap_prefix,
            constants_prefix,
            exclude_namespaces,
            data: None,
        }
    }

    /// Computes the replacement data from the collected symbols, once for all
    /// files: the renamed, non-excluded namespaces (shortest first), the renamed
    /// global classes (with a classmap prefix), the renamed constants (with a
    /// constants prefix), and the renamed functions whose name changes.
    pub fn prepare(&mut self, symbols: &DiscoveredSymbols)
        ensures
            final(self).namespace_prefix_view() == old(self).namespace_prefix_view(),
            final(self).classmap_prefix_view() == old(self).classmap_prefix_view(),
            final(self).constants_prefix_view() == old(self).constants_prefix_view(),
            final(self).excluded_namespaces() == old(self).excluded_namespaces(),
            final(self).prepared() matches Some(d) && prepared_from(d, *symbols, old(self).excluded_namespaces(),
                old(self).classmap_prefix_view(), old(self).constants_prefix_view()),
    {
        let namespace_changes = namespace_change_pairs(symbols, &self.exclude_namespaces);
        let ns = sort_pairs_by_len(namespace_changes.as_slice(), false);
        let global_classes = if self.classmap_prefix.is_some() {
            renamed_global_classes(symbols)
        } else {
            Vec::new()
        };
        let constants = if self.constants_prefix.is_some() {
            renamed_constants(symbols)
        } else {
            Vec::new()
        };
        let functions = function_change_pairs(symbols);
        let d = ReplacementData { namespace_changes: ns, global_classes, constants, functions };
        self.data = Some(d);
    }

    /// The replacement data narrowed to what a file refers to: namespaces the file
    /// may mention, and classes, constants and functions whose names it uses.
    pub fn filtered_for_file(&self, file_refs: &FileReferences) -> (r: FilteredReplacementData)
        requires
            self.prepared() is Some,
        ensures
            pair_views(r.namespace_changes@) == pair_views(self.prepared()->0.namespace_changes@).filter(
                |e: (Seq<char>, Seq<char>)| ns_referenced(*file_refs, e),
            ),
            symbol_views(r.global_classes@) == symbol_views(self.prepared()->0.global_classes@).filter(
                |s: SymbolView| class_referenced(*file_refs, s),
            ),
            seqs(r.constants@) == seqs(self.prepared()->0.constants@).filter(|c: Seq<char>| name_referenced(*file_refs, c)),
            pair_views(r.functions@) == pair_views(self.prepared()->0.functions@).filter(
                |e: (Seq<char>, Seq<char>)| pair_referenced(*file_refs, e),
            ),
    {
        let data = match &self.data {
            Some(d) => d,
            None => {
                assert(false);
                return FilteredReplacementData {
                    namespace_changes: Vec::new(),
                    global_classes: Vec::new(),
                    constants: Vec::new(),
                    functions: Vec::new(),
                };
            },
        };
        FilteredReplacementData {
            namespace_changes: filter_namespace_pairs(&data.namespace_changes, file_refs),
            global_classes: filter_classes(&data.global_classes, file_refs),
            constants: filter_names(&data.constants, file_refs),
            functions: filter_function_pairs(&data.functions, file_refs),
        }
    }

    /// Applies all replacements of the prepared data to a text (see
    /// [`replacement_outcome`]).
    pub fn replace_in_string(&self, contents: &str, symbols: &DiscoveredSymbols) -> (r: Result<String, ReplaceError>)
        requires
            self.prepared() is Some,
        ensures
            replacement_outcome(
                self.classmap_prefix_view(),
                self.constants_prefix_view(),
                contents@,
                pair_views(self.prepared()->0.namespace_changes@),
                original_names(self.prepared()->0.global_classes@),
                seqs(self.prepared()->0.constants@),
                pair_views(self.prepared()->0.functions@),
                result_view(r),
            ),
    {
        match &self.data {
            Some(d) => self.apply_replacements(contents, &d.namespace_changes, &d.global_classes, &d.constants, &d.functions),
            None => {
                assert(false);
                Err(ReplaceError::Parse)
            },
        }
    }

    /// Applies the replacements of data narrowed to one file (see
    /// [`replacement_outcome`]).
    pub fn replace_in_string_filtered(&self, contents: &str, filtered: &FilteredReplacementData) -> (r: Result<String, ReplaceError>)
        ensures
            replacement_outcome(
                self.classmap_prefix_view(),
                self.constants_prefix_view(),
                contents@,
                pair_views(filtered.namespace_changes@),
                original_names(filtered.global_classes@),
                seqs(filtered.constants@),
                pair_views(filtered.functions@),
                result_view(r),
            ),
    {
        self.apply_replacements(
            contents,
            &filtered.namespace_changes,
            &filtered.global_classes,
            &filtered.constants,
            &filtered.functions,
        )
    }

    /// Global classes, then namespaces, then constants, then functions.
    fn apply_replacements(
        &self,
        contents: &str,
        namespace_changes: &Vec<(String, String)>,
        global_classes: &Vec<DiscoveredSymbol>,
        constants: &Vec<String>,
        functions: &Vec<(String, String)>,
    ) -> (r: Result<String, ReplaceError>)
        ensures
            replacement_outcome(
                self.classmap_prefix_view(),
                self.constants_prefix_view(),
                contents@,
                pair_views(namespace_changes@),
                original_names(global_classes@),
                seqs(constants@),
                pair_views(functions@),
                result_view(r),
            ),
    {
        let mut result = to_owned(contents);
        if let Some(prefix) = &self.classmap_prefix {
            let mut i: usize = 0;
            while i < global_classes.len()
                invariant
                    i <= global_classes.len(),
                    self.classmap_prefix_view() == Some(prefix@),
                    classes_outcome(contents@, original_names(global_classes@).take(i as int), prefix@) == Ok::<Seq<char>, ReplaceError>(result@),
                decreases global_classes.len() - i,
            {
                proof {
                    assert(original_names(global_classes@).take(i + 1).drop_last() == original_names(global_classes@).take(i as int));
                    assert(original_names(global_classes@).take(i + 1).last() == global_classes@[i as int].original_symbol@);
                }
                let next = self.class_replacer.replace_classname(result.as_str(), global_classes[i].original_symbol.as_str(), prefix.as_str());
                match next {
                    Ok(t) => {
                        result = t;
                    },
                    Err(e) => {
                        proof {
                            lemma_classes_error_stays(contents@, original_names(global_classes@), prefix@, i + 1, e);
                            assert(self.classmap_prefix_view() == Some(prefix@));

                        }
                        return Err(e);
                    },
                }
                i += 1;
            }
            assert(original_names(global_classes@).take(i as int) == original_names(global_classes@));
        }
        let ghost t1 = result@;
        let ghost c1 = match self.classmap_prefix_view() {
            Some(p) => classes_outcome(contents@, original_names(global_classes@), p),
            None => Ok(contents@),
        };
        assert(c1 == Ok::<Seq<char>, ReplaceError>(t1));
        let ghost ns = pair_views(namespace_changes@);
        let ghost mut sorted: Seq<(Seq<char>, Seq<char>)> = Seq::empty();
        if namespace_changes.len() > 0 {
            let step = self.namespace_replacer.replace_all_namespaces(result.as_str(), namespace_changes.as_slice());
            proof {
                sorted = choose|s: Seq<(Seq<char>, Seq<char>)>| #[trigger] pairs_sorted_by_len(ns, s, true)
                    && result_view(step) == sorted_namespaces_outcome(s, t1);
                assert(pairs_sorted_by_len(ns, sorted, true));
                assert(sorted.len() == ns.len()) by {
                    let p = choose|p: Seq<usize>| #![trigger is_permutation(p, ns.len())]
                        crate::helpers::namespace_sort::pairs_permuted(ns, sorted, p)
                        && crate::sorting::stably_sorted_by(ns.map_values(|e: (Seq<char>, Seq<char>)| crate::helpers::namespace_sort::utf8_len(e.0)), p, true);
                }
                assert(result_view(step) == sorted_namespaces_outcome(sorted, t1));
            }
            match step {
                Ok(t) => {
                    result = t;
                },
                Err(e) => {
                    proof {
                        assert(Err::<Seq<char>, ReplaceError>(e) == replacements_after_classes(
                            self.constants_prefix_view(), t1, sorted, seqs(constants@), pair_views(functions@)));
                    }
                    return Err(e);
                },
            }
        } else {
            proof {
                assert(is_permutation(Seq::<usize>::empty(), 0));
                assert(crate::helpers::namespace_sort::pairs_permuted(ns, sorted, Seq::<usize>::empty()));
                assert(pairs_sorted_by_len(ns, sorted, true));
            }
        }
        assert(pairs_sorted_by_len(ns, sorted, true));
        let ghost t2 = result@;
        let ghost n2 = if sorted.len() == 0 { Ok(t1) } else { sorted_namespaces_outcome(sorted, t1) };
        assert(n2 == Ok::<Seq<char>, ReplaceError>(t2));
        if let Some(prefix) = &self.constants_prefix {
            if constants.len() > 0 {
                match self.constant_replacer.replace_constants(result.as_str(), constants.as_slice(), prefix.as_str()) {
                    Ok(t) => {
                        result = t;
                    },
                    Err(e) => {
                        proof {
                            assert(after_namespaces(t2, self.constants_prefix_view(), seqs(constants@), pair_views(functions@))
                                == Err::<Seq<char>, ReplaceError>(e));
                            assert(Err::<Seq<char>, ReplaceError>(e) == replacements_after_classes(
                                self.constants_prefix_view(), t1, sorted, seqs(constants@), pair_views(functions@)));
                        }
                        return Err(e);
                    },
                }
            }
        }
        let ghost t3 = result@;
        assert(match self.constants_prefix_view() {
            Some(p) => if seqs(constants@).len() > 0 { constants_outcome(t2, seqs(constants@), p) } else { Ok(t2) },
            None => Ok(t2),
        } == Ok::<Seq<char>, ReplaceError>(t3));
        let mut k: usize = 0;
        while k < functions.len()
            invariant
                k <= functions.len(),
                result@ == functions_replaced(t3, pair_views(functions@).take(k as int)),
            decreases functions.len() - k,
        {
            proof {
                assert(pair_views(functions@).take(k + 1).drop_last() == pair_views(functions@).take(k as int));
                assert(pair_views(functions@).take(k + 1).last() == (functions@[k as int].0@, functions@[k as int].1@));
            }
            if let Some(re) = word_regex(functions[k].0.as_str()) {
                result = regex_replace_all(&re, result.as_str(), functions[k].1.as_str());
            }
            k += 1;
        }
        assert(pair_views(functions@).take(k as int) == pair_views(functions@));
        assert(Ok::<Seq<char>, ReplaceError>(result@) == replacements_after_classes(
            self.constants_prefix_view(), t1, sorted, seqs(constants@), pair_views(functions@)));
        Ok(result)
    }
}

/// Once a class replacement fails, the rest of the chain fails with the same error.
proof fn lemma_classes_error_stays(text: Seq<char>, names: Seq<Seq<char>>, prefix: Seq<char>, n: int, e: ReplaceError)
    requires
        0 < n <= names.len(),
        classes_outcome(text, names.take(n), prefix) == Err::<Seq<char>, ReplaceError>(e),
    ensures
        classes_outcome(text, names, prefix) == Err::<Seq<char>, ReplaceError>(e),
    decreases names.len() - n,
{
    if n < names.len() {
        assert(names.take(n + 1).drop_last() == names.take(n));
        lemma_classes_error_stays(text, names, prefix, n + 1, e);
    } else {
        assert(names.take(n) == names);
    }
}

/// The (original, replacement) pairs of the namespaces marked for renaming and not excluded.
fn namespace_change_pairs(symbols: &DiscoveredSymbols, exclude: &Vec<String>) -> (r: Vec<(String, String)>)
    ensures
        exists|ns: Seq<SymbolView>| #[trigger] enumerates_all(ns, symbols.map_of(SymbolType::Namespace))
            && pair_views(r@) == ns.filter(|s: SymbolView| changes_namespace(s, seqs(exclude@))).map_values(|s: SymbolView| change_pair(s)),
{
    let v = symbols.get_namespaces();
    let ghost views = symbol_views(v@);
    let mut out: Vec<(String, String)> = Vec::new();
    let mut i: usize = 0;
    proof {
        reveal(Seq::filter);
        assert(views.take(0).filter(|s: SymbolView| changes_namespace(s, seqs(exclude@))) =~= Seq::<SymbolView>::empty());
    }
    while i < v.len()
        invariant
            views == symbol_views(v@),
            i <= v.len(),
            pair_views(out@) == views.take(i as int).filter(|s: SymbolView| changes_namespace(s, seqs(exclude@))).map_values(|s: SymbolView| change_pair(s)),
        decreases v.len() - i,
    {
        proof {
            reveal(Seq::filter);
            assert(views.take(i + 1).drop_last() == views.take(i as int));
            assert(views.take(i + 1).last() == v@[i as int]@);
        }
        let s = &v[i];
        if s.do_rename && !vec_contains_str(exclude, s.original_symbol.as_str()) {
            let ghost pre = out@;
            out.push((s.original_symbol.clone(), to_owned(s.get_replacement())));
            proof {
                assert(pair_views(out@) == pair_views(pre).push(change_pair(s@)));
                let f = views.take(i as int).filter(|x: SymbolView| changes_namespace(x, seqs(exclude@)));
                assert(views.take(i + 1).filter(|x: SymbolView| changes_namespace(x, seqs(exclude@))) == f.push(s@));
                assert(f.push(s@).map_values(|x: SymbolView| change_pair(x)) =~= f.map_values(|x: SymbolView| change_pair(x)).push(change_pair(s@)));
            }
        }
        i += 1;
    }
    assert(views.take(v.len() as int) == views);
    assert(enumerates_all(views, symbols.map_of(SymbolType::Namespace)));
    out
}

/// The global classes marked for renaming.
fn renamed_global_classes(symbols: &DiscoveredSymbols) -> (r: Vec<DiscoveredSymbol>)
    ensures
        exists|g: Seq<SymbolView>| #[trigger] enumerates_global(g, symbols.map_of(SymbolType::Class))
            && symbol_views(r@) == g.filter(|s: SymbolView| marked(s)),
{
    let v = symbols.get_global_classes();
    let ghost views = symbol_views(v@);
    let mut out: Vec<DiscoveredSymbol> = Vec::new();
    let mut i: usize = 0;
    proof {
        reveal(Seq::filter);
        assert(views.take(0).filter(|s: SymbolView| marked(s)) =~= Seq::<SymbolView>::empty());
    }
    while i < v.len()
        invariant
            views == symbol_views(v@),
            i <= v.len(),
            symbol_views(out@) == views.take(i as int).filter(|s: SymbolView| marked(s)),
        decreases v.len() - i,
    {
        proof {
            reveal(Seq::filter);
            assert(views.take(i + 1).drop_last() == views.take(i as int));
            assert(views.take(i + 1).last() == v@[i as int]@);
        }
        if v[i].do_rename {
            let ghost pre = out@;
            out.push(v[i].clone_symbol());
            assert(symbol_views(out@) == symbol_views(pre).push(v@[i as int]@));
        }
        i += 1;
    }
    assert(views.take(v.len() as int) == views);
    assert(enumerates_global(views, symbols.map_of(SymbolType::Class)));
    out
}

/// The names of the constants marked for renaming.
fn renamed_constants(symbols: &DiscoveredSymbols) -> (r: Vec<String>)
    ensures
        exists|c: Seq<SymbolView>| #[trigger] enumerates_all(c, symbols.map_of(SymbolType::Constant))
            && seqs(r@) == c.filter(|s: SymbolView| marked(s)).map_values(|s: SymbolView| s.original_symbol),
{
    let v = symbols.get_constants();
    let ghost views = symbol_views(v@);
    let mut out: Vec<String> = Vec::new();
    let mut i: usize = 0;
    proof {
        reveal(Seq::filter);
        assert(views.take(0).filter(|s: SymbolView| marked(s)) =~= Seq::<SymbolView>::empty());
    }
    while i < v.len()
        invariant
            views == symbol_views(v@),
            i <= v.len(),
            seqs(out@) == views.take(i as int).filter(|s: SymbolView| marked(s)).map_values(|s: SymbolView| s.original_symbol),
        decreases v.len() - i,
    {
        proof {
            reveal(Seq::filter);
            assert(views.take(i + 1).drop_last() == views.take(i as int));
            assert(views.take(i + 1).last() == v@[i as int]@);
        }
        if v[i].do_rename {
            let ghost pre = out@;
            out.push(v[i].original_symbol.clone());
            proof {
                assert(seqs(out@) == seqs(pre).push(v@[i as int].original_symbol@));
                let f = views.take(i as int).filter(|x: SymbolView| marked(x));
                assert(views.take(i + 1).filter(|x: SymbolView| marked(x)) == f.push(v@[i as int]@));
                assert(f.push(v@[i as int]@).map_values(|x: SymbolView| x.original_symbol)
                    =~= f.map_values(|x: SymbolView| x.original_symbol).push(v@[i as int].original_symbol@));
            }
        }
        i += 1;
    }
    assert(views.take(v.len() as int) == views);
    assert(enumerates_all(views, symbols.map_of(SymbolType::Constant)));
    out
}

/// The (original, replacement) pairs of the functions marked for renaming whose name changes.
fn function_change_pairs(symbols: &DiscoveredSymbols) -> (r: Vec<(String, String)>)
    ensures
        exists|f: Seq<SymbolView>| #[trigger] enumerates_all(f, symbols.map_of(SymbolType::Function))
            && pair_views(r@) == f.filter(|s: SymbolView| changes_function(s)).map_values(|s: SymbolView| change_pair(s)),
{
    let v = symbols.get_functions();
    let ghost views = symbol_views(v@);
    let mut out: Vec<(String, String)> = Vec::new();
    let mut i: usize = 0;
    proof {
        reveal(Seq::filter);
        assert(views.take(0).filter(|s: SymbolView| changes_function(s)) =~= Seq::<SymbolView>::empty());
    }
    while i < v.len()
        invariant
            views == symbol_views(v@),
            i <= v.len(),
            pair_views(out@) == views.take(i as int).filter(|s: SymbolView| changes_function(s)).map_values(|s: SymbolView| change_pair(s)),
        decreases v.len() - i,
    {
        proof {
            reveal(Seq::filter);
            assert(views.take(i + 1).drop_last() == views.take(i as int));
            assert(views.take(i + 1).last() == v@[i as int]@);
        }
        let s = &v[i];
        if s.do_rename && !str_eq(s.original_symbol.as_str(), s.get_replacement()) {
            let ghost pre = out@;
            out.push((s.original_symbol.clone(), to_owned(s.get_replacement())));
            proof {
                assert(pair_views(out@) == pair_views(pre).push(change_pair(s@)));
                let f = views.take(i as int).filter(|x: SymbolView| changes_function(x));
                assert(views.take(i + 1).filter(|x: SymbolView| changes_function(x)) == f.push(s@));
                assert(f.push(s@).map_values(|x: SymbolView| change_pair(x)) =~= f.map_values(|x: SymbolView| change_pair(x)).push(change_pair(s@)));
            }
        }
        i += 1;
    }
    assert(views.take(v.len() as int) == views);
    assert(enumerates_all(views, symbols.map_of(SymbolType::Function)));
    out
}

/// The namespace pairs a file may mention.
fn filter_namespace_pairs(v: &Vec<(String, String)>, refs: &FileReferences) -> (r: Vec<(String, String)>)
    ensures
        pair_views(r@) == pair_views(v@).filter(|e: (Seq<char>, Seq<char>)| ns_referenced(*refs, e)),
{
    let ghost views = pair_views(v@);
    let mut out: Vec<(String, String)> = Vec::new();
    let mut i: usize = 0;
    proof {
        reveal(Seq::filter);
        assert(views.take(0).filter(|e: (Seq<char>, Seq<char>)| ns_referenced(*refs, e)) =~= Seq::<(Seq<char>, Seq<char>)>::empty());
    }
    while i < v.len()
        invariant
            views == pair_views(v@),
            i <= v.len(),
            pair_views(out@) == views.take(i as int).filter(|e: (Seq<char>, Seq<char>)| ns_referenced(*refs, e)),
        decreases v.len() - i,
    {
        proof {
            reveal(Seq::filter);
            assert(views.take(i + 1).drop_last() == views.take(i as int));
            assert(views.take(i + 1).last() == (v@[i as int].0@, v@[i as int].1@));
        }
        if refs.could_reference_namespace(v[i].0.as_str()) {
            let ghost pre = out@;
            out.push((v[i].0.clone(), v[i].1.clone()));
            assert(pair_views(out@) == pair_views(pre).push((v@[i as int].0@, v@[i as int].1@)));
        }
        i += 1;
    }
    assert(views.take(v.len() as int) == views);
    out
}

/// The pairs whose original name a file uses.
fn filter_function_pairs(v: &Vec<(String, String)>, refs: &FileReferences) -> (r: Vec<(String, String)>)
    ensures
        pair_views(r@) == pair_views(v@).filter(|e: (Seq<char>, Seq<char>)| pair_referenced(*refs, e)),
{
    let ghost views = pair_views(v@);
    let mut out: Vec<(String, String)> = Vec::new();
    let mut i: usize = 0;
    proof {
        reveal(Seq::filter);
        assert(views.take(0).filter(|e: (Seq<char>, Seq<char>)| pair_referenced(*refs, e)) =~= Seq::<(Seq<char>, Seq<char>)>::empty());
    }
    while i < v.len()
        invariant
            views == pair_views(v@),
            i <= v.len(),
            pair_views(out@) == views.take(i as int).filter(|e: (Seq<char>, Seq<char>)| pair_referenced(*refs, e)),
        decreases v.len() - i,
    {
        proof {
            reveal(Seq::filter);
            assert(views.take(i + 1).drop_last() == views.take(i as int));
            assert(views.take(i + 1).last() == (v@[i as int].0@, v@[i as int].1@));
        }
        if refs.could_reference_identifier(v[i].0.as_str()) {
            let ghost pre = out@;
            out.push((v[i].0.clone(), v[i].1.clone()));
            assert(pair_views(out@) == pair_views(pre).push((v@[i as int].0@, v@[i as int].1@)));
        }
        i += 1;
    }
    assert(views.take(v.len() as int) == views);
    out
}

/// The classes whose name a file uses.
fn filter_classes(v: &Vec<DiscoveredSymbol>, refs: &FileReferences) -> (r: Vec<DiscoveredSymbol>)
    ensures
        symbol_views(r@) == symbol_views(v@).filter(|s: SymbolView| class_referenced(*refs, s)),
{
    let ghost views = symbol_views(v@);
    let mut out: Vec<DiscoveredSymbol> = Vec::new();
    let mut i: usize = 0;
    proof {
        reveal(Seq::filter);
        assert(views.take(0).filter(|s: SymbolView| class_referenced(*refs, s)) =~= Seq::<SymbolView>::empty());
    }
    while i < v.len()
        invariant
            views == symbol_views(v@),
            i <= v.len(),
            symbol_views(out@) == views.take(i as int).filter(|s: SymbolView| class_referenced(*refs, s)),
        decreases v.len() - i,
    {
        proof {
            reveal(Seq::filter);
            assert(views.take(i + 1).drop_last() == views.take(i as int));
            assert(views.take(i + 1).last() == v@[i as int]@);
        }
        if refs.could_reference_identifier(v[i].original_symbol.as_str()) {
            let ghost pre = out@;
            out.push(v[i].clone_symbol());
            assert(symbol_views(out@) == symbol_views(pre).push(v@[i as int]@));
        }
        i += 1;
    }
    assert(views.take(v.len() as int) == views);
    out
}

/// The names a file uses.
fn filter_names(v: &Vec<String>, refs: &FileReferences) -> (r: Vec<String>)
    ensures
        seqs(r@) == seqs(v@).filter(|c: Seq<char>| name_referenced(*refs, c)),
{
    let ghost views = seqs(v@);
    let mut out: Vec<String> = Vec::new();
    let mut i: usize = 0;
    proof {
        reveal(Seq::filter);
        assert(views.take(0).filter(|c: Seq<char>| name_referenced(*refs, c)) =~= Seq::<Seq<char>>::empty());
    }
    while i < v.len()
        invariant
            views == seqs(v@),
            i <= v.len(),
            seqs(out@) == views.take(i as int).filter(|c: Seq<char>| name_referenced(*refs, c)),
        decreases v.len() - i,
    {
        proof {
            reveal(Seq::filter);
            assert(views.take(i + 1).drop_last() == views.take(i as int));
            assert(views.take(i + 1).last() == v@[i as int]@);
        }
        if refs.could_reference_identifier(v[i].as_str()) {
            let ghost pre = out@;
            out.push(v[i].clone());
            assert(seqs(out@) == seqs(pre).push(v@[i as int]@));
        }
        i += 1;
    }
    assert(views.take(v.len() as int) == views);
    out
}

/// With nothing to replace, a text comes back as it was, whatever the prefixes.
pub proof fn law_nothing_to_replace(classmap_prefix: Option<Seq<char>>, constants_prefix: Option<Seq<char>>, text: Seq<char>)
    ensures
        replacement_outcome(classmap_prefix, constants_prefix, text, Seq::empty(), Seq::empty(), Seq::empty(),
            Seq::empty(), Ok(text)),
{
    let none: Seq<(Seq<char>, Seq<char>)> = Seq::empty();
    let p: Seq<usize> = Seq::empty();
    assert(is_permutation(p, none.len()));
    assert(crate::helpers::namespace_sort::pairs_permuted(none, none, p));
    assert(pairs_sorted_by_len(none, none, true));
    assert(replacements_after_classes(constants_prefix, text, none, Seq::empty(), Seq::empty()) == Ok::<Seq<char>, ReplaceError>(text));
}

/// Every element of a filtered sequence comes from the sequence.
proof fn lemma_filter_member<A>(s: Seq<A>, pred: spec_fn(A) -> bool, j: int)
    requires
        0 <= j < s.filter(pred).len(),
    ensures
        exists|i: int| 0 <= i < s.len() && s[i] == s.filter(pred)[j],
    decreases s.len(),
{
    reveal(Seq::filter);
    let sub = s.drop_last().filter(pred);
    if j < sub.len() {
        lemma_filter_member(s.drop_last(), pred, j);
        let i = choose|i: int| 0 <= i < s.drop_last().len() && s.drop_last()[i] == sub[j];
        assert(s[i] == s.drop_last()[i]);
        if pred(s.last()) {
            assert(s.filter(pred)[j] == sub[j]);
        }
    } else {
        assert(pred(s.last()));
        assert(s.filter(pred)[j] == s.last());
        assert(s[s.len() - 1] == s.last());
    }
}

/// Once prepared, no namespace change renames a namespace listed among the
/// excluded ones: every change renames a namespace of the collection that is
/// marked for renaming, to its replacement.
pub proof fn law_prepared_changes_skip_excluded(
    d: ReplacementData,
    symbols: DiscoveredSymbols,
    excluded: Seq<Seq<char>>,
    classmap_prefix: Option<Seq<char>>,
    constants_prefix: Option<Seq<char>>,
    k: int,
)
    requires
        prepared_from(d, symbols, excluded, classmap_prefix, constants_prefix),
        0 <= k < d.namespace_changes@.len(),
    ensures
        !excluded.contains(d.namespace_changes@[k].0@),
        symbols.map_of(SymbolType::Namespace).contains_key(d.namespace_changes@[k].0@),
        symbols.map_of(SymbolType::Namespace)[d.namespace_changes@[k].0@].do_rename,
        d.namespace_changes@[k].1@ == symbols.map_of(SymbolType::Namespace)[d.namespace_changes@[k].0@].effective_replacement(),
{
    let m = symbols.map_of(SymbolType::Namespace);
    let ns = choose|ns: Seq<SymbolView>| #[trigger] enumerates_all(ns, m)
        && pairs_sorted_by_len(
            ns.filter(|s: SymbolView| changes_namespace(s, excluded)).map_values(|s: SymbolView| change_pair(s)),
            pair_views(d.namespace_changes@),
            false,
        );
    let pred = |s: SymbolView| changes_namespace(s, excluded);
    let filt = ns.filter(pred);
    let before = filt.map_values(|s: SymbolView| change_pair(s));
    let after = pair_views(d.namespace_changes@);
    let p = choose|p: Seq<usize>| #![trigger is_permutation(p, before.len())]
        crate::helpers::namespace_sort::pairs_permuted(before, after, p)
        && crate::sorting::stably_sorted_by(
            before.map_values(|e: (Seq<char>, Seq<char>)| crate::helpers::namespace_sort::utf8_len(e.0)), p, false);
    let j = p[k] as int;
    assert(after[k] == before[j]);
    assert(0 <= j < filt.len());
    ns.lemma_filter_pred(pred, j);
    assert(changes_namespace(filt[j], excluded));
    assert(after[k] == (d.namespace_changes@[k].0@, d.namespace_changes@[k].1@));
    lemma_filter_member(ns, pred, j);
    let i = choose|i: int| 0 <= i < ns.len() && ns[i] == filt[j];
    assert(m.contains_key(ns[i].original_symbol) && m[ns[i].original_symbol] == ns[i]);
}

/// Once prepared, the global classes to prefix are classes of the collection in
/// the global namespace marked for renaming (none without a classmap prefix), and
/// every function change renames a marked function of the collection to a
/// different name, its replacement.
pub proof fn law_prepared_classes_and_functions(
    d: ReplacementData,
    symbols: DiscoveredSymbols,
    excluded: Seq<Seq<char>>,
    classmap_prefix: Option<Seq<char>>,
    constants_prefix: Option<Seq<char>>,
)
    requires
        prepared_from(d, symbols, excluded, classmap_prefix, constants_prefix),
    ensures
        classmap_prefix is None ==> d.global_classes@.len() == 0,
        forall|k: int| 0 <= k < d.global_classes@.len() ==> {
            let s = #[trigger] d.global_classes@[k]@;
            &&& symbols.map_of(SymbolType::Class).contains_key(s.original_symbol)
            &&& symbols.map_of(SymbolType::Class)[s.original_symbol] == s
            &&& s.do_rename
            &&& s.in_global_namespace()
        },
        forall|k: int| 0 <= k < d.functions@.len() ==> {
            let name = (#[trigger] d.functions@[k]).0@;
            &&& symbols.map_of(SymbolType::Function).contains_key(name)
            &&& symbols.map_of(SymbolType::Function)[name].do_rename
            &&& d.functions@[k].1@ == symbols.map_of(SymbolType::Function)[name].effective_replacement()
            &&& d.functions@[k].1@ != name
        },
{
    if classmap_prefix is Some {
        let m = symbols.map_of(SymbolType::Class);
        let g = choose|g: Seq<SymbolView>| #[trigger] enumerates_global(g, m)
            && symbol_views(d.global_classes@) == g.filter(|s: SymbolView| marked(s));
        let pred = |s: SymbolView| marked(s);
        assert forall|k: int| 0 <= k < d.global_classes@.len() implies {
            let s = #[trigger] d.global_classes@[k]@;
            &&& m.contains_key(s.original_symbol)
            &&& m[s.original_symbol] == s
            &&& s.do_rename
            &&& s.in_global_namespace()
        } by {
            assert(symbol_views(d.global_classes@)[k] == d.global_classes@[k]@);
            g.lemma_filter_pred(pred, k);
            lemma_filter_member(g, pred, k);
            let i = choose|i: int| 0 <= i < g.len() && g[i] == g.filter(pred)[k];
            assert(m.contains_key(g[i].original_symbol) && m[g[i].original_symbol] == g[i]);
            assert(crate::types::symbols_collection::global(g[i]));
        }
    }
    let fm = symbols.map_of(SymbolType::Function);
    let f = choose|f: Seq<SymbolView>| #[trigger] enumerates_all(f, fm)
        && pair_views(d.functions@) == f.filter(|s: SymbolView| changes_function(s)).map_values(|s: SymbolView| change_pair(s));
    let fpred = |s: SymbolView| changes_function(s);
    assert forall|k: int| 0 <= k < d.functions@.len() implies {
        let name = (#[trigger] d.functions@[k]).0@;
        &&& fm.contains_key(name)
        &&& fm[name].do_rename
        &&& d.functions@[k].1@ == fm[name].effective_replacement()
        &&& d.functions@[k].1@ != name
    } by {
        let ff = f.filter(fpred);
        assert(ff =~= f.filter(|s: SymbolView| changes_function(s)));
        assert(pair_views(d.functions@).len() == d.functions@.len());
        assert(ff.map_values(|s: SymbolView| change_pair(s)).len() == ff.len());
        assert(pair_views(d.functions@)[k] == (d.functions@[k].0@, d.functions@[k].1@));
        assert(pair_views(d.functions@)[k] == change_pair(ff[k]));
        f.lemma_filter_pred(fpred, k);
        lemma_filter_member(f, fpred, k);
        let i = choose|i: int| 0 <= i < f.len() && f[i] == ff[k];
        assert(fm.contains_key(f[i].original_symbol) && fm[f[i].original_symbol] == f[i]);
    }
}

} // verus!
