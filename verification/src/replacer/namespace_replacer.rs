//! Namespace replacement: every namespace and its doubled-backslash spelling, in
//! one pass over the text.

use vstd::prelude::*;
use crate::helpers::namespace_sort::{pair_views, pairs_sorted_by_len, sort_pairs_by_len};
use crate::matching::{aho_corasick_builds, aho_corasick_replaced, build_multi_replacer, multi_replace_all};
use crate::replacer::{ReplaceError, result_view};
use crate::strs::{replace_char_str, seqs, to_owned};
use crate::types::file_references::doubled_backslashes;

verus! {

/// The search patterns for sorted namespace changes: every original namespace,
/// then every original namespace with doubled backslashes.
pub open spec fn namespace_patterns(s: Seq<(Seq<char>, Seq<char>)>) -> Seq<Seq<char>> {
    s.map_values(|e: (Seq<char>, Seq<char>)| e.0) + s.map_values(
        |e: (Seq<char>, Seq<char>)| doubled_backslashes(e.0),
    )
}

/// The replacements matching [`namespace_patterns`].
pub open spec fn namespace_replacements(s: Seq<(Seq<char>, Seq<char>)>) -> Seq<Seq<char>> {
    s.map_values(|e: (Seq<char>, Seq<char>)| e.1) + s.map_values(
        |e: (Seq<char>, Seq<char>)| doubled_backslashes(e.1),
    )
}

/// What replacing namespaces does to a text, once the changes are sorted: one
/// leftmost-longest pass over all patterns.
pub open spec fn namespaces_replaced(s: Seq<(Seq<char>, Seq<char>)>, contents: Seq<char>) -> Seq<char> {
    aho_corasick_replaced(true, namespace_patterns(s), namespace_replacements(s), contents)
}

/// The outcome of replacing sorted namespace changes in a text (see
/// [`namespaces_replaced`]): an error when the searcher cannot be built.
pub open spec fn sorted_namespaces_outcome(sorted: Seq<(Seq<char>, Seq<char>)>, text: Seq<char>) -> Result<Seq<char>, ReplaceError> {
    if aho_corasick_builds(true, namespace_patterns(sorted)) {
        Ok(namespaces_replaced(sorted, text))
    } else {
        Err(ReplaceError::SearcherBuild)
    }
}

/// The outcome of replacing the namespace changes in a text: unchanged when there
/// are none; otherwise, with the changes sorted longest first, the one-pass
/// replacement, or an error when the searcher cannot be built.
pub open spec fn namespace_replacement_outcome(
    changes: Seq<(Seq<char>, Seq<char>)>,
    contents: Seq<char>,
    r: Result<Seq<char>, ReplaceError>,
) -> bool {
    if changes.len() == 0 {
        r == Ok::<Seq<char>, ReplaceError>(contents)
    } else {
        exists|s: Seq<(Seq<char>, Seq<char>)>| #[trigger] pairs_sorted_by_len(changes, s, true)
            && r == sorted_namespaces_outcome(s, contents)
    }
}

/// Rewrites namespaces in PHP text.
pub struct NamespaceReplacer;

impl NamespaceReplacer {
    pub fn new() -> (r: Self) {
        NamespaceReplacer
    }

    /// Replaces all namespaces of `namespace_changes` (original, replacement) in one
    /// pass, longest namespaces first, each also in its doubled-backslash spelling
    /// as found inside string literals.
    pub fn replace_all_namespaces(&self, contents: &str, namespace_changes: &[(String, String)]) -> (r: Result<String, ReplaceError>)
        ensures
            namespace_replacement_outcome(pair_views(namespace_changes@), contents@, result_view(r)),
    {
        if namespace_changes.len() == 0 {
            return Ok(to_owned(contents));
        }
        let sorted = sort_pairs_by_len(namespace_changes, true);
        let ghost s = pair_views(sorted@);
        let mut patterns: Vec<String> = Vec::new();
        let mut replacements: Vec<String> = Vec::new();
        let mut double_patterns: Vec<String> = Vec::new();
        let mut double_replacements: Vec<String> = Vec::new();
        let mut i: usize = 0;
        while i < sorted.len()
            invariant
                s == pair_views(sorted@),
                i <= sorted.len(),
                seqs(patterns@) == s.map_values(|e: (Seq<char>, Seq<char>)| e.0).take(i as int),
                seqs(replacements@) == s.map_values(|e: (Seq<char>, Seq<char>)| e.1).take(i as int),
                seqs(double_patterns@) == s.map_values(|e: (Seq<char>, Seq<char>)| doubled_backslashes(e.0)).take(i as int),
                seqs(double_replacements@) == s.map_values(|e: (Seq<char>, Seq<char>)| doubled_backslashes(e.1)).take(i as int),
            decreases sorted.len() - i,
        {
            let ghost (p0, r0, d0, e0) = (patterns@, replacements@, double_patterns@, double_replacements@);
            proof {
                reveal_strlit("\\\\");
                assert("\\\\"@ =~= seq!['\\', '\\']);
            }
            let original = &sorted[i].0;
            let replacement = &sorted[i].1;
            patterns.push(original.clone());
            replacements.push(replacement.clone());
            double_patterns.push(replace_char_str(original.as_str(), '\\', "\\\\"));
            double_replacements.push(replace_char_str(replacement.as_str(), '\\', "\\\\"));
            proof {
                assert(seqs(patterns@) == seqs(p0).push(original@));
                assert(seqs(replacements@) == seqs(r0).push(replacement@));
                assert(seqs(double_patterns@) == seqs(d0).push(doubled_backslashes(original@)));
                assert(seqs(double_replacements@) == seqs(e0).push(doubled_backslashes(replacement@)));
                assert(s[i as int] == (original@, replacement@));
            }
            i += 1;
            proof {
                assert(s.map_values(|e: (Seq<char>, Seq<char>)| e.0).take(i as int)
                    == s.map_values(|e: (Seq<char>, Seq<char>)| e.0).take(i - 1).push(s[i - 1].0));
                assert(s.map_values(|e: (Seq<char>, Seq<char>)| e.1).take(i as int)
                    == s.map_values(|e: (Seq<char>, Seq<char>)| e.1).take(i - 1).push(s[i - 1].1));
                assert(s.map_values(|e: (Seq<char>, Seq<char>)| doubled_backslashes(e.0)).take(i as int)
                    == s.map_values(|e: (Seq<char>, Seq<char>)| doubled_backslashes(e.0)).take(i - 1).push(doubled_backslashes(s[i - 1].0)));
                assert(s.map_values(|e: (Seq<char>, Seq<char>)| doubled_backslashes(e.1)).take(i as int)
                    == s.map_values(|e: (Seq<char>, Seq<char>)| doubled_backslashes(e.1)).take(i - 1).push(doubled_backslashes(s[i - 1].1)));
            }
        }
        proof {
            assert(s.map_values(|e: (Seq<char>, Seq<char>)| e.0).take(i as int) == s.map_values(|e: (Seq<char>, Seq<char>)| e.0));
            assert(s.map_values(|e: (Seq<char>, Seq<char>)| e.1).take(i as int) == s.map_values(|e: (Seq<char>, Seq<char>)| e.1));
            assert(s.map_values(|e: (Seq<char>, Seq<char>)| doubled_backslashes(e.0)).take(i as int)
                == s.map_values(|e: (Seq<char>, Seq<char>)| doubled_backslashes(e.0)));
            assert(s.map_values(|e: (Seq<char>, Seq<char>)| doubled_backslashes(e.1)).take(i as int)
                == s.map_values(|e: (Seq<char>, Seq<char>)| doubled_backslashes(e.1)));
        }
        let ghost (pv, dv, rv, ev) = (seqs(patterns@), seqs(double_patterns@), seqs(replacements@), seqs(double_replacements@));
        patterns.append(&mut double_patterns);
        replacements.append(&mut double_replacements);
        assert(seqs(patterns@) =~= pv + dv);
        assert(seqs(replacements@) =~= rv + ev);
        assert(seqs(patterns@) == namespace_patterns(s));
        assert(seqs(replacements@) == namespace_replacements(s));
        let built = build_multi_replacer(patterns, true);
        match built {
            Some(m) => {
                let out = multi_replace_all(&m, contents, &replacements);
                Ok(out)
            },
            None => Err(ReplaceError::SearcherBuild),
        }
    }

    /// Replaces one namespace (see [`NamespaceReplacer::replace_all_namespaces`]).
    pub fn replace_namespace(&self, contents: &str, original_namespace: &str, replacement: &str) -> (r: Result<String, ReplaceError>)
        ensures
            namespace_replacement_outcome(seq![(original_namespace@, replacement@)], contents@, result_view(r)),
    {
        let changes = vec![(to_owned(original_namespace), to_owned(replacement))];
        assert(pair_views(changes@) =~= seq![(original_namespace@, replacement@)]);
        self.replace_all_namespaces(contents, changes.as_slice())
    }
}

} // verus!
