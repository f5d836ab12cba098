//! Constant replacement: every constant name gets the prefix, in one pass.

use vstd::prelude::*;
use crate::matching::{aho_corasick_builds, aho_corasick_replaced, build_multi_replacer, multi_replace_all};
use crate::replacer::{ReplaceError, result_view};
use crate::strs::{clone_strings, concat, seqs, to_owned};

verus! {

/// The replacements for constants: each name with the prefix in front.
pub open spec fn prefixed_names(names: Seq<Seq<char>>, prefix: Seq<char>) -> Seq<Seq<char>> {
    names.map_values(|c: Seq<char>| prefix + c)
}

/// The outcome of prefixing constants in a text: unchanged when there are none;
/// otherwise the one-pass replacement with standard semantics, or an error when
/// the searcher cannot be built.
pub open spec fn constants_outcome(contents: Seq<char>, names: Seq<Seq<char>>, prefix: Seq<char>) -> Result<Seq<char>, ReplaceError> {
    if names.len() == 0 {
        Ok(contents)
    } else if aho_corasick_builds(false, names) {
        Ok(aho_corasick_replaced(false, names, prefixed_names(names, prefix), contents))
    } else {
        Err(ReplaceError::SearcherBuild)
    }
}

/// Rewrites constant names in PHP text.
pub struct ConstantReplacer;

impl ConstantReplacer {
    pub fn new() -> (r: Self) {
        ConstantReplacer
    }

    /// Puts `prefix` in front of every occurrence of the constants, in one pass
    /// with standard match semantics. With no constants the text is unchanged; an
    /// error comes when the searcher cannot be built.
    pub fn replace_constants(&self, contents: &str, original_constants: &[String], prefix: &str) -> (r: Result<String, ReplaceError>)
        ensures
            result_view(r) == constants_outcome(contents@, seqs(original_constants@), prefix@),
    {
        if original_constants.len() == 0 {
            return Ok(to_owned(contents));
        }
        let mut patterns: Vec<String> = Vec::new();
        let mut replacements: Vec<String> = Vec::new();
        let mut i: usize = 0;
        while i < original_constants.len()
            invariant
                i <= original_constants.len(),
                seqs(patterns@) == seqs(original_constants@).take(i as int),
                seqs(replacements@) == prefixed_names(seqs(original_constants@), prefix@).take(i as int),
            decreases original_constants.len() - i,
        {
            let ghost (p0, r0) = (patterns@, replacements@);
            patterns.push(original_constants[i].clone());
            replacements.push(concat(prefix, original_constants[i].as_str()));
            assert(seqs(patterns@) == seqs(p0).push(original_constants@[i as int]@));
            assert(seqs(replacements@) == seqs(r0).push(prefix@ + original_constants@[i as int]@));
            i += 1;
            assert(seqs(original_constants@).take(i as int) == seqs(original_constants@).take(i - 1).push(original_constants@[i - 1]@));
            assert(prefixed_names(seqs(original_constants@), prefix@).take(i as int)
                == prefixed_names(seqs(original_constants@), prefix@).take(i - 1).push(prefix@ + original_constants@[i - 1]@));
        }
        assert(seqs(original_constants@).take(i as int) == seqs(original_constants@));
        assert(prefixed_names(seqs(original_constants@), prefix@).take(i as int) == prefixed_names(seqs(original_constants@), prefix@));
        match build_multi_replacer(patterns, false) {
            Some(m) => Ok(multi_replace_all(&m, contents, &replacements)),
            None => Err(ReplaceError::SearcherBuild),
        }
    }
}

} // verus!
