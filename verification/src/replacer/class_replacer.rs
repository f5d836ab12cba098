//! Global class name replacement: whole-word occurrences get the classmap prefix.

use vstd::prelude::*;
use crate::matching::{CompiledRegex, compile_regex, regex_compiles, regex_escape, regex_escaped, regex_replace_all, regex_replaced_all};
use crate::replacer::{ReplaceError, result_view};
use crate::strs::{concat, concat3, to_owned};

verus! {

/// The pattern that finds `name` as a whole word: `\b`, the escaped name, `\b`.
pub open spec fn word_pattern(name: Seq<char>) -> Seq<char> {
    seq!['\\', 'b'] + regex_escaped(name) + seq!['\\', 'b']
}

/// The outcome of prefixing a class name in a text: unchanged for an empty name;
/// otherwise every whole-word occurrence replaced by the prefixed name, or an
/// error when the word pattern does not compile.
pub open spec fn classname_outcome(contents: Seq<char>, name: Seq<char>, prefix: Seq<char>) -> Result<Seq<char>, ReplaceError> {
    if name.len() == 0 {
        Ok(contents)
    } else if regex_compiles(word_pattern(name)) {
        Ok(regex_replaced_all(word_pattern(name), contents, prefix + name))
    } else {
        Err(ReplaceError::InvalidPattern)
    }
}

/// The compiled whole-word pattern for a name.
pub fn word_regex(name: &str) -> (r: Option<CompiledRegex>)
    ensures
        r is Some == regex_compiles(word_pattern(name@)),
        r matches Some(c) ==> c.pattern() == word_pattern(name@),
{
    let escaped = regex_escape(name);
    let pattern = concat3("\\b", escaped.as_str(), "\\b");
    proof {
        reveal_strlit("\\b");
        assert("\\b"@ =~= seq!['\\', 'b']);
    }
    compile_regex(pattern.as_str())
}

/// Rewrites global class names in PHP text.
pub struct ClassReplacer;

impl ClassReplacer {
    pub fn new() -> (r: Self) {
        ClassReplacer
    }

    /// Puts `classmap_prefix` in front of every whole-word occurrence of the class
    /// name (see [`classname_outcome`]).
    pub fn replace_classname(&self, contents: &str, original_classname: &str, classmap_prefix: &str) -> (r: Result<String, ReplaceError>)
        ensures
            result_view(r) == classname_outcome(contents@, original_classname@, classmap_prefix@),
    {
        if original_classname.is_empty() {
            return Ok(to_owned(contents));
        }
        match word_regex(original_classname) {
            Some(re) => {
                let replacement = concat(classmap_prefix, original_classname);
                Ok(regex_replace_all(&re, contents, replacement.as_str()))
            },
            None => Err(ReplaceError::InvalidPattern),
        }
    }
}

} // verus!
