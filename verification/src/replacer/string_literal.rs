//! Class names written inside string literals: `'Vendor\Class'` and
//! `"Vendor\\Class"`.

use vstd::prelude::*;
use crate::replacer::ReplaceError;
use crate::strs::{concat3, replace_all, replace_char_str, replace_str};
use crate::types::file_references::doubled_backslashes;

verus! {

/// `s` between single quotes.
pub open spec fn single_quoted(s: Seq<char>) -> Seq<char> {
    seq!['\''] + s + seq!['\'']
}

/// `s` with doubled backslashes, between double quotes.
pub open spec fn double_quoted(s: Seq<char>) -> Seq<char> {
    seq!['"'] + doubled_backslashes(s) + seq!['"']
}

/// The text with the single-quoted class name replaced, then the double-quoted one.
pub open spec fn literals_replaced(contents: Seq<char>, original: Seq<char>, replacement: Seq<char>) -> Seq<char> {
    replace_all(
        replace_all(contents, single_quoted(original), single_quoted(replacement)),
        double_quoted(original),
        double_quoted(replacement),
    )
}

/// Rewrites class names inside string literals.
pub struct StringLiteralReplacer;

impl StringLiteralReplacer {
    pub fn new() -> (r: Self) {
        StringLiteralReplacer
    }

    /// Replaces the class name where it stands alone in a single-quoted literal,
    /// and where it stands with doubled backslashes in a double-quoted one.
    pub fn replace_in_string_literals(&self, contents: &str, original_class: &str, replacement_class: &str) -> (r: Result<String, ReplaceError>)
        ensures
            r matches Ok(t) && t@ == literals_replaced(contents@, original_class@, replacement_class@),
    {
        proof {
            reveal_strlit("'");
            reveal_strlit("\"");
            reveal_strlit("\\\\");
            assert("\\\\"@ =~= seq!['\\', '\\']);
        }
        let single_quoted_text = concat3("'", original_class, "'");
        let single_replacement = concat3("'", replacement_class, "'");
        let double_orig = replace_char_str(original_class, '\\', "\\\\");
        let double_repl = replace_char_str(replacement_class, '\\', "\\\\");
        let double_quoted_text = concat3("\"", double_orig.as_str(), "\"");
        let double_replacement = concat3("\"", double_repl.as_str(), "\"");
        assert(single_quoted_text@ =~= single_quoted(original_class@));
        assert(single_replacement@ =~= single_quoted(replacement_class@));
        assert(double_quoted_text@ =~= double_quoted(original_class@));
        assert(double_replacement@ =~= double_quoted(replacement_class@));
        let first = replace_str(contents, single_quoted_text.as_str(), single_replacement.as_str());
        let result = replace_str(first.as_str(), double_quoted_text.as_str(), double_replacement.as_str());
        Ok(result)
    }
}

} // verus!
