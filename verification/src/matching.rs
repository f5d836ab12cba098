//! Pattern matching delegated to the `regex` and `aho-corasick` crates.
//!
//! What those crates compute is not restated here. Each result is named as a
//! function of the pattern text, the haystack and the replacement, and only the
//! facts their documentation gives in a sentence are stated beside the names.
//! A compiled searcher is kept together with the patterns it was built from; only
//! the constructors below build one.

use vstd::prelude::*;
use crate::strs::{contains_sub, seqs};

verus! {

#[verifier::external_type_specification]
#[verifier::external_body]
pub struct ExRegex(regex::Regex);

#[verifier::external_type_specification]
#[verifier::external_body]
pub struct ExAhoCorasick(aho_corasick::AhoCorasick);

/// Whether a pattern compiles (`regex::Regex::new` succeeds).
pub uninterp spec fn regex_compiles(pattern: Seq<char>) -> bool;

/// Whether a compiled pattern matches somewhere in a text (`regex::Regex::is_match`).
pub uninterp spec fn regex_finds(pattern: Seq<char>, text: Seq<char>) -> bool;

/// The text with the first match of the pattern replaced by the expanded template
/// (`regex::Regex::replace`).
pub uninterp spec fn regex_replaced_first(pattern: Seq<char>, text: Seq<char>, template: Seq<char>) -> Seq<char>;

/// The text with every non-overlapping match replaced by the expanded template
/// (`regex::Regex::replace_all`).
pub uninterp spec fn regex_replaced_all(pattern: Seq<char>, text: Seq<char>, template: Seq<char>) -> Seq<char>;

/// Whether a character has a meaning of its own in a regex (the set of
/// `regex_syntax::is_meta_character`).
pub open spec fn is_regex_meta(c: char) -> bool {
    c == '\\' || c == '.' || c == '+' || c == '*' || c == '?' || c == '(' || c == ')' || c == '|'
        || c == '[' || c == ']' || c == '{' || c == '}' || c == '^' || c == '$' || c == '#'
        || c == '&' || c == '-' || c == '~'
}

/// A text with a backslash put before every regex meta character (what
/// `regex::escape` gives).
pub open spec fn regex_escaped(text: Seq<char>) -> Seq<char>
    decreases text.len(),
{
    if text.len() == 0 {
        Seq::empty()
    } else {
        regex_escaped(text.drop_last()) + if is_regex_meta(text.last()) {
            seq!['\\', text.last()]
        } else {
            seq![text.last()]
        }
    }
}

/// Whether a multi-pattern searcher can be built for the patterns, with
/// leftmost-longest or with standard match semantics.
pub uninterp spec fn aho_corasick_builds(leftmost_longest: bool, patterns: Seq<Seq<char>>) -> bool;

/// The haystack with every match replaced by the replacement of the pattern that
/// matched, with leftmost-longest or with standard match semantics
/// (`aho_corasick::AhoCorasick::replace_all`).
pub uninterp spec fn aho_corasick_replaced(
    leftmost_longest: bool,
    patterns: Seq<Seq<char>>,
    replacements: Seq<Seq<char>>,
    haystack: Seq<char>,
) -> Seq<char>;

/// No pattern of the list occurs in the text.
pub open spec fn none_occurs(patterns: Seq<Seq<char>>, text: Seq<char>) -> bool {
    forall|i: int| 0 <= i < patterns.len() ==> !contains_sub(text, #[trigger] patterns[i])
}

/// A compiled regular expression with the pattern it was compiled from.
pub struct CompiledRegex {
    pattern: String,
    regex: regex::Regex,
}

impl CompiledRegex {
    /// The pattern this expression was compiled from.
    pub closed spec fn pattern(&self) -> Seq<char> {
        self.pattern@
    }
}

/// A multi-pattern searcher with the patterns it was built from.
pub struct MultiReplacer {
    patterns: Vec<String>,
    leftmost_longest: bool,
    automaton: aho_corasick::AhoCorasick,
}

impl MultiReplacer {
    /// The patterns, in order.
    pub closed spec fn patterns(&self) -> Seq<Seq<char>> {
        seqs(self.patterns@)
    }

    /// Whether matches follow leftmost-longest semantics (otherwise standard ones).
    pub closed spec fn leftmost_longest(&self) -> bool {
        self.leftmost_longest
    }
}

/// Calls `regex::Regex::new`. Claims that it succeeds exactly when the pattern
/// compiles, and that the result remembers the pattern.
#[verifier::external_body]
pub(crate) fn compile_regex(pattern: &str) -> (r: Option<CompiledRegex>)
    ensures
        r is Some == regex_compiles(pattern@),
        r matches Some(c) ==> c.pattern() == pattern@,
{
    match regex::Regex::new(pattern) {
        Ok(regex) => Some(CompiledRegex { pattern: pattern.to_string(), regex }),
        Err(_) => None,
    }
}

/// Calls `regex::Regex::is_match`. Claims that the result is the named match test
/// of the expression's pattern on the text.
#[verifier::external_body]
pub(crate) fn regex_is_match(re: &CompiledRegex, text: &str) -> (r: bool)
    ensures
        r == regex_finds(re.pattern(), text@),
{
    re.regex.is_match(text)
}

/// Calls `regex::Regex::replace`. Claims that the result is the named replacement,
/// and, as documented, that a text without a match comes back unchanged.
#[verifier::external_body]
pub(crate) fn regex_replace_first(re: &CompiledRegex, text: &str, template: &str) -> (r: String)
    ensures
        r@ == regex_replaced_first(re.pattern(), text@, template@),
        !regex_finds(re.pattern(), text@) ==> r@ == text@,
{
    re.regex.replace(text, template).to_string()
}

/// Calls `regex::Regex::replace_all`. Claims that the result is the named
/// replacement, and, as documented, that a text without a match comes back unchanged.
#[verifier::external_body]
pub(crate) fn regex_replace_all(re: &CompiledRegex, text: &str, template: &str) -> (r: String)
    ensures
        r@ == regex_replaced_all(re.pattern(), text@, template@),
        !regex_finds(re.pattern(), text@) ==> r@ == text@,
{
    re.regex.replace_all(text, template).to_string()
}

/// The text with a backslash before each regex meta character (see
/// [`regex_escaped`]), so that it matches itself as a pattern.
pub(crate) fn regex_escape(text: &str) -> (r: String)
    ensures
        r@ == regex_escaped(text@),
{
    let chars = crate::strs::to_chars(text);
    let mut out = String::new();
    let mut i: usize = 0;
    while i < chars.len()
        invariant
            i <= chars@.len(),
            chars@ == text@,
            out@ == regex_escaped(text@.take(i as int)),
        decreases chars.len() - i,
    {
        let c = chars[i];
        assert(text@.take(i + 1).drop_last() =~= text@.take(i as int));
        assert(text@.take(i + 1).last() == c);
        let meta = c == '\\' || c == '.' || c == '+' || c == '*' || c == '?' || c == '(' || c == ')'
            || c == '|' || c == '[' || c == ']' || c == '{' || c == '}' || c == '^' || c == '$'
            || c == '#' || c == '&' || c == '-' || c == '~';
        let ghost before = out@;
        if meta {
            crate::strs::push_char(&mut out, '\\');
        }
        crate::strs::push_char(&mut out, c);
        proof {
            if meta {
                assert(out@ =~= before + seq!['\\', c]);
            } else {
                assert(out@ =~= before + seq![c]);
            }
        }
        i += 1;
    }
    assert(text@.take(chars.len() as int) =~= text@);
    out
}

/// Builds an `aho_corasick::AhoCorasick` for the patterns, with
/// `MatchKind::LeftmostLongest` or with the default (standard) semantics. Claims
/// that it succeeds exactly when the named condition holds, and that the result
/// remembers the patterns and the semantics.
#[verifier::external_body]
pub(crate) fn build_multi_replacer(patterns: Vec<String>, leftmost_longest: bool) -> (r: Option<MultiReplacer>)
    ensures
        r is Some == aho_corasick_builds(leftmost_longest, seqs(patterns@)),
        r matches Some(m) ==> m.patterns() == seqs(patterns@) && m.leftmost_longest() == leftmost_longest,
{
    let kind = if leftmost_longest {
        aho_corasick::MatchKind::LeftmostLongest
    } else {
        aho_corasick::MatchKind::Standard
    };
    match aho_corasick::AhoCorasick::builder().match_kind(kind).build(&patterns) {
        Ok(automaton) => Some(MultiReplacer { patterns, leftmost_longest, automaton }),
        Err(_) => None,
    }
}

/// Calls `aho_corasick::AhoCorasick::replace_all` with one replacement per
/// pattern (it panics otherwise). Claims that the result is the named
/// replacement, and, as documented, that a haystack in which no pattern occurs
/// comes back unchanged.
#[verifier::external_body]
pub(crate) fn multi_replace_all(m: &MultiReplacer, haystack: &str, replacements: &Vec<String>) -> (r: String)
    requires
        replacements@.len() == m.patterns().len(),
    ensures
        r@ == aho_corasick_replaced(m.leftmost_longest(), m.patterns(), seqs(replacements@), haystack@),
        none_occurs(m.patterns(), haystack@) ==> r@ == haystack@,
{
    m.automaton.replace_all(haystack, replacements)
}

} // verus!
