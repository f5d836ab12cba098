//! The line that makes Composer's autoloader load the prefixed one too.

use vstd::prelude::*;
use crate::strs::{contains, contains_sub, occurs_at, to_chars, from_char_range, concat, concat3, push_str};

verus! {

/// The lines added to `vendor/autoload.php`.
pub open spec fn include_block() -> Seq<char> {
    "\n// Load Strauss autoloader\nif (file_exists(__DIR__ . '/../vendor-prefixed/autoload.php')) {\n    require_once __DIR__ . '/../vendor-prefixed/autoload.php';\n}\n"@
}

/// The start of the last occurrence of `p` in `s`.
pub open spec fn last_occurrence(s: Seq<char>, p: Seq<char>) -> Option<int> {
    if exists|i: int| occurs_at(s, p, i) {
        Some(choose|i: int| occurs_at(s, p, i) && forall|j: int| occurs_at(s, p, j) ==> j <= i)
    } else {
        None
    }
}

/// `autoload.php` with the include block: before its last `return `, else at the
/// end. Already-including text (it mentions `vendor-prefixed/autoload.php`)
/// needs no change (`None`).
pub open spec fn with_include(contents: Seq<char>) -> Option<Seq<char>> {
    if contains_sub(contents, "vendor-prefixed/autoload.php"@) {
        None
    } else {
        match last_occurrence(contents, "return "@) {
            Some(pos) => Some(contents.take(pos) + include_block() + contents.skip(pos)),
            None => Some(contents + include_block()),
        }
    }
}

/// The start of the last `return ` in the characters.
fn last_return(chars: &Vec<char>) -> (r: Option<usize>)
    ensures
        match r {
            Some(p) => occurs_at(chars@, "return "@, p as int) && forall|j: int| occurs_at(chars@, "return "@, j) ==> j <= p,
            None => forall|j: int| !occurs_at(chars@, "return "@, j),
        },
{
    let pat = to_chars("return ");
    proof {
        reveal_strlit("return ");
    }
    assert(pat@.len() == 7);
    let mut i: usize = chars.len();
    while i > 0
        invariant
            pat@ == "return "@,
            pat@.len() == 7,
            i <= chars.len(),
            forall|j: int| i <= j ==> !occurs_at(chars@, "return "@, j),
        decreases i,
    {
        i -= 1;
        if crate::strs::chars_occur_at(chars.as_slice(), pat.as_slice(), i) {
            return Some(i);
        }
    }
    None
}

/// Adds the include block to the text of `vendor/autoload.php` (see [`with_include`]).
pub fn autoloader_with_include(contents: &str) -> (r: Option<String>)
    ensures
        match r {
            Some(t) => with_include(contents@) == Some(t@),
            None => with_include(contents@) is None,
        },
{
    if contains(contents, "vendor-prefixed/autoload.php") {
        return None;
    }
    let block = "\n// Load Strauss autoloader\nif (file_exists(__DIR__ . '/../vendor-prefixed/autoload.php')) {\n    require_once __DIR__ . '/../vendor-prefixed/autoload.php';\n}\n";
    let chars = to_chars(contents);
    let found = last_return(&chars);
    match found {
        Some(pos) => {
            proof {
                assert(occurs_at(contents@, "return "@, pos as int));
                assert(forall|j: int| occurs_at(contents@, "return "@, j) ==> j <= pos);
                let c = choose|c: int| occurs_at(contents@, "return "@, c) && forall|j: int| occurs_at(contents@, "return "@, j) ==> j <= c;
                assert(c == pos);
            }
            let before = from_char_range(chars.as_slice(), 0, pos);
            let after = from_char_range(chars.as_slice(), pos, chars.len());
            let r = concat3(before.as_str(), block, after.as_str());
            assert(before@ == contents@.take(pos as int));
            assert(after@ == contents@.skip(pos as int));
            Some(r)
        },
        None => Some(concat(contents, block)),
    }
}

/// When a pattern occurs, a last occurrence exists.
proof fn lemma_last_occurrence(s: Seq<char>, p: Seq<char>, k: int)
    requires
        occurs_at(s, p, k),
    ensures
        exists|i: int| occurs_at(s, p, i) && forall|j: int| occurs_at(s, p, j) ==> j <= i,
    decreases s.len() - k,
{
    if exists|j: int| occurs_at(s, p, j) && j > k {
        let j = choose|j: int| occurs_at(s, p, j) && j > k;
        lemma_last_occurrence(s, p, j);
    } else {
        assert(occurs_at(s, p, k) && forall|j: int| occurs_at(s, p, j) ==> j <= k);
    }
}

/// Where the last occurrence of a pattern starts, it occurs.
proof fn lemma_last_occurrence_occurs(s: Seq<char>, p: Seq<char>)
    ensures
        last_occurrence(s, p) matches Some(i) ==> occurs_at(s, p, i),
{
    if exists|i: int| occurs_at(s, p, i) {
        let k = choose|i: int| occurs_at(s, p, i);
        lemma_last_occurrence(s, p, k);
    }
}

/// The inserted block mentions the prefixed autoloader.
proof fn lemma_block_mentions_autoloader()
    ensures
        include_block().len() == 158,
        include_block().subrange(59, 87) == "vendor-prefixed/autoload.php"@,
{
    reveal_strlit("\n// Load Strauss autoloader\nif (file_exists(__DIR__ . '/../vendor-prefixed/autoload.php')) {\n    require_once __DIR__ . '/../vendor-prefixed/autoload.php';\n}\n");
    reveal_strlit("vendor-prefixed/autoload.php");
    assert(include_block().subrange(59, 87) =~= "vendor-prefixed/autoload.php"@);
}

/// Including the autoloader a second time changes nothing: the text once
/// included already mentions the prefixed autoloader.
pub proof fn law_include_once(contents: Seq<char>)
    ensures
        with_include(contents) matches Some(t) ==> with_include(t) is None,
{
    let m = "vendor-prefixed/autoload.php"@;
    let b = include_block();
    lemma_block_mentions_autoloader();
    lemma_last_occurrence_occurs(contents, "return "@);
    reveal_strlit("vendor-prefixed/autoload.php");
    assert(m.len() == 28);
    let c: int = contents.len() as int;
    if let Some(t) = with_include(contents) {
        if last_occurrence(contents, "return "@) is Some {
            let pos = last_occurrence(contents, "return "@)->0;
            assert(0 <= pos <= c);
            assert(t.subrange(pos + 59, pos + 87) =~= b.subrange(59, 87));
            assert(occurs_at(t, m, pos + 59));
        } else {
            assert(t.subrange(c + 59, c + 87) =~= b.subrange(59, 87));
            assert(occurs_at(t, m, c + 59));
        }
    }
}

} // verus!
