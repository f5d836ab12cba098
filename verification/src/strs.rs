//! Character-level string operations with their specifications.
//!
//! Every operation here works on the character sequence of a string (its view)
//! and is stated against a spec function over `Seq<char>`.

use vstd::prelude::*;

verus! {

// ---------------------------------------------------------------------------
// Spec vocabulary
// ---------------------------------------------------------------------------

/// The view of a list of strings.
pub open spec fn seqs(v: Seq<String>) -> Seq<Seq<char>> {
    v.map_values(|s: String| s@)
}

/// The set of strings held by a list.
pub open spec fn set_of(v: Seq<String>) -> Set<Seq<char>> {
    Set::new(|x: Seq<char>| seqs(v).contains(x))
}

/// Pushing a string adds it to the set the list holds.
pub proof fn lemma_set_of_push(v: Seq<String>, s: String)
    ensures
        set_of(v.push(s)) == set_of(v).insert(s@),
        seqs(v.push(s)) == seqs(v).push(s@),
{
    assert(seqs(v.push(s)) == seqs(v).push(s@));
    assert forall|x: Seq<char>| set_of(v.push(s)).contains(x) <==> set_of(v).insert(s@).contains(x) by {
        if seqs(v).push(s@).contains(x) {
            let i = choose|i: int| 0 <= i < seqs(v).push(s@).len() && seqs(v).push(s@)[i] == x;
            if i < seqs(v).len() {
                assert(seqs(v)[i] == x);
            }
        }
        if seqs(v).contains(x) {
            let i = choose|i: int| 0 <= i < seqs(v).len() && seqs(v)[i] == x;
            assert(seqs(v).push(s@)[i] == x);
        }
        if x == s@ {
            assert(seqs(v).push(s@)[seqs(v).len() as int] == x);
        }
    }
    assert(set_of(v.push(s)) =~= set_of(v).insert(s@));
}

/// The view of an optional string.
pub open spec fn opt_seq(o: Option<String>) -> Option<Seq<char>> {
    match o {
        Some(s) => Some(s@),
        None => None,
    }
}

/// `p` is a prefix of `s`.
pub open spec fn is_prefix(p: Seq<char>, s: Seq<char>) -> bool {
    p.len() <= s.len() && s.take(p.len() as int) == p
}

/// `p` is a suffix of `s`.
pub open spec fn is_suffix(p: Seq<char>, s: Seq<char>) -> bool {
    p.len() <= s.len() && s.skip(s.len() - p.len()) == p
}

/// `p` occurs in `s` starting at index `i`.
pub open spec fn occurs_at(s: Seq<char>, p: Seq<char>, i: int) -> bool {
    0 <= i && i + p.len() <= s.len() && s.subrange(i, i + p.len()) == p
}

/// `p` occurs somewhere in `s`.
pub open spec fn contains_sub(s: Seq<char>, p: Seq<char>) -> bool {
    exists|i: int| occurs_at(s, p, i)
}

/// Removes every leading occurrence of `c`.
pub open spec fn trim_start(s: Seq<char>, c: char) -> Seq<char>
    decreases s.len(),
{
    if s.len() > 0 && s[0] == c {
        trim_start(s.drop_first(), c)
    } else {
        s
    }
}

/// Removes every trailing occurrence of `c`.
pub open spec fn trim_end(s: Seq<char>, c: char) -> Seq<char>
    decreases s.len(),
{
    if s.len() > 0 && s.last() == c {
        trim_end(s.drop_last(), c)
    } else {
        s
    }
}

/// A path separator: `/` or `\`.
pub open spec fn is_slash(c: char) -> bool {
    c == '/' || c == '\\'
}

/// Removes leading path separators.
pub open spec fn trim_start_slashes(s: Seq<char>) -> Seq<char>
    decreases s.len(),
{
    if s.len() > 0 && is_slash(s[0]) {
        trim_start_slashes(s.drop_first())
    } else {
        s
    }
}

/// Removes trailing path separators.
pub open spec fn trim_end_slashes(s: Seq<char>) -> Seq<char>
    decreases s.len(),
{
    if s.len() > 0 && is_slash(s.last()) {
        trim_end_slashes(s.drop_last())
    } else {
        s
    }
}

/// Removes path separators at both ends.
pub open spec fn trim_slashes(s: Seq<char>) -> Seq<char> {
    trim_end_slashes(trim_start_slashes(s))
}

/// Removes `c` at both ends.
pub open spec fn trim_both(s: Seq<char>, c: char) -> Seq<char> {
    trim_end(trim_start(s, c), c)
}

/// Every occurrence of the character `c` replaced by `r`.
pub open spec fn replace_char(s: Seq<char>, c: char, r: Seq<char>) -> Seq<char>
    decreases s.len(),
{
    if s.len() == 0 {
        s
    } else {
        replace_char(s.drop_last(), c, r) + (if s.last() == c { r } else { seq![s.last()] })
    }
}

/// Non-overlapping left-to-right replacement of the (non-empty) pattern `p` by `r`.
pub open spec fn replace_all(s: Seq<char>, p: Seq<char>, r: Seq<char>) -> Seq<char>
    decreases s.len(),
{
    if p.len() == 0 || s.len() < p.len() {
        s
    } else if s.take(p.len() as int) == p {
        r + replace_all(s.skip(p.len() as int), p, r)
    } else {
        seq![s[0]] + replace_all(s.drop_first(), p, r)
    }
}

/// The pieces of `s` between occurrences of the separator `c` (as `str::split`).
pub open spec fn split_char(s: Seq<char>, c: char) -> Seq<Seq<char>>
    decreases s.len(),
{
    if s.len() == 0 {
        seq![Seq::<char>::empty()]
    } else {
        let prev = split_char(s.drop_last(), c);
        if s.last() == c {
            prev.push(Seq::<char>::empty())
        } else {
            prev.update(prev.len() - 1, prev.last().push(s.last()))
        }
    }
}

/// The pieces joined with the separator `sep` in between.
pub open spec fn join(parts: Seq<Seq<char>>, sep: Seq<char>) -> Seq<char>
    decreases parts.len(),
{
    if parts.len() == 0 {
        Seq::<char>::empty()
    } else if parts.len() == 1 {
        parts[0]
    } else {
        join(parts.drop_last(), sep) + sep + parts.last()
    }
}

/// Lexicographic order on character sequences (the order of `str`'s `Ord`).
pub open spec fn lex_le(a: Seq<char>, b: Seq<char>) -> bool
    decreases a.len(),
{
    if a.len() == 0 {
        true
    } else if b.len() == 0 {
        false
    } else if a[0] != b[0] {
        a[0] < b[0]
    } else {
        lex_le(a.drop_first(), b.drop_first())
    }
}

/// An ASCII letter or digit.
pub open spec fn is_ascii_alnum(c: char) -> bool {
    ('a' <= c && c <= 'z') || ('A' <= c && c <= 'Z') || ('0' <= c && c <= '9')
}

/// The code point of a character after ASCII lower-casing.
pub open spec fn ascii_lower_code(c: char) -> u32 {
    if 'A' <= c && c <= 'Z' {
        ((c as u32) + 32) as u32
    } else {
        c as u32
    }
}

/// Equality up to ASCII case (`str::eq_ignore_ascii_case`).
pub open spec fn eq_ignore_ascii_case(a: Seq<char>, b: Seq<char>) -> bool {
    a.len() == b.len() && forall|i: int| 0 <= i < a.len() ==> ascii_lower_code(a[i]) == ascii_lower_code(b[i])
}

// ---------------------------------------------------------------------------
// Lemmas
// ---------------------------------------------------------------------------

proof fn lemma_replace_char_push(s: Seq<char>, c: char, r: Seq<char>, x: char)
    ensures
        replace_char(s.push(x), c, r) == replace_char(s, c, r) + (if x == c { r } else { seq![x] }),
{
    assert(s.push(x).drop_last() == s);
}

proof fn lemma_split_push(s: Seq<char>, c: char, x: char)
    ensures
        split_char(s.push(x), c) == (if x == c {
            split_char(s, c).push(Seq::<char>::empty())
        } else {
            split_char(s, c).update(
                split_char(s, c).len() - 1,
                split_char(s, c).last().push(x),
            )
        }),
{
    assert(s.push(x).drop_last() == s);
}

/// `split_char` always yields at least one piece.
pub proof fn lemma_split_nonempty(s: Seq<char>, c: char)
    ensures
        split_char(s, c).len() >= 1,
    decreases s.len(),
{
    if s.len() > 0 {
        lemma_split_nonempty(s.drop_last(), c);
    }
}

proof fn lemma_trim_start_slashes_skip(s: Seq<char>, i: int)
    requires
        0 <= i <= s.len(),
        forall|j: int| 0 <= j < i ==> is_slash(s[j]),
    ensures
        trim_start_slashes(s) == trim_start_slashes(s.skip(i)),
    decreases i,
{
    if i > 0 {
        assert(s.skip(1) == s.drop_first());
        lemma_trim_start_slashes_skip(s.drop_first(), i - 1);
        assert(s.drop_first().skip(i - 1) == s.skip(i));
    } else {
        assert(s.skip(0) == s);
    }
}

proof fn lemma_trim_start_skip(s: Seq<char>, c: char, i: int)
    requires
        0 <= i <= s.len(),
        forall|j: int| 0 <= j < i ==> s[j] == c,
    ensures
        trim_start(s, c) == trim_start(s.skip(i), c),
    decreases i,
{
    if i > 0 {
        lemma_trim_start_skip(s.drop_first(), c, i - 1);
        assert(s.drop_first().skip(i - 1) == s.skip(i));
    } else {
        assert(s.skip(0) == s);
    }
}

proof fn lemma_trim_end_slashes_take(s: Seq<char>, i: int)
    requires
        0 <= i <= s.len(),
        forall|j: int| i <= j < s.len() ==> is_slash(s[j]),
    ensures
        trim_end_slashes(s) == trim_end_slashes(s.take(i)),
    decreases s.len() - i,
{
    if i < s.len() {
        lemma_trim_end_slashes_take(s.drop_last(), i);
        assert(s.drop_last().take(i) == s.take(i));
    } else {
        assert(s.take(i) == s);
    }
}

proof fn lemma_trim_end_take(s: Seq<char>, c: char, i: int)
    requires
        0 <= i <= s.len(),
        forall|j: int| i <= j < s.len() ==> s[j] == c,
    ensures
        trim_end(s, c) == trim_end(s.take(i), c),
    decreases s.len() - i,
{
    if i < s.len() {
        lemma_trim_end_take(s.drop_last(), c, i);
        assert(s.drop_last().take(i) == s.take(i));
    } else {
        assert(s.take(i) == s);
    }
}

/// What remains after trimming a character does not start with it.
pub proof fn lemma_trim_start_first(s: Seq<char>, c: char)
    ensures
        trim_start(s, c).len() > 0 ==> trim_start(s, c)[0] != c,
        trim_start(s, c).len() <= s.len(),
        is_suffix(trim_start(s, c), s),
    decreases s.len(),
{
    if s.len() > 0 && s[0] == c {
        lemma_trim_start_first(s.drop_first(), c);
        let t = trim_start(s, c);
        assert(s.skip(s.len() - t.len()) == s.drop_first().skip(s.drop_first().len() - t.len()));
    } else {
        assert(s.skip(0) == s);
    }
}

// ---------------------------------------------------------------------------
// Standard-library string primitives
// ---------------------------------------------------------------------------

/// Appends one character (`String::push`).
#[verifier::external_body]
pub(crate) fn push_char(s: &mut String, c: char)
    ensures
        final(s)@ == old(s)@.push(c),
{
    s.push(c);
}

/// Appends a string slice (`String::push_str`).
#[verifier::external_body]
pub(crate) fn push_str(s: &mut String, t: &str)
    ensures
        final(s)@ == old(s)@ + t@,
{
    s.push_str(t);
}

// ---------------------------------------------------------------------------
// Verified operations
// ---------------------------------------------------------------------------

/// The characters of a string, in order.
pub fn to_chars(s: &str) -> (r: Vec<char>)
    ensures
        r@ == s@,
{
    let mut v: Vec<char> = Vec::new();
    for c in it: s.chars()
        invariant
            v@ == it.seq().take(it.index() as int),
            it.seq() == s@,
    {
        v.push(c);
    }
    v
}

/// A string holding exactly the given characters.
pub fn from_chars(v: &[char]) -> (r: String)
    ensures
        r@ == v@,
{
    let mut s = String::new();
    let mut i: usize = 0;
    while i < v.len()
        invariant
            i <= v.len(),
            s@ == v@.take(i as int),
        decreases v.len() - i,
    {
        push_char(&mut s, v[i]);
        i += 1;
        assert(s@ == v@.take(i as int));
    }
    assert(v@.take(v@.len() as int) == v@);
    s
}

/// The characters `v[i..j]` as a string.
pub fn from_char_range(v: &[char], i: usize, j: usize) -> (r: String)
    requires
        i <= j <= v.len(),
    ensures
        r@ == v@.subrange(i as int, j as int),
{
    let mut s = String::new();
    let mut k: usize = i;
    while k < j
        invariant
            i <= k <= j <= v.len(),
            s@ == v@.subrange(i as int, k as int),
        decreases j - k,
    {
        push_char(&mut s, v[k]);
        k += 1;
        assert(s@ == v@.subrange(i as int, k as int));
    }
    s
}

/// An owned copy of a string slice.
pub fn to_owned(s: &str) -> (r: String)
    ensures
        r@ == s@,
{
    s.to_owned()
}

/// Concatenation of two strings.
pub fn concat(a: &str, b: &str) -> (r: String)
    ensures
        r@ == a@ + b@,
{
    let mut s = a.to_owned();
    push_str(&mut s, b);
    s
}

/// Concatenation of three strings.
pub fn concat3(a: &str, b: &str, c: &str) -> (r: String)
    ensures
        r@ == a@ + b@ + c@,
{
    let mut s = a.to_owned();
    push_str(&mut s, b);
    push_str(&mut s, c);
    s
}

/// Whether two character sequences are equal.
pub fn chars_eq(a: &[char], b: &[char]) -> (r: bool)
    ensures
        r == (a@ == b@),
{
    if a.len() != b.len() {
        return false;
    }
    let mut i: usize = 0;
    while i < a.len()
        invariant
            i <= a.len() == b.len(),
            a@.take(i as int) == b@.take(i as int),
        decreases a.len() - i,
    {
        if a[i] != b[i] {
            assert(a@[i as int] != b@[i as int]);
            return false;
        }
        i += 1;
        assert(a@.take(i as int) == a@.take(i - 1).push(a@[i - 1]));
        assert(b@.take(i as int) == b@.take(i - 1).push(b@[i - 1]));
    }
    assert(a@.take(a.len() as int) == a@);
    assert(b@.take(b.len() as int) == b@);
    true
}

/// Whether two strings are equal.
pub fn str_eq(a: &str, b: &str) -> (r: bool)
    ensures
        r == (a@ == b@),
{
    let x = to_chars(a);
    let y = to_chars(b);
    chars_eq(x.as_slice(), y.as_slice())
}

/// Whether `p` occurs in `s` at character index `i`.
pub fn chars_occur_at(s: &[char], p: &[char], i: usize) -> (r: bool)
    ensures
        r == occurs_at(s@, p@, i as int),
{
    if i > s.len() || p.len() > s.len() - i {
        return false;
    }
    let mut k: usize = 0;
    while k < p.len()
        invariant
            k <= p.len(),
            i + p.len() <= s.len(),
            forall|m: int| 0 <= m < k ==> s@[i + m] == p@[m],
        decreases p.len() - k,
    {
        if s[i + k] != p[k] {
            assert(s@.subrange(i as int, i + p.len())[k as int] != p@[k as int]);
            return false;
        }
        k += 1;
    }
    assert(s@.subrange(i as int, i + p.len()) == p@);
    true
}

/// Whether `p` is a prefix of `s`.
pub fn starts_with(s: &str, p: &str) -> (r: bool)
    ensures
        r == is_prefix(p@, s@),
{
    let x = to_chars(s);
    let y = to_chars(p);
    let r = chars_occur_at(x.as_slice(), y.as_slice(), 0);
    proof {
        if r {
            assert(x@.subrange(0, y@.len() as int) == x@.take(y@.len() as int));
        } else if is_prefix(y@, x@) {
            assert(x@.subrange(0, y@.len() as int) == x@.take(y@.len() as int));
        }
    }
    r
}

/// Whether `p` is a suffix of `s`.
pub fn ends_with(s: &str, p: &str) -> (r: bool)
    ensures
        r == is_suffix(p@, s@),
{
    let x = to_chars(s);
    let y = to_chars(p);
    if y.len() > x.len() {
        return false;
    }
    let start = x.len() - y.len();
    let r = chars_occur_at(x.as_slice(), y.as_slice(), start);
    proof {
        assert(x@.subrange(start as int, start + y@.len()) == x@.skip(start as int));
    }
    r
}

/// Whether `p` occurs in the character sequence `s`.
pub fn chars_contain(s: &[char], p: &[char]) -> (r: bool)
    ensures
        r == contains_sub(s@, p@),
{
    if p.len() > s.len() {
        proof {
            assert forall|i: int| !occurs_at(s@, p@, i) by {}
        }
        return false;
    }
    let n = s.len() - p.len();
    let mut i: usize = 0;
    loop
        invariant_except_break
            p.len() <= s.len(),
            n == s.len() - p.len(),
            i <= n,
            forall|j: int| 0 <= j < i ==> !occurs_at(s@, p@, j),
        ensures
            p.len() <= s.len(),
            n == s.len() - p.len(),
            forall|j: int| 0 <= j <= n ==> !occurs_at(s@, p@, j),
        decreases n - i,
    {
        if chars_occur_at(s, p, i) {
            return true;
        }
        if i == n {
            break;
        }
        i += 1;
    }
    proof {
        assert forall|j: int| !occurs_at(s@, p@, j) by {
            if 0 <= j <= n {
            }
        }
    }
    false
}

/// Whether `p` occurs in `s`.
pub fn contains(s: &str, p: &str) -> (r: bool)
    ensures
        r == contains_sub(s@, p@),
{
    let x = to_chars(s);
    let y = to_chars(p);
    chars_contain(x.as_slice(), y.as_slice())
}

/// Whether the character `c` occurs in `s`.
pub fn contains_char(s: &str, c: char) -> (r: bool)
    ensures
        r == s@.contains(c),
{
    let x = to_chars(s);
    let mut i: usize = 0;
    while i < x.len()
        invariant
            x@ == s@,
            i <= x.len(),
            forall|j: int| 0 <= j < i ==> x@[j] != c,
        decreases x.len() - i,
    {
        if x[i] == c {
            assert(s@[i as int] == c);
            return true;
        }
        i += 1;
    }
    false
}

/// `s` with every leading `c` removed (`str::trim_start_matches` with a character).
pub fn trim_start_char(s: &str, c: char) -> (r: String)
    ensures
        r@ == trim_start(s@, c),
{
    let x = to_chars(s);
    let mut i: usize = 0;
    while i < x.len() && x[i] == c
        invariant
            x@ == s@,
            i <= x.len(),
            forall|j: int| 0 <= j < i ==> x@[j] == c,
        decreases x.len() - i,
    {
        i += 1;
    }
    proof {
        lemma_trim_start_skip(s@, c, i as int);
        let t = s@.skip(i as int);
        if t.len() > 0 {
            assert(t[0] == x@[i as int]);
        }
        assert(x@.subrange(i as int, x@.len() as int) == t);
    }
    from_char_range(x.as_slice(), i, x.len())
}

/// `s` with every trailing `c` removed (`str::trim_end_matches` with a character).
pub fn trim_end_char(s: &str, c: char) -> (r: String)
    ensures
        r@ == trim_end(s@, c),
{
    let x = to_chars(s);
    let mut j: usize = x.len();
    while j > 0 && x[j - 1] == c
        invariant
            x@ == s@,
            j <= x.len(),
            forall|k: int| j <= k < x.len() ==> x@[k] == c,
        decreases j,
    {
        j -= 1;
    }
    proof {
        lemma_trim_end_take(s@, c, j as int);
        let t = s@.take(j as int);
        if t.len() > 0 {
            assert(t.last() == x@[j - 1]);
        }
        assert(x@.subrange(0, j as int) == t);
    }
    from_char_range(x.as_slice(), 0, j)
}

/// `s` with `c` removed at both ends (`str::trim_matches` with a character).
pub fn trim_char(s: &str, c: char) -> (r: String)
    ensures
        r@ == trim_both(s@, c),
{
    let t = trim_start_char(s, c);
    trim_end_char(t.as_str(), c)
}

/// `s` with leading path separators removed.
pub fn trim_start_slashes_str(s: &str) -> (r: String)
    ensures
        r@ == trim_start_slashes(s@),
{
    let x = to_chars(s);
    let mut i: usize = 0;
    while i < x.len() && (x[i] == '/' || x[i] == '\\')
        invariant
            x@ == s@,
            i <= x.len(),
            forall|j: int| 0 <= j < i ==> is_slash(x@[j]),
        decreases x.len() - i,
    {
        i += 1;
    }
    proof {
        lemma_trim_start_slashes_skip(s@, i as int);
        let t = s@.skip(i as int);
        if t.len() > 0 {
            assert(t[0] == x@[i as int]);
        }
        assert(x@.subrange(i as int, x@.len() as int) == t);
    }
    from_char_range(x.as_slice(), i, x.len())
}

/// `s` with trailing path separators removed.
pub fn trim_end_slashes_str(s: &str) -> (r: String)
    ensures
        r@ == trim_end_slashes(s@),
{
    let x = to_chars(s);
    let mut j: usize = x.len();
    while j > 0 && (x[j - 1] == '/' || x[j - 1] == '\\')
        invariant
            x@ == s@,
            j <= x.len(),
            forall|k: int| j <= k < x.len() ==> is_slash(x@[k]),
        decreases j,
    {
        j -= 1;
    }
    proof {
        lemma_trim_end_slashes_take(s@, j as int);
        let t = s@.take(j as int);
        if t.len() > 0 {
            assert(t.last() == x@[j - 1]);
        }
        assert(x@.subrange(0, j as int) == t);
    }
    from_char_range(x.as_slice(), 0, j)
}

/// `s` with path separators removed at both ends.
pub fn trim_slashes_str(s: &str) -> (r: String)
    ensures
        r@ == trim_slashes(s@),
{
    let t = trim_start_slashes_str(s);
    trim_end_slashes_str(t.as_str())
}

/// The part of `s` left after removing path separators at both ends, as a slice of `s`.
pub fn trim_slashes_slice<'a>(s: &'a str) -> (r: &'a str)
    ensures
        r@ == trim_slashes(s@),
{
    let x = to_chars(s);
    let mut i: usize = 0;
    while i < x.len() && (x[i] == '/' || x[i] == '\\')
        invariant
            x@ == s@,
            i <= x.len(),
            forall|k: int| 0 <= k < i ==> is_slash(x@[k]),
        decreases x.len() - i,
    {
        i += 1;
    }
    let mut j: usize = x.len();
    while j > i && (x[j - 1] == '/' || x[j - 1] == '\\')
        invariant
            x@ == s@,
            i <= j <= x.len(),
            forall|k: int| j <= k < x.len() ==> is_slash(x@[k]),
        decreases j - i,
    {
        j -= 1;
    }
    proof {
        lemma_trim_start_slashes_skip(s@, i as int);
        let t = s@.skip(i as int);
        if t.len() > 0 {
            assert(t[0] == x@[i as int]);
        }
        assert(trim_start_slashes(t) == t);
        lemma_trim_end_slashes_take(t, j - i);
        let u = t.take(j - i);
        if u.len() > 0 {
            assert(u.last() == x@[j - 1]);
        }
        assert(trim_end_slashes(u) == u);
        assert(u == s@.subrange(i as int, j as int));
    }
    s.substring_char(i, j)
}

/// The part of `s` left after removing `c` at both ends, as a slice of `s`.
pub fn trim_char_slice<'a>(s: &'a str, c: char) -> (r: &'a str)
    ensures
        r@ == trim_both(s@, c),
{
    let x = to_chars(s);
    let mut i: usize = 0;
    while i < x.len() && x[i] == c
        invariant
            x@ == s@,
            i <= x.len(),
            forall|k: int| 0 <= k < i ==> x@[k] == c,
        decreases x.len() - i,
    {
        i += 1;
    }
    let mut j: usize = x.len();
    while j > i && x[j - 1] == c
        invariant
            x@ == s@,
            i <= j <= x.len(),
            forall|k: int| j <= k < x.len() ==> x@[k] == c,
        decreases j - i,
    {
        j -= 1;
    }
    proof {
        lemma_trim_start_skip(s@, c, i as int);
        let t = s@.skip(i as int);
        if t.len() > 0 {
            assert(t[0] == x@[i as int]);
        }
        assert(trim_start(t, c) == t);
        lemma_trim_end_take(t, c, j - i);
        let u = t.take(j - i);
        if u.len() > 0 {
            assert(u.last() == x@[j - 1]);
        }
        assert(trim_end(u, c) == u);
        assert(u == s@.subrange(i as int, j as int));
    }
    s.substring_char(i, j)
}

/// Every occurrence of the character `c` replaced by `r` (`str::replace` with a character).
pub fn replace_char_str(s: &str, c: char, r: &str) -> (out: String)
    ensures
        out@ == replace_char(s@, c, r@),
{
    let x = to_chars(s);
    let mut out = String::new();
    let mut i: usize = 0;
    while i < x.len()
        invariant
            x@ == s@,
            i <= x.len(),
            out@ == replace_char(x@.take(i as int), c, r@),
        decreases x.len() - i,
    {
        proof {
            lemma_replace_char_push(x@.take(i as int), c, r@, x@[i as int]);
            assert(x@.take(i as int).push(x@[i as int]) == x@.take(i + 1));
        }
        if x[i] == c {
            push_str(&mut out, r);
        } else {
            push_char(&mut out, x[i]);
            assert(out@ == replace_char(x@.take(i as int), c, r@) + seq![x@[i as int]]);
        }
        i += 1;
    }
    assert(x@.take(x@.len() as int) == x@);
    out
}

proof fn lemma_replace_all_step(s: Seq<char>, p: Seq<char>, r: Seq<char>, i: int)
    requires
        p.len() > 0,
        0 <= i < s.len(),
    ensures
        s.skip(i).len() >= p.len() && s.skip(i).take(p.len() as int) == p ==>
            replace_all(s.skip(i), p, r) == r + replace_all(s.skip(i + p.len()), p, r),
        !(s.skip(i).len() >= p.len() && s.skip(i).take(p.len() as int) == p) ==>
            replace_all(s.skip(i), p, r) == (if s.skip(i).len() < p.len() {
                s.skip(i)
            } else {
                seq![s[i]] + replace_all(s.skip(i + 1), p, r)
            }),
{
    let t = s.skip(i);
    if t.len() >= p.len() {
        assert(t.skip(p.len() as int) == s.skip(i + p.len()));
        assert(t.drop_first() == s.skip(i + 1));
    }
}

/// Every non-overlapping occurrence of `p` replaced by `r`, scanning left to right
/// (`str::replace` with a non-empty string pattern).
pub fn replace_str(s: &str, p: &str, r: &str) -> (out: String)
    requires
        p@.len() > 0,
    ensures
        out@ == replace_all(s@, p@, r@),
{
    let x = to_chars(s);
    let y = to_chars(p);
    let mut out = String::new();
    let mut i: usize = 0;
    assert(x@.skip(0) == x@);
    while i < x.len()
        invariant
            x@ == s@,
            y@ == p@,
            y@.len() > 0,
            i <= x.len(),
            replace_all(x@, y@, r@) == out@ + replace_all(x@.skip(i as int), y@, r@),
        decreases x.len() - i,
    {
        proof {
            lemma_replace_all_step(x@, y@, r@, i as int);
        }
        if chars_occur_at(x.as_slice(), y.as_slice(), i) {
            proof {
                assert(x@.subrange(i as int, i + y@.len()) == x@.skip(i as int).take(y@.len() as int));
            }
            push_str(&mut out, r);
            i += y.len();
        } else if x.len() - i < y.len() {
            let rest = from_char_range(x.as_slice(), i, x.len());
            push_str(&mut out, rest.as_str());
            proof {
                assert(x@.subrange(i as int, x@.len() as int) == x@.skip(i as int));
                assert(x@.skip(x@.len() as int).len() == 0);
            }
            i = x.len();
        } else {
            proof {
                assert(x@.subrange(i as int, i + y@.len()) == x@.skip(i as int).take(y@.len() as int));
            }
            push_char(&mut out, x[i]);
            i += 1;
        }
    }
    proof {
        assert(x@.skip(x@.len() as int).len() == 0);
        assert(replace_all(x@.skip(x@.len() as int), y@, r@) == x@.skip(x@.len() as int));
        assert(out@ + x@.skip(x@.len() as int) == out@);
    }
    out
}

/// The pieces of `s` between occurrences of `c` (`str::split` with a character).
pub fn split_char_str(s: &str, c: char) -> (r: Vec<String>)
    ensures
        seqs(r@) == split_char(s@, c),
{
    let x = to_chars(s);
    let mut out: Vec<String> = Vec::new();
    let mut cur = String::new();
    let mut i: usize = 0;
    assert(x@.take(0) == Seq::<char>::empty());
    assert(seqs(out@).push(cur@) == split_char(Seq::<char>::empty(), c));
    while i < x.len()
        invariant
            x@ == s@,
            i <= x.len(),
            seqs(out@).push(cur@) == split_char(x@.take(i as int), c),
        decreases x.len() - i,
    {
        proof {
            lemma_split_push(x@.take(i as int), c, x@[i as int]);
            assert(x@.take(i as int).push(x@[i as int]) == x@.take(i + 1));
        }
        let ghost prev = seqs(out@).push(cur@);
        if x[i] == c {
            let done = cur;
            out.push(done);
            cur = String::new();
            proof {
                assert(seqs(out@) == prev);
                assert(seqs(out@).push(cur@) == prev.push(Seq::<char>::empty()));
            }
        } else {
            push_char(&mut cur, x[i]);
            proof {
                assert(seqs(out@).push(cur@) == prev.update(prev.len() - 1, prev.last().push(x@[i as int])));
            }
        }
        i += 1;
    }
    let ghost before = seqs(out@);
    out.push(cur);
    assert(seqs(out@) == before.push(cur@));
    assert(x@.take(x@.len() as int) == x@);
    out
}

/// Whether `a` is at most `b` in lexicographic order.
pub fn chars_lex_le(a: &[char], b: &[char]) -> (r: bool)
    ensures
        r == lex_le(a@, b@),
{
    let mut i: usize = 0;
    assert(a@.skip(0) == a@);
    assert(b@.skip(0) == b@);
    while i < a.len() && i < b.len() && a[i] == b[i]
        invariant
            i <= a.len(),
            i <= b.len(),
            lex_le(a@, b@) == lex_le(a@.skip(i as int), b@.skip(i as int)),
        decreases a.len() - i,
    {
        proof {
            assert(a@.skip(i as int).drop_first() == a@.skip(i + 1));
            assert(b@.skip(i as int).drop_first() == b@.skip(i + 1));
        }
        i += 1;
    }
    if i == a.len() {
        true
    } else if i == b.len() {
        false
    } else {
        assert(a@.skip(i as int)[0] == a@[i as int]);
        assert(b@.skip(i as int)[0] == b@[i as int]);
        a[i] < b[i]
    }
}

/// The strings of a list without repeats, each where it first occurs.
pub open spec fn distinct_in_order(s: Seq<Seq<char>>) -> Seq<Seq<char>>
    decreases s.len(),
{
    if s.len() == 0 {
        Seq::empty()
    } else {
        let d = distinct_in_order(s.drop_last());
        if d.contains(s.last()) {
            d
        } else {
            d.push(s.last())
        }
    }
}

/// A list without repeats holds no string twice, and holds exactly the strings
/// of the list.
pub proof fn lemma_distinct_in_order(s: Seq<Seq<char>>)
    ensures
        distinct_in_order(s).no_duplicates(),
        forall|x: Seq<char>| distinct_in_order(s).contains(x) <==> s.contains(x),
    decreases s.len(),
{
    if s.len() > 0 {
        lemma_distinct_in_order(s.drop_last());
        let d = distinct_in_order(s.drop_last());
        assert forall|x: Seq<char>| distinct_in_order(s).contains(x) <==> s.contains(x) by {
            if s.contains(x) && x != s.last() {
                let j = choose|j: int| 0 <= j < s.len() && s[j] == x;
                assert(s.drop_last()[j] == x);
            }
            if s.drop_last().contains(x) {
                let j = choose|j: int| 0 <= j < s.drop_last().len() && s.drop_last()[j] == x;
                assert(s[j] == x);
            }
            if !d.contains(s.last()) && distinct_in_order(s).contains(x) && x != s.last() {
                let j = choose|j: int| 0 <= j < distinct_in_order(s).len() && distinct_in_order(s)[j] == x;
                assert(d[j] == x);
            }
            if !d.contains(s.last()) && d.contains(x) {
                let j = choose|j: int| 0 <= j < d.len() && d[j] == x;
                assert(distinct_in_order(s)[j] == x);
            }
            if !d.contains(s.last()) && x == s.last() {
                assert(distinct_in_order(s)[d.len() as int] == x);
            }
        }
    }
}

/// The strings of a list without repeats (see [`distinct_in_order`]).
pub fn distinct_strings(v: Vec<String>) -> (r: Vec<String>)
    ensures
        seqs(r@) == distinct_in_order(seqs(v@)),
{
    let mut out: Vec<String> = Vec::new();
    let mut i: usize = 0;
    while i < v.len()
        invariant
            i <= v.len(),
            seqs(out@) == distinct_in_order(seqs(v@).take(i as int)),
        decreases v.len() - i,
    {
        assert(seqs(v@).take(i + 1).drop_last() =~= seqs(v@).take(i as int));
        assert(seqs(v@).take(i + 1).last() == v@[i as int]@);
        if !vec_contains_str(&out, v[i].as_str()) {
            let ghost pre = out@;
            out.push(v[i].clone());
            assert(seqs(out@) =~= seqs(pre).push(v@[i as int]@));
        }
        i += 1;
    }
    assert(seqs(v@).take(v.len() as int) =~= seqs(v@));
    out
}

/// Whether the list holds a string equal to `s`.
pub fn vec_contains_str(v: &Vec<String>, s: &str) -> (r: bool)
    ensures
        r == seqs(v@).contains(s@),
{
    let mut i: usize = 0;
    while i < v.len()
        invariant
            i <= v.len(),
            forall|j: int| 0 <= j < i ==> v@[j]@ != s@,
        decreases v.len() - i,
    {
        if str_eq(v[i].as_str(), s) {
            assert(seqs(v@)[i as int] == s@);
            return true;
        }
        i += 1;
    }
    proof {
        if seqs(v@).contains(s@) {
            let j = choose|j: int| 0 <= j < seqs(v@).len() && seqs(v@)[j] == s@;
            assert(v@[j]@ == s@);
        }
    }
    false
}

/// A copy of a list of strings.
pub fn clone_strings(v: &Vec<String>) -> (r: Vec<String>)
    ensures
        seqs(r@) == seqs(v@),
{
    let mut out: Vec<String> = Vec::new();
    let mut i: usize = 0;
    while i < v.len()
        invariant
            i <= v.len(),
            seqs(out@) == seqs(v@).take(i as int),
        decreases v.len() - i,
    {
        let c = v[i].clone();
        assert(c@ == v@[i as int]@);
        let ghost pre = out@;
        out.push(c);
        i += 1;
        assert(out@ == pre.push(c));
        assert(seqs(out@) == seqs(pre).push(c@));
        assert(seqs(out@) == seqs(v@).take(i as int));
    }
    assert(seqs(v@).take(v@.len() as int) == seqs(v@));
    out
}

/// A copy of an optional string.
pub fn clone_opt(o: &Option<String>) -> (r: Option<String>)
    ensures
        opt_seq(r) == opt_seq(*o),
{
    match o {
        Some(s) => Some(s.clone()),
        None => None,
    }
}

/// The strings joined with `sep` in between (`slice::join`).
pub fn join_str(parts: &Vec<String>, sep: &str) -> (r: String)
    ensures
        r@ == join(seqs(parts@), sep@),
{
    let mut out = String::new();
    let mut i: usize = 0;
    while i < parts.len()
        invariant
            i <= parts.len(),
            out@ == join(seqs(parts@).take(i as int), sep@),
        decreases parts.len() - i,
    {
        let ghost pre = seqs(parts@).take(i as int);
        proof {
            assert(seqs(parts@).take(i + 1).drop_last() == pre);
        }
        if i > 0 {
            push_str(&mut out, sep);
        }
        push_str(&mut out, parts[i].as_str());
        i += 1;
        proof {
            let t = seqs(parts@).take(i as int);
            assert(t.last() == parts@[i - 1]@);
            if i == 1 {
                assert(pre.len() == 0);
                assert(t.len() == 1);
                assert(out@ == t[0]);
            }
        }
    }
    assert(seqs(parts@).take(parts@.len() as int) == seqs(parts@));
    out
}

} // verus!
