//! A cache of compiled `fancy_regex` patterns, each compiled once under a key.

use vstd::prelude::*;
use crate::strs::str_eq;

verus! {

#[verifier::external_type_specification]
#[verifier::external_body]
pub struct ExFancyRegex(fancy_regex::Regex);

/// Whether a pattern compiles with `fancy_regex::Regex::new`.
pub uninterp spec fn fancy_compiles(pattern: Seq<char>) -> bool;

/// Whether a compiled pattern matches somewhere in a text
/// (`fancy_regex::Regex::is_match`); none when the matcher reports an error.
pub uninterp spec fn fancy_match(pattern: Seq<char>, text: Seq<char>) -> Option<bool>;

/// Why a cached pattern could not be had or used.
#[derive(Debug, Clone, Copy, PartialEq, Eq, Structural)]
pub enum RegexCacheError {
    /// The pattern does not compile.
    InvalidPattern,
    /// The matcher reported an error.
    MatchFailed,
}

/// A compiled pattern, with the pattern text it was compiled from.
pub struct FancyRegex {
    pattern: String,
    regex: fancy_regex::Regex,
}

/// Calls `fancy_regex::Regex::new`. Claims that it succeeds exactly when the
/// pattern compiles, and that the result remembers the pattern.
#[verifier::external_body]
fn compile_fancy(pattern: &str) -> (r: Option<FancyRegex>)
    ensures
        r is Some == fancy_compiles(pattern@),
        r matches Some(c) ==> c.pattern() == pattern@,
{
    match fancy_regex::Regex::new(pattern) {
        Ok(regex) => Some(FancyRegex { pattern: pattern.to_string(), regex }),
        Err(_) => None,
    }
}

/// Calls `Clone::clone` on a `fancy_regex::Regex`. Nothing is claimed of the
/// copy: the pattern it is kept with is copied by verified code.
#[verifier::external_body]
fn clone_compiled(re: &fancy_regex::Regex) -> (r: fancy_regex::Regex) {
    re.clone()
}

/// Calls `fancy_regex::Regex::is_match`. Claims that the outcome is the named
/// match test of the pattern on the text, an error when that test gives none.
#[verifier::external_body]
fn fancy_is_match(re: &FancyRegex, text: &str) -> (r: Option<bool>)
    ensures
        r == fancy_match(re.pattern(), text@),
{
    re.regex.is_match(text).ok()
}

impl FancyRegex {
    /// The pattern this expression was compiled from.
    pub closed spec fn pattern(&self) -> Seq<char> {
        self.pattern@
    }

    /// The pattern text.
    pub fn as_str(&self) -> (r: &str)
        ensures
            r@ == self.pattern(),
    {
        self.pattern.as_str()
    }

    /// Whether the pattern matches somewhere in the text (see [`fancy_match`]);
    /// an error when the matcher reports one.
    pub fn is_match(&self, text: &str) -> (r: Result<bool, RegexCacheError>)
        ensures
            match fancy_match(self.pattern(), text@) {
                Some(b) => r == Ok::<bool, RegexCacheError>(b),
                None => r == Err::<bool, RegexCacheError>(RegexCacheError::MatchFailed),
            },
    {
        match fancy_is_match(self, text) {
            Some(b) => Ok(b),
            None => Err(RegexCacheError::MatchFailed),
        }
    }

    /// A copy of the compiled pattern.
    pub fn copy(&self) -> (r: FancyRegex)
        ensures
            r.pattern() == self.pattern(),
    {
        FancyRegex { pattern: self.pattern.clone(), regex: clone_compiled(&self.regex) }
    }
}

/// The patterns held under their keys.
pub open spec fn entries_map(s: Seq<(Seq<char>, Seq<char>)>) -> Map<Seq<char>, Seq<char>>
    decreases s.len(),
{
    if s.len() == 0 {
        Map::empty()
    } else {
        entries_map(s.drop_last()).insert(s.last().0, s.last().1)
    }
}

/// No key is held twice.
pub open spec fn keys_distinct(s: Seq<(Seq<char>, Seq<char>)>) -> bool {
    forall|a: int, b: int| 0 <= a < b < s.len() ==> s[a].0 != s[b].0
}

proof fn lemma_entries(s: Seq<(Seq<char>, Seq<char>)>)
    requires
        keys_distinct(s),
    ensures
        entries_map(s).dom().finite(),
        entries_map(s).len() == s.len(),
        forall|i: int| 0 <= i < s.len() ==> entries_map(s).contains_key(#[trigger] s[i].0)
            && entries_map(s)[s[i].0] == s[i].1,
        forall|k: Seq<char>| entries_map(s).contains_key(k) ==> exists|i: int| 0 <= i < s.len() && #[trigger] s[i].0 == k,
    decreases s.len(),
{
    if s.len() > 0 {
        let p = s.drop_last();
        assert(keys_distinct(p));
        lemma_entries(p);
        assert(!entries_map(p).contains_key(s.last().0)) by {
            if entries_map(p).contains_key(s.last().0) {
                let i = choose|i: int| 0 <= i < p.len() && #[trigger] p[i].0 == s.last().0;
                assert(s[i].0 == s[s.len() - 1].0);
            }
        }
        assert forall|i: int| 0 <= i < s.len() implies entries_map(s).contains_key(#[trigger] s[i].0)
            && entries_map(s)[s[i].0] == s[i].1 by {
            if i < s.len() - 1 {
                assert(p[i] == s[i]);
                assert(s[i].0 != s[s.len() - 1].0);
            }
        }
        assert forall|k: Seq<char>| entries_map(s).contains_key(k) implies exists|i: int| 0 <= i < s.len() && #[trigger] s[i].0 == k by {
            if k != s.last().0 {
                let i = choose|i: int| 0 <= i < p.len() && #[trigger] p[i].0 == k;
                assert(s[i] == p[i]);
            } else {
                assert(s[s.len() - 1].0 == k);
            }
        }
    }
}

/// A cache of compiled patterns by key.
pub struct RegexCache {
    entries: Vec<(String, FancyRegex)>,
}

impl RegexCache {
    /// The keys with the patterns held, in the order added.
    pub closed spec fn entries_view(&self) -> Seq<(Seq<char>, Seq<char>)> {
        self.entries@.map_values(|e: (String, FancyRegex)| (e.0@, e.1.pattern()))
    }

    /// No key is held twice.
    #[verifier::type_invariant]
    closed spec fn inv(&self) -> bool {
        keys_distinct(self.entries_view())
    }

    /// The patterns held, by key.
    pub closed spec fn cached(&self) -> Map<Seq<char>, Seq<char>> {
        entries_map(self.entries_view())
    }

    /// An empty cache.
    pub fn new() -> (r: Self)
        ensures
            r.cached() == Map::<Seq<char>, Seq<char>>::empty(),
    {
        let r = RegexCache { entries: Vec::new() };
        assert(r.entries_view() =~= Seq::<(Seq<char>, Seq<char>)>::empty());
        r
    }

    /// The position of the key, when it is held.
    fn position(&self, key: &str) -> (r: Option<usize>)
        ensures
            match r {
                Some(i) => i < self.entries@.len() && self.entries_view()[i as int].0 == key@,
                None => forall|i: int| 0 <= i < self.entries@.len() ==> self.entries_view()[i].0 != key@,
            },
    {
        let mut i: usize = 0;
        while i < self.entries.len()
            invariant
                i <= self.entries@.len(),
                forall|j: int| 0 <= j < i ==> self.entries_view()[j].0 != key@,
            decreases self.entries.len() - i,
        {
            if str_eq(self.entries[i].0.as_str(), key) {
                return Some(i);
            }
            i += 1;
        }
        None
    }

    /// Adds a pattern under a key that is not held.
    fn insert_new(&mut self, key: &str, re: FancyRegex)
        requires
            !old(self).cached().contains_key(key@),
        ensures
            final(self).cached() == old(self).cached().insert(key@, re.pattern()),
    {
        proof {
            use_type_invariant(&*self);
            lemma_entries(self.entries_view());
        }
        let ghost before = self.entries_view();
        assert forall|i: int| 0 <= i < before.len() implies before[i].0 != key@ by {
            assert(self.cached().contains_key(before[i].0));
        }
        let mut entries: Vec<(String, FancyRegex)> = Vec::new();
        std::mem::swap(&mut entries, &mut self.entries);
        entries.push((key.to_owned(), re));
        let ghost after = entries@.map_values(|e: (String, FancyRegex)| (e.0@, e.1.pattern()));
        assert(after =~= before.push((key@, re.pattern())));
        assert(after.drop_last() =~= before);
        assert(keys_distinct(after));
        self.entries = entries;
        assert(self.entries_view() == after);
    }

    /// The compiled pattern under the key, compiled from `pattern` and kept
    /// when the key is new; the one held is given back when the key is known
    /// (whatever `pattern` says). An error, and nothing kept, when a new pattern
    /// does not compile.
    pub fn get_or_compile(&mut self, key: &str, pattern: &str) -> (r: Result<FancyRegex, RegexCacheError>)
        ensures
            final(self).cached() == cache_after(old(self).cached(), key@, pattern@),
            r matches Ok(x) ==> x.pattern() == final(self).cached()[key@],
            old(self).cached().contains_key(key@) ==> final(self).cached() == old(self).cached()
                && (r matches Ok(x) && x.pattern() == old(self).cached()[key@]),
            !old(self).cached().contains_key(key@) && fancy_compiles(pattern@) ==> final(self).cached()
                == old(self).cached().insert(key@, pattern@) && (r matches Ok(x) && x.pattern() == pattern@),
            !old(self).cached().contains_key(key@) && !fancy_compiles(pattern@) ==> final(self).cached()
                == old(self).cached() && r == Err::<FancyRegex, RegexCacheError>(RegexCacheError::InvalidPattern),
    {
        proof {
            use_type_invariant(&*self);
            lemma_entries(self.entries_view());
        }
        match self.position(key) {
            Some(i) => {
                return Ok(self.entries[i].1.copy());
            },
            None => {},
        }
        proof {
            if self.cached().contains_key(key@) {
                let i = choose|i: int| 0 <= i < self.entries_view().len() && #[trigger] self.entries_view()[i].0 == key@;
            }
        }
        match compile_fancy(pattern) {
            Some(re) => {
                let copy = re.copy();
                self.insert_new(key, re);
                Ok(copy)
            },
            None => Err(RegexCacheError::InvalidPattern),
        }
    }

    /// Compiles and keeps each pattern whose key is not yet held, in order; the
    /// first pattern that does not compile stops the work with an error, what was
    /// kept before it staying (see [`precompiled`]).
    pub fn precompile(&mut self, patterns: &[(&str, &str)]) -> (r: Result<(), RegexCacheError>)
        ensures
            (final(self).cached(), r is Ok) == precompiled(old(self).cached(), pattern_views(patterns@)),
            r matches Err(e) ==> e == RegexCacheError::InvalidPattern,
    {
        let ghost ps = pattern_views(patterns@);
        let mut k: usize = 0;
        assert(ps.take(0) =~= Seq::<(Seq<char>, Seq<char>)>::empty());
        while k < patterns.len()
            invariant
                ps == pattern_views(patterns@),
                k <= ps.len(),
                precompiled(old(self).cached(), ps.take(k as int)) == (self.cached(), true),
            decreases patterns.len() - k,
        {
            assert(ps.take(k + 1).drop_last() =~= ps.take(k as int));
            assert(ps.take(k + 1).last() == (patterns@[k as int].0@, patterns@[k as int].1@));
            let (key, pattern) = patterns[k];
            proof {
                use_type_invariant(&*self);
                lemma_entries(self.entries_view());
            }
            let found = self.position(key);
            proof {
                if self.cached().contains_key(key@) {
                    let i = choose|i: int| 0 <= i < self.entries_view().len() && #[trigger] self.entries_view()[i].0 == key@;
                }
                if found is Some {
                    assert(self.cached().contains_key(self.entries_view()[found->0 as int].0));
                }
            }
            if found.is_none() {
                match compile_fancy(pattern) {
                    Some(re) => {
                        self.insert_new(key, re);
                    },
                    None => {
                        proof {
                            lemma_precompiled_failure_stays(old(self).cached(), ps, k as int + 1);
                        }
                        return Err(RegexCacheError::InvalidPattern);
                    },
                }
            }
            k += 1;
        }
        assert(ps.take(ps.len() as int) =~= ps);
        Ok(())
    }

    /// The number of patterns held.
    pub fn len(&self) -> (r: usize)
        ensures
            r == self.cached().len(),
    {
        proof {
            use_type_invariant(self);
            lemma_entries(self.entries_view());
        }
        self.entries.len()
    }

    /// Whether no pattern is held.
    pub fn is_empty(&self) -> (r: bool)
        ensures
            r == (self.cached().len() == 0),
    {
        proof {
            use_type_invariant(self);
            lemma_entries(self.entries_view());
        }
        self.entries.len() == 0
    }
}

/// The views of key/pattern pairs.
pub open spec fn pattern_views(v: Seq<(&str, &str)>) -> Seq<(Seq<char>, Seq<char>)> {
    v.map_values(|p: (&str, &str)| (p.0@, p.1@))
}

/// The patterns held after precompiling the pairs one after the other, and
/// whether all went well: a known key is passed over, a new one is compiled and
/// kept, and the first pattern that does not compile stops the work.
pub open spec fn precompiled(m: Map<Seq<char>, Seq<char>>, ps: Seq<(Seq<char>, Seq<char>)>) -> (Map<Seq<char>, Seq<char>>, bool)
    decreases ps.len(),
{
    if ps.len() == 0 {
        (m, true)
    } else {
        let (m1, ok) = precompiled(m, ps.drop_last());
        let (key, pattern) = ps.last();
        if !ok {
            (m1, false)
        } else if m1.contains_key(key) {
            (m1, true)
        } else if fancy_compiles(pattern) {
            (m1.insert(key, pattern), true)
        } else {
            (m1, false)
        }
    }
}

/// Once the work has stopped, later pairs change nothing.
proof fn lemma_precompiled_failure_stays(m: Map<Seq<char>, Seq<char>>, ps: Seq<(Seq<char>, Seq<char>)>, n: int)
    requires
        0 < n <= ps.len(),
        !precompiled(m, ps.take(n)).1,
    ensures
        precompiled(m, ps) == precompiled(m, ps.take(n)),
    decreases ps.len() - n,
{
    if n < ps.len() {
        assert(ps.drop_last().take(n) =~= ps.take(n));
        lemma_precompiled_failure_stays(m, ps.drop_last(), n);
    } else {
        assert(ps.take(n) =~= ps);
    }
}

/// The patterns held after asking for a key with a pattern: unchanged when the
/// key is held or the pattern does not compile; otherwise the pattern is added
/// under the key.
pub open spec fn cache_after(m: Map<Seq<char>, Seq<char>>, key: Seq<char>, pattern: Seq<char>) -> Map<Seq<char>, Seq<char>> {
    if m.contains_key(key) {
        m
    } else if fancy_compiles(pattern) {
        m.insert(key, pattern)
    } else {
        m
    }
}

/// Asking twice for a key compiles at most once: the second request changes
/// nothing and gives the pattern of the first, whatever pattern it names.
pub proof fn law_compiled_once(m: Map<Seq<char>, Seq<char>>, key: Seq<char>, first: Seq<char>, second: Seq<char>)
    requires
        m.contains_key(key) || fancy_compiles(first),
    ensures
        cache_after(cache_after(m, key, first), key, second) == cache_after(m, key, first),
        cache_after(m, key, first).contains_key(key),
        cache_after(m, key, first)[key] == if m.contains_key(key) { m[key] } else { first },
{
}

} // verus!
