//! The in-place replace command: one namespace renamed in a project's PHP files.
//!
//! Which directories are searched, and what each file's text becomes, are decided
//! here; reading and writing the files is left to the caller.

use vstd::prelude::*;
use crate::helpers::filesystem::{join_path, joined};
use crate::helpers::namespace_sort::{pairs_permuted, pairs_sorted_by_len};
use crate::replacer::namespace_replacer::{sorted_namespaces_outcome, NamespaceReplacer};
use crate::sorting::is_permutation;

verus! {

/// Why the replace command stops.
#[derive(Debug, Clone, Copy, PartialEq, Eq, Structural)]
pub enum ReplaceCommandError {
    /// The searcher for the namespace could not be built.
    Searcher,
}

/// What the replace command makes of one file's text: every occurrence of `from`,
/// and of its doubled-backslash spelling inside string literals, becomes `to`
/// (see [`sorted_namespaces_outcome`]); an error when the searcher cannot be
/// built.
pub open spec fn replaced_text(contents: Seq<char>, from: Seq<char>, to: Seq<char>) -> Result<Seq<char>, ReplaceCommandError> {
    match sorted_namespaces_outcome(seq![(from, to)], contents) {
        Ok(t) => Ok(t),
        Err(_) => Err(ReplaceCommandError::Searcher),
    }
}

/// A single change is its own sorted order.
proof fn lemma_single_change_sorted(x: (Seq<char>, Seq<char>), s: Seq<(Seq<char>, Seq<char>)>)
    requires
        pairs_sorted_by_len(seq![x], s, true),
    ensures
        s == seq![x],
{
    let p = choose|p: Seq<usize>| #![trigger is_permutation(p, seq![x].len())]
        pairs_permuted(seq![x], s, p) && crate::sorting::stably_sorted_by(
            seq![x].map_values(|e: (Seq<char>, Seq<char>)| crate::helpers::namespace_sort::utf8_len(e.0)), p, true);
    assert(p[0] < 1);
    assert(s[0] == seq![x][p[0] as int]);
    assert(s =~= seq![x]);
}

/// Runs the replace command on one PHP file's text (see [`replaced_text`]).
pub fn run_replace(contents: &str, from: &str, to: &str) -> (r: Result<String, ReplaceCommandError>)
    ensures
        match r {
            Ok(t) => replaced_text(contents@, from@, to@) == Ok::<Seq<char>, ReplaceCommandError>(t@),
            Err(e) => replaced_text(contents@, from@, to@) == Err::<Seq<char>, ReplaceCommandError>(e),
        },
{
    let replacer = NamespaceReplacer::new();
    let out = replacer.replace_namespace(contents, from, to);
    proof {
        let s = choose|s: Seq<(Seq<char>, Seq<char>)>| #[trigger] pairs_sorted_by_len(seq![(from@, to@)], s, true)
            && crate::replacer::result_view(out) == sorted_namespaces_outcome(s, contents@);
        lemma_single_change_sorted((from@, to@), s);
    }
    match out {
        Ok(t) => Ok(t),
        Err(_) => Err(ReplaceCommandError::Searcher),
    }
}

/// The directories the replace command searches: each given path under the
/// working directory, or the working directory itself when none is given.
pub open spec fn replace_roots_of(working_dir: Seq<char>, paths: Option<Seq<Seq<char>>>) -> Seq<Seq<char>> {
    match paths {
        Some(ps) => ps.map_values(|p: Seq<char>| joined(working_dir, p)),
        None => seq![working_dir],
    }
}

/// The directories the replace command searches (see [`replace_roots_of`]).
pub fn replace_roots(working_dir: &str, paths: Option<&[String]>) -> (r: Vec<String>)
    ensures
        crate::strs::seqs(r@) == replace_roots_of(working_dir@, match paths {
            Some(ps) => Some(crate::strs::seqs(ps@)),
            None => None,
        }),
{
    match paths {
        None => {
            let r = vec![crate::strs::to_owned(working_dir)];
            assert(crate::strs::seqs(r@) =~= seq![working_dir@]);
            r
        },
        Some(ps) => {
            let ghost want = crate::strs::seqs(ps@).map_values(|p: Seq<char>| joined(working_dir@, p));
            let mut out: Vec<String> = Vec::new();
            let mut i: usize = 0;
            while i < ps.len()
                invariant
                    i <= ps@.len(),
                    want == crate::strs::seqs(ps@).map_values(|p: Seq<char>| joined(working_dir@, p)),
                    crate::strs::seqs(out@) == want.take(i as int),
                decreases ps.len() - i,
            {
                let j = join_path(working_dir, ps[i].as_str());
                let ghost before = out@;
                out.push(j);
                assert(crate::strs::seqs(out@) =~= crate::strs::seqs(before).push(j@));
                assert(want.take(i + 1) =~= want.take(i as int).push(want[i as int]));
                i += 1;
            }
            assert(want.take(ps@.len() as int) =~= want);
            out
        },
    }
}

} // verus!
