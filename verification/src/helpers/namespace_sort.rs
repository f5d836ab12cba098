//! Orderings of namespace lists by length.

use vstd::prelude::*;
use crate::strs::seqs;
use crate::sorting::{is_permutation, stable_order, stably_sorted_by};

verus! {

/// The UTF-8 byte length of each string (what `str::len` reports).
pub open spec fn byte_lens(v: Seq<String>) -> Seq<usize> {
    v.map_values(|s: String| vstd::utf8::encode_utf8(s@).len() as usize)
}

/// `after` holds the strings of `before` in the order of the permutation `p`.
pub open spec fn permuted(before: Seq<String>, after: Seq<String>, p: Seq<usize>) -> bool {
    &&& is_permutation(p, before.len())
    &&& after.len() == before.len()
    &&& forall|k: int| 0 <= k < p.len() ==> after[k]@ == before[p[k] as int]@
}

/// Reorders the strings by byte length, keeping equal lengths in their order.
fn sort_by_len(namespaces: &mut Vec<String>, desc: bool)
    ensures
        exists|p: Seq<usize>| #![trigger is_permutation(p, old(namespaces)@.len())]
            permuted(old(namespaces)@, final(namespaces)@, p)
            && stably_sorted_by(byte_lens(old(namespaces)@), p, desc),
{
    let mut keys: Vec<usize> = Vec::new();
    let mut i: usize = 0;
    while i < namespaces.len()
        invariant
            i <= namespaces.len(),
            keys@.len() == i,
            forall|j: int| 0 <= j < i ==> keys@[j] == byte_lens(namespaces@)[j],
        decreases namespaces.len() - i,
    {
        keys.push(namespaces[i].as_str().len());
        i += 1;
    }
    assert(keys@ =~= byte_lens(namespaces@));
    let p = stable_order(&keys, desc);
    let mut out: Vec<String> = Vec::new();
    let mut k: usize = 0;
    while k < p.len()
        invariant
            is_permutation(p@, namespaces@.len()),
            k <= p.len(),
            out@.len() == k,
            forall|j: int| 0 <= j < k ==> out@[j]@ == namespaces@[p@[j] as int]@,
        decreases p.len() - k,
    {
        out.push(namespaces[p[k]].clone());
        k += 1;
    }
    let ghost pp = p@;
    *namespaces = out;
    assert(permuted(old(namespaces)@, namespaces@, pp));
}

/// Orders namespaces longest first (by byte length), so that a longer namespace is
/// replaced before any namespace it starts with; equal lengths keep their order.
pub fn sort_namespaces_longest_first(namespaces: &mut Vec<String>)
    ensures
        exists|p: Seq<usize>| #![trigger is_permutation(p, old(namespaces)@.len())]
            permuted(old(namespaces)@, final(namespaces)@, p)
            && stably_sorted_by(byte_lens(old(namespaces)@), p, true),
{
    sort_by_len(namespaces, true)
}

/// Orders namespaces shortest first (by byte length); equal lengths keep their order.
pub fn sort_namespaces_shortest_first(namespaces: &mut Vec<String>)
    ensures
        exists|p: Seq<usize>| #![trigger is_permutation(p, old(namespaces)@.len())]
            permuted(old(namespaces)@, final(namespaces)@, p)
            && stably_sorted_by(byte_lens(old(namespaces)@), p, false),
{
    sort_by_len(namespaces, false)
}

/// The view of a list of string pairs.
pub open spec fn pair_views(v: Seq<(String, String)>) -> Seq<(Seq<char>, Seq<char>)> {
    v.map_values(|e: (String, String)| (e.0@, e.1@))
}

/// The UTF-8 byte length of a text.
pub open spec fn utf8_len(s: Seq<char>) -> usize {
    vstd::utf8::encode_utf8(s).len() as usize
}

/// `after` holds the pairs of `before` in the order of the permutation `p`.
pub open spec fn pairs_permuted(before: Seq<(Seq<char>, Seq<char>)>, after: Seq<(Seq<char>, Seq<char>)>, p: Seq<usize>) -> bool {
    &&& is_permutation(p, before.len())
    &&& after.len() == before.len()
    &&& forall|k: int| 0 <= k < p.len() ==> after[k] == before[p[k] as int]
}

/// `after` is `before` stably sorted by the byte length of the first texts,
/// descending when `desc` holds.
pub open spec fn pairs_sorted_by_len(before: Seq<(Seq<char>, Seq<char>)>, after: Seq<(Seq<char>, Seq<char>)>, desc: bool) -> bool {
    exists|p: Seq<usize>| #![trigger is_permutation(p, before.len())]
        pairs_permuted(before, after, p) && stably_sorted_by(before.map_values(|e: (Seq<char>, Seq<char>)| utf8_len(e.0)), p, desc)
}

/// Reorders string pairs by the byte length of their first strings, keeping equal
/// lengths in their order.
pub fn sort_pairs_by_len(pairs: &[(String, String)], desc: bool) -> (r: Vec<(String, String)>)
    ensures
        pairs_sorted_by_len(pair_views(pairs@), pair_views(r@), desc),
{
    let mut keys: Vec<usize> = Vec::new();
    let mut i: usize = 0;
    while i < pairs.len()
        invariant
            i <= pairs.len(),
            keys@.len() == i,
            forall|j: int| 0 <= j < i ==> keys@[j] == utf8_len(pairs@[j].0@),
        decreases pairs.len() - i,
    {
        keys.push(pairs[i].0.as_str().len());
        i += 1;
    }
    assert(keys@ =~= pair_views(pairs@).map_values(|e: (Seq<char>, Seq<char>)| utf8_len(e.0)));
    let p = stable_order(&keys, desc);
    let mut out: Vec<(String, String)> = Vec::new();
    let mut k: usize = 0;
    while k < p.len()
        invariant
            is_permutation(p@, pairs@.len()),
            k <= p.len(),
            out@.len() == k,
            forall|j: int| 0 <= j < k ==> out@[j].0@ == pairs@[p@[j] as int].0@ && out@[j].1@ == pairs@[p@[j] as int].1@,
        decreases p.len() - k,
    {
        out.push((pairs[p[k]].0.clone(), pairs[p[k]].1.clone()));
        k += 1;
    }
    assert(pairs_permuted(pair_views(pairs@), pair_views(out@), p@));
    out
}

} // verus!
