//! Stable orderings: permutations of indices that sort a list of keys.

use vstd::prelude::*;
use crate::strs::{chars_lex_le, lex_le};

verus! {

/// `p` is a permutation of `0..n`.
pub open spec fn is_permutation(p: Seq<usize>, n: nat) -> bool {
    &&& p.len() == n
    &&& forall|k: int| 0 <= k < p.len() ==> p[k] < n
    &&& forall|a: int, b: int| 0 <= a < b < p.len() ==> p[a] != p[b]
}

/// The key order used to sort: ascending, or descending when `desc` holds.
pub open spec fn key_le(x: usize, y: usize, desc: bool) -> bool {
    if desc {
        y <= x
    } else {
        x <= y
    }
}

/// `p` lists the indices of `keys` in key order, and indices of equal keys in their
/// original order.
pub open spec fn stably_sorted_by(keys: Seq<usize>, p: Seq<usize>, desc: bool) -> bool {
    &&& forall|a: int, b: int| 0 <= a < b < p.len() ==> key_le(keys[p[a] as int], keys[p[b] as int], desc)
    &&& forall|a: int, b: int| 0 <= a < b < p.len() && keys[p[a] as int] == keys[p[b] as int] ==> p[a] < p[b]
}

/// Whether `x` must move after `y` in the key order.
fn out_of_order(x: usize, y: usize, desc: bool) -> (r: bool)
    ensures
        r == !key_le(x, y, desc),
{
    if desc {
        x < y
    } else {
        y < x
    }
}

/// The identity permutation of `0..n`.
fn identity(n: usize) -> (p: Vec<usize>)
    ensures
        is_permutation(p@, n as nat),
        forall|k: int| 0 <= k < n ==> p@[k] == k,
{
    let mut p: Vec<usize> = Vec::new();
    let mut i: usize = 0;
    while i < n
        invariant
            i <= n,
            p@.len() == i,
            forall|k: int| 0 <= k < i ==> p@[k] == k,
        decreases n - i,
    {
        p.push(i);
        i += 1;
    }
    p
}

/// The stable sorting permutation of integer keys, ascending or descending
/// (the order in which a stable sort by key would place the items).
pub fn stable_order(keys: &Vec<usize>, desc: bool) -> (p: Vec<usize>)
    ensures
        is_permutation(p@, keys@.len()),
        stably_sorted_by(keys@, p@, desc),
{
    let n = keys.len();
    let mut p = identity(n);
    if n == 0 {
        return p;
    }
    let mut i: usize = 1;
    while i < n
        invariant
            n == keys@.len(),
            1 <= i <= n,
            is_permutation(p@, n as nat),
            forall|a: int, b: int| 0 <= a < b < i ==> key_le(keys@[p@[a] as int], keys@[p@[b] as int], desc),
            forall|a: int, b: int| 0 <= a < b < n && keys@[p@[a] as int] == keys@[p@[b] as int] ==> p@[a] < p@[b],
        decreases n - i,
    {
        let mut j: usize = i;
        while j > 0 && out_of_order(keys[p[j - 1]], keys[p[j]], desc)
            invariant
                n == keys@.len(),
                1 <= i < n,
                j <= i,
                is_permutation(p@, n as nat),
                forall|a: int, b: int| 0 <= a < b <= i && a != j && b != j ==> key_le(keys@[p@[a] as int], keys@[p@[b] as int], desc),
                forall|b: int| j < b <= i ==> !key_le(keys@[p@[b] as int], keys@[p@[j as int] as int], desc),
                forall|a: int, b: int| 0 <= a < j < b <= i ==> key_le(keys@[p@[a] as int], keys@[p@[b] as int], desc),
                forall|a: int, b: int| 0 <= a < b < n && keys@[p@[a] as int] == keys@[p@[b] as int] ==> p@[a] < p@[b],
            decreases j,
        {
            let x = p[j - 1];
            let y = p[j];
            let ghost old_p = p@;
            p.set(j - 1, y);
            p.set(j, x);
            proof {
                assert forall|a: int, b: int| 0 <= a < b < p@.len() implies p@[a] != p@[b] by {
                    if a == j - 1 || a == j || b == j - 1 || b == j {
                    }
                }
            }
            j -= 1;
        }
        proof {
            assert forall|a: int, b: int| 0 <= a < b <= i implies key_le(keys@[p@[a] as int], keys@[p@[b] as int], desc) by {
                if b == j && a < j - 1 {
                    assert(key_le(keys@[p@[a] as int], keys@[p@[j - 1] as int], desc));
                }
            }
        }
        i += 1;
    }
    p
}

/// Lexicographic order is total.
pub proof fn lemma_lex_total(a: Seq<char>, b: Seq<char>)
    ensures
        lex_le(a, b) || lex_le(b, a),
    decreases a.len(),
{
    if a.len() > 0 && b.len() > 0 && a[0] == b[0] {
        lemma_lex_total(a.drop_first(), b.drop_first());
    }
}

/// Lexicographic order is transitive.
pub proof fn lemma_lex_trans(a: Seq<char>, b: Seq<char>, c: Seq<char>)
    requires
        lex_le(a, b),
        lex_le(b, c),
    ensures
        lex_le(a, c),
    decreases a.len(),
{
    if a.len() > 0 && b.len() > 0 && c.len() > 0 && a[0] == b[0] && b[0] == c[0] {
        lemma_lex_trans(a.drop_first(), b.drop_first(), c.drop_first());
    }
}

/// Lexicographic order is antisymmetric.
pub proof fn lemma_lex_antisym(a: Seq<char>, b: Seq<char>)
    requires
        lex_le(a, b),
        lex_le(b, a),
    ensures
        a == b,
    decreases a.len(),
{
    if a.len() > 0 && b.len() > 0 {
        lemma_lex_antisym(a.drop_first(), b.drop_first());
        assert(a =~= seq![a[0]] + a.drop_first());
        assert(b =~= seq![b[0]] + b.drop_first());
    }
}

/// `p` lists the indices of `keys` in lexicographic key order.
pub open spec fn lex_sorted_by(keys: Seq<Seq<char>>, p: Seq<usize>) -> bool {
    forall|a: int, b: int| 0 <= a < b < p.len() ==> lex_le(keys[p[a] as int], keys[p[b] as int])
}

/// The sorting permutation of string keys in lexicographic order.
pub fn lex_order(keys: &Vec<Vec<char>>) -> (p: Vec<usize>)
    ensures
        is_permutation(p@, keys@.len()),
        lex_sorted_by(keys@.map_values(|k: Vec<char>| k@), p@),
{
    let ghost ks = keys@.map_values(|k: Vec<char>| k@);
    let n = keys.len();
    let mut p = identity(n);
    if n == 0 {
        return p;
    }
    let mut i: usize = 1;
    while i < n
        invariant
            n == keys@.len(),
            ks == keys@.map_values(|k: Vec<char>| k@),
            1 <= i <= n,
            is_permutation(p@, n as nat),
            forall|a: int, b: int| 0 <= a < b < i ==> lex_le(ks[p@[a] as int], ks[p@[b] as int]),
        decreases n - i,
    {
        let mut j: usize = i;
        while j > 0 && !chars_lex_le(keys[p[j - 1]].as_slice(), keys[p[j]].as_slice())
            invariant
                n == keys@.len(),
                ks == keys@.map_values(|k: Vec<char>| k@),
                1 <= i < n,
                j <= i,
                is_permutation(p@, n as nat),
                forall|a: int, b: int| 0 <= a < b <= i && a != j && b != j ==> lex_le(ks[p@[a] as int], ks[p@[b] as int]),
                forall|b: int| j < b <= i ==> !lex_le(ks[p@[b] as int], ks[p@[j as int] as int]),
                forall|a: int, b: int| 0 <= a < j < b <= i ==> lex_le(ks[p@[a] as int], ks[p@[b] as int]),
            decreases j,
        {
            let x = p[j - 1];
            let y = p[j];
            p.set(j - 1, y);
            p.set(j, x);
            proof {
                assert forall|a: int, b: int| 0 <= a < b < p@.len() implies p@[a] != p@[b] by {
                    if a == j - 1 || a == j || b == j - 1 || b == j {
                    }
                }
            }
            j -= 1;
        }
        proof {
            assert forall|a: int, b: int| 0 <= a < b <= i implies lex_le(ks[p@[a] as int], ks[p@[b] as int]) by {
                if a == j {
                    if j > 0 {
                    }
                    lemma_lex_total(ks[p@[a] as int], ks[p@[b] as int]);
                } else if b == j {
                    lemma_lex_total(ks[p@[a] as int], ks[p@[b] as int]);
                    if a < j - 1 {
                        lemma_lex_trans(ks[p@[a] as int], ks[p@[j - 1] as int], ks[p@[b] as int]);
                    }
                }
            }
        }
        i += 1;
    }
    p
}

} // verus!
