//! Renaming functions, making relative namespaces absolute, and prefixing fully
//! qualified constant references, at positions read from the parse tree.
//!
//! Each operation collects edits (a character range and its new text) while
//! walking the tree in pre-order, orders them by start, last first, and applies
//! them one after the other to the text.

use vstd::prelude::*;
use crate::parser::php_parser::{php_syntax_of, PhpParser, SyntaxNode, SyntaxTree, tree_wf};
use crate::replacer::ReplaceError;
use crate::sorting::{is_permutation, stable_order, stably_sorted_by};
use crate::strs::{
    concat3, contains_char, from_char_range, join, join_str, opt_seq, replace_all, seqs, split_char, split_char_str,
    starts_with, str_eq, to_chars, to_owned, trim_both, trim_char, trim_start, trim_start_char, vec_contains_str,
};

verus! {

// ---------------------------------------------------------------------------
// Edits
// ---------------------------------------------------------------------------

/// An edit: the characters from the first position to the second become the text.
pub type EditView = (usize, usize, Seq<char>);

/// The view of a list of edits.
pub open spec fn edit_views(v: Seq<(usize, usize, String)>) -> Seq<EditView> {
    v.map_values(|e: (usize, usize, String)| (e.0, e.1, e.2@))
}

/// Where each edit starts.
pub open spec fn edit_starts(v: Seq<EditView>) -> Seq<usize> {
    v.map_values(|e: EditView| e.0)
}

/// `s` lists the edits of `v` in the order given by the permutation `p`.
pub open spec fn permuted_by(v: Seq<EditView>, p: Seq<usize>, s: Seq<EditView>) -> bool {
    &&& s.len() == p.len()
    &&& forall|k: int| 0 <= k < p.len() ==> s[k] == v[p[k] as int]
}

/// `s` is `v` stably sorted by start, the last start first (edits that start at
/// the same place keep their order).
pub open spec fn sorted_by_start_desc(v: Seq<EditView>, s: Seq<EditView>) -> bool {
    exists|p: Seq<usize>|
        #[trigger] is_permutation(p, v.len()) && stably_sorted_by(edit_starts(v), p, true) && permuted_by(v, p, s)
}

/// The edits without those equal to the one just before.
pub open spec fn dedup_adjacent(s: Seq<EditView>) -> Seq<EditView>
    decreases s.len(),
{
    if s.len() <= 1 {
        s
    } else {
        let d = dedup_adjacent(s.drop_last());
        if s.last() == s[s.len() - 2] {
            d
        } else {
            d.push(s.last())
        }
    }
}

/// The text after the edits, applied one after the other; an edit whose range
/// does not lie in the text as it stands is passed over.
pub open spec fn apply_edits(text: Seq<char>, edits: Seq<EditView>) -> Seq<char>
    decreases edits.len(),
{
    if edits.len() == 0 {
        text
    } else {
        let cur = apply_edits(text, edits.drop_last());
        let (s, e, r) = edits.last();
        if s <= e && e <= cur.len() {
            cur.take(s as int) + r + cur.skip(e as int)
        } else {
            cur
        }
    }
}

/// The edits stably sorted by start, last first.
fn sort_edits_desc(v: &Vec<(usize, usize, String)>) -> (r: Vec<(usize, usize, String)>)
    ensures
        sorted_by_start_desc(edit_views(v@), edit_views(r@)),
{
    let mut keys: Vec<usize> = Vec::new();
    let mut i: usize = 0;
    while i < v.len()
        invariant
            i <= v@.len(),
            keys@.len() == i,
            forall|k: int| 0 <= k < i ==> keys@[k] == v@[k].0,
        decreases v.len() - i,
    {
        keys.push(v[i].0);
        i += 1;
    }
    assert(keys@ =~= edit_starts(edit_views(v@)));
    let p = stable_order(&keys, true);
    let mut out: Vec<(usize, usize, String)> = Vec::new();
    let mut k: usize = 0;
    while k < p.len()
        invariant
            is_permutation(p@, keys@.len()),
            keys@.len() == v@.len(),
            k <= p@.len(),
            out@.len() == k,
            forall|j: int| 0 <= j < k ==> edit_views(out@)[j] == edit_views(v@)[p@[j] as int],
        decreases p.len() - k,
    {
        let j = p[k];
        let ghost before = out@;
        out.push((v[j].0, v[j].1, v[j].2.clone()));
        assert forall|x: int| 0 <= x <= k implies edit_views(out@)[x] == edit_views(v@)[p@[x] as int] by {
            if x < k {
                assert(out@[x] == before[x]);
                assert(edit_views(before)[x] == edit_views(v@)[p@[x] as int]);
            }
        }
        k += 1;
    }
    assert(permuted_by(edit_views(v@), p@, edit_views(out@)));
    out
}

/// The edits without those equal to the one just before.
fn dedup_edits(v: &Vec<(usize, usize, String)>) -> (r: Vec<(usize, usize, String)>)
    ensures
        edit_views(r@) == dedup_adjacent(edit_views(v@)),
{
    let ghost vs = edit_views(v@);
    let mut out: Vec<(usize, usize, String)> = Vec::new();
    let mut k: usize = 0;
    assert(vs.take(0) =~= Seq::<EditView>::empty());
    assert(edit_views(out@) =~= Seq::<EditView>::empty());
    while k < v.len()
        invariant
            vs == edit_views(v@),
            k <= v@.len(),
            edit_views(out@) == dedup_adjacent(vs.take(k as int)),
            k > 0 ==> out@.len() > 0 && edit_views(out@).last() == vs[k - 1],
        decreases v.len() - k,
    {
        let ghost before = out@;
        assert(vs.take(k + 1).drop_last() =~= vs.take(k as int));
        let same = k > 0 && v[k].0 == v[k - 1].0 && v[k].1 == v[k - 1].1 && str_eq(v[k].2.as_str(), v[k - 1].2.as_str());
        if k > 0 {
            assert(vs.take(k + 1)[k - 1] == vs[k - 1]);
            assert(same == (vs[k as int] == vs[k - 1]));
        }
        if !same {
            out.push((v[k].0, v[k].1, v[k].2.clone()));
            assert(edit_views(out@) =~= edit_views(before).push(vs[k as int]));
        }
        k += 1;
    }
    assert(vs.take(v.len() as int) =~= vs);
    out
}

/// The text after the edits (see [`apply_edits`]).
fn apply_edits_to(contents: &str, edits: &Vec<(usize, usize, String)>) -> (r: String)
    ensures
        r@ == apply_edits(contents@, edit_views(edits@)),
{
    let ghost es = edit_views(edits@);
    let mut cur = to_owned(contents);
    let mut k: usize = 0;
    assert(es.take(0) =~= Seq::<EditView>::empty());
    while k < edits.len()
        invariant
            es == edit_views(edits@),
            k <= edits@.len(),
            cur@ == apply_edits(contents@, es.take(k as int)),
        decreases edits.len() - k,
    {
        assert(es.take(k + 1).drop_last() =~= es.take(k as int));
        assert(es.take(k + 1).last() == es[k as int]);
        let s = edits[k].0;
        let e = edits[k].1;
        let chars = to_chars(cur.as_str());
        if s <= e && e <= chars.len() {
            let a = from_char_range(chars.as_slice(), 0, s);
            let b = from_char_range(chars.as_slice(), e, chars.len());
            cur = concat3(a.as_str(), edits[k].2.as_str(), b.as_str());
            assert(a@ =~= chars@.take(s as int));
            assert(b@ =~= chars@.skip(e as int));
        }
        k += 1;
    }
    assert(es.take(edits.len() as int) =~= es);
    cur
}

/// The text after the edits, stably sorted by start (last first) and applied.
pub open spec fn sorted_applied(text: Seq<char>, edits: Seq<EditView>, out: Seq<char>) -> bool {
    exists|s: Seq<EditView>| #[trigger] sorted_by_start_desc(edits, s) && out == apply_edits(text, s)
}

/// The text after the edits, stably sorted by start (last first), with repeated
/// edits dropped, and applied.
pub open spec fn sorted_deduped_applied(text: Seq<char>, edits: Seq<EditView>, out: Seq<char>) -> bool {
    exists|s: Seq<EditView>| #[trigger] sorted_by_start_desc(edits, s) && out == apply_edits(text, dedup_adjacent(s))
}

// ---------------------------------------------------------------------------
// Reading the tree
// ---------------------------------------------------------------------------

/// Every listed position is a node of the list.
pub open spec fn ids_in(t: Seq<SyntaxNode>, cs: Seq<usize>) -> bool {
    forall|k: int| 0 <= k < cs.len() ==> #[trigger] cs[k] < t.len()
}

proof fn lemma_children_in(t: Seq<SyntaxNode>, i: int)
    requires
        tree_wf(t),
        0 <= i < t.len(),
    ensures
        ids_in(t, t[i].children@),
{
    assert forall|k: int| 0 <= k < t[i].children@.len() implies #[trigger] t[i].children@[k] < t.len() by {
        assert(i < t[i].children@[k] < t.len());
    }
}

/// The first of the listed nodes that its parent holds under the field
/// (`child_by_field_name`).
pub open spec fn field_child(t: Seq<SyntaxNode>, cs: Seq<usize>, f: Seq<char>) -> Option<int>
    decreases cs.len(),
{
    if cs.len() == 0 {
        None
    } else if opt_seq(t[cs[0] as int].field) == Some(f) {
        Some(cs[0] as int)
    } else {
        field_child(t, cs.drop_first(), f)
    }
}

/// The first of the listed nodes held under the field.
fn find_field_child(nodes: &Vec<SyntaxNode>, cs: &Vec<usize>, f: &str) -> (r: Option<usize>)
    requires
        ids_in(nodes@, cs@),
    ensures
        match r {
            Some(c) => field_child(nodes@, cs@, f@) == Some(c as int) && c < nodes@.len(),
            None => field_child(nodes@, cs@, f@) is None,
        },
{
    let mut k: usize = 0;
    assert(cs@.skip(0) == cs@);
    while k < cs.len()
        invariant
            ids_in(nodes@, cs@),
            k <= cs@.len(),
            field_child(nodes@, cs@, f@) == field_child(nodes@, cs@.skip(k as int), f@),
        decreases cs.len() - k,
    {
        let c = cs[k];
        assert(cs@.skip(k as int)[0] == c);
        assert(cs@.skip(k as int).drop_first() == cs@.skip(k + 1));
        let hit = match &nodes[c].field {
            Some(x) => str_eq(x.as_str(), f),
            None => false,
        };
        if hit {
            return Some(c);
        }
        k += 1;
    }
    None
}

/// The first of the listed nodes with one of two kinds.
pub open spec fn first_of_kinds(t: Seq<SyntaxNode>, cs: Seq<usize>, a: Seq<char>, b: Seq<char>, c: Seq<char>) -> Option<int>
    decreases cs.len(),
{
    if cs.len() == 0 {
        None
    } else if t[cs[0] as int].kind@ == a || t[cs[0] as int].kind@ == b || t[cs[0] as int].kind@ == c {
        Some(cs[0] as int)
    } else {
        first_of_kinds(t, cs.drop_first(), a, b, c)
    }
}

/// The first of the listed nodes with one of the kinds.
fn find_of_kinds(nodes: &Vec<SyntaxNode>, cs: &Vec<usize>, a: &str, b: &str, c: &str) -> (r: Option<usize>)
    requires
        ids_in(nodes@, cs@),
    ensures
        match r {
            Some(x) => first_of_kinds(nodes@, cs@, a@, b@, c@) == Some(x as int) && x < nodes@.len(),
            None => first_of_kinds(nodes@, cs@, a@, b@, c@) is None,
        },
{
    let mut k: usize = 0;
    assert(cs@.skip(0) == cs@);
    while k < cs.len()
        invariant
            ids_in(nodes@, cs@),
            k <= cs@.len(),
            first_of_kinds(nodes@, cs@, a@, b@, c@) == first_of_kinds(nodes@, cs@.skip(k as int), a@, b@, c@),
        decreases cs.len() - k,
    {
        let x = cs[k];
        assert(cs@.skip(k as int)[0] == x);
        assert(cs@.skip(k as int).drop_first() == cs@.skip(k + 1));
        let kind = nodes[x].kind.as_str();
        if str_eq(kind, a) || str_eq(kind, b) || str_eq(kind, c) {
            return Some(x);
        }
        k += 1;
    }
    None
}

// ---------------------------------------------------------------------------
// Functions
// ---------------------------------------------------------------------------

/// A function that takes a callable as its first argument, so that a string
/// there may name a function.
pub open spec fn takes_callable(name: Seq<char>) -> bool {
    name == "function_exists"@ || name == "call_user_func"@ || name == "call_user_func_array"@
        || name == "forward_static_call"@ || name == "forward_static_call_array"@
        || name == "register_shutdown_function"@ || name == "register_tick_function"@
        || name == "unregister_tick_function"@
}

fn is_callable_taker(name: &str) -> (r: bool)
    ensures
        r == takes_callable(name@),
{
    str_eq(name, "function_exists") || str_eq(name, "call_user_func") || str_eq(name, "call_user_func_array")
        || str_eq(name, "forward_static_call") || str_eq(name, "forward_static_call_array")
        || str_eq(name, "register_shutdown_function") || str_eq(name, "register_tick_function")
        || str_eq(name, "unregister_tick_function")
}

/// The edit that replaces a node's whole text.
pub open spec fn span_edit(t: Seq<SyntaxNode>, c: int, rep: Seq<char>) -> EditView {
    (t[c].start, t[c].end, rep)
}

/// The string literal a callable argument holds: the argument itself when it is
/// a string, else its first string child.
pub open spec fn callable_string(t: Seq<SyntaxNode>, a: int) -> Option<int> {
    if t[a].kind@ == "string"@ || t[a].kind@ == "encapsed_string"@ {
        Some(a)
    } else {
        first_of_kinds(t, t[a].children@, "string"@, "encapsed_string"@, "encapsed_string"@)
    }
}

/// The edit a callable argument calls for: when the first argument-like child of
/// the call's arguments holds a string whose text without quotes is the
/// function's name, the text between the quotes is replaced.
pub open spec fn callable_edits(t: Seq<SyntaxNode>, call: int, original: Seq<char>, rep: Seq<char>) -> Seq<EditView> {
    match field_child(t, t[call].children@, "arguments"@) {
        Some(args) => match first_of_kinds(t, t[args].children@, "argument"@, "string"@, "encapsed_string"@) {
            Some(a) => match callable_string(t, a) {
                Some(sn) => if trim_both(trim_both(t[sn].text@, '\''), '"') == original && t[sn].start < usize::MAX
                    && t[sn].end >= 1 {
                    seq![((t[sn].start + 1) as usize, (t[sn].end - 1) as usize, rep)]
                } else {
                    Seq::empty()
                },
                None => Seq::empty(),
            },
            None => Seq::empty(),
        },
        None => Seq::empty(),
    }
}

/// The edits one node calls for: the name of a function definition, the callee
/// of a call, and a callable string argument, wherever they are the function.
pub open spec fn function_node_edits(t: Seq<SyntaxNode>, i: int, original: Seq<char>, rep: Seq<char>) -> Seq<EditView> {
    let k = t[i].kind@;
    if k == "function_definition"@ {
        match field_child(t, t[i].children@, "name"@) {
            Some(c) => if t[c].text@ == original { seq![span_edit(t, c, rep)] } else { Seq::empty() },
            None => Seq::empty(),
        }
    } else if k == "function_call_expression"@ {
        match field_child(t, t[i].children@, "function"@) {
            Some(c) => (if t[c].text@ == original { seq![span_edit(t, c, rep)] } else { Seq::empty() })
                + (if takes_callable(t[c].text@) { callable_edits(t, i, original, rep) } else { Seq::empty() }),
            None => Seq::empty(),
        }
    } else {
        Seq::empty()
    }
}

/// The edits the first `n` nodes call for, in pre-order.
pub open spec fn function_edits(t: Seq<SyntaxNode>, n: int, original: Seq<char>, rep: Seq<char>) -> Seq<EditView>
    decreases n,
{
    if n <= 0 {
        Seq::empty()
    } else {
        function_edits(t, n - 1, original, rep) + function_node_edits(t, n - 1, original, rep)
    }
}

/// The edit for a callable string argument of a call, if any.
fn check_callable_argument(nodes: &Vec<SyntaxNode>, call: usize, original: &str, rep: &str) -> (r: Option<(usize, usize, String)>)
    requires
        tree_wf(nodes@),
        call < nodes@.len(),
    ensures
        callable_edits(nodes@, call as int, original@, rep@) == match r {
            Some(e) => seq![(e.0, e.1, e.2@)],
            None => Seq::<EditView>::empty(),
        },
{
    proof {
        lemma_children_in(nodes@, call as int);
    }
    let args = match find_field_child(nodes, &nodes[call].children, "arguments") {
        Some(a) => a,
        None => return None,
    };
    proof {
        lemma_children_in(nodes@, args as int);
    }
    let a = match find_of_kinds(nodes, &nodes[args].children, "argument", "string", "encapsed_string") {
        Some(a) => a,
        None => return None,
    };
    let sn = if str_eq(nodes[a].kind.as_str(), "string") || str_eq(nodes[a].kind.as_str(), "encapsed_string") {
        a
    } else {
        proof {
            lemma_children_in(nodes@, a as int);
        }
        match find_of_kinds(nodes, &nodes[a].children, "string", "encapsed_string", "encapsed_string") {
            Some(x) => x,
            None => return None,
        }
    };
    let inner0 = trim_char(nodes[sn].text.as_str(), '\'');
    let inner = trim_char(inner0.as_str(), '"');
    if str_eq(inner.as_str(), original) && nodes[sn].start < usize::MAX && nodes[sn].end >= 1 {
        Some((nodes[sn].start + 1, nodes[sn].end - 1, to_owned(rep)))
    } else {
        None
    }
}

/// Adds the edits one node calls for.
fn find_function_positions(nodes: &Vec<SyntaxNode>, i: usize, original: &str, rep: &str, out: &mut Vec<(usize, usize, String)>)
    requires
        tree_wf(nodes@),
        i < nodes@.len(),
    ensures
        edit_views(final(out)@) == edit_views(old(out)@) + function_node_edits(nodes@, i as int, original@, rep@),
{
    let ghost before = edit_views(out@);
    proof {
        lemma_children_in(nodes@, i as int);
    }
    let kind = nodes[i].kind.as_str();
    if str_eq(kind, "function_definition") {
        match find_field_child(nodes, &nodes[i].children, "name") {
            Some(c) => {
                if str_eq(nodes[c].text.as_str(), original) {
                    out.push((nodes[c].start, nodes[c].end, to_owned(rep)));
                }
            },
            None => {},
        }
        assert(edit_views(out@) =~= before + function_node_edits(nodes@, i as int, original@, rep@));
    } else if str_eq(kind, "function_call_expression") {
        match find_field_child(nodes, &nodes[i].children, "function") {
            Some(c) => {
                let ghost mid0 = edit_views(out@);
                if str_eq(nodes[c].text.as_str(), original) {
                    out.push((nodes[c].start, nodes[c].end, to_owned(rep)));
                }
                let ghost mid = edit_views(out@);
                assert(mid =~= before + (if nodes@[c as int].text@ == original@ {
                    seq![span_edit(nodes@, c as int, rep@)]
                } else {
                    Seq::<EditView>::empty()
                }));
                if is_callable_taker(nodes[c].text.as_str()) {
                    match check_callable_argument(nodes, i, original, rep) {
                        Some(e) => {
                            out.push(e);
                        },
                        None => {},
                    }
                }
                assert(edit_views(out@) =~= before + function_node_edits(nodes@, i as int, original@, rep@));
            },
            None => {
                assert(edit_views(out@) =~= before + function_node_edits(nodes@, i as int, original@, rep@));
            },
        }
    } else {
        assert(edit_views(out@) =~= before + function_node_edits(nodes@, i as int, original@, rep@));
    }
}

/// Renames the function, its calls and the callable strings that name it, in a
/// single file.
pub struct FunctionReplacer {}

impl FunctionReplacer {
    /// A function replacer.
    pub fn new() -> (r: Self) {
        FunctionReplacer {}
    }

    /// The text with the edits that the parse tree calls for applied, stably
    /// sorted by start, last first, and with repeated edits dropped (see
    /// [`function_edits`]).
    pub fn replace_function_in_tree(&self, contents: &str, t: &SyntaxTree, original_function: &str, replacement_function: &str) -> (r: String)
        requires
            t.wf(),
        ensures
            sorted_deduped_applied(contents@,
                function_edits(t.nodes@, t.nodes@.len() as int, original_function@, replacement_function@), r@),
    {
        let mut edits: Vec<(usize, usize, String)> = Vec::new();
        let mut i: usize = 0;
        while i < t.nodes.len()
            invariant
                t.wf(),
                i <= t.nodes@.len(),
                edit_views(edits@) == function_edits(t.nodes@, i as int, original_function@, replacement_function@),
            decreases t.nodes.len() - i,
        {
            find_function_positions(&t.nodes, i, original_function, replacement_function, &mut edits);
            i += 1;
        }
        let sorted = sort_edits_desc(&edits);
        let unique = dedup_edits(&sorted);
        apply_edits_to(contents, &unique)
    }

    /// Renames a function in PHP source: its definition, its calls, and the
    /// strings that name it as a callable (see [`FunctionReplacer::replace_function_in_tree`]);
    /// an error only when no PHP parser can be made.
    pub fn replace_function(&self, contents: &str, original_function: &str, replacement_function: &str) -> (r: Result<String, ReplaceError>)
        ensures
            r matches Ok(x) ==> exists|t: SyntaxTree| #[trigger] t.wf() && php_syntax_of(t.nodes@, contents@) && sorted_deduped_applied(contents@,
                function_edits(t.nodes@, t.nodes@.len() as int, original_function@, replacement_function@), x@),
            r matches Err(e) ==> e == ReplaceError::Parse,
    {
        let t = match parse_tree(contents) {
            Some(t) => t,
            None => return Err(ReplaceError::Parse),
        };
        Ok(self.replace_function_in_tree(contents, &t, original_function, replacement_function))
    }
}

/// The parse tree of PHP source; none only when no PHP parser can be made.
fn parse_tree(contents: &str) -> (r: Option<SyntaxTree>)
    ensures
        r matches Some(t) ==> t.wf() && php_syntax_of(t.nodes@, contents@),
{
    let mut parser = match PhpParser::new() {
        Ok(p) => p,
        Err(_) => return None,
    };
    match parser.parse_flat(contents) {
        Ok(t) => Some(t),
        Err(_) => None,
    }
}

// ---------------------------------------------------------------------------
// Relative namespaces
// ---------------------------------------------------------------------------

/// The names imported by the clauses of a `use` declaration, without a leading
/// `\`.
pub open spec fn use_clause_names(t: Seq<SyntaxNode>, cs: Seq<usize>) -> Seq<Seq<char>>
    decreases cs.len(),
{
    if cs.len() == 0 {
        Seq::empty()
    } else {
        let c = cs.last() as int;
        use_clause_names(t, cs.drop_last()) + if t[c].kind@ == "namespace_use_clause"@ {
            match field_child(t, t[c].children@, "name"@) {
                Some(x) => seq![trim_start(t[x].text@, '\\')],
                None => Seq::empty(),
            }
        } else {
            Seq::empty()
        }
    }
}

/// The namespaces a node brings into use: the name of a namespace definition,
/// or the names of a `use` declaration.
pub open spec fn node_using(t: Seq<SyntaxNode>, i: int) -> Seq<Seq<char>> {
    let k = t[i].kind@;
    if k == "namespace_definition"@ {
        match field_child(t, t[i].children@, "name"@) {
            Some(c) => seq![t[c].text@],
            None => Seq::empty(),
        }
    } else if k == "namespace_use_declaration"@ {
        use_clause_names(t, t[i].children@)
    } else {
        Seq::empty()
    }
}

/// The namespaces the first `n` nodes bring into use, in order.
pub open spec fn using_upto(t: Seq<SyntaxNode>, n: int) -> Seq<Seq<char>>
    decreases n,
{
    if n <= 0 {
        Seq::empty()
    } else {
        using_upto(t, n - 1) + node_using(t, n - 1)
    }
}

/// The namespace part of a name: all but its last `\`-separated piece.
pub open spec fn namespace_part(name: Seq<char>) -> Seq<char> {
    let parts = split_char(name, '\\');
    join(parts.take(parts.len() - 1), "\\"@)
}

/// The first namespace in use under which the namespace part names a
/// discovered namespace.
pub open spec fn first_using_match(using: Seq<Seq<char>>, ns: Seq<char>, discovered: Seq<Seq<char>>) -> Option<Seq<char>>
    decreases using.len(),
{
    if using.len() == 0 {
        None
    } else if discovered.contains(using[0] + "\\"@ + ns) {
        Some(using[0])
    } else {
        first_using_match(using.drop_first(), ns, discovered)
    }
}

/// The edit a name calls for: a relative name (with a `\` inside, none in front)
/// whose namespace part is a discovered namespace is made absolute; failing
/// that, one whose namespace part lies under a namespace in use is made absolute
/// under it.
pub open spec fn relative_node_edits(t: Seq<SyntaxNode>, i: int, discovered: Seq<Seq<char>>, using: Seq<Seq<char>>) -> Seq<EditView> {
    let k = t[i].kind@;
    let text = t[i].text@;
    if (k == "qualified_name"@ || k == "name"@) && text.contains('\\') && !(text.len() > 0 && text[0] == '\\') {
        let ns = namespace_part(text);
        if discovered.contains(ns) {
            seq![(t[i].start, t[i].end, "\\"@ + text)]
        } else {
            match first_using_match(using, ns, discovered) {
                Some(b) => seq![(t[i].start, t[i].end, "\\"@ + b + "\\"@ + text)],
                None => Seq::empty(),
            }
        }
    } else {
        Seq::empty()
    }
}

/// The edits the first `n` nodes call for, each name judged with the namespaces
/// in use before it.
pub open spec fn relative_edits(t: Seq<SyntaxNode>, n: int, discovered: Seq<Seq<char>>) -> Seq<EditView>
    decreases n,
{
    if n <= 0 {
        Seq::empty()
    } else {
        relative_edits(t, n - 1, discovered) + relative_node_edits(t, n - 1, discovered, using_upto(t, n - 1))
    }
}

/// The text with relative namespaces made absolute: unchanged when there is
/// nothing to edit; otherwise the edits stably sorted by start (last first) and
/// applied, then `namespace \` written `namespace ` and `use \\` written `use \`.
pub open spec fn relative_outcome(text: Seq<char>, edits: Seq<EditView>, out: Seq<char>) -> bool {
    if edits.len() == 0 {
        out == text
    } else {
        exists|s: Seq<EditView>| #[trigger] sorted_by_start_desc(edits, s) && out == replace_all(
            replace_all(apply_edits(text, s), "namespace \\"@, "namespace "@), "use \\\\"@, "use \\"@)
    }
}

/// The namespaces a node brings into use.
fn add_node_using(nodes: &Vec<SyntaxNode>, i: usize, using: &mut Vec<String>)
    requires
        tree_wf(nodes@),
        i < nodes@.len(),
    ensures
        seqs(final(using)@) == seqs(old(using)@) + node_using(nodes@, i as int),
{
    let ghost before = seqs(using@);
    proof {
        lemma_children_in(nodes@, i as int);
    }
    let kind = nodes[i].kind.as_str();
    if str_eq(kind, "namespace_definition") {
        match find_field_child(nodes, &nodes[i].children, "name") {
            Some(c) => {
                using.push(nodes[c].text.clone());
            },
            None => {},
        }
        assert(seqs(using@) =~= before + node_using(nodes@, i as int));
    } else if str_eq(kind, "namespace_use_declaration") {
        let cs = &nodes[i].children;
        let mut k: usize = 0;
        assert(cs@.take(0) =~= Seq::<usize>::empty());
        assert(seqs(using@) =~= before + use_clause_names(nodes@, cs@.take(0)));
        while k < cs.len()
            invariant
                tree_wf(nodes@),
                ids_in(nodes@, cs@),
                k <= cs@.len(),
                seqs(using@) == before + use_clause_names(nodes@, cs@.take(k as int)),
            decreases cs.len() - k,
        {
            let c = cs[k];
            assert(cs@.take(k + 1).drop_last() =~= cs@.take(k as int));
            assert(cs@.take(k + 1).last() == c);
            let ghost mid = seqs(using@);
            if str_eq(nodes[c].kind.as_str(), "namespace_use_clause") {
                proof {
                    lemma_children_in(nodes@, c as int);
                }
                match find_field_child(nodes, &nodes[c].children, "name") {
                    Some(x) => {
                        using.push(trim_start_char(nodes[x].text.as_str(), '\\'));
                        assert(seqs(using@) =~= mid + seq![trim_start(nodes@[x as int].text@, '\\')]);
                    },
                    None => {
                        assert(seqs(using@) =~= mid + Seq::<Seq<char>>::empty());
                    },
                }
            } else {
                assert(seqs(using@) =~= mid + Seq::<Seq<char>>::empty());
            }
            k += 1;
        }
        assert(cs@.take(cs.len() as int) =~= cs@);
    } else {
        assert(seqs(using@) =~= before + node_using(nodes@, i as int));
    }
}

/// The namespace part of a name (see [`namespace_part`]).
fn namespace_part_of(name: &str) -> (r: String)
    ensures
        r@ == namespace_part(name@),
{
    let parts = split_char_str(name, '\\');
    let mut head: Vec<String> = Vec::new();
    let mut k: usize = 0;
    let n = if parts.len() > 0 { parts.len() - 1 } else { 0 };
    proof {
        crate::strs::lemma_split_nonempty(name@, '\\');
    }
    while k < n
        invariant
            n == parts@.len() - 1,
            k <= n,
            seqs(head@) == seqs(parts@).take(k as int),
        decreases n - k,
    {
        let ghost before = head@;
        head.push(parts[k].clone());
        assert(seqs(head@) =~= seqs(before).push(parts@[k as int]@));
        assert(seqs(parts@).take(k + 1) =~= seqs(parts@).take(k as int).push(parts@[k as int]@));
        k += 1;
    }
    join_str(&head, "\\")
}

/// The first namespace in use under which the namespace part is discovered.
fn find_using_match(using: &Vec<String>, ns: &str, discovered: &Vec<String>) -> (r: Option<String>)
    ensures
        opt_seq(r) == first_using_match(seqs(using@), ns@, seqs(discovered@)),
{
    let ghost us = seqs(using@);
    let mut k: usize = 0;
    assert(us.skip(0) == us);
    while k < using.len()
        invariant
            us == seqs(using@),
            k <= using@.len(),
            first_using_match(us, ns@, seqs(discovered@)) == first_using_match(us.skip(k as int), ns@, seqs(discovered@)),
        decreases using.len() - k,
    {
        assert(us.skip(k as int)[0] == using@[k as int]@);
        assert(us.skip(k as int).drop_first() =~= us.skip(k + 1));
        let full = concat3(using[k].as_str(), "\\", ns);
        if vec_contains_str(discovered, full.as_str()) {
            return Some(using[k].clone());
        }
        k += 1;
    }
    None
}

/// The edit a name calls for (see [`relative_node_edits`]), if any.
fn find_relative_namespaces(nodes: &Vec<SyntaxNode>, i: usize, discovered: &Vec<String>, using: &Vec<String>) -> (r: Option<(usize, usize, String)>)
    requires
        i < nodes@.len(),
    ensures
        relative_node_edits(nodes@, i as int, seqs(discovered@), seqs(using@)) == match r {
            Some(e) => seq![(e.0, e.1, e.2@)],
            None => Seq::<EditView>::empty(),
        },
{
    let kind = nodes[i].kind.as_str();
    let text = nodes[i].text.as_str();
    let lead = starts_with(text, "\\");
    proof {
        reveal_strlit("\\");
        if text@.len() > 0 {
            assert(text@.take(1)[0] == text@[0]);
            if text@[0] == '\\' {
                assert(text@.take(1) =~= "\\"@);
            }
        }
        assert(lead == (text@.len() > 0 && text@[0] == '\\'));
    }
    if !(str_eq(kind, "qualified_name") || str_eq(kind, "name")) || !contains_char(text, '\\') || lead {
        return None;
    }
    let ns = namespace_part_of(text);
    if vec_contains_str(discovered, ns.as_str()) {
        return Some((nodes[i].start, nodes[i].end, crate::strs::concat("\\", text)));
    }
    match find_using_match(using, ns.as_str(), discovered) {
        Some(b) => {
            let x = concat3("\\", b.as_str(), "\\");
            Some((nodes[i].start, nodes[i].end, crate::strs::concat(x.as_str(), text)))
        },
        None => None,
    }
}

impl FunctionReplacer {
    /// The text with relative namespaces made absolute as the parse tree calls
    /// for (see [`relative_edits`] and [`relative_outcome`]); unchanged when no
    /// namespace symbol is given.
    pub fn prepare_relative_namespaces_in_tree(&self, contents: &str, t: &SyntaxTree, namespace_symbols: &[crate::types::symbol::DiscoveredSymbol]) -> (r: String)
        requires
            t.wf(),
        ensures
            namespace_symbols@.len() == 0 ==> r@ == contents@,
            namespace_symbols@.len() > 0 ==> relative_outcome(contents@,
                relative_edits(t.nodes@, t.nodes@.len() as int, symbol_names(namespace_symbols@)), r@),
    {
        if namespace_symbols.len() == 0 {
            return to_owned(contents);
        }
        let mut discovered: Vec<String> = Vec::new();
        let mut j: usize = 0;
        while j < namespace_symbols.len()
            invariant
                j <= namespace_symbols@.len(),
                seqs(discovered@) == symbol_names(namespace_symbols@).take(j as int),
            decreases namespace_symbols.len() - j,
        {
            let ghost before = discovered@;
            discovered.push(namespace_symbols[j].original_symbol.clone());
            assert(seqs(discovered@) =~= seqs(before).push(namespace_symbols@[j as int].original_symbol@));
            assert(symbol_names(namespace_symbols@).take(j + 1)
                =~= symbol_names(namespace_symbols@).take(j as int).push(namespace_symbols@[j as int].original_symbol@));
            j += 1;
        }
        assert(symbol_names(namespace_symbols@).take(namespace_symbols@.len() as int) =~= symbol_names(namespace_symbols@));
        let ghost ds = seqs(discovered@);
        let mut using: Vec<String> = Vec::new();
        let mut edits: Vec<(usize, usize, String)> = Vec::new();
        let mut i: usize = 0;
        assert(seqs(using@) =~= using_upto(t.nodes@, 0));
        while i < t.nodes.len()
            invariant
                t.wf(),
                i <= t.nodes@.len(),
                ds == seqs(discovered@),
                seqs(using@) == using_upto(t.nodes@, i as int),
                edit_views(edits@) == relative_edits(t.nodes@, i as int, ds),
            decreases t.nodes.len() - i,
        {
            let ghost before = edit_views(edits@);
            match find_relative_namespaces(&t.nodes, i, &discovered, &using) {
                Some(e) => {
                    edits.push(e);
                },
                None => {},
            }
            assert(edit_views(edits@) =~= before + relative_node_edits(t.nodes@, i as int, ds, using_upto(t.nodes@, i as int)));
            add_node_using(&t.nodes, i, &mut using);
            i += 1;
        }
        if edits.len() == 0 {
            return to_owned(contents);
        }
        let sorted = sort_edits_desc(&edits);
        let applied = apply_edits_to(contents, &sorted);
        proof {
            reveal_strlit("namespace \\");
            reveal_strlit("use \\\\");
        }
        let fixed = crate::strs::replace_str(applied.as_str(), "namespace \\", "namespace ");
        crate::strs::replace_str(fixed.as_str(), "use \\\\", "use \\")
    }

    /// Makes relative namespaces absolute in PHP source (see
    /// [`FunctionReplacer::prepare_relative_namespaces_in_tree`]); unchanged when no
    /// namespace symbol is given, an error only when no PHP parser can be made.
    pub fn prepare_relative_namespaces(&self, contents: &str, namespace_symbols: &[crate::types::symbol::DiscoveredSymbol]) -> (r: Result<String, ReplaceError>)
        ensures
            namespace_symbols@.len() == 0 ==> (r matches Ok(x) && x@ == contents@),
            r matches Ok(x) ==> (namespace_symbols@.len() > 0 ==> exists|t: SyntaxTree| #[trigger] t.wf() && php_syntax_of(t.nodes@, contents@)
                && relative_outcome(contents@, relative_edits(t.nodes@, t.nodes@.len() as int, symbol_names(namespace_symbols@)), x@)),
            r matches Err(e) ==> e == ReplaceError::Parse,
    {
        if namespace_symbols.len() == 0 {
            return Ok(to_owned(contents));
        }
        let t = match parse_tree(contents) {
            Some(t) => t,
            None => return Err(ReplaceError::Parse),
        };
        Ok(self.prepare_relative_namespaces_in_tree(contents, &t, namespace_symbols))
    }
}

/// The original names of symbols.
pub open spec fn symbol_names(v: Seq<crate::types::symbol::DiscoveredSymbol>) -> Seq<Seq<char>> {
    v.map_values(|s: crate::types::symbol::DiscoveredSymbol| s.original_symbol@)
}

// ---------------------------------------------------------------------------
// Fully qualified constants
// ---------------------------------------------------------------------------

/// The renamed namespaces with what they become, in order.
pub open spec fn rename_pairs(v: Seq<crate::types::symbol::SymbolView>) -> Seq<(Seq<char>, Seq<char>)>
    decreases v.len(),
{
    if v.len() == 0 {
        Seq::empty()
    } else {
        rename_pairs(v.drop_last()) + if v.last().do_rename {
            seq![(v.last().original_symbol, v.last().effective_replacement())]
        } else {
            Seq::empty()
        }
    }
}

/// The views of symbols.
pub open spec fn views_of(v: Seq<crate::types::symbol::DiscoveredSymbol>) -> Seq<crate::types::symbol::SymbolView> {
    v.map_values(|s: crate::types::symbol::DiscoveredSymbol| s@)
}

/// What the first pair with the name as original becomes.
pub open spec fn first_rename(pairs: Seq<(Seq<char>, Seq<char>)>, name: Seq<char>) -> Option<Seq<char>>
    decreases pairs.len(),
{
    if pairs.len() == 0 {
        None
    } else if pairs[0].0 == name {
        Some(pairs[0].1)
    } else {
        first_rename(pairs.drop_first(), name)
    }
}

/// The edit a fully qualified name calls for: when its first `\`-separated
/// piece (after the leading `\`) is a renamed namespace, that piece is replaced.
pub open spec fn const_node_edits(t: Seq<SyntaxNode>, i: int, pairs: Seq<(Seq<char>, Seq<char>)>) -> Seq<EditView> {
    let k = t[i].kind@;
    let text = t[i].text@;
    if (k == "qualified_name"@ || k == "name"@) && text.len() > 0 && text[0] == '\\' {
        let parts = split_char(text.skip(1), '\\');
        match first_rename(pairs, parts[0]) {
            Some(rep) => seq![(t[i].start, t[i].end, "\\"@ + join(seq![rep] + parts.skip(1), "\\"@))],
            None => Seq::empty(),
        }
    } else {
        Seq::empty()
    }
}

/// The edits the first `n` nodes call for, in pre-order.
pub open spec fn const_edits(t: Seq<SyntaxNode>, n: int, pairs: Seq<(Seq<char>, Seq<char>)>) -> Seq<EditView>
    decreases n,
{
    if n <= 0 {
        Seq::empty()
    } else {
        const_edits(t, n - 1, pairs) + const_node_edits(t, n - 1, pairs)
    }
}

/// The renamed namespaces with what they become.
fn collect_rename_pairs(symbols: &[crate::types::symbol::DiscoveredSymbol]) -> (r: Vec<(String, String)>)
    ensures
        pair_seqs(r@) == rename_pairs(views_of(symbols@)),
{
    let ghost vs = views_of(symbols@);
    let mut out: Vec<(String, String)> = Vec::new();
    let mut k: usize = 0;
    assert(vs.take(0) =~= Seq::<crate::types::symbol::SymbolView>::empty());
    assert(pair_seqs(out@) =~= Seq::<(Seq<char>, Seq<char>)>::empty());
    while k < symbols.len()
        invariant
            vs == views_of(symbols@),
            k <= symbols@.len(),
            pair_seqs(out@) == rename_pairs(vs.take(k as int)),
        decreases symbols.len() - k,
    {
        assert(vs.take(k + 1).drop_last() =~= vs.take(k as int));
        assert(vs.take(k + 1).last() == symbols@[k as int]@);
        let ghost before = out@;
        if symbols[k].do_rename {
            out.push((symbols[k].original_symbol.clone(), to_owned(symbols[k].get_replacement())));
            assert(pair_seqs(out@) =~= pair_seqs(before).push((symbols@[k as int]@.original_symbol,
                symbols@[k as int]@.effective_replacement())));
        } else {
            assert(pair_seqs(out@) =~= pair_seqs(before) + Seq::<(Seq<char>, Seq<char>)>::empty());
        }
        k += 1;
    }
    assert(vs.take(symbols.len() as int) =~= vs);
    out
}

/// The views of string pairs.
pub open spec fn pair_seqs(v: Seq<(String, String)>) -> Seq<(Seq<char>, Seq<char>)> {
    v.map_values(|p: (String, String)| (p.0@, p.1@))
}

/// What the first pair with the name as original becomes.
fn find_rename(pairs: &Vec<(String, String)>, name: &str) -> (r: Option<String>)
    ensures
        opt_seq(r) == first_rename(pair_seqs(pairs@), name@),
{
    let ghost ps = pair_seqs(pairs@);
    let mut k: usize = 0;
    assert(ps.skip(0) == ps);
    while k < pairs.len()
        invariant
            ps == pair_seqs(pairs@),
            k <= pairs@.len(),
            first_rename(ps, name@) == first_rename(ps.skip(k as int), name@),
        decreases pairs.len() - k,
    {
        assert(ps.skip(k as int)[0] == (pairs@[k as int].0@, pairs@[k as int].1@));
        assert(ps.skip(k as int).drop_first() =~= ps.skip(k + 1));
        if str_eq(pairs[k].0.as_str(), name) {
            return Some(pairs[k].1.clone());
        }
        k += 1;
    }
    None
}

/// The edit a fully qualified name calls for (see [`const_node_edits`]), if any.
fn find_const_fetch_positions(nodes: &Vec<SyntaxNode>, i: usize, pairs: &Vec<(String, String)>) -> (r: Option<(usize, usize, String)>)
    requires
        i < nodes@.len(),
    ensures
        const_node_edits(nodes@, i as int, pair_seqs(pairs@)) == match r {
            Some(e) => seq![(e.0, e.1, e.2@)],
            None => Seq::<EditView>::empty(),
        },
{
    let kind = nodes[i].kind.as_str();
    let text = nodes[i].text.as_str();
    let chars = to_chars(text);
    if !(str_eq(kind, "qualified_name") || str_eq(kind, "name")) || chars.len() == 0 || chars[0] != '\\' {
        return None;
    }
    let rest = from_char_range(chars.as_slice(), 1, chars.len());
    assert(rest@ =~= text@.skip(1));
    let parts = split_char_str(rest.as_str(), '\\');
    proof {
        crate::strs::lemma_split_nonempty(rest@, '\\');
    }
    let rep = match find_rename(pairs, parts[0].as_str()) {
        Some(x) => x,
        None => return None,
    };
    let ghost repv = rep@;
    assert(seqs(parts@)[0] == parts@[0]@);
    let mut pieces: Vec<String> = Vec::new();
    pieces.push(rep);
    let mut k: usize = 1;
    assert(seqs(pieces@) =~= seq![pieces@[0]@] + seqs(parts@).subrange(1, 1));
    while k < parts.len()
        invariant
            1 <= k <= parts@.len(),
            pieces@.len() > 0,
            pieces@[0]@ == repv,
            seqs(pieces@) == seq![pieces@[0]@] + seqs(parts@).subrange(1, k as int),
        decreases parts.len() - k,
    {
        let ghost before = pieces@;
        pieces.push(parts[k].clone());
        assert(seqs(pieces@) =~= seqs(before).push(parts@[k as int]@));
        assert(seqs(parts@).subrange(1, k + 1) =~= seqs(parts@).subrange(1, k as int).push(parts@[k as int]@));
        k += 1;
    }
    assert(seqs(parts@).subrange(1, parts@.len() as int) =~= seqs(parts@).skip(1));
    let joined = join_str(&pieces, "\\");
    Some((nodes[i].start, nodes[i].end, crate::strs::concat("\\", joined.as_str())))
}

impl FunctionReplacer {
    /// The text with the fully qualified references to renamed namespaces
    /// prefixed as the parse tree calls for (see [`const_edits`]), the edits
    /// stably sorted by start (last first) and applied.
    pub fn replace_const_fetch_namespaces_in_tree(&self, contents: &str, t: &SyntaxTree, namespace_symbols: &[crate::types::symbol::DiscoveredSymbol]) -> (r: String)
        requires
            t.wf(),
        ensures
            sorted_applied(contents@, const_edits(t.nodes@, t.nodes@.len() as int, rename_pairs(views_of(namespace_symbols@))), r@),
    {
        let pairs = collect_rename_pairs(namespace_symbols);
        let ghost ps = pair_seqs(pairs@);
        let mut edits: Vec<(usize, usize, String)> = Vec::new();
        let mut i: usize = 0;
        while i < t.nodes.len()
            invariant
                t.wf(),
                i <= t.nodes@.len(),
                ps == pair_seqs(pairs@),
                edit_views(edits@) == const_edits(t.nodes@, i as int, ps),
            decreases t.nodes.len() - i,
        {
            let ghost before = edit_views(edits@);
            match find_const_fetch_positions(&t.nodes, i, &pairs) {
                Some(e) => {
                    edits.push(e);
                },
                None => {},
            }
            assert(edit_views(edits@) =~= before + const_node_edits(t.nodes@, i as int, ps));
            i += 1;
        }
        let sorted = sort_edits_desc(&edits);
        apply_edits_to(contents, &sorted)
    }

    /// Prefixes fully qualified references to renamed namespaces in PHP source
    /// (see [`FunctionReplacer::replace_const_fetch_namespaces_in_tree`]); unchanged
    /// when no symbol is renamed, an error only when no PHP parser can be made.
    pub fn replace_const_fetch_namespaces(&self, contents: &str, namespace_symbols: &[crate::types::symbol::DiscoveredSymbol]) -> (r: Result<String, ReplaceError>)
        ensures
            rename_pairs(views_of(namespace_symbols@)).len() == 0 ==> (r matches Ok(x) && x@ == contents@),
            r matches Ok(x) ==> (rename_pairs(views_of(namespace_symbols@)).len() > 0 ==> exists|t: SyntaxTree|
                #[trigger] t.wf() && php_syntax_of(t.nodes@, contents@) && sorted_applied(contents@,
                const_edits(t.nodes@, t.nodes@.len() as int, rename_pairs(views_of(namespace_symbols@))), x@)),
            r matches Err(e) ==> e == ReplaceError::Parse,
    {
        let pairs = collect_rename_pairs(namespace_symbols);
        if pairs.len() == 0 {
            return Ok(to_owned(contents));
        }
        let t = match parse_tree(contents) {
            Some(t) => t,
            None => return Err(ReplaceError::Parse),
        };
        Ok(self.replace_const_fetch_namespaces_in_tree(contents, &t, namespace_symbols))
    }
}

/// With no edit, the text stays as it is, in all three operations.
pub proof fn law_no_edits_keep_text(text: Seq<char>)
    ensures
        sorted_applied(text, Seq::empty(), text),
        sorted_deduped_applied(text, Seq::empty(), text),
        relative_outcome(text, Seq::empty(), text),
{
    let none: Seq<EditView> = Seq::empty();
    let p: Seq<usize> = Seq::empty();
    assert(is_permutation(p, none.len()) && stably_sorted_by(edit_starts(none), p, true) && permuted_by(none, p, none));
    assert(sorted_by_start_desc(none, none));
    assert(apply_edits(text, dedup_adjacent(none)) == text);
}

/// Applying edits one after the other is applying the first ones, then the rest.
pub proof fn law_apply_edits_in_two(text: Seq<char>, a: Seq<EditView>, b: Seq<EditView>)
    ensures
        apply_edits(text, a + b) == apply_edits(apply_edits(text, a), b),
    decreases b.len(),
{
    if b.len() == 0 {
        assert(a + b =~= a);
    } else {
        law_apply_edits_in_two(text, a, b.drop_last());
        assert((a + b).drop_last() =~= a + b.drop_last());
        assert((a + b).last() == b.last());
    }
}

/// The edits of a node are among the edits of every longer prefix of the list.
proof fn lemma_function_edits_include(t: Seq<SyntaxNode>, n: int, i: int, original: Seq<char>, rep: Seq<char>)
    requires
        0 <= i < n,
    ensures
        forall|e: EditView| function_node_edits(t, i, original, rep).contains(e)
            ==> #[trigger] function_edits(t, n, original, rep).contains(e),
    decreases n,
{
    let prev = function_edits(t, n - 1, original, rep);
    let here = function_node_edits(t, n - 1, original, rep);
    assert(function_edits(t, n, original, rep) == prev + here);
    if i < n - 1 {
        lemma_function_edits_include(t, n - 1, i, original, rep);
        assert forall|e: EditView| function_node_edits(t, i, original, rep).contains(e)
            implies #[trigger] function_edits(t, n, original, rep).contains(e) by {
            assert(prev.contains(e));
            let k = choose|k: int| 0 <= k < prev.len() && prev[k] == e;
            assert((prev + here)[k] == e);
        }
    } else {
        assert forall|e: EditView| function_node_edits(t, i, original, rep).contains(e)
            implies #[trigger] function_edits(t, n, original, rep).contains(e) by {
            let k = choose|k: int| 0 <= k < here.len() && here[k] == e;
            assert((prev + here)[prev.len() + k] == e);
        }
    }
}

/// A call to a function that takes a callable (`function_exists`,
/// `call_user_func`, `call_user_func_array`, `forward_static_call`,
/// `forward_static_call_array`, `register_shutdown_function`,
/// `register_tick_function`, `unregister_tick_function`) whose first argument is
/// a quoted string naming the function gets that string renamed: the text between
/// the quotes is replaced by the new name.
pub proof fn law_callable_strings_renamed(t: Seq<SyntaxNode>, n: int, i: int, original: Seq<char>, rep: Seq<char>)
    requires
        0 <= i < n,
        t[i].kind@ == "function_call_expression"@,
        field_child(t, t[i].children@, "function"@) matches Some(c) && ({
            let callee = t[c].text@;
            ||| callee == "call_user_func"@
            ||| callee == "call_user_func_array"@
            ||| callee == "function_exists"@
            ||| callee == "forward_static_call"@
            ||| callee == "forward_static_call_array"@
            ||| callee == "register_shutdown_function"@
            ||| callee == "register_tick_function"@
            ||| callee == "unregister_tick_function"@
        }),
    ensures
        forall|e: EditView| #[trigger] callable_edits(t, i, original, rep).contains(e)
            ==> function_edits(t, n, original, rep).contains(e),
{
    lemma_function_edits_include(t, n, i, original, rep);
    reveal_strlit("function_definition");
    reveal_strlit("function_call_expression");
    assert("function_definition"@ != "function_call_expression"@) by {
        assert("function_definition"@[9] != "function_call_expression"@[9]);
    }
    let c = field_child(t, t[i].children@, "function"@)->0;
    assert(takes_callable(t[c].text@));
    let own = if t[c].text@ == original { seq![span_edit(t, c, rep)] } else { Seq::<EditView>::empty() };
    let cal = callable_edits(t, i, original, rep);
    assert(function_node_edits(t, i, original, rep) == own + cal);
    assert forall|e: EditView| #[trigger] cal.contains(e) implies function_edits(t, n, original, rep).contains(e) by {
        let k = choose|k: int| 0 <= k < cal.len() && cal[k] == e;
        assert((own + cal)[own.len() + k] == e);
        assert(function_node_edits(t, i, original, rep).contains(e));
    }
}

/// The name of a function definition, and the callee of a call, that are the
/// function are replaced by the new name, over their whole text.
pub proof fn law_definitions_and_calls_renamed(t: Seq<SyntaxNode>, n: int, i: int, original: Seq<char>, rep: Seq<char>)
    requires
        0 <= i < n,
        t[i].kind@ == "function_definition"@ || t[i].kind@ == "function_call_expression"@,
        field_child(t, t[i].children@, if t[i].kind@ == "function_definition"@ { "name"@ } else { "function"@ }) matches Some(c)
            && t[c].text@ == original,
    ensures
        function_edits(t, n, original, rep).contains(
            (t[field_child(t, t[i].children@, if t[i].kind@ == "function_definition"@ { "name"@ } else { "function"@ })->0].start,
             t[field_child(t, t[i].children@, if t[i].kind@ == "function_definition"@ { "name"@ } else { "function"@ })->0].end,
             rep)),
{
    lemma_function_edits_include(t, n, i, original, rep);
    let c = field_child(t, t[i].children@, if t[i].kind@ == "function_definition"@ { "name"@ } else { "function"@ })->0;
    let e = (t[c].start, t[c].end, rep);
    let here = function_node_edits(t, i, original, rep);
    assert(here[0] == e);
    assert(here.contains(e));
}

} // verus!
