//! The names a PHP file mentions: every namespace, identifier and namespace-like
//! string, collected from its parse tree.

use vstd::prelude::*;
use crate::parser::php_parser::{SyntaxNode, SyntaxTree, tree_wf};
use crate::strs::{contains_char, is_ascii_alnum, is_prefix, replace_all, replace_str, starts_with, str_eq, to_chars, to_owned, from_char_range, trim_end, trim_end_char, trim_start, trim_start_char};
use crate::types::file_references::{FileReferences, FileReferencesView, namespace_with_prefixes};

verus! {

// ---------------------------------------------------------------------------
// What each node contributes
// ---------------------------------------------------------------------------

/// No references.
pub open spec fn no_refs() -> FileReferencesView {
    FileReferencesView { namespaces: Set::empty(), identifiers: Set::empty(), strings: Set::empty() }
}

/// Both collections of references together.
pub open spec fn refs_union(a: FileReferencesView, b: FileReferencesView) -> FileReferencesView {
    FileReferencesView {
        namespaces: a.namespaces.union(b.namespaces),
        identifiers: a.identifiers.union(b.identifiers),
        strings: a.strings.union(b.strings),
    }
}

/// A namespace with all its prefixes (see [`namespace_with_prefixes`]).
pub open spec fn namespace_refs(ns: Seq<char>) -> FileReferencesView {
    FileReferencesView { namespaces: namespace_with_prefixes(ns), identifiers: Set::empty(), strings: Set::empty() }
}

/// One identifier.
pub open spec fn ident_ref(name: Seq<char>) -> FileReferencesView {
    FileReferencesView { namespaces: Set::empty(), identifiers: set![name], strings: Set::empty() }
}

/// One string literal's contents.
pub open spec fn string_ref(text: Seq<char>) -> FileReferencesView {
    FileReferencesView { namespaces: Set::empty(), identifiers: Set::empty(), strings: set![text] }
}

/// A qualified name, without leading backslashes: with a backslash inside, a
/// namespace and its prefixes; otherwise, when not empty, an identifier.
pub open spec fn qualified_refs(text: Seq<char>) -> FileReferencesView {
    let clean = trim_start(text, '\\');
    if clean.contains('\\') {
        namespace_refs(clean)
    } else if clean.len() > 0 {
        ident_ref(clean)
    } else {
        no_refs()
    }
}

/// A non-empty name as an identifier.
pub open spec fn name_ref(text: Seq<char>) -> FileReferencesView {
    if text.len() > 0 { ident_ref(text) } else { no_refs() }
}

/// A single-quoted string: its contents when they hold a backslash, and then
/// also as a namespace unless they start with a doubled backslash.
pub open spec fn string_refs(text: Seq<char>) -> FileReferencesView {
    let inner = trim_end(trim_start(text, '\''), '\'');
    if inner.contains('\\') {
        refs_union(
            string_ref(inner),
            if !is_prefix(seq!['\\', '\\'], inner) { namespace_refs(inner) } else { no_refs() },
        )
    } else {
        no_refs()
    }
}

/// A double-quoted string: its contents when they hold a backslash, and then
/// also, with doubled backslashes made single, as a namespace.
pub open spec fn encapsed_refs(text: Seq<char>) -> FileReferencesView {
    let inner = trim_end(trim_start(text, '"'), '"');
    if inner.contains('\\') {
        let normalized = replace_all(inner, seq!['\\', '\\'], seq!['\\']);
        refs_union(
            string_ref(inner),
            if normalized.contains('\\') { namespace_refs(normalized) } else { no_refs() },
        )
    } else {
        no_refs()
    }
}

/// A character that continues a name-like run in a comment.
pub open spec fn run_char(c: char) -> bool {
    is_ascii_alnum(c) || c == '_' || c == '\\'
}

/// A character that can start a name-like run in a comment.
pub open spec fn run_start(c: char) -> bool {
    c == '\\' || ('a' <= c && c <= 'z') || ('A' <= c && c <= 'Z') || c == '_'
}

/// The end of the run of [`run_char`]s from `i`.
pub open spec fn run_end(t: Seq<char>, i: int) -> int
    decreases t.len() - i,
{
    if 0 <= i < t.len() && run_char(t[i]) {
        run_end(t, i + 1)
    } else {
        i
    }
}

pub proof fn lemma_run_end(t: Seq<char>, i: int)
    requires
        0 <= i <= t.len(),
    ensures
        i <= run_end(t, i) <= t.len(),
        forall|k: int| i <= k < run_end(t, i) ==> run_char(#[trigger] t[k]),
        run_end(t, i) < t.len() ==> !run_char(t[run_end(t, i)]),
    decreases t.len() - i,
{
    if i < t.len() && run_char(t[i]) {
        lemma_run_end(t, i + 1);
    }
}

/// The namespaces a comment mentions, scanning from `i`: each run of name
/// characters that starts with a letter, `_` or `\`, is longer than two
/// characters and holds a backslash, taken without backslashes at its ends, when
/// a backslash is left inside.
pub open spec fn comment_namespaces(t: Seq<char>, i: int) -> Seq<Seq<char>>
    decreases t.len() - i, 1int,
{
    if i < 0 || i >= t.len() {
        Seq::empty()
    } else if run_start(t[i]) {
        comment_run(t, i)
    } else {
        comment_namespaces(t, i + 1)
    }
}

/// The namespace of the run starting at `i` (when it qualifies), then the rest.
pub open spec fn comment_run(t: Seq<char>, i: int) -> Seq<Seq<char>>
    decreases t.len() - i, 0int,
{
    if 0 <= i < t.len() && run_start(t[i]) {
        proof {
            lemma_run_end(t, i + 1);
        }
        let j = run_end(t, i + 1);
        let seg = t.subrange(i, j);
        let clean = trim_end(trim_start(seg, '\\'), '\\');
        let rest = comment_namespaces(t, j);
        if seg.contains('\\') && j > i + 2 && clean.contains('\\') && !is_prefix(seq!['\\'], clean) {
            seq![clean] + rest
        } else {
            rest
        }
    } else {
        Seq::empty()
    }
}

/// The references of a list of namespaces, each with its prefixes.
pub open spec fn namespaces_refs(l: Seq<Seq<char>>) -> FileReferencesView
    decreases l.len(),
{
    if l.len() == 0 {
        no_refs()
    } else {
        refs_union(namespaces_refs(l.drop_last()), namespace_refs(l.last()))
    }
}

/// The references of a comment: those of its namespaces, when it holds a backslash.
pub open spec fn comment_refs(text: Seq<char>) -> FileReferencesView {
    if text.contains('\\') { namespaces_refs(comment_namespaces(text, 0)) } else { no_refs() }
}

/// The kinds of parent under which a simple name is a reference.
pub open spec fn reference_parent(k: Seq<char>) -> bool {
    ||| k == "named_type"@
    ||| k == "base_clause"@
    ||| k == "class_interface_clause"@
    ||| k == "object_creation_expression"@
    ||| k == "class_constant_access_expression"@
    ||| k == "scoped_call_expression"@
    ||| k == "catch_clause"@
    ||| k == "function_call_expression"@
    ||| k == "use_as_clause"@
    ||| k == "namespace_use_clause"@
    ||| k == "property_declaration"@
    ||| k == "enum_declaration"@
    ||| k == "use_declaration"@
}

/// The kind of a node's parent; empty for the root.
pub open spec fn parent_kind(t: Seq<SyntaxNode>, i: int) -> Seq<char> {
    match t[i].parent {
        Some(p) => t[p as int].kind@,
        None => Seq::empty(),
    }
}

/// The first of the listed children that has the kind.
pub open spec fn first_child_of_kind(t: Seq<SyntaxNode>, cs: Seq<usize>, kind: Seq<char>) -> Option<int>
    decreases cs.len(),
{
    if cs.len() == 0 {
        None
    } else if t[cs[0] as int].kind@ == kind {
        Some(cs[0] as int)
    } else {
        first_child_of_kind(t, cs.drop_first(), kind)
    }
}

/// The references of the listed nodes, each by `f`, together.
pub open spec fn children_refs(cs: Seq<usize>, f: spec_fn(int) -> FileReferencesView) -> FileReferencesView
    decreases cs.len(),
{
    if cs.len() == 0 {
        no_refs()
    } else {
        refs_union(children_refs(cs.drop_last(), f), f(cs.last() as int))
    }
}

/// Inside a grouped use, a clause's names and namespace names are identifiers.
pub open spec fn group_clause_child_refs(t: Seq<SyntaxNode>, d: int) -> FileReferencesView {
    if t[d].kind@ == "name"@ || t[d].kind@ == "namespace_name"@ { name_ref(t[d].text@) } else { no_refs() }
}

/// A grouped use (`use A\{B, C};`): the names of its clauses.
pub open spec fn group_child_refs(t: Seq<SyntaxNode>, c: int) -> FileReferencesView {
    if t[c].kind@ == "namespace_use_clause"@ {
        children_refs(t[c].children@, |d: int| group_clause_child_refs(t, d))
    } else {
        no_refs()
    }
}

/// What a part of a use clause refers to.
pub open spec fn use_clause_child_refs(t: Seq<SyntaxNode>, d: int) -> FileReferencesView {
    let k = t[d].kind@;
    if k == "namespace_name"@ || k == "qualified_name"@ {
        qualified_refs(t[d].text@)
    } else if k == "name"@ {
        name_ref(t[d].text@)
    } else if k == "namespace_use_group"@ {
        children_refs(t[d].children@, |c: int| group_child_refs(t, c))
    } else {
        no_refs()
    }
}

/// What a part of a use declaration refers to.
pub open spec fn use_declaration_child_refs(t: Seq<SyntaxNode>, c: int) -> FileReferencesView {
    let k = t[c].kind@;
    if k == "namespace_use_clause"@ || k == "namespace_use_group_clause"@ {
        children_refs(t[c].children@, |d: int| use_clause_child_refs(t, d))
    } else if k == "namespace_name"@ || k == "qualified_name"@ {
        qualified_refs(t[c].text@)
    } else {
        no_refs()
    }
}

/// What one node refers to, by its kind.
pub open spec fn node_refs(t: Seq<SyntaxNode>, i: int) -> FileReferencesView {
    let k = t[i].kind@;
    let text = t[i].text@;
    if k == "namespace_definition"@ {
        match first_child_of_kind(t, t[i].children@, "namespace_name"@) {
            Some(c) => namespace_refs(t[c].text@),
            None => no_refs(),
        }
    } else if k == "namespace_use_declaration"@ {
        children_refs(t[i].children@, |c: int| use_declaration_child_refs(t, c))
    } else if k == "qualified_name"@ {
        qualified_refs(text)
    } else if k == "namespace_name"@ {
        if parent_kind(t, i) != "qualified_name"@ && text.contains('\\') { namespace_refs(text) } else { no_refs() }
    } else if k == "name"@ {
        if reference_parent(parent_kind(t, i)) { name_ref(text) } else { no_refs() }
    } else if k == "string"@ {
        string_refs(text)
    } else if k == "encapsed_string"@ {
        encapsed_refs(text)
    } else if k == "comment"@ {
        comment_refs(text)
    } else {
        no_refs()
    }
}

/// What the first `n` nodes refer to, together.
pub open spec fn tree_refs(t: Seq<SyntaxNode>, n: int) -> FileReferencesView
    decreases n,
{
    if n <= 0 {
        no_refs()
    } else {
        refs_union(tree_refs(t, n - 1), node_refs(t, n - 1))
    }
}

/// What a parsed file refers to: every node's references, together.
pub open spec fn file_refs(t: Seq<SyntaxNode>) -> FileReferencesView {
    tree_refs(t, t.len() as int)
}

// ---------------------------------------------------------------------------
// Collecting them
// ---------------------------------------------------------------------------

/// `new` is `old` with `add` added.
pub open spec fn grew_by(old: FileReferencesView, new: FileReferencesView, add: FileReferencesView) -> bool {
    &&& new.namespaces == old.namespaces.union(add.namespaces)
    &&& new.identifiers == old.identifiers.union(add.identifiers)
    &&& new.strings == old.strings.union(add.strings)
}

proof fn lemma_grew_trans(a: FileReferencesView, b: FileReferencesView, c: FileReferencesView, x: FileReferencesView, y: FileReferencesView)
    requires
        grew_by(a, b, x),
        grew_by(b, c, y),
    ensures
        grew_by(a, c, refs_union(x, y)),
{
    assert(c.namespaces =~= a.namespaces.union(refs_union(x, y).namespaces));
    assert(c.identifiers =~= a.identifiers.union(refs_union(x, y).identifiers));
    assert(c.strings =~= a.strings.union(refs_union(x, y).strings));
}

proof fn lemma_grew_none(a: FileReferencesView)
    ensures
        grew_by(a, a, no_refs()),
{
    assert(a.namespaces =~= a.namespaces.union(Set::empty()));
    assert(a.identifiers =~= a.identifiers.union(Set::empty()));
    assert(a.strings =~= a.strings.union(Set::empty()));
}

/// Records a namespace with its prefixes.
fn add_namespace(refs: &mut FileReferences, ns: &str)
    ensures
        grew_by(old(refs)@, final(refs)@, namespace_refs(ns@)),
{
    refs.add_namespace_with_prefixes(ns);
    assert(final(refs)@.identifiers =~= old(refs)@.identifiers.union(Set::empty()));
    assert(final(refs)@.strings =~= old(refs)@.strings.union(Set::empty()));
}

/// Records an identifier.
fn add_identifier(refs: &mut FileReferences, name: &str)
    ensures
        grew_by(old(refs)@, final(refs)@, ident_ref(name@)),
{
    refs.insert_identifier(to_owned(name));
    assert(final(refs)@.identifiers =~= old(refs)@.identifiers.union(set![name@]));
    assert(final(refs)@.namespaces =~= old(refs)@.namespaces.union(Set::empty()));
    assert(final(refs)@.strings =~= old(refs)@.strings.union(Set::empty()));
}

/// Records a string's contents.
fn add_string(refs: &mut FileReferences, text: &str)
    ensures
        grew_by(old(refs)@, final(refs)@, string_ref(text@)),
{
    refs.insert_string(to_owned(text));
    assert(final(refs)@.strings =~= old(refs)@.strings.union(set![text@]));
    assert(final(refs)@.namespaces =~= old(refs)@.namespaces.union(Set::empty()));
    assert(final(refs)@.identifiers =~= old(refs)@.identifiers.union(Set::empty()));
}

/// Records a qualified name (see [`qualified_refs`]).
fn add_qualified(refs: &mut FileReferences, text: &str)
    ensures
        grew_by(old(refs)@, final(refs)@, qualified_refs(text@)),
{
    let clean = trim_start_char(text, '\\');
    if contains_char(clean.as_str(), '\\') {
        add_namespace(refs, clean.as_str());
    } else if !clean.as_str().is_empty() {
        add_identifier(refs, clean.as_str());
    } else {
        proof { lemma_grew_none(refs@); }
    }
}

/// Records a name when it is not empty.
fn add_name(refs: &mut FileReferences, text: &str)
    ensures
        grew_by(old(refs)@, final(refs)@, name_ref(text@)),
{
    if !text.is_empty() {
        add_identifier(refs, text);
    } else {
        proof { lemma_grew_none(refs@); }
    }
}

/// Records a single-quoted string (see [`string_refs`]).
fn extract_string_references(refs: &mut FileReferences, text: &str)
    ensures
        grew_by(old(refs)@, final(refs)@, string_refs(text@)),
{
    let a = trim_start_char(text, '\'');
    let inner = trim_end_char(a.as_str(), '\'');
    if contains_char(inner.as_str(), '\\') {
        let ghost r0 = refs@;
        add_string(refs, inner.as_str());
        let ghost r1 = refs@;
        proof {
            reveal_strlit("\\\\");
            assert("\\\\"@ =~= seq!['\\', '\\']);
        }
        if !starts_with(inner.as_str(), "\\\\") {
            add_namespace(refs, inner.as_str());
        } else {
            proof { lemma_grew_none(refs@); }
        }
        proof {
            lemma_grew_trans(r0, r1, refs@, string_ref(inner@),
                if !is_prefix(seq!['\\', '\\'], inner@) { namespace_refs(inner@) } else { no_refs() });
        }
    } else {
        proof { lemma_grew_none(refs@); }
    }
}

/// Records a double-quoted string (see [`encapsed_refs`]).
fn add_encapsed_references(refs: &mut FileReferences, text: &str)
    ensures
        grew_by(old(refs)@, final(refs)@, encapsed_refs(text@)),
{
    let a = trim_start_char(text, '"');
    let inner = trim_end_char(a.as_str(), '"');
    if contains_char(inner.as_str(), '\\') {
        let ghost r0 = refs@;
        add_string(refs, inner.as_str());
        let ghost r1 = refs@;
        proof {
            reveal_strlit("\\\\");
            reveal_strlit("\\");
            assert("\\\\"@ =~= seq!['\\', '\\']);
            assert("\\"@ =~= seq!['\\']);
        }
        let normalized = replace_str(inner.as_str(), "\\\\", "\\");
        if contains_char(normalized.as_str(), '\\') {
            add_namespace(refs, normalized.as_str());
        } else {
            proof { lemma_grew_none(refs@); }
        }
        proof {
            let nz = replace_all(inner@, seq!['\\', '\\'], seq!['\\']);
            lemma_grew_trans(r0, r1, refs@, string_ref(inner@),
                if nz.contains('\\') { namespace_refs(nz) } else { no_refs() });
        }
    } else {
        proof { lemma_grew_none(refs@); }
    }
}

/// Whether a character continues a name-like run.
fn is_run_char(c: char) -> (r: bool)
    ensures
        r == run_char(c),
{
    ('a' <= c && c <= 'z') || ('A' <= c && c <= 'Z') || ('0' <= c && c <= '9') || c == '_' || c == '\\'
}

/// Records the namespaces a comment mentions (see [`comment_namespaces`]).
fn extract_namespaces_from_text(text: &str, refs: &mut FileReferences)
    ensures
        grew_by(old(refs)@, final(refs)@, namespaces_refs(comment_namespaces(text@, 0))),
{
    let t = to_chars(text);
    let len = t.len();
    let mut i: usize = 0;
    let ghost mut found: Seq<Seq<char>> = Seq::empty();
    proof { lemma_grew_none(refs@); }
    while i < len
        invariant
            t@ == text@,
            len == t@.len(),
            i <= len,
            found + comment_namespaces(t@, i as int) == comment_namespaces(t@, 0),
            grew_by(old(refs)@, refs@, namespaces_refs(found)),
        decreases len - i,
    {
        let c = t[i];
        if c == '\\' || ('a' <= c && c <= 'z') || ('A' <= c && c <= 'Z') || c == '_' {
            let start = i;
            let mut has_backslash = false;
            i += 1;
            if c == '\\' {
                has_backslash = true;
            }
            proof {
                lemma_run_end(t@, start + 1);
                assert(t@.subrange(start as int, i as int) =~= seq![c]);
                assert(seq![c].contains('\\') == (c == '\\')) by {
                    if c == '\\' {
                        assert(seq![c][0] == '\\');
                    }
                }
            }
            while i < len && is_run_char(t[i])
                invariant
                    t@ == text@,
                    len == t@.len(),
                    start < i <= len,
                    run_end(t@, i as int) == run_end(t@, start + 1),
                    forall|k: int| start < k < i ==> run_char(#[trigger] t@[k]),
                    has_backslash == t@.subrange(start as int, i as int).contains('\\'),
                decreases len - i,
            {
                if t[i] == '\\' {
                    has_backslash = true;
                }
                proof {
                    let a = t@.subrange(start as int, i as int);
                    assert(t@.subrange(start as int, i + 1) == a.push(t@[i as int]));
                    assert(a.push(t@[i as int]).contains('\\') == (a.contains('\\') || t@[i as int] == '\\')) by {
                        if a.contains('\\') {
                            let k = choose|k: int| 0 <= k < a.len() && a[k] == '\\';
                            assert(a.push(t@[i as int])[k] == '\\');
                        }
                        if t@[i as int] == '\\' {
                            assert(a.push(t@[i as int])[a.len() as int] == '\\');
                        }
                        if a.push(t@[i as int]).contains('\\') {
                            let k = choose|k: int| 0 <= k < a.len() + 1 && a.push(t@[i as int])[k] == '\\';
                            if k < a.len() {
                                assert(a[k] == '\\');
                            }
                        }
                    }
                }
                i += 1;
            }
            let ghost j = i as int;
            proof {
                assert(run_end(t@, i as int) == i);
                assert(comment_namespaces(t@, start as int) == comment_run(t@, start as int));
            }
            if has_backslash && i - start > 2 {
                let segment = from_char_range(t.as_slice(), start, i);
                let a = trim_start_char(segment.as_str(), '\\');
                let clean = trim_end_char(a.as_str(), '\\');
                if contains_char(clean.as_str(), '\\') && !starts_with(clean.as_str(), "\\") {
                    let ghost r0 = refs@;
                    add_namespace(refs, clean.as_str());
                    proof {
                        reveal_strlit("\\");
                        assert("\\"@ =~= seq!['\\']);
                        lemma_grew_trans(old(refs)@, r0, refs@, namespaces_refs(found), namespace_refs(clean@));
                        let nf = found.push(clean@);
                        assert(nf.drop_last() == found);
                        assert(namespaces_refs(nf) == refs_union(namespaces_refs(found), namespace_refs(clean@)));
                        assert(found + comment_namespaces(t@, start as int) == nf + comment_namespaces(t@, j));
                        found = nf;
                    }
                } else {
                    proof {
                        reveal_strlit("\\");
                        assert("\\"@ =~= seq!['\\']);
                    }
                }
            }
        } else {
            proof {
                assert(comment_namespaces(t@, i as int) == comment_namespaces(t@, i + 1));
            }
            i += 1;
        }
    }
    proof {
        assert(comment_namespaces(t@, i as int) == Seq::<Seq<char>>::empty());
        assert(found + Seq::<Seq<char>>::empty() == found);
    }
}

/// The kind of a node's parent, empty for the root.
fn parent_kind_of(t: &SyntaxTree, i: usize) -> (r: &str)
    requires
        t.wf(),
        i < t.nodes@.len(),
    ensures
        r@ == parent_kind(t.nodes@, i as int),
{
    match t.nodes[i].parent {
        Some(p) => t.nodes[p].kind.as_str(),
        None => {
            proof {
                reveal_strlit("");
            }
            ""
        },
    }
}

/// The first child of a node that has the kind.
pub(crate) fn find_child_by_kind(t: &SyntaxTree, i: usize, kind: &str) -> (r: Option<usize>)
    requires
        t.wf(),
        i < t.nodes@.len(),
    ensures
        match r {
            Some(c) => first_child_of_kind(t.nodes@, t.nodes@[i as int].children@, kind@) == Some(c as int) && c < t.nodes@.len(),
            None => first_child_of_kind(t.nodes@, t.nodes@[i as int].children@, kind@) is None,
        },
{
    let cs = &t.nodes[i].children;
    let mut k: usize = 0;
    assert(cs@.skip(0) == cs@);
    while k < cs.len()
        invariant
            t.wf(),
            i < t.nodes@.len(),
            cs@ == t.nodes@[i as int].children@,
            k <= cs@.len(),
            first_child_of_kind(t.nodes@, cs@, kind@) == first_child_of_kind(t.nodes@, cs@.skip(k as int), kind@),
        decreases cs.len() - k,
    {
        let c = cs[k];
        assert(cs@.skip(k as int)[0] == c);
        assert(cs@.skip(k as int).drop_first() == cs@.skip(k + 1));
        assert(c < t.nodes@.len());
        if str_eq(t.nodes[c].kind.as_str(), kind) {
            return Some(c);
        }
        k += 1;
    }
    None
}

proof fn lemma_children_refs_step(cs: Seq<usize>, k: int, f: spec_fn(int) -> FileReferencesView)
    requires
        0 <= k < cs.len(),
    ensures
        children_refs(cs.take(k + 1), f) == refs_union(children_refs(cs.take(k), f), f(cs[k] as int)),
{
    assert(cs.take(k + 1).drop_last() == cs.take(k));
    assert(cs.take(k + 1).last() == cs[k]);
}

/// Records the names of a grouped use (see [`group_child_refs`]).
fn extract_use_group(t: &SyntaxTree, g: usize, refs: &mut FileReferences)
    requires
        t.wf(),
        g < t.nodes@.len(),
    ensures
        grew_by(old(refs)@, final(refs)@, children_refs(t.nodes@[g as int].children@, |c: int| group_child_refs(t.nodes@, c))),
{
    let cs = &t.nodes[g].children;
    let ghost f = |c: int| group_child_refs(t.nodes@, c);
    let mut k: usize = 0;
    proof { lemma_grew_none(refs@); }
    assert(cs@.take(0) =~= Seq::<usize>::empty());
    while k < cs.len()
        invariant
            t.wf(),
            g < t.nodes@.len(),
            cs@ == t.nodes@[g as int].children@,
            f == (|c: int| group_child_refs(t.nodes@, c)),
            k <= cs@.len(),
            grew_by(old(refs)@, refs@, children_refs(cs@.take(k as int), f)),
        decreases cs.len() - k,
    {
        let c = cs[k];
        assert(c < t.nodes@.len());
        let ghost r0 = refs@;
        if str_eq(t.nodes[c].kind.as_str(), "namespace_use_clause") {
            let ds = &t.nodes[c].children;
            let ghost h = |d: int| group_clause_child_refs(t.nodes@, d);
            let mut m: usize = 0;
            proof { lemma_grew_none(refs@); }
            assert(ds@.take(0) =~= Seq::<usize>::empty());
            while m < ds.len()
                invariant
                    t.wf(),
                    c < t.nodes@.len(),
                    ds@ == t.nodes@[c as int].children@,
                    h == (|d: int| group_clause_child_refs(t.nodes@, d)),
                    m <= ds@.len(),
                    grew_by(r0, refs@, children_refs(ds@.take(m as int), h)),
                decreases ds.len() - m,
            {
                let d = ds[m];
                assert(d < t.nodes@.len());
                let ghost r1 = refs@;
                let kd = t.nodes[d].kind.as_str();
                if str_eq(kd, "name") || str_eq(kd, "namespace_name") {
                    add_name(refs, t.nodes[d].text.as_str());
                } else {
                    proof { lemma_grew_none(refs@); }
                }
                proof {
                    lemma_grew_trans(r0, r1, refs@, children_refs(ds@.take(m as int), h), h(d as int));
                    lemma_children_refs_step(ds@, m as int, h);
                }
                m += 1;
            }
            assert(ds@.take(ds@.len() as int) == ds@);
        } else {
            proof { lemma_grew_none(refs@); }
        }
        proof {
            lemma_grew_trans(old(refs)@, r0, refs@, children_refs(cs@.take(k as int), f), f(c as int));
            lemma_children_refs_step(cs@, k as int, f);
        }
        k += 1;
    }
    assert(cs@.take(cs@.len() as int) == cs@);
}

/// Records what a part of a use clause refers to (see [`use_clause_child_refs`]).
fn extract_use_clause_child(t: &SyntaxTree, d: usize, refs: &mut FileReferences)
    requires
        t.wf(),
        d < t.nodes@.len(),
    ensures
        grew_by(old(refs)@, final(refs)@, use_clause_child_refs(t.nodes@, d as int)),
{
    let kd = t.nodes[d].kind.as_str();
    if str_eq(kd, "namespace_name") || str_eq(kd, "qualified_name") {
        add_qualified(refs, t.nodes[d].text.as_str());
    } else if str_eq(kd, "name") {
        add_name(refs, t.nodes[d].text.as_str());
    } else if str_eq(kd, "namespace_use_group") {
        extract_use_group(t, d, refs);
    } else {
        proof { lemma_grew_none(refs@); }
    }
}

/// Records what a use declaration refers to (see [`use_declaration_child_refs`]).
fn extract_use_declaration(t: &SyntaxTree, i: usize, refs: &mut FileReferences)
    requires
        t.wf(),
        i < t.nodes@.len(),
    ensures
        grew_by(old(refs)@, final(refs)@, children_refs(t.nodes@[i as int].children@, |c: int| use_declaration_child_refs(t.nodes@, c))),
{
    let cs = &t.nodes[i].children;
    let ghost f = |c: int| use_declaration_child_refs(t.nodes@, c);
    let mut k: usize = 0;
    proof { lemma_grew_none(refs@); }
    assert(cs@.take(0) =~= Seq::<usize>::empty());
    while k < cs.len()
        invariant
            t.wf(),
            i < t.nodes@.len(),
            cs@ == t.nodes@[i as int].children@,
            f == (|c: int| use_declaration_child_refs(t.nodes@, c)),
            k <= cs@.len(),
            grew_by(old(refs)@, refs@, children_refs(cs@.take(k as int), f)),
        decreases cs.len() - k,
    {
        let c = cs[k];
        assert(c < t.nodes@.len());
        let ghost r0 = refs@;
        let kc = t.nodes[c].kind.as_str();
        if str_eq(kc, "namespace_use_clause") || str_eq(kc, "namespace_use_group_clause") {
            let ds = &t.nodes[c].children;
            let ghost h = |d: int| use_clause_child_refs(t.nodes@, d);
            let mut m: usize = 0;
            proof { lemma_grew_none(refs@); }
            assert(ds@.take(0) =~= Seq::<usize>::empty());
            while m < ds.len()
                invariant
                    t.wf(),
                    c < t.nodes@.len(),
                    ds@ == t.nodes@[c as int].children@,
                    h == (|d: int| use_clause_child_refs(t.nodes@, d)),
                    m <= ds@.len(),
                    grew_by(r0, refs@, children_refs(ds@.take(m as int), h)),
                decreases ds.len() - m,
            {
                let d = ds[m];
                assert(d < t.nodes@.len());
                let ghost r1 = refs@;
                extract_use_clause_child(t, d, refs);
                proof {
                    lemma_grew_trans(r0, r1, refs@, children_refs(ds@.take(m as int), h), h(d as int));
                    lemma_children_refs_step(ds@, m as int, h);
                }
                m += 1;
            }
            assert(ds@.take(ds@.len() as int) == ds@);
        } else if str_eq(kc, "namespace_name") || str_eq(kc, "qualified_name") {
            add_qualified(refs, t.nodes[c].text.as_str());
        } else {
            proof { lemma_grew_none(refs@); }
        }
        proof {
            lemma_grew_trans(old(refs)@, r0, refs@, children_refs(cs@.take(k as int), f), f(c as int));
            lemma_children_refs_step(cs@, k as int, f);
        }
        k += 1;
    }
    assert(cs@.take(cs@.len() as int) == cs@);
}

/// Whether a simple name under this kind of parent is a reference.
fn is_reference_parent(k: &str) -> (r: bool)
    ensures
        r == reference_parent(k@),
{
    str_eq(k, "named_type") || str_eq(k, "base_clause") || str_eq(k, "class_interface_clause")
        || str_eq(k, "object_creation_expression") || str_eq(k, "class_constant_access_expression")
        || str_eq(k, "scoped_call_expression") || str_eq(k, "catch_clause")
        || str_eq(k, "function_call_expression") || str_eq(k, "use_as_clause")
        || str_eq(k, "namespace_use_clause") || str_eq(k, "property_declaration")
        || str_eq(k, "enum_declaration") || str_eq(k, "use_declaration")
}

/// Records what one node refers to (see [`node_refs`]).
fn walk_for_references(t: &SyntaxTree, i: usize, refs: &mut FileReferences)
    requires
        t.wf(),
        i < t.nodes@.len(),
    ensures
        grew_by(old(refs)@, final(refs)@, node_refs(t.nodes@, i as int)),
{
    let kind = t.nodes[i].kind.as_str();
    let text = t.nodes[i].text.as_str();
    if str_eq(kind, "namespace_definition") {
        match find_child_by_kind(t, i, "namespace_name") {
            Some(c) => add_namespace(refs, t.nodes[c].text.as_str()),
            None => {
                proof { lemma_grew_none(refs@); }
            },
        }
    } else if str_eq(kind, "namespace_use_declaration") {
        extract_use_declaration(t, i, refs);
    } else if str_eq(kind, "qualified_name") {
        add_qualified(refs, text);
    } else if str_eq(kind, "namespace_name") {
        if !str_eq(parent_kind_of(t, i), "qualified_name") && contains_char(text, '\\') {
            add_namespace(refs, text);
        } else {
            proof { lemma_grew_none(refs@); }
        }
    } else if str_eq(kind, "name") {
        if is_reference_parent(parent_kind_of(t, i)) {
            add_name(refs, text);
        } else {
            proof { lemma_grew_none(refs@); }
        }
    } else if str_eq(kind, "string") {
        extract_string_references(refs, text);
    } else if str_eq(kind, "encapsed_string") {
        add_encapsed_references(refs, text);
    } else if str_eq(kind, "comment") {
        if contains_char(text, '\\') {
            extract_namespaces_from_text(text, refs);
        } else {
            proof { lemma_grew_none(refs@); }
        }
    } else {
        proof { lemma_grew_none(refs@); }
    }
}

/// The references of a parsed file: every node's, in pre-order (see [`file_refs`]).
pub fn references_of(t: &SyntaxTree) -> (r: FileReferences)
    requires
        t.wf(),
    ensures
        r@ == file_refs(t.nodes@),
{
    let mut refs = FileReferences::new();
    let mut i: usize = 0;
    proof {
        assert(refs@.namespaces =~= no_refs().namespaces.union(tree_refs(t.nodes@, 0).namespaces));
        assert(refs@.identifiers =~= no_refs().identifiers.union(tree_refs(t.nodes@, 0).identifiers));
        assert(refs@.strings =~= no_refs().strings.union(tree_refs(t.nodes@, 0).strings));
    }
    while i < t.nodes.len()
        invariant
            t.wf(),
            i <= t.nodes@.len(),
            grew_by(no_refs(), refs@, tree_refs(t.nodes@, i as int)),
        decreases t.nodes.len() - i,
    {
        let ghost r0 = refs@;
        walk_for_references(t, i, &mut refs);
        proof {
            lemma_grew_trans(no_refs(), r0, refs@, tree_refs(t.nodes@, i as int), node_refs(t.nodes@, i as int));
        }
        i += 1;
    }
    proof {
        let x = file_refs(t.nodes@);
        assert(refs@.namespaces =~= x.namespaces);
        assert(refs@.identifiers =~= x.identifiers);
        assert(refs@.strings =~= x.strings);
    }
    refs
}

/// The references of a file parsed by tree-sitter (see [`references_of`]): the
/// tree is read into its flat form, then every node is visited.
pub fn extract_references(tree: &tree_sitter::Tree, source: &str) -> (r: FileReferences)
    ensures
        exists|t: SyntaxTree| #[trigger] t.wf()
            && crate::parser::php_parser::flat_matches(t.nodes@, crate::parser::php_parser::tree_nodes(*tree), source@)
            && r@ == file_refs(t.nodes@),
{
    let flat = crate::parser::php_parser::flatten_tree(tree, source);
    references_of(&flat)
}

/// What any one of the first `n` nodes refers to is among what they refer to
/// together.
proof fn lemma_tree_refs_include(t: Seq<SyntaxNode>, n: int, i: int)
    requires
        0 <= i < n,
    ensures
        node_refs(t, i).identifiers.subset_of(tree_refs(t, n).identifiers),
        node_refs(t, i).namespaces.subset_of(tree_refs(t, n).namespaces),
        node_refs(t, i).strings.subset_of(tree_refs(t, n).strings),
    decreases n,
{
    if i < n - 1 {
        lemma_tree_refs_include(t, n - 1, i);
    }
}

/// A simple name used as a class or function reference (its parent a type, an
/// `extends` or `implements` clause, a `new`, a class constant access such as
/// `Name::CONST` or `Name::class`, a static call, a `catch`, a call, a `use`
/// clause or alias, a property type, or an enum declaration) is among the file's
/// identifier references.
pub proof fn law_referencing_names_recorded(t: Seq<SyntaxNode>, i: int)
    requires
        0 <= i < t.len(),
        t[i].kind@ == "name"@,
        t[i].text@.len() > 0,
        t[i].parent matches Some(p) && ({
            let parent = t[p as int].kind@;
            parent == "class_constant_access_expression"@ || parent == "named_type"@ || parent == "base_clause"@
                || parent == "class_interface_clause"@ || parent == "object_creation_expression"@
                || parent == "scoped_call_expression"@ || parent == "catch_clause"@
                || parent == "function_call_expression"@ || parent == "use_as_clause"@
                || parent == "namespace_use_clause"@ || parent == "property_declaration"@
                || parent == "enum_declaration"@ || parent == "use_declaration"@
        }),
    ensures
        file_refs(t).identifiers.contains(t[i].text@),
{
    reveal_strlit("name");
    reveal_strlit("namespace_definition");
    reveal_strlit("namespace_use_declaration");
    reveal_strlit("qualified_name");
    reveal_strlit("namespace_name");
    assert("name"@ != "namespace_definition"@) by {
        assert("name"@.len() != "namespace_definition"@.len());
    }
    assert("name"@ != "namespace_use_declaration"@) by {
        assert("name"@.len() != "namespace_use_declaration"@.len());
    }
    assert("name"@ != "qualified_name"@) by {
        assert("name"@.len() != "qualified_name"@.len());
    }
    assert("name"@ != "namespace_name"@) by {
        assert("name"@.len() != "namespace_name"@.len());
    }
    assert(reference_parent(parent_kind(t, i)));
    assert(node_refs(t, i) == name_ref(t[i].text@));
    assert(node_refs(t, i).identifiers.contains(t[i].text@));
    lemma_tree_refs_include(t, t.len() as int, i);
}

} // verus!
