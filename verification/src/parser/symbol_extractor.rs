//! The symbols a PHP file declares: namespaces, classes, interfaces, traits,
//! global functions and `define()`d constants, read from its parse tree.

use vstd::prelude::*;
use crate::parser::php_parser::{SyntaxNode, SyntaxTree, tree_wf};
use crate::parser::reference_extractor::{find_child_by_kind, first_child_of_kind};
use crate::strs::{opt_seq, seqs, str_eq, to_owned, trim_end, trim_end_char, trim_start, trim_start_char};

verus! {

/// A namespace declared in a file.
#[derive(Debug, Clone, PartialEq, Eq)]
pub struct ExtractedNamespace {
    pub name: String,
}

/// A class declared in a file.
#[derive(Debug, Clone, PartialEq, Eq)]
pub struct ExtractedClass {
    pub name: String,
    pub namespace: String,
    pub extends: Option<String>,
    pub implements: Vec<String>,
    pub is_abstract: bool,
}

/// An interface declared in a file.
#[derive(Debug, Clone, PartialEq, Eq)]
pub struct ExtractedInterface {
    pub name: String,
    pub namespace: String,
    pub extends: Vec<String>,
}

/// A trait declared in a file.
#[derive(Debug, Clone, PartialEq, Eq)]
pub struct ExtractedTrait {
    pub name: String,
    pub namespace: String,
}

/// A global function declared in a file (not a method).
#[derive(Debug, Clone, PartialEq, Eq)]
pub struct ExtractedFunction {
    pub name: String,
    pub namespace: String,
}

/// A constant declared with `define('NAME', value)`.
#[derive(Debug, Clone, PartialEq, Eq)]
pub struct ExtractedConstant {
    pub name: String,
    pub namespace: String,
}

/// Everything declared in one file, in the order of the source.
#[derive(Debug, Clone, Default)]
pub struct ExtractedSymbols {
    pub namespaces: Vec<ExtractedNamespace>,
    pub classes: Vec<ExtractedClass>,
    pub interfaces: Vec<ExtractedInterface>,
    pub traits: Vec<ExtractedTrait>,
    pub functions: Vec<ExtractedFunction>,
    pub constants: Vec<ExtractedConstant>,
}

/// What is known of a declared class: name, namespace, parent, interfaces, and
/// whether it is abstract.
pub type ClassSpec = (Seq<char>, Seq<char>, Option<Seq<char>>, Seq<Seq<char>>, bool);

/// What is known of a declared interface: name, namespace, parents.
pub type InterfaceSpec = (Seq<char>, Seq<char>, Seq<Seq<char>>);

/// A name with its namespace.
pub type NamedSpec = (Seq<char>, Seq<char>);

// ---------------------------------------------------------------------------
// Where a node stands
// ---------------------------------------------------------------------------

/// How deep a node lies: the root at depth 0.
pub open spec fn depth(t: Seq<SyntaxNode>, i: int) -> int
    decreases i,
{
    if 0 <= i < t.len() {
        match t[i].parent {
            Some(p) => if (p as int) < i { depth(t, p as int) + 1 } else { 0 },
            None => 0,
        }
    } else {
        0
    }
}

/// Every listed position is a node of the list.
pub open spec fn ids_in(t: Seq<SyntaxNode>, cs: Seq<usize>) -> bool {
    forall|k: int| 0 <= k < cs.len() ==> #[trigger] cs[k] < t.len()
}

/// The first named node among the listed ones.
pub open spec fn first_named(t: Seq<SyntaxNode>, cs: Seq<usize>) -> Option<int>
    decreases cs.len(),
{
    if cs.len() == 0 {
        None
    } else if t[cs[0] as int].is_named {
        Some(cs[0] as int)
    } else {
        first_named(t, cs.drop_first())
    }
}

/// The first named node of the kind among the listed ones.
pub open spec fn first_named_of_kind(t: Seq<SyntaxNode>, cs: Seq<usize>, kind: Seq<char>) -> Option<int>
    decreases cs.len(),
{
    if cs.len() == 0 {
        None
    } else if t[cs[0] as int].is_named && t[cs[0] as int].kind@ == kind {
        Some(cs[0] as int)
    } else {
        first_named_of_kind(t, cs.drop_first(), kind)
    }
}

/// The name a namespace definition declares: the text of its first named
/// `namespace_name` child, or `\` when there is none.
pub open spec fn declared_namespace(t: Seq<SyntaxNode>, i: int) -> Seq<char> {
    match first_named_of_kind(t, t[i].children@, "namespace_name"@) {
        Some(c) => t[c].text@,
        None => seq!['\\'],
    }
}

/// Whether node `i` is a namespace definition directly under the root.
pub open spec fn opens_namespace(t: Seq<SyntaxNode>, i: int) -> bool {
    &&& t[i].kind@ == "namespace_definition"@
    &&& t[i].parent matches Some(q) && (q as int) < t.len() && t[q as int].parent is None
}

/// The namespace opened last by a namespace definition directly under the root
/// among the first `n` nodes (a `namespace X;` statement applies to what follows
/// it), or `\`.
pub open spec fn open_namespace(t: Seq<SyntaxNode>, n: int) -> Seq<char>
    decreases n,
{
    if n <= 0 {
        seq!['\\']
    } else if opens_namespace(t, n - 1) {
        declared_namespace(t, n - 1)
    } else {
        open_namespace(t, n - 1)
    }
}

/// The namespace in which a node lies: the one declared by the nearest
/// enclosing namespace definition; for a statement directly under the root, the
/// namespace opened last before it (see [`open_namespace`]); else `\`.
pub open spec fn namespace_context(t: Seq<SyntaxNode>, i: int) -> Seq<char>
    decreases i,
{
    if 0 <= i < t.len() {
        match t[i].parent {
            Some(p) => if (p as int) < i {
                if t[p as int].kind@ == "namespace_definition"@ {
                    declared_namespace(t, p as int)
                } else if t[p as int].parent is None {
                    open_namespace(t, i)
                } else {
                    namespace_context(t, p as int)
                }
            } else {
                seq!['\\']
            },
            None => seq!['\\'],
        }
    } else {
        seq!['\\']
    }
}

// ---------------------------------------------------------------------------
// What a declaration says
// ---------------------------------------------------------------------------

/// A name-like node kind.
pub open spec fn name_kind(k: Seq<char>) -> bool {
    k == "name"@ || k == "qualified_name"@ || k == "namespace_name"@
}

/// The first name of a clause (`extends A`): the text of its first named
/// name-like child.
pub open spec fn first_clause_name(t: Seq<SyntaxNode>, cs: Seq<usize>) -> Option<Seq<char>>
    decreases cs.len(),
{
    if cs.len() == 0 {
        None
    } else if t[cs[0] as int].is_named && name_kind(t[cs[0] as int].kind@) {
        Some(t[cs[0] as int].text@)
    } else {
        first_clause_name(t, cs.drop_first())
    }
}

/// All non-empty names of a clause (`implements A, B`), in order.
pub open spec fn clause_names(t: Seq<SyntaxNode>, cs: Seq<usize>) -> Seq<Seq<char>>
    decreases cs.len(),
{
    if cs.len() == 0 {
        Seq::empty()
    } else {
        let c = cs.last() as int;
        clause_names(t, cs.drop_last()) + if t[c].is_named && name_kind(t[c].kind@) && t[c].text@.len() > 0 {
            seq![t[c].text@]
        } else {
            Seq::empty()
        }
    }
}

/// A class declaration read child by child: the last `name` gives the name, the
/// last `base_clause` the parent, the last `class_interface_clause` the
/// interfaces, and an `abstract` modifier makes it abstract.
pub open spec fn class_parts(t: Seq<SyntaxNode>, cs: Seq<usize>) -> (Seq<char>, Option<Seq<char>>, Seq<Seq<char>>, bool)
    decreases cs.len(),
{
    if cs.len() == 0 {
        (Seq::empty(), None, Seq::empty(), false)
    } else {
        let (n, e, im, ab) = class_parts(t, cs.drop_last());
        let c = cs.last() as int;
        let k = t[c].kind@;
        if k == "abstract_modifier"@ || k == "modifier"@ {
            (n, e, im, ab || t[c].text@ == "abstract"@)
        } else if k == "name"@ {
            (t[c].text@, e, im, ab)
        } else if k == "base_clause"@ {
            (n, first_clause_name(t, t[c].children@), im, ab)
        } else if k == "class_interface_clause"@ {
            (n, e, clause_names(t, t[c].children@), ab)
        } else {
            (n, e, im, ab)
        }
    }
}

/// An interface declaration read child by child: the last `name` and the last
/// `base_clause`.
pub open spec fn interface_parts(t: Seq<SyntaxNode>, cs: Seq<usize>) -> (Seq<char>, Seq<Seq<char>>)
    decreases cs.len(),
{
    if cs.len() == 0 {
        (Seq::empty(), Seq::empty())
    } else {
        let (n, e) = interface_parts(t, cs.drop_last());
        let c = cs.last() as int;
        let k = t[c].kind@;
        if k == "name"@ {
            (t[c].text@, e)
        } else if k == "base_clause"@ {
            (n, clause_names(t, t[c].children@))
        } else {
            (n, e)
        }
    }
}

/// The text of a string literal node: its first named `string_content` or
/// `string_value` child; otherwise, for a single-quoted string, the text without
/// quotes; for a double-quoted one likewise; none when empty or not a string.
pub open spec fn string_value(t: Seq<SyntaxNode>, i: int) -> Option<Seq<char>> {
    let k = t[i].kind@;
    if k == "string"@ {
        match first_string_content(t, t[i].children@) {
            Some(c) => Some(t[c].text@),
            None => {
                let x = trim_end(trim_end(trim_start(trim_start(t[i].text@, '\''), '"'), '\''), '"');
                if x.len() > 0 { Some(x) } else { None }
            },
        }
    } else if k == "encapsed_string"@ {
        let x = trim_end(trim_start(t[i].text@, '"'), '"');
        if x.len() > 0 { Some(x) } else { None }
    } else {
        None
    }
}

/// The first `string_content` or `string_value` node among the listed ones.
pub open spec fn first_string_content(t: Seq<SyntaxNode>, cs: Seq<usize>) -> Option<int>
    decreases cs.len(),
{
    if cs.len() == 0 {
        None
    } else if t[cs[0] as int].is_named && (t[cs[0] as int].kind@ == "string_content"@
        || t[cs[0] as int].kind@ == "string_value"@) {
        Some(cs[0] as int)
    } else {
        first_string_content(t, cs.drop_first())
    }
}

/// The first argument of a call: the first named child that is an `argument`
/// gives the string value of its first named child (or of itself when it has
/// none); before it, any named child with a string value gives that.
pub open spec fn first_argument(t: Seq<SyntaxNode>, cs: Seq<usize>) -> Option<Seq<char>>
    decreases cs.len(),
{
    if cs.len() == 0 {
        None
    } else {
        let c = cs[0] as int;
        if !t[c].is_named {
            first_argument(t, cs.drop_first())
        } else if t[c].kind@ == "argument"@ {
            match first_named(t, t[c].children@) {
                Some(x) => string_value(t, x),
                None => string_value(t, c),
            }
        } else {
            match string_value(t, c) {
                Some(v) => Some(v),
                None => first_argument(t, cs.drop_first()),
            }
        }
    }
}

/// A call read child by child: the last name-like child (`name` or
/// `qualified_name`) and the last `arguments` child.
pub open spec fn call_parts(t: Seq<SyntaxNode>, cs: Seq<usize>) -> (Seq<char>, Option<int>)
    decreases cs.len(),
{
    if cs.len() == 0 {
        (Seq::empty(), None)
    } else {
        let (n, a) = call_parts(t, cs.drop_last());
        let c = cs.last() as int;
        let k = t[c].kind@;
        if k == "name"@ || k == "qualified_name"@ {
            (t[c].text@, a)
        } else if k == "arguments"@ {
            (n, Some(c))
        } else {
            (n, a)
        }
    }
}

/// The constant a call defines: a call of `define` whose first argument is a
/// non-empty string.
pub open spec fn defined_constant(t: Seq<SyntaxNode>, call: int) -> Option<Seq<char>> {
    let (n, a) = call_parts(t, t[call].children@);
    if n != "define"@ {
        None
    } else {
        match a {
            Some(args) => match first_argument(t, t[args].children@) {
                Some(v) => if v.len() > 0 { Some(v) } else { None },
                None => None,
            },
            None => None,
        }
    }
}

/// The constants an expression statement defines, from its named call children.
pub open spec fn statement_constants(t: Seq<SyntaxNode>, cs: Seq<usize>) -> Seq<Seq<char>>
    decreases cs.len(),
{
    if cs.len() == 0 {
        Seq::empty()
    } else {
        let c = cs.last() as int;
        statement_constants(t, cs.drop_last()) + if t[c].is_named && t[c].kind@ == "function_call_expression"@ {
            match defined_constant(t, c) {
                Some(v) => seq![v],
                None => Seq::empty(),
            }
        } else {
            Seq::empty()
        }
    }
}

/// The name of the first `name` child, when the node has one.
pub open spec fn first_name(t: Seq<SyntaxNode>, i: int) -> Option<Seq<char>> {
    match first_child_of_kind(t, t[i].children@, "name"@) {
        Some(c) => Some(t[c].text@),
        None => None,
    }
}

// ---------------------------------------------------------------------------
// What a file declares
// ---------------------------------------------------------------------------

/// Declarations count at the top of the file or of a namespace: depth at most
/// two, or a statement of a braced namespace body.
pub open spec fn top_level(t: Seq<SyntaxNode>, i: int) -> bool {
    depth(t, i) <= 2 || in_namespace_body(t, i)
}

/// Whether node `i` is a statement of a braced namespace body: its parent's
/// parent is a namespace definition.
pub open spec fn in_namespace_body(t: Seq<SyntaxNode>, i: int) -> bool {
    t[i].parent matches Some(p) && (p as int) < t.len()
        && (t[p as int].parent matches Some(g) && (g as int) < t.len() && t[g as int].kind@ == "namespace_definition"@)
}

/// The class a node declares, if any.
pub open spec fn node_class(t: Seq<SyntaxNode>, i: int) -> Seq<ClassSpec> {
    if t[i].kind@ == "class_declaration"@ && top_level(t, i) {
        let (n, e, im, ab) = class_parts(t, t[i].children@);
        if n.len() > 0 { seq![(n, namespace_context(t, i), e, im, ab)] } else { Seq::empty() }
    } else {
        Seq::empty()
    }
}

/// The interface a node declares, if any.
pub open spec fn node_interface(t: Seq<SyntaxNode>, i: int) -> Seq<InterfaceSpec> {
    if t[i].kind@ == "interface_declaration"@ && top_level(t, i) {
        let (n, e) = interface_parts(t, t[i].children@);
        if n.len() > 0 { seq![(n, namespace_context(t, i), e)] } else { Seq::empty() }
    } else {
        Seq::empty()
    }
}

/// The trait or function a node of the kind declares, if any.
pub open spec fn node_named(t: Seq<SyntaxNode>, i: int, kind: Seq<char>) -> Seq<NamedSpec> {
    if t[i].kind@ == kind && top_level(t, i) {
        match first_name(t, i) {
            Some(n) => if n.len() > 0 { seq![(n, namespace_context(t, i))] } else { Seq::empty() },
            None => Seq::empty(),
        }
    } else {
        Seq::empty()
    }
}

/// Names paired with one namespace.
pub open spec fn with_namespace(vs: Seq<Seq<char>>, ns: Seq<char>) -> Seq<NamedSpec> {
    vs.map_values(|v: Seq<char>| (v, ns))
}

/// The constants a node defines.
pub open spec fn node_constants(t: Seq<SyntaxNode>, i: int) -> Seq<NamedSpec> {
    if t[i].kind@ == "expression_statement"@ && top_level(t, i) {
        with_namespace(statement_constants(t, t[i].children@), namespace_context(t, i))
    } else {
        Seq::empty()
    }
}

/// The namespaces the first `n` nodes declare.
pub open spec fn declared_namespaces(t: Seq<SyntaxNode>, n: int) -> Seq<Seq<char>>
    decreases n,
{
    if n <= 0 {
        Seq::empty()
    } else {
        declared_namespaces(t, n - 1) + if t[n - 1].kind@ == "namespace_definition"@ {
            seq![declared_namespace(t, n - 1)]
        } else {
            Seq::empty()
        }
    }
}

/// The classes the first `n` nodes declare.
pub open spec fn declared_classes(t: Seq<SyntaxNode>, n: int) -> Seq<ClassSpec>
    decreases n,
{
    if n <= 0 { Seq::empty() } else { declared_classes(t, n - 1) + node_class(t, n - 1) }
}

/// The interfaces the first `n` nodes declare.
pub open spec fn declared_interfaces(t: Seq<SyntaxNode>, n: int) -> Seq<InterfaceSpec>
    decreases n,
{
    if n <= 0 { Seq::empty() } else { declared_interfaces(t, n - 1) + node_interface(t, n - 1) }
}

/// The traits or functions the first `n` nodes declare.
pub open spec fn declared_named(t: Seq<SyntaxNode>, n: int, kind: Seq<char>) -> Seq<NamedSpec>
    decreases n,
{
    if n <= 0 { Seq::empty() } else { declared_named(t, n - 1, kind) + node_named(t, n - 1, kind) }
}

/// The constants the first `n` nodes define.
pub open spec fn declared_constants(t: Seq<SyntaxNode>, n: int) -> Seq<NamedSpec>
    decreases n,
{
    if n <= 0 { Seq::empty() } else { declared_constants(t, n - 1) + node_constants(t, n - 1) }
}

/// The view of extracted classes.
pub open spec fn class_specs(v: Seq<ExtractedClass>) -> Seq<ClassSpec> {
    v.map_values(|c: ExtractedClass| (c.name@, c.namespace@, opt_seq(c.extends), seqs(c.implements@), c.is_abstract))
}

/// The view of extracted interfaces.
pub open spec fn interface_specs(v: Seq<ExtractedInterface>) -> Seq<InterfaceSpec> {
    v.map_values(|c: ExtractedInterface| (c.name@, c.namespace@, seqs(c.extends@)))
}

/// The view of extracted traits.
pub open spec fn trait_specs(v: Seq<ExtractedTrait>) -> Seq<NamedSpec> {
    v.map_values(|c: ExtractedTrait| (c.name@, c.namespace@))
}

/// The view of extracted functions.
pub open spec fn function_specs(v: Seq<ExtractedFunction>) -> Seq<NamedSpec> {
    v.map_values(|c: ExtractedFunction| (c.name@, c.namespace@))
}

/// The view of extracted constants.
pub open spec fn constant_specs(v: Seq<ExtractedConstant>) -> Seq<NamedSpec> {
    v.map_values(|c: ExtractedConstant| (c.name@, c.namespace@))
}

/// The view of extracted namespaces.
pub open spec fn namespace_specs(v: Seq<ExtractedNamespace>) -> Seq<Seq<char>> {
    v.map_values(|c: ExtractedNamespace| c.name@)
}

/// Everything the first `n` nodes declare.
pub open spec fn extracted_upto(s: ExtractedSymbols, t: Seq<SyntaxNode>, n: int) -> bool {
    &&& namespace_specs(s.namespaces@) == declared_namespaces(t, n)
    &&& class_specs(s.classes@) == declared_classes(t, n)
    &&& interface_specs(s.interfaces@) == declared_interfaces(t, n)
    &&& trait_specs(s.traits@) == declared_named(t, n, "trait_declaration"@)
    &&& function_specs(s.functions@) == declared_named(t, n, "function_definition"@)
    &&& constant_specs(s.constants@) == declared_constants(t, n)
}

/// Everything a parsed file declares.
pub open spec fn extracted_from(s: ExtractedSymbols, t: Seq<SyntaxNode>) -> bool {
    extracted_upto(s, t, t.len() as int)
}

// ---------------------------------------------------------------------------
// Reading the declarations
// ---------------------------------------------------------------------------

/// The children of a node of a well-formed tree are nodes of it.
proof fn lemma_children_in(t: Seq<SyntaxNode>, i: int)
    requires
        tree_wf(t),
        0 <= i < t.len(),
    ensures
        ids_in(t, t[i].children@),
{
    assert forall|k: int| 0 <= k < t[i].children@.len() implies #[trigger] t[i].children@[k] < t.len() by {
        assert(i < t[i].children@[k] < t.len());
    }
}

/// Whether a kind is name-like.
fn is_name_kind(k: &str) -> (r: bool)
    ensures
        r == name_kind(k@),
{
    str_eq(k, "name") || str_eq(k, "qualified_name") || str_eq(k, "namespace_name")
}

/// The first named node among the listed ones.
fn find_first_named(nodes: &Vec<SyntaxNode>, cs: &Vec<usize>) -> (r: Option<usize>)
    requires
        ids_in(nodes@, cs@),
    ensures
        match r {
            Some(c) => first_named(nodes@, cs@) == Some(c as int) && c < nodes@.len(),
            None => first_named(nodes@, cs@) is None,
        },
{
    let mut k: usize = 0;
    assert(cs@.skip(0) == cs@);
    while k < cs.len()
        invariant
            ids_in(nodes@, cs@),
            k <= cs@.len(),
            first_named(nodes@, cs@) == first_named(nodes@, cs@.skip(k as int)),
        decreases cs.len() - k,
    {
        let c = cs[k];
        assert(cs@.skip(k as int)[0] == c);
        assert(cs@.skip(k as int).drop_first() == cs@.skip(k + 1));
        if nodes[c].is_named {
            return Some(c);
        }
        k += 1;
    }
    None
}

/// The first named node of the kind among the listed ones.
fn find_named_of_kind(nodes: &Vec<SyntaxNode>, cs: &Vec<usize>, kind: &str) -> (r: Option<usize>)
    requires
        ids_in(nodes@, cs@),
    ensures
        match r {
            Some(c) => first_named_of_kind(nodes@, cs@, kind@) == Some(c as int) && c < nodes@.len(),
            None => first_named_of_kind(nodes@, cs@, kind@) is None,
        },
{
    let mut k: usize = 0;
    assert(cs@.skip(0) == cs@);
    while k < cs.len()
        invariant
            ids_in(nodes@, cs@),
            k <= cs@.len(),
            first_named_of_kind(nodes@, cs@, kind@) == first_named_of_kind(nodes@, cs@.skip(k as int), kind@),
        decreases cs.len() - k,
    {
        let c = cs[k];
        assert(cs@.skip(k as int)[0] == c);
        assert(cs@.skip(k as int).drop_first() == cs@.skip(k + 1));
        if nodes[c].is_named && str_eq(nodes[c].kind.as_str(), kind) {
            return Some(c);
        }
        k += 1;
    }
    None
}

/// The name a namespace definition declares.
fn handle_namespace_definition(nodes: &Vec<SyntaxNode>, i: usize) -> (r: String)
    requires
        tree_wf(nodes@),
        i < nodes@.len(),
    ensures
        r@ == declared_namespace(nodes@, i as int),
{
    proof {
        lemma_children_in(nodes@, i as int);
    }
    match find_named_of_kind(nodes, &nodes[i].children, "namespace_name") {
        Some(c) => nodes[c].text.clone(),
        None => {
            let r = "\\".to_string();
            proof {
                reveal_strlit("\\");
            }
            r
        },
    }
}

/// The first name of a clause.
fn extract_first_name_from_clause(nodes: &Vec<SyntaxNode>, cs: &Vec<usize>) -> (r: Option<String>)
    requires
        ids_in(nodes@, cs@),
    ensures
        opt_seq(r) == first_clause_name(nodes@, cs@),
{
    let mut k: usize = 0;
    assert(cs@.skip(0) == cs@);
    while k < cs.len()
        invariant
            ids_in(nodes@, cs@),
            k <= cs@.len(),
            first_clause_name(nodes@, cs@) == first_clause_name(nodes@, cs@.skip(k as int)),
        decreases cs.len() - k,
    {
        let c = cs[k];
        assert(cs@.skip(k as int)[0] == c);
        assert(cs@.skip(k as int).drop_first() == cs@.skip(k + 1));
        if nodes[c].is_named && is_name_kind(nodes[c].kind.as_str()) {
            return Some(nodes[c].text.clone());
        }
        k += 1;
    }
    None
}

/// All non-empty names of a clause.
fn extract_names_from_clause(nodes: &Vec<SyntaxNode>, cs: &Vec<usize>) -> (r: Vec<String>)
    requires
        ids_in(nodes@, cs@),
    ensures
        seqs(r@) == clause_names(nodes@, cs@),
{
    let mut out: Vec<String> = Vec::new();
    let mut k: usize = 0;
    assert(cs@.take(0) =~= Seq::<usize>::empty());
    assert(seqs(out@) =~= Seq::<Seq<char>>::empty());
    while k < cs.len()
        invariant
            ids_in(nodes@, cs@),
            k <= cs@.len(),
            seqs(out@) == clause_names(nodes@, cs@.take(k as int)),
        decreases cs.len() - k,
    {
        let c = cs[k];
        assert(cs@.take(k + 1).drop_last() == cs@.take(k as int));
        assert(cs@.take(k + 1).last() == c);
        let ghost before = out@;
        if nodes[c].is_named && is_name_kind(nodes[c].kind.as_str()) && !nodes[c].text.as_str().is_empty() {
            out.push(nodes[c].text.clone());
            assert(seqs(out@) =~= seqs(before) + seq![nodes@[c as int].text@]);
        } else {
            assert(seqs(out@) =~= seqs(before) + Seq::<Seq<char>>::empty());
        }
        k += 1;
    }
    assert(cs@.take(cs.len() as int) == cs@);
    out
}

/// A class declaration read child by child (see [`class_parts`]).
fn handle_class_declaration(nodes: &Vec<SyntaxNode>, i: usize) -> (r: (String, Option<String>, Vec<String>, bool))
    requires
        tree_wf(nodes@),
        i < nodes@.len(),
    ensures
        (r.0@, opt_seq(r.1), seqs(r.2@), r.3) == class_parts(nodes@, nodes@[i as int].children@),
{
    let cs = &nodes[i].children;
    proof {
        lemma_children_in(nodes@, i as int);
    }
    let mut name = String::new();
    let mut extends: Option<String> = None;
    let mut implements: Vec<String> = Vec::new();
    let mut is_abstract = false;
    let mut k: usize = 0;
    assert(cs@.take(0) =~= Seq::<usize>::empty());
    assert(seqs(implements@) =~= Seq::<Seq<char>>::empty());
    while k < cs.len()
        invariant
            tree_wf(nodes@),
            ids_in(nodes@, cs@),
            k <= cs@.len(),
            (name@, opt_seq(extends), seqs(implements@), is_abstract) == class_parts(nodes@, cs@.take(k as int)),
        decreases cs.len() - k,
    {
        let c = cs[k];
        assert(cs@.take(k + 1).drop_last() == cs@.take(k as int));
        assert(cs@.take(k + 1).last() == c);
        proof {
            lemma_children_in(nodes@, c as int);
        }
        let kind = nodes[c].kind.as_str();
        if str_eq(kind, "abstract_modifier") || str_eq(kind, "modifier") {
            if str_eq(nodes[c].text.as_str(), "abstract") {
                is_abstract = true;
            }
        } else if str_eq(kind, "name") {
            name = nodes[c].text.clone();
        } else if str_eq(kind, "base_clause") {
            extends = extract_first_name_from_clause(nodes, &nodes[c].children);
        } else if str_eq(kind, "class_interface_clause") {
            implements = extract_names_from_clause(nodes, &nodes[c].children);
        }
        k += 1;
    }
    assert(cs@.take(cs.len() as int) == cs@);
    (name, extends, implements, is_abstract)
}

/// An interface declaration read child by child (see [`interface_parts`]).
fn handle_interface_declaration(nodes: &Vec<SyntaxNode>, i: usize) -> (r: (String, Vec<String>))
    requires
        tree_wf(nodes@),
        i < nodes@.len(),
    ensures
        (r.0@, seqs(r.1@)) == interface_parts(nodes@, nodes@[i as int].children@),
{
    let cs = &nodes[i].children;
    proof {
        lemma_children_in(nodes@, i as int);
    }
    let mut name = String::new();
    let mut extends: Vec<String> = Vec::new();
    let mut k: usize = 0;
    assert(cs@.take(0) =~= Seq::<usize>::empty());
    assert(seqs(extends@) =~= Seq::<Seq<char>>::empty());
    while k < cs.len()
        invariant
            tree_wf(nodes@),
            ids_in(nodes@, cs@),
            k <= cs@.len(),
            (name@, seqs(extends@)) == interface_parts(nodes@, cs@.take(k as int)),
        decreases cs.len() - k,
    {
        let c = cs[k];
        assert(cs@.take(k + 1).drop_last() == cs@.take(k as int));
        assert(cs@.take(k + 1).last() == c);
        proof {
            lemma_children_in(nodes@, c as int);
        }
        let kind = nodes[c].kind.as_str();
        if str_eq(kind, "name") {
            name = nodes[c].text.clone();
        } else if str_eq(kind, "base_clause") {
            extends = extract_names_from_clause(nodes, &nodes[c].children);
        }
        k += 1;
    }
    assert(cs@.take(cs.len() as int) == cs@);
    (name, extends)
}

/// The first `string_content` or `string_value` node among the listed ones.
fn find_string_content(nodes: &Vec<SyntaxNode>, cs: &Vec<usize>) -> (r: Option<usize>)
    requires
        ids_in(nodes@, cs@),
    ensures
        match r {
            Some(c) => first_string_content(nodes@, cs@) == Some(c as int) && c < nodes@.len(),
            None => first_string_content(nodes@, cs@) is None,
        },
{
    let mut k: usize = 0;
    assert(cs@.skip(0) == cs@);
    while k < cs.len()
        invariant
            ids_in(nodes@, cs@),
            k <= cs@.len(),
            first_string_content(nodes@, cs@) == first_string_content(nodes@, cs@.skip(k as int)),
        decreases cs.len() - k,
    {
        let c = cs[k];
        assert(cs@.skip(k as int)[0] == c);
        assert(cs@.skip(k as int).drop_first() == cs@.skip(k + 1));
        if nodes[c].is_named && (str_eq(nodes[c].kind.as_str(), "string_content")
            || str_eq(nodes[c].kind.as_str(), "string_value")) {
            return Some(c);
        }
        k += 1;
    }
    None
}

/// The text of a string literal node (see [`string_value`]).
fn extract_string_value(nodes: &Vec<SyntaxNode>, i: usize) -> (r: Option<String>)
    requires
        tree_wf(nodes@),
        i < nodes@.len(),
    ensures
        opt_seq(r) == string_value(nodes@, i as int),
{
    let kind = nodes[i].kind.as_str();
    if str_eq(kind, "string") {
        proof {
            lemma_children_in(nodes@, i as int);
        }
        match find_string_content(nodes, &nodes[i].children) {
            Some(c) => Some(nodes[c].text.clone()),
            None => {
                let a = trim_start_char(nodes[i].text.as_str(), '\'');
                let b = trim_start_char(a.as_str(), '"');
                let c = trim_end_char(b.as_str(), '\'');
                let d = trim_end_char(c.as_str(), '"');
                if d.as_str().is_empty() { None } else { Some(d) }
            },
        }
    } else if str_eq(kind, "encapsed_string") {
        let a = trim_start_char(nodes[i].text.as_str(), '"');
        let b = trim_end_char(a.as_str(), '"');
        if b.as_str().is_empty() { None } else { Some(b) }
    } else {
        None
    }
}

/// The first argument of a call (see [`first_argument`]).
fn find_first_argument(nodes: &Vec<SyntaxNode>, cs: &Vec<usize>) -> (r: Option<String>)
    requires
        tree_wf(nodes@),
        ids_in(nodes@, cs@),
    ensures
        opt_seq(r) == first_argument(nodes@, cs@),
{
    let mut k: usize = 0;
    assert(cs@.skip(0) == cs@);
    while k < cs.len()
        invariant
            tree_wf(nodes@),
            ids_in(nodes@, cs@),
            k <= cs@.len(),
            first_argument(nodes@, cs@) == first_argument(nodes@, cs@.skip(k as int)),
        decreases cs.len() - k,
    {
        let c = cs[k];
        assert(cs@.skip(k as int)[0] == c);
        assert(cs@.skip(k as int).drop_first() == cs@.skip(k + 1));
        if nodes[c].is_named {
            if str_eq(nodes[c].kind.as_str(), "argument") {
                proof {
                    lemma_children_in(nodes@, c as int);
                }
                return match find_first_named(nodes, &nodes[c].children) {
                    Some(x) => extract_string_value(nodes, x),
                    None => extract_string_value(nodes, c),
                };
            }
            let v = extract_string_value(nodes, c);
            if v.is_some() {
                return v;
            }
        }
        k += 1;
    }
    None
}

/// A call read child by child (see [`call_parts`]).
fn read_call(nodes: &Vec<SyntaxNode>, i: usize) -> (r: (String, Option<usize>))
    requires
        tree_wf(nodes@),
        i < nodes@.len(),
    ensures
        (r.0@, match r.1 { Some(a) => Some(a as int), None => None }) == call_parts(nodes@, nodes@[i as int].children@),
        r.1 matches Some(a) ==> a < nodes@.len(),
{
    let cs = &nodes[i].children;
    proof {
        lemma_children_in(nodes@, i as int);
    }
    let mut name = String::new();
    let mut args: Option<usize> = None;
    let mut k: usize = 0;
    assert(cs@.take(0) =~= Seq::<usize>::empty());
    while k < cs.len()
        invariant
            tree_wf(nodes@),
            ids_in(nodes@, cs@),
            k <= cs@.len(),
            (name@, match args { Some(a) => Some(a as int), None => None }) == call_parts(nodes@, cs@.take(k as int)),
            args matches Some(a) ==> a < nodes@.len(),
        decreases cs.len() - k,
    {
        let c = cs[k];
        assert(cs@.take(k + 1).drop_last() == cs@.take(k as int));
        assert(cs@.take(k + 1).last() == c);
        let kind = nodes[c].kind.as_str();
        if str_eq(kind, "name") || str_eq(kind, "qualified_name") {
            name = nodes[c].text.clone();
        } else if str_eq(kind, "arguments") {
            args = Some(c);
        }
        k += 1;
    }
    assert(cs@.take(cs.len() as int) == cs@);
    (name, args)
}

/// The constant a call defines (see [`defined_constant`]).
fn handle_define_call(nodes: &Vec<SyntaxNode>, call: usize) -> (r: Option<String>)
    requires
        tree_wf(nodes@),
        call < nodes@.len(),
    ensures
        opt_seq(r) == defined_constant(nodes@, call as int),
{
    let (name, args) = read_call(nodes, call);
    if !str_eq(name.as_str(), "define") {
        return None;
    }
    match args {
        Some(a) => {
            proof {
                lemma_children_in(nodes@, a as int);
            }
            match find_first_argument(nodes, &nodes[a].children) {
                Some(v) => if v.as_str().is_empty() { None } else { Some(v) },
                None => None,
            }
        },
        None => None,
    }
}

/// The constants an expression statement defines (see [`statement_constants`]).
fn handle_expression_statement(nodes: &Vec<SyntaxNode>, i: usize) -> (r: Vec<String>)
    requires
        tree_wf(nodes@),
        i < nodes@.len(),
    ensures
        seqs(r@) == statement_constants(nodes@, nodes@[i as int].children@),
{
    let cs = &nodes[i].children;
    proof {
        lemma_children_in(nodes@, i as int);
    }
    let mut out: Vec<String> = Vec::new();
    let mut k: usize = 0;
    assert(cs@.take(0) =~= Seq::<usize>::empty());
    assert(seqs(out@) =~= Seq::<Seq<char>>::empty());
    while k < cs.len()
        invariant
            tree_wf(nodes@),
            ids_in(nodes@, cs@),
            k <= cs@.len(),
            seqs(out@) == statement_constants(nodes@, cs@.take(k as int)),
        decreases cs.len() - k,
    {
        let c = cs[k];
        assert(cs@.take(k + 1).drop_last() == cs@.take(k as int));
        assert(cs@.take(k + 1).last() == c);
        let ghost before = out@;
        let mut found: Option<String> = None;
        if nodes[c].is_named && str_eq(nodes[c].kind.as_str(), "function_call_expression") {
            found = handle_define_call(nodes, c);
        }
        match found {
            Some(v) => {
                out.push(v);
                assert(seqs(out@) =~= seqs(before) + seq![out@.last()@]);
            },
            None => {
                assert(seqs(out@) =~= seqs(before) + Seq::<Seq<char>>::empty());
            },
        }
        k += 1;
    }
    assert(cs@.take(cs.len() as int) == cs@);
    out
}

/// Records the constants an expression statement defines, in the namespace given.
fn add_constants(nodes: &Vec<SyntaxNode>, i: usize, ns: &String, out: &mut Vec<ExtractedConstant>)
    requires
        tree_wf(nodes@),
        i < nodes@.len(),
    ensures
        constant_specs(final(out)@) == constant_specs(old(out)@)
            + with_namespace(statement_constants(nodes@, nodes@[i as int].children@), ns@),
{
    let vals = handle_expression_statement(nodes, i);
    let ghost base = constant_specs(out@);
    let mut j: usize = 0;
    assert(seqs(vals@).take(0) =~= Seq::<Seq<char>>::empty());
    assert(constant_specs(out@) =~= base + with_namespace(seqs(vals@).take(0), ns@));
    while j < vals.len()
        invariant
            j <= vals@.len(),
            constant_specs(out@) == base + with_namespace(seqs(vals@).take(j as int), ns@),
        decreases vals.len() - j,
    {
        let ghost before = out@;
        out.push(ExtractedConstant { name: vals[j].clone(), namespace: ns.clone() });
        assert(seqs(vals@).take(j + 1) =~= seqs(vals@).take(j as int).push(vals@[j as int]@));
        assert(with_namespace(seqs(vals@).take(j + 1), ns@)
            =~= with_namespace(seqs(vals@).take(j as int), ns@).push((vals@[j as int]@, ns@)));
        assert(constant_specs(out@) =~= constant_specs(before).push((vals@[j as int]@, ns@)));
        j += 1;
    }
    assert(seqs(vals@).take(vals.len() as int) =~= seqs(vals@));
}

/// Records what one node declares, given its depth and its namespace.
fn walk_node(t: &SyntaxTree, i: usize, d: usize, ns: &String, syms: &mut ExtractedSymbols)
    requires
        t.wf(),
        i < t.nodes@.len(),
        d == depth(t.nodes@, i as int),
        ns@ == namespace_context(t.nodes@, i as int),
        extracted_upto(*old(syms), t.nodes@, i as int),
    ensures
        extracted_upto(*final(syms), t.nodes@, i + 1),
{
    let nodes = &t.nodes;
    let ghost tn = t.nodes@;
    let kind = nodes[i].kind.as_str();
    proof {
        reveal_strlit("namespace_definition");
    }
    let in_body = match nodes[i].parent {
        Some(p) => match nodes[p].parent {
            Some(g) => str_eq(nodes[g].kind.as_str(), "namespace_definition"),
            None => false,
        },
        None => false,
    };
    let top = d <= 2 || in_body;
    let ghost s0 = *syms;
    if str_eq(kind, "namespace_definition") {
        let name = handle_namespace_definition(nodes, i);
        syms.namespaces.push(ExtractedNamespace { name });
        assert(namespace_specs(syms.namespaces@) =~= namespace_specs(s0.namespaces@).push(declared_namespace(tn, i as int)));
    } else {
        assert(namespace_specs(syms.namespaces@) =~= declared_namespaces(tn, i + 1));
    }
    let ghost s1 = *syms;
    if top && str_eq(kind, "class_declaration") {
        let (name, extends, implements, is_abstract) = handle_class_declaration(nodes, i);
        if !name.as_str().is_empty() {
            syms.classes.push(ExtractedClass { name, namespace: ns.clone(), extends, implements, is_abstract });
            assert(class_specs(syms.classes@) =~= class_specs(s1.classes@) + node_class(tn, i as int));
        } else {
            assert(class_specs(syms.classes@) =~= class_specs(s1.classes@) + node_class(tn, i as int));
        }
    } else {
        assert(class_specs(syms.classes@) =~= class_specs(s1.classes@) + node_class(tn, i as int));
    }
    let ghost s2 = *syms;
    if top && str_eq(kind, "interface_declaration") {
        let (name, extends) = handle_interface_declaration(nodes, i);
        if !name.as_str().is_empty() {
            syms.interfaces.push(ExtractedInterface { name, namespace: ns.clone(), extends });
        }
    }
    assert(interface_specs(syms.interfaces@) =~= interface_specs(s2.interfaces@) + node_interface(tn, i as int));
    let ghost s3 = *syms;
    if top && str_eq(kind, "trait_declaration") {
        match find_child_by_kind(t, i, "name") {
            Some(c) => {
                if !nodes[c].text.as_str().is_empty() {
                    syms.traits.push(ExtractedTrait { name: nodes[c].text.clone(), namespace: ns.clone() });
                }
            },
            None => {},
        }
    }
    assert(trait_specs(syms.traits@) =~= trait_specs(s3.traits@) + node_named(tn, i as int, "trait_declaration"@));
    let ghost s4 = *syms;
    if top && str_eq(kind, "function_definition") {
        match find_child_by_kind(t, i, "name") {
            Some(c) => {
                if !nodes[c].text.as_str().is_empty() {
                    syms.functions.push(ExtractedFunction { name: nodes[c].text.clone(), namespace: ns.clone() });
                }
            },
            None => {},
        }
    }
    assert(function_specs(syms.functions@) =~= function_specs(s4.functions@) + node_named(tn, i as int, "function_definition"@));
    let ghost s5 = *syms;
    if top && str_eq(kind, "expression_statement") {
        add_constants(nodes, i, ns, &mut syms.constants);
    } else {
        assert(constant_specs(syms.constants@) =~= constant_specs(s5.constants@) + node_constants(tn, i as int));
    }
    assert(constant_specs(syms.constants@) == declared_constants(tn, i + 1));
    assert(function_specs(syms.functions@) == declared_named(tn, i + 1, "function_definition"@));
    assert(trait_specs(syms.traits@) == declared_named(tn, i + 1, "trait_declaration"@));
    assert(interface_specs(syms.interfaces@) == declared_interfaces(tn, i + 1));
    assert(class_specs(syms.classes@) == declared_classes(tn, i + 1));
    assert(namespace_specs(syms.namespaces@) == declared_namespaces(tn, i + 1));
}

/// The depth of a node is at most its position.
proof fn lemma_depth_bound(t: Seq<SyntaxNode>, i: int)
    requires
        tree_wf(t),
        0 <= i < t.len(),
    ensures
        0 <= depth(t, i) <= i,
    decreases i,
{
    if i > 0 {
        let p = t[i].parent.unwrap() as int;
        lemma_depth_bound(t, p);
    }
}

/// Everything a parsed file declares (see [`extracted_from`]).
pub fn symbols_of(t: &SyntaxTree) -> (r: ExtractedSymbols)
    requires
        t.wf(),
    ensures
        extracted_from(r, t.nodes@),
{
    let mut syms = ExtractedSymbols {
        namespaces: Vec::new(),
        classes: Vec::new(),
        interfaces: Vec::new(),
        traits: Vec::new(),
        functions: Vec::new(),
        constants: Vec::new(),
    };
    let mut depths: Vec<usize> = Vec::new();
    let mut contexts: Vec<String> = Vec::new();
    let mut open_ns = "\\".to_string();
    let mut i: usize = 0;
    proof {
        reveal_strlit("\\");
        assert(namespace_specs(syms.namespaces@) =~= declared_namespaces(t.nodes@, 0));
        assert(class_specs(syms.classes@) =~= declared_classes(t.nodes@, 0));
        assert(interface_specs(syms.interfaces@) =~= declared_interfaces(t.nodes@, 0));
        assert(trait_specs(syms.traits@) =~= declared_named(t.nodes@, 0, "trait_declaration"@));
        assert(function_specs(syms.functions@) =~= declared_named(t.nodes@, 0, "function_definition"@));
        assert(constant_specs(syms.constants@) =~= declared_constants(t.nodes@, 0));
    }
    while i < t.nodes.len()
        invariant
            t.wf(),
            i <= t.nodes@.len(),
            depths@.len() == i,
            contexts@.len() == i,
            forall|k: int| 0 <= k < i ==> depths@[k] as int == #[trigger] depth(t.nodes@, k),
            forall|k: int| 0 <= k < i ==> contexts@[k]@ == #[trigger] namespace_context(t.nodes@, k),
            open_ns@ == open_namespace(t.nodes@, i as int),
            extracted_upto(syms, t.nodes@, i as int),
        decreases t.nodes.len() - i,
    {
        let ghost tn = t.nodes@;
        proof {
            lemma_depth_bound(tn, i as int);
        }
        proof {
            reveal_strlit("namespace_definition");
        }
        let (d, ns) = match t.nodes[i].parent {
            Some(p) => {
                assert(i > 0);
                assert(tn[i as int].parent == Some(p) && p < i);
                proof {
                    lemma_depth_bound(tn, p as int);
                }
                assert(depth(tn, p as int) == depths@[p as int]);
                assert(namespace_context(tn, p as int) == contexts@[p as int]@);
                let d = depths[p] + 1;
                let ns = if str_eq(t.nodes[p].kind.as_str(), "namespace_definition") {
                    handle_namespace_definition(&t.nodes, p)
                } else if t.nodes[p].parent.is_none() {
                    open_ns.clone()
                } else {
                    contexts[p].clone()
                };
                assert(depth(tn, p as int) == depths@[p as int]);
                assert(ns@ == namespace_context(tn, i as int));
                (d, ns)
            },
            None => {
                let r = "\\".to_string();
                proof {
                    reveal_strlit("\\");
                    assert(i == 0);
                    assert(r@ == namespace_context(tn, i as int));
                }
                (0, r)
            },
        };
        walk_node(t, i, d, &ns, &mut syms);
        let opens = match t.nodes[i].parent {
            Some(q) => str_eq(t.nodes[i].kind.as_str(), "namespace_definition") && t.nodes[q].parent.is_none(),
            None => false,
        };
        if opens {
            open_ns = handle_namespace_definition(&t.nodes, i);
        }
        assert(opens == opens_namespace(tn, i as int));
        assert(open_ns@ == open_namespace(tn, i + 1));
        depths.push(d);
        contexts.push(ns);
        i += 1;
    }
    syms
}

/// Everything a parsed file declares, read from the tree-sitter tree through
/// its flat form (see [`crate::parser::php_parser::flatten_tree`]).
pub fn extract_symbols(tree: &tree_sitter::Tree, source: &str) -> (r: ExtractedSymbols)
    ensures
        exists|t: SyntaxTree| #[trigger] t.wf()
            && crate::parser::php_parser::flat_matches(t.nodes@, crate::parser::php_parser::tree_nodes(*tree), source@)
            && extracted_from(r, t.nodes@),
{
    let flat = crate::parser::php_parser::flatten_tree(tree, source);
    symbols_of(&flat)
}

} // verus!
