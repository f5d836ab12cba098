//! Parsing PHP with tree-sitter, and the parse tree as a flat list of nodes.
//!
//! The tree is read node by node in pre-order with a tree-sitter cursor and
//! stored as a list: every node comes before its children, and knows its parent
//! and its children in order. What tree-sitter gives for a text is named
//! ([`php_parse`]); what is proved is that the list is that tree, node for node,
//! with byte offsets turned into character positions.

use vstd::prelude::*;
use crate::strs::{clone_opt, from_char_range, opt_seq, to_chars};

verus! {

#[verifier::external_type_specification]
#[verifier::external_body]
pub struct ExParser(tree_sitter::Parser);

#[verifier::external_type_specification]
#[verifier::external_body]
pub struct ExTree(tree_sitter::Tree);

#[verifier::external_type_specification]
#[verifier::external_body]
pub struct ExTreeCursor<'tree>(tree_sitter::TreeCursor<'tree>);

#[verifier::external_type_specification]
#[verifier::external_body]
pub struct ExNode<'tree>(tree_sitter::Node<'tree>);

#[verifier::external_type_specification]
#[verifier::external_body]
pub struct ExLanguageError(tree_sitter::LanguageError);

/// What a parse tree holds of one node, apart from where it stands: its grammar
/// kind, whether it is named, and the bytes of the source it covers.
pub struct NodeInfo {
    pub kind: Seq<char>,
    pub is_named: bool,
    pub start_byte: usize,
    pub end_byte: usize,
}

/// One node of a parse tree as the tree lists it, in pre-order: the node, the
/// field under which its parent holds it, and its depth below the root.
pub struct TreeEntry {
    pub node: NodeInfo,
    pub field: Option<Seq<char>>,
    pub depth: nat,
}

/// The nodes a tree-sitter tree holds, in pre-order (the order of
/// `TreeCursor::goto_descendant`), the root first.
pub uninterp spec fn tree_nodes(t: tree_sitter::Tree) -> Seq<TreeEntry>;

/// The nodes of the tree that tree-sitter's PHP grammar gives for a text.
pub uninterp spec fn php_parse(text: Seq<char>) -> Seq<TreeEntry>;

/// The nodes of the tree a cursor walks, in pre-order.
pub uninterp spec fn cursor_nodes(c: tree_sitter::TreeCursor) -> Seq<TreeEntry>;

/// The pre-order position of the node a cursor stands on.
pub uninterp spec fn cursor_index(c: tree_sitter::TreeCursor) -> nat;

/// What a node handle refers to.
pub uninterp spec fn node_info(n: tree_sitter::Node) -> NodeInfo;

/// The number of nodes in a node's subtree, the node included.
pub uninterp spec fn node_size(n: tree_sitter::Node) -> nat;

/// Calls `tree_sitter::Parser::new`. Nothing is claimed of the result.
#[verifier::external_body]
fn new_parser() -> (r: tree_sitter::Parser) {
    tree_sitter::Parser::new()
}

/// Whether a parser holds the PHP grammar of `tree_sitter_php`.
pub uninterp spec fn parser_has_php(p: tree_sitter::Parser) -> bool;

/// Calls `tree_sitter::Parser::set_language` with the PHP grammar of
/// `tree_sitter_php`. On success the parser holds that grammar. When it fails
/// (the grammar's ABI version is not one this tree-sitter accepts, a fact of the
/// two builds that no argument here carries) nothing is claimed.
#[verifier::external_body]
fn set_php_language(parser: &mut tree_sitter::Parser) -> (r: Result<(), tree_sitter::LanguageError>)
    ensures
        r is Ok ==> parser_has_php(*final(parser)),
{
    parser.set_language(&tree_sitter_php::LANGUAGE_PHP.into())
}

/// Calls `tree_sitter::Parser::parse` on the whole text, with no earlier tree.
/// A tree it gives is the PHP syntax of the text: parsing is a function of the
/// text under the grammar the parser holds, and only the PHP grammar is ever set.
/// Tree-sitter gives no tree only when the parser holds no language, so a parser
/// holding the PHP grammar always gives one, and keeps its grammar.
#[verifier::external_body]
fn parse_text(parser: &mut tree_sitter::Parser, source: &str) -> (r: Option<tree_sitter::Tree>)
    ensures
        r matches Some(t) ==> tree_nodes(t) == php_parse(source@),
        parser_has_php(*old(parser)) ==> r is Some && parser_has_php(*final(parser)),
{
    parser.parse(source, None)
}

/// Calls `tree_sitter::Tree::walk`: a cursor over the tree's nodes, on the root.
#[verifier::external_body]
fn tree_walk<'tree>(tree: &'tree tree_sitter::Tree) -> (r: tree_sitter::TreeCursor<'tree>)
    ensures
        cursor_nodes(r) == tree_nodes(*tree),
        cursor_index(r) == 0,
{
    tree.walk()
}

/// Calls `tree_sitter::Tree::root_node`: the first node of the tree, whose
/// subtree is the whole tree (a tree always has its root).
#[verifier::external_body]
fn tree_root<'tree>(tree: &'tree tree_sitter::Tree) -> (r: tree_sitter::Node<'tree>)
    ensures
        node_size(r) == tree_nodes(*tree).len(),
        node_size(r) >= 1,
{
    tree.root_node()
}

/// Calls `tree_sitter::Node::descendant_count`: the size of the node's subtree.
#[verifier::external_body]
fn descendant_count(node: &tree_sitter::Node) -> (r: usize)
    ensures
        r == node_size(*node),
{
    node.descendant_count()
}

/// Calls `tree_sitter::TreeCursor::goto_descendant`: the cursor moves to the node
/// at that pre-order position.
#[verifier::external_body]
fn goto_descendant(cursor: &mut tree_sitter::TreeCursor, index: usize)
    requires
        index < cursor_nodes(*old(cursor)).len(),
    ensures
        cursor_nodes(*final(cursor)) == cursor_nodes(*old(cursor)),
        cursor_index(*final(cursor)) == index,
{
    cursor.goto_descendant(index)
}

/// Calls `tree_sitter::TreeCursor::node`: the node the cursor stands on.
#[verifier::external_body]
fn cursor_node<'tree>(cursor: &tree_sitter::TreeCursor<'tree>) -> (r: tree_sitter::Node<'tree>)
    requires
        cursor_index(*cursor) < cursor_nodes(*cursor).len(),
    ensures
        node_info(r) == cursor_nodes(*cursor)[cursor_index(*cursor) as int].node,
{
    cursor.node()
}

/// Calls `tree_sitter::TreeCursor::field_name` and copies the name.
#[verifier::external_body]
fn cursor_field_name(cursor: &tree_sitter::TreeCursor) -> (r: Option<String>)
    requires
        cursor_index(*cursor) < cursor_nodes(*cursor).len(),
    ensures
        opt_seq(r) == cursor_nodes(*cursor)[cursor_index(*cursor) as int].field,
{
    cursor.field_name().map(|s| s.to_string())
}

/// Calls `tree_sitter::TreeCursor::depth`: the depth of the cursor's node, the
/// root being at depth 0.
#[verifier::external_body]
fn cursor_depth(cursor: &tree_sitter::TreeCursor) -> (r: u32)
    requires
        cursor_index(*cursor) < cursor_nodes(*cursor).len(),
    ensures
        r as nat == cursor_nodes(*cursor)[cursor_index(*cursor) as int].depth,
{
    cursor.depth()
}

/// Calls `tree_sitter::Node::kind` and copies it.
#[verifier::external_body]
fn node_kind(node: &tree_sitter::Node) -> (r: String)
    ensures
        r@ == node_info(*node).kind,
{
    node.kind().to_string()
}

/// Calls `tree_sitter::Node::is_named`.
#[verifier::external_body]
fn node_is_named(node: &tree_sitter::Node) -> (r: bool)
    ensures
        r == node_info(*node).is_named,
{
    node.is_named()
}

/// Calls `tree_sitter::Node::start_byte`.
#[verifier::external_body]
fn node_start_byte(node: &tree_sitter::Node) -> (r: usize)
    ensures
        r == node_info(*node).start_byte,
{
    node.start_byte()
}

/// Calls `tree_sitter::Node::end_byte`.
#[verifier::external_body]
fn node_end_byte(node: &tree_sitter::Node) -> (r: usize)
    ensures
        r == node_info(*node).end_byte,
{
    node.end_byte()
}

/// One node of a parse tree.
#[derive(Debug, Clone)]
pub struct SyntaxNode {
    /// The grammar kind, e.g. `class_declaration`.
    pub kind: String,
    /// Whether the node is named in the grammar (not punctuation).
    pub is_named: bool,
    /// The field under which the parent holds the node.
    pub field: Option<String>,
    /// Where the node starts, counted in characters of the source.
    pub start: usize,
    /// Where the node ends, counted in characters of the source.
    pub end: usize,
    /// The source text of the node.
    pub text: String,
    /// The parent's position in the list (none for the root).
    pub parent: Option<usize>,
    /// The children's positions, in order.
    pub children: Vec<usize>,
}

/// A parse tree as a list of nodes in pre-order; the root comes first.
#[derive(Debug, Clone)]
pub struct SyntaxTree {
    pub nodes: Vec<SyntaxNode>,
}

/// The list is a tree in pre-order: the root first and without parent; every
/// other node after its parent; every child listed by its parent exactly where it
/// names that parent, children in increasing order.
pub open spec fn tree_wf(nodes: Seq<SyntaxNode>) -> bool {
    &&& nodes.len() > 0
    &&& nodes[0].parent is None
    &&& forall|i: int| 0 < i < nodes.len() ==> ((#[trigger] nodes[i]).parent matches Some(p) && p < i)
    &&& forall|i: int, k: int| 0 <= i < nodes.len() && 0 <= k < nodes[i].children@.len()
            ==> i < #[trigger] nodes[i].children@[k] < nodes.len()
                && nodes[nodes[i].children@[k] as int].parent == Some(i as usize)
    &&& forall|i: int, k: int, l: int| 0 <= i < nodes.len() && 0 <= k < l < nodes[i].children@.len()
            ==> #[trigger] nodes[i].children@[k] < #[trigger] nodes[i].children@[l]
}

impl SyntaxTree {
    /// The tree is well formed (see [`tree_wf`]).
    pub open spec fn wf(&self) -> bool {
        tree_wf(self.nodes@)
    }
}

/// A copy of a node.
fn clone_node(n: &SyntaxNode) -> (r: SyntaxNode)
    ensures
        r.kind@ == n.kind@,
        r.is_named == n.is_named,
        crate::strs::opt_seq(r.field) == crate::strs::opt_seq(n.field),
        r.start == n.start,
        r.end == n.end,
        r.text@ == n.text@,
        r.parent == n.parent,
        r.children@ == n.children@,
{
    SyntaxNode {
        kind: n.kind.clone(),
        is_named: n.is_named,
        field: clone_opt(&n.field),
        start: n.start,
        end: n.end,
        text: n.text.clone(),
        parent: n.parent,
        children: n.children.clone(),
    }
}

/// The number of UTF-8 bytes of a character.
pub open spec fn utf8_width(c: char) -> nat {
    if (c as u32) < 0x80 {
        1
    } else if (c as u32) < 0x800 {
        2
    } else if (c as u32) < 0x10000 {
        3
    } else {
        4
    }
}

/// The byte offset at which each character starts, then the total.
pub open spec fn char_starts(s: Seq<char>) -> Seq<int>
    decreases s.len(),
{
    if s.len() == 0 {
        seq![0]
    } else {
        let prev = char_starts(s.drop_last());
        prev.push(prev.last() + utf8_width(s.last()))
    }
}

/// The byte offsets at which the characters start, and the total, as numbers.
fn byte_offsets(chars: &Vec<char>) -> (r: Vec<u64>)
    requires
        chars@.len() < 0x1000_0000,
    ensures
        r@.len() == chars@.len() + 1,
        forall|k: int| 0 <= k <= chars@.len() ==> r@[k] as int == #[trigger] char_starts(chars@)[k],
{
    let mut out: Vec<u64> = Vec::new();
    out.push(0);
    let mut i: usize = 0;
    proof {
        lemma_char_starts_bounded(chars@.take(0));
        assert(chars@.take(0) =~= Seq::<char>::empty());
    }
    while i < chars.len()
        invariant
            chars@.len() < 0x1000_0000,
            i <= chars.len(),
            out@.len() == i + 1,
            forall|k: int| 0 <= k <= i ==> out@[k] as int == #[trigger] char_starts(chars@.take(i as int))[k],
            char_starts(chars@.take(i as int)).last() <= 4 * i,
        decreases chars.len() - i,
    {
        let c = chars[i];
        let w: u64 = if (c as u32) < 0x80 {
            1
        } else if (c as u32) < 0x800 {
            2
        } else if (c as u32) < 0x10000 {
            3
        } else {
            4
        };
        let ghost prev = char_starts(chars@.take(i as int));
        proof {
            assert(chars@.take(i + 1).drop_last() == chars@.take(i as int));
            assert(chars@.take(i + 1).last() == c);
            assert(prev.len() == i + 1) by {
                lemma_char_starts_len(chars@.take(i as int));
            }
        }
        let last = out[i];
        out.push(last + w);
        i += 1;
        proof {
            lemma_char_starts_len(chars@.take(i as int));
        }
    }
    assert(chars@.take(chars.len() as int) == chars@);
    out
}

proof fn lemma_char_starts_len(s: Seq<char>)
    ensures
        char_starts(s).len() == s.len() + 1,
    decreases s.len(),
{
    if s.len() > 0 {
        lemma_char_starts_len(s.drop_last());
    }
}

proof fn lemma_char_starts_bounded(s: Seq<char>)
    ensures
        char_starts(s).last() <= 4 * s.len(),
        char_starts(s).len() == s.len() + 1,
    decreases s.len(),
{
    lemma_char_starts_len(s);
    if s.len() > 0 {
        lemma_char_starts_bounded(s.drop_last());
    }
}

/// The character position of a byte offset: the number of characters that
/// start before it.
fn char_position(offsets: &Vec<u64>, byte: usize) -> (r: usize)
    requires
        offsets@.len() > 0,
        forall|a: int, b: int| 0 <= a < b < offsets@.len() ==> offsets@[a] < offsets@[b],
    ensures
        r < offsets@.len(),
        forall|k: int| 0 <= k < r ==> offsets@[k] < byte,
        r + 1 < offsets@.len() ==> offsets@[r as int] >= byte || r == offsets@.len() - 1,
{
    let mut lo: usize = 0;
    let mut hi: usize = offsets.len() - 1;
    while lo < hi
        invariant
            0 <= lo <= hi < offsets@.len(),
            forall|a: int, b: int| 0 <= a < b < offsets@.len() ==> offsets@[a] < offsets@[b],
            forall|k: int| 0 <= k < lo ==> offsets@[k] < byte,
            hi == offsets@.len() - 1 || offsets@[hi as int] >= byte,
        decreases hi - lo,
    {
        let mid = lo + (hi - lo) / 2;
        if offsets[mid] < (byte as u64) {
            lo = mid + 1;
        } else {
            hi = mid;
        }
    }
    lo
}

/// The character position of a byte offset of a text: the number of characters
/// that start before it, at most the text's length. For texts too long to index
/// this way, 0.
pub open spec fn char_pos(text: Seq<char>, byte: int) -> int {
    if text.len() < 0x1000_0000 {
        choose|r: int| is_char_pos(text, byte, r)
    } else {
        0
    }
}

/// `r` is the character position of the byte offset (see [`char_pos`]).
pub open spec fn is_char_pos(text: Seq<char>, byte: int, r: int) -> bool {
    &&& 0 <= r <= text.len()
    &&& forall|k: int| 0 <= k < r ==> #[trigger] char_starts(text)[k] < byte
    &&& (r == text.len() || char_starts(text)[r] >= byte)
}

proof fn lemma_char_pos_unique(text: Seq<char>, byte: int, r: int)
    requires
        text.len() < 0x1000_0000,
        is_char_pos(text, byte, r),
    ensures
        char_pos(text, byte) == r,
{
    let c = choose|x: int| is_char_pos(text, byte, x);
    assert(is_char_pos(text, byte, c));
    if c < r {
        assert(char_starts(text)[c] < byte);
    } else if r < c {
        assert(char_starts(text)[r] < byte);
    }
}

/// The text a node covers: the characters between its positions.
pub open spec fn span_text(text: Seq<char>, start: int, end: int) -> Seq<char> {
    if start <= end {
        text.subrange(start, end)
    } else {
        Seq::empty()
    }
}

/// The depths of the listed nodes.
pub open spec fn depths_of(es: Seq<TreeEntry>) -> Seq<nat> {
    es.map_values(|e: TreeEntry| e.depth)
}

/// The open nodes after taking off those at depth `x` or deeper.
pub open spec fn popped(s: Seq<int>, d: Seq<nat>, x: nat) -> Seq<int>
    decreases s.len(),
{
    if s.len() > 0 && d[s.last()] >= x {
        popped(s.drop_last(), d, x)
    } else {
        s
    }
}

/// The open nodes after the first `n` nodes: the path from the shallowest to the
/// last node, each shallower than the next.
pub open spec fn stack_after(d: Seq<nat>, n: nat) -> Seq<int>
    decreases n,
{
    if n == 0 {
        Seq::empty()
    } else {
        popped(stack_after(d, (n - 1) as nat), d, d[n - 1]).push(n - 1)
    }
}

/// The parent of node `i`: the nearest earlier open node shallower than it; the
/// root when there is none; none for the root itself.
pub open spec fn parent_at(d: Seq<nat>, i: int) -> Option<usize> {
    let s = popped(stack_after(d, i as nat), d, d[i]);
    if s.len() > 0 {
        Some(s.last() as usize)
    } else if i == 0 {
        None
    } else {
        Some(0usize)
    }
}

/// The children of node `j` among the first `n` nodes, in order.
pub open spec fn children_upto(d: Seq<nat>, j: int, n: nat) -> Seq<usize>
    decreases n,
{
    if n == 0 {
        Seq::empty()
    } else {
        children_upto(d, j, (n - 1) as nat) + if parent_at(d, n - 1) == Some(j as usize) {
            seq![(n - 1) as usize]
        } else {
            Seq::empty()
        }
    }
}

/// Node `i` of a flat list is entry `i` of a tree over a text: same kind, naming
/// and field; its positions the character positions of its bytes; its text what
/// lies between them; its parent and children as the depths give them.
pub open spec fn node_matches(nodes: Seq<SyntaxNode>, es: Seq<TreeEntry>, text: Seq<char>, n: nat, i: int) -> bool {
    let e = es[i];
    &&& nodes[i].kind@ == e.node.kind
    &&& nodes[i].is_named == e.node.is_named
    &&& opt_seq(nodes[i].field) == e.field
    &&& nodes[i].start as int == char_pos(text, e.node.start_byte as int)
    &&& nodes[i].end as int == char_pos(text, e.node.end_byte as int)
    &&& nodes[i].text@ == span_text(text, nodes[i].start as int, nodes[i].end as int)
    &&& nodes[i].parent == parent_at(depths_of(es), i)
    &&& nodes[i].children@ == children_upto(depths_of(es), i, n)
}

/// A flat list is the tree's entries over a text, node for node (see
/// [`node_matches`]).
pub open spec fn flat_matches(nodes: Seq<SyntaxNode>, es: Seq<TreeEntry>, text: Seq<char>) -> bool {
    &&& nodes.len() == es.len()
    &&& forall|i: int| 0 <= i < nodes.len() ==> #[trigger] node_matches(nodes, es, text, nodes.len(), i)
}

/// The flat list is the PHP syntax of the text (see [`php_parse`] and
/// [`flat_matches`]).
pub open spec fn php_syntax_of(nodes: Seq<SyntaxNode>, text: Seq<char>) -> bool {
    flat_matches(nodes, php_parse(text), text)
}

proof fn lemma_popped_prefix(s: Seq<int>, d: Seq<nat>, x: nat)
    ensures
        popped(s, d, x).len() <= s.len(),
        forall|k: int| 0 <= k < popped(s, d, x).len() ==> #[trigger] popped(s, d, x)[k] == s[k],
    decreases s.len(),
{
    if s.len() > 0 && d[s.last()] >= x {
        lemma_popped_prefix(s.drop_last(), d, x);
    }
}

proof fn lemma_stack_bounded(d: Seq<nat>, n: nat)
    ensures
        forall|k: int| 0 <= k < stack_after(d, n).len() ==> 0 <= #[trigger] stack_after(d, n)[k] < n,
    decreases n,
{
    if n > 0 {
        lemma_stack_bounded(d, (n - 1) as nat);
        let s = stack_after(d, (n - 1) as nat);
        lemma_popped_prefix(s, d, d[n - 1]);
        let p = popped(s, d, d[n - 1]);
        assert forall|k: int| 0 <= k < p.len() implies 0 <= #[trigger] p[k] < n - 1 by {
            assert(p[k] == s[k]);
        }
    }
}

/// The entry of the node a cursor stands on.
pub open spec fn cursor_entry(c: tree_sitter::TreeCursor) -> TreeEntry {
    cursor_nodes(c)[cursor_index(c) as int]
}

/// Builds the node the cursor stands on, under `parent`.
fn read_node(
    cursor: &tree_sitter::TreeCursor,
    chars: &Vec<char>,
    offsets: &Vec<u64>,
    parent: Option<usize>,
) -> (r: SyntaxNode)
    requires
        cursor_index(*cursor) < cursor_nodes(*cursor).len(),
        chars@.len() < 0x1000_0000 ==> offsets@.len() == chars@.len() + 1,
        chars@.len() >= 0x1000_0000 ==> offsets@ == seq![0u64],
        chars@.len() < 0x1000_0000 ==> forall|k: int| 0 <= k <= chars@.len() ==> offsets@[k] as int == #[trigger] char_starts(chars@)[k],
        forall|a: int, b: int| 0 <= a < b < offsets@.len() ==> offsets@[a] < offsets@[b],
    ensures
        r.kind@ == cursor_entry(*cursor).node.kind,
        r.is_named == cursor_entry(*cursor).node.is_named,
        opt_seq(r.field) == cursor_entry(*cursor).field,
        r.start as int == char_pos(chars@, cursor_entry(*cursor).node.start_byte as int),
        r.end as int == char_pos(chars@, cursor_entry(*cursor).node.end_byte as int),
        r.text@ == span_text(chars@, r.start as int, r.end as int),
        r.parent == parent,
        r.children@.len() == 0,
{
    let node = cursor_node(cursor);
    let sb = node_start_byte(&node);
    let eb = node_end_byte(&node);
    let start = char_position(offsets, sb);
    let end = char_position(offsets, eb);
    proof {
        if chars@.len() < 0x1000_0000 {
            assert(is_char_pos(chars@, sb as int, start as int));
            lemma_char_pos_unique(chars@, sb as int, start as int);
            assert(is_char_pos(chars@, eb as int, end as int));
            lemma_char_pos_unique(chars@, eb as int, end as int);
        }
    }
    assert(end <= chars@.len() || chars@.len() >= 0x1000_0000);
    let text = if start <= end && end <= chars.len() {
        from_char_range(chars.as_slice(), start, end)
    } else {
        String::new()
    };
    SyntaxNode {
        kind: node_kind(&node),
        is_named: node_is_named(&node),
        field: cursor_field_name(cursor),
        start,
        end,
        text,
        parent,
        children: Vec::new(),
    }
}

/// Adds a node under its parent.
fn add_child(nodes: &mut Vec<SyntaxNode>, node: SyntaxNode, p: usize)
    requires
        tree_wf(old(nodes)@),
        p < old(nodes)@.len(),
        node.parent == Some(p),
        node.children@.len() == 0,
    ensures
        tree_wf(final(nodes)@),
        final(nodes)@.len() == old(nodes)@.len() + 1,
        final(nodes)@[old(nodes)@.len() as int] == node,
        forall|k: int| 0 <= k < old(nodes)@.len() && k != p ==> #[trigger] final(nodes)@[k] == old(nodes)@[k],
        final(nodes)@[p as int].kind@ == old(nodes)@[p as int].kind@,
        final(nodes)@[p as int].is_named == old(nodes)@[p as int].is_named,
        opt_seq(final(nodes)@[p as int].field) == opt_seq(old(nodes)@[p as int].field),
        final(nodes)@[p as int].start == old(nodes)@[p as int].start,
        final(nodes)@[p as int].end == old(nodes)@[p as int].end,
        final(nodes)@[p as int].text@ == old(nodes)@[p as int].text@,
        final(nodes)@[p as int].parent == old(nodes)@[p as int].parent,
        final(nodes)@[p as int].children@ == old(nodes)@[p as int].children@.push(old(nodes)@.len() as usize),
{
    let n = nodes.len();
    let mut pn = clone_node(&nodes[p]);
    pn.children.push(n);
    let ghost before = nodes@;
    nodes.set(p, pn);
    nodes.push(node);
    proof {
        let after = nodes@;
        assert forall|i: int| 0 < i < after.len() implies ((#[trigger] after[i]).parent matches Some(q) && q < i) by {
            if i < n {
                assert(after[i].parent == before[i].parent);
            }
        }
        assert forall|i: int, k: int| 0 <= i < after.len() && 0 <= k < after[i].children@.len()
            implies i < #[trigger] after[i].children@[k] < after.len()
                && after[after[i].children@[k] as int].parent == Some(i as usize) by {
            if i != p {
                assert(after[i].children@ == before[i].children@);
                assert(after[before[i].children@[k] as int].parent == before[before[i].children@[k] as int].parent);
            } else if k < before[p as int].children@.len() {
                assert(after[i].children@[k] == before[p as int].children@[k]);
                assert(after[before[p as int].children@[k] as int].parent == before[before[p as int].children@[k] as int].parent);
            }
        }
        assert forall|i: int, k: int, l: int| 0 <= i < after.len() && 0 <= k < l < after[i].children@.len()
            implies #[trigger] after[i].children@[k] < #[trigger] after[i].children@[l] by {
            if i != p {
                assert(after[i].children@ == before[i].children@);
            } else if l < before[p as int].children@.len() {
                assert(after[i].children@[k] == before[p as int].children@[k]);
                assert(after[i].children@[l] == before[p as int].children@[l]);
            } else {
                assert(after[i].children@[k] == before[p as int].children@[k]);
            }
        }
        assert(after[0].parent is None);
    }
}

/// The parse tree as a flat list of nodes in pre-order (see [`tree_wf`]), node
/// for node the tree's entries over the source (see [`flat_matches`]).
pub fn flatten_tree(tree: &tree_sitter::Tree, source: &str) -> (r: SyntaxTree)
    ensures
        r.wf(),
        flat_matches(r.nodes@, tree_nodes(*tree), source@),
{
    let chars = to_chars(source);
    let offsets = if chars.len() < 0x1000_0000 {
        byte_offsets(&chars)
    } else {
        vec![0u64]
    };
    proof {
        if chars.len() < 0x1000_0000 {
            assert forall|a: int, b: int| 0 <= a < b < offsets@.len() implies offsets@[a] < offsets@[b] by {
                lemma_char_starts_increasing(chars@, a, b);
            }
        }
    }
    let ghost es = tree_nodes(*tree);
    let ghost d = depths_of(es);
    let mut cursor = tree_walk(tree);
    let count = descendant_count(&tree_root(tree));
    let mut nodes: Vec<SyntaxNode> = Vec::new();
    let mut depths: Vec<u32> = Vec::new();
    let mut stack: Vec<usize> = Vec::new();
    let mut i: usize = 0;
    while i < count
        invariant
            count == es.len(),
            count >= 1,
            d == depths_of(es),
            cursor_nodes(cursor) == es,
            chars@ == source@,
            chars@.len() < 0x1000_0000 ==> offsets@.len() == chars@.len() + 1,
        chars@.len() >= 0x1000_0000 ==> offsets@ == seq![0u64],
            chars@.len() < 0x1000_0000 ==> forall|k: int| 0 <= k <= chars@.len() ==> offsets@[k] as int == #[trigger] char_starts(chars@)[k],
            forall|a: int, b: int| 0 <= a < b < offsets@.len() ==> offsets@[a] < offsets@[b],
            i <= count,
            nodes@.len() == i,
            depths@.len() == i,
            forall|k: int| 0 <= k < i ==> depths@[k] as nat == #[trigger] d[k],
            stack@.map_values(|v: usize| v as int) == stack_after(d, i as nat),
            i > 0 ==> tree_wf(nodes@),
            forall|k: int| 0 <= k < i ==> #[trigger] node_matches(nodes@, es, source@, i as nat, k),
        decreases count - i,
    {
        goto_descendant(&mut cursor, i);
        let depth = cursor_depth(&cursor);
        let ghost sa = stack_after(d, i as nat);
        proof {
            lemma_stack_bounded(d, i as nat);
            assert forall|k: int| 0 <= k < stack@.len() implies #[trigger] stack@[k] < i by {
                assert(stack@.map_values(|v: usize| v as int)[k] == stack@[k] as int);
            }
        }
        while stack.len() > 0 && depths[stack[stack.len() - 1]] >= depth
            invariant
                d == depths_of(es),
                depths@.len() == i,
                i < count,
                count == es.len(),
                forall|k: int| 0 <= k < i ==> depths@[k] as nat == #[trigger] d[k],
                depth as nat == d[i as int],
                popped(stack@.map_values(|v: usize| v as int), d, depth as nat) == popped(sa, d, depth as nat),
                forall|k: int| 0 <= k < stack@.len() ==> #[trigger] stack@[k] < i,
            decreases stack.len(),
        {
            let ghost sv = stack@.map_values(|v: usize| v as int);
            stack.pop();
            proof {
                assert(stack@.map_values(|v: usize| v as int) =~= sv.drop_last());
            }
        }
        let ghost sv = stack@.map_values(|v: usize| v as int);
        assert(popped(sv, d, depth as nat) == sv);
        let parent: Option<usize> = if stack.len() > 0 {
            Some(stack[stack.len() - 1])
        } else if i == 0 {
            None
        } else {
            Some(0)
        };
        assert(parent == parent_at(d, i as int));
        let node = read_node(&cursor, &chars, &offsets, parent);
        let ghost before = nodes@;
        if i == 0 {
            nodes.push(node);
            proof {
                assert(tree_wf(nodes@));
            }
        } else {
            let p = match parent { Some(p) => p, None => 0 };
            add_child(&mut nodes, node, p);
        }
        depths.push(depth);
        stack.push(i);
        proof {
            assert(stack@.map_values(|v: usize| v as int) =~= sv.push(i as int));
            assert(stack_after(d, (i + 1) as nat) == popped(stack_after(d, i as nat), d, d[i as int]).push(i as int));
            let n1 = (i + 1) as nat;
            let pv: int = match parent { Some(q) => q as int, None => -1 };
            assert(parent is Some ==> 0 <= pv < i);
            assert(cursor_entry(cursor) == es[i as int]);
            assert forall|k: int| 0 <= k < i + 1 implies #[trigger] node_matches(nodes@, es, source@, n1, k) by {
                assert(children_upto(d, k, n1) == children_upto(d, k, i as nat) + if parent_at(d, i as int) == Some(k as usize) {
                    seq![i as usize]
                } else {
                    Seq::<usize>::empty()
                });
                if k < i {
                    assert(node_matches(before, es, source@, i as nat, k));
                    if k == pv {
                        assert(parent_at(d, i as int) == Some(k as usize));
                        assert(nodes@[k].children@ == before[k].children@.push(i as usize));
                    } else {
                        assert(parent_at(d, i as int) != Some(k as usize));
                        assert(nodes@[k] == before[k]);
                        assert(children_upto(d, k, n1) =~= children_upto(d, k, i as nat));
                    }
                    assert(nodes@[k].kind@ == es[k].node.kind);
                    assert(opt_seq(nodes@[k].field) == es[k].field);
                    assert(nodes@[k].start as int == char_pos(source@, es[k].node.start_byte as int));
                    assert(nodes@[k].text@ == span_text(source@, nodes@[k].start as int, nodes@[k].end as int));
                    assert(nodes@[k].parent == parent_at(depths_of(es), k));
                    assert(nodes@[k].children@ == children_upto(depths_of(es), k, n1));
                    assert(node_matches(nodes@, es, source@, n1, k));
                } else {
                    lemma_children_upto_before(d, k, i as nat);
                    assert(parent_at(d, i as int) != Some(k as usize));
                    assert(children_upto(d, k, n1) =~= Seq::<usize>::empty());
                    assert(nodes@[k] == node);
                    assert(k == i);
                    assert(nodes@[k].kind@ == es[k].node.kind);
                    assert(opt_seq(nodes@[k].field) == es[k].field);
                    assert(nodes@[k].start as int == char_pos(source@, es[k].node.start_byte as int));
                    assert(nodes@[k].end as int == char_pos(source@, es[k].node.end_byte as int));
                    assert(nodes@[k].text@ == span_text(source@, nodes@[k].start as int, nodes@[k].end as int));
                    assert(nodes@[k].parent == parent_at(depths_of(es), k));
                    assert(nodes@[k].children@ == children_upto(depths_of(es), k, n1));
                    assert(node_matches(nodes@, es, source@, n1, k));
                }
            }
        }
        i += 1;
    }
    SyntaxTree { nodes }
}

/// A node has no children among the nodes before it.
proof fn lemma_children_upto_before(d: Seq<nat>, j: int, n: nat)
    requires
        n <= j <= usize::MAX,
    ensures
        children_upto(d, j, n) == Seq::<usize>::empty(),
    decreases n,
{
    if n > 0 {
        lemma_children_upto_before(d, j, (n - 1) as nat);
        lemma_stack_bounded(d, (n - 1) as nat);
        let s = popped(stack_after(d, (n - 1) as nat), d, d[n - 1]);
        lemma_popped_prefix(stack_after(d, (n - 1) as nat), d, d[n - 1]);
        if s.len() > 0 {
            assert(s.last() == stack_after(d, (n - 1) as nat)[s.len() - 1]);
        }
        let i = n - 1;
        assert(stack_after(d, i as nat) == stack_after(d, (n - 1) as nat));
        assert(parent_at(d, i) != Some(j as usize));
        assert(children_upto(d, j, n) =~= Seq::<usize>::empty());
    }
}

proof fn lemma_char_starts_increasing(s: Seq<char>, a: int, b: int)
    requires
        0 <= a < b <= s.len(),
    ensures
        char_starts(s)[a] < char_starts(s)[b],
    decreases s.len(),
{
    lemma_char_starts_len(s);
    lemma_char_starts_len(s.drop_last());
    if b < s.len() {
        lemma_char_starts_increasing(s.drop_last(), a, b);
    } else if a < s.len() - 1 {
        lemma_char_starts_increasing(s.drop_last(), a, b - 1);
    }
}

/// Why a PHP parser could not be made or used.
#[derive(Debug, Clone, Copy, PartialEq, Eq, Structural)]
pub enum ParseError {
    /// The PHP grammar could not be loaded.
    Language,
    /// The parser produced no tree.
    Parse,
}

/// A reusable PHP parser.
pub struct PhpParser {
    parser: tree_sitter::Parser,
}

impl PhpParser {
    /// The parser holds the PHP grammar.
    pub closed spec fn wf(&self) -> bool {
        parser_has_php(self.parser)
    }

    /// A parser for PHP; an error when the grammar cannot be loaded.
    pub fn new() -> (r: Result<Self, ParseError>)
        ensures
            r matches Ok(p) ==> p.wf(),
            r matches Err(e) ==> e == ParseError::Language,
    {
        let mut parser = new_parser();
        match set_php_language(&mut parser) {
            Ok(()) => Ok(PhpParser { parser }),
            Err(_) => Err(ParseError::Language),
        }
    }

    /// Parses PHP source text: the tree tree-sitter's PHP grammar gives for it
    /// (see [`php_parse`]).
    pub fn parse(&mut self, source: &str) -> (r: Result<tree_sitter::Tree, ParseError>)
        requires
            old(self).wf(),
        ensures
            final(self).wf(),
            r matches Ok(t) && tree_nodes(t) == php_parse(source@),
    {
        match parse_text(&mut self.parser, source) {
            Some(t) => Ok(t),
            None => Err(ParseError::Parse),
        }
    }

    /// Parses PHP source text into a flat tree: the PHP syntax of the text (see
    /// [`php_syntax_of`] and [`flatten_tree`]).
    pub fn parse_flat(&mut self, source: &str) -> (r: Result<SyntaxTree, ParseError>)
        requires
            old(self).wf(),
        ensures
            final(self).wf(),
            r matches Ok(t) && t.wf() && php_syntax_of(t.nodes@, source@),
    {
        match self.parse(source) {
            Ok(t) => Ok(flatten_tree(&t, source)),
            Err(e) => Err(e),
        }
    }
}

} // verus!
