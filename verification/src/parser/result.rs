//! Results of the parsers of the grammar, in the model and in code.
use crate::eco::eco_from_slice;
use crate::kind::SyntaxKind;
use crate::node::{
    lemma_nodes_view_add, lemma_nodes_view_push, node_view, nodes_view, BranchNode, ErrorNode,
    LeafNode, Node, SNode, Span,
};
use vstd::prelude::*;

verus! {

/// What went wrong at a place of the source.
#[derive(Debug, Clone, Copy, PartialEq, Eq, Structural)]
pub enum ParseErrorKind {
    /// An inline markup opened with this delimiter was not closed.
    Unclosed(char),
    /// A backslash stands before a character that cannot be escaped.
    InvalidEscape,
    /// The rows of a table hold different numbers of cells.
    ColumnMismatch,
    /// The document does not continue as the grammar allows.
    Unexpected,
}

/// An error found while parsing, with its place in the source.
#[derive(Debug, Clone, Copy, PartialEq, Eq, Structural)]
pub struct ParseError {
    pub span: Span,
    pub kind: ParseErrorKind,
}

/// The outcome of a parser in the model: it fails, it succeeds with a value, the
/// position after what it consumed and the errors it recovered from, or the whole
/// parse aborts.
pub enum PR<T> {
    Fail,
    Done(T, int, Seq<ParseError>),
    Abort,
}

/// The outcome of a parser.
pub enum Parsed<T> {
    Fail,
    Done(T, usize, Vec<ParseError>),
    Abort,
}

/// The model of the outcome of a parser of one node.
pub open spec fn node_res(r: Parsed<Node>) -> PR<SNode> {
    match r {
        Parsed::Fail => PR::Fail,
        Parsed::Done(n, q, e) => PR::Done(node_view(n), q as int, e@),
        Parsed::Abort => PR::Abort,
    }
}

/// The model of the outcome of a parser of a sequence of nodes.
pub open spec fn nodes_res(r: Parsed<Vec<Node>>) -> PR<Seq<SNode>> {
    match r {
        Parsed::Fail => PR::Fail,
        Parsed::Done(n, q, e) => PR::Done(nodes_view(n@), q as int, e@),
        Parsed::Abort => PR::Abort,
    }
}

/// Whether a successful outcome ends after `p` and within the input.
pub open spec fn advances<T>(r: Parsed<T>, p: int, len: int) -> bool {
    r matches Parsed::Done(_, q, _) ==> p < q <= len
}

/// Whether a successful outcome ends at or after `p` and within the input.
pub open spec fn stays<T>(r: Parsed<T>, p: int, len: int) -> bool {
    r matches Parsed::Done(_, q, _) ==> p <= q <= len
}

/// The span from `a` to `b`.
pub open spec fn sp(a: int, b: int) -> Span {
    Span { start: a as usize, end: b as usize }
}

/// A leaf whose span and text are `s[a..b]`.
pub open spec fn leaf(s: Seq<char>, kind: SyntaxKind, a: int, b: int) -> SNode {
    SNode::Leaf(sp(a, b), kind, s.subrange(a, b))
}

/// A leaf with the span `a..b` and the text `s[ta..tb]`.
pub open spec fn leaf_in(s: Seq<char>, kind: SyntaxKind, a: int, b: int, ta: int, tb: int) -> SNode {
    SNode::Leaf(sp(a, b), kind, s.subrange(ta, tb))
}

/// A branch with the span `a..b`.
pub open spec fn branch(kind: SyntaxKind, a: int, b: int, children: Seq<SNode>) -> SNode {
    SNode::Branch(sp(a, b), kind, children)
}

/// An error node for `s[a..b]`.
pub open spec fn error_node(s: Seq<char>, a: int, b: int) -> SNode {
    SNode::Error(sp(a, b), s.subrange(a, b))
}

/// Builds a leaf with the span `a..b` and the text `src[ta..tb]`.
pub fn mk_leaf_in(src: &Vec<char>, kind: SyntaxKind, a: usize, b: usize, ta: usize, tb: usize) -> (r: Node)
    requires
        ta <= tb <= src.len(),
    ensures
        node_view(r) == leaf_in(src@, kind, a as int, b as int, ta as int, tb as int),
{
    let text = eco_from_slice(src, ta, tb);
    Node::Leaf(LeafNode { span: Span { start: a, end: b }, kind, text })
}

/// Builds a leaf whose span and text are `src[a..b]`.
pub fn mk_leaf(src: &Vec<char>, kind: SyntaxKind, a: usize, b: usize) -> (r: Node)
    requires
        a <= b <= src.len(),
    ensures
        node_view(r) == leaf(src@, kind, a as int, b as int),
{
    mk_leaf_in(src, kind, a, b, a, b)
}

/// Builds an error node for `src[a..b]`.
pub fn mk_error(src: &Vec<char>, a: usize, b: usize) -> (r: Node)
    requires
        a <= b <= src.len(),
    ensures
        node_view(r) == error_node(src@, a as int, b as int),
{
    let text = eco_from_slice(src, a, b);
    Node::Error(ErrorNode { span: Span { start: a, end: b }, text })
}

/// Builds a branch with the span `a..b`.
pub fn mk_branch(kind: SyntaxKind, a: usize, b: usize, children: Vec<Node>) -> (r: Node)
    ensures
        node_view(r) == branch(kind, a as int, b as int, nodes_view(children@)),
{
    Node::Branch(BranchNode { span: Span { start: a, end: b }, kind, children })
}

/// Appends the nodes of `b` to `a`.
pub fn append_nodes(a: &mut Vec<Node>, b: Vec<Node>)
    ensures
        nodes_view(final(a)@) == nodes_view(old(a)@) + nodes_view(b@),
{
    let mut b = b;
    proof {
        lemma_nodes_view_add(a@, b@);
    }
    a.append(&mut b);
}

/// Appends one node to `a`.
pub fn push_node(a: &mut Vec<Node>, n: Node)
    ensures
        nodes_view(final(a)@) == nodes_view(old(a)@).push(node_view(n)),
{
    proof {
        lemma_nodes_view_push(a@, n);
    }
    a.push(n);
}

/// A vector of one node.
pub fn one_node(n: Node) -> (r: Vec<Node>)
    ensures
        nodes_view(r@) == seq![node_view(n)],
{
    let mut v: Vec<Node> = Vec::new();
    push_node(&mut v, n);
    proof {
        assert(nodes_view(Seq::<Node>::empty()) =~= Seq::<SNode>::empty());
        assert(Seq::<SNode>::empty().push(node_view(n)) =~= seq![node_view(n)]);
    }
    v
}

/// A vector of two nodes.
pub fn two_nodes(n: Node, m: Node) -> (r: Vec<Node>)
    ensures
        nodes_view(r@) == seq![node_view(n), node_view(m)],
{
    let mut v = one_node(n);
    push_node(&mut v, m);
    proof {
        assert(seq![node_view(n)].push(node_view(m)) =~= seq![node_view(n), node_view(m)]);
    }
    v
}

/// An empty vector of nodes.
pub fn no_nodes() -> (r: Vec<Node>)
    ensures
        nodes_view(r@) == Seq::<SNode>::empty(),
{
    let v: Vec<Node> = Vec::new();
    proof {
        assert(nodes_view(v@) =~= Seq::<SNode>::empty());
    }
    v
}

/// Appends the errors of `b` to `a`.
pub fn append_errors(a: &mut Vec<ParseError>, b: Vec<ParseError>)
    ensures
        final(a)@ == old(a)@ + b@,
{
    let mut b = b;
    a.append(&mut b);
}

} // verus!
