//! The syntax tree: branches with children, leaves with text, and error nodes.
use crate::eco::{eco_chars, eco_new};
use crate::kind::SyntaxKind;
use ecow::EcoString;
use vstd::prelude::*;

verus! {

/// A span of the source, from `start` (inclusive) to `end` (exclusive). The parsers
/// of a character vector count characters; a parsed document and its diagnostics count
/// the bytes of the UTF-8 encoding of the source.
#[derive(Debug, Clone, Copy, PartialEq, Eq, Hash, Structural)]
pub struct Span {
    pub start: usize,
    pub end: usize,
}

/// The model of a node: its span as integers, its kind, and its children or its text.
pub enum SNode {
    Branch(Span, SyntaxKind, Seq<SNode>),
    Leaf(Span, SyntaxKind, Seq<char>),
    Error(Span, Seq<char>),
}

/// A leaf: a token with its text.
#[derive(Debug, Clone)]
pub struct LeafNode {
    pub span: Span,
    pub kind: SyntaxKind,
    pub text: EcoString,
}

/// A branch: an inner node with its children.
#[derive(Debug)]
pub struct BranchNode {
    pub span: Span,
    pub kind: SyntaxKind,
    pub children: Vec<Node>,
}

/// An error: text that could not be parsed as what was expected there.
#[derive(Debug, Clone)]
pub struct ErrorNode {
    pub span: Span,
    pub text: EcoString,
}

/// A node of the syntax tree.
#[derive(Debug)]
pub enum Node {
    Branch(BranchNode),
    Leaf(LeafNode),
    Error(ErrorNode),
}

/// The model of a node.
pub open spec fn node_view(n: Node) -> SNode
    decreases n,
{
    match n {
        Node::Branch(b) => SNode::Branch(b.span, b.kind, nodes_view(b.children@)),
        Node::Leaf(l) => SNode::Leaf(l.span, l.kind, eco_chars(l.text)),
        Node::Error(e) => SNode::Error(e.span, eco_chars(e.text)),
    }
}

/// The models of a sequence of nodes.
pub open spec fn nodes_view(s: Seq<Node>) -> Seq<SNode>
    decreases s,
{
    if s.len() == 0 {
        Seq::empty()
    } else {
        nodes_view(s.drop_last()).push(node_view(s.last()))
    }
}

/// The models of a sequence of nodes keep its length.
pub proof fn lemma_nodes_view_len(s: Seq<Node>)
    ensures
        nodes_view(s).len() == s.len(),
    decreases s.len(),
{
    if s.len() > 0 {
        lemma_nodes_view_len(s.drop_last());
    }
}

/// The model of a sequence with one more node is the model with one more model.
pub proof fn lemma_nodes_view_push(s: Seq<Node>, n: Node)
    ensures
        nodes_view(s.push(n)) == nodes_view(s).push(node_view(n)),
{
    assert(s.push(n).drop_last() =~= s);
}

/// The model of a concatenation is the concatenation of the models.
pub proof fn lemma_nodes_view_add(a: Seq<Node>, b: Seq<Node>)
    ensures
        nodes_view(a + b) == nodes_view(a) + nodes_view(b),
    decreases b.len(),
{
    if b.len() == 0 {
        assert(a + b =~= a);
        assert(nodes_view(a) + nodes_view(b) =~= nodes_view(a));
    } else {
        lemma_nodes_view_add(a, b.drop_last());
        assert((a + b).drop_last() =~= a + b.drop_last());
        assert((a + b).last() == b.last());
        assert(nodes_view(a) + nodes_view(b) =~= (nodes_view(a) + nodes_view(b.drop_last())).push(
            node_view(b.last()),
        ));
    }
}

/// The model of the node at an index is the model at that index.
pub proof fn lemma_nodes_view_index(s: Seq<Node>, i: int)
    requires
        0 <= i < s.len(),
    ensures
        nodes_view(s)[i] == node_view(s[i]),
    decreases s.len(),
{
    lemma_nodes_view_len(s.drop_last());
    if i < s.len() - 1 {
        lemma_nodes_view_index(s.drop_last(), i);
    }
}

/// The kind of a node; an error node has the kind `Error`.
pub open spec fn snode_kind(n: SNode) -> SyntaxKind {
    match n {
        SNode::Branch(_, k, _) => k,
        SNode::Leaf(_, k, _) => k,
        SNode::Error(_, _) => SyntaxKind::Error,
    }
}

/// The span of a node.
pub open spec fn snode_span(n: SNode) -> Span {
    match n {
        SNode::Branch(s, _, _) => s,
        SNode::Leaf(s, _, _) => s,
        SNode::Error(s, _) => s,
    }
}

/// The text of a node; a branch has none.
pub open spec fn snode_text(n: SNode) -> Seq<char> {
    match n {
        SNode::Branch(_, _, _) => Seq::empty(),
        SNode::Leaf(_, _, t) => t,
        SNode::Error(_, t) => t,
    }
}

/// The children of a node; leaves and error nodes have none.
pub open spec fn snode_children(n: SNode) -> Seq<SNode> {
    match n {
        SNode::Branch(_, _, c) => c,
        _ => Seq::empty(),
    }
}

/// The kinds and spans of the nodes of a tree in the order a stack visits them: a
/// node, then the trees of its children from the last to the first.
pub open spec fn flat(n: SNode) -> Seq<(SyntaxKind, Span)>
    decreases n,
{
    match n {
        SNode::Branch(sp, k, cs) => seq![(k, sp)] + flat_rev(cs),
        SNode::Leaf(sp, k, _) => seq![(k, sp)],
        SNode::Error(sp, _) => seq![(SyntaxKind::Error, sp)],
    }
}

/// The trees of a sequence of nodes from the last to the first.
pub open spec fn flat_rev(cs: Seq<SNode>) -> Seq<(SyntaxKind, Span)>
    decreases cs,
{
    if cs.len() == 0 {
        Seq::empty()
    } else {
        flat(cs.last()) + flat_rev(cs.drop_last())
    }
}

/// Whether `out` is what filtering the tree of `n` by `f` can give, in the order a
/// stack visits the nodes: a node whose kind `f` maps to a value gives that value
/// with its span, and its children are not visited; otherwise the trees of its
/// children are filtered, from the last child to the first.
pub open spec fn filtered<T, F: Fn(SyntaxKind) -> Option<T>>(
    f: F,
    n: SNode,
    out: Seq<(T, Span)>,
) -> bool
    decreases n,
{
    match n {
        SNode::Branch(sp, k, cs) => {
            ||| (out.len() == 1 && out[0].1 == sp && f.ensures((k,), Some(out[0].0)))
            ||| (f.ensures((k,), None) && filtered_rev(f, cs, out))
        },
        _ => {
            ||| (out.len() == 1 && out[0].1 == snode_span(n) && f.ensures(
                (snode_kind(n),),
                Some(out[0].0),
            ))
            ||| (f.ensures((snode_kind(n),), None) && out.len() == 0)
        },
    }
}

/// Whether `out` is what filtering the trees of `cs`, from the last to the first,
/// by `f` can give.
pub open spec fn filtered_rev<T, F: Fn(SyntaxKind) -> Option<T>>(
    f: F,
    cs: Seq<SNode>,
    out: Seq<(T, Span)>,
) -> bool
    decreases cs,
{
    if cs.len() == 0 {
        out.len() == 0
    } else {
        exists|i: int|
            #![trigger out.take(i)]
            0 <= i <= out.len() && filtered(f, cs.last(), out.take(i)) && filtered_rev(
                f,
                cs.drop_last(),
                out.skip(i),
            )
    }
}

impl Node {
    /// The kind of the node.
    pub fn kind(&self) -> (r: SyntaxKind)
        ensures
            r == snode_kind(node_view(*self)),
    {
        match self {
            Node::Branch(b) => b.kind,
            Node::Leaf(l) => l.kind,
            Node::Error(_) => SyntaxKind::Error,
        }
    }

    /// The span of the node.
    pub fn span(&self) -> (r: Span)
        ensures
            r == snode_span(node_view(*self)),
    {
        match self {
            Node::Branch(b) => b.span,
            Node::Leaf(l) => l.span,
            Node::Error(e) => e.span,
        }
    }

    /// The text of the node; a branch has an empty one.
    pub fn text(&self) -> (r: EcoString)
        ensures
            eco_chars(r) == snode_text(node_view(*self)),
    {
        match self {
            Node::Branch(_) => eco_new(),
            Node::Leaf(l) => l.text.clone(),
            Node::Error(e) => e.text.clone(),
        }
    }

    /// The children of the node; leaves and error nodes have none.
    pub fn children(&self) -> (r: &[Node])
        ensures
            nodes_view(r@) == snode_children(node_view(*self)),
    {
        match self {
            Node::Branch(b) => b.children.as_slice(),
            _ => {
                let v: &[Node] = &[];
                assert(nodes_view(v@) =~= Seq::<SNode>::empty());
                v
            },
        }
    }

    /// Whether the node is a branch.
    pub fn is_branch(&self) -> (r: bool)
        ensures
            r == node_view(*self) is Branch,
    {
        match self {
            Node::Branch(_) => true,
            _ => false,
        }
    }

    /// Whether the node is a leaf.
    pub fn is_leaf(&self) -> (r: bool)
        ensures
            r == node_view(*self) is Leaf,
    {
        match self {
            Node::Leaf(_) => true,
            _ => false,
        }
    }

    /// Whether the node is an error node.
    pub fn is_error(&self) -> (r: bool)
        ensures
            r == node_view(*self) is Error,
    {
        match self {
            Node::Error(_) => true,
            _ => false,
        }
    }

    /// The kinds and spans of all nodes of the tree, in the order a stack visits
    /// them: each node before the trees of its children, from the last child to the
    /// first.
    pub fn flatten(&self) -> (r: Vec<(SyntaxKind, Span)>)
        ensures
            r@ == flat(node_view(*self)),
    {
        let mut out: Vec<(SyntaxKind, Span)> = Vec::new();
        flatten_into(self, &mut out);
        assert(Seq::<(SyntaxKind, Span)>::empty() + flat(node_view(*self)) =~= flat(node_view(*self)));
        out
    }

    /// The values that `f` gives for the kinds of the nodes of the tree, with their
    /// spans, in the order a stack visits the nodes; below a node that gives a value
    /// nothing is visited.
    pub fn filter_map<T, F: Fn(SyntaxKind) -> Option<T>>(&self, f: F) -> (r: Vec<(T, Span)>)
        requires
            forall|k: SyntaxKind| f.requires((k,)),
        ensures
            filtered(f, node_view(*self), r@),
    {
        let mut out: Vec<(T, Span)> = Vec::new();
        filter_into(self, &f, &mut out);
        assert(out@.skip(0) =~= out@);
        out
    }
}

/// Filtering a last tree and then the trees before it gives what filtering the
/// trees from the last to the first gives.
proof fn lemma_filtered_rev_push<T, F: Fn(SyntaxKind) -> Option<T>>(
    f: F,
    cs: Seq<SNode>,
    x: Seq<(T, Span)>,
    rest: Seq<(T, Span)>,
)
    requires
        cs.len() > 0,
        filtered(f, cs.last(), x),
        filtered_rev(f, cs.drop_last(), rest),
    ensures
        filtered_rev(f, cs, x + rest),
{
    assert((x + rest).take(x.len() as int) =~= x);
    assert((x + rest).skip(x.len() as int) =~= rest);
}

/// Appends to `out` what filtering the tree of `n` by `f` gives.
fn filter_into<T, F: Fn(SyntaxKind) -> Option<T>>(n: &Node, f: &F, out: &mut Vec<(T, Span)>)
    requires
        forall|k: SyntaxKind| f.requires((k,)),
    ensures
        final(out)@.len() >= old(out)@.len(),
        final(out)@.take(old(out)@.len() as int) == old(out)@,
        filtered(*f, node_view(*n), final(out)@.skip(old(out)@.len() as int)),
    decreases node_view(*n),
{
    let ghost base = out@;
    let k = n.kind();
    match f(k) {
        Some(v) => {
            let sp = n.span();
            out.push((v, sp));
            proof {
                assert(out@.take(base.len() as int) =~= base);
                assert(out@.skip(base.len() as int) =~= seq![(v, sp)]);
            }
        },
        None => {
            match n {
                Node::Branch(b) => {
                    let ghost cv = nodes_view(b.children@);
                    proof {
                        lemma_nodes_view_len(b.children@);
                        assert(cv.take(cv.len() as int) =~= cv);
                        assert(out@.skip(base.len() as int) =~= Seq::<(T, Span)>::empty());
                        assert forall|rest: Seq<(T, Span)>|
                            #[trigger] filtered_rev(*f, cv.take(cv.len() as int), rest) implies filtered_rev(
                                *f,
                                cv,
                                out@.skip(base.len() as int) + rest,
                            ) by {
                            assert(out@.skip(base.len() as int) + rest =~= rest);
                        }
                    }
                    let mut i = b.children.len();
                    while i > 0
                        invariant
                            i <= b.children@.len(),
                            cv == nodes_view(b.children@),
                            cv.len() == b.children@.len(),
                            node_view(*n) == SNode::Branch(b.span, b.kind, cv),
                            forall|k: SyntaxKind| f.requires((k,)),
                            out@.len() >= base.len(),
                            out@.take(base.len() as int) == base,
                            forall|rest: Seq<(T, Span)>|
                                #[trigger] filtered_rev(*f, cv.take(i as int), rest) ==> filtered_rev(
                                    *f,
                                    cv,
                                    out@.skip(base.len() as int) + rest,
                                ),
                        decreases i,
                    {
                        i = i - 1;
                        let ghost before = out@;
                        proof {
                            lemma_nodes_view_index(b.children@, i as int);
                            assert(decreases_to!(node_view(*n) => node_view(*n)->Branch_2));
                            assert(decreases_to!(cv => cv[i as int]));
                            assert(decreases_to!(node_view(*n) => cv[i as int]));
                        }
                        filter_into(&b.children[i], f, out);
                        proof {
                            let x = out@.skip(before.len() as int);
                            let done = before.skip(base.len() as int);
                            assert(out@.take(base.len() as int) =~= base) by {
                                assert(out@.take(before.len() as int).take(base.len() as int)
                                    =~= out@.take(base.len() as int));
                            }
                            assert(out@.skip(base.len() as int) =~= done + x) by {
                                assert(out@ =~= out@.take(before.len() as int) + x);
                            }
                            assert forall|rest: Seq<(T, Span)>|
                                #[trigger] filtered_rev(*f, cv.take(i as int), rest) implies filtered_rev(
                                    *f,
                                    cv,
                                    out@.skip(base.len() as int) + rest,
                                ) by {
                                let t = cv.take(i + 1);
                                assert(t.drop_last() =~= cv.take(i as int));
                                assert(t.last() == cv[i as int]);
                                lemma_filtered_rev_push(*f, t, x, rest);
                                assert(done + (x + rest) =~= out@.skip(base.len() as int) + rest);
                            }
                        }
                    }
                    proof {
                        assert(cv.take(0) =~= Seq::<SNode>::empty());
                        let produced = out@.skip(base.len() as int);
                        assert(filtered_rev(*f, cv.take(0), Seq::<(T, Span)>::empty()));
                        assert(produced + Seq::<(T, Span)>::empty() =~= produced);
                    }
                },
                _ => {
                    proof {
                        assert(out@.take(base.len() as int) =~= base);
                        assert(out@.skip(base.len() as int) =~= Seq::<(T, Span)>::empty());
                    }
                },
            }
        },
    }
}

/// Appends the kinds and spans of the tree of `n` to `out`.
fn flatten_into(n: &Node, out: &mut Vec<(SyntaxKind, Span)>)
    ensures
        final(out)@ == old(out)@ + flat(node_view(*n)),
    decreases node_view(*n),
{
    match n {
        Node::Branch(b) => {
            let ghost base = old(out)@;
            let ghost cv = nodes_view(b.children@);
            out.push((b.kind, b.span));
            proof {
                lemma_nodes_view_len(b.children@);
                assert(cv.take(cv.len() as int) =~= cv);
            }
            let mut i = b.children.len();
            while i > 0
                invariant
                    i <= b.children@.len(),
                    cv == nodes_view(b.children@),
                    cv.len() == b.children@.len(),
                    node_view(*n) == SNode::Branch(b.span, b.kind, cv),
                    out@ + flat_rev(cv.take(i as int)) == base + seq![(b.kind, b.span)] + flat_rev(cv),
                decreases i,
            {
                i = i - 1;
                let ghost before = out@;
                proof {
                    lemma_nodes_view_index(b.children@, i as int);
                    assert(cv.take(i + 1).drop_last() =~= cv.take(i as int));
                    assert(cv.take(i + 1).last() == cv[i as int]);
                    assert(node_view(*n) == SNode::Branch(b.span, b.kind, cv));
                    assert(decreases_to!(node_view(*n) => node_view(*n)->Branch_2));
                    assert(decreases_to!(cv => cv[i as int]));
                    assert(decreases_to!(node_view(*n) => cv[i as int]));
                }
                flatten_into(&b.children[i], out);
                proof {
                    assert(before + flat(cv[i as int]) + flat_rev(cv.take(i as int)) =~= before + (
                    flat(cv[i as int]) + flat_rev(cv.take(i as int))));
                }
            }
            proof {
                assert(cv.take(0) =~= Seq::<SNode>::empty());
                assert(out@ + flat_rev(cv.take(0)) =~= out@);
                assert(base + seq![(b.kind, b.span)] + flat_rev(cv) =~= base + (seq![(b.kind, b.span)]
                    + flat_rev(cv)));
            }
        },
        Node::Leaf(l) => {
            out.push((l.kind, l.span));
        },
        Node::Error(e) => {
            out.push((SyntaxKind::Error, e.span));
        },
    }
}

/// The number of nodes of a tree.
pub open spec fn node_count(n: SNode) -> nat
    decreases n,
{
    match n {
        SNode::Branch(_, _, cs) => 1 + count_all(cs),
        _ => 1,
    }
}

/// The number of nodes of a sequence of trees.
pub open spec fn count_all(cs: Seq<SNode>) -> nat
    decreases cs,
{
    if cs.len() == 0 {
        0
    } else {
        count_all(cs.drop_last()) + node_count(cs.last())
    }
}

/// Flattening a tree lists each of its nodes once, the root first.
pub proof fn lemma_flat_lists_every_node(n: SNode)
    ensures
        flat(n).len() == node_count(n),
        flat(n)[0] == (snode_kind(n), snode_span(n)),
    decreases n,
{
    if let SNode::Branch(_, _, cs) = n {
        lemma_flat_rev_lists_every_node(cs);
    }
}

/// Flattening a sequence of trees lists each of their nodes once.
pub proof fn lemma_flat_rev_lists_every_node(cs: Seq<SNode>)
    ensures
        flat_rev(cs).len() == count_all(cs),
    decreases cs,
{
    if cs.len() > 0 {
        lemma_flat_lists_every_node(cs.last());
        lemma_flat_rev_lists_every_node(cs.drop_last());
    }
}

} // verus!
