//! Byte positions: the parsers step through the characters of a source, and the
//! spans they report count the bytes of its UTF-8 encoding.
use crate::node::{lemma_nodes_view_index, lemma_nodes_view_len, node_view, nodes_view, BranchNode, ErrorNode, LeafNode, Node, SNode, Span};
use vstd::prelude::*;
use vstd::utf8::{encode_scalar, encode_utf8};

verus! {

/// The byte position of the character position `i`: the length of the UTF-8
/// encoding of the first `i` characters, or of all of them where `i` is past the end.
pub open spec fn byte_pos(s: Seq<char>, i: int) -> int {
    if 0 <= i <= s.len() {
        encode_utf8(s.take(i)).len() as int
    } else if i < 0 {
        0
    } else {
        encode_utf8(s).len() as int
    }
}

/// A span counted in characters, counted in bytes.
pub open spec fn byte_span(s: Seq<char>, sp: Span) -> Span {
    Span { start: byte_pos(s, sp.start as int) as usize, end: byte_pos(s, sp.end as int) as usize }
}

/// A tree whose spans count characters, with spans that count bytes.
pub open spec fn byte_tree(s: Seq<char>, n: SNode) -> SNode
    decreases n,
{
    match n {
        SNode::Branch(sp, k, cs) => SNode::Branch(byte_span(s, sp), k, byte_trees(s, cs)),
        SNode::Leaf(sp, k, t) => SNode::Leaf(byte_span(s, sp), k, t),
        SNode::Error(sp, t) => SNode::Error(byte_span(s, sp), t),
    }
}

/// Trees whose spans count characters, with spans that count bytes.
pub open spec fn byte_trees(s: Seq<char>, cs: Seq<SNode>) -> Seq<SNode>
    decreases cs,
{
    if cs.len() == 0 {
        Seq::empty()
    } else {
        byte_trees(s, cs.drop_last()).push(byte_tree(s, cs.last()))
    }
}

/// Appending a character appends its encoding.
pub proof fn lemma_encode_push(t: Seq<char>, c: char)
    ensures
        encode_utf8(t.push(c)).len() == encode_utf8(t).len() + encode_scalar(c as u32).len(),
    decreases t.len(),
{
    if t.len() == 0 {
        assert(t.push(c).drop_first() =~= Seq::<char>::empty());
        assert(t.push(c)[0] == c);
        assert(encode_utf8(t.push(c).drop_first()) =~= Seq::<u8>::empty());
        assert(encode_utf8(t) =~= Seq::<u8>::empty());
    } else {
        assert(t.push(c).drop_first() =~= t.drop_first().push(c));
        assert(t.push(c)[0] == t[0]);
        lemma_encode_push(t.drop_first(), c);
    }
}

/// The encoding of a prefix is no longer than the encoding of the whole.
pub proof fn lemma_encode_prefix(s: Seq<char>, k: int)
    requires
        0 <= k <= s.len(),
    ensures
        encode_utf8(s.take(k)).len() <= encode_utf8(s).len(),
    decreases s.len() - k,
{
    if k < s.len() {
        lemma_encode_prefix(s, k + 1);
        assert(s.take(k + 1) =~= s.take(k).push(s[k]));
        lemma_encode_push(s.take(k), s[k]);
    } else {
        assert(s.take(k) =~= s);
    }
}

/// The number of bytes of the UTF-8 encoding of a character.
pub fn char_width(c: char) -> (r: usize)
    ensures
        r == encode_scalar(c as u32).len(),
        1 <= r <= 4,
{
    proof {
        vstd::utf8::char_is_scalar(c);
    }
    let v = c as u32;
    if v <= 0x7F {
        1
    } else if v <= 0x7FF {
        2
    } else if v <= 0xFFFF {
        3
    } else {
        4
    }
}

/// The byte position of every character position, the end included.
pub fn byte_offsets(src: &Vec<char>) -> (r: Vec<usize>)
    requires
        encode_utf8(src@).len() <= usize::MAX,
    ensures
        r@.len() == src@.len() + 1,
        forall|i: int| 0 <= i <= src@.len() ==> #[trigger] r@[i] == byte_pos(src@, i),
{
    let mut r: Vec<usize> = Vec::new();
    let mut acc: usize = 0;
    r.push(0);
    assert(src@.take(0) =~= Seq::<char>::empty());
    let mut i: usize = 0;
    while i < src.len()
        invariant
            i <= src@.len(),
            encode_utf8(src@).len() <= usize::MAX,
            r@.len() == i + 1,
            acc == byte_pos(src@, i as int),
            forall|j: int| 0 <= j <= i ==> #[trigger] r@[j] == byte_pos(src@, j),
        decreases src.len() - i,
    {
        let w = char_width(src[i]);
        proof {
            assert(src@.take(i + 1) =~= src@.take(i as int).push(src@[i as int]));
            lemma_encode_push(src@.take(i as int), src@[i as int]);
            lemma_encode_prefix(src@, i + 1);
        }
        acc = acc + w;
        r.push(acc);
        i = i + 1;
    }
    r
}

/// The byte position of a character position, by the table of `byte_offsets`.
fn pos_in(offs: &Vec<usize>, i: usize, Ghost(s): Ghost<Seq<char>>) -> (r: usize)
    requires
        offs@.len() == s.len() + 1,
        forall|j: int| 0 <= j <= s.len() ==> #[trigger] offs@[j] == byte_pos(s, j),
    ensures
        r == byte_pos(s, i as int),
{
    if i < offs.len() {
        offs[i]
    } else {
        assert(s.take(s.len() as int) =~= s);
        offs[offs.len() - 1]
    }
}

/// A span counted in characters, counted in bytes, by the table of `byte_offsets`.
pub fn span_in(offs: &Vec<usize>, sp: Span, Ghost(s): Ghost<Seq<char>>) -> (r: Span)
    requires
        offs@.len() == s.len() + 1,
        forall|j: int| 0 <= j <= s.len() ==> #[trigger] offs@[j] == byte_pos(s, j),
    ensures
        r == byte_span(s, sp),
{
    Span { start: pos_in(offs, sp.start, Ghost(s)), end: pos_in(offs, sp.end, Ghost(s)) }
}

/// A tree whose spans count characters, with spans that count bytes.
pub fn to_byte_tree(n: &Node, offs: &Vec<usize>, Ghost(s): Ghost<Seq<char>>) -> (r: Node)
    requires
        offs@.len() == s.len() + 1,
        forall|j: int| 0 <= j <= s.len() ==> #[trigger] offs@[j] == byte_pos(s, j),
    ensures
        node_view(r) == byte_tree(s, node_view(*n)),
    decreases node_view(*n),
{
    match n {
        Node::Branch(b) => {
            let ghost cv = nodes_view(b.children@);
            proof {
                lemma_nodes_view_len(b.children@);
            }
            let mut out: Vec<Node> = Vec::new();
            let mut i: usize = 0;
            assert(cv.take(0) =~= Seq::<SNode>::empty());
            while i < b.children.len()
                invariant
                    i <= b.children@.len(),
                    cv == nodes_view(b.children@),
                    cv.len() == b.children@.len(),
                    node_view(*n) == SNode::Branch(b.span, b.kind, cv),
                    offs@.len() == s.len() + 1,
                    forall|j: int| 0 <= j <= s.len() ==> #[trigger] offs@[j] == byte_pos(s, j),
                    nodes_view(out@) == byte_trees(s, cv.take(i as int)),
                decreases b.children.len() - i,
            {
                proof {
                    lemma_nodes_view_index(b.children@, i as int);
                    assert(decreases_to!(node_view(*n) => node_view(*n)->Branch_2));
                    assert(decreases_to!(cv => cv[i as int]));
                    assert(decreases_to!(node_view(*n) => cv[i as int]));
                }
                let c = to_byte_tree(&b.children[i], offs, Ghost(s));
                proof {
                    crate::node::lemma_nodes_view_push(out@, c);
                    assert(cv.take(i + 1).drop_last() =~= cv.take(i as int));
                    assert(cv.take(i + 1).last() == cv[i as int]);
                }
                out.push(c);
                i = i + 1;
            }
            assert(cv.take(cv.len() as int) =~= cv);
            Node::Branch(BranchNode { span: span_in(offs, b.span, Ghost(s)), kind: b.kind, children: out })
        },
        Node::Leaf(l) => Node::Leaf(
            LeafNode { span: span_in(offs, l.span, Ghost(s)), kind: l.kind, text: l.text.clone() },
        ),
        Node::Error(e) => Node::Error(ErrorNode { span: span_in(offs, e.span, Ghost(s)), text: e.text.clone() }),
    }
}

} // verus!
