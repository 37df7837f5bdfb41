//! Typed views of the nodes of the syntax tree: a view exists for a node of its
//! kind and reads what that kind holds.
use crate::eco::{eco_as_str, eco_chars, eco_len};
use crate::kind::SyntaxKind;
use crate::node::{
    lemma_nodes_view_index, lemma_nodes_view_len, node_view, nodes_view, snode_children, snode_kind,
    snode_span, snode_text, Node, SNode, Span,
};
use crate::parser::literal::{all_decimal, decimal_value, radix_fits_i64, radix_read, radix_value};
use vstd::prelude::*;
use vstd::utf8::encode_utf8;

verus! {

/// The characters of the text of a node.
pub fn text_chars(n: &Node) -> (r: Vec<char>)
    ensures
        r@ == snode_text(node_view(*n)),
{
    let t = n.text();
    let s = eco_as_str(&t);
    let mut chars: Vec<char> = Vec::new();
    for c in it: s.chars()
        invariant
            chars@ == it.history(),
    {
        chars.push(c);
    }
    proof {
        broadcast use vstd::string::axiom_spec_iter;
    }
    assert(chars@ =~= s@);
    chars
}

/// The marker of a heading.
#[derive(Debug, Clone, Copy)]
pub struct HeadingMarker<'a>(pub &'a Node);

impl<'a> HeadingMarker<'a> {
    /// The depth of the heading: the length of the marker in bytes, as a `u8`.
    pub fn depth(self) -> (r: u8)
        ensures
            r as int == encode_utf8(snode_text(node_view(*self.0))).len() % 256,
    {
        let t = self.0.text();
        let n = eco_len(&t);
        assert((n as u8) as int == n % 256) by (bit_vector);
        n as u8
    }
}

/// The value of an integer as decimal parsing into an `i64` reads it: an optional
/// `+` or `-`, then one or more decimal digits, within the range of `i64`.
pub open spec fn i64_value(t: Seq<char>) -> Option<int> {
    if t.len() > 0 && t[0] == '-' {
        let d = t.drop_first();
        if d.len() > 0 && all_decimal(d) && decimal_value(d) <= 0x8000_0000_0000_0000 {
            Some(-decimal_value(d))
        } else {
            None
        }
    } else {
        let d = if t.len() > 0 && t[0] == '+' {
            t.drop_first()
        } else {
            t
        };
        if d.len() > 0 && all_decimal(d) && decimal_value(d) <= i64::MAX {
            Some(decimal_value(d))
        } else {
            None
        }
    }
}

/// The value of the decimal digits `t[a..]` if it is at most `bound`.
fn digits_value(t: &Vec<char>, a: usize, bound: u64) -> (r: Option<u64>)
    requires
        a <= t.len(),
    ensures
        r is Some <==> (all_decimal(t@.skip(a as int)) && decimal_value(t@.skip(a as int))
            <= bound),
        r matches Some(v) ==> v == decimal_value(t@.skip(a as int)),
{
    let ghost d = t@.skip(a as int);
    let mut i = a;
    let mut v: u64 = 0;
    assert(d.take(0) =~= Seq::<char>::empty());
    while i < t.len()
        invariant
            a <= i <= t.len(),
            d == t@.skip(a as int),
            all_decimal(d.take(i - a)),
            v == decimal_value(d.take(i - a)),
            v <= bound,
        decreases t.len() - i,
    {
        let c = t[i];
        if !('0' <= c && c <= '9') {
            assert(d[i - a] == c);
            return None;
        }
        let dv = (c as u64) - ('0' as u64);
        assert(d.take(i - a + 1).drop_last() =~= d.take(i - a));
        assert(d.take(i - a + 1).last() == c);
        if dv > bound || v > (bound - dv) / 10 {
            proof {
                if dv <= bound {
                    assert(v * 10 + dv > bound) by (nonlinear_arith)
                        requires
                            v > (bound - dv) / 10,
                            dv <= 9,
                            dv <= bound,
                    ;
                }
                if all_decimal(d) {
                    crate::parser::literal::lemma_decimal_prefix(d, i - a + 1);
                }
            }
            return None;
        }
        proof {
            assert(v * 10 + dv <= bound) by (nonlinear_arith)
                requires
                    v <= (bound - dv) / 10,
                    dv <= 9,
                    dv <= bound,
            ;
            assert forall|j: int| 0 <= j < d.take(i - a + 1).len() implies '0' <= #[trigger] d.take(
                i - a + 1,
            )[j] <= '9' by {
                if j < i - a {
                    assert(d.take(i - a + 1)[j] == d.take(i - a)[j]);
                }
            };
        }
        v = v * 10 + dv;
        i = i + 1;
    }
    assert(d.take(t.len() - a) =~= d);
    Some(v)
}

/// Reads an integer as decimal parsing into an `i64` does.
pub fn parse_i64(t: &Vec<char>) -> (r: Option<i64>)
    ensures
        r is Some <==> i64_value(t@) is Some,
        r matches Some(v) ==> i64_value(t@) == Some(v as int),
{
    if t.len() > 0 && t[0] == '-' {
        if t.len() == 1 {
            return None;
        }
        match digits_value(t, 1, 0x8000_0000_0000_0000u64) {
            Some(v) => {
                assert(t@.skip(1) =~= t@.drop_first());
                if v == 0x8000_0000_0000_0000u64 {
                    Some(i64::MIN)
                } else {
                    let w = v as i64;
                    Some(-w)
                }
            },
            None => {
                assert(t@.skip(1) =~= t@.drop_first());
                None
            },
        }
    } else {
        let a: usize = if t.len() > 0 && t[0] == '+' { 1 } else { 0 };
        if t.len() == a {
            return None;
        }
        assert(a == 1 ==> t@.skip(1) =~= t@.drop_first());
        assert(a == 0 ==> t@.skip(0) =~= t@);
        match digits_value(t, a, 0x7fff_ffff_ffff_ffffu64) {
            Some(v) => Some(v as i64),
            None => None,
        }
    }
}

/// The value of the text of an integer literal: octal digits after `0o`,
/// hexadecimal digits after `0x`, else as decimal parsing into an `i64` reads it.
pub open spec fn int_value(t: Seq<char>) -> Option<int> {
    if t.len() >= 2 && t[0] == '0' && (t[1] == 'o' || t[1] == 'x') {
        let radix: u32 = if t[1] == 'o' {
            8
        } else {
            16
        };
        if radix_fits_i64(t.skip(2), radix) {
            Some(radix_value(t.skip(2), radix))
        } else {
            None
        }
    } else {
        i64_value(t)
    }
}

/// Reads the text of an integer literal in its radix.
pub fn parse_int(t: &Vec<char>) -> (r: Option<i64>)
    ensures
        r is Some <==> int_value(t@) is Some,
        r matches Some(v) ==> int_value(t@) == Some(v as int),
{
    if t.len() >= 2 && t[0] == '0' && (t[1] == 'o' || t[1] == 'x') {
        let radix: u32 = if t[1] == 'o' {
            8
        } else {
            16
        };
        assert(t@.subrange(2, t@.len() as int) =~= t@.skip(2));
        match radix_read(t, 2, t.len(), radix) {
            Some(v) => Some(v as i64),
            None => None,
        }
    } else {
        parse_i64(t)
    }
}

/// An integer literal.
#[derive(Debug, Clone, Copy)]
pub struct Int<'a>(pub &'a Node);

impl<'a> Int<'a> {
    /// The value of the integer, read as the literal grammar documents it: octal after
    /// `0o`, hexadecimal after `0x`, else decimal. (A decimal-only reading would reject
    /// the prefixed literals the parser produces.)
    pub fn get(self) -> (r: i64)
        requires
            int_value(snode_text(node_view(*self.0))) is Some,
        ensures
            int_value(snode_text(node_view(*self.0))) == Some(r as int),
    {
        let t = text_chars(self.0);
        match parse_int(&t) {
            Some(v) => v,
            None => {
                assert(false);
                0
            },
        }
    }
}

/// A boolean literal.
#[derive(Debug, Clone, Copy)]
pub struct Bool<'a>(pub &'a Node);

impl<'a> Bool<'a> {
    /// The value of the boolean: its text is `true` or `false`.
    pub fn get(self) -> (r: bool)
        requires
            snode_text(node_view(*self.0)) == seq!['t', 'r', 'u', 'e'] || snode_text(
                node_view(*self.0),
            ) == seq!['f', 'a', 'l', 's', 'e'],
        ensures
            r == (snode_text(node_view(*self.0)) == seq!['t', 'r', 'u', 'e']),
    {
        let t = text_chars(self.0);
        t.len() == 4
    }
}

/// A string literal.
#[derive(Debug, Clone, Copy)]
pub struct Str<'a>(pub &'a Node);

impl<'a> Str<'a> {
    /// The text of the string, without its quotes.
    pub fn get(self) -> (r: ecow::EcoString)
        ensures
            eco_chars(r) == snode_text(node_view(*self.0)),
    {
        self.0.text()
    }
}

/// Whether `i` is the index of the first child of kind `k`.
pub open spec fn first_of_kind(cs: Seq<SNode>, k: SyntaxKind, i: int) -> bool {
    &&& 0 <= i < cs.len()
    &&& snode_kind(cs[i]) == k
    &&& forall|j: int| 0 <= j < i ==> snode_kind(#[trigger] cs[j]) != k
}

/// Whether `i` is the index of the last child of kind `k`.
pub open spec fn last_of_kind(cs: Seq<SNode>, k: SyntaxKind, i: int) -> bool {
    &&& 0 <= i < cs.len()
    &&& snode_kind(cs[i]) == k
    &&& forall|j: int| i < j < cs.len() ==> snode_kind(#[trigger] cs[j]) != k
}

/// Whether some child has kind `k`.
pub open spec fn has_kind(cs: Seq<SNode>, k: SyntaxKind) -> bool {
    exists|i: int| 0 <= i < cs.len() && snode_kind(#[trigger] cs[i]) == k
}

/// The first child of a kind, if there is one.
pub fn first_child(n: &Node, k: SyntaxKind) -> (r: Option<&Node>)
    ensures
        r matches Some(c) ==> exists|i: int|
            first_of_kind(snode_children(node_view(*n)), k, i) && #[trigger] snode_children(
                node_view(*n),
            )[i] == node_view(*c),
        r is None ==> !has_kind(snode_children(node_view(*n)), k),
{
    let cs = n.children();
    let ghost cv = nodes_view(cs@);
    proof {
        lemma_nodes_view_len(cs@);
    }
    let mut i: usize = 0;
    while i < cs.len()
        invariant
            i <= cs@.len(),
            cv == nodes_view(cs@),
            cv.len() == cs@.len(),
            cv == snode_children(node_view(*n)),
            forall|j: int| 0 <= j < i ==> snode_kind(#[trigger] cv[j]) != k,
        decreases cs.len() - i,
    {
        proof {
            lemma_nodes_view_index(cs@, i as int);
        }
        if cs[i].kind() == k {
            assert(first_of_kind(cv, k, i as int));
            return Some(&cs[i]);
        }
        i = i + 1;
    }
    None
}

/// The last child of a kind, if there is one.
pub fn last_child(n: &Node, k: SyntaxKind) -> (r: Option<&Node>)
    ensures
        r matches Some(c) ==> exists|i: int|
            last_of_kind(snode_children(node_view(*n)), k, i) && #[trigger] snode_children(
                node_view(*n),
            )[i] == node_view(*c),
        r is None ==> !has_kind(snode_children(node_view(*n)), k),
{
    let cs = n.children();
    let ghost cv = nodes_view(cs@);
    proof {
        lemma_nodes_view_len(cs@);
    }
    let mut i: usize = cs.len();
    while i > 0
        invariant
            i <= cs@.len(),
            cv == nodes_view(cs@),
            cv.len() == cs@.len(),
            cv == snode_children(node_view(*n)),
            forall|j: int| i <= j < cv.len() ==> snode_kind(#[trigger] cv[j]) != k,
        decreases i,
    {
        i = i - 1;
        proof {
            lemma_nodes_view_index(cs@, i as int);
        }
        if cs[i].kind() == k {
            assert(last_of_kind(cv, k, i as int));
            return Some(&cs[i]);
        }
    }
    None
}

/// A heading.
#[derive(Debug, Clone, Copy)]
pub struct Heading<'a>(pub &'a Node);

impl<'a> Heading<'a> {
    /// The marker of the heading.
    fn marker(self) -> (r: HeadingMarker<'a>)
        requires
            has_kind(snode_children(node_view(*self.0)), SyntaxKind::HeadingMarker),
        ensures
            exists|i: int|
                first_of_kind(snode_children(node_view(*self.0)), SyntaxKind::HeadingMarker, i)
                    && #[trigger] snode_children(node_view(*self.0))[i] == node_view(*r.0),
    {
        match first_child(self.0, SyntaxKind::HeadingMarker) {
            Some(c) => HeadingMarker(c),
            None => {
                assert(false);
                HeadingMarker(self.0)
            },
        }
    }

    /// The depth of the heading: the depth of its marker.
    pub fn depth(self) -> (r: u8)
        requires
            has_kind(snode_children(node_view(*self.0)), SyntaxKind::HeadingMarker),
        ensures
            exists|i: int|
                first_of_kind(snode_children(node_view(*self.0)), SyntaxKind::HeadingMarker, i)
                    && r as int == encode_utf8(
                    snode_text(#[trigger] snode_children(node_view(*self.0))[i]),
                ).len() % 256,
    {
        self.marker().depth()
    }

    /// The content of the heading.
    pub fn content(self) -> (r: Content<'a>)
        requires
            has_kind(snode_children(node_view(*self.0)), SyntaxKind::Content),
        ensures
            exists|i: int|
                first_of_kind(snode_children(node_view(*self.0)), SyntaxKind::Content, i)
                    && #[trigger] snode_children(node_view(*self.0))[i] == node_view(*r.0),
    {
        match first_child(self.0, SyntaxKind::Content) {
            Some(c) => Content(c),
            None => {
                assert(false);
                Content(self.0)
            },
        }
    }

    /// The label of the heading: the last child that is a label.
    pub fn label(self) -> (r: Option<Label<'a>>)
        ensures
            r matches Some(c) ==> exists|i: int|
                last_of_kind(snode_children(node_view(*self.0)), SyntaxKind::Label, i)
                    && #[trigger] snode_children(node_view(*self.0))[i] == node_view(*c.0),
            r is None ==> !has_kind(snode_children(node_view(*self.0)), SyntaxKind::Label),
    {
        match last_child(self.0, SyntaxKind::Label) {
            Some(c) => Some(Label(c)),
            None => None,
        }
    }
}

/// A raw block.
#[derive(Debug, Clone, Copy)]
pub struct Raw<'a>(pub &'a Node);

impl<'a> Raw<'a> {
    /// The text of the raw block.
    pub fn text(self) -> (r: Text<'a>)
        requires
            has_kind(snode_children(node_view(*self.0)), SyntaxKind::Text),
        ensures
            exists|i: int|
                first_of_kind(snode_children(node_view(*self.0)), SyntaxKind::Text, i)
                    && #[trigger] snode_children(node_view(*self.0))[i] == node_view(*r.0),
    {
        match first_child(self.0, SyntaxKind::Text) {
            Some(c) => Text(c),
            None => {
                assert(false);
                Text(self.0)
            },
        }
    }

    /// The language of the raw block, if it names one.
    pub fn lang(self) -> (r: Option<RawLang<'a>>)
        ensures
            r matches Some(c) ==> exists|i: int|
                first_of_kind(snode_children(node_view(*self.0)), SyntaxKind::RawLang, i)
                    && #[trigger] snode_children(node_view(*self.0))[i] == node_view(*c.0),
            r is None ==> !has_kind(snode_children(node_view(*self.0)), SyntaxKind::RawLang),
    {
        match first_child(self.0, SyntaxKind::RawLang) {
            Some(c) => Some(RawLang(c)),
            None => None,
        }
    }
}

/// A link.
#[derive(Debug, Clone, Copy)]
pub struct Link<'a>(pub &'a Node);

impl<'a> Link<'a> {
    /// The target of the link.
    pub fn href(self) -> (r: Text<'a>)
        requires
            has_kind(snode_children(node_view(*self.0)), SyntaxKind::Text),
        ensures
            exists|i: int|
                first_of_kind(snode_children(node_view(*self.0)), SyntaxKind::Text, i)
                    && #[trigger] snode_children(node_view(*self.0))[i] == node_view(*r.0),
    {
        match first_child(self.0, SyntaxKind::Text) {
            Some(c) => Text(c),
            None => {
                assert(false);
                Text(self.0)
            },
        }
    }

    /// The content of the link, if it has some.
    pub fn content(self) -> (r: Option<Content<'a>>)
        ensures
            r matches Some(c) ==> exists|i: int|
                first_of_kind(snode_children(node_view(*self.0)), SyntaxKind::Content, i)
                    && #[trigger] snode_children(node_view(*self.0))[i] == node_view(*c.0),
            r is None ==> !has_kind(snode_children(node_view(*self.0)), SyntaxKind::Content),
    {
        match first_child(self.0, SyntaxKind::Content) {
            Some(c) => Some(Content(c)),
            None => None,
        }
    }
}

/// A reference.
#[derive(Debug, Clone, Copy)]
pub struct Ref<'a>(pub &'a Node);

impl<'a> Ref<'a> {
    /// The identifier the reference names.
    pub fn target(self) -> (r: ecow::EcoString)
        requires
            has_kind(snode_children(node_view(*self.0)), SyntaxKind::Ident),
        ensures
            exists|i: int|
                first_of_kind(snode_children(node_view(*self.0)), SyntaxKind::Ident, i)
                    && eco_chars(r) == snode_text(
                    #[trigger] snode_children(node_view(*self.0))[i],
                ),
    {
        match first_child(self.0, SyntaxKind::Ident) {
            Some(c) => c.text(),
            None => {
                assert(false);
                self.0.text()
            },
        }
    }
}

/// A table.
#[derive(Debug, Clone, Copy)]
pub struct Table<'a>(pub &'a Node);

/// The number of children of a node that are blocks.
pub open spec fn block_count(cs: Seq<SNode>) -> nat
    decreases cs.len(),
{
    if cs.len() == 0 {
        0
    } else {
        block_count(cs.drop_last()) + if is_block_kind(snode_kind(cs.last())) {
            1nat
        } else {
            0nat
        }
    }
}

/// The kinds of blocks.
pub open spec fn is_block_kind(k: SyntaxKind) -> bool {
    k == SyntaxKind::Raw || k == SyntaxKind::Heading || k == SyntaxKind::Table || k
        == SyntaxKind::List || k == SyntaxKind::Enum || k == SyntaxKind::Terms || k
        == SyntaxKind::Paragraph || k == SyntaxKind::Plain
}

/// The number of children of a node that are blocks.
fn row_col_count(row: &Node) -> (r: usize)
    ensures
        r == block_count(snode_children(node_view(*row))),
{
    let cs = row.children();
    let ghost cv = nodes_view(cs@);
    proof {
        lemma_nodes_view_len(cs@);
    }
    let mut i: usize = 0;
    let mut n: usize = 0;
    assert(cv.take(0) =~= Seq::<SNode>::empty());
    while i < cs.len()
        invariant
            i <= cs@.len(),
            cv == nodes_view(cs@),
            cv.len() == cs@.len(),
            cv == snode_children(node_view(*row)),
            n == block_count(cv.take(i as int)),
            n <= i,
        decreases cs.len() - i,
    {
        proof {
            lemma_nodes_view_index(cs@, i as int);
            assert(cv.take(i + 1).drop_last() =~= cv.take(i as int));
            assert(cv.take(i + 1).last() == cv[i as int]);
        }
        let k = cs[i].kind();
        if k == SyntaxKind::Raw || k == SyntaxKind::Heading || k == SyntaxKind::Table || k
            == SyntaxKind::List || k == SyntaxKind::Enum || k == SyntaxKind::Terms || k
            == SyntaxKind::Paragraph || k == SyntaxKind::Plain {
            n = n + 1;
        }
        i = i + 1;
    }
    assert(cv.take(cv.len() as int) =~= cv);
    n
}

impl<'a> Table<'a> {
    /// The number of columns: the number of cells of the first row.
    pub fn col_count(self) -> (r: usize)
        requires
            has_kind(snode_children(node_view(*self.0)), SyntaxKind::TableRow),
        ensures
            exists|i: int|
                first_of_kind(snode_children(node_view(*self.0)), SyntaxKind::TableRow, i) && r
                    == block_count(
                    snode_children(#[trigger] snode_children(node_view(*self.0))[i]),
                ),
    {
        match first_child(self.0, SyntaxKind::TableRow) {
            Some(row) => row_col_count(row),
            None => {
                assert(false);
                0
            },
        }
    }

    /// The label of the table: the last child that is a label.
    pub fn label(self) -> (r: Option<Label<'a>>)
        ensures
            r matches Some(c) ==> exists|i: int|
                last_of_kind(snode_children(node_view(*self.0)), SyntaxKind::Label, i)
                    && #[trigger] snode_children(node_view(*self.0))[i] == node_view(*c.0),
            r is None ==> !has_kind(snode_children(node_view(*self.0)), SyntaxKind::Label),
    {
        match last_child(self.0, SyntaxKind::Label) {
            Some(c) => Some(Label(c)),
            None => None,
        }
    }
}

/// A term definition.
#[derive(Debug, Clone, Copy)]
pub struct TermItem<'a>(pub &'a Node);

/// A comment.
#[derive(Debug, Clone, Copy)]
pub struct Comment<'a>(pub &'a Node);

/// An escaped character.
#[derive(Debug, Clone, Copy)]
pub struct Escape<'a>(pub &'a Node);

/// Code in markup.
#[derive(Debug, Clone, Copy)]
pub struct Code<'a>(pub &'a Node);

/// A call.
#[derive(Debug, Clone, Copy)]
pub struct Call<'a>(pub &'a Node);

/// An argument of a call.
#[derive(Debug, Clone, Copy)]
pub struct Arg<'a>(pub &'a Node);

/// Whether nodes of a kind are expressions.
pub open spec fn is_expr_kind(k: SyntaxKind) -> bool {
    k == SyntaxKind::Ident || k == SyntaxKind::Call || k == SyntaxKind::Bool || k == SyntaxKind::Float
        || k == SyntaxKind::Int || k == SyntaxKind::Str || k == SyntaxKind::Content
}

/// Whether `i` is the index of the first child that is an expression.
pub open spec fn first_expr(cs: Seq<SNode>, i: int) -> bool {
    &&& 0 <= i < cs.len()
    &&& is_expr_kind(snode_kind(cs[i]))
    &&& forall|j: int| 0 <= j < i ==> !is_expr_kind(snode_kind(#[trigger] cs[j]))
}

/// Whether some child is an expression.
pub open spec fn has_expr(cs: Seq<SNode>) -> bool {
    exists|i: int| 0 <= i < cs.len() && is_expr_kind(snode_kind(#[trigger] cs[i]))
}

/// The first child that is an expression, if there is one.
pub fn first_expr_child(n: &Node) -> (r: Option<&Node>)
    ensures
        r matches Some(c) ==> exists|i: int|
            first_expr(snode_children(node_view(*n)), i) && #[trigger] snode_children(
                node_view(*n),
            )[i] == node_view(*c),
        r is None ==> !has_expr(snode_children(node_view(*n))),
{
    let cs = n.children();
    let ghost cv = nodes_view(cs@);
    proof {
        lemma_nodes_view_len(cs@);
    }
    let mut i: usize = 0;
    while i < cs.len()
        invariant
            i <= cs@.len(),
            cv == nodes_view(cs@),
            cv.len() == cs@.len(),
            cv == snode_children(node_view(*n)),
            forall|j: int| 0 <= j < i ==> !is_expr_kind(snode_kind(#[trigger] cv[j])),
        decreases cs.len() - i,
    {
        proof {
            lemma_nodes_view_index(cs@, i as int);
        }
        let k = cs[i].kind();
        if k == SyntaxKind::Ident || k == SyntaxKind::Call || k == SyntaxKind::Bool || k
            == SyntaxKind::Float || k == SyntaxKind::Int || k == SyntaxKind::Str || k
            == SyntaxKind::Content {
            assert(first_expr(cv, i as int));
            return Some(&cs[i]);
        }
        i = i + 1;
    }
    None
}

/// The first child that is an expression, viewed as one.
fn expr_child<'a>(n: &'a Node) -> (r: Expr<'a>)
    requires
        has_expr(snode_children(node_view(*n))),
    ensures
        exists|i: int|
            first_expr(snode_children(node_view(*n)), i) && #[trigger] snode_children(
                node_view(*n),
            )[i] == node_view(*r.node_of()),
        r.kind_of() == snode_kind(node_view(*r.node_of())),
{
    match first_expr_child(n) {
        Some(c) => match Expr::from_node(c) {
            Some(e) => e,
            None => {
                assert(false);
                Expr::Content(Content(n))
            },
        },
        None => {
            assert(false);
            Expr::Content(Content(n))
        },
    }
}

impl<'a> TermItem<'a> {
    /// The term: the first content of the definition.
    pub fn term(self) -> (r: Content<'a>)
        requires
            has_kind(snode_children(node_view(*self.0)), SyntaxKind::Content),
        ensures
            exists|i: int|
                first_of_kind(snode_children(node_view(*self.0)), SyntaxKind::Content, i)
                    && #[trigger] snode_children(node_view(*self.0))[i] == node_view(*r.0),
    {
        match first_child(self.0, SyntaxKind::Content) {
            Some(c) => Content(c),
            None => {
                assert(false);
                Content(self.0)
            },
        }
    }

    /// The description: the last content of the definition.
    pub fn desc(self) -> (r: Content<'a>)
        requires
            has_kind(snode_children(node_view(*self.0)), SyntaxKind::Content),
        ensures
            exists|i: int|
                last_of_kind(snode_children(node_view(*self.0)), SyntaxKind::Content, i)
                    && #[trigger] snode_children(node_view(*self.0))[i] == node_view(*r.0),
    {
        match last_child(self.0, SyntaxKind::Content) {
            Some(c) => Content(c),
            None => {
                assert(false);
                Content(self.0)
            },
        }
    }
}

impl<'a> Comment<'a> {
    /// The text of the comment.
    pub fn get(self) -> (r: ecow::EcoString)
        requires
            has_kind(snode_children(node_view(*self.0)), SyntaxKind::Text),
        ensures
            exists|i: int|
                first_of_kind(snode_children(node_view(*self.0)), SyntaxKind::Text, i)
                    && eco_chars(r) == snode_text(
                    #[trigger] snode_children(node_view(*self.0))[i],
                ),
    {
        match first_child(self.0, SyntaxKind::Text) {
            Some(c) => c.text(),
            None => {
                assert(false);
                self.0.text()
            },
        }
    }
}

impl<'a> Escape<'a> {
    /// The escaped character, as a word.
    pub fn get(self) -> (r: ecow::EcoString)
        requires
            has_kind(snode_children(node_view(*self.0)), SyntaxKind::Word),
        ensures
            exists|i: int|
                first_of_kind(snode_children(node_view(*self.0)), SyntaxKind::Word, i)
                    && eco_chars(r) == snode_text(
                    #[trigger] snode_children(node_view(*self.0))[i],
                ),
    {
        match first_child(self.0, SyntaxKind::Word) {
            Some(c) => c.text(),
            None => {
                assert(false);
                self.0.text()
            },
        }
    }
}

impl<'a> Code<'a> {
    /// The expression of the code.
    pub fn get(self) -> (r: Expr<'a>)
        requires
            has_expr(snode_children(node_view(*self.0))),
        ensures
            exists|i: int|
                first_expr(snode_children(node_view(*self.0)), i) && #[trigger] snode_children(
                    node_view(*self.0),
                )[i] == node_view(*r.node_of()),
            r.kind_of() == snode_kind(node_view(*r.node_of())),
    {
        expr_child(self.0)
    }
}

impl<'a> Call<'a> {
    /// The name of the command called.
    pub fn ident(self) -> (r: CallIdent<'a>)
        requires
            has_kind(snode_children(node_view(*self.0)), SyntaxKind::CallIdent),
        ensures
            exists|i: int|
                first_of_kind(snode_children(node_view(*self.0)), SyntaxKind::CallIdent, i)
                    && #[trigger] snode_children(node_view(*self.0))[i] == node_view(*r.0),
    {
        match first_child(self.0, SyntaxKind::CallIdent) {
            Some(c) => CallIdent(c),
            None => {
                assert(false);
                CallIdent(self.0)
            },
        }
    }

    /// The arguments of the call.
    pub fn args(self) -> (r: Args<'a>)
        requires
            has_kind(snode_children(node_view(*self.0)), SyntaxKind::Args),
        ensures
            exists|i: int|
                first_of_kind(snode_children(node_view(*self.0)), SyntaxKind::Args, i)
                    && #[trigger] snode_children(node_view(*self.0))[i] == node_view(*r.0),
    {
        match first_child(self.0, SyntaxKind::Args) {
            Some(c) => Args(c),
            None => {
                assert(false);
                Args(self.0)
            },
        }
    }
}

impl<'a> Arg<'a> {
    /// The name of the argument, if it is named.
    pub fn ident(self) -> (r: Option<ArgIdent<'a>>)
        ensures
            r matches Some(c) ==> exists|i: int|
                first_of_kind(snode_children(node_view(*self.0)), SyntaxKind::ArgIdent, i)
                    && #[trigger] snode_children(node_view(*self.0))[i] == node_view(*c.0),
            r is None ==> !has_kind(snode_children(node_view(*self.0)), SyntaxKind::ArgIdent),
    {
        match first_child(self.0, SyntaxKind::ArgIdent) {
            Some(c) => Some(ArgIdent(c)),
            None => None,
        }
    }

    /// The value of the argument.
    pub fn value(self) -> (r: Expr<'a>)
        requires
            has_expr(snode_children(node_view(*self.0))),
        ensures
            exists|i: int|
                first_expr(snode_children(node_view(*self.0)), i) && #[trigger] snode_children(
                    node_view(*self.0),
                )[i] == node_view(*r.node_of()),
            r.kind_of() == snode_kind(node_view(*r.node_of())),
    {
        expr_child(self.0)
    }
}

/// A bullet list.
#[derive(Debug, Clone, Copy)]
pub struct List<'a>(pub &'a Node);

/// A numbered list.
#[derive(Debug, Clone, Copy)]
pub struct Enum<'a>(pub &'a Node);

/// A list of term definitions.
#[derive(Debug, Clone, Copy)]
pub struct Terms<'a>(pub &'a Node);

/// A paragraph.
#[derive(Debug, Clone, Copy)]
pub struct Paragraph<'a>(pub &'a Node);

/// A block of plain text.
#[derive(Debug, Clone, Copy)]
pub struct Plain<'a>(pub &'a Node);

/// Markup content.
#[derive(Debug, Clone, Copy)]
pub struct Content<'a>(pub &'a Node);

/// Quoted markup.
#[derive(Debug, Clone, Copy)]
pub struct Quote<'a>(pub &'a Node);

/// Struck-out markup.
#[derive(Debug, Clone, Copy)]
pub struct Strikeout<'a>(pub &'a Node);

/// Emphasized markup.
#[derive(Debug, Clone, Copy)]
pub struct Emphasis<'a>(pub &'a Node);

/// Strong markup.
#[derive(Debug, Clone, Copy)]
pub struct Strong<'a>(pub &'a Node);

/// A subscript.
#[derive(Debug, Clone, Copy)]
pub struct Subscript<'a>(pub &'a Node);

/// A superscript.
#[derive(Debug, Clone, Copy)]
pub struct Supscript<'a>(pub &'a Node);

/// Raw text within a line.
#[derive(Debug, Clone, Copy)]
pub struct RawInline<'a>(pub &'a Node);

/// Math within a line.
#[derive(Debug, Clone, Copy)]
pub struct MathInline<'a>(pub &'a Node);

/// A word.
#[derive(Debug, Clone, Copy)]
pub struct Word<'a>(pub &'a Node);

impl<'a> Word<'a> {
    /// The text of the word.
    pub fn get(self) -> (r: ecow::EcoString)
        ensures
            eco_chars(r) == snode_text(node_view(*self.0)),
    {
        self.0.text()
    }
}

/// Space between words.
#[derive(Debug, Clone, Copy)]
pub struct Spacing<'a>(pub &'a Node);

/// A line break within a paragraph.
#[derive(Debug, Clone, Copy)]
pub struct SoftBreak<'a>(pub &'a Node);

/// A block of expressions.
#[derive(Debug, Clone, Copy)]
pub struct ExprBlock<'a>(pub &'a Node);

/// An identifier.
#[derive(Debug, Clone, Copy)]
pub struct Ident<'a>(pub &'a Node);

impl<'a> Ident<'a> {
    /// The name.
    pub fn get(self) -> (r: ecow::EcoString)
        ensures
            eco_chars(r) == snode_text(node_view(*self.0)),
    {
        self.0.text()
    }
}

/// A floating-point literal.
#[derive(Debug, Clone, Copy)]
pub struct Float<'a>(pub &'a Node);

/// The kinds of inline markup.
pub open spec fn is_inline_kind(k: SyntaxKind) -> bool {
    k == SyntaxKind::Quote || k == SyntaxKind::Strikeout || k == SyntaxKind::Emphasis || k
        == SyntaxKind::Strong || k == SyntaxKind::Subscript || k == SyntaxKind::Supscript || k
        == SyntaxKind::Link || k == SyntaxKind::Ref || k == SyntaxKind::RawInline || k
        == SyntaxKind::MathInline || k == SyntaxKind::Comment || k == SyntaxKind::Escape || k
        == SyntaxKind::Word || k == SyntaxKind::Spacing || k == SyntaxKind::SoftBreak || k
        == SyntaxKind::Code
}

/// The kinds of literals.
pub open spec fn is_literal_kind(k: SyntaxKind) -> bool {
    k == SyntaxKind::Str || k == SyntaxKind::Int || k == SyntaxKind::Float || k == SyntaxKind::Bool
}

/// A literal.
#[derive(Debug, Clone, Copy)]
pub enum Literal<'a> {
    Str(Str<'a>),
    Int(Int<'a>),
    Float(Float<'a>),
    Bool(Bool<'a>),
}

impl<'a> Literal<'a> {
    /// The kind of node that the variant views.
    pub open spec fn kind_of(self) -> SyntaxKind {
        match self {
            Literal::Str(_) => SyntaxKind::Str,
            Literal::Int(_) => SyntaxKind::Int,
            Literal::Float(_) => SyntaxKind::Float,
            Literal::Bool(_) => SyntaxKind::Bool,
        }
    }

}

/// A block.
#[derive(Debug, Clone, Copy)]
pub enum Block<'a> {
    Raw(Raw<'a>),
    Heading(Heading<'a>),
    Table(Table<'a>),
    List(List<'a>),
    Enum(Enum<'a>),
    Terms(Terms<'a>),
    Paragraph(Paragraph<'a>),
    Plain(Plain<'a>),
}

impl<'a> Block<'a> {
    /// The kind of node that the variant views.
    pub open spec fn kind_of(self) -> SyntaxKind {
        match self {
            Block::Raw(_) => SyntaxKind::Raw,
            Block::Heading(_) => SyntaxKind::Heading,
            Block::Table(_) => SyntaxKind::Table,
            Block::List(_) => SyntaxKind::List,
            Block::Enum(_) => SyntaxKind::Enum,
            Block::Terms(_) => SyntaxKind::Terms,
            Block::Paragraph(_) => SyntaxKind::Paragraph,
            Block::Plain(_) => SyntaxKind::Plain,
        }
    }

}

/// Inline markup.
#[derive(Debug, Clone, Copy)]
pub enum Inline<'a> {
    Quote(Quote<'a>),
    Strikeout(Strikeout<'a>),
    Emphasis(Emphasis<'a>),
    Strong(Strong<'a>),
    Subscript(Subscript<'a>),
    Supscript(Supscript<'a>),
    Link(Link<'a>),
    Ref(Ref<'a>),
    RawInline(RawInline<'a>),
    MathInline(MathInline<'a>),
    Comment(Comment<'a>),
    Escape(Escape<'a>),
    Word(Word<'a>),
    Spacing(Spacing<'a>),
    SoftBreak(SoftBreak<'a>),
    Code(Code<'a>),
}

impl<'a> Inline<'a> {
    /// The kind of node that the variant views.
    pub open spec fn kind_of(self) -> SyntaxKind {
        match self {
            Inline::Quote(_) => SyntaxKind::Quote,
            Inline::Strikeout(_) => SyntaxKind::Strikeout,
            Inline::Emphasis(_) => SyntaxKind::Emphasis,
            Inline::Strong(_) => SyntaxKind::Strong,
            Inline::Subscript(_) => SyntaxKind::Subscript,
            Inline::Supscript(_) => SyntaxKind::Supscript,
            Inline::Link(_) => SyntaxKind::Link,
            Inline::Ref(_) => SyntaxKind::Ref,
            Inline::RawInline(_) => SyntaxKind::RawInline,
            Inline::MathInline(_) => SyntaxKind::MathInline,
            Inline::Comment(_) => SyntaxKind::Comment,
            Inline::Escape(_) => SyntaxKind::Escape,
            Inline::Word(_) => SyntaxKind::Word,
            Inline::Spacing(_) => SyntaxKind::Spacing,
            Inline::SoftBreak(_) => SyntaxKind::SoftBreak,
            Inline::Code(_) => SyntaxKind::Code,
        }
    }

}

/// An expression.
#[derive(Debug, Clone, Copy)]
pub enum Expr<'a> {
    Ident(Ident<'a>),
    Call(Call<'a>),
    Literal(Literal<'a>),
    Block(ExprBlock<'a>),
    Content(Content<'a>),
}

impl<'a> Expr<'a> {
    /// The kind of node that the variant views.
    pub open spec fn kind_of(self) -> SyntaxKind {
        match self {
            Expr::Ident(_) => SyntaxKind::Ident,
            Expr::Call(_) => SyntaxKind::Call,
            Expr::Literal(x) => x.kind_of(),
            Expr::Block(_) => SyntaxKind::ExprBlock,
            Expr::Content(_) => SyntaxKind::Content,
        }
    }

}

/// The children that are blocks.
pub open spec fn block_children(cs: Seq<SNode>) -> Seq<SNode>
    decreases cs.len(),
{
    if cs.len() == 0 {
        Seq::empty()
    } else {
        let sub = block_children(cs.drop_last());
        if is_block_kind(snode_kind(cs.last())) {
            sub.push(cs.last())
        } else {
            sub
        }
    }
}

/// The children that are inline markup.
pub open spec fn inline_children(cs: Seq<SNode>) -> Seq<SNode>
    decreases cs.len(),
{
    if cs.len() == 0 {
        Seq::empty()
    } else {
        let sub = inline_children(cs.drop_last());
        if is_inline_kind(snode_kind(cs.last())) {
            sub.push(cs.last())
        } else {
            sub
        }
    }
}

/// The children that are expressions.
pub open spec fn expr_children(cs: Seq<SNode>) -> Seq<SNode>
    decreases cs.len(),
{
    if cs.len() == 0 {
        Seq::empty()
    } else {
        let sub = expr_children(cs.drop_last());
        if is_expr_kind(snode_kind(cs.last())) {
            sub.push(cs.last())
        } else {
            sub
        }
    }
}

/// The children of a node that are blocks, viewed as such.
fn blocks_in<'a>(n: &'a Node) -> (r: Vec<Block<'a>>)
    ensures
        r@.len() == block_children(snode_children(node_view(*n))).len(),
        forall|j: int|
            0 <= j < r@.len() ==> node_view(*(#[trigger] r@[j]).node_of()) == block_children(
                snode_children(node_view(*n)),
            )[j] && r@[j].kind_of() == snode_kind(block_children(snode_children(node_view(*n)))[j]),
{
    let cs = n.children();
    let ghost cv = nodes_view(cs@);
    proof {
        lemma_nodes_view_len(cs@);
    }
    let mut r: Vec<Block<'a>> = Vec::new();
    let mut i: usize = 0;
    while i < cs.len()
        invariant
            i <= cs@.len(),
            cv == nodes_view(cs@),
            cv.len() == cs@.len(),
            cv == snode_children(node_view(*n)),
            r@.len() == block_children(cv.take(i as int)).len(),
            forall|j: int|
                0 <= j < r@.len() ==> node_view(*(#[trigger] r@[j]).node_of()) == block_children(
                    cv.take(i as int),
                )[j] && r@[j].kind_of() == snode_kind(block_children(cv.take(i as int))[j]),
        decreases cs.len() - i,
    {
        proof {
            lemma_nodes_view_index(cs@, i as int);
            assert(cv.take(i + 1).drop_last() =~= cv.take(i as int));
            assert(cv.take(i + 1).last() == cv[i as int]);
        }
        match Block::from_node(&cs[i]) {
            Some(x) => r.push(x),
            None => {},
        }
        i = i + 1;
    }
    proof {
        assert(cv.take(cv.len() as int) =~= cv);
    }
    r
}

/// The children of a node that are inline markup, viewed as such.
fn inlines_in<'a>(n: &'a Node) -> (r: Vec<Inline<'a>>)
    ensures
        r@.len() == inline_children(snode_children(node_view(*n))).len(),
        forall|j: int|
            0 <= j < r@.len() ==> node_view(*(#[trigger] r@[j]).node_of()) == inline_children(
                snode_children(node_view(*n)),
            )[j] && r@[j].kind_of() == snode_kind(inline_children(snode_children(node_view(*n)))[j]),
{
    let cs = n.children();
    let ghost cv = nodes_view(cs@);
    proof {
        lemma_nodes_view_len(cs@);
    }
    let mut r: Vec<Inline<'a>> = Vec::new();
    let mut i: usize = 0;
    while i < cs.len()
        invariant
            i <= cs@.len(),
            cv == nodes_view(cs@),
            cv.len() == cs@.len(),
            cv == snode_children(node_view(*n)),
            r@.len() == inline_children(cv.take(i as int)).len(),
            forall|j: int|
                0 <= j < r@.len() ==> node_view(*(#[trigger] r@[j]).node_of()) == inline_children(
                    cv.take(i as int),
                )[j] && r@[j].kind_of() == snode_kind(inline_children(cv.take(i as int))[j]),
        decreases cs.len() - i,
    {
        proof {
            lemma_nodes_view_index(cs@, i as int);
            assert(cv.take(i + 1).drop_last() =~= cv.take(i as int));
            assert(cv.take(i + 1).last() == cv[i as int]);
        }
        match Inline::from_node(&cs[i]) {
            Some(x) => r.push(x),
            None => {},
        }
        i = i + 1;
    }
    proof {
        assert(cv.take(cv.len() as int) =~= cv);
    }
    r
}

/// The children of a node that are expressions, viewed as such.
fn exprs_in<'a>(n: &'a Node) -> (r: Vec<Expr<'a>>)
    ensures
        r@.len() == expr_children(snode_children(node_view(*n))).len(),
        forall|j: int|
            0 <= j < r@.len() ==> node_view(*(#[trigger] r@[j]).node_of()) == expr_children(
                snode_children(node_view(*n)),
            )[j] && r@[j].kind_of() == snode_kind(expr_children(snode_children(node_view(*n)))[j]),
{
    let cs = n.children();
    let ghost cv = nodes_view(cs@);
    proof {
        lemma_nodes_view_len(cs@);
    }
    let mut r: Vec<Expr<'a>> = Vec::new();
    let mut i: usize = 0;
    while i < cs.len()
        invariant
            i <= cs@.len(),
            cv == nodes_view(cs@),
            cv.len() == cs@.len(),
            cv == snode_children(node_view(*n)),
            r@.len() == expr_children(cv.take(i as int)).len(),
            forall|j: int|
                0 <= j < r@.len() ==> node_view(*(#[trigger] r@[j]).node_of()) == expr_children(
                    cv.take(i as int),
                )[j] && r@[j].kind_of() == snode_kind(expr_children(cv.take(i as int))[j]),
        decreases cs.len() - i,
    {
        proof {
            lemma_nodes_view_index(cs@, i as int);
            assert(cv.take(i + 1).drop_last() =~= cv.take(i as int));
            assert(cv.take(i + 1).last() == cv[i as int]);
        }
        match Expr::from_node(&cs[i]) {
            Some(x) => r.push(x),
            None => {},
        }
        i = i + 1;
    }
    proof {
        assert(cv.take(cv.len() as int) =~= cv);
    }
    r
}

/// The children of kind `k`.
pub open spec fn kind_children(cs: Seq<SNode>, k: SyntaxKind) -> Seq<SNode>
    decreases cs.len(),
{
    if cs.len() == 0 {
        Seq::empty()
    } else {
        let sub = kind_children(cs.drop_last(), k);
        if snode_kind(cs.last()) == k {
            sub.push(cs.last())
        } else {
            sub
        }
    }
}

/// The children of a node of kind `k`.
fn children_of_kind<'a>(n: &'a Node, k: SyntaxKind) -> (r: Vec<&'a Node>)
    ensures
        r@.len() == kind_children(snode_children(node_view(*n)), k).len(),
        forall|j: int|
            0 <= j < r@.len() ==> node_view(*(#[trigger] r@[j])) == kind_children(
                snode_children(node_view(*n)),
                k,
            )[j],
{
    let cs = n.children();
    let ghost cv = nodes_view(cs@);
    proof {
        lemma_nodes_view_len(cs@);
    }
    let mut r: Vec<&'a Node> = Vec::new();
    let mut i: usize = 0;
    while i < cs.len()
        invariant
            i <= cs@.len(),
            cv == nodes_view(cs@),
            cv.len() == cs@.len(),
            cv == snode_children(node_view(*n)),
            r@.len() == kind_children(cv.take(i as int), k).len(),
            forall|j: int|
                0 <= j < r@.len() ==> node_view(*(#[trigger] r@[j])) == kind_children(
                    cv.take(i as int),
                    k,
                )[j],
        decreases cs.len() - i,
    {
        proof {
            lemma_nodes_view_index(cs@, i as int);
            assert(cv.take(i + 1).drop_last() =~= cv.take(i as int));
            assert(cv.take(i + 1).last() == cv[i as int]);
        }
        if cs[i].kind() == k {
            r.push(&cs[i]);
        }
        i = i + 1;
    }
    proof {
        assert(cv.take(cv.len() as int) =~= cv);
    }
    r
}

/// A parsed document.
#[derive(Debug, Clone, Copy)]
pub struct Document<'a>(pub &'a Node);

/// A row of a table.
#[derive(Debug, Clone, Copy)]
pub struct TableRow<'a>(pub &'a Node);

/// An item of a bullet list.
#[derive(Debug, Clone, Copy)]
pub struct ListItem<'a>(pub &'a Node);

/// An item of a numbered list.
#[derive(Debug, Clone, Copy)]
pub struct EnumItem<'a>(pub &'a Node);

/// The arguments of a call.
#[derive(Debug, Clone, Copy)]
pub struct Args<'a>(pub &'a Node);

impl<'a> Document<'a> {
    /// The blocks that the node holds, in order.
    pub fn blocks(self) -> (r: Vec<Block<'a>>)
        ensures
            r@.len() == block_children(snode_children(node_view(*self.0))).len(),
            forall|j: int|
                0 <= j < r@.len() ==> node_view(*(#[trigger] r@[j]).node_of()) == block_children(
                    snode_children(node_view(*self.0)),
                )[j] && r@[j].kind_of() == snode_kind(
                    block_children(snode_children(node_view(*self.0)))[j],
                ),
    {
        blocks_in(self.0)
    }
}

impl<'a> TableRow<'a> {
    /// The blocks that the node holds, in order.
    pub fn blocks(self) -> (r: Vec<Block<'a>>)
        ensures
            r@.len() == block_children(snode_children(node_view(*self.0))).len(),
            forall|j: int|
                0 <= j < r@.len() ==> node_view(*(#[trigger] r@[j]).node_of()) == block_children(
                    snode_children(node_view(*self.0)),
                )[j] && r@[j].kind_of() == snode_kind(
                    block_children(snode_children(node_view(*self.0)))[j],
                ),
    {
        blocks_in(self.0)
    }
}

impl<'a> ListItem<'a> {
    /// The blocks that the node holds, in order.
    pub fn blocks(self) -> (r: Vec<Block<'a>>)
        ensures
            r@.len() == block_children(snode_children(node_view(*self.0))).len(),
            forall|j: int|
                0 <= j < r@.len() ==> node_view(*(#[trigger] r@[j]).node_of()) == block_children(
                    snode_children(node_view(*self.0)),
                )[j] && r@[j].kind_of() == snode_kind(
                    block_children(snode_children(node_view(*self.0)))[j],
                ),
    {
        blocks_in(self.0)
    }
}

impl<'a> EnumItem<'a> {
    /// The blocks that the node holds, in order.
    pub fn blocks(self) -> (r: Vec<Block<'a>>)
        ensures
            r@.len() == block_children(snode_children(node_view(*self.0))).len(),
            forall|j: int|
                0 <= j < r@.len() ==> node_view(*(#[trigger] r@[j]).node_of()) == block_children(
                    snode_children(node_view(*self.0)),
                )[j] && r@[j].kind_of() == snode_kind(
                    block_children(snode_children(node_view(*self.0)))[j],
                ),
    {
        blocks_in(self.0)
    }
}

impl<'a> Paragraph<'a> {
    /// The inline markup that the node holds, in order.
    pub fn inlines(self) -> (r: Vec<Inline<'a>>)
        ensures
            r@.len() == inline_children(snode_children(node_view(*self.0))).len(),
            forall|j: int|
                0 <= j < r@.len() ==> node_view(*(#[trigger] r@[j]).node_of()) == inline_children(
                    snode_children(node_view(*self.0)),
                )[j] && r@[j].kind_of() == snode_kind(
                    inline_children(snode_children(node_view(*self.0)))[j],
                ),
    {
        inlines_in(self.0)
    }
}

impl<'a> Plain<'a> {
    /// The inline markup that the node holds, in order.
    pub fn inlines(self) -> (r: Vec<Inline<'a>>)
        ensures
            r@.len() == inline_children(snode_children(node_view(*self.0))).len(),
            forall|j: int|
                0 <= j < r@.len() ==> node_view(*(#[trigger] r@[j]).node_of()) == inline_children(
                    snode_children(node_view(*self.0)),
                )[j] && r@[j].kind_of() == snode_kind(
                    inline_children(snode_children(node_view(*self.0)))[j],
                ),
    {
        inlines_in(self.0)
    }
}

impl<'a> Content<'a> {
    /// The inline markup that the node holds, in order.
    pub fn inlines(self) -> (r: Vec<Inline<'a>>)
        ensures
            r@.len() == inline_children(snode_children(node_view(*self.0))).len(),
            forall|j: int|
                0 <= j < r@.len() ==> node_view(*(#[trigger] r@[j]).node_of()) == inline_children(
                    snode_children(node_view(*self.0)),
                )[j] && r@[j].kind_of() == snode_kind(
                    inline_children(snode_children(node_view(*self.0)))[j],
                ),
    {
        inlines_in(self.0)
    }
}

impl<'a> Quote<'a> {
    /// The inline markup that the node holds, in order.
    pub fn inlines(self) -> (r: Vec<Inline<'a>>)
        ensures
            r@.len() == inline_children(snode_children(node_view(*self.0))).len(),
            forall|j: int|
                0 <= j < r@.len() ==> node_view(*(#[trigger] r@[j]).node_of()) == inline_children(
                    snode_children(node_view(*self.0)),
                )[j] && r@[j].kind_of() == snode_kind(
                    inline_children(snode_children(node_view(*self.0)))[j],
                ),
    {
        inlines_in(self.0)
    }
}

impl<'a> Strikeout<'a> {
    /// The inline markup that the node holds, in order.
    pub fn inlines(self) -> (r: Vec<Inline<'a>>)
        ensures
            r@.len() == inline_children(snode_children(node_view(*self.0))).len(),
            forall|j: int|
                0 <= j < r@.len() ==> node_view(*(#[trigger] r@[j]).node_of()) == inline_children(
                    snode_children(node_view(*self.0)),
                )[j] && r@[j].kind_of() == snode_kind(
                    inline_children(snode_children(node_view(*self.0)))[j],
                ),
    {
        inlines_in(self.0)
    }
}

impl<'a> Emphasis<'a> {
    /// The inline markup that the node holds, in order.
    pub fn inlines(self) -> (r: Vec<Inline<'a>>)
        ensures
            r@.len() == inline_children(snode_children(node_view(*self.0))).len(),
            forall|j: int|
                0 <= j < r@.len() ==> node_view(*(#[trigger] r@[j]).node_of()) == inline_children(
                    snode_children(node_view(*self.0)),
                )[j] && r@[j].kind_of() == snode_kind(
                    inline_children(snode_children(node_view(*self.0)))[j],
                ),
    {
        inlines_in(self.0)
    }
}

impl<'a> Strong<'a> {
    /// The inline markup that the node holds, in order.
    pub fn inlines(self) -> (r: Vec<Inline<'a>>)
        ensures
            r@.len() == inline_children(snode_children(node_view(*self.0))).len(),
            forall|j: int|
                0 <= j < r@.len() ==> node_view(*(#[trigger] r@[j]).node_of()) == inline_children(
                    snode_children(node_view(*self.0)),
                )[j] && r@[j].kind_of() == snode_kind(
                    inline_children(snode_children(node_view(*self.0)))[j],
                ),
    {
        inlines_in(self.0)
    }
}

impl<'a> Subscript<'a> {
    /// The inline markup that the node holds, in order.
    pub fn inlines(self) -> (r: Vec<Inline<'a>>)
        ensures
            r@.len() == inline_children(snode_children(node_view(*self.0))).len(),
            forall|j: int|
                0 <= j < r@.len() ==> node_view(*(#[trigger] r@[j]).node_of()) == inline_children(
                    snode_children(node_view(*self.0)),
                )[j] && r@[j].kind_of() == snode_kind(
                    inline_children(snode_children(node_view(*self.0)))[j],
                ),
    {
        inlines_in(self.0)
    }
}

impl<'a> Supscript<'a> {
    /// The inline markup that the node holds, in order.
    pub fn inlines(self) -> (r: Vec<Inline<'a>>)
        ensures
            r@.len() == inline_children(snode_children(node_view(*self.0))).len(),
            forall|j: int|
                0 <= j < r@.len() ==> node_view(*(#[trigger] r@[j]).node_of()) == inline_children(
                    snode_children(node_view(*self.0)),
                )[j] && r@[j].kind_of() == snode_kind(
                    inline_children(snode_children(node_view(*self.0)))[j],
                ),
    {
        inlines_in(self.0)
    }
}

impl<'a> ExprBlock<'a> {
    /// The expressions of the block, in order.
    pub fn exprs(self) -> (r: Vec<Expr<'a>>)
        ensures
            r@.len() == expr_children(snode_children(node_view(*self.0))).len(),
            forall|j: int|
                0 <= j < r@.len() ==> node_view(*(#[trigger] r@[j]).node_of()) == expr_children(
                    snode_children(node_view(*self.0)),
                )[j] && r@[j].kind_of() == snode_kind(
                    expr_children(snode_children(node_view(*self.0)))[j],
                ),
    {
        exprs_in(self.0)
    }
}

impl<'a> List<'a> {
    /// The items of the list, in order.
    pub fn items(self) -> (r: Vec<ListItem<'a>>)
        ensures
            r@.len() == kind_children(snode_children(node_view(*self.0)), SyntaxKind::ListItem).len(),
            forall|j: int|
                0 <= j < r@.len() ==> node_view(*(#[trigger] r@[j]).0) == kind_children(
                    snode_children(node_view(*self.0)),
                    SyntaxKind::ListItem,
                )[j],
    {
        let ns = children_of_kind(self.0, SyntaxKind::ListItem);
        let ghost ks = kind_children(snode_children(node_view(*self.0)), SyntaxKind::ListItem);
        let mut r: Vec<ListItem<'a>> = Vec::new();
        let mut i: usize = 0;
        while i < ns.len()
            invariant
                i <= ns@.len(),
                ns@.len() == ks.len(),
                forall|j: int| 0 <= j < ns@.len() ==> node_view(*(#[trigger] ns@[j])) == ks[j],
                r@.len() == i,
                forall|j: int| 0 <= j < i ==> (#[trigger] r@[j]).0 == ns@[j],
            decreases ns.len() - i,
        {
            r.push(ListItem(ns[i]));
            i = i + 1;
        }
        proof {
            assert forall|j: int| 0 <= j < r@.len() implies node_view(*(#[trigger] r@[j]).0) == ks[j] by {
                assert(r@[j].0 == ns@[j]);
            }
        }
        r
    }
}

impl<'a> Enum<'a> {
    /// The items of the list, in order.
    pub fn items(self) -> (r: Vec<EnumItem<'a>>)
        ensures
            r@.len() == kind_children(snode_children(node_view(*self.0)), SyntaxKind::EnumItem).len(),
            forall|j: int|
                0 <= j < r@.len() ==> node_view(*(#[trigger] r@[j]).0) == kind_children(
                    snode_children(node_view(*self.0)),
                    SyntaxKind::EnumItem,
                )[j],
    {
        let ns = children_of_kind(self.0, SyntaxKind::EnumItem);
        let ghost ks = kind_children(snode_children(node_view(*self.0)), SyntaxKind::EnumItem);
        let mut r: Vec<EnumItem<'a>> = Vec::new();
        let mut i: usize = 0;
        while i < ns.len()
            invariant
                i <= ns@.len(),
                ns@.len() == ks.len(),
                forall|j: int| 0 <= j < ns@.len() ==> node_view(*(#[trigger] ns@[j])) == ks[j],
                r@.len() == i,
                forall|j: int| 0 <= j < i ==> (#[trigger] r@[j]).0 == ns@[j],
            decreases ns.len() - i,
        {
            r.push(EnumItem(ns[i]));
            i = i + 1;
        }
        proof {
            assert forall|j: int| 0 <= j < r@.len() implies node_view(*(#[trigger] r@[j]).0) == ks[j] by {
                assert(r@[j].0 == ns@[j]);
            }
        }
        r
    }
}

impl<'a> Terms<'a> {
    /// The term definitions, in order.
    pub fn items(self) -> (r: Vec<TermItem<'a>>)
        ensures
            r@.len() == kind_children(snode_children(node_view(*self.0)), SyntaxKind::TermItem).len(),
            forall|j: int|
                0 <= j < r@.len() ==> node_view(*(#[trigger] r@[j]).0) == kind_children(
                    snode_children(node_view(*self.0)),
                    SyntaxKind::TermItem,
                )[j],
    {
        let ns = children_of_kind(self.0, SyntaxKind::TermItem);
        let ghost ks = kind_children(snode_children(node_view(*self.0)), SyntaxKind::TermItem);
        let mut r: Vec<TermItem<'a>> = Vec::new();
        let mut i: usize = 0;
        while i < ns.len()
            invariant
                i <= ns@.len(),
                ns@.len() == ks.len(),
                forall|j: int| 0 <= j < ns@.len() ==> node_view(*(#[trigger] ns@[j])) == ks[j],
                r@.len() == i,
                forall|j: int| 0 <= j < i ==> (#[trigger] r@[j]).0 == ns@[j],
            decreases ns.len() - i,
        {
            r.push(TermItem(ns[i]));
            i = i + 1;
        }
        proof {
            assert forall|j: int| 0 <= j < r@.len() implies node_view(*(#[trigger] r@[j]).0) == ks[j] by {
                assert(r@[j].0 == ns@[j]);
            }
        }
        r
    }
}

impl<'a> Args<'a> {
    /// The arguments, in order.
    pub fn args(self) -> (r: Vec<Arg<'a>>)
        ensures
            r@.len() == kind_children(snode_children(node_view(*self.0)), SyntaxKind::Arg).len(),
            forall|j: int|
                0 <= j < r@.len() ==> node_view(*(#[trigger] r@[j]).0) == kind_children(
                    snode_children(node_view(*self.0)),
                    SyntaxKind::Arg,
                )[j],
    {
        let ns = children_of_kind(self.0, SyntaxKind::Arg);
        let ghost ks = kind_children(snode_children(node_view(*self.0)), SyntaxKind::Arg);
        let mut r: Vec<Arg<'a>> = Vec::new();
        let mut i: usize = 0;
        while i < ns.len()
            invariant
                i <= ns@.len(),
                ns@.len() == ks.len(),
                forall|j: int| 0 <= j < ns@.len() ==> node_view(*(#[trigger] ns@[j])) == ks[j],
                r@.len() == i,
                forall|j: int| 0 <= j < i ==> (#[trigger] r@[j]).0 == ns@[j],
            decreases ns.len() - i,
        {
            r.push(Arg(ns[i]));
            i = i + 1;
        }
        proof {
            assert forall|j: int| 0 <= j < r@.len() implies node_view(*(#[trigger] r@[j]).0) == ks[j] by {
                assert(r@[j].0 == ns@[j]);
            }
        }
        r
    }
}

impl<'a> Args<'a> {
    /// The content given after the arguments, if there is one.
    pub fn content(self) -> (r: Option<Content<'a>>)
        ensures
            r matches Some(c) ==> exists|i: int|
                first_of_kind(snode_children(node_view(*self.0)), SyntaxKind::Content, i)
                    && #[trigger] snode_children(node_view(*self.0))[i] == node_view(*c.0),
            r is None ==> !has_kind(snode_children(node_view(*self.0)), SyntaxKind::Content),
    {
        match first_child(self.0, SyntaxKind::Content) {
            Some(c) => Some(Content(c)),
            None => None,
        }
    }
}

/// A label.
#[derive(Debug, Clone, Copy)]
pub struct Label<'a>(pub &'a Node);

impl<'a> Label<'a> {
    /// The name of the label.
    pub fn get(self) -> (r: ecow::EcoString)
        ensures
            eco_chars(r) == snode_text(node_view(*self.0)),
    {
        self.0.text()
    }
}

/// Text taken as it stands.
#[derive(Debug, Clone, Copy)]
pub struct Text<'a>(pub &'a Node);

impl<'a> Text<'a> {
    /// The text.
    pub fn get(self) -> (r: ecow::EcoString)
        ensures
            eco_chars(r) == snode_text(node_view(*self.0)),
    {
        self.0.text()
    }
}

/// The language of a raw block.
#[derive(Debug, Clone, Copy)]
pub struct RawLang<'a>(pub &'a Node);

impl<'a> RawLang<'a> {
    /// The name of the language.
    pub fn get(self) -> (r: ecow::EcoString)
        ensures
            eco_chars(r) == snode_text(node_view(*self.0)),
    {
        self.0.text()
    }
}

/// The name of the command of a call.
#[derive(Debug, Clone, Copy)]
pub struct CallIdent<'a>(pub &'a Node);

impl<'a> CallIdent<'a> {
    /// The name.
    pub fn get(self) -> (r: ecow::EcoString)
        ensures
            eco_chars(r) == snode_text(node_view(*self.0)),
    {
        self.0.text()
    }
}

/// The name of an argument.
#[derive(Debug, Clone, Copy)]
pub struct ArgIdent<'a>(pub &'a Node);

impl<'a> ArgIdent<'a> {
    /// The name.
    pub fn get(self) -> (r: ecow::EcoString)
        ensures
            eco_chars(r) == snode_text(node_view(*self.0)),
    {
        self.0.text()
    }
}

impl<'a> TableRow<'a> {
    /// The number of cells of the row: its children that are blocks.
    pub fn col_count(self) -> (r: usize)
        ensures
            r == block_count(snode_children(node_view(*self.0))),
    {
        row_col_count(self.0)
    }
}

impl<'a> Table<'a> {
    /// The rows of the table, in order.
    pub fn rows(self) -> (r: Vec<TableRow<'a>>)
        ensures
            r@.len() == kind_children(snode_children(node_view(*self.0)), SyntaxKind::TableRow).len(),
            forall|j: int|
                0 <= j < r@.len() ==> node_view(*(#[trigger] r@[j]).0) == kind_children(
                    snode_children(node_view(*self.0)),
                    SyntaxKind::TableRow,
                )[j],
    {
        let ns = children_of_kind(self.0, SyntaxKind::TableRow);
        let ghost ks = kind_children(snode_children(node_view(*self.0)), SyntaxKind::TableRow);
        let mut r: Vec<TableRow<'a>> = Vec::new();
        let mut i: usize = 0;
        while i < ns.len()
            invariant
                i <= ns@.len(),
                ns@.len() == ks.len(),
                forall|j: int| 0 <= j < ns@.len() ==> node_view(*(#[trigger] ns@[j])) == ks[j],
                r@.len() == i,
                forall|j: int| 0 <= j < i ==> (#[trigger] r@[j]).0 == ns@[j],
            decreases ns.len() - i,
        {
            r.push(TableRow(ns[i]));
            i = i + 1;
        }
        proof {
            assert forall|j: int| 0 <= j < r@.len() implies node_view(*(#[trigger] r@[j]).0) == ks[j] by {
                assert(r@[j].0 == ns@[j]);
            }
        }
        r
    }
}

/// A typed view of a node of the syntax tree.
pub trait TypedNode<'a>: Sized + 'a {
    /// The node viewed.
    spec fn node_of(self) -> &'a Node;

    /// The view of a node, where the node is of a kind this view reads.
    fn from_node(node: &'a Node) -> (r: Option<Self>)
        ensures
            r matches Some(x) ==> x.node_of() == node,
    ;

    /// The node viewed.
    fn to_node(self) -> (r: &'a Node)
        ensures
            r == self.node_of(),
    ;

    /// The span of the node viewed.
    fn span(self) -> (r: Span)
        ensures
            r == snode_span(node_view(*self.node_of())),
    {
        self.to_node().span()
    }
}

impl<'a> TypedNode<'a> for HeadingMarker<'a> {
    open spec fn node_of(self) -> &'a Node {
        self.0
    }

    /// The view of a node of kind `HeadingMarker`.
    fn from_node(node: &'a Node) -> (r: Option<Self>)
        ensures
            r is Some <==> snode_kind(node_view(*node)) == SyntaxKind::HeadingMarker,
            r matches Some(m) ==> m.0 == node,
    {
        if node.kind() == SyntaxKind::HeadingMarker {
            Some(HeadingMarker(node))
        } else {
            None
        }
    }

    fn to_node(self) -> (r: &'a Node) {
        self.0
    }
}

impl<'a> TypedNode<'a> for Int<'a> {
    open spec fn node_of(self) -> &'a Node {
        self.0
    }

    /// The view of a node of kind `Int`.
    fn from_node(node: &'a Node) -> (r: Option<Self>)
        ensures
            r is Some <==> snode_kind(node_view(*node)) == SyntaxKind::Int,
            r matches Some(m) ==> m.0 == node,
    {
        if node.kind() == SyntaxKind::Int {
            Some(Int(node))
        } else {
            None
        }
    }

    fn to_node(self) -> (r: &'a Node) {
        self.0
    }
}

impl<'a> TypedNode<'a> for Bool<'a> {
    open spec fn node_of(self) -> &'a Node {
        self.0
    }

    /// The view of a node of kind `Bool`.
    fn from_node(node: &'a Node) -> (r: Option<Self>)
        ensures
            r is Some <==> snode_kind(node_view(*node)) == SyntaxKind::Bool,
            r matches Some(m) ==> m.0 == node,
    {
        if node.kind() == SyntaxKind::Bool {
            Some(Bool(node))
        } else {
            None
        }
    }

    fn to_node(self) -> (r: &'a Node) {
        self.0
    }
}

impl<'a> TypedNode<'a> for Str<'a> {
    open spec fn node_of(self) -> &'a Node {
        self.0
    }

    /// The view of a node of kind `Str`.
    fn from_node(node: &'a Node) -> (r: Option<Self>)
        ensures
            r is Some <==> snode_kind(node_view(*node)) == SyntaxKind::Str,
            r matches Some(m) ==> m.0 == node,
    {
        if node.kind() == SyntaxKind::Str {
            Some(Str(node))
        } else {
            None
        }
    }

    fn to_node(self) -> (r: &'a Node) {
        self.0
    }
}

impl<'a> TypedNode<'a> for Heading<'a> {
    open spec fn node_of(self) -> &'a Node {
        self.0
    }

    /// The view of a node of kind `Heading`.
    fn from_node(node: &'a Node) -> (r: Option<Self>)
        ensures
            r is Some <==> snode_kind(node_view(*node)) == SyntaxKind::Heading,
            r matches Some(m) ==> m.0 == node,
    {
        if node.kind() == SyntaxKind::Heading {
            Some(Heading(node))
        } else {
            None
        }
    }

    fn to_node(self) -> (r: &'a Node) {
        self.0
    }
}

impl<'a> TypedNode<'a> for Raw<'a> {
    open spec fn node_of(self) -> &'a Node {
        self.0
    }

    /// The view of a node of kind `Raw`.
    fn from_node(node: &'a Node) -> (r: Option<Self>)
        ensures
            r is Some <==> snode_kind(node_view(*node)) == SyntaxKind::Raw,
            r matches Some(m) ==> m.0 == node,
    {
        if node.kind() == SyntaxKind::Raw {
            Some(Raw(node))
        } else {
            None
        }
    }

    fn to_node(self) -> (r: &'a Node) {
        self.0
    }
}

impl<'a> TypedNode<'a> for Link<'a> {
    open spec fn node_of(self) -> &'a Node {
        self.0
    }

    /// The view of a node of kind `Link`.
    fn from_node(node: &'a Node) -> (r: Option<Self>)
        ensures
            r is Some <==> snode_kind(node_view(*node)) == SyntaxKind::Link,
            r matches Some(m) ==> m.0 == node,
    {
        if node.kind() == SyntaxKind::Link {
            Some(Link(node))
        } else {
            None
        }
    }

    fn to_node(self) -> (r: &'a Node) {
        self.0
    }
}

impl<'a> TypedNode<'a> for Ref<'a> {
    open spec fn node_of(self) -> &'a Node {
        self.0
    }

    /// The view of a node of kind `Ref`.
    fn from_node(node: &'a Node) -> (r: Option<Self>)
        ensures
            r is Some <==> snode_kind(node_view(*node)) == SyntaxKind::Ref,
            r matches Some(m) ==> m.0 == node,
    {
        if node.kind() == SyntaxKind::Ref {
            Some(Ref(node))
        } else {
            None
        }
    }

    fn to_node(self) -> (r: &'a Node) {
        self.0
    }
}

impl<'a> TypedNode<'a> for Table<'a> {
    open spec fn node_of(self) -> &'a Node {
        self.0
    }

    /// The view of a node of kind `Table`.
    fn from_node(node: &'a Node) -> (r: Option<Self>)
        ensures
            r is Some <==> snode_kind(node_view(*node)) == SyntaxKind::Table,
            r matches Some(m) ==> m.0 == node,
    {
        if node.kind() == SyntaxKind::Table {
            Some(Table(node))
        } else {
            None
        }
    }

    fn to_node(self) -> (r: &'a Node) {
        self.0
    }
}

impl<'a> TypedNode<'a> for TermItem<'a> {
    open spec fn node_of(self) -> &'a Node {
        self.0
    }

    /// The view of a node of kind `TermItem`.
    fn from_node(node: &'a Node) -> (r: Option<Self>)
        ensures
            r is Some <==> snode_kind(node_view(*node)) == SyntaxKind::TermItem,
            r matches Some(m) ==> m.0 == node,
    {
        if node.kind() == SyntaxKind::TermItem {
            Some(TermItem(node))
        } else {
            None
        }
    }

    fn to_node(self) -> (r: &'a Node) {
        self.0
    }
}

impl<'a> TypedNode<'a> for Comment<'a> {
    open spec fn node_of(self) -> &'a Node {
        self.0
    }

    /// The view of a node of kind `Comment`.
    fn from_node(node: &'a Node) -> (r: Option<Self>)
        ensures
            r is Some <==> snode_kind(node_view(*node)) == SyntaxKind::Comment,
            r matches Some(m) ==> m.0 == node,
    {
        if node.kind() == SyntaxKind::Comment {
            Some(Comment(node))
        } else {
            None
        }
    }

    fn to_node(self) -> (r: &'a Node) {
        self.0
    }
}

impl<'a> TypedNode<'a> for Escape<'a> {
    open spec fn node_of(self) -> &'a Node {
        self.0
    }

    /// The view of a node of kind `Escape`.
    fn from_node(node: &'a Node) -> (r: Option<Self>)
        ensures
            r is Some <==> snode_kind(node_view(*node)) == SyntaxKind::Escape,
            r matches Some(m) ==> m.0 == node,
    {
        if node.kind() == SyntaxKind::Escape {
            Some(Escape(node))
        } else {
            None
        }
    }

    fn to_node(self) -> (r: &'a Node) {
        self.0
    }
}

impl<'a> TypedNode<'a> for Code<'a> {
    open spec fn node_of(self) -> &'a Node {
        self.0
    }

    /// The view of a node of kind `Code`.
    fn from_node(node: &'a Node) -> (r: Option<Self>)
        ensures
            r is Some <==> snode_kind(node_view(*node)) == SyntaxKind::Code,
            r matches Some(m) ==> m.0 == node,
    {
        if node.kind() == SyntaxKind::Code {
            Some(Code(node))
        } else {
            None
        }
    }

    fn to_node(self) -> (r: &'a Node) {
        self.0
    }
}

impl<'a> TypedNode<'a> for Call<'a> {
    open spec fn node_of(self) -> &'a Node {
        self.0
    }

    /// The view of a node of kind `Call`.
    fn from_node(node: &'a Node) -> (r: Option<Self>)
        ensures
            r is Some <==> snode_kind(node_view(*node)) == SyntaxKind::Call,
            r matches Some(m) ==> m.0 == node,
    {
        if node.kind() == SyntaxKind::Call {
            Some(Call(node))
        } else {
            None
        }
    }

    fn to_node(self) -> (r: &'a Node) {
        self.0
    }
}

impl<'a> TypedNode<'a> for Arg<'a> {
    open spec fn node_of(self) -> &'a Node {
        self.0
    }

    /// The view of a node of kind `Arg`.
    fn from_node(node: &'a Node) -> (r: Option<Self>)
        ensures
            r is Some <==> snode_kind(node_view(*node)) == SyntaxKind::Arg,
            r matches Some(m) ==> m.0 == node,
    {
        if node.kind() == SyntaxKind::Arg {
            Some(Arg(node))
        } else {
            None
        }
    }

    fn to_node(self) -> (r: &'a Node) {
        self.0
    }
}

impl<'a> TypedNode<'a> for List<'a> {
    open spec fn node_of(self) -> &'a Node {
        self.0
    }

    /// The view of a node of kind `List`.
    fn from_node(node: &'a Node) -> (r: Option<Self>)
        ensures
            r is Some <==> snode_kind(node_view(*node)) == SyntaxKind::List,
            r matches Some(m) ==> m.0 == node,
    {
        if node.kind() == SyntaxKind::List {
            Some(List(node))
        } else {
            None
        }
    }

    fn to_node(self) -> (r: &'a Node) {
        self.0
    }
}

impl<'a> TypedNode<'a> for Enum<'a> {
    open spec fn node_of(self) -> &'a Node {
        self.0
    }

    /// The view of a node of kind `Enum`.
    fn from_node(node: &'a Node) -> (r: Option<Self>)
        ensures
            r is Some <==> snode_kind(node_view(*node)) == SyntaxKind::Enum,
            r matches Some(m) ==> m.0 == node,
    {
        if node.kind() == SyntaxKind::Enum {
            Some(Enum(node))
        } else {
            None
        }
    }

    fn to_node(self) -> (r: &'a Node) {
        self.0
    }
}

impl<'a> TypedNode<'a> for Terms<'a> {
    open spec fn node_of(self) -> &'a Node {
        self.0
    }

    /// The view of a node of kind `Terms`.
    fn from_node(node: &'a Node) -> (r: Option<Self>)
        ensures
            r is Some <==> snode_kind(node_view(*node)) == SyntaxKind::Terms,
            r matches Some(m) ==> m.0 == node,
    {
        if node.kind() == SyntaxKind::Terms {
            Some(Terms(node))
        } else {
            None
        }
    }

    fn to_node(self) -> (r: &'a Node) {
        self.0
    }
}

impl<'a> TypedNode<'a> for Paragraph<'a> {
    open spec fn node_of(self) -> &'a Node {
        self.0
    }

    /// The view of a node of kind `Paragraph`.
    fn from_node(node: &'a Node) -> (r: Option<Self>)
        ensures
            r is Some <==> snode_kind(node_view(*node)) == SyntaxKind::Paragraph,
            r matches Some(m) ==> m.0 == node,
    {
        if node.kind() == SyntaxKind::Paragraph {
            Some(Paragraph(node))
        } else {
            None
        }
    }

    fn to_node(self) -> (r: &'a Node) {
        self.0
    }
}

impl<'a> TypedNode<'a> for Plain<'a> {
    open spec fn node_of(self) -> &'a Node {
        self.0
    }

    /// The view of a node of kind `Plain`.
    fn from_node(node: &'a Node) -> (r: Option<Self>)
        ensures
            r is Some <==> snode_kind(node_view(*node)) == SyntaxKind::Plain,
            r matches Some(m) ==> m.0 == node,
    {
        if node.kind() == SyntaxKind::Plain {
            Some(Plain(node))
        } else {
            None
        }
    }

    fn to_node(self) -> (r: &'a Node) {
        self.0
    }
}

impl<'a> TypedNode<'a> for Content<'a> {
    open spec fn node_of(self) -> &'a Node {
        self.0
    }

    /// The view of a node of kind `Content`.
    fn from_node(node: &'a Node) -> (r: Option<Self>)
        ensures
            r is Some <==> snode_kind(node_view(*node)) == SyntaxKind::Content,
            r matches Some(m) ==> m.0 == node,
    {
        if node.kind() == SyntaxKind::Content {
            Some(Content(node))
        } else {
            None
        }
    }

    fn to_node(self) -> (r: &'a Node) {
        self.0
    }
}

impl<'a> TypedNode<'a> for Quote<'a> {
    open spec fn node_of(self) -> &'a Node {
        self.0
    }

    /// The view of a node of kind `Quote`.
    fn from_node(node: &'a Node) -> (r: Option<Self>)
        ensures
            r is Some <==> snode_kind(node_view(*node)) == SyntaxKind::Quote,
            r matches Some(m) ==> m.0 == node,
    {
        if node.kind() == SyntaxKind::Quote {
            Some(Quote(node))
        } else {
            None
        }
    }

    fn to_node(self) -> (r: &'a Node) {
        self.0
    }
}

impl<'a> TypedNode<'a> for Strikeout<'a> {
    open spec fn node_of(self) -> &'a Node {
        self.0
    }

    /// The view of a node of kind `Strikeout`.
    fn from_node(node: &'a Node) -> (r: Option<Self>)
        ensures
            r is Some <==> snode_kind(node_view(*node)) == SyntaxKind::Strikeout,
            r matches Some(m) ==> m.0 == node,
    {
        if node.kind() == SyntaxKind::Strikeout {
            Some(Strikeout(node))
        } else {
            None
        }
    }

    fn to_node(self) -> (r: &'a Node) {
        self.0
    }
}

impl<'a> TypedNode<'a> for Emphasis<'a> {
    open spec fn node_of(self) -> &'a Node {
        self.0
    }

    /// The view of a node of kind `Emphasis`.
    fn from_node(node: &'a Node) -> (r: Option<Self>)
        ensures
            r is Some <==> snode_kind(node_view(*node)) == SyntaxKind::Emphasis,
            r matches Some(m) ==> m.0 == node,
    {
        if node.kind() == SyntaxKind::Emphasis {
            Some(Emphasis(node))
        } else {
            None
        }
    }

    fn to_node(self) -> (r: &'a Node) {
        self.0
    }
}

impl<'a> TypedNode<'a> for Strong<'a> {
    open spec fn node_of(self) -> &'a Node {
        self.0
    }

    /// The view of a node of kind `Strong`.
    fn from_node(node: &'a Node) -> (r: Option<Self>)
        ensures
            r is Some <==> snode_kind(node_view(*node)) == SyntaxKind::Strong,
            r matches Some(m) ==> m.0 == node,
    {
        if node.kind() == SyntaxKind::Strong {
            Some(Strong(node))
        } else {
            None
        }
    }

    fn to_node(self) -> (r: &'a Node) {
        self.0
    }
}

impl<'a> TypedNode<'a> for Subscript<'a> {
    open spec fn node_of(self) -> &'a Node {
        self.0
    }

    /// The view of a node of kind `Subscript`.
    fn from_node(node: &'a Node) -> (r: Option<Self>)
        ensures
            r is Some <==> snode_kind(node_view(*node)) == SyntaxKind::Subscript,
            r matches Some(m) ==> m.0 == node,
    {
        if node.kind() == SyntaxKind::Subscript {
            Some(Subscript(node))
        } else {
            None
        }
    }

    fn to_node(self) -> (r: &'a Node) {
        self.0
    }
}

impl<'a> TypedNode<'a> for Supscript<'a> {
    open spec fn node_of(self) -> &'a Node {
        self.0
    }

    /// The view of a node of kind `Supscript`.
    fn from_node(node: &'a Node) -> (r: Option<Self>)
        ensures
            r is Some <==> snode_kind(node_view(*node)) == SyntaxKind::Supscript,
            r matches Some(m) ==> m.0 == node,
    {
        if node.kind() == SyntaxKind::Supscript {
            Some(Supscript(node))
        } else {
            None
        }
    }

    fn to_node(self) -> (r: &'a Node) {
        self.0
    }
}

impl<'a> TypedNode<'a> for RawInline<'a> {
    open spec fn node_of(self) -> &'a Node {
        self.0
    }

    /// The view of a node of kind `RawInline`.
    fn from_node(node: &'a Node) -> (r: Option<Self>)
        ensures
            r is Some <==> snode_kind(node_view(*node)) == SyntaxKind::RawInline,
            r matches Some(m) ==> m.0 == node,
    {
        if node.kind() == SyntaxKind::RawInline {
            Some(RawInline(node))
        } else {
            None
        }
    }

    fn to_node(self) -> (r: &'a Node) {
        self.0
    }
}

impl<'a> TypedNode<'a> for MathInline<'a> {
    open spec fn node_of(self) -> &'a Node {
        self.0
    }

    /// The view of a node of kind `MathInline`.
    fn from_node(node: &'a Node) -> (r: Option<Self>)
        ensures
            r is Some <==> snode_kind(node_view(*node)) == SyntaxKind::MathInline,
            r matches Some(m) ==> m.0 == node,
    {
        if node.kind() == SyntaxKind::MathInline {
            Some(MathInline(node))
        } else {
            None
        }
    }

    fn to_node(self) -> (r: &'a Node) {
        self.0
    }
}

impl<'a> TypedNode<'a> for Word<'a> {
    open spec fn node_of(self) -> &'a Node {
        self.0
    }

    /// The view of a node of kind `Word`.
    fn from_node(node: &'a Node) -> (r: Option<Self>)
        ensures
            r is Some <==> snode_kind(node_view(*node)) == SyntaxKind::Word,
            r matches Some(m) ==> m.0 == node,
    {
        if node.kind() == SyntaxKind::Word {
            Some(Word(node))
        } else {
            None
        }
    }

    fn to_node(self) -> (r: &'a Node) {
        self.0
    }
}

impl<'a> TypedNode<'a> for Spacing<'a> {
    open spec fn node_of(self) -> &'a Node {
        self.0
    }

    /// The view of a node of kind `Spacing`.
    fn from_node(node: &'a Node) -> (r: Option<Self>)
        ensures
            r is Some <==> snode_kind(node_view(*node)) == SyntaxKind::Spacing,
            r matches Some(m) ==> m.0 == node,
    {
        if node.kind() == SyntaxKind::Spacing {
            Some(Spacing(node))
        } else {
            None
        }
    }

    fn to_node(self) -> (r: &'a Node) {
        self.0
    }
}

impl<'a> TypedNode<'a> for SoftBreak<'a> {
    open spec fn node_of(self) -> &'a Node {
        self.0
    }

    /// The view of a node of kind `SoftBreak`.
    fn from_node(node: &'a Node) -> (r: Option<Self>)
        ensures
            r is Some <==> snode_kind(node_view(*node)) == SyntaxKind::SoftBreak,
            r matches Some(m) ==> m.0 == node,
    {
        if node.kind() == SyntaxKind::SoftBreak {
            Some(SoftBreak(node))
        } else {
            None
        }
    }

    fn to_node(self) -> (r: &'a Node) {
        self.0
    }
}

impl<'a> TypedNode<'a> for ExprBlock<'a> {
    open spec fn node_of(self) -> &'a Node {
        self.0
    }

    /// The view of a node of kind `ExprBlock`.
    fn from_node(node: &'a Node) -> (r: Option<Self>)
        ensures
            r is Some <==> snode_kind(node_view(*node)) == SyntaxKind::ExprBlock,
            r matches Some(m) ==> m.0 == node,
    {
        if node.kind() == SyntaxKind::ExprBlock {
            Some(ExprBlock(node))
        } else {
            None
        }
    }

    fn to_node(self) -> (r: &'a Node) {
        self.0
    }
}

impl<'a> TypedNode<'a> for Ident<'a> {
    open spec fn node_of(self) -> &'a Node {
        self.0
    }

    /// The view of a node of kind `Ident`.
    fn from_node(node: &'a Node) -> (r: Option<Self>)
        ensures
            r is Some <==> snode_kind(node_view(*node)) == SyntaxKind::Ident,
            r matches Some(m) ==> m.0 == node,
    {
        if node.kind() == SyntaxKind::Ident {
            Some(Ident(node))
        } else {
            None
        }
    }

    fn to_node(self) -> (r: &'a Node) {
        self.0
    }
}

impl<'a> TypedNode<'a> for Float<'a> {
    open spec fn node_of(self) -> &'a Node {
        self.0
    }

    /// The view of a node of kind `Float`.
    fn from_node(node: &'a Node) -> (r: Option<Self>)
        ensures
            r is Some <==> snode_kind(node_view(*node)) == SyntaxKind::Float,
            r matches Some(m) ==> m.0 == node,
    {
        if node.kind() == SyntaxKind::Float {
            Some(Float(node))
        } else {
            None
        }
    }

    fn to_node(self) -> (r: &'a Node) {
        self.0
    }
}

impl<'a> TypedNode<'a> for Literal<'a> {
    /// The node viewed.
    open spec fn node_of(self) -> &'a Node {
        match self {
            Literal::Str(x) => x.0,
            Literal::Int(x) => x.0,
            Literal::Float(x) => x.0,
            Literal::Bool(x) => x.0,
        }
    }

    /// The view of a node whose kind has a variant here.
    fn from_node(node: &'a Node) -> (r: Option<Self>)
        ensures
            r is Some <==> is_literal_kind(snode_kind(node_view(*node))),
            r matches Some(x) ==> x.node_of() == node && x.kind_of() == snode_kind(node_view(*node)),
    {
        match node.kind() {
            SyntaxKind::Str => Some(Literal::Str(Str(node))),
            SyntaxKind::Int => Some(Literal::Int(Int(node))),
            SyntaxKind::Float => Some(Literal::Float(Float(node))),
            SyntaxKind::Bool => Some(Literal::Bool(Bool(node))),
            _ => None,
        }
    }

    fn to_node(self) -> (r: &'a Node) {
        match self {
            Literal::Str(x) => x.0,
            Literal::Int(x) => x.0,
            Literal::Float(x) => x.0,
            Literal::Bool(x) => x.0,
        }
    }
}

impl<'a> TypedNode<'a> for Block<'a> {
    /// The node viewed.
    open spec fn node_of(self) -> &'a Node {
        match self {
            Block::Raw(x) => x.0,
            Block::Heading(x) => x.0,
            Block::Table(x) => x.0,
            Block::List(x) => x.0,
            Block::Enum(x) => x.0,
            Block::Terms(x) => x.0,
            Block::Paragraph(x) => x.0,
            Block::Plain(x) => x.0,
        }
    }

    /// The view of a node whose kind has a variant here.
    fn from_node(node: &'a Node) -> (r: Option<Self>)
        ensures
            r is Some <==> is_block_kind(snode_kind(node_view(*node))),
            r matches Some(x) ==> x.node_of() == node && x.kind_of() == snode_kind(node_view(*node)),
    {
        match node.kind() {
            SyntaxKind::Raw => Some(Block::Raw(Raw(node))),
            SyntaxKind::Heading => Some(Block::Heading(Heading(node))),
            SyntaxKind::Table => Some(Block::Table(Table(node))),
            SyntaxKind::List => Some(Block::List(List(node))),
            SyntaxKind::Enum => Some(Block::Enum(Enum(node))),
            SyntaxKind::Terms => Some(Block::Terms(Terms(node))),
            SyntaxKind::Paragraph => Some(Block::Paragraph(Paragraph(node))),
            SyntaxKind::Plain => Some(Block::Plain(Plain(node))),
            _ => None,
        }
    }

    fn to_node(self) -> (r: &'a Node) {
        match self {
            Block::Raw(x) => x.0,
            Block::Heading(x) => x.0,
            Block::Table(x) => x.0,
            Block::List(x) => x.0,
            Block::Enum(x) => x.0,
            Block::Terms(x) => x.0,
            Block::Paragraph(x) => x.0,
            Block::Plain(x) => x.0,
        }
    }
}

impl<'a> TypedNode<'a> for Inline<'a> {
    /// The node viewed.
    open spec fn node_of(self) -> &'a Node {
        match self {
            Inline::Quote(x) => x.0,
            Inline::Strikeout(x) => x.0,
            Inline::Emphasis(x) => x.0,
            Inline::Strong(x) => x.0,
            Inline::Subscript(x) => x.0,
            Inline::Supscript(x) => x.0,
            Inline::Link(x) => x.0,
            Inline::Ref(x) => x.0,
            Inline::RawInline(x) => x.0,
            Inline::MathInline(x) => x.0,
            Inline::Comment(x) => x.0,
            Inline::Escape(x) => x.0,
            Inline::Word(x) => x.0,
            Inline::Spacing(x) => x.0,
            Inline::SoftBreak(x) => x.0,
            Inline::Code(x) => x.0,
        }
    }

    /// The view of a node whose kind has a variant here.
    fn from_node(node: &'a Node) -> (r: Option<Self>)
        ensures
            r is Some <==> is_inline_kind(snode_kind(node_view(*node))),
            r matches Some(x) ==> x.node_of() == node && x.kind_of() == snode_kind(node_view(*node)),
    {
        match node.kind() {
            SyntaxKind::Quote => Some(Inline::Quote(Quote(node))),
            SyntaxKind::Strikeout => Some(Inline::Strikeout(Strikeout(node))),
            SyntaxKind::Emphasis => Some(Inline::Emphasis(Emphasis(node))),
            SyntaxKind::Strong => Some(Inline::Strong(Strong(node))),
            SyntaxKind::Subscript => Some(Inline::Subscript(Subscript(node))),
            SyntaxKind::Supscript => Some(Inline::Supscript(Supscript(node))),
            SyntaxKind::Link => Some(Inline::Link(Link(node))),
            SyntaxKind::Ref => Some(Inline::Ref(Ref(node))),
            SyntaxKind::RawInline => Some(Inline::RawInline(RawInline(node))),
            SyntaxKind::MathInline => Some(Inline::MathInline(MathInline(node))),
            SyntaxKind::Comment => Some(Inline::Comment(Comment(node))),
            SyntaxKind::Escape => Some(Inline::Escape(Escape(node))),
            SyntaxKind::Word => Some(Inline::Word(Word(node))),
            SyntaxKind::Spacing => Some(Inline::Spacing(Spacing(node))),
            SyntaxKind::SoftBreak => Some(Inline::SoftBreak(SoftBreak(node))),
            SyntaxKind::Code => Some(Inline::Code(Code(node))),
            _ => None,
        }
    }

    fn to_node(self) -> (r: &'a Node) {
        match self {
            Inline::Quote(x) => x.0,
            Inline::Strikeout(x) => x.0,
            Inline::Emphasis(x) => x.0,
            Inline::Strong(x) => x.0,
            Inline::Subscript(x) => x.0,
            Inline::Supscript(x) => x.0,
            Inline::Link(x) => x.0,
            Inline::Ref(x) => x.0,
            Inline::RawInline(x) => x.0,
            Inline::MathInline(x) => x.0,
            Inline::Comment(x) => x.0,
            Inline::Escape(x) => x.0,
            Inline::Word(x) => x.0,
            Inline::Spacing(x) => x.0,
            Inline::SoftBreak(x) => x.0,
            Inline::Code(x) => x.0,
        }
    }
}

impl<'a> TypedNode<'a> for Expr<'a> {
    /// The node viewed.
    open spec fn node_of(self) -> &'a Node {
        match self {
            Expr::Ident(x) => x.0,
            Expr::Call(x) => x.0,
            Expr::Literal(x) => x.node_of(),
            Expr::Block(x) => x.0,
            Expr::Content(x) => x.0,
        }
    }

    /// The view of a node whose kind has a variant here.
    fn from_node(node: &'a Node) -> (r: Option<Self>)
        ensures
            r is Some <==> is_expr_kind(snode_kind(node_view(*node))),
            r matches Some(x) ==> x.node_of() == node && x.kind_of() == snode_kind(node_view(*node)),
    {
        match node.kind() {
            SyntaxKind::Ident => Some(Expr::Ident(Ident(node))),
            SyntaxKind::Call => Some(Expr::Call(Call(node))),
            SyntaxKind::Bool | SyntaxKind::Float | SyntaxKind::Int | SyntaxKind::Str => {
                match Literal::from_node(node) {
                    Some(l) => Some(Expr::Literal(l)),
                    None => None,
                }
            },
            SyntaxKind::Content => Some(Expr::Content(Content(node))),
            _ => None,
        }
    }

    fn to_node(self) -> (r: &'a Node) {
        match self {
            Expr::Ident(x) => x.0,
            Expr::Call(x) => x.0,
            Expr::Literal(x) => x.to_node(),
            Expr::Block(x) => x.0,
            Expr::Content(x) => x.0,
        }
    }
}

impl<'a> TypedNode<'a> for Document<'a> {
    open spec fn node_of(self) -> &'a Node {
        self.0
    }

    /// The view of a node of kind `Document`.
    fn from_node(node: &'a Node) -> (r: Option<Self>)
        ensures
            r is Some <==> snode_kind(node_view(*node)) == SyntaxKind::Document,
            r matches Some(m) ==> m.0 == node,
    {
        if node.kind() == SyntaxKind::Document {
            Some(Document(node))
        } else {
            None
        }
    }

    fn to_node(self) -> (r: &'a Node) {
        self.0
    }
}

impl<'a> TypedNode<'a> for TableRow<'a> {
    open spec fn node_of(self) -> &'a Node {
        self.0
    }

    /// The view of a node of kind `TableRow`.
    fn from_node(node: &'a Node) -> (r: Option<Self>)
        ensures
            r is Some <==> snode_kind(node_view(*node)) == SyntaxKind::TableRow,
            r matches Some(m) ==> m.0 == node,
    {
        if node.kind() == SyntaxKind::TableRow {
            Some(TableRow(node))
        } else {
            None
        }
    }

    fn to_node(self) -> (r: &'a Node) {
        self.0
    }
}

impl<'a> TypedNode<'a> for ListItem<'a> {
    open spec fn node_of(self) -> &'a Node {
        self.0
    }

    /// The view of a node of kind `ListItem`.
    fn from_node(node: &'a Node) -> (r: Option<Self>)
        ensures
            r is Some <==> snode_kind(node_view(*node)) == SyntaxKind::ListItem,
            r matches Some(m) ==> m.0 == node,
    {
        if node.kind() == SyntaxKind::ListItem {
            Some(ListItem(node))
        } else {
            None
        }
    }

    fn to_node(self) -> (r: &'a Node) {
        self.0
    }
}

impl<'a> TypedNode<'a> for EnumItem<'a> {
    open spec fn node_of(self) -> &'a Node {
        self.0
    }

    /// The view of a node of kind `EnumItem`.
    fn from_node(node: &'a Node) -> (r: Option<Self>)
        ensures
            r is Some <==> snode_kind(node_view(*node)) == SyntaxKind::EnumItem,
            r matches Some(m) ==> m.0 == node,
    {
        if node.kind() == SyntaxKind::EnumItem {
            Some(EnumItem(node))
        } else {
            None
        }
    }

    fn to_node(self) -> (r: &'a Node) {
        self.0
    }
}

impl<'a> TypedNode<'a> for Args<'a> {
    open spec fn node_of(self) -> &'a Node {
        self.0
    }

    /// The view of a node of kind `Args`.
    fn from_node(node: &'a Node) -> (r: Option<Self>)
        ensures
            r is Some <==> snode_kind(node_view(*node)) == SyntaxKind::Args,
            r matches Some(m) ==> m.0 == node,
    {
        if node.kind() == SyntaxKind::Args {
            Some(Args(node))
        } else {
            None
        }
    }

    fn to_node(self) -> (r: &'a Node) {
        self.0
    }
}

impl<'a> TypedNode<'a> for Label<'a> {
    open spec fn node_of(self) -> &'a Node {
        self.0
    }

    /// The view of a node of kind `Label`.
    fn from_node(node: &'a Node) -> (r: Option<Self>)
        ensures
            r is Some <==> snode_kind(node_view(*node)) == SyntaxKind::Label,
            r matches Some(m) ==> m.0 == node,
    {
        if node.kind() == SyntaxKind::Label {
            Some(Label(node))
        } else {
            None
        }
    }

    fn to_node(self) -> (r: &'a Node) {
        self.0
    }
}

impl<'a> TypedNode<'a> for Text<'a> {
    open spec fn node_of(self) -> &'a Node {
        self.0
    }

    /// The view of a node of kind `Text`.
    fn from_node(node: &'a Node) -> (r: Option<Self>)
        ensures
            r is Some <==> snode_kind(node_view(*node)) == SyntaxKind::Text,
            r matches Some(m) ==> m.0 == node,
    {
        if node.kind() == SyntaxKind::Text {
            Some(Text(node))
        } else {
            None
        }
    }

    fn to_node(self) -> (r: &'a Node) {
        self.0
    }
}

impl<'a> TypedNode<'a> for RawLang<'a> {
    open spec fn node_of(self) -> &'a Node {
        self.0
    }

    /// The view of a node of kind `RawLang`.
    fn from_node(node: &'a Node) -> (r: Option<Self>)
        ensures
            r is Some <==> snode_kind(node_view(*node)) == SyntaxKind::RawLang,
            r matches Some(m) ==> m.0 == node,
    {
        if node.kind() == SyntaxKind::RawLang {
            Some(RawLang(node))
        } else {
            None
        }
    }

    fn to_node(self) -> (r: &'a Node) {
        self.0
    }
}

impl<'a> TypedNode<'a> for CallIdent<'a> {
    open spec fn node_of(self) -> &'a Node {
        self.0
    }

    /// The view of a node of kind `CallIdent`.
    fn from_node(node: &'a Node) -> (r: Option<Self>)
        ensures
            r is Some <==> snode_kind(node_view(*node)) == SyntaxKind::CallIdent,
            r matches Some(m) ==> m.0 == node,
    {
        if node.kind() == SyntaxKind::CallIdent {
            Some(CallIdent(node))
        } else {
            None
        }
    }

    fn to_node(self) -> (r: &'a Node) {
        self.0
    }
}

impl<'a> TypedNode<'a> for ArgIdent<'a> {
    open spec fn node_of(self) -> &'a Node {
        self.0
    }

    /// The view of a node of kind `ArgIdent`.
    fn from_node(node: &'a Node) -> (r: Option<Self>)
        ensures
            r is Some <==> snode_kind(node_view(*node)) == SyntaxKind::ArgIdent,
            r matches Some(m) ==> m.0 == node,
    {
        if node.kind() == SyntaxKind::ArgIdent {
            Some(ArgIdent(node))
        } else {
            None
        }
    }

    fn to_node(self) -> (r: &'a Node) {
        self.0
    }
}

impl<'a> RawInline<'a> {
    /// The raw text.
    pub fn get(self) -> (r: ecow::EcoString)
        ensures
            eco_chars(r) == snode_text(node_view(*self.0)),
    {
        self.0.text()
    }
}

impl<'a> MathInline<'a> {
    /// The math, as written.
    pub fn get(self) -> (r: ecow::EcoString)
        ensures
            eco_chars(r) == snode_text(node_view(*self.0)),
    {
        self.0.text()
    }
}

} // verus!
