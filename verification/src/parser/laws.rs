//! The spans of the syntax tree locate its nodes in the source: every node that a
//! parser builds lies within the part of the source the parser consumed, and the
//! span of every child lies within the span of its parent. Alongside: a parser
//! aborts only where reading an integer literal does.
use crate::kind::SyntaxKind;
use crate::node::{snode_children, snode_kind, snode_span, snode_text, SNode};
use crate::parser::grammar::{
    blank_kw_ws, fwd, kw_ws, spec_arg, spec_arg_unnamed, spec_arglist, spec_arglist_rest, spec_args, spec_bind,
    spec_binds, spec_binds_rest, spec_call, spec_code, spec_content, spec_content_expr,
    spec_content_nested, spec_delimited, spec_expr, spec_for, spec_ident_expr, spec_if,
    spec_inline, spec_inlines, spec_inlines1, spec_let, spec_link, spec_script, spec_text,
    spec_text_rest, spec_wrapped,
};
use crate::parser::literal::{int_end, spec_literal};
use crate::parser::result::{branch, leaf, sp, ParseError, ParseErrorKind, PR};
use crate::parser::token::{
    spec_comment, spec_escape, spec_recovery, spec_ref, spec_spacing, spec_verbatim, spec_word,
};
use crate::scan::{
    ident_end, lemma_ident_end_bounds, lemma_level_end_bounds, lemma_newline_end_bounds,
    lemma_padded_end_bounds, lemma_scan_end_bounds, level_end, newline_end, padded_end, scan_end,
    CharClass, SpecialSet,
};
use vstd::prelude::*;

verus! {

/// A node lies within `a..b`: its span does, and each of its children lies within
/// its span.
pub open spec fn within(n: SNode, a: int, b: int) -> bool
    decreases n,
{
    match n {
        SNode::Branch(sp, _, cs) => a <= sp.start <= sp.end <= b && all_within(
            cs,
            sp.start as int,
            sp.end as int,
        ),
        SNode::Leaf(sp, _, _) => a <= sp.start <= sp.end <= b,
        SNode::Error(sp, _) => a <= sp.start <= sp.end <= b,
    }
}

/// Every node of a sequence lies within `a..b`.
pub open spec fn all_within(ns: Seq<SNode>, a: int, b: int) -> bool
    decreases ns,
{
    if ns.len() == 0 {
        true
    } else {
        all_within(ns.drop_last(), a, b) && within(ns.last(), a, b)
    }
}

/// A successful outcome of a parser of one node at `p` ends within the source, and
/// the node lies within what was consumed.
pub open spec fn located(s: Seq<char>, p: int, r: PR<SNode>) -> bool {
    r matches PR::Done(n, q, _) ==> p <= q <= s.len() && within(n, p, q)
}

/// A successful outcome of a parser of a sequence of nodes at `p` ends within the
/// source, and every node lies within what was consumed.
pub open spec fn all_located(s: Seq<char>, p: int, r: PR<Seq<SNode>>) -> bool {
    r matches PR::Done(ns, q, _) ==> p <= q <= s.len() && all_within(ns, p, q)
}

/// Whether the positions of the source fit in a `usize`, as those of any source in
/// memory do.
pub open spec fn fits(s: Seq<char>) -> bool {
    s.len() <= usize::MAX
}

/// Every integer literal that could start in the source reads as an `i64`: at no
/// position does reading a literal abort.
pub open spec fn literals_fit(s: Seq<char>) -> bool {
    forall|p: int| 0 <= p <= s.len() ==> !(#[trigger] spec_literal(s, p) is Abort)
}

/// A sequence lies within a range when both of its parts do.
pub proof fn lemma_all_within_add(x: Seq<SNode>, y: Seq<SNode>, a: int, b: int)
    ensures
        all_within(x + y, a, b) == (all_within(x, a, b) && all_within(y, a, b)),
    decreases y.len(),
{
    if y.len() == 0 {
        assert(x + y =~= x);
    } else {
        assert((x + y).drop_last() =~= x + y.drop_last());
        assert((x + y).last() == y.last());
        lemma_all_within_add(x, y.drop_last(), a, b);
    }
}

/// A sequence of one node lies within a range when the node does.
pub proof fn lemma_all_within_one(n: SNode, a: int, b: int)
    ensures
        all_within(seq![n], a, b) == within(n, a, b),
{
    assert(seq![n].drop_last() =~= Seq::<SNode>::empty());
    assert(seq![n].last() == n);
    assert(all_within(Seq::<SNode>::empty(), a, b));
}

/// What lies within a range lies within every larger range.
pub proof fn lemma_within_widen(n: SNode, a: int, b: int, a2: int, b2: int)
    requires
        within(n, a, b),
        a2 <= a,
        b <= b2,
    ensures
        within(n, a2, b2),
{
}

/// What lies within a range lies within every larger range.
pub proof fn lemma_all_within_widen(ns: Seq<SNode>, a: int, b: int, a2: int, b2: int)
    requires
        all_within(ns, a, b),
        a2 <= a,
        b <= b2,
    ensures
        all_within(ns, a2, b2),
    decreases ns.len(),
{
    if ns.len() > 0 {
        lemma_all_within_widen(ns.drop_last(), a, b, a2, b2);
        lemma_within_widen(ns.last(), a, b, a2, b2);
    }
}

/// References are located.
#[verifier::spinoff_prover]
#[verifier::rlimit(40)]
pub proof fn lemma_ref_located(s: Seq<char>, p: int)
    requires
        0 <= p <= s.len(),
        fits(s),
    ensures
        located(s, p, spec_ref(s, p)),
        literals_fit(s) ==> !(spec_ref(s, p) is Abort),
{
    if p < s.len() {
        lemma_ident_end_bounds(s, p + 1);
        lemma_all_within_one(spec_ref(s, p)->0->Branch_2[0], p + 1, s.len() as int);
    }
    if spec_ref(s, p) is Done {
        let q = spec_ref(s, p)->1;
        lemma_all_within_one(crate::parser::result::leaf(s, crate::kind::SyntaxKind::Ident, p + 1, q), p + 1, q);
    }
}

/// Raw inline text and math are located.
#[verifier::spinoff_prover]
#[verifier::rlimit(40)]
pub proof fn lemma_verbatim_located(s: Seq<char>, p: int, d: char)
    requires
        0 <= p <= s.len(),
        fits(s),
    ensures
        located(s, p, spec_verbatim(s, p, d)),
        literals_fit(s) ==> !(spec_verbatim(s, p, d) is Abort),
{
    if p < s.len() {
        lemma_scan_end_bounds(s, p + 1, if d == '`' { CharClass::RawInline } else { CharClass::Math });
    }
}

/// Escapes are located.
#[verifier::spinoff_prover]
#[verifier::rlimit(40)]
pub proof fn lemma_escape_located(s: Seq<char>, p: int)
    requires
        0 <= p <= s.len(),
        fits(s),
    ensures
        located(s, p, spec_escape(s, p)),
        literals_fit(s) ==> !(spec_escape(s, p) is Abort),
{
    if p + 1 < s.len() {
        lemma_all_within_one(
            crate::parser::result::leaf(s, crate::kind::SyntaxKind::Word, p + 1, p + 2),
            p + 1,
            p + 2,
        );
    }
}

/// Runs of blanks are located.
#[verifier::spinoff_prover]
#[verifier::rlimit(40)]
pub proof fn lemma_spacing_located(s: Seq<char>, p: int)
    requires
        0 <= p <= s.len(),
        fits(s),
    ensures
        located(s, p, spec_spacing(s, p)),
        literals_fit(s) ==> !(spec_spacing(s, p) is Abort),
{
    lemma_scan_end_bounds(s, p, CharClass::Blank);
}

/// Comments are located.
#[verifier::spinoff_prover]
#[verifier::rlimit(40)]
pub proof fn lemma_comment_located(s: Seq<char>, p: int)
    requires
        0 <= p <= s.len(),
        fits(s),
    ensures
        located(s, p, spec_comment(s, p)),
        literals_fit(s) ==> !(spec_comment(s, p) is Abort),
{
    if p < s.len() {
        lemma_scan_end_bounds(s, p + 1, CharClass::Line);
        let e = crate::scan::scan_end(s, p + 1, CharClass::Line);
        lemma_all_within_one(
            crate::parser::result::leaf(s, crate::kind::SyntaxKind::Text, p + 1, e),
            p + 1,
            e,
        );
    }
}

/// Words are located.
#[verifier::spinoff_prover]
#[verifier::rlimit(40)]
pub proof fn lemma_word_located(s: Seq<char>, p: int, set: SpecialSet)
    requires
        0 <= p <= s.len(),
        fits(s),
    ensures
        located(s, p, spec_word(s, p, set)),
        literals_fit(s) ==> !(spec_word(s, p, set) is Abort),
{
    lemma_scan_end_bounds(s, p, CharClass::Word(set));
}

/// Recovered delimiters are located.
#[verifier::spinoff_prover]
#[verifier::rlimit(40)]
pub proof fn lemma_recovery_located(s: Seq<char>, p: int, d: char)
    requires
        0 <= p <= s.len(),
        fits(s),
    ensures
        located(s, p, spec_recovery(s, p, d)),
        literals_fit(s) ==> !(spec_recovery(s, p, d) is Abort),
{
    if p < s.len() {
        lemma_scan_end_bounds(s, p + 1, CharClass::Recovery);
    }
}

/// A node before a sequence lies within the range that spans both.
pub proof fn lemma_cons_within(n: SNode, ns: Seq<SNode>, p: int, q: int, r: int)
    requires
        within(n, p, q),
        all_within(ns, q, r),
        p <= q <= r,
    ensures
        all_within(seq![n] + ns, p, r),
{
    lemma_within_widen(n, p, q, p, r);
    lemma_all_within_one(n, p, r);
    lemma_all_within_widen(ns, q, r, p, r);
    lemma_all_within_add(seq![n], ns, p, r);
}

/// Two sequences one after the other lie within the range that spans both.
pub proof fn lemma_concat_within(ns: Seq<SNode>, ms: Seq<SNode>, p: int, q: int, r: int)
    requires
        all_within(ns, p, q),
        all_within(ms, q, r),
        p <= q <= r,
    ensures
        all_within(ns + ms, p, r),
{
    lemma_all_within_widen(ns, p, q, p, r);
    lemma_all_within_widen(ms, q, r, p, r);
    lemma_all_within_add(ns, ms, p, r);
}

/// A keyword with blanks after it ends within the source, after the keyword.
pub proof fn lemma_kw_ws_bounds(s: Seq<char>, p: int, kw: Seq<char>)
    requires
        0 <= p <= s.len(),
    ensures
        kw_ws(s, p, kw) matches Some(q) ==> p + kw.len() < q <= s.len(),
{
    if p + kw.len() <= s.len() {
        lemma_scan_end_bounds(s, p + kw.len(), CharClass::InlineWhitespace);
    }
}

/// A keyword after blanks ends within the source, after the keyword.
pub proof fn lemma_blank_kw_ws_bounds(s: Seq<char>, p: int, kw: Seq<char>)
    requires
        0 <= p <= s.len(),
    ensures
        blank_kw_ws(s, p, kw) matches Some(q) ==> p + kw.len() < q <= s.len(),
{
    lemma_scan_end_bounds(s, p, CharClass::InlineWhitespace);
    let b = scan_end(s, p, CharClass::InlineWhitespace);
    if b > p {
        lemma_kw_ws_bounds(s, b, kw);
    }
}

/// An integer ends within the source, after its start.
pub proof fn lemma_int_end_bounds(s: Seq<char>, p: int, radix: u32)
    requires
        0 <= p <= s.len(),
    ensures
        int_end(s, p, radix) matches Some(q) ==> p < q <= s.len(),
{
    if p < s.len() {
        lemma_scan_end_bounds(s, p + 1, CharClass::Digit(radix));
    }
}

/// Literals are located.
#[verifier::spinoff_prover]
#[verifier::rlimit(40)]
pub proof fn lemma_literal_located(s: Seq<char>, p: int)
    requires
        0 <= p <= s.len(),
        fits(s),
    ensures
        located(s, p, spec_literal(s, p)),
        literals_fit(s) ==> !(spec_literal(s, p) is Abort),
{
    reveal(spec_literal);
    lemma_int_end_bounds(s, p, 10);
    if p + 2 <= s.len() {
        lemma_int_end_bounds(s, p + 2, 8);
        lemma_int_end_bounds(s, p + 2, 16);
    }
    if let Some(q) = int_end(s, p, 10) {
        if q + 1 <= s.len() {
            lemma_scan_end_bounds(s, q + 1, CharClass::Digit(10));
        }
    }
    if p < s.len() {
        lemma_scan_end_bounds(s, p + 1, CharClass::Str);
    }
}

/// Identifiers as expressions are located.
#[verifier::spinoff_prover]
#[verifier::rlimit(40)]
pub proof fn lemma_ident_expr_located(s: Seq<char>, p: int)
    requires
        0 <= p <= s.len(),
        fits(s),
    ensures
        located(s, p, spec_ident_expr(s, p)),
        literals_fit(s) ==> !(spec_ident_expr(s, p) is Abort),
{
    lemma_ident_end_bounds(s, p);
}

/// Zero or more inline elements are located.
#[verifier::spinoff_prover]
#[verifier::rlimit(40)]
pub proof fn lemma_inlines_located(s: Seq<char>, p: int, set: SpecialSet)
    requires
        0 <= p <= s.len(),
        fits(s),
    ensures
        all_located(s, p, spec_inlines(s, p, set)),
        literals_fit(s) ==> !(spec_inlines(s, p, set) is Abort),
    decreases s.len() - p, 56int,
{
    lemma_inline_located(s, p, set);
    match spec_inline(s, p, set) {
        PR::Done(n, q, e) => if fwd(s, p, q) {
            lemma_inlines_located(s, q, set);
            if let PR::Done(ns, r, _) = spec_inlines(s, q, set) {
                lemma_cons_within(n, ns, p, q, r);
            }
        },
        _ => {},
    }
}

/// One or more inline elements are located.
#[verifier::spinoff_prover]
#[verifier::rlimit(40)]
pub proof fn lemma_inlines1_located(s: Seq<char>, p: int, set: SpecialSet)
    requires
        0 <= p <= s.len(),
        fits(s),
    ensures
        all_located(s, p, spec_inlines1(s, p, set)),
        literals_fit(s) ==> !(spec_inlines1(s, p, set) is Abort),
    decreases s.len() - p, 57int,
{
    lemma_inline_located(s, p, set);
    match spec_inline(s, p, set) {
        PR::Done(n, q, e) => if fwd(s, p, q) {
            lemma_inlines_located(s, q, set);
            if let PR::Done(ns, r, _) = spec_inlines(s, q, set) {
                lemma_cons_within(n, ns, p, q, r);
            }
        },
        _ => {},
    }
}

/// Inline elements are located.
#[verifier::spinoff_prover]
#[verifier::rlimit(40)]
pub proof fn lemma_inline_located(s: Seq<char>, p: int, set: SpecialSet)
    requires
        0 <= p <= s.len(),
        fits(s),
    ensures
        located(s, p, spec_inline(s, p, set)),
        literals_fit(s) ==> !(spec_inline(s, p, set) is Abort),
    decreases s.len() - p, 55int,
{
    if p < s.len() {
        let c = s[p];
        lemma_code_located(s, p, set);
        lemma_delimited_located(s, p, set, c, SyntaxKind::Quote);
        lemma_delimited_located(s, p, set, c, SyntaxKind::Strikeout);
        lemma_delimited_located(s, p, set, c, SyntaxKind::Strong);
        lemma_delimited_located(s, p, set, c, SyntaxKind::Emphasis);
        lemma_script_located(s, p, set, c, SyntaxKind::Subscript);
        lemma_script_located(s, p, set, c, SyntaxKind::Supscript);
        lemma_link_located(s, p, set);
        lemma_word_located(s, p, set);
        lemma_ref_located(s, p);
        lemma_verbatim_located(s, p, c);
        lemma_escape_located(s, p);
        lemma_spacing_located(s, p);
        lemma_comment_located(s, p);
    }
}

/// Code is located.
#[verifier::spinoff_prover]
#[verifier::rlimit(40)]
pub proof fn lemma_code_located(s: Seq<char>, p: int, set: SpecialSet)
    requires
        0 <= p <= s.len(),
        fits(s),
    ensures
        located(s, p, spec_code(s, p, set)),
        literals_fit(s) ==> !(spec_code(s, p, set) is Abort),
    decreases s.len() - p, 54int,
{
    if p < s.len() {
        lemma_expr_located(s, p + 1, set);
        if let PR::Done(n, q, _) = spec_expr(s, p + 1, set) {
            lemma_within_widen(n, p + 1, q, p, q);
            lemma_all_within_one(n, p, q);
        }
    }
}

/// Delimited markup is located.
#[verifier::spinoff_prover]
#[verifier::rlimit(40)]
pub proof fn lemma_delimited_located(s: Seq<char>, p: int, set: SpecialSet, d: char, kind: SyntaxKind)
    requires
        0 <= p <= s.len(),
        fits(s),
    ensures
        located(s, p, spec_delimited(s, p, set, d, kind)),
        literals_fit(s) ==> !(spec_delimited(s, p, set, d, kind) is Abort),
    decreases s.len() - p, 53int,
{
    lemma_recovery_located(s, p, d);
    if p < s.len() {
        lemma_inlines_located(s, p + 1, set);
        if let PR::Done(ns, q, _) = spec_inlines(s, p + 1, set) {
            lemma_all_within_widen(ns, p + 1, q, p, q + 1);
        }
    }
}

/// Subscripts and superscripts are located.
#[verifier::spinoff_prover]
#[verifier::rlimit(40)]
pub proof fn lemma_script_located(s: Seq<char>, p: int, set: SpecialSet, d: char, kind: SyntaxKind)
    requires
        0 <= p <= s.len(),
        fits(s),
    ensures
        located(s, p, spec_script(s, p, set, d, kind)),
        literals_fit(s) ==> !(spec_script(s, p, set, d, kind) is Abort),
    decreases s.len() - p, 52int,
{
    if p < s.len() {
        lemma_content_located(s, p + 1, set);
        if let PR::Done(ns, q, _) = spec_content(s, p + 1, set) {
            lemma_all_within_widen(ns, p + 1, q, p, q);
        }
        if p + 1 < s.len() {
            lemma_all_within_one(leaf(s, SyntaxKind::Word, p + 1, p + 2), p, p + 2);
        }
    }
}

/// Links are located.
#[verifier::spinoff_prover]
#[verifier::rlimit(40)]
pub proof fn lemma_link_located(s: Seq<char>, p: int, set: SpecialSet)
    requires
        0 <= p <= s.len(),
        fits(s),
    ensures
        located(s, p, spec_link(s, p, set)),
        literals_fit(s) ==> !(spec_link(s, p, set) is Abort),
    decreases s.len() - p, 51int,
{
    if p < s.len() {
        lemma_scan_end_bounds(s, p + 1, CharClass::Href);
        let e = scan_end(s, p + 1, CharClass::Href);
        if e < s.len() {
            let href = crate::parser::result::leaf_in(s, SyntaxKind::Text, p, e + 1, p + 1, e);
            lemma_all_within_one(href, p, e + 1);
            lemma_content_located(s, e + 1, set);
            if let PR::Done(ns, q, _) = spec_content(s, e + 1, set) {
                let c = branch(SyntaxKind::Content, e + 1, q, ns);
                assert(within(c, e + 1, q));
                lemma_all_within_one(c, e + 1, q);
                lemma_cons_within(href, seq![c], p, e + 1, q);
                assert(seq![href] + seq![c] =~= seq![href, c]);
            }
        }
    }
}

/// Bracketed content is located.
#[verifier::spinoff_prover]
#[verifier::rlimit(40)]
pub proof fn lemma_content_located(s: Seq<char>, p: int, set: SpecialSet)
    requires
        0 <= p <= s.len(),
        fits(s),
    ensures
        all_located(s, p, spec_content(s, p, set)),
        literals_fit(s) ==> !(spec_content(s, p, set) is Abort),
    decreases s.len() - p, 30int,
{
    if p < s.len() {
        lemma_inlines_located(s, p + 1, set);
        if let PR::Done(ns, q, _) = spec_inlines(s, p + 1, set) {
            lemma_all_within_widen(ns, p + 1, q, p, q + 1);
        }
        lemma_content_nested_located(s, p, set);
    }
}

/// Bracketed content over several lines is located.
#[verifier::spinoff_prover]
#[verifier::rlimit(40)]
pub proof fn lemma_content_nested_located(s: Seq<char>, p: int, set: SpecialSet)
    requires
        0 <= p < s.len(),
        fits(s),
    ensures
        all_located(s, p, spec_content_nested(s, p, set)),
        literals_fit(s) ==> !(spec_content_nested(s, p, set) is Abort),
    decreases s.len() - p, 28int,
{
    lemma_newline_end_bounds(s, p + 1);
    if let Some(q1) = newline_end(s, p + 1) {
        lemma_level_end_bounds(s, q1, 1);
        if let Some(q2) = level_end(s, q1, 1) {
            if fwd(s, p, q2) {
                lemma_text_located(s, q2, 1, set);
                if let PR::Done(ns, q3, _) = spec_text(s, q2, 1, set) {
                    lemma_newline_end_bounds(s, q3);
                    if let Some(q4) = newline_end(s, q3) {
                        lemma_all_within_widen(ns, q2, q3, p, q4 + 1);
                    }
                }
            }
        }
    }
}

/// Text is located.
#[verifier::spinoff_prover]
#[verifier::rlimit(40)]
pub proof fn lemma_text_located(s: Seq<char>, p: int, ind: nat, set: SpecialSet)
    requires
        0 <= p <= s.len(),
        fits(s),
    ensures
        all_located(s, p, spec_text(s, p, ind, set)),
        literals_fit(s) ==> !(spec_text(s, p, ind, set) is Abort),
    decreases s.len() - p, 60int,
{
    lemma_wrapped_located(s, p, ind, set);
    if let PR::Done(ns, q, _) = spec_wrapped(s, p, ind, set) {
        if fwd(s, p, q) {
            lemma_text_rest_located(s, q, ind, set);
            if let PR::Done(ms, r, _) = spec_text_rest(s, q, ind, set) {
                lemma_concat_within(ns, ms, p, q, r);
            }
        }
    }
}

/// A line with the nested text after it is located.
#[verifier::spinoff_prover]
#[verifier::rlimit(100)]
pub proof fn lemma_wrapped_located(s: Seq<char>, p: int, ind: nat, set: SpecialSet)
    requires
        0 <= p <= s.len(),
        fits(s),
    ensures
        all_located(s, p, spec_wrapped(s, p, ind, set)),
        literals_fit(s) ==> !(spec_wrapped(s, p, ind, set) is Abort),
    decreases s.len() - p, 59int,
{
    lemma_inlines1_located(s, p, set);
    if let PR::Done(ns, q, _) = spec_inlines1(s, p, set) {
        lemma_newline_end_bounds(s, q);
        if let Some(q1) = newline_end(s, q) {
            lemma_level_end_bounds(s, q1, ind + 1);
            if let Some(q2) = level_end(s, q1, ind + 1) {
                if fwd(s, p, q2) {
                    lemma_text_located(s, q2, ind + 1, set);
                    if let PR::Done(ms, r, _) = spec_text(s, q2, ind + 1, set) {
                        let sb = leaf(s, SyntaxKind::SoftBreak, q, q1);
                        lemma_all_within_one(sb, q, q1);
                        lemma_concat_within(ns, seq![sb], p, q, q1);
                        lemma_all_within_widen(ms, q2, r, q1, r);
                        lemma_concat_within(ns + seq![sb], ms, p, q1, r);
                    }
                }
            }
        }
    }
}

/// Further lines of text are located.
#[verifier::spinoff_prover]
#[verifier::rlimit(40)]
pub proof fn lemma_text_rest_located(s: Seq<char>, p: int, ind: nat, set: SpecialSet)
    requires
        0 <= p <= s.len(),
        fits(s),
    ensures
        all_located(s, p, spec_text_rest(s, p, ind, set)),
        literals_fit(s) ==> !(spec_text_rest(s, p, ind, set) is Abort),
    decreases s.len() - p, 58int,
{
    lemma_newline_end_bounds(s, p);
    if let Some(q1) = newline_end(s, p) {
        lemma_level_end_bounds(s, q1, ind);
        if let Some(q2) = level_end(s, q1, ind) {
            if fwd(s, p, q2) {
                lemma_wrapped_located(s, q2, ind, set);
                if let PR::Done(ns, q3, _) = spec_wrapped(s, q2, ind, set) {
                    if fwd(s, p, q3) {
                        lemma_text_rest_located(s, q3, ind, set);
                        if let PR::Done(ms, r, _) = spec_text_rest(s, q3, ind, set) {
                            let sb = leaf(s, SyntaxKind::SoftBreak, p, q1);
                            lemma_all_within_widen(ns, q2, q3, q1, q3);
                            lemma_cons_within(sb, ns, p, q1, q3);
                            lemma_concat_within(seq![sb] + ns, ms, p, q3, r);
                        }
                    }
                }
            }
        }
    }
}

/// Expressions are located.
#[verifier::spinoff_prover]
#[verifier::rlimit(40)]
pub proof fn lemma_expr_located(s: Seq<char>, p: int, set: SpecialSet)
    requires
        0 <= p <= s.len(),
        fits(s),
    ensures
        located(s, p, spec_expr(s, p, set)),
        literals_fit(s) ==> !(spec_expr(s, p, set) is Abort),
    decreases s.len() - p, 40int,
{
    lemma_literal_located(s, p);
    lemma_for_located(s, p, set);
    lemma_if_located(s, p, set);
    lemma_let_located(s, p, set);
    lemma_call_located(s, p, set);
    lemma_ident_expr_located(s, p);
    lemma_content_expr_located(s, p, set);
}

/// Content as an expression is located.
#[verifier::spinoff_prover]
#[verifier::rlimit(40)]
pub proof fn lemma_content_expr_located(s: Seq<char>, p: int, set: SpecialSet)
    requires
        0 <= p <= s.len(),
        fits(s),
    ensures
        located(s, p, spec_content_expr(s, p, set)),
        literals_fit(s) ==> !(spec_content_expr(s, p, set) is Abort),
    decreases s.len() - p, 31int,
{
    lemma_content_located(s, p, set);
}

/// Calls are located.
#[verifier::spinoff_prover]
#[verifier::rlimit(40)]
pub proof fn lemma_call_located(s: Seq<char>, p: int, set: SpecialSet)
    requires
        0 <= p <= s.len(),
        fits(s),
    ensures
        located(s, p, spec_call(s, p, set)),
        literals_fit(s) ==> !(spec_call(s, p, set) is Abort),
    decreases s.len() - p, 35int,
{
    lemma_ident_end_bounds(s, p);
    if let Some(q) = ident_end(s, p) {
        if fwd(s, p, q) {
            lemma_args_located(s, q, set);
            if let PR::Done(a, r, _) = spec_args(s, q, set) {
                let id = leaf(s, SyntaxKind::CallIdent, p, q);
                lemma_all_within_one(id, p, q);
                lemma_all_within_one(a, q, r);
                lemma_cons_within(id, seq![a], p, q, r);
                assert(seq![id] + seq![a] =~= seq![id, a]);
            }
        }
    }
}

/// Arguments are located.
#[verifier::spinoff_prover]
#[verifier::rlimit(40)]
pub proof fn lemma_args_located(s: Seq<char>, p: int, set: SpecialSet)
    requires
        0 <= p <= s.len(),
        fits(s),
    ensures
        located(s, p, spec_args(s, p, set)),
        literals_fit(s) ==> !(spec_args(s, p, set) is Abort),
    decreases s.len() - p, 29int,
{
    if p < s.len() {
        lemma_scan_end_bounds(s, p + 1, CharClass::Whitespace);
        let a = scan_end(s, p + 1, CharClass::Whitespace);
        if fwd(s, p, a) {
            lemma_arglist_located(s, a, set);
            if let PR::Done(items, q, _) = spec_arglist(s, a, set) {
                lemma_scan_end_bounds(s, q, CharClass::Whitespace);
                let b = scan_end(s, q, CharClass::Whitespace);
                if b < s.len() && fwd(s, p, b + 1) {
                    lemma_all_within_widen(items, a, q, p, b + 1);
                    lemma_content_located(s, b + 1, set);
                    if let PR::Done(ns, r, _) = spec_content(s, b + 1, set) {
                        let c = branch(SyntaxKind::Content, b + 1, r, ns);
                        lemma_all_within_one(c, b + 1, r);
                        lemma_concat_within(items, seq![c], p, b + 1, r);
                    }
                }
            }
        }
    }
}

/// Argument lists are located.
#[verifier::spinoff_prover]
#[verifier::rlimit(40)]
pub proof fn lemma_arglist_located(s: Seq<char>, p: int, set: SpecialSet)
    requires
        0 <= p <= s.len(),
        fits(s),
    ensures
        all_located(s, p, spec_arglist(s, p, set)),
        literals_fit(s) ==> !(spec_arglist(s, p, set) is Abort),
    decreases s.len() - p, 45int,
{
    lemma_arg_located(s, p, set);
    if let PR::Done(a, q, _) = spec_arg(s, p, set) {
        if fwd(s, p, q) {
            lemma_arglist_rest_located(s, q, set);
            if let PR::Done(rest, r, _) = spec_arglist_rest(s, q, set) {
                lemma_cons_within(a, rest, p, q, r);
            }
        }
    }
}

/// Further arguments are located.
#[verifier::spinoff_prover]
#[verifier::rlimit(40)]
pub proof fn lemma_arglist_rest_located(s: Seq<char>, p: int, set: SpecialSet)
    requires
        0 <= p <= s.len(),
        fits(s),
    ensures
        all_located(s, p, spec_arglist_rest(s, p, set)),
        literals_fit(s) ==> !(spec_arglist_rest(s, p, set) is Abort),
    decreases s.len() - p, 46int,
{
    lemma_padded_end_bounds(s, p, seq![',']);
    if let Some(q) = padded_end(s, p, seq![',']) {
        if fwd(s, p, q) {
            lemma_arg_located(s, q, set);
            if let PR::Done(a, r, _) = spec_arg(s, q, set) {
                if fwd(s, q, r) {
                    lemma_arglist_rest_located(s, r, set);
                    if let PR::Done(rest, t, _) = spec_arglist_rest(s, r, set) {
                        lemma_cons_within(a, rest, q, r, t);
                        lemma_all_within_widen(seq![a] + rest, q, t, p, t);
                    }
                }
            }
        }
    }
}

/// Arguments are located.
#[verifier::spinoff_prover]
#[verifier::rlimit(40)]
pub proof fn lemma_arg_located(s: Seq<char>, p: int, set: SpecialSet)
    requires
        0 <= p <= s.len(),
        fits(s),
    ensures
        located(s, p, spec_arg(s, p, set)),
        literals_fit(s) ==> !(spec_arg(s, p, set) is Abort),
    decreases s.len() - p, 44int,
{
    lemma_ident_end_bounds(s, p);
    lemma_arg_unnamed_located(s, p, set);
    if let Some(q) = ident_end(s, p) {
        if crate::scan::spec_at2(s, q, ':', ' ') && fwd(s, p, q + 2) {
            lemma_arg_named_located(s, p, q, set);
        }
    }
}

/// Arguments with a name, which ends at `q`, are located.
#[verifier::spinoff_prover]
#[verifier::rlimit(40)]
pub proof fn lemma_arg_named_located(s: Seq<char>, p: int, q: int, set: SpecialSet)
    requires
        0 <= p < q,
        q + 2 <= s.len(),
        fits(s),
    ensures
        spec_expr(s, q + 2, set) matches PR::Done(v, r, _) ==> q + 2 <= r <= s.len() && within(
            branch(SyntaxKind::Arg, p, r, seq![leaf(s, SyntaxKind::ArgIdent, p, q), v]),
            p,
            r,
        ),
        literals_fit(s) ==> !(spec_expr(s, q + 2, set) is Abort),
    decreases s.len() - p, 43int,
{
    lemma_expr_located(s, q + 2, set);
    if let PR::Done(v, r, _) = spec_expr(s, q + 2, set) {
        let id = leaf(s, SyntaxKind::ArgIdent, p, q);
        lemma_all_within_one(id, p, q);
        lemma_all_within_one(v, q + 2, r);
        lemma_all_within_widen(seq![v], q + 2, r, q, r);
        lemma_cons_within(id, seq![v], p, q, r);
        assert(seq![id] + seq![v] =~= seq![id, v]);
    }
}

/// Arguments without a name are located.
#[verifier::spinoff_prover]
#[verifier::rlimit(40)]
pub proof fn lemma_arg_unnamed_located(s: Seq<char>, p: int, set: SpecialSet)
    requires
        0 <= p <= s.len(),
        fits(s),
    ensures
        located(s, p, spec_arg_unnamed(s, p, set)),
        literals_fit(s) ==> !(spec_arg_unnamed(s, p, set) is Abort),
    decreases s.len() - p, 43int,
{
    lemma_expr_located(s, p, set);
    if let PR::Done(v, r, _) = spec_expr(s, p, set) {
        lemma_all_within_one(v, p, r);
    }
}

/// Loops are located.
#[verifier::spinoff_prover]
#[verifier::rlimit(100)]
pub proof fn lemma_for_located(s: Seq<char>, p: int, set: SpecialSet)
    requires
        0 <= p <= s.len(),
        fits(s),
    ensures
        located(s, p, spec_for(s, p, set)),
        literals_fit(s) ==> !(spec_for(s, p, set) is Abort),
    decreases s.len() - p, 34int,
{
    lemma_kw_ws_bounds(s, p, seq!['f', 'o', 'r']);
    if let Some(a) = kw_ws(s, p, seq!['f', 'o', 'r']) {
        lemma_ident_end_bounds(s, a);
        if let Some(b) = ident_end(s, a) {
            lemma_blank_kw_ws_bounds(s, b, seq!['i', 'n']);
            if let Some(c) = blank_kw_ws(s, b, seq!['i', 'n']) {
                if fwd(s, p, c) {
                    lemma_ident_expr_located(s, c);
                    lemma_call_located(s, c, set);
                    let inside = crate::parser::grammar::alt(
                        spec_ident_expr(s, c),
                        spec_call(s, c, set),
                    );
                    if let PR::Done(n, d, _) = inside {
                        if fwd(s, p, d) {
                            lemma_content_located(s, d, set);
                            if let PR::Done(ns, r, _) = spec_content(s, d, set) {
                                let el = leaf(s, SyntaxKind::Ident, a, b);
                                let cn = branch(SyntaxKind::Content, d, r, ns);
                                lemma_all_within_one(el, a, b);
                                lemma_all_within_one(n, c, d);
                                lemma_all_within_one(cn, d, r);
                                lemma_all_within_widen(seq![el], a, b, a, c);
                                lemma_concat_within(seq![el], seq![n], a, c, d);
                                lemma_concat_within(seq![el] + seq![n], seq![cn], a, d, r);
                                lemma_all_within_widen(seq![el] + seq![n] + seq![cn], a, r, p, r);
                                assert(seq![el] + seq![n] + seq![cn] =~= seq![el, n, cn]);
                            }
                        }
                    }
                }
            }
        }
    }
}

/// Conditionals are located.
#[verifier::spinoff_prover]
#[verifier::rlimit(100)]
pub proof fn lemma_if_located(s: Seq<char>, p: int, set: SpecialSet)
    requires
        0 <= p <= s.len(),
        fits(s),
    ensures
        located(s, p, spec_if(s, p, set)),
        literals_fit(s) ==> !(spec_if(s, p, set) is Abort),
    decreases s.len() - p, 33int,
{
    lemma_kw_ws_bounds(s, p, seq!['i', 'f']);
    if let Some(a) = kw_ws(s, p, seq!['i', 'f']) {
        if fwd(s, p, a) {
            lemma_expr_located(s, a, set);
            if let PR::Done(c, q, _) = spec_expr(s, a, set) {
                lemma_padded_end_bounds(s, q, seq!['t', 'h', 'e', 'n']);
                if let Some(t) = padded_end(s, q, seq!['t', 'h', 'e', 'n']) {
                    if fwd(s, p, t) {
                        lemma_content_located(s, t, set);
                        if let PR::Done(ns1, u, _) = spec_content(s, t, set) {
                            lemma_padded_end_bounds(s, u, seq!['e', 'l', 's', 'e']);
                            if let Some(v) = padded_end(s, u, seq!['e', 'l', 's', 'e']) {
                                if fwd(s, p, v) {
                                    lemma_content_located(s, v, set);
                                    if let PR::Done(ns2, w, _) = spec_content(s, v, set) {
                                        let tn = branch(SyntaxKind::Content, t, u, ns1);
                                        let en = branch(SyntaxKind::Content, v, w, ns2);
                                        lemma_all_within_one(c, a, q);
                                        lemma_all_within_one(tn, t, u);
                                        lemma_all_within_one(en, v, w);
                                        lemma_all_within_widen(seq![tn], t, u, q, u);
                                        lemma_all_within_widen(seq![en], v, w, u, w);
                                        lemma_concat_within(seq![c], seq![tn], a, q, u);
                                        lemma_concat_within(seq![c] + seq![tn], seq![en], a, u, w);
                                        lemma_all_within_widen(
                                            seq![c] + seq![tn] + seq![en],
                                            a,
                                            w,
                                            p,
                                            w,
                                        );
                                        assert(seq![c] + seq![tn] + seq![en] =~= seq![c, tn, en]);
                                    }
                                }
                            }
                        }
                    }
                }
            }
        }
    }
}

/// Bindings are located.
#[verifier::spinoff_prover]
#[verifier::rlimit(40)]
pub proof fn lemma_let_located(s: Seq<char>, p: int, set: SpecialSet)
    requires
        0 <= p <= s.len(),
        fits(s),
    ensures
        located(s, p, spec_let(s, p, set)),
        literals_fit(s) ==> !(spec_let(s, p, set) is Abort),
    decreases s.len() - p, 32int,
{
    lemma_kw_ws_bounds(s, p, seq!['l', 'e', 't']);
    if let Some(a) = kw_ws(s, p, seq!['l', 'e', 't']) {
        if fwd(s, p, a) {
            lemma_binds_located(s, a, set);
            if let PR::Done(bs, q, _) = spec_binds(s, a, set) {
                lemma_all_within_widen(bs, a, q, p, q);
            }
        }
    }
}

/// Lists of bindings are located.
#[verifier::spinoff_prover]
#[verifier::rlimit(40)]
pub proof fn lemma_binds_located(s: Seq<char>, p: int, set: SpecialSet)
    requires
        0 <= p <= s.len(),
        fits(s),
    ensures
        all_located(s, p, spec_binds(s, p, set)),
        literals_fit(s) ==> !(spec_binds(s, p, set) is Abort),
    decreases s.len() - p, 42int,
{
    lemma_bind_located(s, p, set);
    if let PR::Done(b, q, _) = spec_bind(s, p, set) {
        if fwd(s, p, q) {
            lemma_binds_rest_located(s, q, set);
            if let PR::Done(bs, r, _) = spec_binds_rest(s, q, set) {
                lemma_cons_within(b, bs, p, q, r);
            }
        }
    }
}

/// Further bindings are located.
#[verifier::spinoff_prover]
#[verifier::rlimit(40)]
pub proof fn lemma_binds_rest_located(s: Seq<char>, p: int, set: SpecialSet)
    requires
        0 <= p <= s.len(),
        fits(s),
    ensures
        all_located(s, p, spec_binds_rest(s, p, set)),
        literals_fit(s) ==> !(spec_binds_rest(s, p, set) is Abort),
    decreases s.len() - p, 47int,
{
    if p < s.len() {
        lemma_bind_located(s, p + 1, set);
        if let PR::Done(b, q, _) = spec_bind(s, p + 1, set) {
            if fwd(s, p, q) {
                lemma_binds_rest_located(s, q, set);
                if let PR::Done(bs, r, _) = spec_binds_rest(s, q, set) {
                    lemma_cons_within(b, bs, p + 1, q, r);
                    lemma_all_within_widen(seq![b] + bs, p + 1, r, p, r);
                }
            }
        }
    }
}

/// Bindings are located.
#[verifier::spinoff_prover]
#[verifier::rlimit(40)]
pub proof fn lemma_bind_located(s: Seq<char>, p: int, set: SpecialSet)
    requires
        0 <= p <= s.len(),
        fits(s),
    ensures
        located(s, p, spec_bind(s, p, set)),
        literals_fit(s) ==> !(spec_bind(s, p, set) is Abort),
    decreases s.len() - p, 41int,
{
    lemma_ident_end_bounds(s, p);
    if let Some(q) = ident_end(s, p) {
        lemma_scan_end_bounds(s, q, CharClass::InlineWhitespace);
        let i1 = scan_end(s, q, CharClass::InlineWhitespace);
        if i1 < s.len() {
            lemma_scan_end_bounds(s, i1 + 1, CharClass::InlineWhitespace);
        }
        let i2 = scan_end(s, i1 + 1, CharClass::InlineWhitespace);
        if fwd(s, p, i2) && q <= i2 {
            lemma_bind_value_located(s, p, q, i2, set);
        }
    }
}

/// The value of a binding whose name ends at `q` and whose value starts at `i2` is
/// located.
#[verifier::spinoff_prover]
#[verifier::rlimit(40)]
pub proof fn lemma_bind_value_located(s: Seq<char>, p: int, q: int, i2: int, set: SpecialSet)
    requires
        0 <= p < q <= i2 <= s.len(),
        fits(s),
    ensures
        spec_expr(s, i2, set) matches PR::Done(v, r, _) ==> i2 <= r <= s.len() && within(
            branch(SyntaxKind::Bind, p, r, seq![leaf(s, SyntaxKind::Ident, p, q), v]),
            p,
            r,
        ),
        literals_fit(s) ==> !(spec_expr(s, i2, set) is Abort),
    decreases s.len() - p, 40int,
{
    lemma_expr_located(s, i2, set);
    if let PR::Done(v, r, _) = spec_expr(s, i2, set) {
        let id = leaf(s, SyntaxKind::Ident, p, q);
        lemma_all_within_one(id, p, q);
        lemma_all_within_one(v, i2, r);
        lemma_all_within_widen(seq![v], i2, r, q, r);
        lemma_cons_within(id, seq![v], p, q, r);
        assert(seq![id] + seq![v] =~= seq![id, v]);
    }
}

/// Whether nodes come in the order of their spans: each ends at or before the start
/// of every later one.
pub open spec fn in_span_order(cs: Seq<SNode>) -> bool {
    forall|i: int, j: int|
        0 <= i < j < cs.len() ==> snode_span(#[trigger] cs[i]).end <= snode_span(#[trigger] cs[j]).start
}

/// A conditional `if P then [T] else [E]` is a node with three children in the order
/// of the source: the expression `P` read after `if`, then the content of `T`, then
/// the content of `E`; each content spans its brackets.
#[verifier::spinoff_prover]
#[verifier::rlimit(60)]
pub proof fn lemma_if_children_in_order(s: Seq<char>, p: int, set: SpecialSet)
    requires
        0 <= p <= s.len(),
        fits(s),
    ensures
        spec_if(s, p, set) matches PR::Done(n, r, _) ==> {
            let cs = snode_children(n);
            &&& snode_kind(n) == SyntaxKind::If
            &&& cs.len() == 3
            &&& kw_ws(s, p, seq!['i', 'f']) matches Some(a) && spec_expr(s, a, set) matches PR::Done(
                c,
                _,
                _,
            ) && cs[0] == c
            &&& snode_kind(cs[1]) == SyntaxKind::Content
            &&& snode_kind(cs[2]) == SyntaxKind::Content
            &&& in_span_order(cs)
            &&& snode_span(cs[2]).end == r
        },
{
    lemma_kw_ws_bounds(s, p, seq!['i', 'f']);
    if let Some(a) = kw_ws(s, p, seq!['i', 'f']) {
        if fwd(s, p, a) {
            lemma_expr_located(s, a, set);
            if let PR::Done(c, q, _) = spec_expr(s, a, set) {
                lemma_padded_end_bounds(s, q, seq!['t', 'h', 'e', 'n']);
                if let Some(t) = padded_end(s, q, seq!['t', 'h', 'e', 'n']) {
                    if fwd(s, p, t) {
                        lemma_content_located(s, t, set);
                        if let PR::Done(ns1, u, _) = spec_content(s, t, set) {
                            lemma_padded_end_bounds(s, u, seq!['e', 'l', 's', 'e']);
                            if let Some(v) = padded_end(s, u, seq!['e', 'l', 's', 'e']) {
                                if fwd(s, p, v) {
                                    if let PR::Done(ns2, w, _) = spec_content(s, v, set) {
                                        let cs = seq![
                                            c,
                                            branch(SyntaxKind::Content, t, u, ns1),
                                            branch(SyntaxKind::Content, v, w, ns2),
                                        ];
                                        assert(within(c, a, q));
                                        assert(snode_span(c).end <= q);
                                        assert(q < t && t <= u && u < v);
                                        assert(snode_span(cs[0]).end <= snode_span(cs[1]).start);
                                        assert(snode_span(cs[1]).end <= snode_span(cs[2]).start);
                                        assert forall|i: int, j: int|
                                            0 <= i < j < cs.len() implies snode_span(
                                            #[trigger] cs[i],
                                        ).end <= snode_span(#[trigger] cs[j]).start by {
                                            if i == 0 && j == 2 {
                                                assert(snode_span(cs[0]).end <= snode_span(cs[1]).start);
                                            }
                                        }
                                    }
                                }
                            }
                        }
                    }
                }
            }
        }
    }
}

/// A loop `for x in xs[C]` is a node with three children in the order of the
/// source: the identifier `x`, the expression `xs` it runs over, and the content `C`,
/// which ends the loop.
#[verifier::spinoff_prover]
#[verifier::rlimit(60)]
pub proof fn lemma_for_children_in_order(s: Seq<char>, p: int, set: SpecialSet)
    requires
        0 <= p <= s.len(),
        fits(s),
    ensures
        spec_for(s, p, set) matches PR::Done(n, r, _) ==> {
            let cs = snode_children(n);
            &&& snode_kind(n) == SyntaxKind::For
            &&& cs.len() == 3
            &&& snode_kind(cs[0]) == SyntaxKind::Ident
            &&& (kw_ws(s, p, seq!['f', 'o', 'r']) matches Some(a) && ident_end(s, a) matches Some(b)
                && snode_span(cs[0]) == sp(a, b) && snode_text(cs[0]) == s.subrange(a, b))
            &&& snode_kind(cs[2]) == SyntaxKind::Content
            &&& in_span_order(cs)
            &&& snode_span(cs[2]).end == r
        },
{
    lemma_kw_ws_bounds(s, p, seq!['f', 'o', 'r']);
    if let Some(a) = kw_ws(s, p, seq!['f', 'o', 'r']) {
        lemma_ident_end_bounds(s, a);
        if let Some(b) = ident_end(s, a) {
            lemma_blank_kw_ws_bounds(s, b, seq!['i', 'n']);
            if let Some(c) = blank_kw_ws(s, b, seq!['i', 'n']) {
                if fwd(s, p, c) {
                    lemma_ident_expr_located(s, c);
                    lemma_call_located(s, c, set);
                    let inside = crate::parser::grammar::alt(spec_ident_expr(s, c), spec_call(s, c, set));
                    if let PR::Done(m, d, _) = inside {
                        if fwd(s, p, d) {
                            lemma_content_located(s, d, set);
                            if let PR::Done(ns, r, _) = spec_content(s, d, set) {
                                let cs = seq![
                                    leaf(s, SyntaxKind::Ident, a, b),
                                    m,
                                    branch(SyntaxKind::Content, d, r, ns),
                                ];
                                assert(within(m, c, d));
                                assert(snode_span(cs[0]).end <= snode_span(cs[1]).start);
                                assert(snode_span(cs[1]).end <= snode_span(cs[2]).start);
                                assert forall|i: int, j: int|
                                    0 <= i < j < cs.len() implies snode_span(#[trigger] cs[i]).end
                                    <= snode_span(#[trigger] cs[j]).start by {}
                            }
                        }
                    }
                }
            }
        }
    }
}

/// Whether a character is one that a backslash escapes: blank, backslash, line
/// feed, `"`, `{`, `}`, `[`, `]`, `/`, `*`, `~`, `_`, `^`, `@`, `#`, `` ` ``, `$`,
/// `%` and `|`.
pub open spec fn escapable(c: char) -> bool {
    c == ' ' || c == '\\' || c == '\n' || c == '"' || c == '{' || c == '}' || c == '[' || c == ']'
        || c == '/' || c == '*' || c == '~' || c == '_' || c == '^' || c == '@' || c == '#' || c
        == '`' || c == '$' || c == '%' || c == '|'
}

/// A backslash before an escapable character is an escape node holding that
/// character as a word, with no error; before any other character it is an error
/// node over both, with one invalid-escape error.
pub proof fn lemma_escape_holds_the_character(s: Seq<char>, p: int)
    requires
        0 <= p,
        p + 1 < s.len(),
        s[p] == '\\',
    ensures
        spec_escape(s, p) matches PR::Done(n, q, e) && q == p + 2 && (if escapable(s[p + 1]) {
            &&& snode_kind(n) == SyntaxKind::Escape
            &&& snode_children(n).len() == 1
            &&& snode_kind(snode_children(n)[0]) == SyntaxKind::Word
            &&& snode_text(snode_children(n)[0]) == seq![s[p + 1]]
            &&& e.len() == 0
        } else {
            &&& n is Error
            &&& snode_span(n) == sp(p, p + 2)
            &&& e == seq![ParseError { span: sp(p, p + 2), kind: ParseErrorKind::InvalidEscape }]
        }),
{
    assert(s.subrange(p + 1, p + 2) =~= seq![s[p + 1]]);
}

} // verus!
