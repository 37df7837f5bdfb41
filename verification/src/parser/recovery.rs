//! Recovery leaves its marks in the tree: every error that a parser of inline
//! markup recovers from, an unclosed delimiter or an invalid escape, is an error
//! node of the tree at the same span, and every error node of the tree is such an
//! error, in the same order.
use crate::kind::SyntaxKind;
use crate::node::{SNode, Span};
use crate::parser::grammar::{
    alt, blank_kw_ws, fwd, kw_ws, spec_arg, spec_arg_unnamed, spec_arglist, spec_arglist_rest, spec_args,
    spec_bind, spec_binds, spec_binds_rest, spec_call, spec_code, spec_content,
    spec_content_expr, spec_content_nested, spec_delimited, spec_expr, spec_for, spec_ident_expr,
    spec_if, spec_inline, spec_inlines, spec_inlines1, spec_let, spec_link, spec_script,
    spec_text, spec_text_rest, spec_wrapped,
};
use crate::parser::literal::spec_literal;
use crate::parser::result::{branch, leaf, ParseError, ParseErrorKind, PR};
use crate::parser::token::{
    spec_comment, spec_escape, spec_recovery, spec_ref, spec_spacing, spec_verbatim, spec_word,
};
use crate::scan::{
    ident_end, level_end, newline_end, padded_end, scan_end, CharClass, SpecialSet,
};
use vstd::prelude::*;

verus! {

/// The spans of the error nodes of a tree, from left to right.
pub open spec fn error_spans(n: SNode) -> Seq<Span>
    decreases n,
{
    match n {
        SNode::Branch(_, _, cs) => all_error_spans(cs),
        SNode::Leaf(_, _, _) => Seq::empty(),
        SNode::Error(sp, _) => seq![sp],
    }
}

/// The spans of the error nodes of a sequence of trees, from left to right.
pub open spec fn all_error_spans(cs: Seq<SNode>) -> Seq<Span>
    decreases cs,
{
    if cs.len() == 0 {
        Seq::empty()
    } else {
        all_error_spans(cs.drop_last()) + error_spans(cs.last())
    }
}

/// Whether an error is one that a parser recovers from.
pub open spec fn is_recovered(e: ParseError) -> bool {
    e.kind is Unclosed || e.kind is InvalidEscape
}

/// The spans of the errors recovered from, in order.
pub open spec fn recovered(e: Seq<ParseError>) -> Seq<Span>
    decreases e.len(),
{
    if e.len() == 0 {
        Seq::empty()
    } else {
        recovered(e.drop_last()) + if is_recovered(e.last()) {
            seq![e.last().span]
        } else {
            Seq::empty()
        }
    }
}

/// A successful outcome of a parser of one node recovered exactly from the errors
/// its node marks.
pub open spec fn marked(r: PR<SNode>) -> bool {
    r matches PR::Done(n, _, e) ==> recovered(e) == error_spans(n)
}

/// A successful outcome of a parser of a sequence of nodes recovered exactly from
/// the errors its nodes mark.
pub open spec fn all_marked(r: PR<Seq<SNode>>) -> bool {
    r matches PR::Done(ns, _, e) ==> recovered(e) == all_error_spans(ns)
}

/// The errors recovered from in two runs are those of each, in order.
pub proof fn lemma_recovered_add(a: Seq<ParseError>, b: Seq<ParseError>)
    ensures
        recovered(a + b) == recovered(a) + recovered(b),
    decreases b.len(),
{
    if b.len() == 0 {
        assert(a + b =~= a);
        assert(recovered(a) + recovered(b) =~= recovered(a));
    } else {
        assert((a + b).drop_last() =~= a + b.drop_last());
        assert((a + b).last() == b.last());
        lemma_recovered_add(a, b.drop_last());
        let t = if is_recovered(b.last()) {
            seq![b.last().span]
        } else {
            Seq::<Span>::empty()
        };
        assert(recovered(a) + recovered(b.drop_last()) + t =~= recovered(a) + (recovered(
            b.drop_last(),
        ) + t));
    }
}

/// The error nodes of two sequences are those of each, in order.
pub proof fn lemma_error_spans_add(x: Seq<SNode>, y: Seq<SNode>)
    ensures
        all_error_spans(x + y) == all_error_spans(x) + all_error_spans(y),
    decreases y.len(),
{
    if y.len() == 0 {
        assert(x + y =~= x);
        assert(all_error_spans(x) + all_error_spans(y) =~= all_error_spans(x));
    } else {
        assert((x + y).drop_last() =~= x + y.drop_last());
        assert((x + y).last() == y.last());
        lemma_error_spans_add(x, y.drop_last());
        assert(all_error_spans(x) + all_error_spans(y.drop_last()) + error_spans(y.last())
            =~= all_error_spans(x) + (all_error_spans(y.drop_last()) + error_spans(y.last())));
    }
}

/// The error nodes of a sequence of one tree are those of the tree.
pub proof fn lemma_error_spans_one(n: SNode)
    ensures
        all_error_spans(seq![n]) == error_spans(n),
{
    assert(seq![n].drop_last() =~= Seq::<SNode>::empty());
    assert(seq![n].last() == n);
    assert(all_error_spans(Seq::<SNode>::empty()) =~= Seq::<Span>::empty());
    assert(Seq::<Span>::empty() + error_spans(n) =~= error_spans(n));
}

/// A node before a sequence marks the errors of both.
#[verifier::spinoff_prover]
#[verifier::rlimit(40)]
pub proof fn lemma_cons_marked(n: SNode, ns: Seq<SNode>, e: Seq<ParseError>, e2: Seq<ParseError>)
    requires
        recovered(e) == error_spans(n),
        recovered(e2) == all_error_spans(ns),
    ensures
        recovered(e + e2) == all_error_spans(seq![n] + ns),
{
    lemma_recovered_add(e, e2);
    lemma_error_spans_add(seq![n], ns);
    lemma_error_spans_one(n);
}

/// Two sequences one after the other mark the errors of both.
#[verifier::spinoff_prover]
#[verifier::rlimit(40)]
pub proof fn lemma_concat_marked(
    ns: Seq<SNode>,
    ms: Seq<SNode>,
    e: Seq<ParseError>,
    e2: Seq<ParseError>,
)
    requires
        recovered(e) == all_error_spans(ns),
        recovered(e2) == all_error_spans(ms),
    ensures
        recovered(e + e2) == all_error_spans(ns + ms),
{
    lemma_recovered_add(e, e2);
    lemma_error_spans_add(ns, ms);
}

/// Two nodes mark the errors of both.
#[verifier::spinoff_prover]
#[verifier::rlimit(40)]
pub proof fn lemma_pair_marked(a: SNode, b: SNode, e: Seq<ParseError>, e2: Seq<ParseError>)
    requires
        recovered(e) == error_spans(a),
        recovered(e2) == error_spans(b),
    ensures
        recovered(e + e2) == all_error_spans(seq![a, b]),
{
    lemma_error_spans_one(b);
    lemma_cons_marked(a, seq![b], e, e2);
    assert(seq![a] + seq![b] =~= seq![a, b]);
}

/// A leaf marks no error.
#[verifier::spinoff_prover]
#[verifier::rlimit(40)]
pub proof fn lemma_leaf_unmarked(s: Seq<char>, k: SyntaxKind, a: int, b: int)
    ensures
        error_spans(leaf(s, k, a, b)) == Seq::<Span>::empty(),
        all_error_spans(seq![leaf(s, k, a, b)]) == Seq::<Span>::empty(),
{
    lemma_error_spans_one(leaf(s, k, a, b));
}

/// The parsers of tokens mark what they recover from.
#[verifier::spinoff_prover]
#[verifier::rlimit(40)]
pub proof fn lemma_tokens_marked(s: Seq<char>, p: int, set: SpecialSet, d: char)
    ensures
        marked(spec_ref(s, p)),
        marked(spec_verbatim(s, p, d)),
        marked(spec_escape(s, p)),
        marked(spec_spacing(s, p)),
        marked(spec_comment(s, p)),
        marked(spec_word(s, p, set)),
        marked(spec_recovery(s, p, d)),
        marked(spec_literal(s, p)),
        marked(spec_ident_expr(s, p)),
{
    reveal(spec_literal);
    lemma_leaf_unmarked(s, SyntaxKind::Ident, p + 1, ident_end(s, p + 1).unwrap_or(0));
    lemma_leaf_unmarked(s, SyntaxKind::Word, p + 1, p + 2);
    lemma_leaf_unmarked(s, SyntaxKind::Text, p + 1, scan_end(s, p + 1, CharClass::Line));
    let one = seq![ParseError { span: crate::parser::result::sp(p, p + 2), kind: ParseErrorKind::InvalidEscape }];
    assert(one.drop_last() =~= Seq::<ParseError>::empty());
    assert(recovered(Seq::<ParseError>::empty()) == Seq::<Span>::empty());
    assert(Seq::<Span>::empty() + seq![one[0].span] =~= seq![one[0].span]);
    assert(recovered(one) == seq![one[0].span]);
    let e = scan_end(s, p + 1, CharClass::Recovery);
    let two = seq![ParseError { span: crate::parser::result::sp(p, e), kind: ParseErrorKind::Unclosed(d) }];
    assert(two.drop_last() =~= Seq::<ParseError>::empty());
    assert(Seq::<Span>::empty() + seq![two[0].span] =~= seq![two[0].span]);
    assert(recovered(two) == seq![two[0].span]);
}

/// Zero or more inline elements mark what they recover from.
#[verifier::spinoff_prover]
#[verifier::rlimit(40)]
pub proof fn lemma_inlines_marked(s: Seq<char>, p: int, set: SpecialSet)
    requires
        p <= s.len(),
    ensures
        all_marked(spec_inlines(s, p, set)),
    decreases s.len() - p, 56int,
{
    lemma_inline_marked(s, p, set);
    match spec_inline(s, p, set) {
        PR::Done(n, q, e) => if fwd(s, p, q) {
            lemma_inlines_marked(s, q, set);
            if let PR::Done(ns, r, e2) = spec_inlines(s, q, set) {
                lemma_cons_marked(n, ns, e, e2);
            }
        },
        _ => {},
    }
}

/// One or more inline elements mark what they recover from.
#[verifier::spinoff_prover]
#[verifier::rlimit(40)]
pub proof fn lemma_inlines1_marked(s: Seq<char>, p: int, set: SpecialSet)
    requires
        p <= s.len(),
    ensures
        all_marked(spec_inlines1(s, p, set)),
    decreases s.len() - p, 57int,
{
    lemma_inline_marked(s, p, set);
    match spec_inline(s, p, set) {
        PR::Done(n, q, e) => if fwd(s, p, q) {
            lemma_inlines_marked(s, q, set);
            if let PR::Done(ns, r, e2) = spec_inlines(s, q, set) {
                lemma_cons_marked(n, ns, e, e2);
            }
        },
        _ => {},
    }
}

/// Inline elements mark what they recover from.
#[verifier::spinoff_prover]
#[verifier::rlimit(40)]
pub proof fn lemma_inline_marked(s: Seq<char>, p: int, set: SpecialSet)
    requires
        p <= s.len(),
    ensures
        marked(spec_inline(s, p, set)),
    decreases s.len() - p, 55int,
{
    if p < s.len() {
        let c = s[p];
        lemma_code_marked(s, p, set);
        lemma_delimited_marked(s, p, set, c, SyntaxKind::Quote);
        lemma_delimited_marked(s, p, set, c, SyntaxKind::Strikeout);
        lemma_delimited_marked(s, p, set, c, SyntaxKind::Strong);
        lemma_delimited_marked(s, p, set, c, SyntaxKind::Emphasis);
        lemma_script_marked(s, p, set, c, SyntaxKind::Subscript);
        lemma_script_marked(s, p, set, c, SyntaxKind::Supscript);
        lemma_link_marked(s, p, set);
        lemma_tokens_marked(s, p, set, c);
    }
}

/// Code marks what it recovers from.
#[verifier::spinoff_prover]
#[verifier::rlimit(40)]
pub proof fn lemma_code_marked(s: Seq<char>, p: int, set: SpecialSet)
    requires
        p <= s.len(),
    ensures
        marked(spec_code(s, p, set)),
    decreases s.len() - p, 54int,
{
    if p < s.len() {
        lemma_expr_marked(s, p + 1, set);
        if let PR::Done(n, q, _) = spec_expr(s, p + 1, set) {
            lemma_error_spans_one(n);
        }
    }
}

/// Delimited markup marks what it recovers from.
#[verifier::spinoff_prover]
#[verifier::rlimit(40)]
pub proof fn lemma_delimited_marked(s: Seq<char>, p: int, set: SpecialSet, d: char, kind: SyntaxKind)
    requires
        p <= s.len(),
    ensures
        marked(spec_delimited(s, p, set, d, kind)),
    decreases s.len() - p, 53int,
{
    lemma_tokens_marked(s, p, set, d);
    if p < s.len() {
        lemma_inlines_marked(s, p + 1, set);
    }
}

/// Subscripts and superscripts mark what they recover from.
#[verifier::spinoff_prover]
#[verifier::rlimit(40)]
pub proof fn lemma_script_marked(s: Seq<char>, p: int, set: SpecialSet, d: char, kind: SyntaxKind)
    requires
        p <= s.len(),
    ensures
        marked(spec_script(s, p, set, d, kind)),
    decreases s.len() - p, 52int,
{
    if p < s.len() {
        lemma_content_marked(s, p + 1, set);
        lemma_leaf_unmarked(s, SyntaxKind::Word, p + 1, p + 2);
    }
}

/// Links mark what they recover from.
#[verifier::spinoff_prover]
#[verifier::rlimit(40)]
pub proof fn lemma_link_marked(s: Seq<char>, p: int, set: SpecialSet)
    requires
        p <= s.len(),
    ensures
        marked(spec_link(s, p, set)),
    decreases s.len() - p, 51int,
{
    let e = scan_end(s, p + 1, CharClass::Href);
    let href = crate::parser::result::leaf_in(s, SyntaxKind::Text, p, e + 1, p + 1, e);
    lemma_error_spans_one(href);
    if p < s.len() && 0 <= e < s.len() && e > p {
        lemma_content_marked(s, e + 1, set);
        if let PR::Done(ns, q, er) = spec_content(s, e + 1, set) {
            let c = branch(SyntaxKind::Content, e + 1, q, ns);
            lemma_pair_marked(href, c, Seq::empty(), er);
            assert(Seq::<ParseError>::empty() + er =~= er);
        }
    }
}

/// Bracketed content marks what it recovers from.
#[verifier::spinoff_prover]
#[verifier::rlimit(40)]
pub proof fn lemma_content_marked(s: Seq<char>, p: int, set: SpecialSet)
    requires
        p <= s.len(),
    ensures
        all_marked(spec_content(s, p, set)),
    decreases s.len() - p, 30int,
{
    if p < s.len() {
        lemma_inlines_marked(s, p + 1, set);
        lemma_content_nested_marked(s, p, set);
    }
}

/// Bracketed content over several lines marks what it recovers from.
#[verifier::spinoff_prover]
#[verifier::rlimit(40)]
pub proof fn lemma_content_nested_marked(s: Seq<char>, p: int, set: SpecialSet)
    requires
        p < s.len(),
    ensures
        all_marked(spec_content_nested(s, p, set)),
    decreases s.len() - p, 28int,
{
    if let Some(q1) = newline_end(s, p + 1) {
        if let Some(q2) = level_end(s, q1, 1) {
            if fwd(s, p, q2) {
                lemma_text_marked(s, q2, 1, set);
            }
        }
    }
}

/// Text marks what it recovers from.
#[verifier::spinoff_prover]
#[verifier::rlimit(40)]
pub proof fn lemma_text_marked(s: Seq<char>, p: int, ind: nat, set: SpecialSet)
    requires
        p <= s.len(),
    ensures
        all_marked(spec_text(s, p, ind, set)),
    decreases s.len() - p, 60int,
{
    lemma_wrapped_marked(s, p, ind, set);
    if let PR::Done(ns, q, e) = spec_wrapped(s, p, ind, set) {
        if fwd(s, p, q) {
            lemma_text_rest_marked(s, q, ind, set);
            if let PR::Done(ms, r, e2) = spec_text_rest(s, q, ind, set) {
                lemma_concat_marked(ns, ms, e, e2);
            }
        }
    }
}

/// A line with the nested text after it marks what it recovers from.
#[verifier::spinoff_prover]
#[verifier::rlimit(60)]
pub proof fn lemma_wrapped_marked(s: Seq<char>, p: int, ind: nat, set: SpecialSet)
    requires
        p <= s.len(),
    ensures
        all_marked(spec_wrapped(s, p, ind, set)),
    decreases s.len() - p, 59int,
{
    lemma_inlines1_marked(s, p, set);
    if let PR::Done(ns, q, e) = spec_inlines1(s, p, set) {
        if let Some(q1) = newline_end(s, q) {
            if let Some(q2) = level_end(s, q1, ind + 1) {
                if fwd(s, p, q2) {
                    lemma_text_marked(s, q2, ind + 1, set);
                    if let PR::Done(ms, r, e2) = spec_text(s, q2, ind + 1, set) {
                        let sb = leaf(s, SyntaxKind::SoftBreak, q, q1);
                        lemma_leaf_unmarked(s, SyntaxKind::SoftBreak, q, q1);
                        lemma_error_spans_add(ns, seq![sb]);
                        assert(all_error_spans(ns) + Seq::<Span>::empty() =~= all_error_spans(ns));
                        lemma_concat_marked(ns + seq![sb], ms, e, e2);
                    }
                }
            }
        }
    }
}

/// Further lines of text mark what they recover from.
#[verifier::spinoff_prover]
#[verifier::rlimit(40)]
pub proof fn lemma_text_rest_marked(s: Seq<char>, p: int, ind: nat, set: SpecialSet)
    requires
        p <= s.len(),
    ensures
        all_marked(spec_text_rest(s, p, ind, set)),
    decreases s.len() - p, 58int,
{
    if let Some(q1) = newline_end(s, p) {
        if let Some(q2) = level_end(s, q1, ind) {
            if fwd(s, p, q2) {
                lemma_wrapped_marked(s, q2, ind, set);
                if let PR::Done(ns, q3, e) = spec_wrapped(s, q2, ind, set) {
                    if fwd(s, p, q3) {
                        lemma_text_rest_marked(s, q3, ind, set);
                        if let PR::Done(ms, r, e2) = spec_text_rest(s, q3, ind, set) {
                            let sb = leaf(s, SyntaxKind::SoftBreak, p, q1);
                            lemma_leaf_unmarked(s, SyntaxKind::SoftBreak, p, q1);
                            lemma_error_spans_add(seq![sb], ns);
                            assert(Seq::<Span>::empty() + all_error_spans(ns) =~= all_error_spans(
                                ns,
                            ));
                            lemma_concat_marked(seq![sb] + ns, ms, e, e2);
                        }
                    }
                }
            }
        }
    }
}

/// Expressions mark what they recover from.
#[verifier::spinoff_prover]
#[verifier::rlimit(40)]
pub proof fn lemma_expr_marked(s: Seq<char>, p: int, set: SpecialSet)
    requires
        p <= s.len(),
    ensures
        marked(spec_expr(s, p, set)),
    decreases s.len() - p, 40int,
{
    lemma_tokens_marked(s, p, set, ' ');
    lemma_for_marked(s, p, set);
    lemma_if_marked(s, p, set);
    lemma_let_marked(s, p, set);
    lemma_call_marked(s, p, set);
    lemma_content_expr_marked(s, p, set);
}

/// Content as an expression marks what it recovers from.
#[verifier::spinoff_prover]
#[verifier::rlimit(40)]
pub proof fn lemma_content_expr_marked(s: Seq<char>, p: int, set: SpecialSet)
    requires
        p <= s.len(),
    ensures
        marked(spec_content_expr(s, p, set)),
    decreases s.len() - p, 31int,
{
    lemma_content_marked(s, p, set);
}

/// Calls mark what they recover from.
#[verifier::spinoff_prover]
#[verifier::rlimit(40)]
pub proof fn lemma_call_marked(s: Seq<char>, p: int, set: SpecialSet)
    requires
        p <= s.len(),
    ensures
        marked(spec_call(s, p, set)),
    decreases s.len() - p, 35int,
{
    if let Some(q) = ident_end(s, p) {
        if fwd(s, p, q) {
            lemma_args_marked(s, q, set);
            if let PR::Done(a, r, e) = spec_args(s, q, set) {
                let id = leaf(s, SyntaxKind::CallIdent, p, q);
                lemma_leaf_unmarked(s, SyntaxKind::CallIdent, p, q);
                lemma_pair_marked(id, a, Seq::empty(), e);
                assert(Seq::<ParseError>::empty() + e =~= e);
            }
        }
    }
}

/// Arguments mark what they recover from.
#[verifier::spinoff_prover]
#[verifier::rlimit(40)]
pub proof fn lemma_args_marked(s: Seq<char>, p: int, set: SpecialSet)
    requires
        p <= s.len(),
    ensures
        marked(spec_args(s, p, set)),
    decreases s.len() - p, 29int,
{
    let a = scan_end(s, p + 1, CharClass::Whitespace);
    if fwd(s, p, a) {
        lemma_arglist_marked(s, a, set);
        if let PR::Done(items, q, e) = spec_arglist(s, a, set) {
            let b = scan_end(s, q, CharClass::Whitespace);
            if fwd(s, p, b + 1) {
                lemma_content_marked(s, b + 1, set);
                if let PR::Done(ns, r, e2) = spec_content(s, b + 1, set) {
                    let c = branch(SyntaxKind::Content, b + 1, r, ns);
                    lemma_error_spans_one(c);
                    lemma_concat_marked(items, seq![c], e, e2);
                }
            }
        }
    }
}

/// Argument lists mark what they recover from.
#[verifier::spinoff_prover]
#[verifier::rlimit(40)]
pub proof fn lemma_arglist_marked(s: Seq<char>, p: int, set: SpecialSet)
    requires
        p <= s.len(),
    ensures
        all_marked(spec_arglist(s, p, set)),
    decreases s.len() - p, 45int,
{
    lemma_arg_marked(s, p, set);
    if let PR::Done(a, q, e) = spec_arg(s, p, set) {
        if fwd(s, p, q) {
            lemma_arglist_rest_marked(s, q, set);
            if let PR::Done(rest, r, e2) = spec_arglist_rest(s, q, set) {
                lemma_cons_marked(a, rest, e, e2);
            }
        }
    }
}

/// Further arguments mark what they recover from.
#[verifier::spinoff_prover]
#[verifier::rlimit(40)]
pub proof fn lemma_arglist_rest_marked(s: Seq<char>, p: int, set: SpecialSet)
    requires
        p <= s.len(),
    ensures
        all_marked(spec_arglist_rest(s, p, set)),
    decreases s.len() - p, 46int,
{
    if let Some(q) = padded_end(s, p, seq![',']) {
        if fwd(s, p, q) {
            lemma_arg_marked(s, q, set);
            if let PR::Done(a, r, e) = spec_arg(s, q, set) {
                if fwd(s, q, r) {
                    lemma_arglist_rest_marked(s, r, set);
                    if let PR::Done(rest, t, e2) = spec_arglist_rest(s, r, set) {
                        lemma_cons_marked(a, rest, e, e2);
                    }
                }
            }
        }
    }
}

/// Arguments mark what they recover from.
#[verifier::spinoff_prover]
#[verifier::rlimit(100)]
pub proof fn lemma_arg_marked(s: Seq<char>, p: int, set: SpecialSet)
    requires
        p <= s.len(),
    ensures
        marked(spec_arg(s, p, set)),
    decreases s.len() - p, 44int,
{
    lemma_arg_unnamed_marked(s, p, set);
    if 0 <= p {
        crate::scan::lemma_ident_end_bounds(s, p);
    }
    if let Some(q) = ident_end(s, p) {
        if crate::scan::spec_at2(s, q, ':', ' ') && fwd(s, p, q + 2) {
            lemma_arg_named_marked(s, p, q, set);
        } else {
            assert(spec_arg(s, p, set) == spec_arg_unnamed(s, p, set));
        }
    } else {
        assert(spec_arg(s, p, set) == spec_arg_unnamed(s, p, set));
    }
}

/// Arguments with a name, which ends at `q`, mark what they recover from.
#[verifier::spinoff_prover]
#[verifier::rlimit(40)]
pub proof fn lemma_arg_named_marked(s: Seq<char>, p: int, q: int, set: SpecialSet)
    requires
        0 <= p < q,
        q + 2 <= s.len(),
    ensures
        spec_expr(s, q + 2, set) matches PR::Done(v, _, e) ==> recovered(e) == all_error_spans(
            seq![leaf(s, SyntaxKind::ArgIdent, p, q), v],
        ),
    decreases s.len() - p, 43int,
{
    lemma_expr_marked(s, q + 2, set);
    if let PR::Done(v, r, e) = spec_expr(s, q + 2, set) {
        let id = leaf(s, SyntaxKind::ArgIdent, p, q);
        lemma_leaf_unmarked(s, SyntaxKind::ArgIdent, p, q);
        lemma_pair_marked(id, v, Seq::empty(), e);
        assert(Seq::<ParseError>::empty() + e =~= e);
    }
}

/// Arguments without a name mark what they recover from.
#[verifier::spinoff_prover]
#[verifier::rlimit(40)]
pub proof fn lemma_arg_unnamed_marked(s: Seq<char>, p: int, set: SpecialSet)
    requires
        p <= s.len(),
    ensures
        marked(spec_arg_unnamed(s, p, set)),
    decreases s.len() - p, 43int,
{
    lemma_expr_marked(s, p, set);
    if let PR::Done(v, r, _) = spec_expr(s, p, set) {
        lemma_error_spans_one(v);
    }
}

/// Loops mark what they recover from.
#[verifier::spinoff_prover]
#[verifier::rlimit(60)]
pub proof fn lemma_for_marked(s: Seq<char>, p: int, set: SpecialSet)
    requires
        p <= s.len(),
    ensures
        marked(spec_for(s, p, set)),
    decreases s.len() - p, 34int,
{
    if let Some(a) = kw_ws(s, p, seq!['f', 'o', 'r']) {
        if let Some(b) = ident_end(s, a) {
            if let Some(c) = blank_kw_ws(s, b, seq!['i', 'n']) {
                if fwd(s, p, c) {
                    lemma_tokens_marked(s, c, set, ' ');
                    lemma_call_marked(s, c, set);
                    let inside = alt(spec_ident_expr(s, c), spec_call(s, c, set));
                    if let PR::Done(n, d, e1) = inside {
                        if fwd(s, p, d) {
                            lemma_content_marked(s, d, set);
                            if let PR::Done(ns, r, e2) = spec_content(s, d, set) {
                                let el = leaf(s, SyntaxKind::Ident, a, b);
                                let cn = branch(SyntaxKind::Content, d, r, ns);
                                lemma_leaf_unmarked(s, SyntaxKind::Ident, a, b);
                                lemma_error_spans_one(n);
                                lemma_error_spans_one(cn);
                                lemma_concat_marked(seq![el], seq![n], Seq::empty(), e1);
                                lemma_concat_marked(seq![el] + seq![n], seq![cn], Seq::empty() + e1, e2);
                                assert(seq![el] + seq![n] + seq![cn] =~= seq![el, n, cn]);
                                assert(Seq::<ParseError>::empty() + e1 =~= e1);
                            }
                        }
                    }
                }
            }
        }
    }
}

/// Conditionals mark what they recover from.
#[verifier::spinoff_prover]
#[verifier::rlimit(100)]
pub proof fn lemma_if_marked(s: Seq<char>, p: int, set: SpecialSet)
    requires
        p <= s.len(),
    ensures
        marked(spec_if(s, p, set)),
    decreases s.len() - p, 33int,
{
    if let Some(a) = kw_ws(s, p, seq!['i', 'f']) {
        if fwd(s, p, a) {
            lemma_expr_marked(s, a, set);
            if let PR::Done(c, q, e1) = spec_expr(s, a, set) {
                if let Some(t) = padded_end(s, q, seq!['t', 'h', 'e', 'n']) {
                    if fwd(s, p, t) {
                        lemma_content_marked(s, t, set);
                        if let PR::Done(ns1, u, e2) = spec_content(s, t, set) {
                            if let Some(v) = padded_end(s, u, seq!['e', 'l', 's', 'e']) {
                                if fwd(s, p, v) {
                                    lemma_content_marked(s, v, set);
                                    if let PR::Done(ns2, w, e3) = spec_content(s, v, set) {
                                        let tn = branch(SyntaxKind::Content, t, u, ns1);
                                        let en = branch(SyntaxKind::Content, v, w, ns2);
                                        lemma_error_spans_one(c);
                                        lemma_error_spans_one(tn);
                                        lemma_error_spans_one(en);
                                        lemma_concat_marked(seq![c], seq![tn], e1, e2);
                                        lemma_concat_marked(seq![c] + seq![tn], seq![en], e1 + e2, e3);
                                        assert(seq![c] + seq![tn] + seq![en] =~= seq![c, tn, en]);
                                    }
                                }
                            }
                        }
                    }
                }
            }
        }
    }
}

/// Bindings mark what they recover from.
#[verifier::spinoff_prover]
#[verifier::rlimit(40)]
pub proof fn lemma_let_marked(s: Seq<char>, p: int, set: SpecialSet)
    requires
        p <= s.len(),
    ensures
        marked(spec_let(s, p, set)),
    decreases s.len() - p, 32int,
{
    if let Some(a) = kw_ws(s, p, seq!['l', 'e', 't']) {
        if fwd(s, p, a) {
            lemma_binds_marked(s, a, set);
        }
    }
}

/// Lists of bindings mark what they recover from.
#[verifier::spinoff_prover]
#[verifier::rlimit(40)]
pub proof fn lemma_binds_marked(s: Seq<char>, p: int, set: SpecialSet)
    requires
        p <= s.len(),
    ensures
        all_marked(spec_binds(s, p, set)),
    decreases s.len() - p, 42int,
{
    lemma_bind_marked(s, p, set);
    if let PR::Done(b, q, e) = spec_bind(s, p, set) {
        if fwd(s, p, q) {
            lemma_binds_rest_marked(s, q, set);
            if let PR::Done(bs, r, e2) = spec_binds_rest(s, q, set) {
                lemma_cons_marked(b, bs, e, e2);
            }
        }
    }
}

/// Further bindings mark what they recover from.
#[verifier::spinoff_prover]
#[verifier::rlimit(40)]
pub proof fn lemma_binds_rest_marked(s: Seq<char>, p: int, set: SpecialSet)
    requires
        p <= s.len(),
    ensures
        all_marked(spec_binds_rest(s, p, set)),
    decreases s.len() - p, 47int,
{
    if p < s.len() {
        lemma_bind_marked(s, p + 1, set);
        if let PR::Done(b, q, e) = spec_bind(s, p + 1, set) {
            if fwd(s, p, q) {
                lemma_binds_rest_marked(s, q, set);
                if let PR::Done(bs, r, e2) = spec_binds_rest(s, q, set) {
                    lemma_cons_marked(b, bs, e, e2);
                }
            }
        }
    }
}

/// Bindings mark what they recover from.
#[verifier::spinoff_prover]
#[verifier::rlimit(40)]
pub proof fn lemma_bind_marked(s: Seq<char>, p: int, set: SpecialSet)
    requires
        p <= s.len(),
    ensures
        marked(spec_bind(s, p, set)),
    decreases s.len() - p, 41int,
{
    if let Some(q) = ident_end(s, p) {
        let i1 = scan_end(s, q, CharClass::InlineWhitespace);
        let i2 = scan_end(s, i1 + 1, CharClass::InlineWhitespace);
        if fwd(s, p, i2) {
            lemma_expr_marked(s, i2, set);
            if let PR::Done(v, r, e) = spec_expr(s, i2, set) {
                let id = leaf(s, SyntaxKind::Ident, p, q);
                lemma_leaf_unmarked(s, SyntaxKind::Ident, p, q);
                lemma_pair_marked(id, v, Seq::empty(), e);
                assert(Seq::<ParseError>::empty() + e =~= e);
            }
        }
    }
}

} // verus!
