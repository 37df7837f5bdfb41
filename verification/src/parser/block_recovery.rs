//! Recovery leaves its marks in every block and in the document: the errors
//! recovered from while parsing a document, unclosed delimiters and invalid
//! escapes, are exactly its error nodes, at the same spans and in the same order.
use crate::kind::SyntaxKind;
use crate::node::{SNode, Span};
use crate::parser::block::{
    item_kind, marker_end, mismatches, newlines_end, spec_block, spec_blocks, spec_blocks_rest,
    spec_cell, spec_cells_rest, spec_heading, spec_label, spec_list, spec_list_item,
    spec_list_rest, spec_paragraph, spec_plain, spec_raw, spec_row, spec_rows, spec_rows_rest,
    spec_single_item, spec_table, spec_term_item, spec_terms, spec_terms_rest,
};
use crate::parser::grammar::{alt, fwd, spec_inlines1, spec_text};
use crate::parser::recovery::{
    all_error_spans, all_marked, error_spans, is_recovered, lemma_concat_marked,
    lemma_cons_marked, lemma_error_spans_add, lemma_error_spans_one, lemma_inlines1_marked,
    lemma_leaf_unmarked, lemma_pair_marked, lemma_recovered_add, lemma_text_marked, marked,
    recovered,
};
use crate::parser::result::{branch, leaf, ParseError, ParseErrorKind, PR};
use crate::bytes::{byte_span, byte_tree, byte_trees};
use crate::parser::{byte_document, byte_error, document, document_errors};
use crate::scan::{ident_end, level_end, newline_end, scan_end, CharClass, SpecialSet};
use vstd::prelude::*;

verus! {

/// Headings mark what they recover from.
#[verifier::spinoff_prover]
#[verifier::rlimit(40)]
pub proof fn lemma_heading_marked(s: Seq<char>, p: int)
    requires
        p <= s.len(),
    ensures
        marked(spec_heading(s, p)),
{
    let m = marker_end(s, p);
    if m > p && m < s.len() {
        lemma_text_marked(s, m + 1, 1, SpecialSet::Markup);
        if let PR::Done(ns, q, e) = spec_text(s, m + 1, 1, SpecialSet::Markup) {
            let marker = leaf(s, SyntaxKind::HeadingMarker, p, m);
            let content = branch(SyntaxKind::Content, m + 1, q, ns);
            lemma_leaf_unmarked(s, SyntaxKind::HeadingMarker, p, m);
            lemma_pair_marked(marker, content, Seq::empty(), e);
            assert(Seq::<ParseError>::empty() + e =~= e);
            if let PR::Done(l, r, _) = spec_label(s, q) {
                lemma_error_spans_one(l);
                lemma_error_spans_add(seq![marker, content], seq![l]);
                assert(seq![marker, content] + seq![l] =~= seq![marker, content, l]);
                assert(all_error_spans(seq![marker, content]) + Seq::<Span>::empty()
                    =~= all_error_spans(seq![marker, content]));
            }
        }
    }
}

/// Raw blocks mark no error.
#[verifier::spinoff_prover]
#[verifier::rlimit(40)]
pub proof fn lemma_raw_marked(s: Seq<char>, p: int)
    ensures
        marked(spec_raw(s, p)),
{
    assert(recovered(Seq::<ParseError>::empty()) == Seq::<Span>::empty());
    let c0 = match ident_end(s, p + 3) {
        Some(a) => a,
        None => p + 3,
    };
    let e = scan_end(s, c0, CharClass::NotBacktick);
    let text = leaf(s, SyntaxKind::Text, c0, e);
    lemma_leaf_unmarked(s, SyntaxKind::Text, c0, e);
    if let Some(a) = ident_end(s, p + 3) {
        let lang = leaf(s, SyntaxKind::RawLang, p + 3, a);
        lemma_leaf_unmarked(s, SyntaxKind::RawLang, p + 3, a);
        lemma_pair_marked(lang, text, Seq::empty(), Seq::empty());
        assert(Seq::<ParseError>::empty() + Seq::<ParseError>::empty() =~= Seq::<ParseError>::empty());
    }
}

/// Plain content marks what it recovers from.
#[verifier::spinoff_prover]
#[verifier::rlimit(40)]
pub proof fn lemma_plain_marked(s: Seq<char>, p: int)
    requires
        p <= s.len(),
    ensures
        marked(spec_plain(s, p)),
{
    lemma_inlines1_marked(s, p, SpecialSet::Markup);
}

/// Lists mark what they recover from.
#[verifier::spinoff_prover]
#[verifier::rlimit(40)]
pub proof fn lemma_list_marked(s: Seq<char>, p: int, ind: nat, m: char)
    requires
        p <= s.len(),
    ensures
        marked(spec_list(s, p, ind, m)),
    decreases s.len() - p, 3int,
{
    lemma_list_item_marked(s, p, ind, m);
    if let PR::Done(it, q, e) = spec_list_item(s, p, ind, m) {
        if fwd(s, p, q) {
            lemma_list_rest_marked(s, q, ind, m);
            if let PR::Done(its, r, e2) = spec_list_rest(s, q, ind, m) {
                lemma_cons_marked(it, its, e, e2);
            }
        }
    }
}

/// Items of lists mark what they recover from.
#[verifier::spinoff_prover]
#[verifier::rlimit(100)]
pub proof fn lemma_list_item_marked(s: Seq<char>, p: int, ind: nat, m: char)
    requires
        p <= s.len(),
    ensures
        marked(spec_list_item(s, p, ind, m)),
    decreases s.len() - p, 2int,
{
    if p + 2 <= s.len() {
        lemma_plain_marked(s, p + 2);
        if let PR::Done(pl, q, e) = spec_plain(s, p + 2) {
            lemma_error_spans_one(pl);
            if let Some(q1) = newline_end(s, q) {
                if let Some(q2) = level_end(s, q1, ind + 1) {
                    if fwd(s, p, q2) {
                        lemma_list_marked(s, q2, ind + 1, m);
                        if let PR::Done(l, r, e2) = spec_list(s, q2, ind + 1, m) {
                            lemma_pair_marked(pl, l, e, e2);
                        }
                    }
                }
            }
        }
    }
}

/// Further items mark what they recover from.
#[verifier::spinoff_prover]
#[verifier::rlimit(40)]
pub proof fn lemma_list_rest_marked(s: Seq<char>, p: int, ind: nat, m: char)
    requires
        p <= s.len(),
    ensures
        all_marked(spec_list_rest(s, p, ind, m)),
    decreases s.len() - p, 4int,
{
    if let Some(q1) = newline_end(s, p) {
        if let Some(q2) = level_end(s, q1, ind) {
            if fwd(s, p, q2) {
                lemma_list_item_marked(s, q2, ind, m);
                if let PR::Done(it, q3, e) = spec_list_item(s, q2, ind, m) {
                    if fwd(s, p, q3) {
                        lemma_list_rest_marked(s, q3, ind, m);
                        if let PR::Done(its, r, e2) = spec_list_rest(s, q3, ind, m) {
                            lemma_cons_marked(it, its, e, e2);
                        }
                    }
                }
            }
        }
    }
}

/// Term definitions mark what they recover from.
#[verifier::spinoff_prover]
#[verifier::rlimit(100)]
pub proof fn lemma_term_item_marked(s: Seq<char>, p: int)
    requires
        p <= s.len(),
    ensures
        marked(spec_term_item(s, p)),
{
    if p + 2 <= s.len() {
        lemma_inlines1_marked(s, p + 2, SpecialSet::Term);
        if let PR::Done(ts, q, e) = spec_inlines1(s, p + 2, SpecialSet::Term) {
            if q + 2 <= s.len() {
                lemma_text_marked(s, q + 2, 1, SpecialSet::Markup);
                if let PR::Done(ds, r, e2) = spec_text(s, q + 2, 1, SpecialSet::Markup) {
                    let t = branch(SyntaxKind::Content, p + 2, q, ts);
                    let d = branch(SyntaxKind::Content, q + 2, r, ds);
                    lemma_pair_marked(t, d, e, e2);
                }
            }
        }
    }
}

/// Further term definitions mark what they recover from.
#[verifier::spinoff_prover]
#[verifier::rlimit(40)]
pub proof fn lemma_terms_rest_marked(s: Seq<char>, p: int)
    requires
        p <= s.len(),
    ensures
        all_marked(spec_terms_rest(s, p)),
    decreases s.len() - p,
{
    if let Some(q1) = newline_end(s, p) {
        if fwd(s, p, q1) {
            lemma_term_item_marked(s, q1);
            if let PR::Done(it, q, e) = spec_term_item(s, q1) {
                if fwd(s, p, q) {
                    lemma_terms_rest_marked(s, q);
                    if let PR::Done(its, r, e2) = spec_terms_rest(s, q) {
                        lemma_cons_marked(it, its, e, e2);
                    }
                }
            }
        }
    }
}

/// Term definitions mark what they recover from.
#[verifier::spinoff_prover]
#[verifier::rlimit(40)]
pub proof fn lemma_terms_marked(s: Seq<char>, p: int)
    requires
        p <= s.len(),
    ensures
        marked(spec_terms(s, p)),
{
    lemma_term_item_marked(s, p);
    if let PR::Done(it, q, e) = spec_term_item(s, p) {
        if fwd(s, p, q) {
            lemma_terms_rest_marked(s, q);
            if let PR::Done(its, r, e2) = spec_terms_rest(s, q) {
                lemma_cons_marked(it, its, e, e2);
            }
        }
    }
}

/// Paragraphs mark what they recover from.
#[verifier::spinoff_prover]
#[verifier::rlimit(40)]
pub proof fn lemma_paragraph_marked(s: Seq<char>, p: int)
    requires
        p <= s.len(),
    ensures
        marked(spec_paragraph(s, p)),
{
    lemma_text_marked(s, p, 0, SpecialSet::Markup);
}

/// Lists of one item mark what they recover from.
#[verifier::spinoff_prover]
#[verifier::rlimit(40)]
pub proof fn lemma_single_item_marked(s: Seq<char>, p: int, m: char)
    requires
        p <= s.len(),
    ensures
        marked(spec_single_item(s, p, m)),
{
    if p + 2 <= s.len() {
        lemma_plain_marked(s, p + 2);
        if let PR::Done(pl, q, _) = spec_plain(s, p + 2) {
            lemma_error_spans_one(pl);
            lemma_error_spans_one(branch(item_kind(m), p, q, seq![pl]));
        }
    }
}

/// Table cells mark what they recover from.
#[verifier::spinoff_prover]
#[verifier::rlimit(40)]
pub proof fn lemma_cell_marked(s: Seq<char>, p: int)
    requires
        p <= s.len(),
    ensures
        marked(spec_cell(s, p)),
{
    if 0 <= p {
        crate::scan::lemma_scan_end_bounds(s, p, CharClass::Blank);
    }
    let a = scan_end(s, p, CharClass::Blank);
    lemma_single_item_marked(s, a, '-');
    lemma_single_item_marked(s, a, '+');
    lemma_paragraph_marked(s, a);
}

/// Further cells mark what they recover from.
#[verifier::spinoff_prover]
#[verifier::rlimit(40)]
pub proof fn lemma_cells_rest_marked(s: Seq<char>, p: int)
    requires
        p <= s.len(),
    ensures
        all_marked(spec_cells_rest(s, p)),
    decreases s.len() - p,
{
    if p < s.len() {
        lemma_cell_marked(s, p + 1);
        if let PR::Done(c, q, e) = spec_cell(s, p + 1) {
            if fwd(s, p, q) {
                lemma_cells_rest_marked(s, q);
                if let PR::Done(cs, r, e2) = spec_cells_rest(s, q) {
                    lemma_cons_marked(c, cs, e, e2);
                }
            }
        }
    }
}

/// Rows mark what they recover from.
#[verifier::spinoff_prover]
#[verifier::rlimit(40)]
pub proof fn lemma_row_marked(s: Seq<char>, p: int)
    requires
        p <= s.len(),
    ensures
        marked(spec_row(s, p)),
{
    if p < s.len() {
        lemma_cell_marked(s, p + 1);
        if let PR::Done(c, q, e) = spec_cell(s, p + 1) {
            if fwd(s, p, q) {
                lemma_cells_rest_marked(s, q);
                if let PR::Done(cs, r, e2) = spec_cells_rest(s, q) {
                    lemma_cons_marked(c, cs, e, e2);
                }
            }
        }
    }
}

/// Further rows mark what they recover from.
#[verifier::spinoff_prover]
#[verifier::rlimit(40)]
pub proof fn lemma_rows_rest_marked(s: Seq<char>, p: int)
    requires
        p <= s.len(),
    ensures
        all_marked(spec_rows_rest(s, p)),
    decreases s.len() - p,
{
    if let Some(q1) = newline_end(s, p) {
        if fwd(s, p, q1) {
            lemma_row_marked(s, q1);
            if let PR::Done(rw, q, e) = spec_row(s, q1) {
                if fwd(s, p, q) {
                    lemma_rows_rest_marked(s, q);
                    if let PR::Done(rws, r, e2) = spec_rows_rest(s, q) {
                        lemma_cons_marked(rw, rws, e, e2);
                    }
                }
            }
        }
    }
}

/// Rows mark what they recover from.
#[verifier::spinoff_prover]
#[verifier::rlimit(40)]
pub proof fn lemma_rows_marked(s: Seq<char>, p: int)
    requires
        p <= s.len(),
    ensures
        all_marked(spec_rows(s, p)),
{
    lemma_row_marked(s, p);
    if let PR::Done(rw, q, e) = spec_row(s, p) {
        if fwd(s, p, q) {
            lemma_rows_rest_marked(s, q);
            if let PR::Done(rws, r, e2) = spec_rows_rest(s, q) {
                lemma_cons_marked(rw, rws, e, e2);
            }
        }
    }
}

/// Mismatched rows are no error recovered from.
pub proof fn lemma_mismatches_unrecovered(rows: Seq<SNode>, n: nat, span: Span)
    ensures
        recovered(mismatches(rows, n, span)) == Seq::<Span>::empty(),
    decreases rows.len(),
{
    if rows.len() > 0 {
        lemma_mismatches_unrecovered(rows.drop_last(), n, span);
        let t = if crate::parser::block::child_count(rows.last()) != n {
            seq![ParseError { span, kind: ParseErrorKind::ColumnMismatch }]
        } else {
            Seq::<ParseError>::empty()
        };
        assert(mismatches(rows, n, span) == mismatches(rows.drop_last(), n, span) + t);
        lemma_recovered_add(mismatches(rows.drop_last(), n, span), t);
        assert(recovered(Seq::<ParseError>::empty()) == Seq::<Span>::empty());
        if t.len() == 1 {
            assert(t.drop_last() =~= Seq::<ParseError>::empty());
            assert(!is_recovered(t.last()));
            assert(recovered(t) =~= Seq::<Span>::empty() + Seq::<Span>::empty());
        }
        assert(recovered(t) =~= Seq::<Span>::empty());
        assert(Seq::<Span>::empty() + Seq::<Span>::empty() =~= Seq::<Span>::empty());
    }
}

/// Tables mark what they recover from; the rows whose cells differ in number are
/// reported but are no error recovered from.
#[verifier::spinoff_prover]
#[verifier::rlimit(40)]
pub proof fn lemma_table_marked(s: Seq<char>, p: int)
    requires
        p <= s.len(),
    ensures
        marked(spec_table(s, p)),
{
    lemma_rows_marked(s, p);
    if let PR::Done(rs, q, e) = spec_rows(s, p) {
        let mm = mismatches(rs, crate::parser::block::child_count(rs[0]), crate::parser::result::sp(p, q));
        lemma_mismatches_unrecovered(rs, crate::parser::block::child_count(rs[0]), crate::parser::result::sp(p, q));
        lemma_recovered_add(e, mm);
        assert(recovered(e) + Seq::<Span>::empty() =~= recovered(e));
        if let PR::Done(l, r, _) = spec_label(s, q + 1) {
            lemma_error_spans_one(l);
            lemma_error_spans_add(rs, seq![l]);
            assert(rs + seq![l] =~= rs.push(l));
            assert(all_error_spans(rs) + Seq::<Span>::empty() =~= all_error_spans(rs));
        }
    }
}

/// Blocks mark what they recover from.
#[verifier::spinoff_prover]
#[verifier::rlimit(40)]
pub proof fn lemma_block_marked(s: Seq<char>, p: int)
    requires
        p <= s.len(),
    ensures
        marked(spec_block(s, p)),
{
    lemma_heading_marked(s, p);
    lemma_raw_marked(s, p);
    lemma_list_marked(s, p, 0, '-');
    lemma_list_marked(s, p, 0, '+');
    lemma_terms_marked(s, p);
    lemma_table_marked(s, p);
    lemma_paragraph_marked(s, p);
}

/// Further blocks mark what they recover from.
#[verifier::spinoff_prover]
#[verifier::rlimit(40)]
pub proof fn lemma_blocks_rest_marked(s: Seq<char>, p: int)
    requires
        p <= s.len(),
    ensures
        all_marked(spec_blocks_rest(s, p)),
    decreases s.len() - p,
{
    assert(recovered(Seq::<ParseError>::empty()) == Seq::<Span>::empty());
    if let Some(q1) = newline_end(s, p) {
        if let Some(q2) = newline_end(s, q1) {
            let q3 = newlines_end(s, q2);
            if fwd(s, p, q3) {
                lemma_block_marked(s, q3);
                if let PR::Done(b, r, e) = spec_block(s, q3) {
                    if fwd(s, p, r) {
                        lemma_blocks_rest_marked(s, r);
                        if let PR::Done(bs, t, e2) = spec_blocks_rest(s, r) {
                            lemma_cons_marked(b, bs, e, e2);
                        }
                    }
                }
            }
        }
    }
}

/// The blocks of a document mark what they recover from.
#[verifier::spinoff_prover]
#[verifier::rlimit(40)]
pub proof fn lemma_blocks_marked(s: Seq<char>, p: int)
    requires
        p <= s.len(),
    ensures
        all_marked(spec_blocks(s, p)),
{
    lemma_block_marked(s, p);
    if let PR::Done(b, q, e) = spec_block(s, p) {
        if fwd(s, p, q) {
            lemma_blocks_rest_marked(s, q);
            if let PR::Done(bs, r, e2) = spec_blocks_rest(s, q) {
                lemma_cons_marked(b, bs, e, e2);
            }
        }
    }
}

/// Where a source has a document, the errors recovered from while parsing it,
/// unclosed delimiters and invalid escapes, are exactly the error nodes of the
/// document, at the same spans and in the same order.
pub proof fn lemma_document_marks_recovered(s: Seq<char>)
    ensures
        document(s) matches Some(d) ==> recovered(document_errors(s)) == error_spans(d),
{
    lemma_blocks_marked(s, 0);
}

/// Spans counted in characters, counted in bytes.
pub open spec fn byte_spans(s: Seq<char>, sps: Seq<Span>) -> Seq<Span> {
    Seq::new(sps.len(), |i: int| byte_span(s, sps[i]))
}

/// Errors with spans counted in characters, with spans counted in bytes.
pub open spec fn byte_errors(s: Seq<char>, es: Seq<ParseError>) -> Seq<ParseError> {
    Seq::new(es.len(), |i: int| byte_error(s, es[i]))
}

/// Counting bytes keeps which errors are recovered from.
pub proof fn lemma_byte_recovered(s: Seq<char>, es: Seq<ParseError>)
    ensures
        recovered(byte_errors(s, es)) == byte_spans(s, recovered(es)),
    decreases es.len(),
{
    if es.len() > 0 {
        lemma_byte_recovered(s, es.drop_last());
        let be = byte_errors(s, es);
        assert(be.drop_last() =~= byte_errors(s, es.drop_last()));
        assert(be.last() == byte_error(s, es.last()));
        let r0 = recovered(es.drop_last());
        if is_recovered(es.last()) {
            assert(byte_spans(s, r0 + seq![es.last().span]) =~= byte_spans(s, r0) + seq![
                byte_span(s, es.last().span),
            ]);
        } else {
            assert(byte_spans(s, r0 + Seq::<Span>::empty()) =~= byte_spans(s, r0) + Seq::<
                Span,
            >::empty());
        }
    } else {
        assert(byte_spans(s, Seq::<Span>::empty()) =~= Seq::<Span>::empty());
        assert(byte_errors(s, es) =~= Seq::<ParseError>::empty());
    }
}

/// Counting bytes keeps the error nodes of a tree.
pub proof fn lemma_byte_error_spans(s: Seq<char>, n: SNode)
    ensures
        error_spans(byte_tree(s, n)) == byte_spans(s, error_spans(n)),
    decreases n,
{
    match n {
        SNode::Branch(_, _, cs) => lemma_byte_all_error_spans(s, cs),
        SNode::Leaf(_, _, _) => {
            assert(byte_spans(s, Seq::<Span>::empty()) =~= Seq::<Span>::empty());
        },
        SNode::Error(sp, _) => {
            assert(byte_spans(s, seq![sp]) =~= seq![byte_span(s, sp)]);
        },
    }
}

/// Counting bytes keeps the error nodes of trees.
pub proof fn lemma_byte_all_error_spans(s: Seq<char>, cs: Seq<SNode>)
    ensures
        all_error_spans(byte_trees(s, cs)) == byte_spans(s, all_error_spans(cs)),
    decreases cs,
{
    if cs.len() > 0 {
        lemma_byte_all_error_spans(s, cs.drop_last());
        lemma_byte_error_spans(s, cs.last());
        let bt = byte_trees(s, cs);
        assert(bt.drop_last() =~= byte_trees(s, cs.drop_last()));
        assert(bt.last() == byte_tree(s, cs.last()));
        assert(byte_spans(s, all_error_spans(cs.drop_last()) + error_spans(cs.last())) =~= byte_spans(
            s,
            all_error_spans(cs.drop_last()),
        ) + byte_spans(s, error_spans(cs.last())));
    } else {
        assert(byte_spans(s, Seq::<Span>::empty()) =~= Seq::<Span>::empty());
    }
}

/// Where a source has a document, the errors recovered from while parsing it are
/// exactly the error nodes of the document, at the same spans and in the same
/// order, with every span counting bytes.
pub proof fn lemma_byte_document_marks_recovered(s: Seq<char>)
    ensures
        byte_document(s) matches Some(d) ==> recovered(byte_errors(s, document_errors(s)))
            == error_spans(d),
{
    lemma_document_marks_recovered(s);
    lemma_byte_recovered(s, document_errors(s));
    if let Some(d) = document(s) {
        lemma_byte_error_spans(s, d);
    }
}

} // verus!
