//! The blocks of a document, and the document itself, are located in the source:
//! the document spans the whole source, and every node lies within its parent.
//! A document's parse aborts only on an integer literal that overflows.
use crate::kind::SyntaxKind;
use crate::node::{snode_children, snode_span, SNode, Span};
use crate::parser::block::{
    child_count, item_kind, marker_end, mismatches, newlines_end, spec_block, spec_blocks, spec_blocks_rest,
    spec_cell, spec_cells_rest, spec_heading, spec_label, spec_list, spec_list_item,
    spec_list_rest, spec_paragraph, spec_plain, spec_raw, spec_row, spec_rows, spec_rows_rest,
    spec_single_item, spec_table, spec_term_item, spec_terms, spec_terms_rest,
};
use crate::parser::grammar::{fwd, spec_inlines1, spec_text};
use crate::parser::laws::{
    all_located, all_within, fits, literals_fit, lemma_all_within_one, lemma_all_within_widen,
    lemma_concat_within, lemma_cons_within, lemma_inlines1_located, lemma_text_located,
    lemma_within_widen, located, within,
};
use crate::parser::result::{branch, leaf, sp, ParseError, ParseErrorKind, PR};
use crate::parser::literal::{literal_overflows, spec_literal};
use crate::parser::{byte_document, document, document_aborts};
use crate::bytes::{byte_pos, byte_tree, byte_trees, lemma_encode_prefix};
use vstd::utf8::encode_utf8;
use crate::scan::{
    ident_end, lemma_ident_end_bounds, lemma_level_end_bounds, lemma_newline_end_bounds,
    lemma_scan_end_bounds, level_end, newline_end, scan_end, spec_at_char, CharClass, SpecialSet,
};
use vstd::prelude::*;

verus! {

/// Labels are located.
#[verifier::spinoff_prover]
#[verifier::rlimit(40)]
pub proof fn lemma_label_located(s: Seq<char>, p: int)
    requires
        0 <= p <= s.len(),
        fits(s),
    ensures
        located(s, p, spec_label(s, p)),
        literals_fit(s) ==> !(spec_label(s, p) is Abort),
{
    if p < s.len() {
        lemma_ident_end_bounds(s, p + 1);
    }
}

/// Headings are located.
#[verifier::spinoff_prover]
#[verifier::rlimit(40)]
pub proof fn lemma_heading_located(s: Seq<char>, p: int)
    requires
        0 <= p <= s.len(),
        fits(s),
    ensures
        located(s, p, spec_heading(s, p)),
        literals_fit(s) ==> !(spec_heading(s, p) is Abort),
{
    lemma_scan_end_bounds(s, p, CharClass::Equals);
    let m = marker_end(s, p);
    if m > p && m < s.len() {
        lemma_text_located(s, m + 1, 1, SpecialSet::Markup);
        if let PR::Done(ns, q, _) = spec_text(s, m + 1, 1, SpecialSet::Markup) {
            let marker = leaf(s, SyntaxKind::HeadingMarker, p, m);
            let content = branch(SyntaxKind::Content, m + 1, q, ns);
            lemma_all_within_one(marker, p, m);
            lemma_all_within_one(content, m + 1, q);
            lemma_all_within_widen(seq![content], m + 1, q, m, q);
            lemma_concat_within(seq![marker], seq![content], p, m, q);
            assert(seq![marker] + seq![content] =~= seq![marker, content]);
            lemma_label_located(s, q);
            if let PR::Done(l, r, _) = spec_label(s, q) {
                lemma_all_within_one(l, q, r);
                lemma_concat_within(seq![marker] + seq![content], seq![l], p, q, r);
                assert(seq![marker] + seq![content] + seq![l] =~= seq![marker, content, l]);
            }
        }
    }
}

/// Raw blocks are located.
#[verifier::spinoff_prover]
#[verifier::rlimit(40)]
pub proof fn lemma_raw_located(s: Seq<char>, p: int)
    requires
        0 <= p <= s.len(),
        fits(s),
    ensures
        located(s, p, spec_raw(s, p)),
        literals_fit(s) ==> !(spec_raw(s, p) is Abort),
{
    if p + 3 <= s.len() {
        lemma_ident_end_bounds(s, p + 3);
        let c0 = match ident_end(s, p + 3) {
            Some(a) => a,
            None => p + 3,
        };
        lemma_scan_end_bounds(s, c0, CharClass::NotBacktick);
        let e = scan_end(s, c0, CharClass::NotBacktick);
        let text = leaf(s, SyntaxKind::Text, c0, e);
        lemma_all_within_one(text, c0, e);
        lemma_all_within_widen(seq![text], c0, e, p, e + 3);
        if let Some(a) = ident_end(s, p + 3) {
            let lang = leaf(s, SyntaxKind::RawLang, p + 3, a);
            lemma_all_within_one(lang, p + 3, a);
            lemma_all_within_widen(seq![lang], p + 3, a, p, a);
            lemma_all_within_widen(seq![text], c0, e, a, e + 3);
            lemma_concat_within(seq![lang], seq![text], p, a, e + 3);
            assert(seq![lang] + seq![text] =~= seq![lang, text]);
        }
    }
}

/// Plain content is located.
#[verifier::spinoff_prover]
#[verifier::rlimit(40)]
pub proof fn lemma_plain_located(s: Seq<char>, p: int)
    requires
        0 <= p <= s.len(),
        fits(s),
    ensures
        located(s, p, spec_plain(s, p)),
        literals_fit(s) ==> !(spec_plain(s, p) is Abort),
{
    lemma_inlines1_located(s, p, SpecialSet::Markup);
}

/// Lists are located.
#[verifier::spinoff_prover]
#[verifier::rlimit(40)]
pub proof fn lemma_list_located(s: Seq<char>, p: int, ind: nat, m: char)
    requires
        0 <= p <= s.len(),
        fits(s),
    ensures
        located(s, p, spec_list(s, p, ind, m)),
        literals_fit(s) ==> !(spec_list(s, p, ind, m) is Abort),
    decreases s.len() - p, 3int,
{
    lemma_list_item_located(s, p, ind, m);
    if let PR::Done(it, q, _) = spec_list_item(s, p, ind, m) {
        if fwd(s, p, q) {
            lemma_list_rest_located(s, q, ind, m);
            if let PR::Done(its, r, _) = spec_list_rest(s, q, ind, m) {
                lemma_cons_within(it, its, p, q, r);
            }
        }
    }
}

/// Items of lists are located.
#[verifier::spinoff_prover]
#[verifier::rlimit(100)]
pub proof fn lemma_list_item_located(s: Seq<char>, p: int, ind: nat, m: char)
    requires
        0 <= p <= s.len(),
        fits(s),
    ensures
        located(s, p, spec_list_item(s, p, ind, m)),
        literals_fit(s) ==> !(spec_list_item(s, p, ind, m) is Abort),
    decreases s.len() - p, 2int,
{
    if p + 2 <= s.len() {
        lemma_plain_located(s, p + 2);
        if let PR::Done(pl, q, _) = spec_plain(s, p + 2) {
            lemma_all_within_one(pl, p + 2, q);
            lemma_all_within_widen(seq![pl], p + 2, q, p, q);
            lemma_list_item_nested_located(s, p, q, ind, m, pl);
        }
    }
}

/// Whether the list nested in an item whose plain content `pl` ends at `q`, if
/// there is one, ends within the source and lies with `pl` within the item.
pub open spec fn nested_located(s: Seq<char>, p: int, q: int, ind: nat, m: char, pl: SNode) -> bool {
    match newline_end(s, q) {
        Some(q1) => match level_end(s, q1, ind + 1) {
            Some(q2) => fwd(s, p, q2) ==> match spec_list(s, q2, ind + 1, m) {
                PR::Done(l, r, _) => q <= r <= s.len() && all_within(seq![pl, l], p, r),
                _ => true,
            },
            None => true,
        },
        None => true,
    }
}

/// The nested list of an item whose plain content `pl` ends at `q` is located.
#[verifier::spinoff_prover]
#[verifier::rlimit(40)]
pub proof fn lemma_list_item_nested_located(
    s: Seq<char>,
    p: int,
    q: int,
    ind: nat,
    m: char,
    pl: SNode,
)
    requires
        0 <= p < q <= s.len(),
        fits(s),
        all_within(seq![pl], p, q),
    ensures
        nested_located(s, p, q, ind, m, pl),
        literals_fit(s) ==> (newline_end(s, q) matches Some(q1) ==> (level_end(s, q1, ind + 1) matches Some(
            q2,
        ) ==> (fwd(s, p, q2) ==> !(spec_list(s, q2, ind + 1, m) is Abort)))),
    decreases s.len() - p, 1int,
{
    lemma_newline_end_bounds(s, q);
    if let Some(q1) = newline_end(s, q) {
        lemma_level_end_bounds(s, q1, ind + 1);
        if let Some(q2) = level_end(s, q1, ind + 1) {
            if fwd(s, p, q2) {
                lemma_list_located(s, q2, ind + 1, m);
                if let PR::Done(l, r, _) = spec_list(s, q2, ind + 1, m) {
                    lemma_all_within_one(l, q2, r);
                    lemma_all_within_widen(seq![l], q2, r, q, r);
                    lemma_concat_within(seq![pl], seq![l], p, q, r);
                    assert(seq![pl] + seq![l] =~= seq![pl, l]);
                }
            }
        }
    }
}

/// Further items are located.
#[verifier::spinoff_prover]
#[verifier::rlimit(40)]
pub proof fn lemma_list_rest_located(s: Seq<char>, p: int, ind: nat, m: char)
    requires
        0 <= p <= s.len(),
        fits(s),
    ensures
        all_located(s, p, spec_list_rest(s, p, ind, m)),
        literals_fit(s) ==> !(spec_list_rest(s, p, ind, m) is Abort),
    decreases s.len() - p, 4int,
{
    lemma_newline_end_bounds(s, p);
    if let Some(q1) = newline_end(s, p) {
        lemma_level_end_bounds(s, q1, ind);
        if let Some(q2) = level_end(s, q1, ind) {
            if fwd(s, p, q2) {
                lemma_list_item_located(s, q2, ind, m);
                if let PR::Done(it, q3, _) = spec_list_item(s, q2, ind, m) {
                    if fwd(s, p, q3) {
                        lemma_list_rest_located(s, q3, ind, m);
                        if let PR::Done(its, r, _) = spec_list_rest(s, q3, ind, m) {
                            lemma_within_widen(it, q2, q3, p, q3);
                            lemma_cons_within(it, its, p, q3, r);
                        }
                    }
                }
            }
        }
    }
}

/// Term definitions are located.
#[verifier::spinoff_prover]
#[verifier::rlimit(100)]
pub proof fn lemma_term_item_located(s: Seq<char>, p: int)
    requires
        0 <= p <= s.len(),
        fits(s),
    ensures
        located(s, p, spec_term_item(s, p)),
        literals_fit(s) ==> !(spec_term_item(s, p) is Abort),
{
    if p + 2 <= s.len() {
        lemma_inlines1_located(s, p + 2, SpecialSet::Term);
        if let PR::Done(ts, q, _) = spec_inlines1(s, p + 2, SpecialSet::Term) {
            if q + 2 <= s.len() {
                lemma_text_located(s, q + 2, 1, SpecialSet::Markup);
                if let PR::Done(ds, r, _) = spec_text(s, q + 2, 1, SpecialSet::Markup) {
                    let t = branch(SyntaxKind::Content, p + 2, q, ts);
                    let d = branch(SyntaxKind::Content, q + 2, r, ds);
                    lemma_all_within_one(t, p + 2, q);
                    lemma_all_within_one(d, q + 2, r);
                    lemma_all_within_widen(seq![t], p + 2, q, p, q);
                    lemma_all_within_widen(seq![d], q + 2, r, q, r);
                    lemma_concat_within(seq![t], seq![d], p, q, r);
                    assert(seq![t] + seq![d] =~= seq![t, d]);
                }
            }
        }
    }
}

/// Further term definitions are located.
#[verifier::spinoff_prover]
#[verifier::rlimit(40)]
pub proof fn lemma_terms_rest_located(s: Seq<char>, p: int)
    requires
        0 <= p <= s.len(),
        fits(s),
    ensures
        all_located(s, p, spec_terms_rest(s, p)),
        literals_fit(s) ==> !(spec_terms_rest(s, p) is Abort),
    decreases s.len() - p,
{
    lemma_newline_end_bounds(s, p);
    if let Some(q1) = newline_end(s, p) {
        if fwd(s, p, q1) {
            lemma_term_item_located(s, q1);
            if let PR::Done(it, q, _) = spec_term_item(s, q1) {
                if fwd(s, p, q) {
                    lemma_terms_rest_located(s, q);
                    if let PR::Done(its, r, _) = spec_terms_rest(s, q) {
                        lemma_within_widen(it, q1, q, p, q);
                        lemma_cons_within(it, its, p, q, r);
                    }
                }
            }
        }
    }
}

/// Term definitions are located.
#[verifier::spinoff_prover]
#[verifier::rlimit(40)]
pub proof fn lemma_terms_located(s: Seq<char>, p: int)
    requires
        0 <= p <= s.len(),
        fits(s),
    ensures
        located(s, p, spec_terms(s, p)),
        literals_fit(s) ==> !(spec_terms(s, p) is Abort),
{
    lemma_term_item_located(s, p);
    if let PR::Done(it, q, _) = spec_term_item(s, p) {
        if fwd(s, p, q) {
            lemma_terms_rest_located(s, q);
            if let PR::Done(its, r, _) = spec_terms_rest(s, q) {
                lemma_cons_within(it, its, p, q, r);
            }
        }
    }
}

/// Paragraphs are located.
#[verifier::spinoff_prover]
#[verifier::rlimit(40)]
pub proof fn lemma_paragraph_located(s: Seq<char>, p: int)
    requires
        0 <= p <= s.len(),
        fits(s),
    ensures
        located(s, p, spec_paragraph(s, p)),
        literals_fit(s) ==> !(spec_paragraph(s, p) is Abort),
{
    lemma_text_located(s, p, 0, SpecialSet::Markup);
}

/// Lists of one item are located.
#[verifier::spinoff_prover]
#[verifier::rlimit(40)]
pub proof fn lemma_single_item_located(s: Seq<char>, p: int, m: char)
    requires
        0 <= p <= s.len(),
        fits(s),
    ensures
        located(s, p, spec_single_item(s, p, m)),
        literals_fit(s) ==> !(spec_single_item(s, p, m) is Abort),
{
    if p + 2 <= s.len() {
        lemma_plain_located(s, p + 2);
        if let PR::Done(pl, q, _) = spec_plain(s, p + 2) {
            lemma_all_within_one(pl, p + 2, q);
            lemma_all_within_widen(seq![pl], p + 2, q, p, q);
            let it = branch(item_kind(m), p, q, seq![pl]);
            lemma_all_within_one(it, p, q);
        }
    }
}

/// Table cells are located.
#[verifier::spinoff_prover]
#[verifier::rlimit(40)]
pub proof fn lemma_cell_located(s: Seq<char>, p: int)
    requires
        0 <= p <= s.len(),
        fits(s),
    ensures
        located(s, p, spec_cell(s, p)),
        literals_fit(s) ==> !(spec_cell(s, p) is Abort),
{
    lemma_scan_end_bounds(s, p, CharClass::Blank);
    let a = scan_end(s, p, CharClass::Blank);
    lemma_single_item_located(s, a, '-');
    lemma_single_item_located(s, a, '+');
    lemma_paragraph_located(s, a);
    let r = crate::parser::grammar::alt(
        spec_single_item(s, a, '-'),
        crate::parser::grammar::alt(spec_single_item(s, a, '+'), spec_paragraph(s, a)),
    );
    if let PR::Done(n, q, _) = r {
        lemma_scan_end_bounds(s, q, CharClass::Blank);
        lemma_within_widen(n, a, q, p, scan_end(s, q, CharClass::Blank));
    }
}

/// Further cells are located.
#[verifier::spinoff_prover]
#[verifier::rlimit(40)]
pub proof fn lemma_cells_rest_located(s: Seq<char>, p: int)
    requires
        0 <= p <= s.len(),
        fits(s),
    ensures
        all_located(s, p, spec_cells_rest(s, p)),
        literals_fit(s) ==> !(spec_cells_rest(s, p) is Abort),
    decreases s.len() - p,
{
    if p < s.len() {
        lemma_cell_located(s, p + 1);
        if let PR::Done(c, q, _) = spec_cell(s, p + 1) {
            if fwd(s, p, q) {
                lemma_cells_rest_located(s, q);
                if let PR::Done(cs, r, _) = spec_cells_rest(s, q) {
                    lemma_within_widen(c, p + 1, q, p, q);
                    lemma_cons_within(c, cs, p, q, r);
                }
            }
        }
    }
}

/// Rows are located.
#[verifier::spinoff_prover]
#[verifier::rlimit(40)]
pub proof fn lemma_row_located(s: Seq<char>, p: int)
    requires
        0 <= p <= s.len(),
        fits(s),
    ensures
        located(s, p, spec_row(s, p)),
        literals_fit(s) ==> !(spec_row(s, p) is Abort),
{
    if p < s.len() {
        lemma_cell_located(s, p + 1);
        if let PR::Done(c, q, _) = spec_cell(s, p + 1) {
            if fwd(s, p, q) {
                lemma_cells_rest_located(s, q);
                if let PR::Done(cs, r, _) = spec_cells_rest(s, q) {
                    lemma_within_widen(c, p + 1, q, p, q);
                    lemma_cons_within(c, cs, p, q, r);
                    lemma_all_within_widen(seq![c] + cs, p, r, p, r + 1);
                }
            }
        }
    }
}

/// Further rows are located.
#[verifier::spinoff_prover]
#[verifier::rlimit(40)]
pub proof fn lemma_rows_rest_located(s: Seq<char>, p: int)
    requires
        0 <= p <= s.len(),
        fits(s),
    ensures
        all_located(s, p, spec_rows_rest(s, p)),
        literals_fit(s) ==> !(spec_rows_rest(s, p) is Abort),
    decreases s.len() - p,
{
    lemma_newline_end_bounds(s, p);
    if let Some(q1) = newline_end(s, p) {
        if fwd(s, p, q1) {
            lemma_row_located(s, q1);
            if let PR::Done(rw, q, _) = spec_row(s, q1) {
                if fwd(s, p, q) {
                    lemma_rows_rest_located(s, q);
                    if let PR::Done(rws, r, _) = spec_rows_rest(s, q) {
                        lemma_within_widen(rw, q1, q, p, q);
                        lemma_cons_within(rw, rws, p, q, r);
                    }
                }
            }
        }
    }
}

/// Rows are located.
#[verifier::spinoff_prover]
#[verifier::rlimit(40)]
pub proof fn lemma_rows_located(s: Seq<char>, p: int)
    requires
        0 <= p <= s.len(),
        fits(s),
    ensures
        all_located(s, p, spec_rows(s, p)),
        literals_fit(s) ==> !(spec_rows(s, p) is Abort),
{
    lemma_row_located(s, p);
    if let PR::Done(rw, q, _) = spec_row(s, p) {
        if fwd(s, p, q) {
            lemma_rows_rest_located(s, q);
            if let PR::Done(rws, r, _) = spec_rows_rest(s, q) {
                lemma_cons_within(rw, rws, p, q, r);
            }
        }
    }
}

/// Tables are located.
#[verifier::spinoff_prover]
#[verifier::rlimit(40)]
pub proof fn lemma_table_located(s: Seq<char>, p: int)
    requires
        0 <= p <= s.len(),
        fits(s),
    ensures
        located(s, p, spec_table(s, p)),
        literals_fit(s) ==> !(spec_table(s, p) is Abort),
{
    lemma_rows_located(s, p);
    if let PR::Done(rs, q, _) = spec_rows(s, p) {
        if q < s.len() {
            lemma_label_located(s, q + 1);
            if let PR::Done(l, r, _) = spec_label(s, q + 1) {
                lemma_all_within_one(l, q + 1, r);
                lemma_all_within_widen(seq![l], q + 1, r, q, r);
                lemma_concat_within(rs, seq![l], p, q, r);
                assert(rs + seq![l] =~= rs.push(l));
            }
        }
    }
}

/// Blocks are located.
#[verifier::spinoff_prover]
#[verifier::rlimit(40)]
pub proof fn lemma_block_located(s: Seq<char>, p: int)
    requires
        0 <= p <= s.len(),
        fits(s),
    ensures
        located(s, p, spec_block(s, p)),
        literals_fit(s) ==> !(spec_block(s, p) is Abort),
{
    lemma_heading_located(s, p);
    lemma_raw_located(s, p);
    lemma_list_located(s, p, 0, '-');
    lemma_list_located(s, p, 0, '+');
    lemma_terms_located(s, p);
    lemma_table_located(s, p);
    lemma_paragraph_located(s, p);
}

/// A run of line breaks ends within the source.
pub proof fn lemma_newlines_end_bounds(s: Seq<char>, p: int)
    requires
        0 <= p <= s.len(),
    ensures
        p <= newlines_end(s, p) <= s.len(),
    decreases s.len() - p,
{
    lemma_newline_end_bounds(s, p);
    if let Some(q) = newline_end(s, p) {
        if fwd(s, p, q) {
            lemma_newlines_end_bounds(s, q);
        }
    }
}

/// Further blocks are located.
#[verifier::spinoff_prover]
#[verifier::rlimit(40)]
pub proof fn lemma_blocks_rest_located(s: Seq<char>, p: int)
    requires
        0 <= p <= s.len(),
        fits(s),
    ensures
        all_located(s, p, spec_blocks_rest(s, p)),
        literals_fit(s) ==> !(spec_blocks_rest(s, p) is Abort),
    decreases s.len() - p,
{
    lemma_newline_end_bounds(s, p);
    if let Some(q1) = newline_end(s, p) {
        lemma_newline_end_bounds(s, q1);
        if let Some(q2) = newline_end(s, q1) {
            lemma_newlines_end_bounds(s, q2);
            let q3 = newlines_end(s, q2);
            if fwd(s, p, q3) {
                lemma_block_located(s, q3);
                if let PR::Done(b, r, _) = spec_block(s, q3) {
                    if fwd(s, p, r) {
                        lemma_blocks_rest_located(s, r);
                        if let PR::Done(bs, t, _) = spec_blocks_rest(s, r) {
                            lemma_within_widen(b, q3, r, p, r);
                            lemma_cons_within(b, bs, p, r, t);
                        }
                    }
                }
            }
        }
    }
}

/// The blocks of a document are located.
#[verifier::spinoff_prover]
#[verifier::rlimit(40)]
pub proof fn lemma_blocks_located(s: Seq<char>, p: int)
    requires
        0 <= p <= s.len(),
        fits(s),
    ensures
        all_located(s, p, spec_blocks(s, p)),
        literals_fit(s) ==> !(spec_blocks(s, p) is Abort),
{
    lemma_block_located(s, p);
    if let PR::Done(b, q, _) = spec_block(s, p) {
        if fwd(s, p, q) {
            lemma_blocks_rest_located(s, q);
            if let PR::Done(bs, r, _) = spec_blocks_rest(s, q) {
                lemma_cons_within(b, bs, p, q, r);
            }
        }
    }
}

/// The document of a source, where there is one, spans the whole source, and every
/// node of it lies within the span of its parent: the spans of the syntax tree
/// locate its nodes in the source.
#[verifier::spinoff_prover]
#[verifier::rlimit(40)]
pub proof fn lemma_document_located(s: Seq<char>)
    requires
        fits(s),
    ensures
        document(s) matches Some(d) ==> snode_span(d) == sp(0, s.len() as int) && within(
            d,
            0,
            s.len() as int,
        ),
{
    lemma_blocks_located(s, 0);
}

/// A parse aborts only on an integer literal whose value, read in its radix, does
/// not fit in an `i64`: where the parse of a source aborts, such a literal starts
/// somewhere in it.
pub proof fn lemma_abort_needs_overflowing_literal(s: Seq<char>)
    requires
        fits(s),
    ensures
        document_aborts(s) ==> exists|p: int| 0 <= p <= s.len() && #[trigger] literal_overflows(s, p),
{
    lemma_blocks_located(s, 0);
    if document_aborts(s) {
        assert(!literals_fit(s));
        let p = choose|p: int| 0 <= p <= s.len() && spec_literal(s, p) is Abort;
        reveal(spec_literal);
        assert(literal_overflows(s, p));
    }
}

/// Byte positions grow with character positions and end at the length of the
/// encoding.
pub proof fn lemma_byte_pos_monotone(s: Seq<char>, i: int, j: int)
    requires
        0 <= i <= j <= s.len(),
    ensures
        byte_pos(s, i) <= byte_pos(s, j) <= encode_utf8(s).len(),
{
    assert(s.take(j).take(i) =~= s.take(i));
    lemma_encode_prefix(s.take(j), i);
    lemma_encode_prefix(s, j);
}

/// A tree that lies within `a..b` in characters lies within the byte positions of
/// `a` and `b` once its spans count bytes.
pub proof fn lemma_byte_tree_within(s: Seq<char>, n: SNode, a: int, b: int)
    requires
        0 <= a <= b <= s.len(),
        encode_utf8(s).len() <= usize::MAX,
        within(n, a, b),
    ensures
        within(byte_tree(s, n), byte_pos(s, a), byte_pos(s, b)),
    decreases n,
{
    let sp = snode_span(n);
    lemma_byte_pos_monotone(s, a, sp.start as int);
    lemma_byte_pos_monotone(s, sp.start as int, sp.end as int);
    lemma_byte_pos_monotone(s, sp.end as int, b);
    if let SNode::Branch(sp2, k, cs) = n {
        lemma_byte_trees_within(s, cs, sp2.start as int, sp2.end as int);
    }
}

/// Trees that lie within `a..b` in characters lie within the byte positions of `a`
/// and `b` once their spans count bytes.
pub proof fn lemma_byte_trees_within(s: Seq<char>, cs: Seq<SNode>, a: int, b: int)
    requires
        0 <= a <= b <= s.len(),
        encode_utf8(s).len() <= usize::MAX,
        all_within(cs, a, b),
    ensures
        all_within(byte_trees(s, cs), byte_pos(s, a), byte_pos(s, b)),
    decreases cs,
{
    if cs.len() > 0 {
        lemma_byte_trees_within(s, cs.drop_last(), a, b);
        lemma_byte_tree_within(s, cs.last(), a, b);
        let bt = byte_trees(s, cs);
        assert(bt.drop_last() =~= byte_trees(s, cs.drop_last()));
        assert(bt.last() == byte_tree(s, cs.last()));
    }
}

/// The document of a source, with spans that count bytes, spans every byte of the
/// source, and every node lies within its parent.
pub proof fn lemma_byte_document_located(s: Seq<char>)
    requires
        fits(s),
        encode_utf8(s).len() <= usize::MAX,
    ensures
        byte_document(s) matches Some(d) ==> snode_span(d) == sp(0, encode_utf8(s).len() as int)
            && within(d, 0, encode_utf8(s).len() as int),
{
    lemma_document_located(s);
    if let Some(d) = document(s) {
        assert(s.take(s.len() as int) =~= s);
        assert(s.take(0) =~= Seq::<char>::empty());
        lemma_byte_tree_within(s, d, 0, s.len() as int);
    }
}

/// The number of rows whose number of cells differs from `n`.
pub open spec fn differing_rows(rows: Seq<SNode>, n: nat) -> nat
    decreases rows.len(),
{
    if rows.len() == 0 {
        0
    } else {
        differing_rows(rows.drop_last(), n) + if child_count(rows.last()) == n {
            0nat
        } else {
            1nat
        }
    }
}

/// The mismatches of rows are one column-mismatch error for each row whose number
/// of cells differs from `n`, be it larger or smaller, each at the given span.
pub proof fn lemma_mismatches_one_per_differing_row(rows: Seq<SNode>, n: nat, span: Span)
    ensures
        mismatches(rows, n, span).len() == differing_rows(rows, n),
        forall|i: int|
            0 <= i < mismatches(rows, n, span).len() ==> #[trigger] mismatches(rows, n, span)[i]
                == (ParseError { span, kind: ParseErrorKind::ColumnMismatch }),
    decreases rows.len(),
{
    if rows.len() > 0 {
        lemma_mismatches_one_per_differing_row(rows.drop_last(), n, span);
    }
}

/// A table whose rows `rs` parse with errors `e0` is a node whose children are those
/// rows, then perhaps a label, and its errors are `e0` followed by one
/// column-mismatch error for each row whose number of cells differs from that of the
/// first row, be it larger or smaller.
#[verifier::spinoff_prover]
#[verifier::rlimit(60)]
pub proof fn lemma_table_reports_differing_rows(s: Seq<char>, p: int)
    ensures
        spec_rows(s, p) matches PR::Done(rs, _, e0) ==> (spec_table(s, p) matches PR::Done(t, _, e)
            && rs.len() <= snode_children(t).len() <= rs.len() + 1 && snode_children(t).take(
            rs.len() as int,
        ) == rs && e.take(e0.len() as int) == e0 && e.skip(e0.len() as int).len() == differing_rows(
            rs,
            child_count(rs[0]),
        ) && forall|i: int|
            0 <= i < e.skip(e0.len() as int).len() ==> (#[trigger] e.skip(e0.len() as int)[i]).kind is ColumnMismatch),
{
    if let PR::Done(rs, q, e0) = spec_rows(s, p) {
        let mm = mismatches(rs, child_count(rs[0]), sp(p, q));
        lemma_mismatches_one_per_differing_row(rs, child_count(rs[0]), sp(p, q));
        let e = e0 + mm;
        assert(e.skip(e0.len() as int) =~= mm);
        assert(e.take(e0.len() as int) =~= e0);
        if spec_at_char(s, q, ' ') && spec_label(s, q + 1) is Done {
            assert(rs.push(spec_label(s, q + 1)->0).take(rs.len() as int) =~= rs);
        } else {
            assert(rs.take(rs.len() as int) =~= rs);
        }
    }
}

} // verus!
