//! The block grammar: headings, raw blocks, lists, enumerations, term definitions,
//! tables and paragraphs, each as a function of the model beside its parser.
use crate::kind::SyntaxKind;
use crate::node::{lemma_nodes_view_index, lemma_nodes_view_len, node_view, nodes_view, Node, SNode, Span};
use crate::parser::grammar::{alt, fwd, spec_inlines1, spec_text};
use crate::parser::markup::{
    lemma_prepend_done, lemma_prepend_nothing, lemma_prepend_twice, indent_parser, parse_inlines1,
    text_parser, prepend,
};
use crate::parser::result::{
    advances, append_errors, append_nodes, branch, leaf, leaf_in, mk_branch, mk_leaf, mk_leaf_in,
    no_nodes, node_res, nodes_res, one_node, push_node, sp, stays, two_nodes, ParseError,
    ParseErrorKind, Parsed, PR,
};
use crate::scan::{
    at2, at_char, at_lit, ident, ident_end, level_parser, level_end, newline,
    newline_end, scan, scan_end, spec_at, spec_at2, spec_at_char, CharClass, SpecialSet,
};
use vstd::prelude::*;

verus! {

/// A label `{name}`.
pub open spec fn spec_label(s: Seq<char>, p: int) -> PR<SNode> {
    if spec_at_char(s, p, '{') {
        match ident_end(s, p + 1) {
            Some(q) => if spec_at_char(s, q, '}') {
                PR::Done(leaf_in(s, SyntaxKind::Label, p, q + 1, p + 1, q), q + 1, Seq::empty())
            } else {
                PR::Fail
            },
            None => PR::Fail,
        }
    } else {
        PR::Fail
    }
}

/// Parses a label at `p`.
pub fn label_parser(src: &Vec<char>, p: usize) -> (r: Parsed<Node>)
    requires
        p <= src.len(),
    ensures
        node_res(r) == spec_label(src@, p as int),
        advances(r, p as int, src.len() as int),
{
    if at_char(src, p, '{') {
        match ident(src, p + 1) {
            Some(q) => {
                if at_char(src, q, '}') {
                    Parsed::Done(mk_leaf_in(src, SyntaxKind::Label, p, q + 1, p + 1, q), q + 1, Vec::new())
                } else {
                    Parsed::Fail
                }
            },
            None => Parsed::Fail,
        }
    } else {
        Parsed::Fail
    }
}

/// The end of a heading marker: one to six `=`; more are left for what follows.
pub open spec fn marker_end(s: Seq<char>, p: int) -> int {
    let m = scan_end(s, p, CharClass::Equals);
    if m - p > 6 {
        p + 6
    } else {
        m
    }
}

/// A heading: a marker, a blank, text indented one level on its further lines, and
/// an optional label.
pub open spec fn spec_heading(s: Seq<char>, p: int) -> PR<SNode> {
    let m = marker_end(s, p);
    if m > p && spec_at_char(s, m, ' ') {
        match spec_text(s, m + 1, 1, SpecialSet::Markup) {
            PR::Done(ns, q, e) => {
                let marker = leaf(s, SyntaxKind::HeadingMarker, p, m);
                let content = branch(SyntaxKind::Content, m + 1, q, ns);
                match spec_label(s, q) {
                    PR::Done(l, r, _) => PR::Done(
                        branch(SyntaxKind::Heading, p, r, seq![marker, content, l]),
                        r,
                        e,
                    ),
                    _ => PR::Done(branch(SyntaxKind::Heading, p, q, seq![marker, content]), q, e),
                }
            },
            PR::Fail => PR::Fail,
            PR::Abort => PR::Abort,
        }
    } else {
        PR::Fail
    }
}

/// Parses a heading at `p`.
pub fn parse_heading(src: &Vec<char>, p: usize) -> (r: Parsed<Node>)
    requires
        p <= src.len(),
    ensures
        node_res(r) == spec_heading(src@, p as int),
        advances(r, p as int, src.len() as int),
{
    let m0 = scan(src, p, CharClass::Equals);
    let m = if m0 - p > 6 { p + 6 } else { m0 };
    if m > p && at_char(src, m, ' ') {
        match text_parser(src, m + 1, 1, SpecialSet::Markup) {
            Parsed::Done(ns, q, e) => {
                let marker = mk_leaf(src, SyntaxKind::HeadingMarker, p, m);
                let content = mk_branch(SyntaxKind::Content, m + 1, q, ns);
                match label_parser(src, q) {
                    Parsed::Done(l, r, _) => {
                        let ghost mv = node_view(marker);
                        let ghost cv = node_view(content);
                        let ghost lv = node_view(l);
                        let mut v = two_nodes(marker, content);
                        push_node(&mut v, l);
                        assert(seq![mv, cv].push(lv) =~= seq![mv, cv, lv]);
                        Parsed::Done(mk_branch(SyntaxKind::Heading, p, r, v), r, e)
                    },
                    _ => Parsed::Done(
                        mk_branch(SyntaxKind::Heading, p, q, two_nodes(marker, content)),
                        q,
                        e,
                    ),
                }
            },
            Parsed::Fail => Parsed::Fail,
            Parsed::Abort => Parsed::Abort,
        }
    } else {
        Parsed::Fail
    }
}

/// A raw block between triple backticks, with an optional language right after the
/// opening backticks and at least one character of text.
pub open spec fn spec_raw(s: Seq<char>, p: int) -> PR<SNode> {
    let ticks = seq!['`', '`', '`'];
    if spec_at(s, p, ticks) {
        let c0 = match ident_end(s, p + 3) {
            Some(a) => a,
            None => p + 3,
        };
        let e = scan_end(s, c0, CharClass::NotBacktick);
        if e > c0 && spec_at(s, e, ticks) {
            let text = leaf(s, SyntaxKind::Text, c0, e);
            match ident_end(s, p + 3) {
                Some(a) => PR::Done(
                    branch(
                        SyntaxKind::Raw,
                        p,
                        e + 3,
                        seq![leaf(s, SyntaxKind::RawLang, p + 3, a), text],
                    ),
                    e + 3,
                    Seq::empty(),
                ),
                None => PR::Done(branch(SyntaxKind::Raw, p, e + 3, seq![text]), e + 3, Seq::empty()),
            }
        } else {
            PR::Fail
        }
    } else {
        PR::Fail
    }
}

/// Parses a raw block at `p`.
pub fn parse_raw(src: &Vec<char>, p: usize) -> (r: Parsed<Node>)
    requires
        p <= src.len(),
    ensures
        node_res(r) == spec_raw(src@, p as int),
        advances(r, p as int, src.len() as int),
{
    assert(['`', '`', '`']@ =~= seq!['`', '`', '`']);
    if !at_lit(src, p, &['`', '`', '`']) {
        return Parsed::Fail;
    }
    let lang = ident(src, p + 3);
    let c0 = match lang {
        Some(a) => a,
        None => p + 3,
    };
    let e = scan(src, c0, CharClass::NotBacktick);
    if e > c0 && at_lit(src, e, &['`', '`', '`']) {
        let text = mk_leaf(src, SyntaxKind::Text, c0, e);
        match lang {
            Some(a) => {
                let l = mk_leaf(src, SyntaxKind::RawLang, p + 3, a);
                Parsed::Done(mk_branch(SyntaxKind::Raw, p, e + 3, two_nodes(l, text)), e + 3, Vec::new())
            },
            None => Parsed::Done(mk_branch(SyntaxKind::Raw, p, e + 3, one_node(text)), e + 3, Vec::new()),
        }
    } else {
        Parsed::Fail
    }
}

/// Plain content: one or more inline elements.
pub open spec fn spec_plain(s: Seq<char>, p: int) -> PR<SNode> {
    match spec_inlines1(s, p, SpecialSet::Markup) {
        PR::Done(ns, q, e) => PR::Done(branch(SyntaxKind::Plain, p, q, ns), q, e),
        PR::Fail => PR::Fail,
        PR::Abort => PR::Abort,
    }
}

/// Parses plain content at `p`.
pub fn parse_plain(src: &Vec<char>, p: usize) -> (r: Parsed<Node>)
    requires
        p <= src.len(),
    ensures
        node_res(r) == spec_plain(src@, p as int),
        advances(r, p as int, src.len() as int),
{
    match parse_inlines1(src, p, SpecialSet::Markup) {
        Parsed::Done(ns, q, e) => Parsed::Done(mk_branch(SyntaxKind::Plain, p, q, ns), q, e),
        Parsed::Fail => Parsed::Fail,
        Parsed::Abort => Parsed::Abort,
    }
}

/// The kind of a list whose items start with `m`: `-` for a list, `+` for an
/// enumeration.
pub open spec fn list_kind(m: char) -> SyntaxKind {
    if m == '-' {
        SyntaxKind::List
    } else {
        SyntaxKind::Enum
    }
}

/// The kind of the items of a list whose items start with `m`.
pub open spec fn item_kind(m: char) -> SyntaxKind {
    if m == '-' {
        SyntaxKind::ListItem
    } else {
        SyntaxKind::EnumItem
    }
}

/// The kind of a list whose items start with `m`.
pub fn list_kind_of(m: char) -> (r: SyntaxKind)
    ensures
        r == list_kind(m),
{
    if m == '-' {
        SyntaxKind::List
    } else {
        SyntaxKind::Enum
    }
}

/// The kind of the items of a list whose items start with `m`.
pub fn item_kind_of(m: char) -> (r: SyntaxKind)
    ensures
        r == item_kind(m),
{
    if m == '-' {
        SyntaxKind::ListItem
    } else {
        SyntaxKind::EnumItem
    }
}

/// A list at `ind` levels of indentation: items marked with `m`, one per line.
pub open spec fn spec_list(s: Seq<char>, p: int, ind: nat, m: char) -> PR<SNode>
    decreases s.len() - p, 3int,
{
    match spec_list_item(s, p, ind, m) {
        PR::Done(it, q, e) => if fwd(s, p, q) {
            match spec_list_rest(s, q, ind, m) {
                PR::Done(its, r, e2) => PR::Done(
                    branch(list_kind(m), p, r, seq![it] + its),
                    r,
                    e + e2,
                ),
                PR::Fail => PR::Fail,
                PR::Abort => PR::Abort,
            }
        } else {
            PR::Fail
        },
        PR::Fail => PR::Fail,
        PR::Abort => PR::Abort,
    }
}

/// An item: the marker `m` and a blank, plain content, and a list nested one level
/// deeper on the next lines if there is one.
pub open spec fn spec_list_item(s: Seq<char>, p: int, ind: nat, m: char) -> PR<SNode>
    decreases s.len() - p, 2int,
{
    if spec_at2(s, p, m, ' ') {
        match spec_plain(s, p + 2) {
            PR::Done(pl, q, e) => match newline_end(s, q) {
                Some(q1) => match level_end(s, q1, ind + 1) {
                    Some(q2) => if fwd(s, p, q2) {
                        match spec_list(s, q2, ind + 1, m) {
                            PR::Done(l, r, e2) => PR::Done(
                                branch(item_kind(m), p, r, seq![pl, l]),
                                r,
                                e + e2,
                            ),
                            PR::Fail => PR::Done(branch(item_kind(m), p, q, seq![pl]), q, e),
                            PR::Abort => PR::Abort,
                        }
                    } else {
                        PR::Done(branch(item_kind(m), p, q, seq![pl]), q, e)
                    },
                    None => PR::Done(branch(item_kind(m), p, q, seq![pl]), q, e),
                },
                None => PR::Done(branch(item_kind(m), p, q, seq![pl]), q, e),
            },
            PR::Fail => PR::Fail,
            PR::Abort => PR::Abort,
        }
    } else {
        PR::Fail
    }
}

/// Further items, each on a new line at the same indentation.
pub open spec fn spec_list_rest(s: Seq<char>, p: int, ind: nat, m: char) -> PR<Seq<SNode>>
    decreases s.len() - p, 4int,
{
    match newline_end(s, p) {
        Some(q1) => match level_end(s, q1, ind) {
            Some(q2) => if fwd(s, p, q2) {
                match spec_list_item(s, q2, ind, m) {
                    PR::Done(it, q3, e) => if fwd(s, p, q3) {
                        prepend(seq![it], e, spec_list_rest(s, q3, ind, m))
                    } else {
                        PR::Fail
                    },
                    PR::Fail => PR::Done(Seq::empty(), p, Seq::empty()),
                    PR::Abort => PR::Abort,
                }
            } else {
                PR::Done(Seq::empty(), p, Seq::empty())
            },
            None => PR::Done(Seq::empty(), p, Seq::empty()),
        },
        None => PR::Done(Seq::empty(), p, Seq::empty()),
    }
}

/// Parses a list of items marked with `m` at `p`.
pub fn parse_list(src: &Vec<char>, p: usize, ind: usize, m: char) -> (r: Parsed<Node>)
    requires
        p <= src.len(),
    ensures
        node_res(r) == spec_list(src@, p as int, ind as nat, m),
        advances(r, p as int, src.len() as int),
    decreases src.len() - p, 3int,
{
    match parse_list_item(src, p, ind, m) {
        Parsed::Done(it, q, e) => match parse_list_rest(src, q, ind, m) {
            Parsed::Done(its, r, e2) => {
                let mut v = one_node(it);
                append_nodes(&mut v, its);
                let mut errs = e;
                append_errors(&mut errs, e2);
                Parsed::Done(mk_branch(list_kind_of(m), p, r, v), r, errs)
            },
            Parsed::Fail => Parsed::Fail,
            Parsed::Abort => Parsed::Abort,
        },
        Parsed::Fail => Parsed::Fail,
        Parsed::Abort => Parsed::Abort,
    }
}

/// Parses an item marked with `m` at `p`.
pub fn parse_list_item(src: &Vec<char>, p: usize, ind: usize, m: char) -> (r: Parsed<Node>)
    requires
        p <= src.len(),
    ensures
        node_res(r) == spec_list_item(src@, p as int, ind as nat, m),
        advances(r, p as int, src.len() as int),
    decreases src.len() - p, 2int,
{
    if !at2(src, p, m, ' ') {
        return Parsed::Fail;
    }
    match parse_plain(src, p + 2) {
        Parsed::Done(pl, q, e) => {
            if let Some(q1) = newline(src, q) {
                if let Some(q2) = indent_parser(src, q1, ind) {
                    return match parse_list(src, q2, ind + 1, m) {
                        Parsed::Done(l, r, e2) => {
                            let mut errs = e;
                            append_errors(&mut errs, e2);
                            Parsed::Done(mk_branch(item_kind_of(m), p, r, two_nodes(pl, l)), r, errs)
                        },
                        Parsed::Fail => Parsed::Done(
                            mk_branch(item_kind_of(m), p, q, one_node(pl)),
                            q,
                            e,
                        ),
                        Parsed::Abort => Parsed::Abort,
                    };
                }
            }
            Parsed::Done(mk_branch(item_kind_of(m), p, q, one_node(pl)), q, e)
        },
        Parsed::Fail => Parsed::Fail,
        Parsed::Abort => Parsed::Abort,
    }
}

/// Parses further items marked with `m` at `p`.
pub fn parse_list_rest(src: &Vec<char>, p: usize, ind: usize, m: char) -> (r: Parsed<Vec<Node>>)
    requires
        p <= src.len(),
    ensures
        nodes_res(r) == spec_list_rest(src@, p as int, ind as nat, m),
        stays(r, p as int, src.len() as int),
    decreases src.len() - p, 4int,
{
    if let Some(q1) = newline(src, p) {
        if let Some(q2) = level_parser(src, q1, ind) {
            return match parse_list_item(src, q2, ind, m) {
                Parsed::Done(it, q3, e) => match parse_list_rest(src, q3, ind, m) {
                    Parsed::Done(its, r, e2) => {
                        let mut v = one_node(it);
                        append_nodes(&mut v, its);
                        let mut errs = e;
                        append_errors(&mut errs, e2);
                        Parsed::Done(v, r, errs)
                    },
                    Parsed::Fail => Parsed::Fail,
                    Parsed::Abort => Parsed::Abort,
                },
                Parsed::Fail => Parsed::Done(no_nodes(), p, Vec::new()),
                Parsed::Abort => Parsed::Abort,
            };
        }
    }
    Parsed::Done(no_nodes(), p, Vec::new())
}

/// A term definition: `> ` and the term, `: ` and the description, which is text
/// indented one level on its further lines. A colon ends the term.
pub open spec fn spec_term_item(s: Seq<char>, p: int) -> PR<SNode> {
    if spec_at2(s, p, '>', ' ') {
        match spec_inlines1(s, p + 2, SpecialSet::Term) {
            PR::Done(ts, q, e) => if spec_at2(s, q, ':', ' ') {
                match spec_text(s, q + 2, 1, SpecialSet::Markup) {
                    PR::Done(ds, r, e2) => PR::Done(
                        branch(
                            SyntaxKind::TermItem,
                            p,
                            r,
                            seq![
                                branch(SyntaxKind::Content, p + 2, q, ts),
                                branch(SyntaxKind::Content, q + 2, r, ds),
                            ],
                        ),
                        r,
                        e + e2,
                    ),
                    PR::Fail => PR::Fail,
                    PR::Abort => PR::Abort,
                }
            } else {
                PR::Fail
            },
            PR::Fail => PR::Fail,
            PR::Abort => PR::Abort,
        }
    } else {
        PR::Fail
    }
}

/// Parses a term definition at `p`.
pub fn parse_term_item(src: &Vec<char>, p: usize) -> (r: Parsed<Node>)
    requires
        p <= src.len(),
    ensures
        node_res(r) == spec_term_item(src@, p as int),
        advances(r, p as int, src.len() as int),
{
    if !at2(src, p, '>', ' ') {
        return Parsed::Fail;
    }
    match parse_inlines1(src, p + 2, SpecialSet::Term) {
        Parsed::Done(ts, q, e) => {
            if !at2(src, q, ':', ' ') {
                return Parsed::Fail;
            }
            match text_parser(src, q + 2, 1, SpecialSet::Markup) {
                Parsed::Done(ds, r, e2) => {
                    let t = mk_branch(SyntaxKind::Content, p + 2, q, ts);
                    let d = mk_branch(SyntaxKind::Content, q + 2, r, ds);
                    let mut errs = e;
                    append_errors(&mut errs, e2);
                    Parsed::Done(mk_branch(SyntaxKind::TermItem, p, r, two_nodes(t, d)), r, errs)
                },
                Parsed::Fail => Parsed::Fail,
                Parsed::Abort => Parsed::Abort,
            }
        },
        Parsed::Fail => Parsed::Fail,
        Parsed::Abort => Parsed::Abort,
    }
}

/// Further term definitions, each on a new line.
pub open spec fn spec_terms_rest(s: Seq<char>, p: int) -> PR<Seq<SNode>>
    decreases s.len() - p,
{
    match newline_end(s, p) {
        Some(q1) => if fwd(s, p, q1) {
            match spec_term_item(s, q1) {
                PR::Done(it, q, e) => if fwd(s, p, q) {
                    prepend(seq![it], e, spec_terms_rest(s, q))
                } else {
                    PR::Fail
                },
                PR::Fail => PR::Done(Seq::empty(), p, Seq::empty()),
                PR::Abort => PR::Abort,
            }
        } else {
            PR::Done(Seq::empty(), p, Seq::empty())
        },
        None => PR::Done(Seq::empty(), p, Seq::empty()),
    }
}

/// Parses further term definitions at `p`.
pub fn parse_terms_rest(src: &Vec<char>, p: usize) -> (r: Parsed<Vec<Node>>)
    requires
        p <= src.len(),
    ensures
        nodes_res(r) == spec_terms_rest(src@, p as int),
        stays(r, p as int, src.len() as int),
    decreases src.len() - p,
{
    if let Some(q1) = newline(src, p) {
        return match parse_term_item(src, q1) {
            Parsed::Done(it, q, e) => match parse_terms_rest(src, q) {
                Parsed::Done(its, r, e2) => {
                    let mut v = one_node(it);
                    append_nodes(&mut v, its);
                    let mut errs = e;
                    append_errors(&mut errs, e2);
                    Parsed::Done(v, r, errs)
                },
                Parsed::Fail => Parsed::Fail,
                Parsed::Abort => Parsed::Abort,
            },
            Parsed::Fail => Parsed::Done(no_nodes(), p, Vec::new()),
            Parsed::Abort => Parsed::Abort,
        };
    }
    Parsed::Done(no_nodes(), p, Vec::new())
}

/// Term definitions, one per line.
pub open spec fn spec_terms(s: Seq<char>, p: int) -> PR<SNode> {
    match spec_term_item(s, p) {
        PR::Done(it, q, e) => if fwd(s, p, q) {
            match spec_terms_rest(s, q) {
                PR::Done(its, r, e2) => PR::Done(
                    branch(SyntaxKind::Terms, p, r, seq![it] + its),
                    r,
                    e + e2,
                ),
                PR::Fail => PR::Fail,
                PR::Abort => PR::Abort,
            }
        } else {
            PR::Fail
        },
        PR::Fail => PR::Fail,
        PR::Abort => PR::Abort,
    }
}

/// Parses term definitions at `p`.
pub fn parse_terms(src: &Vec<char>, p: usize) -> (r: Parsed<Node>)
    requires
        p <= src.len(),
    ensures
        node_res(r) == spec_terms(src@, p as int),
        advances(r, p as int, src.len() as int),
{
    match parse_term_item(src, p) {
        Parsed::Done(it, q, e) => match parse_terms_rest(src, q) {
            Parsed::Done(its, r, e2) => {
                let mut v = one_node(it);
                append_nodes(&mut v, its);
                let mut errs = e;
                append_errors(&mut errs, e2);
                Parsed::Done(mk_branch(SyntaxKind::Terms, p, r, v), r, errs)
            },
            Parsed::Fail => Parsed::Fail,
            Parsed::Abort => Parsed::Abort,
        },
        Parsed::Fail => Parsed::Fail,
        Parsed::Abort => Parsed::Abort,
    }
}

/// A paragraph: text at no indentation.
pub open spec fn spec_paragraph(s: Seq<char>, p: int) -> PR<SNode> {
    match spec_text(s, p, 0, SpecialSet::Markup) {
        PR::Done(ns, q, e) => PR::Done(branch(SyntaxKind::Paragraph, p, q, ns), q, e),
        PR::Fail => PR::Fail,
        PR::Abort => PR::Abort,
    }
}

/// Parses a paragraph at `p`.
pub fn parse_paragraph(src: &Vec<char>, p: usize) -> (r: Parsed<Node>)
    requires
        p <= src.len(),
    ensures
        node_res(r) == spec_paragraph(src@, p as int),
        advances(r, p as int, src.len() as int),
{
    match text_parser(src, p, 0, SpecialSet::Markup) {
        Parsed::Done(ns, q, e) => Parsed::Done(mk_branch(SyntaxKind::Paragraph, p, q, ns), q, e),
        Parsed::Fail => Parsed::Fail,
        Parsed::Abort => Parsed::Abort,
    }
}

/// A list or enumeration of one item without nesting, as a table cell holds it.
pub open spec fn spec_single_item(s: Seq<char>, p: int, m: char) -> PR<SNode> {
    if spec_at2(s, p, m, ' ') {
        match spec_plain(s, p + 2) {
            PR::Done(pl, q, e) => PR::Done(
                branch(list_kind(m), p, q, seq![branch(item_kind(m), p, q, seq![pl])]),
                q,
                e,
            ),
            PR::Fail => PR::Fail,
            PR::Abort => PR::Abort,
        }
    } else {
        PR::Fail
    }
}

/// Parses a list of one item marked with `m` at `p`.
pub fn parse_single_item(src: &Vec<char>, p: usize, m: char) -> (r: Parsed<Node>)
    requires
        p <= src.len(),
    ensures
        node_res(r) == spec_single_item(src@, p as int, m),
        advances(r, p as int, src.len() as int),
{
    if !at2(src, p, m, ' ') {
        return Parsed::Fail;
    }
    match parse_plain(src, p + 2) {
        Parsed::Done(pl, q, e) => {
            let it = mk_branch(item_kind_of(m), p, q, one_node(pl));
            Parsed::Done(mk_branch(list_kind_of(m), p, q, one_node(it)), q, e)
        },
        Parsed::Fail => Parsed::Fail,
        Parsed::Abort => Parsed::Abort,
    }
}

/// A table cell: a list item, an enumeration item or a paragraph, with blanks on
/// either side.
pub open spec fn spec_cell(s: Seq<char>, p: int) -> PR<SNode> {
    let a = scan_end(s, p, CharClass::Blank);
    match alt(spec_single_item(s, a, '-'), alt(spec_single_item(s, a, '+'), spec_paragraph(s, a))) {
        PR::Done(n, q, e) => PR::Done(n, scan_end(s, q, CharClass::Blank), e),
        PR::Fail => PR::Fail,
        PR::Abort => PR::Abort,
    }
}

/// Parses a table cell at `p`.
pub fn parse_cell(src: &Vec<char>, p: usize) -> (r: Parsed<Node>)
    requires
        p <= src.len(),
    ensures
        node_res(r) == spec_cell(src@, p as int),
        advances(r, p as int, src.len() as int),
{
    let a = scan(src, p, CharClass::Blank);
    let r = match parse_single_item(src, a, '-') {
        Parsed::Fail => match parse_single_item(src, a, '+') {
            Parsed::Fail => parse_paragraph(src, a),
            r => r,
        },
        r => r,
    };
    match r {
        Parsed::Done(n, q, e) => {
            let b = scan(src, q, CharClass::Blank);
            Parsed::Done(n, b, e)
        },
        Parsed::Fail => Parsed::Fail,
        Parsed::Abort => Parsed::Abort,
    }
}

/// Further cells of a row, each after a `|`; a `|` that no cell follows is left
/// for the end of the row.
pub open spec fn spec_cells_rest(s: Seq<char>, p: int) -> PR<Seq<SNode>>
    decreases s.len() - p,
{
    if spec_at_char(s, p, '|') {
        match spec_cell(s, p + 1) {
            PR::Done(c, q, e) => if fwd(s, p, q) {
                prepend(seq![c], e, spec_cells_rest(s, q))
            } else {
                PR::Fail
            },
            PR::Fail => PR::Done(Seq::empty(), p, Seq::empty()),
            PR::Abort => PR::Abort,
        }
    } else {
        PR::Done(Seq::empty(), p, Seq::empty())
    }
}

/// Parses further cells at `p`.
pub fn parse_cells_rest(src: &Vec<char>, p: usize) -> (r: Parsed<Vec<Node>>)
    requires
        p <= src.len(),
    ensures
        nodes_res(r) == spec_cells_rest(src@, p as int),
        stays(r, p as int, src.len() as int),
    decreases src.len() - p,
{
    if at_char(src, p, '|') {
        match parse_cell(src, p + 1) {
            Parsed::Done(c, q, e) => match parse_cells_rest(src, q) {
                Parsed::Done(cs, r, e2) => {
                    let mut v = one_node(c);
                    append_nodes(&mut v, cs);
                    let mut errs = e;
                    append_errors(&mut errs, e2);
                    Parsed::Done(v, r, errs)
                },
                Parsed::Fail => Parsed::Fail,
                Parsed::Abort => Parsed::Abort,
            },
            Parsed::Fail => Parsed::Done(no_nodes(), p, Vec::new()),
            Parsed::Abort => Parsed::Abort,
        }
    } else {
        Parsed::Done(no_nodes(), p, Vec::new())
    }
}

/// A table row: cells between `|`, at least one.
pub open spec fn spec_row(s: Seq<char>, p: int) -> PR<SNode> {
    if spec_at_char(s, p, '|') {
        match spec_cell(s, p + 1) {
            PR::Done(c, q, e) => if fwd(s, p, q) {
                match spec_cells_rest(s, q) {
                    PR::Done(cs, r, e2) => if spec_at_char(s, r, '|') {
                        PR::Done(branch(SyntaxKind::TableRow, p, r + 1, seq![c] + cs), r + 1, e + e2)
                    } else {
                        PR::Fail
                    },
                    PR::Fail => PR::Fail,
                    PR::Abort => PR::Abort,
                }
            } else {
                PR::Fail
            },
            PR::Fail => PR::Fail,
            PR::Abort => PR::Abort,
        }
    } else {
        PR::Fail
    }
}

/// Parses a table row at `p`.
pub fn parse_row(src: &Vec<char>, p: usize) -> (r: Parsed<Node>)
    requires
        p <= src.len(),
    ensures
        node_res(r) == spec_row(src@, p as int),
        advances(r, p as int, src.len() as int),
{
    if !at_char(src, p, '|') {
        return Parsed::Fail;
    }
    match parse_cell(src, p + 1) {
        Parsed::Done(c, q, e) => match parse_cells_rest(src, q) {
            Parsed::Done(cs, r, e2) => {
                if at_char(src, r, '|') {
                    let mut v = one_node(c);
                    append_nodes(&mut v, cs);
                    let mut errs = e;
                    append_errors(&mut errs, e2);
                    Parsed::Done(mk_branch(SyntaxKind::TableRow, p, r + 1, v), r + 1, errs)
                } else {
                    Parsed::Fail
                }
            },
            Parsed::Fail => Parsed::Fail,
            Parsed::Abort => Parsed::Abort,
        },
        Parsed::Fail => Parsed::Fail,
        Parsed::Abort => Parsed::Abort,
    }
}

/// Further rows, each on a new line.
pub open spec fn spec_rows_rest(s: Seq<char>, p: int) -> PR<Seq<SNode>>
    decreases s.len() - p,
{
    match newline_end(s, p) {
        Some(q1) => if fwd(s, p, q1) {
            match spec_row(s, q1) {
                PR::Done(rw, q, e) => if fwd(s, p, q) {
                    prepend(seq![rw], e, spec_rows_rest(s, q))
                } else {
                    PR::Fail
                },
                PR::Fail => PR::Done(Seq::empty(), p, Seq::empty()),
                PR::Abort => PR::Abort,
            }
        } else {
            PR::Done(Seq::empty(), p, Seq::empty())
        },
        None => PR::Done(Seq::empty(), p, Seq::empty()),
    }
}

/// Parses further rows at `p`.
pub fn parse_rows_rest(src: &Vec<char>, p: usize) -> (r: Parsed<Vec<Node>>)
    requires
        p <= src.len(),
    ensures
        nodes_res(r) == spec_rows_rest(src@, p as int),
        stays(r, p as int, src.len() as int),
    decreases src.len() - p,
{
    if let Some(q1) = newline(src, p) {
        return match parse_row(src, q1) {
            Parsed::Done(rw, q, e) => match parse_rows_rest(src, q) {
                Parsed::Done(rws, r, e2) => {
                    let mut v = one_node(rw);
                    append_nodes(&mut v, rws);
                    let mut errs = e;
                    append_errors(&mut errs, e2);
                    Parsed::Done(v, r, errs)
                },
                Parsed::Fail => Parsed::Fail,
                Parsed::Abort => Parsed::Abort,
            },
            Parsed::Fail => Parsed::Done(no_nodes(), p, Vec::new()),
            Parsed::Abort => Parsed::Abort,
        };
    }
    Parsed::Done(no_nodes(), p, Vec::new())
}

/// One or more rows, one per line.
pub open spec fn spec_rows(s: Seq<char>, p: int) -> PR<Seq<SNode>> {
    match spec_row(s, p) {
        PR::Done(rw, q, e) => if fwd(s, p, q) {
            prepend(seq![rw], e, spec_rows_rest(s, q))
        } else {
            PR::Fail
        },
        PR::Fail => PR::Fail,
        PR::Abort => PR::Abort,
    }
}

/// Parses one or more rows at `p`.
pub fn parse_rows(src: &Vec<char>, p: usize) -> (r: Parsed<Vec<Node>>)
    requires
        p <= src.len(),
    ensures
        nodes_res(r) == spec_rows(src@, p as int),
        advances(r, p as int, src.len() as int),
        r matches Parsed::Done(v, _, _) ==> v@.len() > 0,
{
    match parse_row(src, p) {
        Parsed::Done(rw, q, e) => match parse_rows_rest(src, q) {
            Parsed::Done(rws, r, e2) => {
                let mut v = one_node(rw);
                append_nodes(&mut v, rws);
                proof {
                    lemma_nodes_view_len(v@);
                }
                let mut errs = e;
                append_errors(&mut errs, e2);
                Parsed::Done(v, r, errs)
            },
            Parsed::Fail => Parsed::Fail,
            Parsed::Abort => Parsed::Abort,
        },
        Parsed::Fail => Parsed::Fail,
        Parsed::Abort => Parsed::Abort,
    }
}

/// The number of children of a node; leaves and error nodes have none.
pub open spec fn child_count(n: SNode) -> nat {
    match n {
        SNode::Branch(_, _, c) => c.len(),
        _ => 0,
    }
}

/// Counts the children of a node.
pub fn child_len(n: &Node) -> (r: usize)
    ensures
        r == child_count(node_view(*n)),
{
    match n {
        Node::Branch(b) => {
            proof {
                lemma_nodes_view_len(b.children@);
            }
            b.children.len()
        },
        _ => 0,
    }
}

/// One error for each row whose number of cells differs from `n`, in the order of
/// the rows, each with the span of all rows.
pub open spec fn mismatches(rows: Seq<SNode>, n: nat, span: Span) -> Seq<ParseError>
    decreases rows.len(),
{
    if rows.len() == 0 {
        Seq::empty()
    } else {
        mismatches(rows.drop_last(), n, span) + if child_count(rows.last()) != n {
            seq![ParseError { span, kind: ParseErrorKind::ColumnMismatch }]
        } else {
            Seq::empty()
        }
    }
}

/// A table: rows, then an optional blank and label. Rows whose number of cells
/// differs from that of the first row are reported, and the table is kept.
pub open spec fn spec_table(s: Seq<char>, p: int) -> PR<SNode> {
    match spec_rows(s, p) {
        PR::Done(rs, q, e) => {
            let errs = e + mismatches(rs, child_count(rs[0]), sp(p, q));
            if spec_at_char(s, q, ' ') && spec_label(s, q + 1) is Done {
                let r = spec_label(s, q + 1)->1;
                PR::Done(branch(SyntaxKind::Table, p, r, rs.push(spec_label(s, q + 1)->0)), r, errs)
            } else {
                PR::Done(branch(SyntaxKind::Table, p, q, rs), q, errs)
            }
        },
        PR::Fail => PR::Fail,
        PR::Abort => PR::Abort,
    }
}

/// Reports the rows whose number of cells differs from that of the first.
pub fn row_mismatches(rows: &Vec<Node>, a: usize, b: usize) -> (r: Vec<ParseError>)
    requires
        rows@.len() > 0,
    ensures
        r@ == mismatches(
            nodes_view(rows@),
            child_count(nodes_view(rows@)[0]),
            sp(a as int, b as int),
        ),
{
    proof {
        lemma_nodes_view_len(rows@);
        lemma_nodes_view_index(rows@, 0);
    }
    let n = child_len(&rows[0]);
    let ghost rs = nodes_view(rows@);
    let mut errs: Vec<ParseError> = Vec::new();
    let mut i: usize = 0;
    assert(rs.take(0) =~= Seq::<SNode>::empty());
    while i < rows.len()
        invariant
            i <= rows@.len(),
            rs == nodes_view(rows@),
            rs.len() == rows@.len(),
            n == child_count(rs[0]),
            errs@ == mismatches(rs.take(i as int), n as nat, sp(a as int, b as int)),
        decreases rows.len() - i,
    {
        proof {
            lemma_nodes_view_index(rows@, i as int);
            assert(rs.take(i + 1).drop_last() =~= rs.take(i as int));
            assert(rs.take(i + 1).last() == rs[i as int]);
        }
        if child_len(&rows[i]) != n {
            errs.push(ParseError { span: Span { start: a, end: b }, kind: ParseErrorKind::ColumnMismatch });
        }
        i = i + 1;
    }
    assert(rs.take(rows@.len() as int) =~= rs);
    errs
}

/// Parses a table at `p`.
#[verifier::spinoff_prover]
#[verifier::rlimit(50)]
pub fn parse_table(src: &Vec<char>, p: usize) -> (r: Parsed<Node>)
    requires
        p <= src.len(),
    ensures
        node_res(r) == spec_table(src@, p as int),
        advances(r, p as int, src.len() as int),
{
    match parse_rows(src, p) {
        Parsed::Done(rs, q, e) => {
            let ghost rv = nodes_view(rs@);
            let ghost ev = e@;
            let mm = row_mismatches(&rs, p, q);
            let mut errs = e;
            append_errors(&mut errs, mm);
            assert(errs@ == ev + mismatches(rv, child_count(rv[0]), sp(p as int, q as int)));
            if at_char(src, q, ' ') {
                match label_parser(src, q + 1) {
                    Parsed::Done(l, r, _) => {
                        let mut v = rs;
                        push_node(&mut v, l);
                        return Parsed::Done(mk_branch(SyntaxKind::Table, p, r, v), r, errs);
                    },
                    _ => {},
                }
            }
            Parsed::Done(mk_branch(SyntaxKind::Table, p, q, rs), q, errs)
        },
        Parsed::Fail => Parsed::Fail,
        Parsed::Abort => Parsed::Abort,
    }
}

/// A block. The alternatives are tried in order: a heading, a raw block, a list,
/// an enumeration, term definitions, a table, a paragraph.
pub open spec fn spec_block(s: Seq<char>, p: int) -> PR<SNode> {
    alt(
        spec_heading(s, p),
        alt(
            spec_raw(s, p),
            alt(
                spec_list(s, p, 0, '-'),
                alt(
                    spec_list(s, p, 0, '+'),
                    alt(spec_terms(s, p), alt(spec_table(s, p), spec_paragraph(s, p))),
                ),
            ),
        ),
    )
}

/// Parses a block at `p`.
pub fn block_parser(src: &Vec<char>, p: usize) -> (r: Parsed<Node>)
    requires
        p <= src.len(),
    ensures
        node_res(r) == spec_block(src@, p as int),
        advances(r, p as int, src.len() as int),
{
    match parse_heading(src, p) {
        Parsed::Fail => {},
        r => {
            return r;
        },
    }
    match parse_raw(src, p) {
        Parsed::Fail => {},
        r => {
            return r;
        },
    }
    match parse_list(src, p, 0, '-') {
        Parsed::Fail => {},
        r => {
            return r;
        },
    }
    match parse_list(src, p, 0, '+') {
        Parsed::Fail => {},
        r => {
            return r;
        },
    }
    match parse_terms(src, p) {
        Parsed::Fail => {},
        r => {
            return r;
        },
    }
    match parse_table(src, p) {
        Parsed::Fail => {},
        r => {
            return r;
        },
    }
    parse_paragraph(src, p)
}

/// The end of a run of zero or more line breaks at `p`.
pub open spec fn newlines_end(s: Seq<char>, p: int) -> int
    decreases s.len() - p,
{
    match newline_end(s, p) {
        Some(q) => if fwd(s, p, q) {
            newlines_end(s, q)
        } else {
            p
        },
        None => p,
    }
}

/// Skips a run of line breaks at `p`.
pub fn newlines(src: &Vec<char>, p: usize) -> (r: usize)
    requires
        p <= src.len(),
    ensures
        r == newlines_end(src@, p as int),
        p <= r <= src.len(),
{
    let mut i = p;
    loop
        invariant
            p <= i <= src.len(),
            newlines_end(src@, i as int) == newlines_end(src@, p as int),
        decreases src.len() - i,
    {
        match newline(src, i) {
            Some(q) => {
                i = q;
            },
            None => {
                return i;
            },
        }
    }
}

/// Further blocks, each after two or more line breaks; line breaks that no block
/// follows stay consumed.
pub open spec fn spec_blocks_rest(s: Seq<char>, p: int) -> PR<Seq<SNode>>
    decreases s.len() - p,
{
    match newline_end(s, p) {
        Some(q1) => match newline_end(s, q1) {
            Some(q2) => {
                let q3 = newlines_end(s, q2);
                if fwd(s, p, q3) {
                    match spec_block(s, q3) {
                        PR::Done(b, r, e) => if fwd(s, p, r) {
                            prepend(seq![b], e, spec_blocks_rest(s, r))
                        } else {
                            PR::Fail
                        },
                        PR::Fail => PR::Done(Seq::empty(), q3, Seq::empty()),
                        PR::Abort => PR::Abort,
                    }
                } else {
                    PR::Fail
                }
            },
            None => PR::Done(Seq::empty(), p, Seq::empty()),
        },
        None => PR::Done(Seq::empty(), p, Seq::empty()),
    }
}

/// Parses further blocks at `p`.
pub fn parse_blocks_rest(src: &Vec<char>, p: usize) -> (r: Parsed<Vec<Node>>)
    requires
        p <= src.len(),
    ensures
        nodes_res(r) == spec_blocks_rest(src@, p as int),
        stays(r, p as int, src.len() as int),
{
    let mut acc: Vec<Node> = no_nodes();
    let mut errs: Vec<ParseError> = Vec::new();
    let mut i = p;
    proof {
        lemma_prepend_nothing(spec_blocks_rest(src@, p as int));
    }
    loop
        invariant
            p <= i <= src.len(),
            spec_blocks_rest(src@, p as int) == prepend(
                nodes_view(acc@),
                errs@,
                spec_blocks_rest(src@, i as int),
            ),
        decreases src.len() - i,
    {
        let q1 = match newline(src, i) {
            Some(q1) => q1,
            None => {
                proof {
                    lemma_prepend_done(nodes_view(acc@), errs@, i as int);
                }
                return Parsed::Done(acc, i, errs);
            },
        };
        let q2 = match newline(src, q1) {
            Some(q2) => q2,
            None => {
                proof {
                    lemma_prepend_done(nodes_view(acc@), errs@, i as int);
                }
                return Parsed::Done(acc, i, errs);
            },
        };
        let q3 = newlines(src, q2);
        match block_parser(src, q3) {
            Parsed::Done(b, r, e) => {
                let ghost before = nodes_view(acc@);
                let ghost before_errs = errs@;
                proof {
                    lemma_prepend_twice(
                        before,
                        before_errs,
                        seq![node_view(b)],
                        e@,
                        spec_blocks_rest(src@, r as int),
                    );
                }
                push_node(&mut acc, b);
                assert(nodes_view(acc@) =~= before + seq![node_view(b)]);
                append_errors(&mut errs, e);
                i = r;
            },
            Parsed::Fail => {
                proof {
                    lemma_prepend_done(nodes_view(acc@), errs@, q3 as int);
                }
                return Parsed::Done(acc, q3, errs);
            },
            Parsed::Abort => {
                return Parsed::Abort;
            },
        }
    }
}

/// The blocks of a document: one or more, separated by blank lines.
pub open spec fn spec_blocks(s: Seq<char>, p: int) -> PR<Seq<SNode>> {
    match spec_block(s, p) {
        PR::Done(b, q, e) => if fwd(s, p, q) {
            prepend(seq![b], e, spec_blocks_rest(s, q))
        } else {
            PR::Fail
        },
        PR::Fail => PR::Fail,
        PR::Abort => PR::Abort,
    }
}

/// Parses the blocks of a document at `p`.
pub fn parse_blocks(src: &Vec<char>, p: usize) -> (r: Parsed<Vec<Node>>)
    requires
        p <= src.len(),
    ensures
        nodes_res(r) == spec_blocks(src@, p as int),
        advances(r, p as int, src.len() as int),
{
    match block_parser(src, p) {
        Parsed::Done(b, q, e) => match parse_blocks_rest(src, q) {
            Parsed::Done(bs, t, e2) => {
                let mut v = one_node(b);
                append_nodes(&mut v, bs);
                let mut errs = e;
                append_errors(&mut errs, e2);
                Parsed::Done(v, t, errs)
            },
            Parsed::Fail => Parsed::Fail,
            Parsed::Abort => Parsed::Abort,
        },
        Parsed::Fail => Parsed::Fail,
        Parsed::Abort => Parsed::Abort,
    }
}

} // verus!
