//! The parsers of inline markup, text and code; each computes what its function in
//! `grammar` gives.
use crate::kind::SyntaxKind;
use crate::node::{node_view, nodes_view, Node, SNode};
use crate::parser::grammar::{
    blank_kw_ws, kw_ws, spec_arg, spec_arg_unnamed, spec_arglist, spec_arglist_rest, spec_args, spec_bind,
    spec_binds, spec_binds_rest, spec_call, spec_code, spec_content, spec_content_expr,
    spec_content_nested, spec_delimited, spec_expr, spec_for, spec_ident_expr, spec_if, spec_inline,
    spec_inlines, spec_inlines1, spec_let, spec_link, spec_script, spec_text, spec_text_rest,
    spec_wrapped,
};
use crate::parser::literal::literal_parser;
use crate::parser::result::{
    advances, append_errors, append_nodes, branch, mk_branch, mk_leaf, mk_leaf_in, no_nodes,
    node_res, nodes_res, one_node, push_node, stays, ParseError, Parsed, PR,
};
use crate::parser::token::{
    parse_comment, parse_escape, inline_recovery, parse_ref, parse_spacing, parse_verbatim,
    parse_word,
};
use crate::scan::{
    level_end,
    at2, at_char, at_lit, ident, in_set, lemma_level_end_bounds, level_parser,
    newline, padded, scan, CharClass, SpecialSet,
};
use vstd::prelude::*;

verus! {

/// Nodes and errors put before the outcome of a parser of a sequence of nodes.
pub open spec fn prepend(ns: Seq<SNode>, e: Seq<ParseError>, r: PR<Seq<SNode>>) -> PR<Seq<SNode>> {
    match r {
        PR::Done(ms, q, e2) => PR::Done(ns + ms, q, e + e2),
        PR::Fail => PR::Fail,
        PR::Abort => PR::Abort,
    }
}

/// Putting two groups before an outcome is putting their concatenation before it.
pub proof fn lemma_prepend_twice(
    a: Seq<SNode>,
    ea: Seq<ParseError>,
    b: Seq<SNode>,
    eb: Seq<ParseError>,
    r: PR<Seq<SNode>>,
)
    ensures
        prepend(a, ea, prepend(b, eb, r)) == prepend(a + b, ea + eb, r),
{
    match r {
        PR::Done(ms, q, e2) => {
            assert(a + (b + ms) =~= (a + b) + ms);
            assert(ea + (eb + e2) =~= (ea + eb) + e2);
        },
        _ => {},
    }
}

/// Putting nothing before an outcome keeps it.
pub proof fn lemma_prepend_nothing(r: PR<Seq<SNode>>)
    ensures
        prepend(Seq::empty(), Seq::empty(), r) == r,
{
    match r {
        PR::Done(ms, q, e2) => {
            assert(Seq::<SNode>::empty() + ms =~= ms);
            assert(Seq::<ParseError>::empty() + e2 =~= e2);
        },
        _ => {},
    }
}

/// Putting nodes and errors before an empty success gives them.
pub proof fn lemma_prepend_done(ns: Seq<SNode>, e: Seq<ParseError>, q: int)
    ensures
        prepend(ns, e, PR::Done(Seq::empty(), q, Seq::empty())) == PR::<Seq<SNode>>::Done(ns, q, e),
{
    assert(ns + Seq::<SNode>::empty() =~= ns);
    assert(e + Seq::<ParseError>::empty() =~= e);
}

/// Parses a keyword followed by at least one blank or tab.
pub fn keyword_ws(src: &Vec<char>, p: usize, kw: &[char]) -> (r: Option<usize>)
    requires
        p <= src.len(),
    ensures
        r is Some <==> kw_ws(src@, p as int, kw@) is Some,
        r matches Some(q) ==> kw_ws(src@, p as int, kw@) == Some(q as int) && p < q <= src.len(),
{
    if at_lit(src, p, kw) {
        let e = scan(src, p + kw.len(), CharClass::InlineWhitespace);
        if e > p + kw.len() {
            Some(e)
        } else {
            None
        }
    } else {
        None
    }
}

/// Parses blanks or tabs, at least one, then a keyword followed by at least one
/// blank or tab.
pub fn blank_keyword_ws(src: &Vec<char>, p: usize, kw: &[char]) -> (r: Option<usize>)
    requires
        p <= src.len(),
    ensures
        r is Some <==> blank_kw_ws(src@, p as int, kw@) is Some,
        r matches Some(q) ==> blank_kw_ws(src@, p as int, kw@) == Some(q as int) && p < q <= src.len(),
{
    let b = scan(src, p, CharClass::InlineWhitespace);
    if b > p {
        keyword_ws(src, b, kw)
    } else {
        None
    }
}

/// Parses one level of indentation more than `ind` at `p`.
pub fn indent_parser(src: &Vec<char>, p: usize, ind: usize) -> (r: Option<usize>)
    requires
        p <= src.len(),
    ensures
        r is Some <==> level_end(src@, p as int, (ind + 1) as nat) is Some,
        r matches Some(q) ==> level_end(src@, p as int, (ind + 1) as nat) == Some(q as int) && p
            + ind + 1 <= q <= src.len(),
{
    proof {
        lemma_level_end_bounds(src@, p as int, (ind + 1) as nat);
    }
    if ind < src.len() - p {
        level_parser(src, p, ind + 1)
    } else {
        None
    }
}

/// Parses zero or more inline elements at `p`.
pub fn parse_inlines(src: &Vec<char>, p: usize, set: SpecialSet) -> (r: Parsed<Vec<Node>>)
    requires
        p <= src.len(),
    ensures
        nodes_res(r) == spec_inlines(src@, p as int, set),
        stays(r, p as int, src.len() as int),
    decreases src.len() - p, 56int,
{
    let mut acc: Vec<Node> = no_nodes();
    let mut errs: Vec<ParseError> = Vec::new();
    let mut i = p;
    proof {
        assert(prepend(Seq::empty(), Seq::empty(), spec_inlines(src@, p as int, set)) == spec_inlines(
            src@,
            p as int,
            set,
        )) by {
            match spec_inlines(src@, p as int, set) {
                PR::Done(ms, q, e2) => {
                    assert(Seq::<SNode>::empty() + ms =~= ms);
                    assert(Seq::<ParseError>::empty() + e2 =~= e2);
                },
                _ => {},
            }
        }
    }
    loop
        invariant
            p <= i <= src.len(),
            spec_inlines(src@, p as int, set) == prepend(
                nodes_view(acc@),
                errs@,
                spec_inlines(src@, i as int, set),
            ),
        decreases src.len() - i,
    {
        match inline_parser(src, i, set) {
            Parsed::Fail => {
                assert(nodes_view(acc@) + Seq::<SNode>::empty() =~= nodes_view(acc@));
                assert(errs@ + Seq::<ParseError>::empty() =~= errs@);
                return Parsed::Done(acc, i, errs);
            },
            Parsed::Abort => {
                return Parsed::Abort;
            },
            Parsed::Done(n, q, e) => {
                let ghost old_acc = nodes_view(acc@);
                let ghost old_errs = errs@;
                proof {
                    assert(spec_inlines(src@, i as int, set) == prepend(
                        seq![node_view(n)],
                        e@,
                        spec_inlines(src@, q as int, set),
                    ));
                    lemma_prepend_twice(
                        old_acc,
                        old_errs,
                        seq![node_view(n)],
                        e@,
                        spec_inlines(src@, q as int, set),
                    );
                }
                push_node(&mut acc, n);
                append_errors(&mut errs, e);
                assert(nodes_view(acc@) =~= old_acc + seq![node_view(n)]);
                i = q;
            },
        }
    }
}

/// Parses one or more inline elements at `p`.
pub fn parse_inlines1(src: &Vec<char>, p: usize, set: SpecialSet) -> (r: Parsed<Vec<Node>>)
    requires
        p <= src.len(),
    ensures
        nodes_res(r) == spec_inlines1(src@, p as int, set),
        advances(r, p as int, src.len() as int),
    decreases src.len() - p, 57int,
{
    match inline_parser(src, p, set) {
        Parsed::Fail => Parsed::Fail,
        Parsed::Abort => Parsed::Abort,
        Parsed::Done(n, q, e) => {
            match parse_inlines(src, q, set) {
                Parsed::Done(ns, r, e2) => {
                    let mut v = one_node(n);
                    append_nodes(&mut v, ns);
                    let mut errs = e;
                    append_errors(&mut errs, e2);
                    Parsed::Done(v, r, errs)
                },
                Parsed::Fail => Parsed::Fail,
                Parsed::Abort => Parsed::Abort,
            }
        },
    }
}

/// Parses one inline element at `p`.
pub fn inline_parser(src: &Vec<char>, p: usize, set: SpecialSet) -> (r: Parsed<Node>)
    requires
        p <= src.len(),
    ensures
        node_res(r) == spec_inline(src@, p as int, set),
        advances(r, p as int, src.len() as int),
    decreases src.len() - p, 55int,
{
    if p >= src.len() {
        return Parsed::Fail;
    }
    let c = src[p];
    if c == '#' {
        code_parser(src, p, set)
    } else if c == '"' {
        parse_delimited(src, p, set, '"', SyntaxKind::Quote)
    } else if c == '~' {
        parse_delimited(src, p, set, '~', SyntaxKind::Strikeout)
    } else if c == '*' {
        parse_delimited(src, p, set, '*', SyntaxKind::Strong)
    } else if c == '/' {
        parse_delimited(src, p, set, '/', SyntaxKind::Emphasis)
    } else if c == '_' {
        parse_script(src, p, set, '_', SyntaxKind::Subscript)
    } else if c == '^' {
        parse_script(src, p, set, '^', SyntaxKind::Supscript)
    } else if c == '<' {
        match parse_link(src, p, set) {
            Parsed::Fail => parse_word(src, p, set),
            r => r,
        }
    } else if c == '@' {
        parse_ref(src, p)
    } else if c == '`' || c == '$' {
        parse_verbatim(src, p, c)
    } else if c == '\\' {
        parse_escape(src, p)
    } else if c == ' ' {
        parse_spacing(src, p)
    } else if c == '%' {
        parse_comment(src, p)
    } else {
        parse_word(src, p, set)
    }
}

/// Parses code `#expr` at `p`.
pub fn code_parser(src: &Vec<char>, p: usize, set: SpecialSet) -> (r: Parsed<Node>)
    requires
        p <= src.len(),
    ensures
        node_res(r) == spec_code(src@, p as int, set),
        advances(r, p as int, src.len() as int),
    decreases src.len() - p, 54int,
{
    if at_char(src, p, '#') {
        match expr_parser(src, p + 1, set) {
            Parsed::Done(n, q, e) => {
                let b = mk_branch(SyntaxKind::Code, p, q, one_node(n));
                Parsed::Done(b, q, e)
            },
            Parsed::Fail => Parsed::Fail,
            Parsed::Abort => Parsed::Abort,
        }
    } else {
        Parsed::Fail
    }
}

/// Parses inline elements between two delimiters `d` at `p`, recovering from a
/// missing closing delimiter.
pub fn parse_delimited(src: &Vec<char>, p: usize, set: SpecialSet, d: char, kind: SyntaxKind) -> (r:
    Parsed<Node>)
    requires
        p <= src.len(),
    ensures
        node_res(r) == spec_delimited(src@, p as int, set, d, kind),
        advances(r, p as int, src.len() as int),
    decreases src.len() - p, 53int,
{
    if at_char(src, p, d) {
        match parse_inlines(src, p + 1, set) {
            Parsed::Done(ns, q, e) => {
                if at_char(src, q, d) {
                    Parsed::Done(mk_branch(kind, p, q + 1, ns), q + 1, e)
                } else {
                    inline_recovery(src, p, d)
                }
            },
            Parsed::Fail => inline_recovery(src, p, d),
            Parsed::Abort => Parsed::Abort,
        }
    } else {
        Parsed::Fail
    }
}

/// Parses a subscript or superscript with marker `d` at `p`.
pub fn parse_script(src: &Vec<char>, p: usize, set: SpecialSet, d: char, kind: SyntaxKind) -> (r:
    Parsed<Node>)
    requires
        p <= src.len(),
    ensures
        node_res(r) == spec_script(src@, p as int, set, d, kind),
        advances(r, p as int, src.len() as int),
    decreases src.len() - p, 52int,
{
    if at_char(src, p, d) {
        match content_parser(src, p + 1, set) {
            Parsed::Done(ns, q, e) => Parsed::Done(mk_branch(kind, p, q, ns), q, e),
            Parsed::Abort => Parsed::Abort,
            Parsed::Fail => {
                if p + 1 < src.len() && !in_set(src[p + 1], set) {
                    let w = mk_leaf(src, SyntaxKind::Word, p + 1, p + 2);
                    Parsed::Done(mk_branch(kind, p, p + 2, one_node(w)), p + 2, Vec::new())
                } else {
                    Parsed::Fail
                }
            },
        }
    } else {
        Parsed::Fail
    }
}

/// Parses a link at `p`.
pub fn parse_link(src: &Vec<char>, p: usize, set: SpecialSet) -> (r: Parsed<Node>)
    requires
        p < src.len(),
    ensures
        node_res(r) == spec_link(src@, p as int, set),
        advances(r, p as int, src.len() as int),
    decreases src.len() - p, 51int,
{
    let e = scan(src, p + 1, CharClass::Href);
    if at_char(src, p, '<') && e > p + 1 && at_char(src, e, '>') {
        let href = mk_leaf_in(src, SyntaxKind::Text, p, e + 1, p + 1, e);
        match content_parser(src, e + 1, set) {
            Parsed::Done(ns, q, er) => {
                let c = mk_branch(SyntaxKind::Content, e + 1, q, ns);
                Parsed::Done(
                    mk_branch(SyntaxKind::Link, p, q, crate::parser::result::two_nodes(href, c)),
                    q,
                    er,
                )
            },
            Parsed::Fail => Parsed::Done(
                mk_branch(SyntaxKind::Link, p, e + 1, one_node(href)),
                e + 1,
                Vec::new(),
            ),
            Parsed::Abort => Parsed::Abort,
        }
    } else {
        Parsed::Fail
    }
}

/// Parses bracketed content at `p`.
pub fn content_parser(src: &Vec<char>, p: usize, set: SpecialSet) -> (r: Parsed<Vec<Node>>)
    requires
        p <= src.len(),
    ensures
        nodes_res(r) == spec_content(src@, p as int, set),
        advances(r, p as int, src.len() as int),
    decreases src.len() - p, 30int,
{
    if at_char(src, p, '[') {
        match parse_inlines(src, p + 1, set) {
            Parsed::Done(ns, q, e) => {
                if at_char(src, q, ']') {
                    Parsed::Done(ns, q + 1, e)
                } else {
                    parse_content_nested(src, p, set)
                }
            },
            Parsed::Fail => parse_content_nested(src, p, set),
            Parsed::Abort => Parsed::Abort,
        }
    } else {
        Parsed::Fail
    }
}

/// Parses bracketed content over several lines at `p`.
pub fn parse_content_nested(src: &Vec<char>, p: usize, set: SpecialSet) -> (r: Parsed<Vec<Node>>)
    requires
        p < src.len(),
    ensures
        nodes_res(r) == spec_content_nested(src@, p as int, set),
        advances(r, p as int, src.len() as int),
    decreases src.len() - p, 28int,
{
    match newline(src, p + 1) {
        Some(q1) => match level_parser(src, q1, 1) {
            Some(q2) => {
                if at_char(src, p, '[') && p < q2 && q2 <= src.len() {
                    proof {
                        lemma_level_end_bounds(src@, q1 as int, 1);
                    }
                    match text_parser(src, q2, 1, set) {
                        Parsed::Done(ns, q3, e) => match newline(src, q3) {
                            Some(q4) => {
                                if at_char(src, q4, ']') {
                                    Parsed::Done(ns, q4 + 1, e)
                                } else {
                                    Parsed::Fail
                                }
                            },
                            None => Parsed::Fail,
                        },
                        Parsed::Fail => Parsed::Fail,
                        Parsed::Abort => Parsed::Abort,
                    }
                } else {
                    Parsed::Fail
                }
            },
            None => Parsed::Fail,
        },
        None => Parsed::Fail,
    }
}

/// Parses text at `p` with `ind` levels of indentation.
pub fn text_parser(src: &Vec<char>, p: usize, ind: usize, set: SpecialSet) -> (r: Parsed<Vec<Node>>)
    requires
        p <= src.len(),
    ensures
        nodes_res(r) == spec_text(src@, p as int, ind as nat, set),
        advances(r, p as int, src.len() as int),
    decreases src.len() - p, 60int,
{
    match parse_wrapped(src, p, ind, set) {
        Parsed::Done(ns, q, e) => {
            match parse_text_rest(src, q, ind, set) {
                Parsed::Done(ms, r, e2) => {
                    let mut v = ns;
                    append_nodes(&mut v, ms);
                    let mut errs = e;
                    append_errors(&mut errs, e2);
                    Parsed::Done(v, r, errs)
                },
                Parsed::Fail => Parsed::Fail,
                Parsed::Abort => Parsed::Abort,
            }
        },
        Parsed::Fail => Parsed::Fail,
        Parsed::Abort => Parsed::Abort,
    }
}

/// Parses a line of inline elements and the nested text after it at `p`.
#[verifier::spinoff_prover]
#[verifier::rlimit(40)]
pub fn parse_wrapped(src: &Vec<char>, p: usize, ind: usize, set: SpecialSet) -> (r: Parsed<
    Vec<Node>,
>)
    requires
        p <= src.len(),
    ensures
        nodes_res(r) == spec_wrapped(src@, p as int, ind as nat, set),
        advances(r, p as int, src.len() as int),
    decreases src.len() - p, 59int,
{
    match parse_inlines1(src, p, set) {
        Parsed::Done(ns, q, e) => match newline(src, q) {
            Some(q1) => match indent_parser(src, q1, ind) {
                Some(q2) => {
                    match text_parser(src, q2, ind + 1, set) {
                        Parsed::Done(ms, r, e2) => {
                            let sb = mk_leaf(src, SyntaxKind::SoftBreak, q, q1);
                            let ghost nv = nodes_view(ns@);
                            let mut v = ns;
                            push_node(&mut v, sb);
                            assert(nodes_view(v@) =~= nv + seq![node_view(sb)]);
                            append_nodes(&mut v, ms);
                            let mut errs = e;
                            append_errors(&mut errs, e2);
                            Parsed::Done(v, r, errs)
                        },
                        Parsed::Fail => Parsed::Done(ns, q, e),
                        Parsed::Abort => Parsed::Abort,
                    }
                },
                None => Parsed::Done(ns, q, e),
            },
            None => Parsed::Done(ns, q, e),
        },
        Parsed::Fail => Parsed::Fail,
        Parsed::Abort => Parsed::Abort,
    }
}

/// Parses further lines at the current indentation at `p`.
pub fn parse_text_rest(src: &Vec<char>, p: usize, ind: usize, set: SpecialSet) -> (r: Parsed<
    Vec<Node>,
>)
    requires
        p <= src.len(),
    ensures
        nodes_res(r) == spec_text_rest(src@, p as int, ind as nat, set),
        stays(r, p as int, src.len() as int),
    decreases src.len() - p, 58int,
{
    let mut acc: Vec<Node> = no_nodes();
    let mut errs: Vec<ParseError> = Vec::new();
    let mut i = p;
    proof {
        lemma_prepend_nothing(spec_text_rest(src@, p as int, ind as nat, set));
    }
    loop
        invariant
            p <= i <= src.len(),
            spec_text_rest(src@, p as int, ind as nat, set) == prepend(
                nodes_view(acc@),
                errs@,
                spec_text_rest(src@, i as int, ind as nat, set),
            ),
        decreases src.len() - i,
    {
        let q1 = match newline(src, i) {
            Some(q1) => q1,
            None => {
                proof {
                    lemma_prepend_done(nodes_view(acc@), errs@, i as int);
                }
                return Parsed::Done(acc, i, errs);
            },
        };
        let q2 = match level_parser(src, q1, ind) {
            Some(q2) => q2,
            None => {
                proof {
                    lemma_prepend_done(nodes_view(acc@), errs@, i as int);
                }
                return Parsed::Done(acc, i, errs);
            },
        };
        match parse_wrapped(src, q2, ind, set) {
            Parsed::Done(ns, q3, e) => {
                let sb = mk_leaf(src, SyntaxKind::SoftBreak, i, q1);
                let ghost line = seq![node_view(sb)] + nodes_view(ns@);
                let ghost before = nodes_view(acc@);
                let ghost before_errs = errs@;
                proof {
                    assert(spec_text_rest(src@, i as int, ind as nat, set) == prepend(
                        line,
                        e@,
                        spec_text_rest(src@, q3 as int, ind as nat, set),
                    )) by {
                        match spec_text_rest(src@, q3 as int, ind as nat, set) {
                            PR::Done(ms, r, e2) => {
                                assert(line + ms =~= seq![node_view(sb)] + nodes_view(ns@) + ms);
                            },
                            _ => {},
                        }
                    }
                    lemma_prepend_twice(
                        before,
                        before_errs,
                        line,
                        e@,
                        spec_text_rest(src@, q3 as int, ind as nat, set),
                    );
                }
                push_node(&mut acc, sb);
                append_nodes(&mut acc, ns);
                assert(nodes_view(acc@) =~= before + line);
                append_errors(&mut errs, e);
                i = q3;
            },
            Parsed::Fail => {
                proof {
                    lemma_prepend_done(nodes_view(acc@), errs@, i as int);
                }
                return Parsed::Done(acc, i, errs);
            },
            Parsed::Abort => {
                return Parsed::Abort;
            },
        }
    }
}

/// Parses an expression at `p`.
pub fn expr_parser(src: &Vec<char>, p: usize, set: SpecialSet) -> (r: Parsed<Node>)
    requires
        p <= src.len(),
    ensures
        node_res(r) == spec_expr(src@, p as int, set),
        advances(r, p as int, src.len() as int),
    decreases src.len() - p, 40int,
{
    match literal_parser(src, p) {
        Parsed::Fail => {},
        r => {
            return r;
        },
    }
    match parse_for(src, p, set) {
        Parsed::Fail => {},
        r => {
            return r;
        },
    }
    match parse_if(src, p, set) {
        Parsed::Fail => {},
        r => {
            return r;
        },
    }
    match parse_let(src, p, set) {
        Parsed::Fail => {},
        r => {
            return r;
        },
    }
    match parse_call(src, p, set) {
        Parsed::Fail => {},
        r => {
            return r;
        },
    }
    match ident_parser(src, p) {
        Parsed::Fail => {},
        r => {
            return r;
        },
    }
    parse_content_expr(src, p, set)
}

/// Parses an identifier as an expression at `p`.
pub fn ident_parser(src: &Vec<char>, p: usize) -> (r: Parsed<Node>)
    requires
        p <= src.len(),
    ensures
        node_res(r) == spec_ident_expr(src@, p as int),
        advances(r, p as int, src.len() as int),
{
    match ident(src, p) {
        Some(q) => Parsed::Done(mk_leaf(src, SyntaxKind::Ident, p, q), q, Vec::new()),
        None => Parsed::Fail,
    }
}

/// Parses bracketed content as an expression at `p`.
pub fn parse_content_expr(src: &Vec<char>, p: usize, set: SpecialSet) -> (r: Parsed<Node>)
    requires
        p <= src.len(),
    ensures
        node_res(r) == spec_content_expr(src@, p as int, set),
        advances(r, p as int, src.len() as int),
    decreases src.len() - p, 31int,
{
    match content_parser(src, p, set) {
        Parsed::Done(ns, q, e) => Parsed::Done(mk_branch(SyntaxKind::Content, p, q, ns), q, e),
        Parsed::Fail => Parsed::Fail,
        Parsed::Abort => Parsed::Abort,
    }
}

/// Parses a call at `p`.
pub fn parse_call(src: &Vec<char>, p: usize, set: SpecialSet) -> (r: Parsed<Node>)
    requires
        p <= src.len(),
    ensures
        node_res(r) == spec_call(src@, p as int, set),
        advances(r, p as int, src.len() as int),
    decreases src.len() - p, 35int,
{
    match ident(src, p) {
        Some(q) => match args_parser(src, q, set) {
            Parsed::Done(a, r, e) => {
                let id = mk_leaf(src, SyntaxKind::CallIdent, p, q);
                Parsed::Done(
                    mk_branch(SyntaxKind::Call, p, r, crate::parser::result::two_nodes(id, a)),
                    r,
                    e,
                )
            },
            Parsed::Fail => Parsed::Fail,
            Parsed::Abort => Parsed::Abort,
        },
        None => Parsed::Fail,
    }
}

/// Parses the arguments of a call at `p`.
pub fn args_parser(src: &Vec<char>, p: usize, set: SpecialSet) -> (r: Parsed<Node>)
    requires
        p <= src.len(),
    ensures
        node_res(r) == spec_args(src@, p as int, set),
        advances(r, p as int, src.len() as int),
    decreases src.len() - p, 29int,
{
    if !at_char(src, p, '(') {
        return Parsed::Fail;
    }
    let a = scan(src, p + 1, CharClass::Whitespace);
    match parse_arglist(src, a, set) {
        Parsed::Done(items, q, e) => {
            let b = scan(src, q, CharClass::Whitespace);
            if at_char(src, b, ')') {
                match content_parser(src, b + 1, set) {
                    Parsed::Done(ns, r, e2) => {
                        let c = mk_branch(SyntaxKind::Content, b + 1, r, ns);
                        let ghost iv = nodes_view(items@);
                        let mut v = items;
                        push_node(&mut v, c);
                        assert(nodes_view(v@) =~= iv + seq![node_view(c)]);
                        let mut errs = e;
                        append_errors(&mut errs, e2);
                        Parsed::Done(mk_branch(SyntaxKind::Args, p, r, v), r, errs)
                    },
                    Parsed::Fail => Parsed::Done(mk_branch(SyntaxKind::Args, p, b + 1, items), b + 1, e),
                    Parsed::Abort => Parsed::Abort,
                }
            } else {
                Parsed::Fail
            }
        },
        Parsed::Fail => Parsed::Fail,
        Parsed::Abort => Parsed::Abort,
    }
}

/// Parses zero or more arguments separated by commas at `p`.
pub fn parse_arglist(src: &Vec<char>, p: usize, set: SpecialSet) -> (r: Parsed<Vec<Node>>)
    requires
        p <= src.len(),
    ensures
        nodes_res(r) == spec_arglist(src@, p as int, set),
        stays(r, p as int, src.len() as int),
    decreases src.len() - p, 45int,
{
    match parse_arg(src, p, set) {
        Parsed::Fail => Parsed::Done(no_nodes(), p, Vec::new()),
        Parsed::Abort => Parsed::Abort,
        Parsed::Done(a, q, e) => match parse_arglist_rest(src, q, set) {
            Parsed::Done(rest, r, e2) => {
                let mut v = one_node(a);
                append_nodes(&mut v, rest);
                let mut errs = e;
                append_errors(&mut errs, e2);
                Parsed::Done(v, r, errs)
            },
            Parsed::Fail => Parsed::Fail,
            Parsed::Abort => Parsed::Abort,
        },
    }
}

/// Parses the arguments after the first at `p`.
pub fn parse_arglist_rest(src: &Vec<char>, p: usize, set: SpecialSet) -> (r: Parsed<Vec<Node>>)
    requires
        p <= src.len(),
    ensures
        nodes_res(r) == spec_arglist_rest(src@, p as int, set),
        stays(r, p as int, src.len() as int),
    decreases src.len() - p, 46int,
{
    assert([',']@ =~= seq![',']);
    match padded(src, p, &[',']) {
        None => Parsed::Done(no_nodes(), p, Vec::new()),
        Some(q) => match parse_arg(src, q, set) {
            Parsed::Fail => Parsed::Done(no_nodes(), q, Vec::new()),
            Parsed::Abort => Parsed::Abort,
            Parsed::Done(a, r, e) => match parse_arglist_rest(src, r, set) {
                Parsed::Done(rest, t, e2) => {
                    let mut v = one_node(a);
                    append_nodes(&mut v, rest);
                    let mut errs = e;
                    append_errors(&mut errs, e2);
                    Parsed::Done(v, t, errs)
                },
                Parsed::Fail => Parsed::Fail,
                Parsed::Abort => Parsed::Abort,
            },
        },
    }
}

/// Parses an argument at `p`.
pub fn parse_arg(src: &Vec<char>, p: usize, set: SpecialSet) -> (r: Parsed<Node>)
    requires
        p <= src.len(),
    ensures
        node_res(r) == spec_arg(src@, p as int, set),
        advances(r, p as int, src.len() as int),
    decreases src.len() - p, 44int,
{
    match ident(src, p) {
        Some(q) => {
            if at2(src, q, ':', ' ') {
                match expr_parser(src, q + 2, set) {
                    Parsed::Done(v, r, e) => {
                        let id = mk_leaf(src, SyntaxKind::ArgIdent, p, q);
                        Parsed::Done(
                            mk_branch(SyntaxKind::Arg, p, r, crate::parser::result::two_nodes(id, v)),
                            r,
                            e,
                        )
                    },
                    Parsed::Fail => Parsed::Fail,
                    Parsed::Abort => Parsed::Abort,
                }
            } else {
                parse_arg_unnamed(src, p, set)
            }
        },
        None => parse_arg_unnamed(src, p, set),
    }
}

/// Parses an argument without a name at `p`.
pub fn parse_arg_unnamed(src: &Vec<char>, p: usize, set: SpecialSet) -> (r: Parsed<Node>)
    requires
        p <= src.len(),
    ensures
        node_res(r) == spec_arg_unnamed(src@, p as int, set),
        advances(r, p as int, src.len() as int),
    decreases src.len() - p, 43int,
{
    match expr_parser(src, p, set) {
        Parsed::Done(v, r, e) => Parsed::Done(mk_branch(SyntaxKind::Arg, p, r, one_node(v)), r, e),
        Parsed::Fail => Parsed::Fail,
        Parsed::Abort => Parsed::Abort,
    }
}

/// Parses a loop at `p`.
pub fn parse_for(src: &Vec<char>, p: usize, set: SpecialSet) -> (r: Parsed<Node>)
    requires
        p <= src.len(),
    ensures
        node_res(r) == spec_for(src@, p as int, set),
        advances(r, p as int, src.len() as int),
    decreases src.len() - p, 34int,
{
    assert(['f', 'o', 'r']@ =~= seq!['f', 'o', 'r']);
    assert(['i', 'n']@ =~= seq!['i', 'n']);
    let a = match keyword_ws(src, p, &['f', 'o', 'r']) {
        Some(a) => a,
        None => {
            return Parsed::Fail;
        },
    };
    let b = match ident(src, a) {
        Some(b) => b,
        None => {
            return Parsed::Fail;
        },
    };
    let c = match blank_keyword_ws(src, b, &['i', 'n']) {
        Some(c) => c,
        None => {
            return Parsed::Fail;
        },
    };
    let inside = match ident_parser(src, c) {
        Parsed::Fail => parse_call(src, c, set),
        r => r,
    };
    match inside {
        Parsed::Done(n, d, e1) => match content_parser(src, d, set) {
            Parsed::Done(ns, r, e2) => {
                let el = mk_leaf(src, SyntaxKind::Ident, a, b);
                let mut v = crate::parser::result::two_nodes(el, n);
                push_node(&mut v, mk_branch(SyntaxKind::Content, d, r, ns));
                let mut errs = e1;
                append_errors(&mut errs, e2);
                proof {
                    assert(seq![node_view(el), node_view(n)].push(
                        branch(SyntaxKind::Content, d as int, r as int, nodes_view(ns@)),
                    ) =~= seq![
                        node_view(el),
                        node_view(n),
                        branch(SyntaxKind::Content, d as int, r as int, nodes_view(ns@)),
                    ]);
                }
                Parsed::Done(mk_branch(SyntaxKind::For, p, r, v), r, errs)
            },
            Parsed::Fail => Parsed::Fail,
            Parsed::Abort => Parsed::Abort,
        },
        Parsed::Fail => Parsed::Fail,
        Parsed::Abort => Parsed::Abort,
    }
}

/// Parses a conditional at `p`.
#[verifier::spinoff_prover]
#[verifier::rlimit(50)]
pub fn parse_if(src: &Vec<char>, p: usize, set: SpecialSet) -> (r: Parsed<Node>)
    requires
        p <= src.len(),
    ensures
        node_res(r) == spec_if(src@, p as int, set),
        advances(r, p as int, src.len() as int),
    decreases src.len() - p, 33int,
{
    assert(['i', 'f']@ =~= seq!['i', 'f']);
    assert(['t', 'h', 'e', 'n']@ =~= seq!['t', 'h', 'e', 'n']);
    assert(['e', 'l', 's', 'e']@ =~= seq!['e', 'l', 's', 'e']);
    let a = match keyword_ws(src, p, &['i', 'f']) {
        Some(a) => a,
        None => {
            return Parsed::Fail;
        },
    };
    let (c, q, e1) = match expr_parser(src, a, set) {
        Parsed::Done(c, q, e1) => (c, q, e1),
        Parsed::Fail => {
            return Parsed::Fail;
        },
        Parsed::Abort => {
            return Parsed::Abort;
        },
    };
    let t = match padded(src, q, &['t', 'h', 'e', 'n']) {
        Some(t) => t,
        None => {
            return Parsed::Fail;
        },
    };
    let (ns1, u, e2) = match content_parser(src, t, set) {
        Parsed::Done(ns1, u, e2) => (ns1, u, e2),
        Parsed::Fail => {
            return Parsed::Fail;
        },
        Parsed::Abort => {
            return Parsed::Abort;
        },
    };
    let v = match padded(src, u, &['e', 'l', 's', 'e']) {
        Some(v) => v,
        None => {
            return Parsed::Fail;
        },
    };
    match content_parser(src, v, set) {
        Parsed::Done(ns2, w, e3) => {
            let then_ = mk_branch(SyntaxKind::Content, t, u, ns1);
            let else_ = mk_branch(SyntaxKind::Content, v, w, ns2);
            let ghost cv = node_view(c);
            let ghost tv = node_view(then_);
            let ghost ev = node_view(else_);
            let mut kids = crate::parser::result::two_nodes(c, then_);
            push_node(&mut kids, else_);
            assert(seq![cv, tv].push(ev) =~= seq![cv, tv, ev]);
            let mut errs = e1;
            append_errors(&mut errs, e2);
            append_errors(&mut errs, e3);
            Parsed::Done(mk_branch(SyntaxKind::If, p, w, kids), w, errs)
        },
        Parsed::Fail => Parsed::Fail,
        Parsed::Abort => Parsed::Abort,
    }
}

/// Parses bindings at `p`.
pub fn parse_let(src: &Vec<char>, p: usize, set: SpecialSet) -> (r: Parsed<Node>)
    requires
        p <= src.len(),
    ensures
        node_res(r) == spec_let(src@, p as int, set),
        advances(r, p as int, src.len() as int),
    decreases src.len() - p, 32int,
{
    assert(['l', 'e', 't']@ =~= seq!['l', 'e', 't']);
    match keyword_ws(src, p, &['l', 'e', 't']) {
        Some(a) => match parse_binds(src, a, set) {
            Parsed::Done(bs, q, e) => Parsed::Done(mk_branch(SyntaxKind::Let, p, q, bs), q, e),
            Parsed::Fail => Parsed::Fail,
            Parsed::Abort => Parsed::Abort,
        },
        None => Parsed::Fail,
    }
}

/// Parses one or more bindings at `p`.
pub fn parse_binds(src: &Vec<char>, p: usize, set: SpecialSet) -> (r: Parsed<Vec<Node>>)
    requires
        p <= src.len(),
    ensures
        nodes_res(r) == spec_binds(src@, p as int, set),
        advances(r, p as int, src.len() as int),
    decreases src.len() - p, 42int,
{
    match parse_bind(src, p, set) {
        Parsed::Done(b, q, e) => match parse_binds_rest(src, q, set) {
            Parsed::Done(bs, r, e2) => {
                let mut v = one_node(b);
                append_nodes(&mut v, bs);
                let mut errs = e;
                append_errors(&mut errs, e2);
                Parsed::Done(v, r, errs)
            },
            Parsed::Fail => Parsed::Fail,
            Parsed::Abort => Parsed::Abort,
        },
        Parsed::Fail => Parsed::Fail,
        Parsed::Abort => Parsed::Abort,
    }
}

/// Parses the bindings after the first at `p`.
pub fn parse_binds_rest(src: &Vec<char>, p: usize, set: SpecialSet) -> (r: Parsed<Vec<Node>>)
    requires
        p <= src.len(),
    ensures
        nodes_res(r) == spec_binds_rest(src@, p as int, set),
        stays(r, p as int, src.len() as int),
    decreases src.len() - p, 47int,
{
    if at_char(src, p, ';') {
        match parse_bind(src, p + 1, set) {
            Parsed::Fail => Parsed::Done(no_nodes(), p + 1, Vec::new()),
            Parsed::Abort => Parsed::Abort,
            Parsed::Done(b, q, e) => match parse_binds_rest(src, q, set) {
                Parsed::Done(bs, r, e2) => {
                    let mut v = one_node(b);
                    append_nodes(&mut v, bs);
                    let mut errs = e;
                    append_errors(&mut errs, e2);
                    Parsed::Done(v, r, errs)
                },
                Parsed::Fail => Parsed::Fail,
                Parsed::Abort => Parsed::Abort,
            },
        }
    } else {
        Parsed::Done(no_nodes(), p, Vec::new())
    }
}

/// Parses a binding at `p`.
pub fn parse_bind(src: &Vec<char>, p: usize, set: SpecialSet) -> (r: Parsed<Node>)
    requires
        p <= src.len(),
    ensures
        node_res(r) == spec_bind(src@, p as int, set),
        advances(r, p as int, src.len() as int),
    decreases src.len() - p, 41int,
{
    match ident(src, p) {
        Some(q) => {
            let i1 = scan(src, q, CharClass::InlineWhitespace);
            if i1 > q && at_char(src, i1, '=') {
                let i2 = scan(src, i1 + 1, CharClass::InlineWhitespace);
                if i2 > i1 + 1 {
                    return match expr_parser(src, i2, set) {
                        Parsed::Done(v, r, e) => {
                            let id = mk_leaf(src, SyntaxKind::Ident, p, q);
                            Parsed::Done(
                                mk_branch(
                                    SyntaxKind::Bind,
                                    p,
                                    r,
                                    crate::parser::result::two_nodes(id, v),
                                ),
                                r,
                                e,
                            )
                        },
                        Parsed::Fail => Parsed::Fail,
                        Parsed::Abort => Parsed::Abort,
                    };
                }
            }
            Parsed::Fail
        },
        None => Parsed::Fail,
    }
}

} // verus!
