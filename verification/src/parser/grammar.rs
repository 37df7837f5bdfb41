//! The grammar of inline markup, of text that runs over lines, and of the code
//! language embedded in markup, as mutually recursive functions of the model.
//!
//! Every function takes the source and a position and returns what the parser at
//! that position gives. Recursion goes either to a later position or, at the same
//! position, to a function of lower rank (the second component of `decreases`).
use crate::kind::SyntaxKind;
use crate::node::SNode;
use crate::parser::literal::spec_literal;
use crate::parser::result::{branch, leaf, leaf_in, PR};
use crate::parser::token::{
    spec_comment, spec_escape, spec_recovery, spec_ref, spec_spacing, spec_verbatim, spec_word,
};
use crate::scan::{
    ident_end, level_end, newline_end, padded_end, scan_end, spec_at, spec_at2, spec_at_char,
    spec_in_set, CharClass, SpecialSet,
};
use vstd::prelude::*;

verus! {

/// The first outcome unless it is a failure, else the second.
pub open spec fn alt<T>(a: PR<T>, b: PR<T>) -> PR<T> {
    if a is Fail {
        b
    } else {
        a
    }
}

/// Whether `q` lies after `p` and within the source.
pub open spec fn fwd(s: Seq<char>, p: int, q: int) -> bool {
    p < q <= s.len()
}

/// A keyword followed by at least one blank or tab; the position after the blanks.
pub open spec fn kw_ws(s: Seq<char>, p: int, kw: Seq<char>) -> Option<int> {
    let e = scan_end(s, p + kw.len(), CharClass::InlineWhitespace);
    if spec_at(s, p, kw) && e > p + kw.len() {
        Some(e)
    } else {
        None
    }
}

/// Blanks or tabs, at least one, then a keyword followed by at least one blank or
/// tab: where it ends.
pub open spec fn blank_kw_ws(s: Seq<char>, p: int, kw: Seq<char>) -> Option<int> {
    let b = scan_end(s, p, CharClass::InlineWhitespace);
    if b > p {
        kw_ws(s, b, kw)
    } else {
        None
    }
}

/// Zero or more inline elements.
pub open spec fn spec_inlines(s: Seq<char>, p: int, set: SpecialSet) -> PR<Seq<SNode>>
    decreases s.len() - p, 56int,
{
    match spec_inline(s, p, set) {
        PR::Fail => PR::Done(Seq::empty(), p, Seq::empty()),
        PR::Abort => PR::Abort,
        PR::Done(n, q, e) => if fwd(s, p, q) {
            match spec_inlines(s, q, set) {
                PR::Done(ns, r, e2) => PR::Done(seq![n] + ns, r, e + e2),
                PR::Fail => PR::Fail,
                PR::Abort => PR::Abort,
            }
        } else {
            PR::Fail
        },
    }
}

/// One or more inline elements.
pub open spec fn spec_inlines1(s: Seq<char>, p: int, set: SpecialSet) -> PR<Seq<SNode>>
    decreases s.len() - p, 57int,
{
    match spec_inline(s, p, set) {
        PR::Fail => PR::Fail,
        PR::Abort => PR::Abort,
        PR::Done(n, q, e) => if fwd(s, p, q) {
            match spec_inlines(s, q, set) {
                PR::Done(ns, r, e2) => PR::Done(seq![n] + ns, r, e + e2),
                PR::Fail => PR::Fail,
                PR::Abort => PR::Abort,
            }
        } else {
            PR::Fail
        },
    }
}

/// One inline element. Its first character decides which markup is tried: each
/// markup opens with its own character, and a word holds none of them; only a
/// link, which opens with `<`, falls back to a word.
pub open spec fn spec_inline(s: Seq<char>, p: int, set: SpecialSet) -> PR<SNode>
    decreases s.len() - p, 55int,
{
    if !(0 <= p < s.len()) {
        PR::Fail
    } else {
        let c = s[p];
        if c == '#' {
            spec_code(s, p, set)
        } else if c == '"' {
            spec_delimited(s, p, set, '"', SyntaxKind::Quote)
        } else if c == '~' {
            spec_delimited(s, p, set, '~', SyntaxKind::Strikeout)
        } else if c == '*' {
            spec_delimited(s, p, set, '*', SyntaxKind::Strong)
        } else if c == '/' {
            spec_delimited(s, p, set, '/', SyntaxKind::Emphasis)
        } else if c == '_' {
            spec_script(s, p, set, '_', SyntaxKind::Subscript)
        } else if c == '^' {
            spec_script(s, p, set, '^', SyntaxKind::Supscript)
        } else if c == '<' {
            alt(spec_link(s, p, set), spec_word(s, p, set))
        } else if c == '@' {
            spec_ref(s, p)
        } else if c == '`' || c == '$' {
            spec_verbatim(s, p, c)
        } else if c == '\\' {
            spec_escape(s, p)
        } else if c == ' ' {
            spec_spacing(s, p)
        } else if c == '%' {
            spec_comment(s, p)
        } else {
            spec_word(s, p, set)
        }
    }
}

/// Code `#expr`.
pub open spec fn spec_code(s: Seq<char>, p: int, set: SpecialSet) -> PR<SNode>
    decreases s.len() - p, 54int,
{
    if spec_at_char(s, p, '#') {
        match spec_expr(s, p + 1, set) {
            PR::Done(n, q, e) => PR::Done(branch(SyntaxKind::Code, p, q, seq![n]), q, e),
            PR::Fail => PR::Fail,
            PR::Abort => PR::Abort,
        }
    } else {
        PR::Fail
    }
}

/// Inline elements between two delimiters `d`. Where the closing delimiter is
/// missing, the opening one is recovered from.
pub open spec fn spec_delimited(
    s: Seq<char>,
    p: int,
    set: SpecialSet,
    d: char,
    kind: SyntaxKind,
) -> PR<SNode>
    decreases s.len() - p, 53int,
{
    if spec_at_char(s, p, d) {
        match spec_inlines(s, p + 1, set) {
            PR::Done(ns, q, e) => if spec_at_char(s, q, d) {
                PR::Done(branch(kind, p, q + 1, ns), q + 1, e)
            } else {
                spec_recovery(s, p, d)
            },
            PR::Fail => spec_recovery(s, p, d),
            PR::Abort => PR::Abort,
        }
    } else {
        PR::Fail
    }
}

/// A subscript or superscript: the marker `d`, then bracketed content or a
/// single character that is not special.
pub open spec fn spec_script(
    s: Seq<char>,
    p: int,
    set: SpecialSet,
    d: char,
    kind: SyntaxKind,
) -> PR<SNode>
    decreases s.len() - p, 52int,
{
    if spec_at_char(s, p, d) {
        match spec_content(s, p + 1, set) {
            PR::Done(ns, q, e) => PR::Done(branch(kind, p, q, ns), q, e),
            PR::Abort => PR::Abort,
            PR::Fail => if p + 1 < s.len() && !spec_in_set(s[p + 1], set) {
                PR::Done(
                    branch(kind, p, p + 2, seq![leaf(s, SyntaxKind::Word, p + 1, p + 2)]),
                    p + 2,
                    Seq::empty(),
                )
            } else {
                PR::Fail
            },
        }
    } else {
        PR::Fail
    }
}

/// A link `<href>` with optional bracketed content after it.
pub open spec fn spec_link(s: Seq<char>, p: int, set: SpecialSet) -> PR<SNode>
    decreases s.len() - p, 51int,
{
    let e = scan_end(s, p + 1, CharClass::Href);
    if spec_at_char(s, p, '<') && e > p + 1 && spec_at_char(s, e, '>') {
        let href = leaf_in(s, SyntaxKind::Text, p, e + 1, p + 1, e);
        match spec_content(s, e + 1, set) {
            PR::Done(ns, q, er) => PR::Done(
                branch(SyntaxKind::Link, p, q, seq![href, branch(SyntaxKind::Content, e + 1, q, ns)]),
                q,
                er,
            ),
            PR::Fail => PR::Done(branch(SyntaxKind::Link, p, e + 1, seq![href]), e + 1, Seq::empty()),
            PR::Abort => PR::Abort,
        }
    } else {
        PR::Fail
    }
}

/// Bracketed content: inline elements between `[` and `]` on one line, or else text
/// that starts on the next line, indented one level, and ends with `]` at the start
/// of a line.
pub open spec fn spec_content(s: Seq<char>, p: int, set: SpecialSet) -> PR<Seq<SNode>>
    decreases s.len() - p, 30int,
{
    if spec_at_char(s, p, '[') {
        match spec_inlines(s, p + 1, set) {
            PR::Done(ns, q, e) => if spec_at_char(s, q, ']') {
                PR::Done(ns, q + 1, e)
            } else {
                spec_content_nested(s, p, set)
            },
            PR::Fail => spec_content_nested(s, p, set),
            PR::Abort => PR::Abort,
        }
    } else {
        PR::Fail
    }
}

/// Bracketed content over several lines.
pub open spec fn spec_content_nested(s: Seq<char>, p: int, set: SpecialSet) -> PR<Seq<SNode>>
    decreases s.len() - p, 28int,
{
    match newline_end(s, p + 1) {
        Some(q1) => match level_end(s, q1, 1) {
            Some(q2) => if spec_at_char(s, p, '[') && fwd(s, p, q2) {
                match spec_text(s, q2, 1, set) {
                    PR::Done(ns, q3, e) => match newline_end(s, q3) {
                        Some(q4) => if spec_at_char(s, q4, ']') {
                            PR::Done(ns, q4 + 1, e)
                        } else {
                            PR::Fail
                        },
                        None => PR::Fail,
                    },
                    PR::Fail => PR::Fail,
                    PR::Abort => PR::Abort,
                }
            } else {
                PR::Fail
            },
            None => PR::Fail,
        },
        None => PR::Fail,
    }
}

/// Text: lines of inline elements. A line break followed by the current indentation
/// continues the text with a soft break; a line break followed by one more level
/// of indentation continues it as nested text.
pub open spec fn spec_text(s: Seq<char>, p: int, ind: nat, set: SpecialSet) -> PR<Seq<SNode>>
    decreases s.len() - p, 60int,
{
    match spec_wrapped(s, p, ind, set) {
        PR::Done(ns, q, e) => if fwd(s, p, q) {
            match spec_text_rest(s, q, ind, set) {
                PR::Done(ms, r, e2) => PR::Done(ns + ms, r, e + e2),
                PR::Fail => PR::Fail,
                PR::Abort => PR::Abort,
            }
        } else {
            PR::Fail
        },
        PR::Fail => PR::Fail,
        PR::Abort => PR::Abort,
    }
}

/// A line of inline elements, and the nested text after it if there is some.
pub open spec fn spec_wrapped(s: Seq<char>, p: int, ind: nat, set: SpecialSet) -> PR<Seq<SNode>>
    decreases s.len() - p, 59int,
{
    match spec_inlines1(s, p, set) {
        PR::Done(ns, q, e) => match newline_end(s, q) {
            Some(q1) => match level_end(s, q1, ind + 1) {
                Some(q2) => if fwd(s, p, q2) {
                    match spec_text(s, q2, ind + 1, set) {
                        PR::Done(ms, r, e2) => PR::Done(
                            ns + seq![leaf(s, SyntaxKind::SoftBreak, q, q1)] + ms,
                            r,
                            e + e2,
                        ),
                        PR::Fail => PR::Done(ns, q, e),
                        PR::Abort => PR::Abort,
                    }
                } else {
                    PR::Done(ns, q, e)
                },
                None => PR::Done(ns, q, e),
            },
            None => PR::Done(ns, q, e),
        },
        PR::Fail => PR::Fail,
        PR::Abort => PR::Abort,
    }
}

/// Zero or more further lines at the current indentation, each after a soft break.
pub open spec fn spec_text_rest(s: Seq<char>, p: int, ind: nat, set: SpecialSet) -> PR<
    Seq<SNode>,
>
    decreases s.len() - p, 58int,
{
    match newline_end(s, p) {
        Some(q1) => match level_end(s, q1, ind) {
            Some(q2) => if fwd(s, p, q2) {
                match spec_wrapped(s, q2, ind, set) {
                    PR::Done(ns, q3, e) => if fwd(s, p, q3) {
                        match spec_text_rest(s, q3, ind, set) {
                            PR::Done(ms, r, e2) => PR::Done(
                                seq![leaf(s, SyntaxKind::SoftBreak, p, q1)] + ns + ms,
                                r,
                                e + e2,
                            ),
                            PR::Fail => PR::Fail,
                            PR::Abort => PR::Abort,
                        }
                    } else {
                        PR::Fail
                    },
                    PR::Fail => PR::Done(Seq::empty(), p, Seq::empty()),
                    PR::Abort => PR::Abort,
                }
            } else {
                PR::Done(Seq::empty(), p, Seq::empty())
            },
            None => PR::Done(Seq::empty(), p, Seq::empty()),
        },
        None => PR::Done(Seq::empty(), p, Seq::empty()),
    }
}

/// An expression of the code language. The alternatives are tried in order:
/// a literal, `for`, `if`, `let`, a call, an identifier, content.
pub open spec fn spec_expr(s: Seq<char>, p: int, set: SpecialSet) -> PR<SNode>
    decreases s.len() - p, 40int,
{
    alt(
        spec_literal(s, p),
        alt(
            spec_for(s, p, set),
            alt(
                spec_if(s, p, set),
                alt(
                    spec_let(s, p, set),
                    alt(spec_call(s, p, set), alt(spec_ident_expr(s, p), spec_content_expr(s, p, set))),
                ),
            ),
        ),
    )
}

/// An identifier as an expression.
pub open spec fn spec_ident_expr(s: Seq<char>, p: int) -> PR<SNode> {
    match ident_end(s, p) {
        Some(q) => PR::Done(leaf(s, SyntaxKind::Ident, p, q), q, Seq::empty()),
        None => PR::Fail,
    }
}

/// Bracketed content as an expression.
pub open spec fn spec_content_expr(s: Seq<char>, p: int, set: SpecialSet) -> PR<SNode>
    decreases s.len() - p, 31int,
{
    match spec_content(s, p, set) {
        PR::Done(ns, q, e) => PR::Done(branch(SyntaxKind::Content, p, q, ns), q, e),
        PR::Fail => PR::Fail,
        PR::Abort => PR::Abort,
    }
}

/// A call: an identifier and its arguments.
pub open spec fn spec_call(s: Seq<char>, p: int, set: SpecialSet) -> PR<SNode>
    decreases s.len() - p, 35int,
{
    match ident_end(s, p) {
        Some(q) => if fwd(s, p, q) {
            match spec_args(s, q, set) {
                PR::Done(a, r, e) => PR::Done(
                    branch(SyntaxKind::Call, p, r, seq![leaf(s, SyntaxKind::CallIdent, p, q), a]),
                    r,
                    e,
                ),
                PR::Fail => PR::Fail,
                PR::Abort => PR::Abort,
            }
        } else {
            PR::Fail
        },
        None => PR::Fail,
    }
}

/// The arguments of a call: `(`, arguments separated by commas with an optional
/// trailing comma, `)`, and optional content after them.
pub open spec fn spec_args(s: Seq<char>, p: int, set: SpecialSet) -> PR<SNode>
    decreases s.len() - p, 29int,
{
    let a = scan_end(s, p + 1, CharClass::Whitespace);
    if spec_at_char(s, p, '(') && fwd(s, p, a) {
        match spec_arglist(s, a, set) {
            PR::Done(items, q, e) => {
                let b = scan_end(s, q, CharClass::Whitespace);
                if spec_at_char(s, b, ')') && fwd(s, p, b + 1) {
                    match spec_content(s, b + 1, set) {
                        PR::Done(ns, r, e2) => PR::Done(
                            branch(
                                SyntaxKind::Args,
                                p,
                                r,
                                items + seq![branch(SyntaxKind::Content, b + 1, r, ns)],
                            ),
                            r,
                            e + e2,
                        ),
                        PR::Fail => PR::Done(branch(SyntaxKind::Args, p, b + 1, items), b + 1, e),
                        PR::Abort => PR::Abort,
                    }
                } else {
                    PR::Fail
                }
            },
            PR::Fail => PR::Fail,
            PR::Abort => PR::Abort,
        }
    } else {
        PR::Fail
    }
}

/// Zero or more arguments separated by commas.
pub open spec fn spec_arglist(s: Seq<char>, p: int, set: SpecialSet) -> PR<Seq<SNode>>
    decreases s.len() - p, 45int,
{
    match spec_arg(s, p, set) {
        PR::Fail => PR::Done(Seq::empty(), p, Seq::empty()),
        PR::Abort => PR::Abort,
        PR::Done(a, q, e) => if fwd(s, p, q) {
            match spec_arglist_rest(s, q, set) {
                PR::Done(rest, r, e2) => PR::Done(seq![a] + rest, r, e + e2),
                PR::Fail => PR::Fail,
                PR::Abort => PR::Abort,
            }
        } else {
            PR::Fail
        },
    }
}

/// The arguments after the first, each after a comma; a comma that no argument
/// follows stays consumed.
pub open spec fn spec_arglist_rest(s: Seq<char>, p: int, set: SpecialSet) -> PR<Seq<SNode>>
    decreases s.len() - p, 46int,
{
    match padded_end(s, p, seq![',']) {
        None => PR::Done(Seq::empty(), p, Seq::empty()),
        Some(q) => if fwd(s, p, q) {
            match spec_arg(s, q, set) {
                PR::Fail => PR::Done(Seq::empty(), q, Seq::empty()),
                PR::Abort => PR::Abort,
                PR::Done(a, r, e) => if fwd(s, q, r) {
                    match spec_arglist_rest(s, r, set) {
                        PR::Done(rest, t, e2) => PR::Done(seq![a] + rest, t, e + e2),
                        PR::Fail => PR::Fail,
                        PR::Abort => PR::Abort,
                    }
                } else {
                    PR::Fail
                },
            }
        } else {
            PR::Fail
        },
    }
}

/// An argument: an optional name followed by `: `, and an expression.
pub open spec fn spec_arg(s: Seq<char>, p: int, set: SpecialSet) -> PR<SNode>
    decreases s.len() - p, 44int,
{
    match ident_end(s, p) {
        Some(q) => if spec_at2(s, q, ':', ' ') && fwd(s, p, q + 2) {
            match spec_expr(s, q + 2, set) {
                PR::Done(v, r, e) => PR::Done(
                    branch(SyntaxKind::Arg, p, r, seq![leaf(s, SyntaxKind::ArgIdent, p, q), v]),
                    r,
                    e,
                ),
                PR::Fail => PR::Fail,
                PR::Abort => PR::Abort,
            }
        } else {
            spec_arg_unnamed(s, p, set)
        },
        None => spec_arg_unnamed(s, p, set),
    }
}

/// An argument without a name.
pub open spec fn spec_arg_unnamed(s: Seq<char>, p: int, set: SpecialSet) -> PR<SNode>
    decreases s.len() - p, 43int,
{
    match spec_expr(s, p, set) {
        PR::Done(v, r, e) => PR::Done(branch(SyntaxKind::Arg, p, r, seq![v]), r, e),
        PR::Fail => PR::Fail,
        PR::Abort => PR::Abort,
    }
}

/// A loop `for el in inside[content]`, with blanks or tabs around `in`.
pub open spec fn spec_for(s: Seq<char>, p: int, set: SpecialSet) -> PR<SNode>
    decreases s.len() - p, 34int,
{
    match kw_ws(s, p, seq!['f', 'o', 'r']) {
        Some(a) => match ident_end(s, a) {
            Some(b) => match blank_kw_ws(s, b, seq!['i', 'n']) {
                Some(c) => if fwd(s, p, c) {
                    match alt(spec_ident_expr(s, c), spec_call(s, c, set)) {
                        PR::Done(inside, d, e1) => if fwd(s, p, d) {
                            match spec_content(s, d, set) {
                                PR::Done(ns, r, e2) => PR::Done(
                                    branch(
                                        SyntaxKind::For,
                                        p,
                                        r,
                                        seq![
                                            leaf(s, SyntaxKind::Ident, a, b),
                                            inside,
                                            branch(SyntaxKind::Content, d, r, ns),
                                        ],
                                    ),
                                    r,
                                    e1 + e2,
                                ),
                                PR::Fail => PR::Fail,
                                PR::Abort => PR::Abort,
                            }
                        } else {
                            PR::Fail
                        },
                        PR::Fail => PR::Fail,
                        PR::Abort => PR::Abort,
                    }
                } else {
                    PR::Fail
                },
                None => PR::Fail,
            },
            None => PR::Fail,
        },
        None => PR::Fail,
    }
}

/// A conditional `if predicate then [..] else [..]`.
pub open spec fn spec_if(s: Seq<char>, p: int, set: SpecialSet) -> PR<SNode>
    decreases s.len() - p, 33int,
{
    match kw_ws(s, p, seq!['i', 'f']) {
        Some(a) => if fwd(s, p, a) {
            match spec_expr(s, a, set) {
                PR::Done(c, q, e1) => match padded_end(s, q, seq!['t', 'h', 'e', 'n']) {
                    Some(t) => if fwd(s, p, t) {
                        match spec_content(s, t, set) {
                            PR::Done(ns1, u, e2) => match padded_end(s, u, seq!['e', 'l', 's', 'e']) {
                                Some(v) => if fwd(s, p, v) {
                                    match spec_content(s, v, set) {
                                        PR::Done(ns2, w, e3) => PR::Done(
                                            branch(
                                                SyntaxKind::If,
                                                p,
                                                w,
                                                seq![
                                                    c,
                                                    branch(SyntaxKind::Content, t, u, ns1),
                                                    branch(SyntaxKind::Content, v, w, ns2),
                                                ],
                                            ),
                                            w,
                                            e1 + e2 + e3,
                                        ),
                                        PR::Fail => PR::Fail,
                                        PR::Abort => PR::Abort,
                                    }
                                } else {
                                    PR::Fail
                                },
                                None => PR::Fail,
                            },
                            PR::Fail => PR::Fail,
                            PR::Abort => PR::Abort,
                        }
                    } else {
                        PR::Fail
                    },
                    None => PR::Fail,
                },
                PR::Fail => PR::Fail,
                PR::Abort => PR::Abort,
            }
        } else {
            PR::Fail
        },
        None => PR::Fail,
    }
}

/// Bindings `let name = value; ...`.
pub open spec fn spec_let(s: Seq<char>, p: int, set: SpecialSet) -> PR<SNode>
    decreases s.len() - p, 32int,
{
    match kw_ws(s, p, seq!['l', 'e', 't']) {
        Some(a) => if fwd(s, p, a) {
            match spec_binds(s, a, set) {
                PR::Done(bs, q, e) => PR::Done(branch(SyntaxKind::Let, p, q, bs), q, e),
                PR::Fail => PR::Fail,
                PR::Abort => PR::Abort,
            }
        } else {
            PR::Fail
        },
        None => PR::Fail,
    }
}

/// One or more bindings separated by `;`, with an optional trailing `;`.
pub open spec fn spec_binds(s: Seq<char>, p: int, set: SpecialSet) -> PR<Seq<SNode>>
    decreases s.len() - p, 42int,
{
    match spec_bind(s, p, set) {
        PR::Done(b, q, e) => if fwd(s, p, q) {
            match spec_binds_rest(s, q, set) {
                PR::Done(bs, r, e2) => PR::Done(seq![b] + bs, r, e + e2),
                PR::Fail => PR::Fail,
                PR::Abort => PR::Abort,
            }
        } else {
            PR::Fail
        },
        PR::Fail => PR::Fail,
        PR::Abort => PR::Abort,
    }
}

/// The bindings after the first, each after a `;`.
pub open spec fn spec_binds_rest(s: Seq<char>, p: int, set: SpecialSet) -> PR<Seq<SNode>>
    decreases s.len() - p, 47int,
{
    if spec_at_char(s, p, ';') {
        match spec_bind(s, p + 1, set) {
            PR::Fail => PR::Done(Seq::empty(), p + 1, Seq::empty()),
            PR::Abort => PR::Abort,
            PR::Done(b, q, e) => if fwd(s, p, q) {
                match spec_binds_rest(s, q, set) {
                    PR::Done(bs, r, e2) => PR::Done(seq![b] + bs, r, e + e2),
                    PR::Fail => PR::Fail,
                    PR::Abort => PR::Abort,
                }
            } else {
                PR::Fail
            },
        }
    } else {
        PR::Done(Seq::empty(), p, Seq::empty())
    }
}

/// A binding `name = value`, with blanks around `=`.
pub open spec fn spec_bind(s: Seq<char>, p: int, set: SpecialSet) -> PR<SNode>
    decreases s.len() - p, 41int,
{
    match ident_end(s, p) {
        Some(q) => {
            let i1 = scan_end(s, q, CharClass::InlineWhitespace);
            let i2 = scan_end(s, i1 + 1, CharClass::InlineWhitespace);
            if i1 > q && spec_at_char(s, i1, '=') && i2 > i1 + 1 && fwd(s, p, i2) {
                match spec_expr(s, i2, set) {
                    PR::Done(v, r, e) => PR::Done(
                        branch(SyntaxKind::Bind, p, r, seq![leaf(s, SyntaxKind::Ident, p, q), v]),
                        r,
                        e,
                    ),
                    PR::Fail => PR::Fail,
                    PR::Abort => PR::Abort,
                }
            } else {
                PR::Fail
            }
        },
        None => PR::Fail,
    }
}

} // verus!
