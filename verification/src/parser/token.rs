//! The inline elements and literals that hold no other elements.
use crate::kind::SyntaxKind;
use crate::node::{Node, SNode};
use crate::parser::result::{
    advances, branch, error_node, leaf, leaf_in, mk_branch, mk_error, mk_leaf, mk_leaf_in, node_res,
    one_node, sp, ParseError, ParseErrorKind, Parsed, PR,
};
use crate::scan::{
    at_char, ident, ident_end, in_special, scan, scan_end, spec_at_char, spec_in_special, CharClass,
    SpecialSet,
};
use vstd::prelude::*;

verus! {

/// A reference `@target`: the target is an identifier.
pub open spec fn spec_ref(s: Seq<char>, p: int) -> PR<SNode> {
    if spec_at_char(s, p, '@') {
        match ident_end(s, p + 1) {
            Some(q) => PR::Done(
                branch(SyntaxKind::Ref, p + 1, q, seq![leaf(s, SyntaxKind::Ident, p + 1, q)]),
                q,
                Seq::empty(),
            ),
            None => PR::Fail,
        }
    } else {
        PR::Fail
    }
}

/// Parses a reference at `p`.
pub fn parse_ref(src: &Vec<char>, p: usize) -> (r: Parsed<Node>)
    requires
        p <= src.len(),
    ensures
        node_res(r) == spec_ref(src@, p as int),
        advances(r, p as int, src.len() as int),
{
    if at_char(src, p, '@') {
        match ident(src, p + 1) {
            Some(q) => {
                let id = mk_leaf(src, SyntaxKind::Ident, p + 1, q);
                Parsed::Done(mk_branch(SyntaxKind::Ref, p + 1, q, one_node(id)), q, Vec::new())
            },
            None => Parsed::Fail,
        }
    } else {
        Parsed::Fail
    }
}

/// Text between two equal delimiters on one line, at least one character:
/// raw inline text between backticks, or math between dollars.
pub open spec fn spec_verbatim(s: Seq<char>, p: int, d: char) -> PR<SNode> {
    let cl = if d == '`' { CharClass::RawInline } else { CharClass::Math };
    let kind = if d == '`' { SyntaxKind::RawInline } else { SyntaxKind::MathInline };
    if spec_at_char(s, p, d) {
        let e = scan_end(s, p + 1, cl);
        if e > p + 1 && spec_at_char(s, e, d) {
            PR::Done(leaf_in(s, kind, p, e + 1, p + 1, e), e + 1, Seq::empty())
        } else {
            PR::Fail
        }
    } else {
        PR::Fail
    }
}

/// Parses raw inline text (`d` is a backtick) or inline math (`d` is `$`) at `p`.
pub fn parse_verbatim(src: &Vec<char>, p: usize, d: char) -> (r: Parsed<Node>)
    requires
        p <= src.len(),
    ensures
        node_res(r) == spec_verbatim(src@, p as int, d),
        advances(r, p as int, src.len() as int),
{
    let cl = if d == '`' { CharClass::RawInline } else { CharClass::Math };
    let kind = if d == '`' { SyntaxKind::RawInline } else { SyntaxKind::MathInline };
    if at_char(src, p, d) {
        let e = scan(src, p + 1, cl);
        if e > p + 1 && at_char(src, e, d) {
            Parsed::Done(mk_leaf_in(src, kind, p, e + 1, p + 1, e), e + 1, Vec::new())
        } else {
            Parsed::Fail
        }
    } else {
        Parsed::Fail
    }
}

/// An escape `\c` of a markup character; a backslash before any other character
/// is kept as an error node, and the error is reported.
pub open spec fn spec_escape(s: Seq<char>, p: int) -> PR<SNode> {
    if spec_at_char(s, p, '\\') {
        if p + 1 < s.len() && spec_in_special(s[p + 1]) {
            PR::Done(
                branch(SyntaxKind::Escape, p + 1, p + 2, seq![leaf(s, SyntaxKind::Word, p + 1, p + 2)]),
                p + 2,
                Seq::empty(),
            )
        } else if p + 1 < s.len() {
            PR::Done(
                error_node(s, p, p + 2),
                p + 2,
                seq![ParseError { span: sp(p, p + 2), kind: ParseErrorKind::InvalidEscape }],
            )
        } else {
            PR::Fail
        }
    } else {
        PR::Fail
    }
}

/// Parses an escape at `p`.
pub fn parse_escape(src: &Vec<char>, p: usize) -> (r: Parsed<Node>)
    requires
        p <= src.len(),
    ensures
        node_res(r) == spec_escape(src@, p as int),
        advances(r, p as int, src.len() as int),
{
    if at_char(src, p, '\\') {
        if p + 1 < src.len() && in_special(src[p + 1]) {
            let w = mk_leaf(src, SyntaxKind::Word, p + 1, p + 2);
            Parsed::Done(mk_branch(SyntaxKind::Escape, p + 1, p + 2, one_node(w)), p + 2, Vec::new())
        } else if p + 1 < src.len() {
            let mut errs: Vec<ParseError> = Vec::new();
            errs.push(
                ParseError {
                    span: crate::node::Span { start: p, end: p + 2 },
                    kind: ParseErrorKind::InvalidEscape,
                },
            );
            proof {
                assert(errs@ =~= seq![ParseError { span: sp(p as int, p + 2), kind: ParseErrorKind::InvalidEscape }]);
            }
            Parsed::Done(mk_error(src, p, p + 2), p + 2, errs)
        } else {
            Parsed::Fail
        }
    } else {
        Parsed::Fail
    }
}

/// A run of blanks.
pub open spec fn spec_spacing(s: Seq<char>, p: int) -> PR<SNode> {
    let q = scan_end(s, p, CharClass::Blank);
    if q > p {
        PR::Done(leaf(s, SyntaxKind::Spacing, p, q), q, Seq::empty())
    } else {
        PR::Fail
    }
}

/// Parses a run of blanks at `p`.
pub fn parse_spacing(src: &Vec<char>, p: usize) -> (r: Parsed<Node>)
    requires
        p <= src.len(),
    ensures
        node_res(r) == spec_spacing(src@, p as int),
        advances(r, p as int, src.len() as int),
{
    let q = scan(src, p, CharClass::Blank);
    if q > p {
        Parsed::Done(mk_leaf(src, SyntaxKind::Spacing, p, q), q, Vec::new())
    } else {
        Parsed::Fail
    }
}

/// A comment `%...`: the rest of the line, at least one character.
pub open spec fn spec_comment(s: Seq<char>, p: int) -> PR<SNode> {
    if spec_at_char(s, p, '%') {
        let e = scan_end(s, p + 1, CharClass::Line);
        if e > p + 1 {
            PR::Done(
                branch(SyntaxKind::Comment, p + 1, e, seq![leaf(s, SyntaxKind::Text, p + 1, e)]),
                e,
                Seq::empty(),
            )
        } else {
            PR::Fail
        }
    } else {
        PR::Fail
    }
}

/// Parses a comment at `p`.
pub fn parse_comment(src: &Vec<char>, p: usize) -> (r: Parsed<Node>)
    requires
        p <= src.len(),
    ensures
        node_res(r) == spec_comment(src@, p as int),
        advances(r, p as int, src.len() as int),
{
    if at_char(src, p, '%') {
        let e = scan(src, p + 1, CharClass::Line);
        if e > p + 1 {
            let t = mk_leaf(src, SyntaxKind::Text, p + 1, e);
            Parsed::Done(mk_branch(SyntaxKind::Comment, p + 1, e, one_node(t)), e, Vec::new())
        } else {
            Parsed::Fail
        }
    } else {
        Parsed::Fail
    }
}

/// A word: a run of characters outside the special set.
pub open spec fn spec_word(s: Seq<char>, p: int, set: SpecialSet) -> PR<SNode> {
    let q = scan_end(s, p, CharClass::Word(set));
    if q > p {
        PR::Done(leaf(s, SyntaxKind::Word, p, q), q, Seq::empty())
    } else {
        PR::Fail
    }
}

/// Parses a word at `p`.
pub fn parse_word(src: &Vec<char>, p: usize, set: SpecialSet) -> (r: Parsed<Node>)
    requires
        p <= src.len(),
    ensures
        node_res(r) == spec_word(src@, p as int, set),
        advances(r, p as int, src.len() as int),
{
    let q = scan(src, p, CharClass::Word(set));
    if q > p {
        Parsed::Done(mk_leaf(src, SyntaxKind::Word, p, q), q, Vec::new())
    } else {
        Parsed::Fail
    }
}

/// After an unclosed delimiter `d` at `p`: the delimiter and the characters after it
/// up to the next markup character or line break, at least one, become an error node.
pub open spec fn spec_recovery(s: Seq<char>, p: int, d: char) -> PR<SNode> {
    let e = scan_end(s, p + 1, CharClass::Recovery);
    if spec_at_char(s, p, d) && e > p + 1 {
        PR::Done(
            error_node(s, p, e),
            e,
            seq![ParseError { span: sp(p, e), kind: ParseErrorKind::Unclosed(d) }],
        )
    } else {
        PR::Fail
    }
}

/// Recovers from an unclosed delimiter `d` at `p`.
pub fn inline_recovery(src: &Vec<char>, p: usize, d: char) -> (r: Parsed<Node>)
    requires
        p <= src.len(),
    ensures
        node_res(r) == spec_recovery(src@, p as int, d),
        advances(r, p as int, src.len() as int),
{
    if p >= src.len() {
        return Parsed::Fail;
    }
    let e = scan(src, p + 1, CharClass::Recovery);
    if at_char(src, p, d) && e > p + 1 {
        let mut errs: Vec<ParseError> = Vec::new();
        errs.push(
            ParseError {
                span: crate::node::Span { start: p, end: e },
                kind: ParseErrorKind::Unclosed(d),
            },
        );
        proof {
            assert(errs@ =~= seq![ParseError { span: sp(p as int, e as int), kind: ParseErrorKind::Unclosed(d) }]);
        }
        Parsed::Done(mk_error(src, p, e), e, errs)
    } else {
        Parsed::Fail
    }
}

} // verus!
