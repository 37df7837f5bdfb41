//! The grammar of the markup language and its parsers.

pub mod result;
pub mod token;
pub mod literal;
pub mod grammar;
pub mod markup;
pub mod block;
pub mod laws;
pub mod block_laws;
pub mod recovery;
pub mod block_recovery;

use crate::bytes::{byte_offsets, byte_pos, byte_span, byte_tree, span_in, to_byte_tree};
use crate::error::{reports, SourceDiagnostic};
use crate::kind::SyntaxKind;
use crate::node::{node_view, Node, SNode};
use crate::parser::block::{parse_blocks, spec_blocks};
use crate::parser::result::{branch, mk_branch, sp, ParseError, ParseErrorKind, Parsed, PR};
use crate::source::Source;
use vstd::prelude::*;

verus! {

/// The outcome of parsing a document: the document, if the whole source parsed,
/// and the diagnostics of the errors found.
pub struct ParseResult {
    /// The document node, if the blocks cover the whole source.
    pub doc: Option<Node>,
    /// One diagnostic for each error, in the order the errors were found.
    pub errors: Vec<SourceDiagnostic>,
}

/// The error that reports input the grammar does not allow at `q`.
pub open spec fn unexpected(s: Seq<char>, q: int) -> ParseError {
    ParseError {
        span: sp(q, if q < s.len() { q + 1 } else { q }),
        kind: ParseErrorKind::Unexpected,
    }
}

/// Whether parsing the source aborts: on an integer literal whose value, read in its
/// radix, does not fit in an `i64`.
pub open spec fn document_aborts(s: Seq<char>) -> bool {
    spec_blocks(s, 0) is Abort
}

/// The document of a source: the blocks, if they cover the whole source.
pub open spec fn document(s: Seq<char>) -> Option<SNode> {
    match spec_blocks(s, 0) {
        PR::Done(bs, q, _) => if q == s.len() {
            Some(branch(SyntaxKind::Document, 0, s.len() as int, bs))
        } else {
            None
        },
        _ => None,
    }
}

/// The errors found in a source: those recovered from while parsing its blocks,
/// then, where the blocks stop before the end, input that was not expected there.
pub open spec fn document_errors(s: Seq<char>) -> Seq<ParseError> {
    match spec_blocks(s, 0) {
        PR::Done(_, q, e) => if q == s.len() {
            e
        } else {
            e.push(unexpected(s, q))
        },
        _ => seq![unexpected(s, 0)],
    }
}

/// The model of an optional node.
pub open spec fn doc_view(d: Option<Node>) -> Option<SNode> {
    match d {
        Some(n) => Some(node_view(n)),
        None => None,
    }
}

/// The document of a source, with spans that count bytes.
pub open spec fn byte_document(s: Seq<char>) -> Option<SNode> {
    match document(s) {
        Some(d) => Some(byte_tree(s, d)),
        None => None,
    }
}

/// An error, with a span that counts bytes.
pub open spec fn byte_error(s: Seq<char>, e: ParseError) -> ParseError {
    ParseError { span: byte_span(s, e.span), kind: e.kind }
}

/// Whether a result holds the document and the diagnostics of the errors of `s`,
/// with spans that count the bytes of its UTF-8 encoding.
pub open spec fn result_of(r: ParseResult, s: Seq<char>) -> bool {
    &&& doc_view(r.doc) == byte_document(s)
    &&& r.errors@.len() == document_errors(s).len()
    &&& forall|i: int|
        0 <= i < r.errors@.len() ==> reports(#[trigger] r.errors@[i], byte_error(s, document_errors(s)[i]))
}

/// The diagnostics reporting a sequence of errors, with spans that count bytes.
fn diagnostics(errs: Vec<ParseError>, offs: &Vec<usize>, Ghost(s): Ghost<Seq<char>>) -> (r: Vec<
    SourceDiagnostic,
>)
    requires
        offs@.len() == s.len() + 1,
        forall|j: int| 0 <= j <= s.len() ==> #[trigger] offs@[j] == byte_pos(s, j),
    ensures
        r@.len() == errs@.len(),
        forall|i: int| 0 <= i < r@.len() ==> reports(#[trigger] r@[i], byte_error(s, errs@[i])),
{
    let mut out: Vec<SourceDiagnostic> = Vec::new();
    let mut i: usize = 0;
    while i < errs.len()
        invariant
            i <= errs@.len(),
            offs@.len() == s.len() + 1,
            forall|j: int| 0 <= j <= s.len() ==> #[trigger] offs@[j] == byte_pos(s, j),
            out@.len() == i,
            forall|j: int| 0 <= j < i ==> reports(#[trigger] out@[j], byte_error(s, errs@[j])),
        decreases errs.len() - i,
    {
        let e = errs[i];
        let b = ParseError { span: span_in(offs, e.span, Ghost(s)), kind: e.kind };
        out.push(SourceDiagnostic::from_error(b));
        i = i + 1;
    }
    out
}

/// Parses a source into a document, or `None` where parsing aborts.
pub fn try_parse(source: &Source) -> (r: Option<ParseResult>)
    ensures
        r is None <==> document_aborts(source.text()),
        r matches Some(res) ==> result_of(res, source.text()),
{
    let src = source.chars();
    let n = src.len();
    let offs = byte_offsets(src);
    let (doc, errs) = match parse_blocks(src, 0) {
        Parsed::Done(bs, q, e) => {
            if q == n {
                (Some(mk_branch(SyntaxKind::Document, 0, n, bs)), e)
            } else {
                let mut e = e;
                e.push(ParseError {
                    span: crate::node::Span { start: q, end: if q < n { q + 1 } else { q } },
                    kind: ParseErrorKind::Unexpected,
                });
                (None, e)
            }
        },
        Parsed::Fail => {
            let mut e: Vec<ParseError> = Vec::new();
            e.push(ParseError {
                span: crate::node::Span { start: 0, end: if 0 < n { 1 } else { 0 } },
                kind: ParseErrorKind::Unexpected,
            });
            assert(e@ =~= seq![unexpected(src@, 0)]);
            (None, e)
        },
        Parsed::Abort => {
            return None;
        },
    };
    let doc = match doc {
        Some(d) => Some(to_byte_tree(&d, &offs, Ghost(src@))),
        None => None,
    };
    Some(ParseResult { doc, errors: diagnostics(errs, &offs, Ghost(src@)) })
}

/// Parses a source into a document.
pub fn parse(source: &Source) -> (r: ParseResult)
    requires
        !document_aborts(source.text()),
    ensures
        result_of(r, source.text()),
{
    match try_parse(source) {
        Some(r) => r,
        None => {
            assert(false);
            ParseResult { doc: None, errors: Vec::new() }
        }
    }
}

} // verus!
