use typedown::error::Severity;
use typedown::kind::SyntaxKind;
use typedown::node::{Node, Span};
use typedown::parser::{parse, try_parse, ParseResult};
use typedown::source::Source;

fn run(text: &str) -> ParseResult {
    let source = Source::new("doc.tyd", "doc.tyd", text);
    parse(&source)
}

fn doc(text: &str) -> Node {
    let r = run(text);
    assert!(r.errors.is_empty(), "unexpected errors for {:?}", text);
    r.doc.expect("a document")
}

fn kinds(n: &Node) -> Vec<SyntaxKind> {
    n.children().iter().map(|c| c.kind()).collect()
}

fn first_block(text: &str) -> Node {
    match doc(text) {
        Node::Branch(b) => b.children.into_iter().next().expect("a block"),
        _ => panic!("the document is a branch"),
    }
}

#[test]
fn paragraph_of_words_and_spacing() {
    let d = doc("Hello world");
    assert_eq!(d.kind(), SyntaxKind::Document);
    assert_eq!(d.span(), Span { start: 0, end: 11 });
    let p = &d.children()[0];
    assert_eq!(p.kind(), SyntaxKind::Paragraph);
    assert_eq!(kinds(p), vec![SyntaxKind::Word, SyntaxKind::Spacing, SyntaxKind::Word]);
    assert_eq!(p.children()[0].text().as_str(), "Hello");
    assert_eq!(p.children()[2].text().as_str(), "world");
    assert_eq!(p.children()[2].span(), Span { start: 6, end: 11 });
}

#[test]
fn blocks_are_separated_by_blank_lines() {
    let d = doc("one\n\ntwo\n\n\nthree");
    assert_eq!(kinds(&d), vec![SyntaxKind::Paragraph, SyntaxKind::Paragraph, SyntaxKind::Paragraph]);
}

#[test]
fn soft_break_continues_a_paragraph() {
    let p = first_block("one\ntwo");
    assert_eq!(p.kind(), SyntaxKind::Paragraph);
    assert_eq!(kinds(&p), vec![SyntaxKind::Word, SyntaxKind::SoftBreak, SyntaxKind::Word]);
}

#[test]
fn single_trailing_newline_is_unexpected() {
    let r = run("Hello\n");
    assert!(r.doc.is_none());
    assert_eq!(r.errors.len(), 1);
    assert_eq!(r.errors[0].message, "unexpected input");
    assert_eq!(r.errors[0].span, Span { start: 5, end: 6 });
    assert!(r.errors[0].is_error());
}

#[test]
fn trailing_blank_lines_are_allowed() {
    let d = doc("Hello\n\n");
    assert_eq!(kinds(&d), vec![SyntaxKind::Paragraph]);
}

#[test]
fn empty_source_has_no_document() {
    let r = run("");
    assert!(r.doc.is_none());
    assert_eq!(r.errors.len(), 1);
    assert_eq!(r.errors[0].span, Span { start: 0, end: 0 });
}

#[test]
fn heading_with_marker_content_and_label() {
    let h = first_block("== Title {intro}");
    assert_eq!(h.kind(), SyntaxKind::Heading);
    assert_eq!(kinds(&h), vec![SyntaxKind::HeadingMarker, SyntaxKind::Content, SyntaxKind::Label]);
    assert_eq!(h.children()[0].text().as_str(), "==");
    assert_eq!(h.children()[2].text().as_str(), "intro");
}

#[test]
fn seven_equals_are_no_heading() {
    let b = first_block("======= x");
    assert_eq!(b.kind(), SyntaxKind::Paragraph);
}

#[test]
fn raw_block_with_language() {
    let r = first_block("```rust\nlet x = 1;\n```");
    assert_eq!(r.kind(), SyntaxKind::Raw);
    assert_eq!(kinds(&r), vec![SyntaxKind::RawLang, SyntaxKind::Text]);
    assert_eq!(r.children()[0].text().as_str(), "rust");
    assert_eq!(r.children()[1].text().as_str(), "\nlet x = 1;\n");
}

#[test]
fn list_with_nested_list() {
    let l = first_block("- a\n    - b\n- c");
    assert_eq!(l.kind(), SyntaxKind::List);
    assert_eq!(kinds(&l), vec![SyntaxKind::ListItem, SyntaxKind::ListItem]);
    let first = &l.children()[0];
    assert_eq!(kinds(first), vec![SyntaxKind::Plain, SyntaxKind::List]);
}

#[test]
fn enumeration_items() {
    let e = first_block("+ a\n+ b");
    assert_eq!(e.kind(), SyntaxKind::Enum);
    assert_eq!(kinds(&e), vec![SyntaxKind::EnumItem, SyntaxKind::EnumItem]);
}

#[test]
fn term_definitions() {
    let t = first_block("> term: description");
    assert_eq!(t.kind(), SyntaxKind::Terms);
    let item = &t.children()[0];
    assert_eq!(kinds(item), vec![SyntaxKind::Content, SyntaxKind::Content]);
    assert_eq!(item.children()[0].children()[0].text().as_str(), "term");
}

#[test]
fn table_rows_and_cells() {
    let t = first_block("| a | b |\n| c | d |");
    assert_eq!(t.kind(), SyntaxKind::Table);
    assert_eq!(kinds(&t), vec![SyntaxKind::TableRow, SyntaxKind::TableRow]);
    assert_eq!(t.children()[0].children().len(), 2);
}

#[test]
fn table_column_mismatch_is_reported_and_kept() {
    let r = run("| a | b |\n| c |");
    let d = r.doc.expect("the table is kept");
    assert_eq!(d.children()[0].kind(), SyntaxKind::Table);
    assert_eq!(r.errors.len(), 1);
    assert_eq!(r.errors[0].message, "Adjacent table rows must contain equal number of cells.");
    assert_eq!(r.errors[0].span, Span { start: 0, end: 15 });
}

#[test]
fn strong_emphasis_and_quote() {
    let p = first_block("*bold* /it/ \"q\" ~s~");
    assert_eq!(
        kinds(&p),
        vec![
            SyntaxKind::Strong,
            SyntaxKind::Spacing,
            SyntaxKind::Emphasis,
            SyntaxKind::Spacing,
            SyntaxKind::Quote,
            SyntaxKind::Spacing,
            SyntaxKind::Strikeout,
        ]
    );
    assert_eq!(p.children()[0].span(), Span { start: 0, end: 6 });
}

#[test]
fn unclosed_strong_is_recovered() {
    let r = run("*bold");
    let d = r.doc.expect("a document");
    let p = &d.children()[0];
    assert_eq!(p.children()[0].kind(), SyntaxKind::Error);
    assert_eq!(p.children()[0].text().as_str(), "*bold");
    assert_eq!(r.errors.len(), 1);
    assert_eq!(r.errors[0].message, "unclosed delimiter");
    assert_eq!(r.errors[0].span, Span { start: 0, end: 5 });
    assert_eq!(r.errors[0].severity, Severity::Error);
}

#[test]
fn escape_of_markup_character() {
    let p = first_block("a\\*b");
    assert_eq!(kinds(&p), vec![SyntaxKind::Word, SyntaxKind::Escape, SyntaxKind::Word]);
    assert_eq!(p.children()[1].children()[0].text().as_str(), "*");
}

#[test]
fn invalid_escape_is_reported() {
    let r = run("\\q");
    let d = r.doc.expect("a document");
    assert_eq!(d.children()[0].children()[0].kind(), SyntaxKind::Error);
    assert_eq!(r.errors.len(), 1);
    assert_eq!(r.errors[0].message, "invalid escape sequence");
}

#[test]
fn link_with_content() {
    let p = first_block("<https://x.org>[site]");
    let l = &p.children()[0];
    assert_eq!(l.kind(), SyntaxKind::Link);
    assert_eq!(kinds(l), vec![SyntaxKind::Text, SyntaxKind::Content]);
    assert_eq!(l.children()[0].text().as_str(), "https://x.org");
}

#[test]
fn angle_bracket_without_link_is_a_word() {
    let p = first_block("a<b");
    assert_eq!(kinds(&p), vec![SyntaxKind::Word]);
    assert_eq!(p.children()[0].text().as_str(), "a<b");
}

#[test]
fn reference_with_unicode_identifier() {
    let p = first_block("@héllo");
    let r = &p.children()[0];
    assert_eq!(r.kind(), SyntaxKind::Ref);
    assert_eq!(r.children()[0].text().as_str(), "héllo");
}

#[test]
fn raw_inline_math_and_comment() {
    let p = first_block("`x` $y$ %note");
    assert_eq!(
        kinds(&p),
        vec![
            SyntaxKind::RawInline,
            SyntaxKind::Spacing,
            SyntaxKind::MathInline,
            SyntaxKind::Spacing,
            SyntaxKind::Comment,
        ]
    );
    assert_eq!(p.children()[0].text().as_str(), "x");
}

#[test]
fn subscript_and_superscript() {
    let p = first_block("x_2 y^[ab]");
    let k = kinds(&p);
    assert_eq!(k[1], SyntaxKind::Subscript);
    assert_eq!(k[4], SyntaxKind::Supscript);
}

#[test]
fn code_call_with_arguments_and_content() {
    let p = first_block("#f(1, key: \"v\")[body]");
    let code = &p.children()[0];
    assert_eq!(code.kind(), SyntaxKind::Code);
    let call = &code.children()[0];
    assert_eq!(call.kind(), SyntaxKind::Call);
    assert_eq!(call.children()[0].text().as_str(), "f");
    let args = &call.children()[1];
    assert_eq!(kinds(args), vec![SyntaxKind::Arg, SyntaxKind::Arg, SyntaxKind::Content]);
    let named = &args.children()[1];
    assert_eq!(kinds(named), vec![SyntaxKind::ArgIdent, SyntaxKind::Str]);
    assert_eq!(named.children()[1].text().as_str(), "v");
}

#[test]
fn code_literals() {
    let p = first_block("#true #0x10 #0o17 #42");
    let lits: Vec<(SyntaxKind, String)> = p
        .children()
        .iter()
        .filter(|n| n.kind() == SyntaxKind::Code)
        .map(|n| (n.children()[0].kind(), n.children()[0].text().to_string()))
        .collect();
    assert_eq!(
        lits,
        vec![
            (SyntaxKind::Bool, "true".to_string()),
            (SyntaxKind::Int, "0x10".to_string()),
            (SyntaxKind::Int, "0o17".to_string()),
            (SyntaxKind::Int, "42".to_string()),
        ]
    );
}

#[test]
fn code_conditional_and_bindings() {
    let p = first_block("#if x then [a] else [b]");
    assert_eq!(p.children()[0].children()[0].kind(), SyntaxKind::If);
    let q = first_block("#let a = 1;b = 2");
    let l = &q.children()[0].children()[0];
    assert_eq!(l.kind(), SyntaxKind::Let);
    assert_eq!(kinds(l), vec![SyntaxKind::Bind, SyntaxKind::Bind]);
}

#[test]
fn integer_literal_that_does_not_fit_aborts() {
    let source = Source::new("doc.tyd", "doc.tyd", "#99999999999999999999");
    assert!(try_parse(&source).is_none());
    let hex = Source::new("doc.tyd", "doc.tyd", "#0x1f");
    assert!(try_parse(&hex).is_some());
    let big_hex = Source::new("doc.tyd", "doc.tyd", "#0x8000000000000000");
    assert!(try_parse(&big_hex).is_none());
    let max_hex = Source::new("doc.tyd", "doc.tyd", "#0x7fffffffffffffff");
    assert!(try_parse(&max_hex).is_some());
    let ok = Source::new("doc.tyd", "doc.tyd", "#9223372036854775807");
    assert!(try_parse(&ok).is_some());
    let words = Source::new("doc.tyd", "doc.tyd", "99999999999999999999 in text");
    assert!(try_parse(&words).is_some());
}

#[test]
fn nested_content_over_lines() {
    let p = first_block("#f()[\n    line one\n    line two\n]");
    let args = &p.children()[0].children()[0].children()[1];
    let content = &args.children()[0];
    assert_eq!(content.kind(), SyntaxKind::Content);
    assert_eq!(
        kinds(content),
        vec![
            SyntaxKind::Word,
            SyntaxKind::Spacing,
            SyntaxKind::Word,
            SyntaxKind::SoftBreak,
            SyntaxKind::Word,
            SyntaxKind::Spacing,
            SyntaxKind::Word,
        ]
    );
}

#[test]
fn flatten_visits_root_first_and_children_last_to_first() {
    let p = first_block("a b");
    let flat = p.flatten();
    assert_eq!(flat.len(), 4);
    assert_eq!(flat[0], (SyntaxKind::Paragraph, Span { start: 0, end: 3 }));
    assert_eq!(flat[1], (SyntaxKind::Word, Span { start: 2, end: 3 }));
    assert_eq!(flat[3], (SyntaxKind::Word, Span { start: 0, end: 1 }));
}

#[test]
fn filter_map_stops_below_selected_nodes() {
    let p = first_block("a *b* c");
    let strong = p.children()[2].span();
    let picked = p.filter_map(|k| match k {
        SyntaxKind::Strong => Some("strong"),
        SyntaxKind::Word => Some("word"),
        _ => None,
    });
    assert_eq!(
        picked,
        vec![
            ("word", Span { start: 6, end: 7 }),
            ("strong", strong),
            ("word", Span { start: 0, end: 1 }),
        ]
    );
    let none: Vec<(u8, Span)> = p.filter_map(|_| None);
    assert!(none.is_empty());
    let root = p.filter_map(|k| Some(k));
    assert_eq!(root, vec![(SyntaxKind::Paragraph, p.span())]);
}

#[test]
fn binding_after_blank_is_not_taken() {
    let q = first_block("#let a = 1; b");
    let l = &q.children()[0].children()[0];
    assert_eq!(kinds(l), vec![SyntaxKind::Bind]);
    assert_eq!(q.children()[0].span(), Span { start: 0, end: 11 });
}

fn check_within(n: &Node, lo: usize, hi: usize) {
    let sp = n.span();
    assert!(lo <= sp.start && sp.start <= sp.end && sp.end <= hi, "{:?} not within {}..{}", sp, lo, hi);
    for c in n.children() {
        check_within(c, sp.start, sp.end);
    }
}

#[test]
fn every_node_lies_within_its_parent() {
    let text = "= Head {h}\n\n- a *b*\n    - c\n\n| x | #f(1)[y] |\n\n> t: d\n\npara \"q\" <l>[m] #if a then [b] else [c]";
    let d = doc(text);
    let n = text.chars().count();
    assert_eq!(d.span(), Span { start: 0, end: n });
    check_within(&d, 0, n);
}

fn error_spans(n: &Node, out: &mut Vec<Span>) {
    match n {
        Node::Error(e) => out.push(e.span),
        Node::Branch(b) => b.children.iter().for_each(|c| error_spans(c, out)),
        Node::Leaf(_) => {},
    }
}

#[test]
fn recovered_errors_are_the_error_nodes() {
    let r = run("*open and \\q then ~more\n\n| a | b |\n| c |");
    let d = r.doc.expect("a document");
    let mut spans = Vec::new();
    error_spans(&d, &mut spans);
    let recovered: Vec<Span> = r
        .errors
        .iter()
        .filter(|e| e.message != "Adjacent table rows must contain equal number of cells.")
        .map(|e| e.span)
        .collect();
    assert_eq!(spans.len(), 3);
    assert_eq!(recovered, spans);
    assert_eq!(r.errors.len(), 4);
}

#[test]
fn heading_continues_on_indented_lines() {
    let h = first_block("= Long\n    title");
    assert_eq!(h.kind(), SyntaxKind::Heading);
    let content = &h.children()[1];
    assert_eq!(kinds(content), vec![SyntaxKind::Word, SyntaxKind::SoftBreak, SyntaxKind::Word]);
}

#[test]
fn for_loop_over_an_identifier() {
    let p = first_block("#for x in xs[a]");
    let code = &p.children()[0];
    let f = &code.children()[0];
    assert_eq!(f.kind(), SyntaxKind::For);
    assert_eq!(kinds(f), vec![SyntaxKind::Ident, SyntaxKind::Ident, SyntaxKind::Content]);
    assert_eq!(f.children()[0].text().as_str(), "x");
    assert_eq!(f.children()[1].text().as_str(), "xs");
    assert_eq!(code.span(), Span { start: 0, end: 15 });
    let glued = run("#for xin xs[a]");
    let flat = glued.doc.map(|d| d.flatten()).unwrap_or_default();
    assert!(flat.iter().all(|(k, _)| *k != SyntaxKind::For));
}

#[test]
fn unterminated_nested_content_is_not_content() {
    let r = run("#f()[\n    a");
    assert!(r.doc.is_none());
    assert_eq!(r.errors.len(), 1);
    assert_eq!(r.errors[0].span, Span { start: 4, end: 5 });
}

#[test]
fn trailing_comma_in_arguments() {
    let p = first_block("#f( 1 , 2 , )");
    let args = &p.children()[0].children()[0].children()[1];
    assert_eq!(kinds(args), vec![SyntaxKind::Arg, SyntaxKind::Arg]);
    assert_eq!(args.span(), Span { start: 2, end: 13 });
}

#[test]
fn term_colon_ends_the_term() {
    let t = first_block("> a b: c");
    assert_eq!(t.kind(), SyntaxKind::Terms);
    let term = &t.children()[0].children()[0];
    assert_eq!(kinds(term), vec![SyntaxKind::Word, SyntaxKind::Spacing, SyntaxKind::Word]);
    let p = first_block("> a:b: c");
    assert_eq!(p.kind(), SyntaxKind::Paragraph);
}

#[test]
fn spans_count_bytes() {
    let r = run("é a\u{1F600}b");
    let d = r.doc.expect("a document");
    assert_eq!(d.span(), Span { start: 0, end: 9 });
    let p = &d.children()[0];
    let words: Vec<Span> = p.children().iter().filter(|n| n.kind() == SyntaxKind::Word).map(|n| n.span()).collect();
    assert_eq!(words[0], Span { start: 0, end: 2 });
    assert_eq!(words.last().copied().unwrap().end, 9);
    let bad = run("ü *x");
    assert_eq!(bad.errors[0].span.start, 3);
}
