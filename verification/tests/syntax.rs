use typedown::ast::{
    parse_i64, Arg, Block, Bool, Call, Code, Comment, Document, Enum, Escape, Expr, ExprBlock,
    Heading, HeadingMarker, Inline, MathInline, RawInline, Int, Link, List, Literal, Paragraph, Raw, Ref, Str, Table, TableRow, TermItem,
    Terms, TypedNode, Word,
};
use typedown::chars::{is_identy, is_newline, is_special, is_wordy};
use typedown::error::{Severity, SourceDiagnostic};
use typedown::extension::TydExtension;
use typedown::kind::SyntaxKind;
use typedown::node::{BranchNode, LeafNode, Node, Span};
use typedown::parser::parse;
use typedown::source::Source;
use typedown::terminal::{
    Character, CommentContent, DoubleSlash, Indentation, LinkContent, RawContent,
    RawInlineContent, StringContent, TripleBackTick,
};
use typedown::LocationPhase;

fn chars(s: &str) -> Vec<char> {
    s.chars().collect()
}

fn code_literal(text: &str) -> Node {
    let source = Source::new("t", "t", text);
    let d = parse(&source).doc.unwrap();
    let p = &d.children()[0];
    let code = &p.children()[0];
    clone_node(&code.children()[0])
}

fn clone_node(n: &Node) -> Node {
    match n {
        Node::Leaf(l) => Node::Leaf(l.clone()),
        Node::Error(e) => Node::Error(e.clone()),
        Node::Branch(_) => panic!("a leaf"),
    }
}

#[test]
fn heading_marker_depth() {
    let source = Source::new("t", "t", "=== Three");
    let d = parse(&source).doc.unwrap();
    let h = &d.children()[0];
    let m = HeadingMarker::from_node(&h.children()[0]).unwrap();
    assert_eq!(m.depth(), 3);
    assert_eq!(m.span(), Span { start: 0, end: 3 });
    assert!(HeadingMarker::from_node(h).is_none());
}

#[test]
fn int_and_bool_literals() {
    let n = code_literal("#1234");
    assert_eq!(Int::from_node(&n).unwrap().get(), 1234);
    let octal = code_literal("#0o17");
    assert_eq!(Int::from_node(&octal).unwrap().get(), 15);
    let hex = code_literal("#0x1f");
    assert_eq!(Int::from_node(&hex).unwrap().get(), 31);
    let b = code_literal("#false");
    assert_eq!(Bool::from_node(&b).unwrap().get(), false);
    let t = code_literal("#true");
    assert_eq!(Bool::from_node(&t).unwrap().get(), true);
    let s = code_literal("#\"hi\"");
    assert_eq!(Str::from_node(&s).unwrap().get().as_str(), "hi");
    assert!(Int::from_node(&s).is_none());
}

#[test]
fn parse_i64_reads_signs_and_bounds() {
    assert_eq!(parse_i64(&chars("42")), Some(42));
    assert_eq!(parse_i64(&chars("+7")), Some(7));
    assert_eq!(parse_i64(&chars("-9223372036854775808")), Some(i64::MIN));
    assert_eq!(parse_i64(&chars("9223372036854775807")), Some(i64::MAX));
    assert_eq!(parse_i64(&chars("9223372036854775808")), None);
    assert_eq!(parse_i64(&chars("-")), None);
    assert_eq!(parse_i64(&chars("")), None);
    assert_eq!(parse_i64(&chars("1f")), None);
}

#[test]
fn character_classes() {
    assert!(is_newline('\n'));
    assert!(is_newline('\u{2028}'));
    assert!(!is_newline('a'));
    assert!(is_special('*'));
    assert!(!is_special('a'));
    assert!(is_identy('a'));
    assert!(is_identy('_'));
    assert!(is_wordy(Some('a')));
    assert!(!is_wordy(Some(' ')));
    assert!(!is_wordy(None));
    assert!(is_special(' '));
}

#[test]
fn terminals() {
    let src = chars("// x");
    assert_eq!(DoubleSlash::parse(&src, 0).map(|(_, q)| q), Some(2));
    assert!(DoubleSlash::parse(&src, 1).is_none());
    assert_eq!(DoubleSlash.to_string(), "//");
    assert_eq!(TripleBackTick::parse(&chars("```a"), 0).map(|(_, q)| q), Some(3));
    assert_eq!(TripleBackTick.to_string(), "```");
    assert_eq!(Indentation::parse(&chars("    x"), 0).map(|(_, q)| q), Some(4));
    assert!(Indentation::parse(&chars("   x"), 0).is_none());
    assert_eq!(Indentation.to_string(), "    ");
    let (c, q) = CommentContent::parse(&chars("%note\nmore"), 1);
    assert_eq!((c.0.as_str(), q), ("note", 5));
    let (s, q) = StringContent::parse(&chars("ab\"c"), 0);
    assert_eq!((s.to_string().as_str(), q), ("ab", 2));
    let (r, q) = RawContent::parse(&chars("x`y```z"), 0);
    assert_eq!((r.to_string().as_str(), q), ("x`y", 3));
    let (ri, q) = RawInlineContent::parse(&chars("ab`c"), 0);
    assert_eq!((ri.to_string().as_str(), q), ("ab", 2));
    let (l, q) = LinkContent::parse(&chars("url>rest"), 0);
    assert_eq!((l.to_string().as_str(), q), ("url", 3));
    let (ch, q) = Character::parse(&chars("é"), 0).unwrap();
    assert_eq!((ch.to_string().as_str(), q), ("é", 1));
    assert!(Character::parse(&chars("*"), 0).is_none());
}

#[test]
fn source_text_rope_and_end() {
    let s = Source::new("dir/doc.tyd", "doc.tyd", "héllo");
    assert_eq!(s.name(), "doc.tyd");
    assert_eq!(s.path(), "dir/doc.tyd");
    assert_eq!(s.as_str(), "héllo");
    assert_eq!(s.len(), 6);
    assert_eq!(s.as_rope().len_chars(), 5);
    assert_eq!(s.as_rope().to_string(), "héllo");
    assert_eq!(s.end_of_input(), Span { start: 6, end: 6 });
    let one = Source::new("p", "n", "é");
    assert_eq!(one.len(), 2);
    assert_eq!(one.end_of_input(), Span { start: 2, end: 2 });
    assert_eq!(s.chars().len(), 5);
}

#[test]
fn diagnostics() {
    let d = SourceDiagnostic::warn(Span { start: 1, end: 2 }, "careful".to_string())
        .with_help("look".to_string());
    assert!(d.is_warning());
    assert!(!d.is_error());
    assert_eq!(d.help.as_deref(), Some("look"));
    let mut e = SourceDiagnostic::info(Span { start: 0, end: 0 }, "fyi".to_string());
    e.set_trace(vec![("here".to_string(), Span { start: 0, end: 1 })]);
    assert!(e.is_info());
    assert_eq!(e.trace.len(), 1);
    assert_eq!(e.severity, Severity::Advice);
}

#[test]
fn node_kinds_and_texts() {
    let source = Source::new("t", "t", "ab");
    let d = parse(&source).doc.unwrap();
    assert!(d.is_branch());
    let w = &d.children()[0].children()[0];
    assert!(w.is_leaf());
    assert!(!w.is_error());
    assert_eq!(w.kind(), SyntaxKind::Word);
    assert_eq!(d.text().as_str(), "");
}

#[test]
fn extension_and_phase() {
    assert_eq!(TydExtension::new(), TydExtension {});
    let _ = LocationPhase;
}

fn blocks(text: &str) -> Node {
    let source = Source::new("t", "t", text);
    parse(&source).doc.unwrap()
}

#[test]
fn heading_view() {
    let d = blocks("== Intro {start}");
    let h = Heading::from_node(&d.children()[0]).unwrap();
    assert_eq!(h.depth(), 2);
    assert_eq!(h.content().0.kind(), SyntaxKind::Content);
    assert_eq!(h.label().unwrap().get().as_str(), "start");
    let plain = blocks("== Plain");
    assert!(Heading::from_node(&plain.children()[0]).unwrap().label().is_none());
}

#[test]
fn raw_link_and_ref_views() {
    let d = blocks("```py\nx\n```");
    let r = Raw::from_node(&d.children()[0]).unwrap();
    assert_eq!(r.lang().unwrap().get().as_str(), "py");
    assert_eq!(r.text().get().as_str(), "\nx\n");
    let no_lang = blocks("```\nx```");
    assert!(Raw::from_node(&no_lang.children()[0]).unwrap().lang().is_none());
    let p = blocks("<a.b>[x] @tgt");
    let inl = &p.children()[0];
    let l = Link::from_node(&inl.children()[0]).unwrap();
    assert_eq!(l.href().get().as_str(), "a.b");
    assert!(l.content().is_some());
    let rf = Ref::from_node(&inl.children()[2]).unwrap();
    assert_eq!(rf.target().as_str(), "tgt");
}

#[test]
fn table_view() {
    let d = blocks("| a | b | c |\n| d | e | f | {tab}");
    let t = Table::from_node(&d.children()[0]).unwrap();
    assert_eq!(t.col_count(), 3);
    assert_eq!(TableRow::from_node(&d.children()[0].children()[1]).unwrap().col_count(), 3);
    assert_eq!(t.rows().len(), 2);
    assert_eq!(t.label().unwrap().get().as_str(), "tab");
}

#[test]
fn term_comment_and_escape_views() {
    let d = blocks("> term: description");
    let item = TermItem::from_node(&d.children()[0].children()[0]).unwrap();
    assert_eq!(item.term().0.children()[0].text().as_str(), "term");
    assert_eq!(item.desc().0.kind(), SyntaxKind::Content);
    assert!(!std::ptr::eq(item.term().0, item.desc().0));
    assert!(TermItem::from_node(&d.children()[0]).is_none());
    let p = blocks("a\\*b %note");
    let esc = Escape::from_node(&p.children()[0].children()[1]).unwrap();
    assert_eq!(esc.get().as_str(), "*");
    let last = p.children()[0].children().last().unwrap();
    let c = Comment::from_node(last).unwrap();
    assert_eq!(c.get().as_str(), "note");
    assert!(Comment::from_node(&p.children()[0].children()[0]).is_none());
}

#[test]
fn code_call_and_arg_views() {
    let d = blocks("#f(1, key: \"v\")[body]");
    let code = Code::from_node(&d.children()[0].children()[0]).unwrap();
    let call = match code.get() {
        Expr::Call(c) => c,
        other => panic!("expected a call, got {:?}", other),
    };
    assert_eq!(call.ident().get().as_str(), "f");
    let args = call.args();
    assert_eq!(args.0.kind(), SyntaxKind::Args);
    let listed = args.args();
    assert_eq!(listed.len(), 2);
    assert!(std::ptr::eq(listed[1].0, &args.0.children()[1]));
    assert_eq!(args.content().unwrap().inlines().len(), 1);
    let first = Arg::from_node(&args.0.children()[0]).unwrap();
    assert!(first.ident().is_none());
    assert!(matches!(first.value(), Expr::Literal(Literal::Int(_))));
    let named = Arg::from_node(&args.0.children()[1]).unwrap();
    assert_eq!(named.ident().unwrap().get().as_str(), "key");
    assert_eq!(named.value().to_node().text().as_str(), "v");
    assert!(Call::from_node(&args.0.children()[0]).is_none());
}

#[test]
fn block_inline_and_expr_sums() {
    let d = blocks("== Title\n\nsome *bold* #x #2.5");
    let h = Block::from_node(&d.children()[0]).unwrap();
    assert!(matches!(h, Block::Heading(_)));
    assert!(std::ptr::eq(h.to_node(), &d.children()[0]));
    assert_eq!(h.span(), d.children()[0].span());
    let para = d.children().last().unwrap();
    let b = Block::from_node(para).unwrap();
    assert!(matches!(b, Block::Paragraph(_)) || matches!(b, Block::Plain(_)));
    let inl: Vec<Inline> = para.children().iter().filter_map(Inline::from_node).collect();
    assert_eq!(inl.len(), para.children().len());
    match inl[0] {
        Inline::Word(w) => assert_eq!(w.get().as_str(), "some"),
        other => panic!("expected a word, got {:?}", other),
    }
    assert!(matches!(inl[1], Inline::Spacing(_)));
    assert!(matches!(inl[2], Inline::Strong(_)));
    assert!(Block::from_node(&para.children()[0]).is_none());
    assert!(Inline::from_node(para).is_none());
    let word = Word::from_node(&para.children()[0]).unwrap();
    assert_eq!(word.get().as_str(), "some");
    let codes: Vec<&Node> = para.children().iter().filter(|n| n.kind() == SyntaxKind::Code).collect();
    assert_eq!(codes.len(), 2);
    match Code::from_node(codes[0]).unwrap().get() {
        Expr::Ident(i) => assert_eq!(i.get().as_str(), "x"),
        other => panic!("expected an identifier, got {:?}", other),
    }
    let two = Code::from_node(codes[1]).unwrap().get();
    assert!(matches!(two, Expr::Literal(Literal::Float(_))));
    assert_eq!(two.to_node().text().as_str(), "2.5");
    let float = Node::Leaf(LeafNode {
        span: Span { start: 0, end: 3 },
        kind: SyntaxKind::Float,
        text: "2.5".into(),
    });
    assert!(matches!(Literal::from_node(&float), Some(Literal::Float(_))));
    assert!(matches!(Expr::from_node(&float), Some(Expr::Literal(Literal::Float(_)))));
    assert!(Expr::from_node(para).is_none());
    assert!(Literal::from_node(codes[0]).is_none());
}

#[test]
fn listing_children_of_views() {
    let d = blocks("- a\n- b\n\n+ one\n\n> t: d\n\n| x | y |\n\nsome *words*");
    let doc = Document::from_node(&d).unwrap();
    let bs = doc.blocks();
    assert_eq!(bs.len(), d.children().len());
    let list = match bs[0] {
        Block::List(l) => l,
        other => panic!("expected a list, got {:?}", other),
    };
    let items = list.items();
    assert_eq!(items.len(), 2);
    assert_eq!(items[1].blocks().len(), 1);
    assert!(matches!(items[0].blocks()[0], Block::Plain(_)));
    let e = Enum::from_node(bs[1].to_node()).unwrap();
    assert_eq!(e.items().len(), 1);
    let t = Terms::from_node(bs[2].to_node()).unwrap();
    assert_eq!(t.items()[0].term().0.children()[0].text().as_str(), "t");
    let table = bs[3].to_node();
    let row = TableRow::from_node(&table.children()[0]).unwrap();
    assert_eq!(row.blocks().len(), 2);
    let para = Paragraph::from_node(bs[4].to_node());
    let inl = match para {
        Some(p) => p.inlines(),
        None => match bs[4] {
            Block::Plain(p) => p.inlines(),
            other => panic!("expected text, got {:?}", other),
        },
    };
    assert_eq!(inl.len(), 3);
    assert!(matches!(inl[2], Inline::Strong(_)));
    assert!(List::from_node(&d).is_none());
    let block = Node::Branch(BranchNode {
        span: Span { start: 0, end: 4 },
        kind: SyntaxKind::ExprBlock,
        children: vec![
            Node::Leaf(LeafNode { span: Span { start: 0, end: 1 }, kind: SyntaxKind::Int, text: "1".into() }),
            Node::Leaf(LeafNode { span: Span { start: 2, end: 3 }, kind: SyntaxKind::Word, text: "w".into() }),
            Node::Leaf(LeafNode { span: Span { start: 3, end: 4 }, kind: SyntaxKind::Ident, text: "x".into() }),
        ],
    });
    let exprs = ExprBlock::from_node(&block).unwrap().exprs();
    assert_eq!(exprs.len(), 2);
    assert!(matches!(exprs[0], Expr::Literal(Literal::Int(_))));
    assert!(matches!(exprs[1], Expr::Ident(_)));
}

#[test]
fn work_path_is_the_parent_directory() {
    let s = Source::new("dir/sub/doc.tyd", "doc.tyd", "x");
    assert_eq!(s.work_path(), "dir/sub");
    assert_eq!(s.try_work_path(), Some("dir/sub".to_string()));
    let root = Source::new("/", "root", "x");
    assert_eq!(root.try_work_path(), None);
}

#[test]
fn raw_and_math_inline_text() {
    let d = blocks("`code` $x+1$");
    let p = &d.children()[0];
    let r = RawInline::from_node(&p.children()[0]).unwrap();
    assert_eq!(r.get().as_str(), "code");
    let m = MathInline::from_node(&p.children()[2]).unwrap();
    assert_eq!(m.get().as_str(), "x+1");
}

#[test]
fn ascii_markup_characters() {
    assert!(!is_special('#'));
    assert!(!is_special('>'));
    assert!(!is_special('='));
    assert!(is_special('\t'));
    assert!(is_special('['));
    assert!(is_identy('f'));
    assert!(!is_identy('('));
    assert!(is_wordy(Some('7')));
    assert!(!is_wordy(Some('(')));
}
