//! Terminals of the concrete syntax: fixed marks, and the contents of comments,
//! strings, raw text and links, and single characters of words.
use crate::eco::string_from_slice;
use crate::scan::{at_lit, newline_char, scan, scan_end, spec_at, spec_newline_char, CharClass};
use vstd::prelude::*;
use vstd::string::StringExecFns;

verus! {

/// The mark `//`.
#[derive(Debug, Clone, Copy, PartialEq, Eq, Structural)]
pub struct DoubleSlash;

/// The mark of raw blocks, three backticks.
#[derive(Debug, Clone, Copy, PartialEq, Eq, Structural)]
pub struct TripleBackTick;

/// One unit of indentation, four blanks.
#[derive(Debug, Clone, Copy, PartialEq, Eq, Structural)]
pub struct Indentation;

/// The text of a comment: the rest of the line.
#[derive(Debug, Clone, PartialEq, Eq)]
pub struct CommentContent(pub String);

/// The text of a string: everything up to the next `"`.
#[derive(Debug, Clone, PartialEq, Eq)]
pub struct StringContent(pub String);

/// The text of a raw block: everything up to the next three backticks.
#[derive(Debug, Clone, PartialEq, Eq)]
pub struct RawContent(pub String);

/// The text of raw inline text: the rest of the line up to the next backtick.
#[derive(Debug, Clone, PartialEq, Eq)]
pub struct RawInlineContent(pub String);

/// The target of a link: the rest of the line up to the next `>`.
#[derive(Debug, Clone, PartialEq, Eq)]
pub struct LinkContent(pub String);

/// A character of a word: not a blank, a line break or a mark of inline markup.
#[derive(Debug, Clone, Copy, PartialEq, Eq, Structural)]
pub struct Character(pub char);

impl DoubleSlash {
    /// Parses the mark at `p`.
    pub fn parse(src: &Vec<char>, p: usize) -> (r: Option<(Self, usize)>)
        ensures
            r is Some <==> spec_at(src@, p as int, seq!['/', '/']),
            r matches Some((_, q)) ==> q == p + 2,
    {
        assert(['/', '/']@ =~= seq!['/', '/']);
        if p <= src.len() && at_lit(src, p, &['/', '/']) {
            Some((DoubleSlash, p + 2))
        } else {
            None
        }
    }

    /// The mark as it is written.
    pub fn to_string(&self) -> (r: String)
        ensures
            r@ == "//"@,
    {
        String::from_str("//")
    }
}

impl TripleBackTick {
    /// Parses the mark at `p`.
    pub fn parse(src: &Vec<char>, p: usize) -> (r: Option<(Self, usize)>)
        ensures
            r is Some <==> spec_at(src@, p as int, seq!['`', '`', '`']),
            r matches Some((_, q)) ==> q == p + 3,
    {
        assert(['`', '`', '`']@ =~= seq!['`', '`', '`']);
        if p <= src.len() && at_lit(src, p, &['`', '`', '`']) {
            Some((TripleBackTick, p + 3))
        } else {
            None
        }
    }

    /// The mark as it is written.
    pub fn to_string(&self) -> (r: String)
        ensures
            r@ == "```"@,
    {
        String::from_str("```")
    }
}

impl Indentation {
    /// Parses one unit of indentation at `p`.
    pub fn parse(src: &Vec<char>, p: usize) -> (r: Option<(Self, usize)>)
        ensures
            r is Some <==> spec_at(src@, p as int, seq![' ', ' ', ' ', ' ']),
            r matches Some((_, q)) ==> q == p + 4,
    {
        assert([' ', ' ', ' ', ' ']@ =~= seq![' ', ' ', ' ', ' ']);
        if p <= src.len() && at_lit(src, p, &[' ', ' ', ' ', ' ']) {
            Some((Indentation, p + 4))
        } else {
            None
        }
    }

    /// The unit as it is written.
    pub fn to_string(&self) -> (r: String)
        ensures
            r@ == "    "@,
    {
        String::from_str("    ")
    }
}

impl CommentContent {
    /// Parses the rest of the line at `p`.
    pub fn parse(src: &Vec<char>, p: usize) -> (r: (Self, usize))
        requires
            p <= src.len(),
        ensures
            r.1 == scan_end(src@, p as int, CharClass::Line),
            r.0.0@ == src@.subrange(p as int, r.1 as int),
    {
        let q = scan(src, p, CharClass::Line);
        (CommentContent(string_from_slice(src, p, q)), q)
    }
}

impl StringContent {
    /// Parses the text up to the next `"` at `p`.
    pub fn parse(src: &Vec<char>, p: usize) -> (r: (Self, usize))
        requires
            p <= src.len(),
        ensures
            r.1 == scan_end(src@, p as int, CharClass::NotQuote),
            r.0.0@ == src@.subrange(p as int, r.1 as int),
    {
        let q = scan(src, p, CharClass::NotQuote);
        (StringContent(string_from_slice(src, p, q)), q)
    }

    /// The text.
    pub fn to_string(&self) -> (r: String)
        ensures
            r == self.0,
    {
        self.0.clone()
    }
}

/// The end of the text before the next three backticks, or of the source.
pub open spec fn raw_content_end(s: Seq<char>, p: int) -> int
    decreases s.len() - p,
{
    if 0 <= p < s.len() && !spec_at(s, p, seq!['`', '`', '`']) {
        raw_content_end(s, p + 1)
    } else {
        p
    }
}

impl RawContent {
    /// Parses the text up to the next three backticks at `p`.
    pub fn parse(src: &Vec<char>, p: usize) -> (r: (Self, usize))
        requires
            p <= src.len(),
        ensures
            r.1 == raw_content_end(src@, p as int),
            p <= r.1 <= src.len(),
            r.0.0@ == src@.subrange(p as int, r.1 as int),
    {
        assert(['`', '`', '`']@ =~= seq!['`', '`', '`']);
        let mut i = p;
        while i < src.len() && !at_lit(src, i, &['`', '`', '`'])
            invariant
                p <= i <= src.len(),
                raw_content_end(src@, i as int) == raw_content_end(src@, p as int),
            decreases src.len() - i,
        {
            i = i + 1;
        }
        (RawContent(string_from_slice(src, p, i)), i)
    }

    /// The text.
    pub fn to_string(&self) -> (r: String)
        ensures
            r == self.0,
    {
        self.0.clone()
    }
}

impl RawInlineContent {
    /// Parses the rest of the line up to the next backtick at `p`.
    pub fn parse(src: &Vec<char>, p: usize) -> (r: (Self, usize))
        requires
            p <= src.len(),
        ensures
            r.1 == scan_end(src@, p as int, CharClass::RawInline),
            r.0.0@ == src@.subrange(p as int, r.1 as int),
    {
        let q = scan(src, p, CharClass::RawInline);
        (RawInlineContent(string_from_slice(src, p, q)), q)
    }

    /// The text.
    pub fn to_string(&self) -> (r: String)
        ensures
            r == self.0,
    {
        self.0.clone()
    }
}

impl LinkContent {
    /// Parses the rest of the line up to the next `>` at `p`.
    pub fn parse(src: &Vec<char>, p: usize) -> (r: (Self, usize))
        requires
            p <= src.len(),
        ensures
            r.1 == scan_end(src@, p as int, CharClass::Href),
            r.0.0@ == src@.subrange(p as int, r.1 as int),
    {
        let q = scan(src, p, CharClass::Href);
        (LinkContent(string_from_slice(src, p, q)), q)
    }

    /// The target.
    pub fn to_string(&self) -> (r: String)
        ensures
            r == self.0,
    {
        self.0.clone()
    }
}

/// Whether `c` opens a mark of inline markup, is a blank or starts a line break.
pub open spec fn spec_inline_special(c: char) -> bool {
    c == ' ' || spec_newline_char(c) || c == '@' || c == '#' || c == '_' || c == '^' || c == '\\'
        || c == '/' || c == '*' || c == '~' || c == '`' || c == '"' || c == '<'
}

impl Character {
    /// Parses a character of a word at `p`.
    pub fn parse(src: &Vec<char>, p: usize) -> (r: Option<(Self, usize)>)
        ensures
            r is Some <==> (p < src.len() && !spec_inline_special(src@[p as int])),
            r matches Some((c, q)) ==> c.0 == src@[p as int] && q == p + 1,
    {
        if p < src.len() {
            let c = src[p];
            if !(c == ' ' || newline_char(c) || c == '@' || c == '#' || c == '_' || c == '^' || c
                == '\\' || c == '/' || c == '*' || c == '~' || c == '`' || c == '"' || c == '<') {
                return Some((Character(c), p + 1));
            }
        }
        None
    }

    /// The character as a string.
    pub fn to_string(&self) -> (r: String)
        ensures
            r@ == seq![self.0],
    {
        let v: Vec<char> = vec![self.0];
        assert(v@.subrange(0, 1) =~= seq![self.0]);
        string_from_slice(&v, 0, 1)
    }
}

} // verus!
