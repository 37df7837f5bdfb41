//! The lexical layer of the grammar: character classes, runs of characters,
//! line breaks, indentation and identifiers.
use crate::chars::unicode_whitespace;
use chumsky::text::Char;
use vstd::prelude::*;

verus! {

/// Whether `c` may start an identifier (Unicode `XID_Start` or `_`), as chumsky's
/// `Char::is_ident_start` reports it.
pub uninterp spec fn ident_start(c: char) -> bool;

/// Whether `c` may continue an identifier (Unicode `XID_Continue`), as chumsky's
/// `Char::is_ident_continue` reports it.
pub uninterp spec fn ident_continue(c: char) -> bool;

/// Whether chumsky's `text::unicode::is_whitespace` accepts `c`: Unicode white space
/// other than the bidirectional controls U+202A to U+202E and U+2066 to U+2069.
pub open spec fn text_whitespace(c: char) -> bool {
    unicode_whitespace(c) && !(0x202A <= (c as u32) <= 0x202E || 0x2066 <= (c as u32) <= 0x2069)
}

/// Calls chumsky's `<char as Char>::is_ident_start`. Its result is `ident_start(c)`,
/// which depends on `c` alone (it reads the Unicode tables); `XID_Start` holds the
/// ASCII letters and no other ASCII character, and chumsky adds `_`.
#[verifier::external_body]
fn chumsky_ident_start(c: char) -> (r: bool)
    ensures
        r == ident_start(c),
        (c as u32) < 128 ==> (r <==> ('a' <= c <= 'z' || 'A' <= c <= 'Z' || c == '_')),
{
    c.is_ident_start()
}

/// Calls chumsky's `<char as Char>::is_ident_continue`. Its result is
/// `ident_continue(c)`, which depends on `c` alone; `XID_Continue` holds the ASCII
/// letters, digits and `_`, and no other ASCII character.
#[verifier::external_body]
fn chumsky_ident_continue(c: char) -> (r: bool)
    ensures
        r == ident_continue(c),
        (c as u32) < 128 ==> (r <==> ('a' <= c <= 'z' || 'A' <= c <= 'Z' || '0' <= c <= '9' || c
            == '_')),
{
    c.is_ident_continue()
}

/// Calls chumsky's `text::unicode::is_whitespace`, which is `char::is_whitespace`
/// without the bidirectional controls: its result is `text_whitespace(c)`.
#[verifier::external_body]
fn chumsky_whitespace(c: char) -> (r: bool)
    ensures
        r == text_whitespace(c),
{
    chumsky::text::unicode::is_whitespace(c)
}

/// The two sets of characters that end a word: the markup set, and the set of
/// terms, which also holds `:`.
#[derive(Debug, Clone, Copy, PartialEq, Eq, Structural)]
pub enum SpecialSet {
    Markup,
    Term,
}

/// The characters with a meaning in markup.
pub open spec fn spec_in_special(c: char) -> bool {
    c == ' ' || c == '\\' || c == '\n' || c == '"' || c == '{' || c == '}' || c == '['
        || c == ']' || c == '/' || c == '*' || c == '~' || c == '_' || c == '^' || c == '@'
        || c == '#' || c == '`' || c == '$' || c == '%' || c == '|'
}

/// The characters of a special set.
pub open spec fn spec_in_set(c: char, set: SpecialSet) -> bool {
    spec_in_special(c) || (set == SpecialSet::Term && c == ':')
}

/// Whether `c` has a meaning in markup.
pub fn in_special(c: char) -> (r: bool)
    ensures
        r == spec_in_special(c),
{
    c == ' ' || c == '\\' || c == '\n' || c == '"' || c == '{' || c == '}' || c == '['
        || c == ']' || c == '/' || c == '*' || c == '~' || c == '_' || c == '^' || c == '@'
        || c == '#' || c == '`' || c == '$' || c == '%' || c == '|'
}

/// Whether `c` belongs to the special set.
pub fn in_set(c: char, set: SpecialSet) -> (r: bool)
    ensures
        r == spec_in_set(c, set),
{
    in_special(c) || (set == SpecialSet::Term && c == ':')
}

/// The characters that start a line break.
pub open spec fn spec_newline_char(c: char) -> bool {
    c == '\n' || c == '\r' || c == '\x0B' || c == '\x0C' || c == '\u{0085}' || c == '\u{2028}'
        || c == '\u{2029}'
}

/// Whether `c` is a digit in the given radix (`0-9`, then `a-z` or `A-Z` for the digits
/// from ten on), as `char::is_digit` defines it.
pub open spec fn spec_is_digit(c: char, radix: u32) -> bool {
    let v = c as u32;
    if 48 <= v && v <= 57 {
        v - 48 < radix
    } else if 97 <= v && v <= 122 {
        v - 97 + 10 < radix
    } else if 65 <= v && v <= 90 {
        v - 65 + 10 < radix
    } else {
        false
    }
}

/// Whether `c` is a digit in the given radix.
pub fn is_digit(c: char, radix: u32) -> (r: bool)
    requires
        radix <= 36,
    ensures
        r == spec_is_digit(c, radix),
{
    let v = c as u32;
    if 48 <= v && v <= 57 {
        v - 48 < radix
    } else if 97 <= v && v <= 122 {
        v - 97 + 10 < radix
    } else if 65 <= v && v <= 90 {
        v - 65 + 10 < radix
    } else {
        false
    }
}

/// The classes of characters that the grammar takes runs of.
#[derive(Debug, Clone, Copy, PartialEq, Eq, Structural)]
pub enum CharClass {
    /// Characters outside a special set: the characters of a word.
    Word(SpecialSet),
    /// The blank ` `.
    Blank,
    /// Characters of a link target: not `>` and no line break.
    Href,
    /// Characters of raw inline text: not a backtick and no line break.
    RawInline,
    /// Characters of inline math: not `$` and no line break.
    Math,
    /// Any character but a line break.
    Line,
    /// Any character but a backtick.
    NotBacktick,
    /// Characters of a string literal: not `"` and no line break.
    Str,
    /// Characters that continue an identifier.
    IdentContinue,
    /// Characters after an unmatched delimiter: outside the markup set and no line break.
    Recovery,
    /// Digits in the given radix.
    Digit(u32),
    /// Blanks and tabs.
    InlineWhitespace,
    /// Whitespace.
    Whitespace,
    /// The sign `=`.
    Equals,
    /// Any character but `"`.
    NotQuote,
}

/// Whether `c` belongs to the class.
pub open spec fn spec_in_class(c: char, cl: CharClass) -> bool {
    match cl {
        CharClass::Word(set) => !spec_in_set(c, set),
        CharClass::Blank => c == ' ',
        CharClass::Href => c != '>' && !spec_newline_char(c),
        CharClass::RawInline => c != '`' && !spec_newline_char(c),
        CharClass::Math => c != '$' && !spec_newline_char(c),
        CharClass::Line => !spec_newline_char(c),
        CharClass::NotBacktick => c != '`',
        CharClass::Str => c != '"' && !spec_newline_char(c),
        CharClass::IdentContinue => ident_continue(c),
        CharClass::Recovery => !spec_in_special(c) && !spec_newline_char(c),
        CharClass::Digit(radix) => spec_is_digit(c, radix),
        CharClass::InlineWhitespace => c == ' ' || c == '\t',
        CharClass::Whitespace => text_whitespace(c),
        CharClass::Equals => c == '=',
        CharClass::NotQuote => c != '"',
    }
}

/// Whether `c` is the first character of a line break.
pub fn newline_char(c: char) -> (r: bool)
    ensures
        r == spec_newline_char(c),
{
    c == '\n' || c == '\r' || c == '\x0B' || c == '\x0C' || c == '\u{0085}' || c == '\u{2028}'
        || c == '\u{2029}'
}

/// Whether `c` belongs to the class.
pub fn in_class(c: char, cl: CharClass) -> (r: bool)
    requires
        cl matches CharClass::Digit(radix) ==> radix <= 36,
    ensures
        r == spec_in_class(c, cl),
{
    match cl {
        CharClass::Word(set) => !in_set(c, set),
        CharClass::Blank => c == ' ',
        CharClass::Href => c != '>' && !newline_char(c),
        CharClass::RawInline => c != '`' && !newline_char(c),
        CharClass::Math => c != '$' && !newline_char(c),
        CharClass::Line => !newline_char(c),
        CharClass::NotBacktick => c != '`',
        CharClass::Str => c != '"' && !newline_char(c),
        CharClass::IdentContinue => chumsky_ident_continue(c),
        CharClass::Recovery => !in_special(c) && !newline_char(c),
        CharClass::Digit(radix) => is_digit(c, radix),
        CharClass::InlineWhitespace => c == ' ' || c == '\t',
        CharClass::Whitespace => chumsky_whitespace(c),
        CharClass::Equals => c == '=',
        CharClass::NotQuote => c != '"',
    }
}

/// The end of the longest run of characters of the class that starts at `p`.
pub open spec fn scan_end(s: Seq<char>, p: int, cl: CharClass) -> int
    decreases s.len() - p,
{
    if 0 <= p < s.len() && spec_in_class(s[p], cl) {
        scan_end(s, p + 1, cl)
    } else {
        p
    }
}

/// A run ends between its start and the end of the input.
pub proof fn lemma_scan_end_bounds(s: Seq<char>, p: int, cl: CharClass)
    requires
        0 <= p <= s.len(),
    ensures
        p <= scan_end(s, p, cl) <= s.len(),
        forall|i: int| p <= i < scan_end(s, p, cl) ==> spec_in_class(#[trigger] s[i], cl),
        scan_end(s, p, cl) < s.len() ==> !spec_in_class(s[scan_end(s, p, cl)], cl),
    decreases s.len() - p,
{
    if p < s.len() && spec_in_class(s[p], cl) {
        lemma_scan_end_bounds(s, p + 1, cl);
    }
}

/// Scans the longest run of characters of the class from `p`.
pub fn scan(src: &Vec<char>, p: usize, cl: CharClass) -> (r: usize)
    requires
        p <= src.len(),
        cl matches CharClass::Digit(radix) ==> radix <= 36,
    ensures
        r == scan_end(src@, p as int, cl),
        p <= r <= src.len(),
{
    let mut i = p;
    while i < src.len() && in_class(src[i], cl)
        invariant
            p <= i <= src.len(),
            cl matches CharClass::Digit(radix) ==> radix <= 36,
            scan_end(src@, i as int, cl) == scan_end(src@, p as int, cl),
        decreases src.len() - i,
    {
        i = i + 1;
    }
    i
}

/// Whether the characters of `lit` stand at `p`.
pub open spec fn spec_at(s: Seq<char>, p: int, lit: Seq<char>) -> bool {
    0 <= p && p + lit.len() <= s.len() && s.subrange(p, p + lit.len()) == lit
}

/// Whether the character `c` stands at `p`.
pub open spec fn spec_at_char(s: Seq<char>, p: int, c: char) -> bool {
    0 <= p < s.len() && s[p] == c
}

/// Whether the character `c` stands at `p`.
pub fn at_char(src: &Vec<char>, p: usize, c: char) -> (r: bool)
    ensures
        r == spec_at_char(src@, p as int, c),
{
    p < src.len() && src[p] == c
}

/// Whether the two characters `c` and `d` stand at `p`.
pub open spec fn spec_at2(s: Seq<char>, p: int, c: char, d: char) -> bool {
    spec_at_char(s, p, c) && spec_at_char(s, p + 1, d)
}

/// Whether the two characters `c` and `d` stand at `p`.
pub fn at2(src: &Vec<char>, p: usize, c: char, d: char) -> (r: bool)
    requires
        p <= src.len(),
    ensures
        r == spec_at2(src@, p as int, c, d),
{
    at_char(src, p, c) && at_char(src, p + 1, d)
}

/// The end of a line break at `p`: a carriage return with an optional line feed
/// after it, or one of the other line terminators.
pub open spec fn newline_end(s: Seq<char>, p: int) -> Option<int> {
    if 0 <= p < s.len() {
        if s[p] == '\r' {
            if p + 1 < s.len() && s[p + 1] == '\n' {
                Some(p + 2)
            } else {
                Some(p + 1)
            }
        } else if spec_newline_char(s[p]) {
            Some(p + 1)
        } else {
            None
        }
    } else {
        None
    }
}

/// Parses a line break at `p`.
pub fn newline(src: &Vec<char>, p: usize) -> (r: Option<usize>)
    requires
        p <= src.len(),
    ensures
        r is Some <==> newline_end(src@, p as int) is Some,
        r matches Some(q) ==> newline_end(src@, p as int) == Some(q as int),
        r matches Some(q) ==> p < q <= src.len(),
{
    if p < src.len() {
        if src[p] == '\r' {
            if p + 1 < src.len() && src[p + 1] == '\n' {
                Some(p + 2)
            } else {
                Some(p + 1)
            }
        } else if newline_char(src[p]) {
            Some(p + 1)
        } else {
            None
        }
    } else {
        None
    }
}

/// The end of one unit of indentation at `p`: four blanks or a tab.
pub open spec fn indent_unit_end(s: Seq<char>, p: int) -> Option<int> {
    if spec_at(s, p, seq![' ', ' ', ' ', ' ']) {
        Some(p + 4)
    } else if spec_at_char(s, p, '\t') {
        Some(p + 1)
    } else {
        None
    }
}

/// The end of exactly `n` units of indentation at `p`.
pub open spec fn level_end(s: Seq<char>, p: int, n: nat) -> Option<int>
    decreases n,
{
    if n == 0 {
        Some(p)
    } else {
        match indent_unit_end(s, p) {
            Some(q) => level_end(s, q, (n - 1) as nat),
            None => None,
        }
    }
}

/// Parses exactly `n` units of indentation at `p`.
pub fn level_parser(src: &Vec<char>, p: usize, n: usize) -> (r: Option<usize>)
    requires
        p <= src.len(),
    ensures
        r is Some <==> level_end(src@, p as int, n as nat) is Some,
        r matches Some(q) ==> level_end(src@, p as int, n as nat) == Some(q as int),
        r matches Some(q) ==> p <= q <= src.len(),
{
    let mut i = p;
    let mut k: usize = 0;
    while k < n
        invariant
            p <= i <= src.len(),
            k <= n,
            level_end(src@, p as int, n as nat) == level_end(src@, i as int, (n - k) as nat),
        decreases n - k,
    {
        if src.len() - i >= 4 && src[i] == ' ' && src[i + 1] == ' ' && src[i + 2] == ' ' && src[i
            + 3] == ' ' {
            assert(spec_at(src@, i as int, seq![' ', ' ', ' ', ' '])) by {
                assert(src@.subrange(i as int, i + 4) =~= seq![' ', ' ', ' ', ' ']);
            }
            i = i + 4;
        } else if i < src.len() && src[i] == '\t' {
            assert(!spec_at(src@, i as int, seq![' ', ' ', ' ', ' '])) by {
                if i + 4 <= src.len() {
                    assert(src@.subrange(i as int, i + 4)[0] == src@[i as int]);
                }
            }
            i = i + 1;
        } else {
            assert(!spec_at(src@, i as int, seq![' ', ' ', ' ', ' '])) by {
                if i + 4 <= src.len() && src@.subrange(i as int, i + 4) =~= seq![' ', ' ', ' ', ' '] {
                    assert(src@.subrange(i as int, i + 4)[0] == src@[i as int]);
                    assert(src@.subrange(i as int, i + 4)[1] == src@[i + 1]);
                    assert(src@.subrange(i as int, i + 4)[2] == src@[i + 2]);
                    assert(src@.subrange(i as int, i + 4)[3] == src@[i + 3]);
                }
            }
            return None;
        }
        k = k + 1;
    }
    Some(i)
}

/// The end of an identifier at `p`: a starting character and continuing characters.
pub open spec fn ident_end(s: Seq<char>, p: int) -> Option<int> {
    if 0 <= p < s.len() && ident_start(s[p]) {
        Some(scan_end(s, p + 1, CharClass::IdentContinue))
    } else {
        None
    }
}

/// Parses an identifier at `p`.
pub fn ident(src: &Vec<char>, p: usize) -> (r: Option<usize>)
    requires
        p <= src.len(),
    ensures
        r is Some <==> ident_end(src@, p as int) is Some,
        r matches Some(q) ==> ident_end(src@, p as int) == Some(q as int),
        r matches Some(q) ==> p < q <= src.len(),
{
    if p < src.len() && chumsky_ident_start(src[p]) {
        Some(scan(src, p + 1, CharClass::IdentContinue))
    } else {
        None
    }
}

} // verus!

verus! {

/// Whether the characters of `lit` stand at `p`.
pub fn at_lit(src: &Vec<char>, p: usize, lit: &[char]) -> (r: bool)
    ensures
        r == spec_at(src@, p as int, lit@),
{
    if p > src.len() || src.len() - p < lit.len() {
        return false;
    }
    let mut i: usize = 0;
    while i < lit.len()
        invariant
            p + lit.len() <= src.len(),
            i <= lit.len(),
            forall|j: int| 0 <= j < i ==> src@[p + j] == lit@[j],
        decreases lit.len() - i,
    {
        if src[p + i] != lit[i] {
            assert(src@.subrange(p as int, p + lit@.len())[i as int] != lit@[i as int]);
            return false;
        }
        i = i + 1;
    }
    assert(src@.subrange(p as int, p + lit@.len()) =~= lit@);
    true
}

/// The end of a level of indentation is at least one character per unit further.
pub proof fn lemma_level_end_bounds(s: Seq<char>, p: int, n: nat)
    requires
        0 <= p <= s.len(),
    ensures
        level_end(s, p, n) matches Some(q) ==> p + n <= q <= s.len(),
    decreases n,
{
    if n > 0 {
        match indent_unit_end(s, p) {
            Some(q) => {
                lemma_level_end_bounds(s, q, (n - 1) as nat);
            },
            None => {},
        }
    }
}

/// A line break ends after its start and within the input.
pub proof fn lemma_newline_end_bounds(s: Seq<char>, p: int)
    ensures
        newline_end(s, p) matches Some(q) ==> p < q <= s.len(),
{
}

/// An identifier ends after its start and within the input.
pub proof fn lemma_ident_end_bounds(s: Seq<char>, p: int)
    requires
        0 <= p <= s.len(),
    ensures
        ident_end(s, p) matches Some(q) ==> p < q <= s.len(),
{
    if p < s.len() {
        lemma_scan_end_bounds(s, p + 1, CharClass::IdentContinue);
    }
}

/// A keyword padded with whitespace on both sides.
pub open spec fn padded_end(s: Seq<char>, p: int, kw: Seq<char>) -> Option<int> {
    let a = scan_end(s, p, CharClass::Whitespace);
    if spec_at(s, a, kw) {
        Some(scan_end(s, a + kw.len(), CharClass::Whitespace))
    } else {
        None
    }
}

/// A padded keyword ends after its start and within the input.
pub proof fn lemma_padded_end_bounds(s: Seq<char>, p: int, kw: Seq<char>)
    requires
        0 <= p <= s.len(),
        kw.len() > 0,
    ensures
        padded_end(s, p, kw) matches Some(q) ==> p < q <= s.len(),
{
    lemma_scan_end_bounds(s, p, CharClass::Whitespace);
    let a = scan_end(s, p, CharClass::Whitespace);
    if spec_at(s, a, kw) {
        lemma_scan_end_bounds(s, a + kw.len(), CharClass::Whitespace);
    }
}

/// Parses a keyword padded with whitespace at `p`.
pub fn padded(src: &Vec<char>, p: usize, kw: &[char]) -> (r: Option<usize>)
    requires
        p <= src.len(),
        kw@.len() > 0,
    ensures
        r is Some <==> padded_end(src@, p as int, kw@) is Some,
        r matches Some(q) ==> padded_end(src@, p as int, kw@) == Some(q as int) && p < q <= src.len(),
{
    proof {
        lemma_padded_end_bounds(src@, p as int, kw@);
    }
    let a = scan(src, p, CharClass::Whitespace);
    if at_lit(src, a, kw) {
        Some(scan(src, a + kw.len(), CharClass::Whitespace))
    } else {
        None
    }
}

} // verus!
