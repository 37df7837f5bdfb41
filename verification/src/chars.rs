//! Character classes used by the lexers and parsers of the markup language.
use vstd::prelude::*;

verus! {

/// Whether `c` has the Unicode `Alphabetic` property (as `char::is_alphabetic` reports it).
pub uninterp spec fn unicode_alphabetic(c: char) -> bool;

/// Whether `c` is alphabetic or numeric in the Unicode sense (as `char::is_alphanumeric` reports it).
pub uninterp spec fn unicode_alphanumeric(c: char) -> bool;

/// Whether `c` has the Unicode `White_Space` property (as `char::is_whitespace` reports it).
pub uninterp spec fn unicode_whitespace(c: char) -> bool;

/// Calls `char::is_alphabetic`. Its result is `unicode_alphabetic(c)`, a property of
/// `c` alone; which characters have it is left to the Unicode tables, in which the
/// alphabetic ASCII characters are the letters.
#[verifier::external_body]
fn std_is_alphabetic(c: char) -> (r: bool)
    ensures
        r == unicode_alphabetic(c),
        (c as u32) < 128 ==> (r <==> ('a' <= c <= 'z' || 'A' <= c <= 'Z')),
{
    c.is_alphabetic()
}

/// Calls `char::is_alphanumeric`. Its result is `unicode_alphanumeric(c)`; the
/// alphanumeric ASCII characters are the letters and the digits.
#[verifier::external_body]
fn std_is_alphanumeric(c: char) -> (r: bool)
    ensures
        r == unicode_alphanumeric(c),
        (c as u32) < 128 ==> (r <==> ('a' <= c <= 'z' || 'A' <= c <= 'Z' || '0' <= c <= '9')),
{
    c.is_alphanumeric()
}

/// Calls `char::is_whitespace`. Its result is `unicode_whitespace(c)`; among the ASCII
/// characters, the `White_Space` ones are the blank, tab, line feed, vertical tab,
/// form feed and carriage return.
#[verifier::external_body]
fn std_is_whitespace(c: char) -> (r: bool)
    ensures
        r == unicode_whitespace(c),
        (c as u32) < 128 ==> (r <==> (c == ' ' || c == '\t' || c == '\n' || c == '\x0B' || c
            == '\x0C' || c == '\r')),
{
    c.is_whitespace()
}

/// The line terminators of the lexer: line feed, vertical tab, form feed,
/// carriage return, next line, line separator and paragraph separator.
pub open spec fn spec_is_newline(c: char) -> bool {
    c == '\n' || c == '\x0B' || c == '\x0C' || c == '\r' || c == '\u{0085}' || c == '\u{2028}'
        || c == '\u{2029}'
}

/// Whether `c` is a line terminator.
pub fn is_newline(c: char) -> (r: bool)
    ensures
        r == spec_is_newline(c),
{
    c == '\n' || c == '\x0B' || c == '\x0C' || c == '\r' || c == '\u{0085}' || c == '\u{2028}'
        || c == '\u{2029}'
}

/// Characters that may occur in an identifier of a citation: alphabetic, `-` or `_`.
pub open spec fn spec_is_identy(c: char) -> bool {
    unicode_alphabetic(c) || c == '-' || c == '_'
}

/// Whether `c` may occur in a citation identifier.
pub fn is_identy(c: char) -> (r: bool)
    ensures
        r == spec_is_identy(c),
        (c as u32) < 128 ==> (r <==> ('a' <= c <= 'z' || 'A' <= c <= 'Z' || c == '-' || c == '_')),
{
    std_is_alphabetic(c) || c == '-' || c == '_'
}

/// An optional character is wordy when it is present and alphanumeric.
pub open spec fn spec_is_wordy(c: Option<char>) -> bool {
    match c {
        Some(c) => unicode_alphanumeric(c),
        None => false,
    }
}

/// Whether the optional character is present and alphanumeric.
pub fn is_wordy(c: Option<char>) -> (r: bool)
    ensures
        r == spec_is_wordy(c),
        c matches Some(x) ==> ((x as u32) < 128 ==> (r <==> ('a' <= x <= 'z' || 'A' <= x <= 'Z' || '0'
            <= x <= '9'))),
{
    match c {
        Some(c) => std_is_alphanumeric(c),
        None => false,
    }
}

/// The markup characters that end a run of text: escape, raw, link, cite, strong,
/// emphasis, strikeout, quote, supscript, subscript, content and label brackets,
/// and whitespace.
pub open spec fn spec_is_special(c: char) -> bool {
    c == '\\' || c == '`' || c == '<' || c == '@' || c == '*' || c == '/' || c == '~' || c == '"'
        || c == '^' || c == '_' || c == '[' || c == ']' || c == '{' || c == '}'
        || unicode_whitespace(c)
}

/// Whether `c` ends a run of markup text.
pub fn is_special(c: char) -> (r: bool)
    ensures
        r == spec_is_special(c),
        (c as u32) < 128 ==> (r <==> (c == '\\' || c == '`' || c == '<' || c == '@' || c == '*' || c
            == '/' || c == '~' || c == '"' || c == '^' || c == '_' || c == '[' || c == ']' || c == '{'
            || c == '}' || c == ' ' || '\t' <= c <= '\r')),
{
    (c == '\\' || c == '`' || c == '<' || c == '@' || c == '*' || c == '/' || c == '~' || c == '"'
        || c == '^' || c == '_' || c == '[' || c == ']' || c == '{' || c == '}')
        || std_is_whitespace(c)
}

/// The modes of the lexer.
#[derive(Debug, Clone, Copy, PartialEq, Eq, Structural)]
pub enum Mode {
    Markup,
    Code,
    Math,
}

/// In markup, spaces are blanks, tabs and line terminators; in the other modes
/// every Unicode whitespace character.
pub open spec fn spec_is_space(c: char, mode: Mode) -> bool {
    match mode {
        Mode::Markup => c == ' ' || c == '\t' || spec_is_newline(c),
        _ => unicode_whitespace(c),
    }
}

/// Whether `c` is a space in the given lexer mode.
pub fn is_space(c: char, mode: Mode) -> (r: bool)
    ensures
        r == spec_is_space(c, mode),
        (c as u32) < 128 ==> (r <==> (c == ' ' || '\t' <= c <= '\r')),
{
    match mode {
        Mode::Markup => c == ' ' || c == '\t' || is_newline(c),
        _ => std_is_whitespace(c),
    }
}

} // verus!
