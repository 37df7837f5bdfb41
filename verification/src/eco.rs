//! The shared string type of the syntax tree, `ecow::EcoString`, and the calls into it.
use ecow::EcoString;
use vstd::prelude::*;
use vstd::utf8::encode_utf8;

verus! {

#[verifier::external_type_specification]
#[verifier::external_body]
pub struct ExEcoString(EcoString);

/// The characters an `EcoString` holds.
pub uninterp spec fn eco_chars(s: EcoString) -> Seq<char>;

/// Calls `EcoString::new`: the new string holds no characters.
#[verifier::external_body]
pub(crate) fn eco_new() -> (r: EcoString)
    ensures
        eco_chars(r) == Seq::<char>::empty(),
{
    EcoString::new()
}

/// Calls `EcoString::push`: the character is appended at the end.
#[verifier::external_body]
pub(crate) fn eco_push(s: &mut EcoString, c: char)
    ensures
        eco_chars(*final(s)) == eco_chars(*old(s)).push(c),
{
    s.push(c)
}

/// Calls `EcoString::len`: the result is the length of the UTF-8 encoding
/// of the characters, the number of bytes.
#[verifier::external_body]
pub(crate) fn eco_len(s: &EcoString) -> (r: usize)
    ensures
        r == encode_utf8(eco_chars(*s)).len(),
{
    s.len()
}

/// Calls `EcoString::as_str`: the slice holds the same characters.
#[verifier::external_body]
pub(crate) fn eco_as_str(s: &EcoString) -> (r: &str)
    ensures
        r@ == eco_chars(*s),
{
    s.as_str()
}

/// Specifies `<EcoString as Clone>::clone`: the clone holds the same characters.
pub assume_specification[ <EcoString as Clone>::clone ](s: &EcoString) -> (r: EcoString)
    ensures
        eco_chars(r) == eco_chars(*s),
;

/// Builds an `EcoString` of the characters `src[start..end]`.
pub(crate) fn eco_from_slice(src: &Vec<char>, start: usize, end: usize) -> (r: EcoString)
    requires
        start <= end <= src.len(),
    ensures
        eco_chars(r) == src@.subrange(start as int, end as int),
{
    let mut s = eco_new();
    let mut i = start;
    while i < end
        invariant
            start <= i <= end <= src.len(),
            eco_chars(s) == src@.subrange(start as int, i as int),
        decreases end - i,
    {
        eco_push(&mut s, src[i]);
        assert(src@.subrange(start as int, i + 1) == src@.subrange(start as int, i as int).push(src@[i as int]));
        i = i + 1;
    }
    s
}

/// A `String` of the characters `src[start..end]`.
pub(crate) fn string_from_slice(src: &Vec<char>, start: usize, end: usize) -> (r: String)
    requires
        start <= end <= src.len(),
    ensures
        r@ == src@.subrange(start as int, end as int),
{
    let e = eco_from_slice(src, start, end);
    eco_as_str(&e).to_owned()
}

} // verus!
