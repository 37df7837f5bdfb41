//! Literals of the code language: booleans, integers, floats and strings.
use crate::kind::SyntaxKind;
use crate::node::{Node, SNode};
use crate::parser::result::{leaf, leaf_in, mk_leaf, mk_leaf_in, node_res, Parsed, PR};
use crate::scan::{
    at2, at_char, at_lit, is_digit, scan, scan_end, spec_at, spec_at2,
    spec_at_char, spec_is_digit, CharClass,
};
use vstd::prelude::*;

verus! {

/// Whether every character is a decimal digit.
pub open spec fn all_decimal(t: Seq<char>) -> bool {
    forall|i: int| 0 <= i < t.len() ==> '0' <= #[trigger] t[i] <= '9'
}

/// The value of a string of decimal digits.
pub open spec fn decimal_value(t: Seq<char>) -> int
    decreases t.len(),
{
    if t.len() == 0 {
        0
    } else {
        decimal_value(t.drop_last()) * 10 + (t.last() as int - '0' as int)
    }
}

/// Whether decimal parsing into an `i64` accepts the text: one or more decimal digits
/// whose value fits.
pub open spec fn decimal_fits_i64(t: Seq<char>) -> bool {
    t.len() > 0 && all_decimal(t) && decimal_value(t) <= i64::MAX
}

/// The value of a prefix of digits is at most the value of the whole.
pub proof fn lemma_decimal_prefix(t: Seq<char>, k: int)
    requires
        all_decimal(t),
        0 <= k <= t.len(),
    ensures
        0 <= decimal_value(t.take(k)) <= decimal_value(t),
    decreases t.len(),
{
    if t.len() > 0 {
        assert(all_decimal(t.drop_last()));
        if k == t.len() {
            assert(t.take(k) =~= t);
            lemma_decimal_prefix(t.drop_last(), k - 1);
        } else {
            assert(t.take(k) =~= t.drop_last().take(k));
            lemma_decimal_prefix(t.drop_last(), k);
        }
        assert(t.drop_last().take(t.len() - 1) =~= t.drop_last());
        lemma_decimal_prefix(t.drop_last(), t.len() - 1);
    } else {
        assert(t.take(k) =~= t);
    }
}

/// The value of a digit in radixes up to 36: `0`-`9`, then `a`-`z` or `A`-`Z` from ten.
pub open spec fn digit_value(c: char) -> int {
    let v = c as u32;
    if 48 <= v <= 57 {
        v - 48
    } else if 97 <= v <= 122 {
        v - 97 + 10
    } else if 65 <= v <= 90 {
        v - 65 + 10
    } else {
        0
    }
}

/// Whether every character is a digit in the radix.
pub open spec fn all_digits(t: Seq<char>, radix: u32) -> bool {
    forall|i: int| 0 <= i < t.len() ==> spec_is_digit(#[trigger] t[i], radix)
}

/// The value of a string of digits in a radix.
pub open spec fn radix_value(t: Seq<char>, radix: u32) -> int
    decreases t.len(),
{
    if t.len() == 0 {
        0
    } else {
        radix_value(t.drop_last(), radix) * radix + digit_value(t.last())
    }
}

/// Whether the text is one or more digits in the radix whose value fits in an `i64`.
pub open spec fn radix_fits_i64(t: Seq<char>, radix: u32) -> bool {
    t.len() > 0 && all_digits(t, radix) && radix_value(t, radix) <= i64::MAX
}

/// A digit in a radix has a value below the radix.
proof fn lemma_digit_below(c: char, radix: u32)
    requires
        spec_is_digit(c, radix),
    ensures
        0 <= digit_value(c) < radix,
{
}

/// The value of a prefix of digits is at most the value of the whole.
pub proof fn lemma_radix_prefix(t: Seq<char>, radix: u32, k: int)
    requires
        all_digits(t, radix),
        0 <= k <= t.len(),
    ensures
        0 <= radix_value(t.take(k), radix) <= radix_value(t, radix),
    decreases t.len(),
{
    if t.len() > 0 {
        assert(all_digits(t.drop_last(), radix));
        lemma_digit_below(t.last(), radix);
        assert(t.drop_last().take(t.len() - 1) =~= t.drop_last());
        lemma_radix_prefix(t.drop_last(), radix, t.len() - 1);
        let w = radix_value(t.drop_last(), radix);
        let d = digit_value(t.last());
        assert(w <= w * radix + d) by (nonlinear_arith)
            requires
                w >= 0,
                d >= 0,
                radix >= 1,
        ;
        if k == t.len() {
            assert(t.take(k) =~= t);
        } else {
            assert(t.take(k) =~= t.drop_last().take(k));
            lemma_radix_prefix(t.drop_last(), radix, k);
        }
    } else {
        assert(t.take(k) =~= t);
    }
}

/// Reads `src[a..b]` as digits in the radix, where their value fits in an `i64`.
pub fn radix_read(src: &Vec<char>, a: usize, b: usize, radix: u32) -> (r: Option<u64>)
    requires
        a <= b <= src.len(),
        2 <= radix <= 36,
    ensures
        r is Some <==> radix_fits_i64(src@.subrange(a as int, b as int), radix),
        r matches Some(v) ==> v == radix_value(src@.subrange(a as int, b as int), radix),
{
    let ghost t = src@.subrange(a as int, b as int);
    if a == b {
        return None;
    }
    let mut i = a;
    let mut v: u64 = 0;
    assert(t.take(0) =~= Seq::<char>::empty());
    while i < b
        invariant
            a <= i <= b <= src.len(),
            2 <= radix <= 36,
            t == src@.subrange(a as int, b as int),
            all_digits(t.take(i - a), radix),
            v == radix_value(t.take(i - a), radix),
            v <= i64::MAX,
        decreases b - i,
    {
        let c = src[i];
        assert(t[i - a] == c);
        if !is_digit(c, radix) {
            return None;
        }
        let cv = c as u32;
        let d: u64 = if 48 <= cv && cv <= 57 {
            (cv - 48) as u64
        } else if 97 <= cv && cv <= 122 {
            (cv - 97 + 10) as u64
        } else {
            (cv - 65 + 10) as u64
        };
        proof {
            lemma_digit_below(c, radix);
        }
        assert(d == digit_value(c));
        assert(t.take(i - a + 1).drop_last() =~= t.take(i - a));
        assert(t.take(i - a + 1).last() == c);
        let rd = radix as u64;
        let lim: u64 = (9223372036854775807u64 - d) / rd;
        if v > lim {
            proof {
                assert(radix_value(t.take(i - a + 1), radix) == v * rd + d);
                assert(v * rd + d > i64::MAX) by (nonlinear_arith)
                    requires
                        v > lim,
                        lim == (i64::MAX - d) / (rd as int),
                        d < rd,
                        rd >= 2,
                ;
                if all_digits(t, radix) {
                    lemma_radix_prefix(t, radix, i - a + 1);
                }
            }
            return None;
        }
        proof {
            assert(v * rd + d <= i64::MAX) by (nonlinear_arith)
                requires
                    v <= lim,
                    lim == (i64::MAX - d) / (rd as int),
                    d < rd,
                    rd >= 2,
            ;
            assert forall|j: int| 0 <= j < t.take(i - a + 1).len() implies spec_is_digit(
                #[trigger] t.take(i - a + 1)[j],
                radix,
            ) by {
                if j < i - a {
                    assert(t.take(i - a + 1)[j] == t.take(i - a)[j]);
                }
            };
        }
        v = v * rd + d;
        i = i + 1;
    }
    assert(t.take(b - a) =~= t);
    Some(v)
}

/// An integer in a radix: a nonzero digit and more digits, or a single zero.
pub open spec fn int_end(s: Seq<char>, p: int, radix: u32) -> Option<int> {
    if 0 <= p < s.len() && spec_is_digit(s[p], radix) && s[p] != '0' {
        Some(scan_end(s, p + 1, CharClass::Digit(radix)))
    } else if spec_at_char(s, p, '0') {
        Some(p + 1)
    } else {
        None
    }
}

/// Parses an integer in a radix at `p`.
pub fn int_digits(src: &Vec<char>, p: usize, radix: u32) -> (r: Option<usize>)
    requires
        p <= src.len(),
        radix <= 36,
    ensures
        r is Some <==> int_end(src@, p as int, radix) is Some,
        r matches Some(q) ==> int_end(src@, p as int, radix) == Some(q as int) && p < q <= src.len(),
{
    if p < src.len() && is_digit(src[p], radix) && src[p] != '0' {
        Some(scan(src, p + 1, CharClass::Digit(radix)))
    } else if at_char(src, p, '0') {
        Some(p + 1)
    } else {
        None
    }
}

/// Where the digits of an integer literal start and end, and their radix: after `0o`
/// in octal, after `0x` in hexadecimal, else in decimal.
pub open spec fn int_literal_digits(s: Seq<char>, p: int) -> Option<(int, int, u32)> {
    if spec_at2(s, p, '0', 'o') && int_end(s, p + 2, 8) is Some {
        Some((p + 2, int_end(s, p + 2, 8)->0, 8u32))
    } else if spec_at2(s, p, '0', 'x') && int_end(s, p + 2, 16) is Some {
        Some((p + 2, int_end(s, p + 2, 16)->0, 16u32))
    } else {
        match int_end(s, p, 10) {
            Some(q) => Some((p, q, 10u32)),
            None => None,
        }
    }
}

/// Whether a float starts at `p`: decimal digits of an integer, `.`, and more digits.
pub open spec fn float_at(s: Seq<char>, p: int) -> bool {
    int_end(s, p, 10) is Some && spec_at_char(s, int_end(s, p, 10)->0, '.') && 0 <= int_end(
        s,
        p,
        10,
    )->0 + 1 < s.len() && spec_is_digit(s[int_end(s, p, 10)->0 + 1], 10)
}

/// An integer literal starts at `p` whose value does not fit in an `i64`: there is
/// neither `true`, `false` nor a float there, and the value of the digits, read in
/// their radix, is too large.
pub open spec fn literal_overflows(s: Seq<char>, p: int) -> bool {
    &&& !spec_at(s, p, seq!['t', 'r', 'u', 'e'])
    &&& !spec_at(s, p, seq!['f', 'a', 'l', 's', 'e'])
    &&& !float_at(s, p)
    &&& int_literal_digits(s, p) matches Some((a, q, radix)) && !radix_fits_i64(s.subrange(a, q), radix)
}

/// A literal: `true` or `false`, a float, an integer, or a string on one line. An
/// integer is decimal, octal after `0o` or hexadecimal after `0x`; its leaf holds the
/// whole literal, and where its value does not fit in an `i64` the parse aborts.
#[verifier::opaque]
pub open spec fn spec_literal(s: Seq<char>, p: int) -> PR<SNode> {
    if spec_at(s, p, seq!['t', 'r', 'u', 'e']) {
        PR::Done(leaf(s, SyntaxKind::Bool, p, p + 4), p + 4, Seq::empty())
    } else if spec_at(s, p, seq!['f', 'a', 'l', 's', 'e']) {
        PR::Done(leaf(s, SyntaxKind::Bool, p, p + 5), p + 5, Seq::empty())
    } else if float_at(s, p) {
        let q = scan_end(s, int_end(s, p, 10)->0 + 1, CharClass::Digit(10));
        PR::Done(leaf(s, SyntaxKind::Float, p, q), q, Seq::empty())
    } else if int_literal_digits(s, p) is Some {
        let (a, q, radix) = int_literal_digits(s, p)->0;
        if radix_fits_i64(s.subrange(a, q), radix) {
            PR::Done(leaf(s, SyntaxKind::Int, p, q), q, Seq::empty())
        } else {
            PR::Abort
        }
    } else if spec_at_char(s, p, '"') && spec_at_char(s, scan_end(s, p + 1, CharClass::Str), '"') {
        let e = scan_end(s, p + 1, CharClass::Str);
        PR::Done(leaf_in(s, SyntaxKind::Str, p, e + 1, p + 1, e), e + 1, Seq::empty())
    } else {
        PR::Fail
    }
}

/// Parses a literal at `p`.
pub fn literal_parser(src: &Vec<char>, p: usize) -> (r: Parsed<Node>)
    requires
        p <= src.len(),
    ensures
        node_res(r) == spec_literal(src@, p as int),
        r matches Parsed::Done(_, q, e) ==> p < q <= src.len() && e@.len() == 0,
{
    proof {
        reveal(spec_literal);
    }
    if at_lit(src, p, &['t', 'r', 'u', 'e']) {
        assert(['t', 'r', 'u', 'e']@ =~= seq!['t', 'r', 'u', 'e']);
        return Parsed::Done(mk_leaf(src, SyntaxKind::Bool, p, p + 4), p + 4, Vec::new());
    }
    assert(['t', 'r', 'u', 'e']@ =~= seq!['t', 'r', 'u', 'e']);
    if at_lit(src, p, &['f', 'a', 'l', 's', 'e']) {
        assert(['f', 'a', 'l', 's', 'e']@ =~= seq!['f', 'a', 'l', 's', 'e']);
        return Parsed::Done(mk_leaf(src, SyntaxKind::Bool, p, p + 5), p + 5, Vec::new());
    }
    assert(['f', 'a', 'l', 's', 'e']@ =~= seq!['f', 'a', 'l', 's', 'e']);
    if let Some(q) = int_digits(src, p, 10) {
        if at_char(src, q, '.') && q + 1 < src.len() && is_digit(src[q + 1], 10) {
            let e = scan(src, q + 1, CharClass::Digit(10));
            return Parsed::Done(mk_leaf(src, SyntaxKind::Float, p, e), e, Vec::new());
        }
    }
    assert(!float_at(src@, p as int));
    let mut digits: Option<(usize, usize, u32)> = None;
    if at2(src, p, '0', 'o') {
        if let Some(q) = int_digits(src, p + 2, 8) {
            digits = Some((p + 2, q, 8));
        }
    }
    if digits.is_none() && at2(src, p, '0', 'x') {
        if let Some(q) = int_digits(src, p + 2, 16) {
            digits = Some((p + 2, q, 16));
        }
    }
    if digits.is_none() {
        if let Some(q) = int_digits(src, p, 10) {
            digits = Some((p, q, 10));
        }
    }
    assert(digits is Some <==> int_literal_digits(src@, p as int) is Some);
    if let Some((a, q, radix)) = digits {
        assert(int_literal_digits(src@, p as int) == Some((a as int, q as int, radix)));
        if radix_read(src, a, q, radix).is_some() {
            return Parsed::Done(mk_leaf(src, SyntaxKind::Int, p, q), q, Vec::new());
        } else {
            return Parsed::Abort;
        }
    }
    if at_char(src, p, '"') {
        let e = scan(src, p + 1, CharClass::Str);
        if at_char(src, e, '"') {
            return Parsed::Done(mk_leaf_in(src, SyntaxKind::Str, p, e + 1, p + 1, e), e + 1, Vec::new());
        }
    }
    Parsed::Fail
}

} // verus!
