//! Case numbers on the mirror source may be rendered in Thai numerals.
//! They are normalized by a fixed, order-sensitive remap of the ten glyphs
//! to ASCII digits — a literal character substitution, not a general
//! numeral-system conversion.
use vstd::prelude::*;

verus! {

/// The ten numeral glyphs of the Thai script, `U+0E50` through `U+0E59`.
pub open spec fn is_thai_digit(c: char) -> bool {
    c == '\u{0e50}' || c == '\u{0e51}' || c == '\u{0e52}' || c == '\u{0e53}' || c == '\u{0e54}'
        || c == '\u{0e55}' || c == '\u{0e56}' || c == '\u{0e57}' || c == '\u{0e58}' || c
        == '\u{0e59}'
}

/// The ten ASCII digits.
pub open spec fn is_ascii_digit_char(c: char) -> bool {
    c == '0' || c == '1' || c == '2' || c == '3' || c == '4' || c == '5' || c == '6' || c == '7'
        || c == '8' || c == '9'
}

/// One Thai numeral glyph mapped to its ASCII digit; every other
/// character is left unchanged.
pub open spec fn spec_map_digit(c: char) -> char {
    if c == '\u{0e50}' {
        '0'
    } else if c == '\u{0e51}' {
        '1'
    } else if c == '\u{0e52}' {
        '2'
    } else if c == '\u{0e53}' {
        '3'
    } else if c == '\u{0e54}' {
        '4'
    } else if c == '\u{0e55}' {
        '5'
    } else if c == '\u{0e56}' {
        '6'
    } else if c == '\u{0e57}' {
        '7'
    } else if c == '\u{0e58}' {
        '8'
    } else if c == '\u{0e59}' {
        '9'
    } else {
        c
    }
}

/// Replace one Thai numeral glyph by its ASCII digit.
pub fn map_digit(c: char) -> (r: char)
    ensures
        r == spec_map_digit(c),
{
    match c {
        '\u{0e50}' => '0',
        '\u{0e51}' => '1',
        '\u{0e52}' => '2',
        '\u{0e53}' => '3',
        '\u{0e54}' => '4',
        '\u{0e55}' => '5',
        '\u{0e56}' => '6',
        '\u{0e57}' => '7',
        '\u{0e58}' => '8',
        '\u{0e59}' => '9',
        _ => c,
    }
}

/// A text with every Thai numeral glyph replaced by its ASCII digit.
pub open spec fn spec_normalize_digits(s: Seq<char>) -> Seq<char> {
    s.map_values(|c: char| spec_map_digit(c))
}

/// Normalize the digits of a character vector.
pub fn normalize_digit_chars(v: &Vec<char>) -> (r: Vec<char>)
    ensures
        r@ == spec_normalize_digits(v@),
{
    let mut r: Vec<char> = Vec::new();
    let mut i: usize = 0;
    while i < v.len()
        invariant
            i <= v@.len(),
            r@ == spec_normalize_digits(v@.take(i as int)),
        decreases v@.len() - i,
    {
        let c = v[i];
        r.push(map_digit(c));
        proof {
            assert(spec_normalize_digits(v@.take(i as int)).push(spec_map_digit(v@[i as int]))
                =~= spec_normalize_digits(v@.take(i + 1 as int)));
        }
        i = i + 1;
    }
    proof {
        assert(v@.take(v@.len() as int) =~= v@);
        assert(spec_normalize_digits(v@.take(v@.len() as int)) =~= spec_normalize_digits(v@));
    }
    r
}

/// Normalize the digits of a string.
pub fn normalize_digits(s: &str) -> (r: String)
    ensures
        r@ == spec_normalize_digits(s@),
{
    let v = crate::text::chars_of(s);
    let w = normalize_digit_chars(&v);
    crate::text::string_of_chars(&w)
}

/// The digit remap is total on the ten Thai glyphs and a bijection onto
/// the ten ASCII digits.
pub proof fn lemma_digit_map_bijective()
    ensures
        forall|c: char| is_thai_digit(c) ==> is_ascii_digit_char(#[trigger] spec_map_digit(c)),
        forall|c1: char, c2: char|
            is_thai_digit(c1) && is_thai_digit(c2) && c1 != c2 ==> spec_map_digit(c1)
                != spec_map_digit(c2),
        forall|d: char|
            is_ascii_digit_char(d) ==> exists|c: char|
                is_thai_digit(c) && #[trigger] spec_map_digit(c) == d,
{
    assert forall|d: char| is_ascii_digit_char(d) implies exists|c: char|
        is_thai_digit(c) && #[trigger] spec_map_digit(c) == d by {
        if d == '0' {
            assert(is_thai_digit('\u{0e50}') && spec_map_digit('\u{0e50}') == d);
        } else if d == '1' {
            assert(is_thai_digit('\u{0e51}') && spec_map_digit('\u{0e51}') == d);
        } else if d == '2' {
            assert(is_thai_digit('\u{0e52}') && spec_map_digit('\u{0e52}') == d);
        } else if d == '3' {
            assert(is_thai_digit('\u{0e53}') && spec_map_digit('\u{0e53}') == d);
        } else if d == '4' {
            assert(is_thai_digit('\u{0e54}') && spec_map_digit('\u{0e54}') == d);
        } else if d == '5' {
            assert(is_thai_digit('\u{0e55}') && spec_map_digit('\u{0e55}') == d);
        } else if d == '6' {
            assert(is_thai_digit('\u{0e56}') && spec_map_digit('\u{0e56}') == d);
        } else if d == '7' {
            assert(is_thai_digit('\u{0e57}') && spec_map_digit('\u{0e57}') == d);
        } else if d == '8' {
            assert(is_thai_digit('\u{0e58}') && spec_map_digit('\u{0e58}') == d);
        } else {
            assert(is_thai_digit('\u{0e59}') && spec_map_digit('\u{0e59}') == d);
        }
    }
}

/// Normalization leaves a text already in ASCII digits unchanged.
pub proof fn lemma_normalize_ascii_identity(s: Seq<char>)
    requires
        forall|i: int| 0 <= i < s.len() ==> is_ascii_digit_char(#[trigger] s[i]),
    ensures
        spec_normalize_digits(s) == s,
{
    assert(spec_normalize_digits(s) =~= s);
}

} // verus!
