//! Small verified string helpers shared by the library: character
//! classification, case mapping, decimal rendering and substring search.
//! Everything works on ASCII; non-ASCII characters are simply carried
//! through unchanged.

use vstd::prelude::*;

verus! {

/// An ASCII decimal digit.
pub open spec fn is_ascii_digit_char(c: char) -> bool {
    48 <= c as u32 <= 57
}

/// An ASCII letter.
pub open spec fn is_ascii_alpha_char(c: char) -> bool {
    (65 <= c as u32 <= 90) || (97 <= c as u32 <= 122)
}

/// An ASCII letter or digit.
pub open spec fn is_ascii_alnum_char(c: char) -> bool {
    is_ascii_alpha_char(c) || is_ascii_digit_char(c)
}

/// An ASCII whitespace character (space, tab, newline, carriage return).
pub open spec fn is_ascii_space_char(c: char) -> bool {
    c == ' ' || c == '\t' || c == '\n' || c == '\r'
}

/// An ASCII hexadecimal digit.
pub open spec fn is_ascii_hex_char(c: char) -> bool {
    is_ascii_digit_char(c) || (65 <= c as u32 <= 70) || (97 <= c as u32 <= 102)
}

pub fn char_is_digit(c: char) -> (r: bool)
    ensures
        r == is_ascii_digit_char(c),
{
    let u = c as u32;
    48 <= u && u <= 57
}

pub fn char_is_alpha(c: char) -> (r: bool)
    ensures
        r == is_ascii_alpha_char(c),
{
    let u = c as u32;
    (65 <= u && u <= 90) || (97 <= u && u <= 122)
}

pub fn char_is_alnum(c: char) -> (r: bool)
    ensures
        r == is_ascii_alnum_char(c),
{
    char_is_alpha(c) || char_is_digit(c)
}

pub fn char_is_space(c: char) -> (r: bool)
    ensures
        r == is_ascii_space_char(c),
{
    c == ' ' || c == '\t' || c == '\n' || c == '\r'
}

pub fn char_is_hex(c: char) -> (r: bool)
    ensures
        r == is_ascii_hex_char(c),
{
    let u = c as u32;
    char_is_digit(c) || (65 <= u && u <= 70) || (97 <= u && u <= 102)
}

/// The numeric value of an ASCII digit.
pub open spec fn digit_value(c: char) -> int {
    c as u32 - 48
}

pub fn char_digit_value(c: char) -> (v: u32)
    requires
        is_ascii_digit_char(c),
    ensures
        v == digit_value(c),
        v <= 9,
{
    (c as u32) - 48
}

/// ASCII upper-case mapping: 'a'..='z' to 'A'..='Z', everything else kept.
pub open spec fn ascii_upper_char(c: char) -> char {
    if 97 <= c as u32 <= 122 {
        ((c as u32) - 32) as char
    } else {
        c
    }
}

/// ASCII lower-case mapping: 'A'..='Z' to 'a'..='z', everything else kept.
pub open spec fn ascii_lower_char(c: char) -> char {
    if 65 <= c as u32 <= 90 {
        ((c as u32) + 32) as char
    } else {
        c
    }
}

/// A sequence of characters mapped to ASCII upper case.
pub open spec fn upper_seq(s: Seq<char>) -> Seq<char> {
    s.map_values(|c: char| ascii_upper_char(c))
}

/// A sequence of characters mapped to ASCII lower case.
pub open spec fn lower_seq(s: Seq<char>) -> Seq<char> {
    s.map_values(|c: char| ascii_lower_char(c))
}

/// Lower-casing leaves a text without capitals unchanged.
pub proof fn lemma_lower_seq_of_lower(s: Seq<char>)
    requires
        forall|i: int| 0 <= i < s.len() ==> ascii_lower_char(#[trigger] s[i]) == s[i],
    ensures
        lower_seq(s) == s,
{
    assert(lower_seq(s) =~= s);
}

/// Relies on char::to_ascii_uppercase: maps 'a'..='z' to 'A'..='Z' and
/// leaves every other character unchanged.
#[verifier::external_body]
pub fn char_upper(c: char) -> (r: char)
    ensures
        r == ascii_upper_char(c),
{
    c.to_ascii_uppercase()
}

/// Relies on char::to_ascii_lowercase: maps 'A'..='Z' to 'a'..='z' and
/// leaves every other character unchanged.
#[verifier::external_body]
pub fn char_lower(c: char) -> (r: char)
    ensures
        r == ascii_lower_char(c),
{
    c.to_ascii_lowercase()
}

/// Relies on String::push: appends one character at the end.
#[verifier::external_body]
pub fn push_char(s: &mut String, c: char)
    ensures
        final(s)@ == old(s)@.push(c),
{
    s.push(c);
}

/// The decimal digit character for a value below ten.
pub open spec fn digit_char(d: int) -> char {
    (48 + d) as char
}

fn digit_to_char(d: u64) -> (c: char)
    requires
        d <= 9,
    ensures
        c == digit_char(d as int),
        is_ascii_digit_char(c),
{
    match d {
        0 => '0',
        1 => '1',
        2 => '2',
        3 => '3',
        4 => '4',
        5 => '5',
        6 => '6',
        7 => '7',
        8 => '8',
        _ => '9',
    }
}

/// The decimal rendering of a number, most significant digit first.
pub open spec fn dec_digits(n: int) -> Seq<char>
    decreases n,
{
    if n <= 9 {
        seq![digit_char(if n < 0 { 0 } else { n })]
    } else {
        dec_digits(n / 10).push(digit_char(n % 10))
    }
}

/// Render a number in decimal.
pub fn u64_to_dec(n: u64) -> (r: String)
    ensures
        r@ == dec_digits(n as int),
{
    let mut digits: Vec<char> = Vec::new();
    let mut rest: u64 = n;
    loop
        invariant_except_break
            dec_digits(n as int) == dec_digits(rest as int) + digits@,
        ensures
            dec_digits(n as int) == digits@,
        decreases rest,
    {
        let d = digit_to_char(rest % 10);
        digits.insert(0, d);
        if rest <= 9 {
            assert(dec_digits(rest as int) =~= seq![digit_char(rest as int)]);
            assert(dec_digits(n as int) =~= digits@);
            break ;
        }
        assert(dec_digits(rest as int) == dec_digits(rest as int / 10).push(
            digit_char(rest as int % 10),
        ));
        assert(dec_digits(rest as int / 10).push(digit_char(rest as int % 10)) + digits@.subrange(
            1,
            digits@.len() as int,
        ) =~= dec_digits(rest as int / 10) + digits@);
        rest = rest / 10;
    }
    let mut out = String::new();
    let mut i: usize = 0;
    while i < digits.len()
        invariant
            i <= digits.len(),
            out@ == digits@.subrange(0, i as int),
        decreases digits.len() - i,
    {
        push_char(&mut out, digits[i]);
        i = i + 1;
    }
    assert(digits@.subrange(0, digits.len() as int) == digits@);
    out
}

/// Whether `needle` occurs inside `hay`, compared without regard to
/// ASCII case.
pub open spec fn contains_ci(hay: Seq<char>, needle: Seq<char>) -> bool {
    exists|i: int|
        0 <= i && i + needle.len() <= hay.len() && lower_seq(
            #[trigger] hay.subrange(i, i + needle.len()),
        ) == lower_seq(needle)
}

/// Case-insensitive match of `needle` against `hay` starting at `at`.
fn matches_at(hay: &str, needle: &str, at: usize) -> (r: bool)
    requires
        at + needle@.len() <= hay@.len(),
    ensures
        r == (lower_seq(hay@.subrange(at as int, at + needle@.len())) == lower_seq(needle@)),
{
    let hn = hay.unicode_len();
    let n = needle.unicode_len();
    let mut j: usize = 0;
    while j < n
        invariant
            j <= n,
            n == needle@.len(),
            hn == hay@.len(),
            at + n <= hn,
            forall|k: int|
                0 <= k < j ==> ascii_lower_char(hay@[at + k]) == ascii_lower_char(needle@[k]),
        decreases n - j,
    {
        let hc = char_lower(hay.get_char(at + j));
        let nc = char_lower(needle.get_char(j));
        if hc != nc {
            assert(lower_seq(hay@.subrange(at as int, at + needle@.len()))[j as int] != lower_seq(
                needle@,
            )[j as int]);
            return false;
        }
        j = j + 1;
    }
    assert(lower_seq(hay@.subrange(at as int, at + needle@.len())) =~= lower_seq(needle@));
    true
}

/// Whether `needle` occurs inside `hay`, ignoring ASCII case.
pub fn str_contains_ci(hay: &str, needle: &str) -> (r: bool)
    ensures
        r == contains_ci(hay@, needle@),
{
    let hn = hay.unicode_len();
    let nn = needle.unicode_len();
    if nn > hn {
        return false;
    }
    let last = hn - nn;
    let mut i: usize = 0;
    loop
        invariant
            nn <= hn,
            hn == hay@.len(),
            nn == needle@.len(),
            last == hn - nn,
            i <= last,
            forall|k: int|
                0 <= k < i ==> lower_seq(#[trigger] hay@.subrange(k, k + needle@.len()))
                    != lower_seq(needle@),
        decreases last - i,
    {
        if matches_at(hay, needle, i) {
            return true;
        }
        if i == last {
            return false;
        }
        i = i + 1;
    }
}

/// Whether `s` begins with `prefix`.
pub open spec fn starts_with(s: Seq<char>, prefix: Seq<char>) -> bool {
    prefix.len() <= s.len() && s.subrange(0, prefix.len() as int) == prefix
}

pub fn str_starts_with(s: &str, prefix: &str) -> (r: bool)
    ensures
        r == starts_with(s@, prefix@),
{
    let pn = prefix.unicode_len();
    if pn > s.unicode_len() {
        return false;
    }
    let mut j: usize = 0;
    while j < pn
        invariant
            j <= pn,
            pn == prefix@.len(),
            pn <= s@.len(),
            forall|k: int| 0 <= k < j ==> s@[k] == prefix@[k],
        decreases pn - j,
    {
        if s.get_char(j) != prefix.get_char(j) {
            assert(s@.subrange(0, prefix@.len() as int)[j as int] != prefix@[j as int]);
            return false;
        }
        j = j + 1;
    }
    assert(s@.subrange(0, prefix@.len() as int) =~= prefix@);
    true
}

/// Equality of two string slices.
pub fn str_eq(a: &str, b: &str) -> (r: bool)
    ensures
        r == (a@ == b@),
{
    let an = a.unicode_len();
    let bn = b.unicode_len();
    if an != bn {
        assert(a@.len() != b@.len());
        return false;
    }
    let mut j: usize = 0;
    while j < an
        invariant
            j <= an,
            an == a@.len(),
            an == b@.len(),
            forall|k: int| 0 <= k < j ==> a@[k] == b@[k],
        decreases an - j,
    {
        if a.get_char(j) != b.get_char(j) {
            return false;
        }
        j = j + 1;
    }
    assert(a@ =~= b@);
    true
}

/// Case-insensitive equality of two strings.
pub fn str_eq_ignore_case(a: &str, b: &str) -> (r: bool)
    ensures
        r == (lower_seq(a@) == lower_seq(b@)),
{
    let an = a.unicode_len();
    let bn = b.unicode_len();
    if an != bn {
        assert(lower_seq(a@).len() != lower_seq(b@).len());
        return false;
    }
    let mut j: usize = 0;
    while j < an
        invariant
            j <= an,
            an == a@.len(),
            an == b@.len(),
            forall|k: int| 0 <= k < j ==> ascii_lower_char(a@[k]) == ascii_lower_char(b@[k]),
        decreases an - j,
    {
        if char_lower(a.get_char(j)) != char_lower(b.get_char(j)) {
            assert(lower_seq(a@)[j as int] != lower_seq(b@)[j as int]);
            return false;
        }
        j = j + 1;
    }
    assert(lower_seq(a@) =~= lower_seq(b@));
    true
}

} // verus!
