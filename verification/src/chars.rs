//! Character-sequence building blocks.
//!
//! All text the library produces is assembled as a `Vec<char>` under exact
//! specifications and turned into a `String` only at the edge, so every
//! formatting decision is verified. Durations are rendered as zero-padded
//! `HH:MM:SS`, where the hour field may exceed 24; a negative total keeps
//! the sign on each non-zero component, as truncating division gives it.

use vstd::prelude::*;

verus! {

/// Relies on `core::iter::Iterator::collect` via `FromIterator<char> for String`:
/// collecting chars yields the string of exactly those chars.
#[verifier::external_body]
pub fn chars_to_string(v: &Vec<char>) -> (s: String)
    ensures
        s@ == v@,
{
    v.iter().collect()
}

/// Relies on `str::chars` with `FromIterator<char> for Vec<char>`: the
/// collected vector holds exactly the string's chars, in order.
#[verifier::external_body]
pub fn string_chars(s: &str) -> (v: Vec<char>)
    ensures
        v@ == s@,
{
    s.chars().collect()
}

/// Append every char of `s` to `v`.
pub fn push_str_chars(v: &mut Vec<char>, s: &str)
    ensures
        final(v)@ == old(v)@ + s@,
{
    let mut cs = string_chars(s);
    v.append(&mut cs);
}

pub open spec fn spec_digit(n: int) -> char {
    if n == 0 { '0' }
    else if n == 1 { '1' }
    else if n == 2 { '2' }
    else if n == 3 { '3' }
    else if n == 4 { '4' }
    else if n == 5 { '5' }
    else if n == 6 { '6' }
    else if n == 7 { '7' }
    else if n == 8 { '8' }
    else { '9' }
}

/// Decimal digits of a non-negative integer, most significant first.
pub open spec fn spec_dec(n: int) -> Seq<char>
    decreases n,
{
    if n < 10 {
        seq![spec_digit(n)]
    } else {
        spec_dec(n / 10).push(spec_digit(n % 10))
    }
}

fn digit_char(n: u128) -> (c: char)
    requires
        n < 10,
    ensures
        c == spec_digit(n as int),
{
    if n == 0 { '0' }
    else if n == 1 { '1' }
    else if n == 2 { '2' }
    else if n == 3 { '3' }
    else if n == 4 { '4' }
    else if n == 5 { '5' }
    else if n == 6 { '6' }
    else if n == 7 { '7' }
    else if n == 8 { '8' }
    else { '9' }
}

/// Append the decimal rendering of `n`.
pub fn push_dec(v: &mut Vec<char>, n: u128)
    ensures
        final(v)@ == old(v)@ + spec_dec(n as int),
    decreases n,
{
    if n >= 10 {
        push_dec(v, n / 10);
    }
    v.push(digit_char(n % 10));
}

/// `{:02}`-style rendering: a single digit gets a leading zero; a negative
/// value gets a minus sign ahead of its digits (the sign counts toward the
/// width, so no zero is inserted).
pub open spec fn spec_pad2(n: int) -> Seq<char> {
    if 0 <= n < 10 {
        seq!['0', spec_digit(n)]
    } else if n >= 10 {
        spec_dec(n)
    } else {
        seq!['-'] + spec_dec(-n)
    }
}

/// Append `spec_pad2` of a non-negative value.
pub fn push_pad2(v: &mut Vec<char>, n: u128)
    ensures
        final(v)@ == old(v)@ + spec_pad2(n as int),
{
    if n < 10 {
        v.push('0');
    }
    push_dec(v, n);
}

/// Append `spec_pad2` of `-n` (used for the components of a negative total).
pub fn push_pad2_neg(v: &mut Vec<char>, n: u128)
    ensures
        final(v)@ == old(v)@ + spec_pad2(-(n as int)),
{
    if n == 0 {
        v.push('0');
        v.push('0');
        assert(spec_pad2(0) =~= seq!['0', '0']);
    } else {
        v.push('-');
        push_dec(v, n);
    }
}

/// Four-digit zero-padded rendering, for years up to 9999.
pub open spec fn spec_pad4(n: int) -> Seq<char> {
    if n < 10 {
        seq!['0', '0', '0'] + spec_dec(n)
    } else if n < 100 {
        seq!['0', '0'] + spec_dec(n)
    } else if n < 1000 {
        seq!['0'] + spec_dec(n)
    } else {
        spec_dec(n)
    }
}

pub fn push_pad4(v: &mut Vec<char>, n: u128)
    requires
        n <= 9999,
    ensures
        final(v)@ == old(v)@ + spec_pad4(n as int),
{
    if n < 10 {
        v.push('0');
        v.push('0');
        v.push('0');
    } else if n < 100 {
        v.push('0');
        v.push('0');
    } else if n < 1000 {
        v.push('0');
    }
    push_dec(v, n);
}

/// Truncating (round-toward-zero) division, as the `/` of the machine.
pub open spec fn spec_tdiv(a: int, b: int) -> int {
    if a >= 0 { a / b } else { -((-a) / b) }
}

/// Remainder matching `spec_tdiv`, with the sign of the dividend.
pub open spec fn spec_tmod(a: int, b: int) -> int {
    if a >= 0 { a % b } else { -((-a) % b) }
}

/// A total of `total` seconds as zero-padded `HH:MM:SS`: hours, then
/// minutes and seconds of the remainder. Hours may exceed 24.
pub open spec fn spec_format_duration(total: int) -> Seq<char> {
    spec_pad2(spec_tdiv(total, 3600)) + seq![':']
        + spec_pad2(spec_tdiv(spec_tmod(total, 3600), 60)) + seq![':']
        + spec_pad2(spec_tmod(total, 60))
}

pub fn push_duration(v: &mut Vec<char>, total: i128)
    requires
        -100000000000000000000000000000000 < total < 100000000000000000000000000000000,
    ensures
        final(v)@ == old(v)@ + spec_format_duration(total as int),
{
    if total >= 0 {
        let a = total as u128;
        push_pad2(v, a / 3600);
        v.push(':');
        push_pad2(v, (a % 3600) / 60);
        v.push(':');
        push_pad2(v, a % 60);
    } else {
        let a = (-total) as u128;
        push_pad2_neg(v, a / 3600);
        v.push(':');
        push_pad2_neg(v, (a % 3600) / 60);
        v.push(':');
        push_pad2_neg(v, a % 60);
    }
}

/// `total` seconds rendered as zero-padded `HH:MM:SS`.
pub fn format_duration(total: i128) -> (r: String)
    requires
        -100000000000000000000000000000000 < total < 100000000000000000000000000000000,
    ensures
        r@ == spec_format_duration(total as int),
{
    let mut v: Vec<char> = Vec::new();
    push_duration(&mut v, total);
    chars_to_string(&v)
}

} // verus!
