//! Reading the persisted text back.
//!
//! A recursive-descent reader for the exact shape `save_projects` writes,
//! tolerating two variations the schema allows: fractional seconds after a
//! timestamp's seconds field (ignored) and the usual JSON string escapes.
//! Each executable function is proved equal to its specification function;
//! any deviation from the schema makes the whole load fall back to the
//! empty collection.

use vstd::prelude::*;
use crate::time::Timestamp;
use crate::model::Session;

verus! {

pub open spec fn is_digit(c: char) -> bool {
    48 <= c as u32 <= 57
}

pub open spec fn digit_val(c: char) -> int {
    c as u32 - 48
}

/// The value of a digit string, most significant first.
pub open spec fn val_of_digits(ds: Seq<char>) -> int
    decreases ds.len(),
{
    if ds.len() == 0 {
        0
    } else {
        val_of_digits(ds.drop_last()) * 10 + digit_val(ds.last())
    }
}

/// The first position at or after `i` that does not hold a digit.
pub open spec fn digits_end(s: Seq<char>, i: int) -> int
    decreases s.len() - i,
{
    if i < 0 || i >= s.len() || !is_digit(s[i]) {
        i
    } else {
        digits_end(s, i + 1)
    }
}

pub proof fn lemma_digits_end_bounds(s: Seq<char>, i: int)
    requires
        0 <= i <= s.len(),
    ensures
        i <= digits_end(s, i) <= s.len(),
    decreases s.len() - i,
{
    if i < s.len() && is_digit(s[i]) {
        lemma_digits_end_bounds(s, i + 1);
    }
}

/// A decimal number at `i`: the maximal digit run, at most ten digits, its
/// value at most `u32::MAX`.
pub open spec fn spec_parse_u32(s: Seq<char>, i: int) -> Option<(u32, int)> {
    let j = digits_end(s, i);
    if j == i || j - i > 10 {
        Option::None
    } else if val_of_digits(s.subrange(i, j)) > u32::MAX {
        Option::None
    } else {
        Option::Some((val_of_digits(s.subrange(i, j)) as u32, j))
    }
}

pub open spec fn spec_pow10(n: nat) -> int
    decreases n,
{
    if n == 0 {
        1
    } else {
        10 * spec_pow10((n - 1) as nat)
    }
}

pub fn parse_u32(s: &Vec<char>, i: usize) -> (r: Option<(u32, usize)>)
    requires
        i <= s@.len(),
    ensures
        match r {
            Option::Some((v, j)) => spec_parse_u32(s@, i as int) == Option::Some((v, j as int))
                && i < j <= s@.len(),
            Option::None => spec_parse_u32(s@, i as int) is None,
        },
{
    proof {
        lemma_digits_end_bounds(s@, i as int);
    }
    let ghost e = digits_end(s@, i as int);
    let n = s.len();
    let mut j: usize = i;
    let mut acc: u64 = 0;
    while j < n && (s[j] as u32) >= 48 && (s[j] as u32) <= 57 && j - i <= 10
        invariant
            i <= j <= s@.len(),
            n == s@.len(),
            digits_end(s@, i as int) == digits_end(s@, j as int),
            e == digits_end(s@, i as int),
            acc == val_of_digits(s@.subrange(i as int, j as int)),
            j - i <= 11,
            acc < spec_pow10((j - i) as nat),
        decreases s@.len() - j,
    {
        proof {
            assert(s@.subrange(i as int, j + 1).drop_last() =~= s@.subrange(i as int, j as int));
            assert(s@.subrange(i as int, j + 1).last() == s@[j as int]);
            assert(is_digit(s@[j as int]));
            assert(digit_val(s@[j as int]) <= 9);
            assert(spec_pow10(((j + 1) - i) as nat) == 10 * spec_pow10((j - i) as nat));
            assert(spec_pow10(10nat) == 10000000000) by {
                reveal_with_fuel(spec_pow10, 11);
            };
            assert(spec_pow10((j - i) as nat) <= spec_pow10(10nat)) by {
                lemma_pow10_le((j - i) as nat, 10nat);
            };
        }
        acc = acc * 10 + ((s[j] as u32) as u64 - 48);
        j = j + 1;
    }
    if j < n && (s[j] as u32) >= 48 && (s[j] as u32) <= 57 {
        // the run reaches an eleventh digit
        proof {
            assert(is_digit(s@[j as int]));
            assert(digits_end(s@, j as int) == digits_end(s@, j + 1));
            lemma_digits_end_bounds(s@, j + 1);
            assert(e - i > 10);
        }
        return Option::None;
    }
    proof {
        assert(digits_end(s@, j as int) == j as int);
        assert(e == j as int);
    }
    if j == i {
        return Option::None;
    }
    if j - i > 10 {
        return Option::None;
    }
    if acc > 0xffffffff {
        return Option::None;
    }
    Option::Some((acc as u32, j))
}

pub proof fn lemma_pow10_le(a: nat, b: nat)
    requires
        a <= b,
    ensures
        spec_pow10(a) <= spec_pow10(b),
        spec_pow10(a) >= 1,
    decreases b,
{
    if b > 0 {
        if a == b {
            lemma_pow10_le((a - 1) as nat, (b - 1) as nat);
        } else {
            lemma_pow10_le(a, (b - 1) as nat);
        }
    }
}

/// The text at `i` is exactly `lit`.
pub open spec fn spec_match_lit(s: Seq<char>, i: int, lit: Seq<char>) -> bool {
    0 <= i && i + lit.len() <= s.len() && s.subrange(i, i + lit.len()) == lit
}

pub fn match_lit(s: &Vec<char>, i: usize, lit: &str) -> (r: bool)
    requires
        i <= s@.len(),
    ensures
        r == spec_match_lit(s@, i as int, lit@),
{
    let l = crate::chars::string_chars(lit);
    if s.len() - i < l.len() {
        proof {
            assert(!spec_match_lit(s@, i as int, lit@));
        }
        return false;
    }
    let ghost slen = s@.len();
    let mut k: usize = 0;
    while k < l.len()
        invariant
            k <= l@.len(),
            l@ == lit@,
            i + l@.len() <= s@.len(),
            s@.len() == slen,
            slen <= usize::MAX,
            forall|m: int| 0 <= m < k ==> s@[i + m] == l@[m],
        decreases l@.len() - k,
    {
        if s[i + k] != l[k] {
            proof {
                assert(s@.subrange(i as int, i + lit@.len())[k as int] == s@[i + k]);
            }
            return false;
        }
        k = k + 1;
    }
    proof {
        assert(s@.subrange(i as int, i + lit@.len()) =~= lit@);
    }
    true
}


/// `match_lit` returning the position after the literal.
pub fn expect_lit(s: &Vec<char>, i: usize, lit: &str) -> (r: Option<usize>)
    requires
        i <= s@.len(),
    ensures
        match r {
            Option::Some(j) => spec_match_lit(s@, i as int, lit@) && j == i + lit@.len()
                && i <= j <= s@.len(),
            Option::None => !spec_match_lit(s@, i as int, lit@),
        },
{
    let slen = s.len();
    let l = crate::chars::string_chars(lit);
    if match_lit(s, i, lit) {
        proof {
            assert(i + l@.len() <= slen);
        }
        Option::Some(i + l.len())
    } else {
        Option::None
    }
}

/// `n` digit chars at `i`, as a value.
pub open spec fn spec_parse_fixed(s: Seq<char>, i: int, n: int) -> Option<int> {
    if 0 <= i && i + n <= s.len() && (forall|k: int| i <= k < i + n ==> is_digit(s[k])) {
        Option::Some(val_of_digits(s.subrange(i, i + n)))
    } else {
        Option::None
    }
}

fn parse_fixed(s: &Vec<char>, i: usize, n: usize) -> (r: Option<u32>)
    requires
        i <= s@.len(),
        n <= 4,
    ensures
        match r {
            Option::Some(v) => spec_parse_fixed(s@, i as int, n as int) == Option::Some(v as int)
                && v < 10000,
            Option::None => spec_parse_fixed(s@, i as int, n as int) is None,
        },
{
    if s.len() - i < n {
        return Option::None;
    }
    let ghost slen = s@.len();
    let mut k: usize = 0;
    let mut acc: u32 = 0;
    while k < n
        invariant
            k <= n,
            n <= 4,
            i + n <= s@.len(),
            s@.len() == slen,
            slen <= usize::MAX,
            forall|m: int| i <= m < i + k ==> is_digit(s@[m]),
            acc == val_of_digits(s@.subrange(i as int, i + k)),
            acc < spec_pow10(k as nat),
            acc < 10000,
        decreases n - k,
    {
        let c = s[i + k] as u32;
        if c < 48 || c > 57 {
            return Option::None;
        }
        proof {
            assert(s@.subrange(i as int, i + k + 1).drop_last() =~= s@.subrange(i as int, i + k));
            assert(s@.subrange(i as int, i + k + 1).last() == s@[i + k]);
            assert(is_digit(s@[i + k]));
            assert(spec_pow10(((k + 1)) as nat) == 10 * spec_pow10(k as nat));
            assert(spec_pow10(4nat) == 10000) by {
                reveal_with_fuel(spec_pow10, 5);
            };
            lemma_pow10_le((k + 1) as nat, 4nat);
        }
        acc = acc * 10 + (c - 48);
        k = k + 1;
    }
    Option::Some(acc)
}

/// A timestamp as the store writes it: date, `T`, time of day, then the
/// offset; fractional seconds, if present, are read over and dropped.
pub open spec fn spec_parse_ts(s: Seq<char>, i: int) -> Option<(Timestamp, int)> {
    let year = spec_parse_fixed(s, i, 4);
    let month = spec_parse_fixed(s, i + 5, 2);
    let day = spec_parse_fixed(s, i + 8, 2);
    let hour = spec_parse_fixed(s, i + 11, 2);
    let minute = spec_parse_fixed(s, i + 14, 2);
    let second = spec_parse_fixed(s, i + 17, 2);
    if year is Some && month is Some && day is Some && hour is Some && minute is Some
        && second is Some && i + 19 < s.len() && s[i + 4] == '-' && s[i + 7] == '-'
        && s[i + 10] == 'T' && s[i + 13] == ':' && s[i + 16] == ':' {
        let k = if s[i + 19] == '.' {
            if digits_end(s, i + 20) == i + 20 {
                -1
            } else {
                digits_end(s, i + 20)
            }
        } else {
            i + 19
        };
        if k < 0 {
            Option::None
        } else {
            spec_parse_offset_into(
                s,
                k,
                year->Some_0,
                month->Some_0,
                day->Some_0,
                hour->Some_0,
                minute->Some_0,
                second->Some_0,
            )
        }
    } else {
        Option::None
    }
}

/// The `+HH:MM` / `-HH:MM` tail of a timestamp, combined with the already
/// read fields into a well-formed timestamp.
pub open spec fn spec_parse_offset_into(
    s: Seq<char>,
    k: int,
    year: int,
    month: int,
    day: int,
    hour: int,
    minute: int,
    second: int,
) -> Option<(Timestamp, int)> {
    let oh = spec_parse_fixed(s, k + 1, 2);
    let om = spec_parse_fixed(s, k + 4, 2);
    if k < s.len() && (s[k] == '+' || s[k] == '-') && oh is Some && om is Some && s[k + 3] == ':'
        && om->Some_0 <= 59 {
        let m = oh->Some_0 * 60 + om->Some_0;
        let off = if s[k] == '-' { -m } else { m };
        let t = Timestamp {
            year: year as u32,
            month: month as u32,
            day: day as u32,
            hour: hour as u32,
            minute: minute as u32,
            second: second as u32,
            offset_minutes: off as i32,
        };
        if t.wf() && -1439 <= off <= 1439 {
            Option::Some((t, k + 6))
        } else {
            Option::None
        }
    } else {
        Option::None
    }
}

#[verifier::rlimit(100)]
fn parse_offset_into(s: &Vec<char>, k: usize, year: u32, month: u32, day: u32, hour: u32,
    minute: u32, second: u32) -> (r: Option<(Timestamp, usize)>)
    requires
        k <= s@.len(),
        year < 10000,
        month < 10000,
        day < 10000,
        hour < 10000,
        minute < 10000,
        second < 10000,
    ensures
        match r {
            Option::Some((t, j)) => spec_parse_offset_into(s@, k as int, year as int, month as int,
                day as int, hour as int, minute as int, second as int)
                == Option::Some((t, j as int)) && t.wf() && k < j <= s@.len(),
            Option::None => spec_parse_offset_into(s@, k as int, year as int, month as int,
                day as int, hour as int, minute as int, second as int) is None,
        },
{
    if k >= s.len() {
        return Option::None;
    }
    let sign = s[k];
    if sign != '+' && sign != '-' {
        return Option::None;
    }
    let oh = match parse_fixed(s, k + 1, 2) {
        Option::Some(v) => v,
        Option::None => {
            return Option::None;
        },
    };
    if k + 3 >= s.len() || s[k + 3] != ':' {
        return Option::None;
    }
    let om = match parse_fixed(s, k + 4, 2) {
        Option::Some(v) => v,
        Option::None => {
            return Option::None;
        },
    };
    if om > 59 {
        return Option::None;
    }
    let m = oh * 60 + om;
    let off: i32 = if sign == '-' {
        -(m as i32)
    } else {
        m as i32
    };
    let t = Timestamp { year, month, day, hour, minute, second, offset_minutes: off };
    if 1 <= year && year <= 9999 && 1 <= month && month <= 12 && 1 <= day && day <= 31
        && hour <= 23 && minute <= 59 && second <= 59 && -1439 <= off && off <= 1439 {
        Option::Some((t, k + 6))
    } else {
        Option::None
    }
}

#[verifier::rlimit(100)]
pub fn parse_ts(s: &Vec<char>, i: usize) -> (r: Option<(Timestamp, usize)>)
    requires
        i <= s@.len(),
    ensures
        match r {
            Option::Some((t, j)) => spec_parse_ts(s@, i as int) == Option::Some((t, j as int))
                && t.wf() && i < j <= s@.len(),
            Option::None => spec_parse_ts(s@, i as int) is None,
        },
{
    let year = match parse_fixed(s, i, 4) {
        Option::Some(v) => v,
        Option::None => {
            return Option::None;
        },
    };
    if s.len() - i < 20 {
        return Option::None;
    }
    let month = match parse_fixed(s, i + 5, 2) {
        Option::Some(v) => v,
        Option::None => {
            return Option::None;
        },
    };
    let day = match parse_fixed(s, i + 8, 2) {
        Option::Some(v) => v,
        Option::None => {
            return Option::None;
        },
    };
    let hour = match parse_fixed(s, i + 11, 2) {
        Option::Some(v) => v,
        Option::None => {
            return Option::None;
        },
    };
    let minute = match parse_fixed(s, i + 14, 2) {
        Option::Some(v) => v,
        Option::None => {
            return Option::None;
        },
    };
    let second = match parse_fixed(s, i + 17, 2) {
        Option::Some(v) => v,
        Option::None => {
            return Option::None;
        },
    };
    if !(s[i + 4] == '-' && s[i + 7] == '-' && s[i + 10] == 'T' && s[i + 13] == ':'
        && s[i + 16] == ':') {
        return Option::None;
    }
    let mut k: usize = i + 19;
    if s[k] == '.' {
        let ghost e = digits_end(s@, i + 20);
        proof {
            lemma_digits_end_bounds(s@, i + 20);
        }
        let n = s.len();
        let mut j: usize = i + 20;
        while j < n && (s[j] as u32) >= 48 && (s[j] as u32) <= 57
            invariant
                i + 20 <= j <= s@.len(),
                n == s@.len(),
                e == digits_end(s@, i + 20),
                digits_end(s@, i + 20) == digits_end(s@, j as int),
            decreases s@.len() - j,
        {
            proof {
                assert(is_digit(s@[j as int]));
            }
            j = j + 1;
        }
        proof {
            assert(digits_end(s@, j as int) == j as int);
        }
        if j == i + 20 {
            return Option::None;
        }
        k = j;
    }
    parse_offset_into(s, k, year, month, day, hour, minute, second)
}


pub open spec fn is_hex_digit(c: char) -> bool {
    (48 <= c as u32 <= 57) || (97 <= c as u32 <= 102) || (65 <= c as u32 <= 70)
}

pub open spec fn hex_val(c: char) -> int {
    if 48 <= c as u32 <= 57 {
        c as u32 - 48
    } else if 97 <= c as u32 <= 102 {
        c as u32 - 87
    } else {
        c as u32 - 55
    }
}

/// The control char with code point `w`.
pub open spec fn spec_ctrl_char(w: int) -> char {
    if w == 0 { '\u{0}' }
    else if w == 1 { '\u{1}' }
    else if w == 2 { '\u{2}' }
    else if w == 3 { '\u{3}' }
    else if w == 4 { '\u{4}' }
    else if w == 5 { '\u{5}' }
    else if w == 6 { '\u{6}' }
    else if w == 7 { '\u{7}' }
    else if w == 8 { '\u{8}' }
    else if w == 9 { '\u{9}' }
    else if w == 10 { '\u{a}' }
    else if w == 11 { '\u{b}' }
    else if w == 12 { '\u{c}' }
    else if w == 13 { '\u{d}' }
    else if w == 14 { '\u{e}' }
    else if w == 15 { '\u{f}' }
    else if w == 16 { '\u{10}' }
    else if w == 17 { '\u{11}' }
    else if w == 18 { '\u{12}' }
    else if w == 19 { '\u{13}' }
    else if w == 20 { '\u{14}' }
    else if w == 21 { '\u{15}' }
    else if w == 22 { '\u{16}' }
    else if w == 23 { '\u{17}' }
    else if w == 24 { '\u{18}' }
    else if w == 25 { '\u{19}' }
    else if w == 26 { '\u{1a}' }
    else if w == 27 { '\u{1b}' }
    else if w == 28 { '\u{1c}' }
    else if w == 29 { '\u{1d}' }
    else if w == 30 { '\u{1e}' }
    else { '\u{1f}' }
}

fn ctrl_char(w: u32) -> (c: char)
    requires
        w < 32,
    ensures
        c == spec_ctrl_char(w as int),
{
    if w == 0 { '\u{0}' }
    else if w == 1 { '\u{1}' }
    else if w == 2 { '\u{2}' }
    else if w == 3 { '\u{3}' }
    else if w == 4 { '\u{4}' }
    else if w == 5 { '\u{5}' }
    else if w == 6 { '\u{6}' }
    else if w == 7 { '\u{7}' }
    else if w == 8 { '\u{8}' }
    else if w == 9 { '\u{9}' }
    else if w == 10 { '\u{a}' }
    else if w == 11 { '\u{b}' }
    else if w == 12 { '\u{c}' }
    else if w == 13 { '\u{d}' }
    else if w == 14 { '\u{e}' }
    else if w == 15 { '\u{f}' }
    else if w == 16 { '\u{10}' }
    else if w == 17 { '\u{11}' }
    else if w == 18 { '\u{12}' }
    else if w == 19 { '\u{13}' }
    else if w == 20 { '\u{14}' }
    else if w == 21 { '\u{15}' }
    else if w == 22 { '\u{16}' }
    else if w == 23 { '\u{17}' }
    else if w == 24 { '\u{18}' }
    else if w == 25 { '\u{19}' }
    else if w == 26 { '\u{1a}' }
    else if w == 27 { '\u{1b}' }
    else if w == 28 { '\u{1c}' }
    else if w == 29 { '\u{1d}' }
    else if w == 30 { '\u{1e}' }
    else { '\u{1f}' }
}

pub open spec fn jstr_cons(c: char, r: Option<(Seq<char>, int)>) -> Option<(Seq<char>, int)> {
    match r {
        Option::Some((t, j)) => Option::Some((seq![c] + t, j)),
        Option::None => Option::None,
    }
}

/// The body of a JSON string from `i` up to and through its closing quote:
/// the decoded chars and the position after the quote. Accepts the named
/// escapes, `\/`, and `\u00..` for control chars; a raw control char or a
/// lone backslash is a schema error.
pub open spec fn spec_parse_jstr(s: Seq<char>, i: int) -> Option<(Seq<char>, int)>
    decreases s.len() - i,
{
    if i < 0 || i >= s.len() {
        Option::None
    } else {
        let c = s[i];
        if c == '"' {
            Option::Some((Seq::empty(), i + 1))
        } else if c == '\\' {
            if i + 1 >= s.len() {
                Option::None
            } else {
                let e = s[i + 1];
                if e == '"' { jstr_cons('"', spec_parse_jstr(s, i + 2)) }
                else if e == '\\' { jstr_cons('\\', spec_parse_jstr(s, i + 2)) }
                else if e == '/' { jstr_cons('/', spec_parse_jstr(s, i + 2)) }
                else if e == 'b' { jstr_cons('\u{8}', spec_parse_jstr(s, i + 2)) }
                else if e == 'f' { jstr_cons('\u{c}', spec_parse_jstr(s, i + 2)) }
                else if e == 'n' { jstr_cons('\n', spec_parse_jstr(s, i + 2)) }
                else if e == 'r' { jstr_cons('\r', spec_parse_jstr(s, i + 2)) }
                else if e == 't' { jstr_cons('\t', spec_parse_jstr(s, i + 2)) }
                else if e == 'u' {
                    if i + 6 <= s.len() && s[i + 2] == '0' && s[i + 3] == '0'
                        && is_hex_digit(s[i + 4]) && is_hex_digit(s[i + 5])
                        && hex_val(s[i + 4]) * 16 + hex_val(s[i + 5]) < 32 {
                        jstr_cons(
                            spec_ctrl_char(hex_val(s[i + 4]) * 16 + hex_val(s[i + 5])),
                            spec_parse_jstr(s, i + 6),
                        )
                    } else {
                        Option::None
                    }
                } else {
                    Option::None
                }
            }
        } else if (c as u32) >= 32 {
            jstr_cons(c, spec_parse_jstr(s, i + 1))
        } else {
            Option::None
        }
    }
}

/// Is `c` a hex digit, and its value.
fn hex_digit_val(c: char) -> (r: Option<u32>)
    ensures
        match r {
            Option::Some(v) => is_hex_digit(c) && v == hex_val(c) && v < 16,
            Option::None => !is_hex_digit(c),
        },
{
    let u = c as u32;
    if 48 <= u && u <= 57 {
        Option::Some(u - 48)
    } else if 97 <= u && u <= 102 {
        Option::Some(u - 87)
    } else if 65 <= u && u <= 70 {
        Option::Some(u - 55)
    } else {
        Option::None
    }
}

pub fn parse_jstr(s: &Vec<char>, i: usize) -> (r: Option<(Vec<char>, usize)>)
    requires
        i <= s@.len(),
    ensures
        match r {
            Option::Some((t, j)) => spec_parse_jstr(s@, i as int) == Option::Some((t@, j as int))
                && i < j <= s@.len(),
            Option::None => spec_parse_jstr(s@, i as int) is None,
        },
{
    let n = s.len();
    let mut acc: Vec<char> = Vec::new();
    let mut cur: usize = i;
    loop
        invariant
            i <= cur <= s@.len(),
            n == s@.len(),
            n <= usize::MAX,
            (match spec_parse_jstr(s@, cur as int) {
                Option::Some((t, j)) => spec_parse_jstr(s@, i as int)
                    == Option::Some((acc@ + t, j)),
                Option::None => spec_parse_jstr(s@, i as int) is None,
            }),
        decreases s@.len() - cur,
    {
        if cur >= n {
            return Option::None;
        }
        let c = s[cur];
        if c == '"' {
            proof {
                assert(spec_parse_jstr(s@, cur as int) == Option::Some((Seq::<char>::empty(), cur + 1)));
                assert(acc@ + Seq::<char>::empty() =~= acc@);
            }
            return Option::Some((acc, cur + 1));
        } else if c == '\\' {
            if cur + 1 >= n {
                return Option::None;
            }
            let e = s[cur + 1];
            let dec: char;
            let mut step: usize = 2;
            if e == '"' { dec = '"'; }
            else if e == '\\' { dec = '\\'; }
            else if e == '/' { dec = '/'; }
            else if e == 'b' { dec = '\u{8}'; }
            else if e == 'f' { dec = '\u{c}'; }
            else if e == 'n' { dec = '\n'; }
            else if e == 'r' { dec = '\r'; }
            else if e == 't' { dec = '\t'; }
            else if e == 'u' {
                if n - cur < 6 || s[cur + 2] != '0' || s[cur + 3] != '0' {
                    return Option::None;
                }
                let h1 = match hex_digit_val(s[cur + 4]) {
                    Option::Some(v) => v,
                    Option::None => {
                        return Option::None;
                    },
                };
                let h2 = match hex_digit_val(s[cur + 5]) {
                    Option::Some(v) => v,
                    Option::None => {
                        return Option::None;
                    },
                };
                let w = h1 * 16 + h2;
                if w >= 32 {
                    return Option::None;
                }
                dec = ctrl_char(w);
                step = 6;
            } else {
                return Option::None;
            }
            proof {
                assert(spec_parse_jstr(s@, cur as int)
                    == jstr_cons(dec, spec_parse_jstr(s@, cur + step)));
                match spec_parse_jstr(s@, cur + step) {
                    Option::Some((t, j)) => {
                        assert(acc@ + (seq![dec] + t) =~= acc@.push(dec) + t);
                    },
                    Option::None => {},
                }
            }
            acc.push(dec);
            cur = cur + step;
        } else if (c as u32) >= 32 {
            proof {
                assert(spec_parse_jstr(s@, cur as int)
                    == jstr_cons(c, spec_parse_jstr(s@, cur + 1)));
                match spec_parse_jstr(s@, cur + 1) {
                    Option::Some((t, j)) => {
                        assert(acc@ + (seq![c] + t) =~= acc@.push(c) + t);
                    },
                    Option::None => {},
                }
            }
            acc.push(c);
            cur = cur + 1;
        } else {
            return Option::None;
        }
    }
}


/// One session record as the store writes it.
pub open spec fn spec_parse_session(s: Seq<char>, i: int) -> Option<(Session, int)> {
    let l1 = "{\"start_time\":\""@;
    let l2 = "\",\"end_time\":"@;
    if !spec_match_lit(s, i, l1) {
        Option::None
    } else {
        match spec_parse_ts(s, i + l1.len()) {
            Option::Some((st, j)) => {
                if !spec_match_lit(s, j, l2) {
                    Option::None
                } else {
                    let k = j + l2.len();
                    if spec_match_lit(s, k, "null}"@) {
                        Option::Some((
                            Session { start_time: st, end_time: Option::None },
                            k + "null}"@.len(),
                        ))
                    } else if k < s.len() && s[k] == '"' {
                        match spec_parse_ts(s, k + 1) {
                            Option::Some((et, m)) => {
                                if spec_match_lit(s, m, "\"}"@) {
                                    Option::Some((
                                        Session { start_time: st, end_time: Option::Some(et) },
                                        m + "\"}"@.len(),
                                    ))
                                } else {
                                    Option::None
                                }
                            },
                            Option::None => Option::None,
                        }
                    } else {
                        Option::None
                    }
                }
            },
            Option::None => Option::None,
        }
    }
}

pub fn parse_session(s: &Vec<char>, i: usize) -> (r: Option<(Session, usize)>)
    requires
        i <= s@.len(),
    ensures
        match r {
            Option::Some((x, j)) => spec_parse_session(s@, i as int)
                == Option::Some((x, j as int)) && x.wf() && i < j <= s@.len(),
            Option::None => spec_parse_session(s@, i as int) is None,
        },
{
    proof {
        reveal_strlit("{\"start_time\":\"");
    }
    let j0 = match expect_lit(s, i, "{\"start_time\":\"") {
        Option::Some(j) => j,
        Option::None => {
            return Option::None;
        },
    };
    let (st, j) = match parse_ts(s, j0) {
        Option::Some(p) => p,
        Option::None => {
            return Option::None;
        },
    };
    let k = match expect_lit(s, j, "\",\"end_time\":") {
        Option::Some(k) => k,
        Option::None => {
            return Option::None;
        },
    };
    match expect_lit(s, k, "null}") {
        Option::Some(j2) => {
            return Option::Some((Session { start_time: st, end_time: Option::None }, j2));
        },
        Option::None => {},
    }
    if k >= s.len() || s[k] != '"' {
        return Option::None;
    }
    let (et, m) = match parse_ts(s, k + 1) {
        Option::Some(p) => p,
        Option::None => {
            return Option::None;
        },
    };
    match expect_lit(s, m, "\"}") {
        Option::Some(j3) => Option::Some((
            Session { start_time: st, end_time: Option::Some(et) },
            j3,
        )),
        Option::None => Option::None,
    }
}

/// The session array of a project: `[` then comma-separated records.
pub open spec fn spec_parse_sessions_rest(s: Seq<char>, i: int, acc: Seq<Session>) -> Option<
    (Seq<Session>, int),
>
    decreases s.len() - i,
{
    if i < 0 || i >= s.len() {
        Option::None
    } else if s[i] == ']' {
        Option::Some((acc, i + 1))
    } else if s[i] == ',' {
        match spec_parse_session(s, i + 1) {
            Option::Some((x, j)) => {
                if i + 1 < j && j <= s.len() {
                    spec_parse_sessions_rest(s, j, acc.push(x))
                } else {
                    Option::None
                }
            },
            Option::None => Option::None,
        }
    } else {
        Option::None
    }
}

pub open spec fn spec_parse_sessions(s: Seq<char>, i: int) -> Option<(Seq<Session>, int)> {
    if 0 <= i && i < s.len() && s[i] == '[' {
        if i + 1 < s.len() && s[i + 1] == ']' {
            Option::Some((Seq::empty(), i + 2))
        } else {
            match spec_parse_session(s, i + 1) {
                Option::Some((x, j)) => {
                    if i + 1 < j && j <= s.len() {
                        spec_parse_sessions_rest(s, j, seq![x])
                    } else {
                        Option::None
                    }
                },
                Option::None => Option::None,
            }
        }
    } else {
        Option::None
    }
}

pub fn parse_sessions(s: &Vec<char>, i: usize) -> (r: Option<(Vec<Session>, usize)>)
    requires
        i <= s@.len(),
    ensures
        match r {
            Option::Some((ss, j)) => spec_parse_sessions(s@, i as int)
                == Option::Some((ss@, j as int)) && i < j <= s@.len() && (forall|k: int|
                0 <= k < ss@.len() ==> (#[trigger] ss@[k]).wf()),
            Option::None => spec_parse_sessions(s@, i as int) is None,
        },
{
    let n = s.len();
    if i >= n || s[i] != '[' {
        return Option::None;
    }
    if i + 1 < n && s[i + 1] == ']' {
        return Option::Some((Vec::new(), i + 2));
    }
    let mut acc: Vec<Session> = Vec::new();
    let first = match parse_session(s, i + 1) {
        Option::Some(p) => p,
        Option::None => {
            return Option::None;
        },
    };
    acc.push(first.0);
    let mut cur: usize = first.1;
    proof {
        assert(acc@ =~= seq![first.0]);
    }
    loop
        invariant
            i < cur <= s@.len(),
            n == s@.len(),
            n <= usize::MAX,
            forall|k: int| 0 <= k < acc@.len() ==> (#[trigger] acc@[k]).wf(),
            spec_parse_sessions(s@, i as int) == spec_parse_sessions_rest(
                s@,
                cur as int,
                acc@,
            ),
        decreases s@.len() - cur,
    {
        if cur >= n {
            return Option::None;
        }
        let c = s[cur];
        if c == ']' {
            return Option::Some((acc, cur + 1));
        } else if c == ',' {
            let (x, j) = match parse_session(s, cur + 1) {
                Option::Some(p) => p,
                Option::None => {
                    return Option::None;
                },
            };
            proof {
                assert(spec_parse_sessions_rest(s@, cur as int, acc@)
                    == spec_parse_sessions_rest(s@, j as int, acc@.push(x)));
            }
            acc.push(x);
            cur = j;
        } else {
            return Option::None;
        }
    }
}

/// One project record as the store writes it. Purely syntactic; the
/// well-formedness of what was read is judged by the loader.
#[verifier::opaque]
pub open spec fn spec_parse_project(s: Seq<char>, i: int) -> Option<(crate::model::ProjectV, int)> {
    if !spec_match_lit(s, i, "{\"id\":"@) {
        Option::None
    } else {
        match spec_parse_u32(s, i + "{\"id\":"@.len()) {
            Option::Some((id, j)) => {
                if !spec_match_lit(s, j, ",\"title\":\""@) {
                    Option::None
                } else {
                    match spec_parse_jstr(s, j + ",\"title\":\""@.len()) {
                        Option::Some((title, k)) => {
                            if !spec_match_lit(s, k, ",\"sessions\":"@) {
                                Option::None
                            } else {
                                match spec_parse_sessions(s, k + ",\"sessions\":"@.len()) {
                                    Option::Some((ss, m)) => {
                                        if !spec_match_lit(s, m, ",\"completed\":"@) {
                                            Option::None
                                        } else {
                                            let q = m + ",\"completed\":"@.len();
                                            if spec_match_lit(s, q, "true}"@) {
                                                Option::Some((
                                                    crate::model::ProjectV {
                                                        id,
                                                        title,
                                                        sessions: ss,
                                                        completed: true,
                                                    },
                                                    q + "true}"@.len(),
                                                ))
                                            } else if spec_match_lit(s, q, "false}"@) {
                                                Option::Some((
                                                    crate::model::ProjectV {
                                                        id,
                                                        title,
                                                        sessions: ss,
                                                        completed: false,
                                                    },
                                                    q + "false}"@.len(),
                                                ))
                                            } else {
                                                Option::None
                                            }
                                        }
                                    },
                                    Option::None => Option::None,
                                }
                            }
                        },
                        Option::None => Option::None,
                    }
                }
            },
            Option::None => Option::None,
        }
    }
}

pub fn parse_project(s: &Vec<char>, i: usize) -> (r: Option<(crate::model::Project, usize)>)
    requires
        i <= s@.len(),
    ensures
        match r {
            Option::Some((p, j)) => spec_parse_project(s@, i as int)
                == Option::Some((p@, j as int)) && i < j <= s@.len() && (forall|k: int|
                0 <= k < p@.sessions.len() ==> (#[trigger] p@.sessions[k]).wf()),
            Option::None => spec_parse_project(s@, i as int) is None,
        },
{
    proof {
        reveal(spec_parse_project);
        reveal_strlit("{\"id\":");
    }
    let j0 = match expect_lit(s, i, "{\"id\":") {
        Option::Some(j) => j,
        Option::None => {
            return Option::None;
        },
    };
    let (id, j) = match parse_u32(s, j0) {
        Option::Some(p) => p,
        Option::None => {
            return Option::None;
        },
    };
    let k0 = match expect_lit(s, j, ",\"title\":\"") {
        Option::Some(k) => k,
        Option::None => {
            return Option::None;
        },
    };
    let (title_chars, k) = match parse_jstr(s, k0) {
        Option::Some(p) => p,
        Option::None => {
            return Option::None;
        },
    };
    let m0 = match expect_lit(s, k, ",\"sessions\":") {
        Option::Some(m) => m,
        Option::None => {
            return Option::None;
        },
    };
    let (sessions, m) = match parse_sessions(s, m0) {
        Option::Some(p) => p,
        Option::None => {
            return Option::None;
        },
    };
    let q = match expect_lit(s, m, ",\"completed\":") {
        Option::Some(q) => q,
        Option::None => {
            return Option::None;
        },
    };
    let title = crate::chars::chars_to_string(&title_chars);
    match expect_lit(s, q, "true}") {
        Option::Some(j2) => {
            return Option::Some((
                crate::model::Project { id, title, sessions, completed: true },
                j2,
            ));
        },
        Option::None => {},
    }
    match expect_lit(s, q, "false}") {
        Option::Some(j2) => Option::Some((
            crate::model::Project { id, title, sessions, completed: false },
            j2,
        )),
        Option::None => Option::None,
    }
}

pub open spec fn spec_parse_projects_rest(
    s: Seq<char>,
    i: int,
    acc: Seq<crate::model::ProjectV>,
) -> Option<(Seq<crate::model::ProjectV>, int)>
    decreases s.len() - i,
{
    if i < 0 || i >= s.len() {
        Option::None
    } else if s[i] == ']' {
        Option::Some((acc, i + 1))
    } else if s[i] == ',' {
        match spec_parse_project(s, i + 1) {
            Option::Some((x, j)) => {
                if i + 1 < j && j <= s.len() {
                    spec_parse_projects_rest(s, j, acc.push(x))
                } else {
                    Option::None
                }
            },
            Option::None => Option::None,
        }
    } else {
        Option::None
    }
}

pub open spec fn spec_parse_projects(s: Seq<char>, i: int) -> Option<
    (Seq<crate::model::ProjectV>, int),
> {
    if 0 <= i && i < s.len() && s[i] == '[' {
        if i + 1 < s.len() && s[i + 1] == ']' {
            Option::Some((Seq::empty(), i + 2))
        } else {
            match spec_parse_project(s, i + 1) {
                Option::Some((x, j)) => {
                    if i + 1 < j && j <= s.len() {
                        spec_parse_projects_rest(s, j, seq![x])
                    } else {
                        Option::None
                    }
                },
                Option::None => Option::None,
            }
        }
    } else {
        Option::None
    }
}

/// The whole persisted text: one project array and nothing after it.
pub open spec fn spec_parse_collection(s: Seq<char>) -> Option<Seq<crate::model::ProjectV>> {
    match spec_parse_projects(s, 0) {
        Option::Some((ps, end)) => {
            if end == s.len() {
                Option::Some(ps)
            } else {
                Option::None
            }
        },
        Option::None => Option::None,
    }
}

pub fn parse_projects(s: &Vec<char>, i: usize) -> (r: Option<(Vec<crate::model::Project>, usize)>)
    requires
        i <= s@.len(),
    ensures
        match r {
            Option::Some((v, j)) => spec_parse_projects(s@, i as int)
                == Option::Some((crate::model::views(v@), j as int)) && i < j <= s@.len(),
            Option::None => spec_parse_projects(s@, i as int) is None,
        },
{
    let n = s.len();
    if i >= n || s[i] != '[' {
        return Option::None;
    }
    if i + 1 < n && s[i + 1] == ']' {
        let v: Vec<crate::model::Project> = Vec::new();
        proof {
            assert(crate::model::views(v@) =~= Seq::<crate::model::ProjectV>::empty());
        }
        return Option::Some((v, i + 2));
    }
    let mut acc: Vec<crate::model::Project> = Vec::new();
    let first = match parse_project(s, i + 1) {
        Option::Some(p) => p,
        Option::None => {
            return Option::None;
        },
    };
    let ghost fv = first.0@;
    acc.push(first.0);
    let mut cur: usize = first.1;
    proof {
        assert(crate::model::views(acc@) =~= seq![fv]);
    }
    loop
        invariant
            i < cur <= s@.len(),
            n == s@.len(),
            n <= usize::MAX,
            spec_parse_projects(s@, i as int) == spec_parse_projects_rest(
                s@,
                cur as int,
                crate::model::views(acc@),
            ),
        decreases s@.len() - cur,
    {
        if cur >= n {
            return Option::None;
        }
        let c = s[cur];
        if c == ']' {
            return Option::Some((acc, cur + 1));
        } else if c == ',' {
            let (x, j) = match parse_project(s, cur + 1) {
                Option::Some(p) => p,
                Option::None => {
                    return Option::None;
                },
            };
            proof {
                assert(spec_parse_projects_rest(s@, cur as int, crate::model::views(acc@))
                    == spec_parse_projects_rest(
                    s@,
                    j as int,
                    crate::model::views(acc@).push(x@),
                ));
                assert(crate::model::views(acc@.push(x)) =~= crate::model::views(acc@).push(x@));
            }
            acc.push(x);
            cur = j;
        } else {
            return Option::None;
        }
    }
}

/// What `load_projects` yields for a given text: the parsed collection
/// where the text has the schema's shape and the collection is well-formed,
/// and the empty collection otherwise.
pub open spec fn spec_load(s: Seq<char>) -> Seq<crate::model::ProjectV> {
    match spec_parse_collection(s) {
        Option::Some(ps) => {
            if crate::model::collection_wf(ps) {
                ps
            } else {
                Seq::empty()
            }
        },
        Option::None => Seq::empty(),
    }
}

/// Read a persisted text back into a collection. Text that is not exactly
/// the schema's shape, or that decodes to an ill-formed collection, yields
/// the empty collection: a bad store never blocks an operation.
pub fn load_projects(text: &str) -> (r: Vec<crate::model::Project>)
    ensures
        crate::model::views(r@) == spec_load(text@),
        crate::model::collection_wf(crate::model::views(r@)),
{
    let cs = crate::chars::string_chars(text);
    let parsed = match parse_projects(&cs, 0) {
        Option::Some((v, j)) => {
            if j == cs.len() {
                Option::Some(v)
            } else {
                Option::None
            }
        },
        Option::None => Option::None,
    };
    match parsed {
        Option::Some(v) => {
            if crate::model::collection_ok(&v) {
                v
            } else {
                let e: Vec<crate::model::Project> = Vec::new();
                proof {
                    assert(crate::model::views(e@) =~= Seq::<crate::model::ProjectV>::empty());
                }
                e
            }
        },
        Option::None => {
            let e: Vec<crate::model::Project> = Vec::new();
            proof {
                assert(crate::model::views(e@) =~= Seq::<crate::model::ProjectV>::empty());
            }
            e
        },
    }
}

} // verus!
