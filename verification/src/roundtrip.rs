//! The store round-trip: reading back what was written yields the same
//! collection, so saving a just-loaded store reproduces the text byte for
//! byte.

use vstd::prelude::*;
use crate::time::Timestamp;
use crate::model::{Session, ProjectV, collection_wf};
use crate::chars::{spec_digit, spec_dec, spec_pad2, spec_pad4};
use crate::parse::{is_digit, digit_val, val_of_digits, digits_end, spec_pow10, lemma_pow10_le,
    spec_parse_fixed, spec_parse_u32, spec_parse_ts, spec_parse_offset_into, spec_match_lit};
use crate::codec::{spec_emit_ts, spec_emit_offset, spec_escape, spec_escape_char, spec_hex_digit};
use crate::parse::{spec_parse_jstr, is_hex_digit, hex_val, spec_ctrl_char};
use crate::parse::{spec_parse_session, spec_parse_sessions, spec_parse_sessions_rest};
use crate::parse::{spec_parse_project, spec_parse_projects, spec_parse_projects_rest,
    spec_parse_collection, spec_load};
use crate::codec::{spec_emit_session, spec_emit_sessions, spec_emit_sessions_items};
use crate::codec::{spec_emit_project, spec_emit_projects_items, spec_save};

verus! {

/// The digits of a number read back as that number.
pub proof fn lemma_dec_inverts(n: int)
    requires
        0 <= n,
    ensures
        spec_dec(n).len() >= 1,
        forall|k: int| 0 <= k < spec_dec(n).len() ==> is_digit(#[trigger] spec_dec(n)[k]),
        val_of_digits(spec_dec(n)) == n,
    decreases n,
{
    if n < 10 {
        assert(spec_dec(n) == seq![spec_digit(n)]);
        assert(spec_dec(n).drop_last() =~= Seq::<char>::empty());
        assert(val_of_digits(Seq::<char>::empty()) == 0);
    } else {
        lemma_dec_inverts(n / 10);
        assert(spec_dec(n) == spec_dec(n / 10).push(spec_digit(n % 10)));
        assert(spec_dec(n).drop_last() =~= spec_dec(n / 10));
    }
}

/// A leading zero does not change the value of a digit string.
pub proof fn lemma_val_leading_zero(ds: Seq<char>)
    ensures
        val_of_digits(seq!['0'] + ds) == val_of_digits(ds),
    decreases ds.len(),
{
    if ds.len() == 0 {
        assert((seq!['0'] + ds) =~= seq!['0']);
        assert(seq!['0'].drop_last() =~= Seq::<char>::empty());
        assert(val_of_digits(Seq::<char>::empty()) == 0);
        assert(val_of_digits(seq!['0']) == 0);
    } else {
        lemma_val_leading_zero(ds.drop_last());
        assert((seq!['0'] + ds).drop_last() =~= seq!['0'] + ds.drop_last());
        assert((seq!['0'] + ds).last() == ds.last());
    }
}

/// `spec_pad2` is two digit chars whose value is the padded number.
pub proof fn lemma_pad2_inverts(n: int)
    requires
        0 <= n < 100,
    ensures
        spec_pad2(n).len() == 2,
        forall|k: int| 0 <= k < 2 ==> is_digit(#[trigger] spec_pad2(n)[k]),
        val_of_digits(spec_pad2(n)) == n,
{
    lemma_dec_inverts(n);
    if n < 10 {
        assert(spec_pad2(n) =~= seq!['0'] + spec_dec(n));
        lemma_val_leading_zero(spec_dec(n));
    } else {
        lemma_dec_inverts(n / 10);
    }
}

/// `spec_pad4` is four digit chars whose value is the padded number.
pub proof fn lemma_pad4_inverts(n: int)
    requires
        0 <= n <= 9999,
    ensures
        spec_pad4(n).len() == 4,
        forall|k: int| 0 <= k < 4 ==> is_digit(#[trigger] spec_pad4(n)[k]),
        val_of_digits(spec_pad4(n)) == n,
{
    lemma_dec_inverts(n);
    if n >= 10 {
        lemma_dec_inverts(n / 10);
    }
    if n >= 100 {
        lemma_dec_inverts(n / 100);
        assert(n / 10 / 10 == n / 100) by (nonlinear_arith)
            requires n >= 0;
    }
    if n >= 1000 {
        lemma_dec_inverts(n / 1000);
        assert(n / 100 / 10 == n / 1000) by (nonlinear_arith)
            requires n >= 0;
    }
    if n < 10 {
        assert(spec_pad4(n) =~= seq!['0'] + (seq!['0'] + (seq!['0'] + spec_dec(n))));
        lemma_val_leading_zero(spec_dec(n));
        lemma_val_leading_zero(seq!['0'] + spec_dec(n));
        lemma_val_leading_zero(seq!['0'] + (seq!['0'] + spec_dec(n)));
    } else if n < 100 {
        assert(spec_pad4(n) =~= seq!['0'] + (seq!['0'] + spec_dec(n)));
        lemma_val_leading_zero(spec_dec(n));
        lemma_val_leading_zero(seq!['0'] + spec_dec(n));
    } else if n < 1000 {
        assert(spec_pad4(n) =~= seq!['0'] + spec_dec(n));
        lemma_val_leading_zero(spec_dec(n));
    }
}

/// A slice that is exactly `spec_pad2(n)` parses as the two-digit value `n`.
pub proof fn lemma_parse_fixed2(s: Seq<char>, i: int, n: int)
    requires
        0 <= n < 100,
        0 <= i,
        i + 2 <= s.len(),
        s.subrange(i, i + 2) == spec_pad2(n),
    ensures
        spec_parse_fixed(s, i, 2) == Option::Some(n),
{
    lemma_pad2_inverts(n);
    assert forall|k: int| i <= k < i + 2 implies is_digit(s[k]) by {
        assert(s[k] == s.subrange(i, i + 2)[k - i]);
    }
}

/// A slice that is exactly `spec_pad4(n)` parses as the four-digit value `n`.
pub proof fn lemma_parse_fixed4(s: Seq<char>, i: int, n: int)
    requires
        0 <= n <= 9999,
        0 <= i,
        i + 4 <= s.len(),
        s.subrange(i, i + 4) == spec_pad4(n),
    ensures
        spec_parse_fixed(s, i, 4) == Option::Some(n),
{
    lemma_pad4_inverts(n);
    assert forall|k: int| i <= k < i + 4 implies is_digit(s[k]) by {
        assert(s[k] == s.subrange(i, i + 4)[k - i]);
    }
}

/// The emitted timestamp is always 25 chars.
pub proof fn lemma_emit_ts_len(t: Timestamp)
    requires
        t.wf(),
    ensures
        spec_emit_ts(t).len() == 25,
{
    lemma_pad4_inverts(t.year as int);
    lemma_pad2_inverts(t.month as int);
    lemma_pad2_inverts(t.day as int);
    lemma_pad2_inverts(t.hour as int);
    lemma_pad2_inverts(t.minute as int);
    lemma_pad2_inverts(t.second as int);
    let m = if t.offset_minutes >= 0 { t.offset_minutes as int } else { -(t.offset_minutes as int) };
    lemma_pad2_inverts(m / 60);
    lemma_pad2_inverts(m % 60);
}

/// Splitting a slice known to equal a two-part concatenation.
pub proof fn lemma_concat_slices(a: Seq<char>, b: Seq<char>, s: Seq<char>, i: int)
    requires
        0 <= i,
        i + a.len() + b.len() <= s.len(),
        s.subrange(i, i + a.len() + b.len()) == a + b,
    ensures
        s.subrange(i, i + a.len()) == a,
        s.subrange(i + a.len(), i + a.len() + b.len()) == b,
{
    assert forall|k: int| 0 <= k < a.len() implies s.subrange(i, i + a.len())[k] == a[k] by {
        assert(s.subrange(i, i + a.len() + b.len())[k] == (a + b)[k]);
    }
    assert(s.subrange(i, i + a.len()) =~= a);
    assert forall|k: int| 0 <= k < b.len() implies s.subrange(
        i + a.len(),
        i + a.len() + b.len(),
    )[k] == b[k] by {
        assert(s.subrange(i, i + a.len() + b.len())[a.len() + k] == (a + b)[a.len() + k]);
        assert((a + b)[a.len() + k] == b[k]);
        assert(s.subrange(i + a.len(), i + a.len() + b.len())[k] == s[i + a.len() + k]);
    }
    assert(s.subrange(i + a.len(), i + a.len() + b.len()) =~= b);
}

/// A slice that is exactly an emitted timestamp parses back to it, ending
/// right after its 25 chars.
#[verifier::rlimit(100)]
pub proof fn lemma_parse_ts_inverts(s: Seq<char>, i: int, t: Timestamp)
    requires
        t.wf(),
        0 <= i,
        i + 25 <= s.len(),
        s.subrange(i, i + 25) == spec_emit_ts(t),
    ensures
        spec_parse_ts(s, i) == Option::Some((t, i + 25)),
{
    lemma_pad4_inverts(t.year as int);
    lemma_pad2_inverts(t.month as int);
    lemma_pad2_inverts(t.day as int);
    lemma_pad2_inverts(t.hour as int);
    lemma_pad2_inverts(t.minute as int);
    lemma_pad2_inverts(t.second as int);
    let m = if t.offset_minutes >= 0 { t.offset_minutes as int } else { -(t.offset_minutes as int) };
    lemma_pad2_inverts(m / 60);
    lemma_pad2_inverts(m % 60);
    let p4 = spec_pad4(t.year as int);
    let pmo = spec_pad2(t.month as int);
    let pd = spec_pad2(t.day as int);
    let ph = spec_pad2(t.hour as int);
    let pmi = spec_pad2(t.minute as int);
    let psec = spec_pad2(t.second as int);
    let off = spec_emit_offset(t.offset_minutes as int);
    let sign: Seq<char> = if t.offset_minutes >= 0 { seq!['+'] } else { seq!['-'] };
    let poh = spec_pad2(m / 60);
    let pom = spec_pad2(m % 60);
    assert(off == sign + poh + seq![':'] + pom);
    assert(off.len() == 6);
    assert(spec_emit_ts(t)
        == p4 + seq!['-'] + pmo + seq!['-'] + pd + seq!['T'] + ph + seq![':'] + pmi + seq![':']
        + psec + off);
    lemma_concat_slices(
        p4 + seq!['-'] + pmo + seq!['-'] + pd + seq!['T'] + ph + seq![':'] + pmi + seq![':']
            + psec,
        off, s, i);
    lemma_concat_slices(
        p4 + seq!['-'] + pmo + seq!['-'] + pd + seq!['T'] + ph + seq![':'] + pmi + seq![':'],
        psec, s, i);
    lemma_concat_slices(
        p4 + seq!['-'] + pmo + seq!['-'] + pd + seq!['T'] + ph + seq![':'] + pmi,
        seq![':'], s, i);
    assert(p4 + seq!['-'] + pmo + seq!['-'] + pd + seq!['T'] + ph + seq![':'] + pmi
        =~= (p4 + seq!['-'] + pmo + seq!['-'] + pd + seq!['T'] + ph) + (seq![':'] + pmi));
    lemma_concat_slices(p4 + seq!['-'] + pmo + seq!['-'] + pd + seq!['T'] + ph, seq![':'] + pmi,
        s, i);
    lemma_concat_slices(seq![':'], pmi, s, i + 13);
    lemma_concat_slices(p4 + seq!['-'] + pmo + seq!['-'] + pd + seq!['T'], ph, s, i);
    lemma_concat_slices(p4 + seq!['-'] + pmo + seq!['-'] + pd, seq!['T'], s, i);
    lemma_concat_slices(p4 + seq!['-'] + pmo + seq!['-'], pd, s, i);
    lemma_concat_slices(p4 + seq!['-'] + pmo, seq!['-'], s, i);
    lemma_concat_slices(p4 + seq!['-'], pmo, s, i);
    lemma_concat_slices(p4, seq!['-'], s, i);
    lemma_concat_slices(sign + poh + seq![':'], pom, s, i + 19);
    lemma_concat_slices(sign + poh, seq![':'], s, i + 19);
    lemma_concat_slices(sign, poh, s, i + 19);
    lemma_parse_fixed4(s, i, t.year as int);
    lemma_parse_fixed2(s, i + 5, t.month as int);
    lemma_parse_fixed2(s, i + 8, t.day as int);
    lemma_parse_fixed2(s, i + 11, t.hour as int);
    lemma_parse_fixed2(s, i + 14, t.minute as int);
    lemma_parse_fixed2(s, i + 17, t.second as int);
    assert(s.subrange(i + 4, i + 5) == seq!['-']);
    assert(s[i + 4] == s.subrange(i + 4, i + 5)[0]);
    assert(s[i + 7] == s.subrange(i + 7, i + 8)[0]);
    assert(s[i + 10] == s.subrange(i + 10, i + 11)[0]);
    assert(s[i + 13] == s.subrange(i + 13, i + 14)[0]);
    assert(s[i + 16] == s.subrange(i + 16, i + 17)[0]);
    assert(s[i + 19] == s.subrange(i + 19, i + 20)[0]);
    assert(s[i + 19] == (if t.offset_minutes >= 0 { '+' } else { '-' }));
    assert(s[i + 19] != '.');
    let k = i + 19;
    lemma_parse_fixed2(s, k + 1, m / 60);
    assert(s[k + 3] == s.subrange(k + 3, k + 4)[0]);
    assert(s[k + 3] == ':');
    lemma_parse_fixed2(s, k + 4, m % 60);
    assert(m % 60 <= 59);
    assert((m / 60) * 60 + m % 60 == m);
    assert(spec_parse_offset_into(s, k, t.year as int, t.month as int, t.day as int,
        t.hour as int, t.minute as int, t.second as int) == Option::Some((t, k + 6)));
}



/// A digit run bounded by a non-digit ends exactly at `j`.
pub proof fn lemma_digits_run(s: Seq<char>, i: int, j: int)
    requires
        0 <= i <= j <= s.len(),
        forall|k: int| i <= k < j ==> is_digit(s[k]),
        j == s.len() || !is_digit(s[j]),
    ensures
        digits_end(s, i) == j,
    decreases j - i,
{
    if i < j {
        lemma_digits_run(s, i + 1, j);
    }
}

/// At most `k` digits render a number below the `k`-th power of ten.
pub proof fn lemma_dec_len(n: int, k: nat)
    requires
        0 <= n < spec_pow10(k),
        k >= 1,
    ensures
        spec_dec(n).len() <= k,
    decreases n,
{
    if n >= 10 {
        assert(spec_pow10(k) == 10 * spec_pow10((k - 1) as nat));
        lemma_pow10_le(1, (k - 1) as nat);
        lemma_dec_len(n / 10, (k - 1) as nat);
    }
}

/// A slice that is exactly the digits of `n`, followed by a non-digit,
/// parses back as the number `n`.
pub proof fn lemma_parse_u32_of_dec(s: Seq<char>, i: int, n: u32)
    requires
        0 <= i,
        i + spec_dec(n as int).len() <= s.len(),
        s.subrange(i, i + spec_dec(n as int).len()) == spec_dec(n as int),
        i + spec_dec(n as int).len() == s.len()
            || !is_digit(s[i + spec_dec(n as int).len()]),
    ensures
        spec_parse_u32(s, i) == Option::Some((n, i + spec_dec(n as int).len())),
{
    lemma_dec_inverts(n as int);
    let d = spec_dec(n as int);
    assert forall|k: int| i <= k < i + d.len() implies is_digit(s[k]) by {
        assert(s[k] == s.subrange(i, i + d.len())[k - i]);
    }
    lemma_digits_run(s, i, i + d.len());
    assert(spec_pow10(10nat) == 10000000000) by {
        reveal_with_fuel(spec_pow10, 11);
    };
    lemma_dec_len(n as int, 10nat);
    assert(val_of_digits(s.subrange(i, i + d.len())) == n);
}

/// `spec_escape` taken apart at its first char.
pub proof fn lemma_escape_first(t: Seq<char>)
    requires
        t.len() > 0,
    ensures
        spec_escape(t) == spec_escape_char(t[0]) + spec_escape(t.subrange(1, t.len() as int)),
    decreases t.len(),
{
    if t.len() == 1 {
        assert(t.drop_last() =~= Seq::<char>::empty());
        assert(spec_escape(Seq::<char>::empty()) == Seq::<char>::empty());
        assert(spec_escape(t) =~= spec_escape_char(t[0]));
        assert(t.subrange(1, 1) =~= Seq::<char>::empty());
        assert(spec_escape(t) =~= spec_escape_char(t[0]) + spec_escape(t.subrange(1, 1)));
    } else {
        lemma_escape_first(t.drop_last());
        assert(t.drop_last()[0] == t[0]);
        assert(t.drop_last().subrange(1, t.len() - 1) =~= t.subrange(1, t.len() as int).drop_last());
        assert(spec_escape(t) == spec_escape(t.drop_last()) + spec_escape_char(t.last()));
        assert(spec_escape(t.subrange(1, t.len() as int))
            == spec_escape(t.subrange(1, t.len() as int).drop_last())
            + spec_escape_char(t.subrange(1, t.len() as int).last()));
        assert(t.subrange(1, t.len() as int).last() == t.last());
        assert(spec_escape(t) =~= spec_escape_char(t[0]) + spec_escape(t.subrange(1, t.len() as int)));
    }
}

/// A slice that is exactly an escaped title and its closing quote parses
/// back to the title, ending right after the quote.
#[verifier::rlimit(100)]
pub proof fn lemma_parse_jstr_inverts(s: Seq<char>, i: int, t: Seq<char>)
    requires
        0 <= i,
        i + spec_escape(t).len() + 1 <= s.len(),
        s.subrange(i, i + spec_escape(t).len() + 1) == spec_escape(t) + seq!['"'],
    ensures
        spec_parse_jstr(s, i) == Option::Some((t, i + spec_escape(t).len() + 1)),
    decreases t.len(),
{
    let e = spec_escape(t);
    if t.len() == 0 {
        assert(e =~= Seq::<char>::empty());
        assert(s[i] == s.subrange(i, i + 1)[0]);
        assert((e + seq!['"'])[0] == '"');
        assert(s[i] == '"');
    } else {
        let c = t[0];
        let ec = spec_escape_char(c);
        let rest = t.subrange(1, t.len() as int);
        lemma_escape_first(t);
        assert(e == ec + spec_escape(rest));
        let er = spec_escape(rest);
        assert((ec + er) + seq!['"'] =~= ec + (er + seq!['"']));
        lemma_concat_slices(ec, er + seq!['"'], s, i);
        let i2 = i + ec.len();
        lemma_parse_jstr_inverts(s, i2, rest);
        assert(spec_parse_jstr(s, i2) == Option::Some((rest, i + e.len() + 1)));
        assert forall|k: int| 0 <= k < ec.len() implies s[i + k] == ec[k] by {
            assert(s.subrange(i, i + ec.len())[k] == ec[k]);
        }
        assert(seq![c] + rest =~= t);
        if c == '"' || c == '\\' || c == '\u{8}' || c == '\u{c}' || c == '\n' || c == '\r'
            || c == '\t' {
            assert(spec_parse_jstr(s, i) == Option::Some((t, i + e.len() + 1)));
        } else if (c as u32) < 32 {
            let w = c as u32 as int;
            assert(ec[0] == '\\' && ec[1] == 'u' && ec[2] == '0' && ec[3] == '0');
            assert(ec[4] == spec_hex_digit(w / 16) && ec[5] == spec_hex_digit(w % 16));
            assert(is_hex_digit(spec_hex_digit(w / 16)));
            assert(is_hex_digit(spec_hex_digit(w % 16)));
            assert(hex_val(spec_hex_digit(w / 16)) == w / 16);
            assert(hex_val(spec_hex_digit(w % 16)) == w % 16);
            assert((w / 16) * 16 + w % 16 == w);
            assert(spec_ctrl_char(w) as u32 == w);
            assert(spec_ctrl_char(w) as u32 == c as u32);
            lemma_char_code_injective(spec_ctrl_char(w), c);
            assert(spec_ctrl_char(w) == c);
            assert(spec_parse_jstr(s, i) == Option::Some((t, i + e.len() + 1)));
        } else {
            assert(ec =~= seq![c]);
            assert(s[i] == c);
            assert(spec_parse_jstr(s, i) == Option::Some((t, i + e.len() + 1)));
        }
    }
}

/// Two chars with the same code point are the same char.
proof fn lemma_char_code_injective(a: char, b: char)
    requires
        a as u32 == b as u32,
    ensures
        a == b,
{
}


/// A slice that is exactly an emitted session record parses back to it.
#[verifier::rlimit(100)]
pub proof fn lemma_parse_session_inverts(s: Seq<char>, i: int, x: Session)
    requires
        x.wf(),
        0 <= i,
        i + spec_emit_session(x).len() <= s.len(),
        s.subrange(i, i + spec_emit_session(x).len()) == spec_emit_session(x),
    ensures
        spec_parse_session(s, i) == Option::Some((x, i + spec_emit_session(x).len())),
        spec_emit_session(x).len() >= 1,
{
    reveal_strlit("{\"start_time\":\"");
    reveal_strlit("\",\"end_time\":");
    reveal_strlit("null");
    reveal_strlit("null}");
    reveal_strlit("\"}");
    let l1 = "{\"start_time\":\""@;
    let l2 = "\",\"end_time\":"@;
    let t1 = spec_emit_ts(x.start_time);
    lemma_emit_ts_len(x.start_time);
    let mid = match x.end_time {
        Option::Some(e) => seq!['"'] + spec_emit_ts(e) + seq!['"'],
        Option::None => "null"@,
    };
    let e = spec_emit_session(x);
    assert(e == l1 + t1 + l2 + mid + seq!['}']);
    match x.end_time {
        Option::Some(et) => {
            lemma_emit_ts_len(et);
        },
        Option::None => {},
    }
    lemma_concat_slices(l1 + t1 + l2 + mid, seq!['}'], s, i);
    lemma_concat_slices(l1 + t1 + l2, mid, s, i);
    lemma_concat_slices(l1 + t1, l2, s, i);
    lemma_concat_slices(l1, t1, s, i);
    assert(spec_match_lit(s, i, l1));
    lemma_parse_ts_inverts(s, i + l1.len(), x.start_time);
    let j = i + l1.len() + 25;
    assert(spec_match_lit(s, j, l2));
    let k = j + l2.len();
    match x.end_time {
        Option::None => {
            assert(s.subrange(k, k + 4) == "null"@);
            assert(s[k + 4] == s.subrange(k + 4, k + 5)[0]);
            assert(s[k + 4] == '}');
            assert forall|q: int| 0 <= q < 5 implies s.subrange(k, k + 5)[q] == "null}"@[q] by {
                if q < 4 {
                    assert(s.subrange(k, k + 4)[q] == "null"@[q]);
                }
            }
            assert(s.subrange(k, k + 5) =~= "null}"@);
            assert(spec_match_lit(s, k, "null}"@));
        },
        Option::Some(et) => {
            let t2 = spec_emit_ts(et);
            assert(mid =~= seq!['"'] + (t2 + seq!['"']));
            lemma_concat_slices(seq!['"'], t2 + seq!['"'], s, k);
            lemma_concat_slices(t2, seq!['"'], s, k + 1);
            assert(s[k] == s.subrange(k, k + 1)[0]);
            assert(s[k] == '"');
            assert(!spec_match_lit(s, k, "null}"@)) by {
                if spec_match_lit(s, k, "null}"@) {
                    assert(s.subrange(k, k + 5)[0] == 'n');
                }
            }
            lemma_parse_ts_inverts(s, k + 1, et);
            let m = k + 1 + 25;
            assert(s[m] == s.subrange(m, m + 1)[0]);
            assert(s[m + 1] == s.subrange(m + 1, m + 2)[0]);
            assert(s[m + 1] == '}');
            assert forall|q: int| 0 <= q < 2 implies s.subrange(m, m + 2)[q] == "\"}"@[q] by {
            }
            assert(s.subrange(m, m + 2) =~= "\"}"@);
            assert(spec_match_lit(s, m, "\"}"@));
        },
    }
}

/// The comma-prefixed tail of a session array, one record per element.
pub open spec fn spec_sessions_tail(ss: Seq<Session>) -> Seq<char>
    decreases ss.len(),
{
    if ss.len() == 0 {
        Seq::empty()
    } else {
        seq![','] + spec_emit_session(ss[0]) + spec_sessions_tail(ss.subrange(1, ss.len() as int))
    }
}

pub proof fn lemma_sessions_tail_snoc(u: Seq<Session>, x: Session)
    ensures
        spec_sessions_tail(u.push(x)) == spec_sessions_tail(u) + seq![','] + spec_emit_session(x),
    decreases u.len(),
{
    if u.len() == 0 {
        assert(u.push(x)[0] == x);
        assert(u.push(x).subrange(1, 1) =~= Seq::<Session>::empty());
        assert(spec_sessions_tail(Seq::<Session>::empty()) == Seq::<char>::empty());
        assert(spec_sessions_tail(u.push(x))
            =~= spec_sessions_tail(u) + seq![','] + spec_emit_session(x));
    } else {
        lemma_sessions_tail_snoc(u.subrange(1, u.len() as int), x);
        assert(u.push(x).subrange(1, u.len() as int + 1) =~= u.subrange(1, u.len() as int).push(x));
        assert(u.push(x)[0] == u[0]);
        assert(spec_sessions_tail(u.push(x))
            =~= spec_sessions_tail(u) + seq![','] + spec_emit_session(x));
    }
}

/// The items of a session array, taken apart at the first record.
pub proof fn lemma_sessions_items_front(ss: Seq<Session>)
    requires
        ss.len() > 0,
    ensures
        spec_emit_sessions_items(ss) == spec_emit_session(ss[0])
            + spec_sessions_tail(ss.subrange(1, ss.len() as int)),
    decreases ss.len(),
{
    if ss.len() == 1 {
        assert(ss.subrange(1, 1) =~= Seq::<Session>::empty());
        assert(spec_sessions_tail(Seq::<Session>::empty()) == Seq::<char>::empty());
        assert(spec_emit_sessions_items(ss)
            =~= spec_emit_session(ss[0]) + spec_sessions_tail(ss.subrange(1, ss.len() as int)));
    } else {
        let dl = ss.drop_last();
        lemma_sessions_items_front(dl);
        assert(dl[0] == ss[0]);
        lemma_sessions_tail_snoc(dl.subrange(1, dl.len() as int), ss.last());
        assert(ss.subrange(1, ss.len() as int) =~= dl.subrange(1, dl.len() as int).push(ss.last()));
        assert(spec_emit_sessions_items(ss)
            == spec_emit_sessions_items(dl) + seq![','] + spec_emit_session(ss.last()));
        assert(spec_emit_sessions_items(ss)
            =~= spec_emit_session(ss[0]) + spec_sessions_tail(ss.subrange(1, ss.len() as int)));
    }
}

/// A slice that is a session-array tail and the closing bracket drives the
/// rest-parser to append exactly those sessions.
#[verifier::rlimit(100)]
pub proof fn lemma_parse_sessions_rest_inverts(
    s: Seq<char>,
    j: int,
    acc: Seq<Session>,
    remaining: Seq<Session>,
)
    requires
        0 <= j,
        forall|q: int| 0 <= q < remaining.len() ==> (#[trigger] remaining[q]).wf(),
        j + spec_sessions_tail(remaining).len() + 1 <= s.len(),
        s.subrange(j, j + spec_sessions_tail(remaining).len() + 1)
            == spec_sessions_tail(remaining) + seq![']'],
    ensures
        spec_parse_sessions_rest(s, j, acc) == Option::Some((
            acc + remaining,
            j + spec_sessions_tail(remaining).len() + 1,
        )),
    decreases remaining.len(),
{
    if remaining.len() == 0 {
        assert(spec_sessions_tail(remaining) == Seq::<char>::empty());
        assert(s[j] == s.subrange(j, j + 1)[0]);
        assert(s[j] == ']');
        assert(acc + remaining =~= acc);
    } else {
        let x = remaining[0];
        let rest = remaining.subrange(1, remaining.len() as int);
        let ex = spec_emit_session(x);
        let tl = spec_sessions_tail(rest);
        assert(spec_sessions_tail(remaining) == seq![','] + ex + tl);
        lemma_comma_item_slices(s, j, ex, tl);
        assert(s[j] != ']');
        lemma_parse_session_inverts(s, j + 1, x);
        let j2: int = j + 1 + ex.len() as int;
        lemma_parse_sessions_rest_inverts(s, j2, acc.push(x), rest);
        assert(acc.push(x) + rest =~= acc + remaining);
    }
}

/// A slice that is exactly an emitted session array parses back to it.
/// The emitted session array of a non-empty list, split at its first record.
#[verifier::rlimit(100)]
pub proof fn lemma_sessions_slices(s: Seq<char>, i: int, ss: Seq<Session>)
    requires
        0 <= i,
        ss.len() > 0,
        i + spec_emit_sessions(ss).len() <= s.len(),
        s.subrange(i, i + spec_emit_sessions(ss).len()) == spec_emit_sessions(ss),
    ensures
        ({
            let ex = spec_emit_session(ss[0]);
            let tl = spec_sessions_tail(ss.subrange(1, ss.len() as int));
            &&& spec_emit_sessions(ss).len() == 2 + ex.len() + tl.len()
            &&& s[i] == '['
            &&& s.subrange(i + 1, i + 1 + ex.len() as int) == ex
            &&& s.subrange(i + 1 + ex.len() as int, i + spec_emit_sessions(ss).len())
                == tl + seq![']']
        }),
{
    let e = spec_emit_sessions(ss);
    let items = spec_emit_sessions_items(ss);
    assert(e == seq!['['] + items + seq![']']);
    lemma_sessions_items_front(ss);
    let ex = spec_emit_session(ss[0]);
    let tl = spec_sessions_tail(ss.subrange(1, ss.len() as int));
    assert(items == ex + tl);
    assert(s.subrange(i, i + e.len()) == (seq!['['] + items) + seq![']']);
    assert((seq!['['] + items) + seq![']'] =~= seq!['['] + (ex + (tl + seq![']'])));
    lemma_concat_slices(seq!['['], ex + (tl + seq![']']), s, i);
    lemma_concat_slices(ex, tl + seq![']'], s, i + 1);
    assert(s[i] == s.subrange(i, i + 1)[0]);
}

#[verifier::rlimit(100)]
pub proof fn lemma_parse_sessions_inverts_nonempty(s: Seq<char>, i: int, ss: Seq<Session>)
    requires
        0 <= i,
        ss.len() > 0,
        forall|q: int| 0 <= q < ss.len() ==> (#[trigger] ss[q]).wf(),
        i + spec_emit_sessions(ss).len() <= s.len(),
        s.subrange(i, i + spec_emit_sessions(ss).len()) == spec_emit_sessions(ss),
    ensures
        spec_parse_sessions(s, i) == Option::Some((ss, i + spec_emit_sessions(ss).len())),
{
    lemma_sessions_slices(s, i, ss);
    reveal_strlit("{\"start_time\":\"");
    let x = ss[0];
    let ex = spec_emit_session(x);
    let rest = ss.subrange(1, ss.len() as int);
    lemma_parse_session_inverts(s, i + 1, x);
    assert(s[i + 1] == s.subrange(i + 1, i + 1 + ex.len() as int)[0]);
    assert(ex[0] == '{');
    assert(s[i + 1] == '{');
    assert(s[i + 1] != ']');
    let j: int = i + 1 + ex.len() as int;
    lemma_parse_sessions_rest_inverts(s, j, seq![x], rest);
    assert(seq![x] + rest =~= ss);
}

/// A slice that is exactly an emitted session array parses back to it.
pub proof fn lemma_parse_sessions_inverts(s: Seq<char>, i: int, ss: Seq<Session>)
    requires
        0 <= i,
        forall|q: int| 0 <= q < ss.len() ==> (#[trigger] ss[q]).wf(),
        i + spec_emit_sessions(ss).len() <= s.len(),
        s.subrange(i, i + spec_emit_sessions(ss).len()) == spec_emit_sessions(ss),
    ensures
        spec_parse_sessions(s, i) == Option::Some((ss, i + spec_emit_sessions(ss).len())),
{
    let e = spec_emit_sessions(ss);
    let items = spec_emit_sessions_items(ss);
    assert(e == seq!['['] + items + seq![']']);
    if ss.len() == 0 {
        assert(items == Seq::<char>::empty());
        assert(e =~= seq!['[', ']']);
        assert(s[i] == s.subrange(i, i + 2)[0]);
        assert(s[i + 1] == s.subrange(i, i + 2)[1]);
        assert(s[i] == '[' && s[i + 1] == ']');
        assert(Seq::<Session>::empty() =~= ss);
    } else {
        lemma_parse_sessions_inverts_nonempty(s, i, ss);
    }
}


/// Splitting a slice known to equal a nine-part concatenation, at each seam.
#[verifier::rlimit(100)]
pub proof fn lemma_peel9(
    s: Seq<char>,
    i: int,
    a1: Seq<char>, a2: Seq<char>, a3: Seq<char>, a4: Seq<char>, a5: Seq<char>,
    a6: Seq<char>, a7: Seq<char>, a8: Seq<char>, a9: Seq<char>,
)
    requires
        0 <= i,
        i + a1.len() + a2.len() + a3.len() + a4.len() + a5.len() + a6.len() + a7.len()
            + a8.len() + a9.len() <= s.len(),
        s.subrange(
            i,
            i + a1.len() + a2.len() + a3.len() + a4.len() + a5.len() + a6.len() + a7.len()
                + a8.len() + a9.len(),
        ) == a1 + a2 + a3 + a4 + a5 + a6 + a7 + a8 + a9,
    ensures
        s.subrange(i, i + a1.len()) == a1,
        s.subrange(i + a1.len(), i + a1.len() + a2.len()) == a2,
        s.subrange(i + a1.len() + a2.len(), i + a1.len() + a2.len() + a3.len()) == a3,
        s.subrange(
            i + a1.len() + a2.len() + a3.len(),
            i + a1.len() + a2.len() + a3.len() + a4.len(),
        ) == a4,
        s.subrange(
            i + a1.len() + a2.len() + a3.len() + a4.len(),
            i + a1.len() + a2.len() + a3.len() + a4.len() + a5.len(),
        ) == a5,
        s.subrange(
            i + a1.len() + a2.len() + a3.len() + a4.len() + a5.len(),
            i + a1.len() + a2.len() + a3.len() + a4.len() + a5.len() + a6.len(),
        ) == a6,
        s.subrange(
            i + a1.len() + a2.len() + a3.len() + a4.len() + a5.len() + a6.len(),
            i + a1.len() + a2.len() + a3.len() + a4.len() + a5.len() + a6.len() + a7.len(),
        ) == a7,
        s.subrange(
            i + a1.len() + a2.len() + a3.len() + a4.len() + a5.len() + a6.len() + a7.len(),
            i + a1.len() + a2.len() + a3.len() + a4.len() + a5.len() + a6.len() + a7.len()
                + a8.len(),
        ) == a8,
        s.subrange(
            i + a1.len() + a2.len() + a3.len() + a4.len() + a5.len() + a6.len() + a7.len()
                + a8.len(),
            i + a1.len() + a2.len() + a3.len() + a4.len() + a5.len() + a6.len() + a7.len()
                + a8.len() + a9.len(),
        ) == a9,
{
    lemma_concat_slices(a1 + a2 + a3 + a4 + a5 + a6 + a7 + a8, a9, s, i);
    lemma_concat_slices(a1 + a2 + a3 + a4 + a5 + a6 + a7, a8, s, i);
    lemma_concat_slices(a1 + a2 + a3 + a4 + a5 + a6, a7, s, i);
    lemma_concat_slices(a1 + a2 + a3 + a4 + a5, a6, s, i);
    lemma_concat_slices(a1 + a2 + a3 + a4, a5, s, i);
    lemma_concat_slices(a1 + a2 + a3, a4, s, i);
    lemma_concat_slices(a1 + a2, a3, s, i);
    lemma_concat_slices(a1, a2, s, i);
}

/// Locating the id and title inside an emitted project record.
#[verifier::rlimit(100)]
pub proof fn lemma_project_prefix_facts(s: Seq<char>, i: int, p: ProjectV)
    requires
        p.wf(),
        0 <= i,
        i + spec_emit_project(p).len() <= s.len(),
        s.subrange(i, i + spec_emit_project(p).len()) == spec_emit_project(p),
    ensures
        spec_match_lit(s, i, "{\"id\":"@),
        spec_parse_u32(s, i + "{\"id\":"@.len()) == Option::Some((
            p.id,
            i + "{\"id\":"@.len() + spec_dec(p.id as int).len(),
        )),
        spec_match_lit(
            s,
            i + "{\"id\":"@.len() + spec_dec(p.id as int).len(),
            ",\"title\":\""@,
        ),
        spec_parse_jstr(
            s,
            i + "{\"id\":"@.len() + spec_dec(p.id as int).len() + ",\"title\":\""@.len(),
        ) == Option::Some((
            p.title,
            i + "{\"id\":"@.len() + spec_dec(p.id as int).len() + ",\"title\":\""@.len()
                + spec_escape(p.title).len() + 1,
        )),
{
    reveal_strlit("{\"id\":");
    reveal_strlit(",\"title\":\"");
    reveal_strlit("\",\"sessions\":");
    let l1 = "{\"id\":"@;
    let l2 = ",\"title\":\""@;
    let l3 = "\",\"sessions\":"@;
    let l4 = ",\"completed\":"@;
    let d = spec_dec(p.id as int);
    let esc = spec_escape(p.title);
    let sess = spec_emit_sessions(p.sessions);
    let b: Seq<char> = if p.completed { "true"@ } else { "false"@ };
    let e = spec_emit_project(p);
    assert(e == l1 + d + l2 + esc + l3 + sess + l4 + b + seq!['}']) by {
        reveal(spec_emit_project);
    }
    lemma_dec_inverts(p.id as int);
    lemma_peel9(s, i, l1, d, l2, esc, l3, sess, l4, b, seq!['}']);
    assert(spec_match_lit(s, i, l1));
    let i1 = i + l1.len();
    let j = i1 + d.len();
    assert(s[j] == s.subrange(j, j + l2.len())[0]);
    assert(s[j] == ',');
    assert(!is_digit(','));
    lemma_parse_u32_of_dec(s, i1, p.id);
    assert(spec_match_lit(s, j, l2));
    let k0 = j + l2.len();
    let k1 = k0 + esc.len();
    assert(s.subrange(k1, k1 + l3.len()) == l3);
    assert forall|q: int| 0 <= q < esc.len() + 1 implies s.subrange(k0, k1 + 1)[q] == (esc
        + seq!['"'])[q] by {
        if q < esc.len() {
            assert(s.subrange(k0, k1)[q] == esc[q]);
        } else {
            assert(s.subrange(k1, k1 + l3.len())[0] == l3[0]);
        }
    }
    assert(s.subrange(k0, k1 + 1) =~= esc + seq!['"']);
    lemma_parse_jstr_inverts(s, k0, p.title);
}

/// Locating the sessions and the completed flag inside an emitted record.
#[verifier::rlimit(100)]
pub proof fn lemma_project_suffix_facts(s: Seq<char>, i: int, p: ProjectV)
    requires
        p.wf(),
        0 <= i,
        i + spec_emit_project(p).len() <= s.len(),
        s.subrange(i, i + spec_emit_project(p).len()) == spec_emit_project(p),
    ensures
        ({
            let k1 = i + "{\"id\":"@.len() + spec_dec(p.id as int).len() + ",\"title\":\""@.len()
                + spec_escape(p.title).len();
            let m0 = k1 + 1 + ",\"sessions\":"@.len();
            let m1 = m0 + spec_emit_sessions(p.sessions).len();
            let q0 = m1 + ",\"completed\":"@.len();
            &&& spec_match_lit(s, k1 + 1, ",\"sessions\":"@)
            &&& spec_parse_sessions(s, m0) == Option::Some((p.sessions, m1))
            &&& spec_match_lit(s, m1, ",\"completed\":"@)
        }),
{
    reveal_strlit("{\"id\":");
    reveal_strlit(",\"title\":\"");
    reveal_strlit("\",\"sessions\":");
    reveal_strlit(",\"completed\":");
    reveal_strlit(",\"sessions\":");
    reveal_strlit("true");
    reveal_strlit("false");
    reveal_strlit("true}");
    reveal_strlit("false}");
    let l1 = "{\"id\":"@;
    let l2 = ",\"title\":\""@;
    let l3 = "\",\"sessions\":"@;
    let l4 = ",\"completed\":"@;
    let d = spec_dec(p.id as int);
    let esc = spec_escape(p.title);
    let sess = spec_emit_sessions(p.sessions);
    let b: Seq<char> = if p.completed { "true"@ } else { "false"@ };
    let e = spec_emit_project(p);
    assert(e == l1 + d + l2 + esc + l3 + sess + l4 + b + seq!['}']) by {
        reveal(spec_emit_project);
    }
    lemma_peel9(s, i, l1, d, l2, esc, l3, sess, l4, b, seq!['}']);
    let k0 = i + l1.len() + d.len() + l2.len();
    let k1 = k0 + esc.len();
    assert(s.subrange(k1, k1 + l3.len()) == l3);
    assert forall|q: int| 0 <= q < l3.len() - 1 implies s.subrange(k1 + 1, k1 + l3.len())[q]
        == ",\"sessions\":"@[q] by {
        assert(s.subrange(k1, k1 + l3.len())[q + 1] == l3[q + 1]);
        assert(l3[q + 1] == ",\"sessions\":"@[q]);
    }
    assert(s.subrange(k1 + 1, k1 + l3.len()) =~= ",\"sessions\":"@);
    assert(spec_match_lit(s, k1 + 1, ",\"sessions\":"@));
    let m0 = k1 + l3.len();
    assert(m0 == (k1 + 1) + ",\"sessions\":"@.len());
    assert forall|q: int| 0 <= q < p.sessions.len() implies (#[trigger] p.sessions[q]).wf() by {
        assert(p.sessions[q].wf());
    }
    lemma_parse_sessions_inverts(s, m0, p.sessions);
    let m1 = m0 + sess.len();
    assert(spec_match_lit(s, m1, l4));
}

/// Locating the completed flag and the record's end.
#[verifier::rlimit(100)]
pub proof fn lemma_project_bool_facts(s: Seq<char>, i: int, p: ProjectV)
    requires
        p.wf(),
        0 <= i,
        i + spec_emit_project(p).len() <= s.len(),
        s.subrange(i, i + spec_emit_project(p).len()) == spec_emit_project(p),
    ensures
        ({
            let q0 = i + "{\"id\":"@.len() + spec_dec(p.id as int).len() + ",\"title\":\""@.len()
                + spec_escape(p.title).len() + "\",\"sessions\":"@.len()
                + spec_emit_sessions(p.sessions).len() + ",\"completed\":"@.len();
            &&& (p.completed ==> spec_match_lit(s, q0, "true}"@)
                && q0 + "true}"@.len() == i + spec_emit_project(p).len())
            &&& (!p.completed ==> !spec_match_lit(s, q0, "true}"@)
                && spec_match_lit(s, q0, "false}"@)
                && q0 + "false}"@.len() == i + spec_emit_project(p).len())
        }),
{
    reveal_strlit("true");
    reveal_strlit("false");
    reveal_strlit("true}");
    reveal_strlit("false}");
    let l1 = "{\"id\":"@;
    let l2 = ",\"title\":\""@;
    let l3 = "\",\"sessions\":"@;
    let l4 = ",\"completed\":"@;
    let d = spec_dec(p.id as int);
    let esc = spec_escape(p.title);
    let sess = spec_emit_sessions(p.sessions);
    let b: Seq<char> = if p.completed { "true"@ } else { "false"@ };
    let e = spec_emit_project(p);
    assert(e == l1 + d + l2 + esc + l3 + sess + l4 + b + seq!['}']) by {
        reveal(spec_emit_project);
    }
    lemma_peel9(s, i, l1, d, l2, esc, l3, sess, l4, b, seq!['}']);
    let q0 = i + l1.len() + d.len() + l2.len() + esc.len() + l3.len() + sess.len() + l4.len();
    if p.completed {
        assert(s.subrange(q0, q0 + 4) == "true"@);
        assert(s[q0 + 4] == s.subrange(q0 + 4, q0 + 5)[0]);
        assert(s[q0 + 4] == '}');
        assert forall|q: int| 0 <= q < 5 implies s.subrange(q0, q0 + 5)[q] == "true}"@[q] by {
            if q < 4 {
                assert(s.subrange(q0, q0 + 4)[q] == "true"@[q]);
            }
        }
        assert(s.subrange(q0, q0 + 5) =~= "true}"@);
        assert(spec_match_lit(s, q0, "true}"@));
    } else {
        assert(s.subrange(q0, q0 + 5) == "false"@);
        assert(s[q0 + 5] == s.subrange(q0 + 5, q0 + 6)[0]);
        assert(s[q0 + 5] == '}');
        assert(s[q0] == s.subrange(q0, q0 + 5)[0]);
        assert(s[q0] == 'f');
        assert(!spec_match_lit(s, q0, "true}"@)) by {
            if spec_match_lit(s, q0, "true}"@) {
                assert(s.subrange(q0, q0 + 5)[0] == 't');
            }
        }
        assert forall|q: int| 0 <= q < 6 implies s.subrange(q0, q0 + 6)[q] == "false}"@[q] by {
            if q < 5 {
                assert(s.subrange(q0, q0 + 5)[q] == "false"@[q]);
            }
        }
        assert(s.subrange(q0, q0 + 6) =~= "false}"@);
        assert(spec_match_lit(s, q0, "false}"@));
    }
}

/// A slice that is exactly an emitted project record parses back to it.
#[verifier::rlimit(100)]
pub proof fn lemma_parse_project_inverts(s: Seq<char>, i: int, p: ProjectV)
    requires
        p.wf(),
        0 <= i,
        i + spec_emit_project(p).len() <= s.len(),
        s.subrange(i, i + spec_emit_project(p).len()) == spec_emit_project(p),
    ensures
        spec_parse_project(s, i) == Option::Some((p, i + spec_emit_project(p).len())),
        spec_emit_project(p).len() >= 1,
{
    reveal(spec_parse_project);
    reveal_strlit("{\"id\":");
    reveal_strlit(",\"title\":\"");
    reveal_strlit("\",\"sessions\":");
    reveal_strlit(",\"sessions\":");
    reveal_strlit(",\"completed\":");
    reveal_strlit("true}");
    reveal_strlit("false}");
    let l1 = "{\"id\":"@;
    let l2 = ",\"title\":\""@;
    let l3 = "\",\"sessions\":"@;
    let l4 = ",\"completed\":"@;
    let d = spec_dec(p.id as int);
    let esc = spec_escape(p.title);
    let sess = spec_emit_sessions(p.sessions);
    let b: Seq<char> = if p.completed { "true"@ } else { "false"@ };
    let e = spec_emit_project(p);
    assert(e == l1 + d + l2 + esc + l3 + sess + l4 + b + seq!['}']) by {
        reveal(spec_emit_project);
    }
    assert(e.len() == l1.len() + d.len() + l2.len() + esc.len() + l3.len() + sess.len()
        + l4.len() + b.len() + 1);
    lemma_project_prefix_facts(s, i, p);
    lemma_project_suffix_facts(s, i, p);
    lemma_project_bool_facts(s, i, p);
    assert(spec_parse_project(s, i) == Option::Some((p, i + spec_emit_project(p).len())));
}

/// The comma-prefixed tail of the project array.
pub open spec fn spec_projects_tail(ps: Seq<ProjectV>) -> Seq<char>
    decreases ps.len(),
{
    if ps.len() == 0 {
        Seq::empty()
    } else {
        seq![','] + spec_emit_project(ps[0]) + spec_projects_tail(ps.subrange(1, ps.len() as int))
    }
}

pub proof fn lemma_projects_tail_snoc(u: Seq<ProjectV>, x: ProjectV)
    ensures
        spec_projects_tail(u.push(x)) == spec_projects_tail(u) + seq![','] + spec_emit_project(x),
    decreases u.len(),
{
    if u.len() == 0 {
        assert(u.push(x)[0] == x);
        assert(u.push(x).subrange(1, 1) =~= Seq::<ProjectV>::empty());
        assert(spec_projects_tail(Seq::<ProjectV>::empty()) == Seq::<char>::empty());
        assert(spec_projects_tail(u.push(x))
            =~= spec_projects_tail(u) + seq![','] + spec_emit_project(x));
    } else {
        lemma_projects_tail_snoc(u.subrange(1, u.len() as int), x);
        assert(u.push(x).subrange(1, u.len() as int + 1) =~= u.subrange(1, u.len() as int).push(x));
        assert(u.push(x)[0] == u[0]);
        assert(spec_projects_tail(u.push(x))
            =~= spec_projects_tail(u) + seq![','] + spec_emit_project(x));
    }
}

pub proof fn lemma_projects_items_front(ps: Seq<ProjectV>)
    requires
        ps.len() > 0,
    ensures
        spec_emit_projects_items(ps) == spec_emit_project(ps[0])
            + spec_projects_tail(ps.subrange(1, ps.len() as int)),
    decreases ps.len(),
{
    if ps.len() == 1 {
        assert(ps.subrange(1, 1) =~= Seq::<ProjectV>::empty());
        assert(spec_projects_tail(Seq::<ProjectV>::empty()) == Seq::<char>::empty());
        assert(spec_emit_projects_items(ps)
            =~= spec_emit_project(ps[0]) + spec_projects_tail(ps.subrange(1, ps.len() as int)));
    } else {
        let dl = ps.drop_last();
        lemma_projects_items_front(dl);
        assert(dl[0] == ps[0]);
        lemma_projects_tail_snoc(dl.subrange(1, dl.len() as int), ps.last());
        assert(ps.subrange(1, ps.len() as int) =~= dl.subrange(1, dl.len() as int).push(ps.last()));
        assert(spec_emit_projects_items(ps)
            == spec_emit_projects_items(dl) + seq![','] + spec_emit_project(ps.last()));
        assert(spec_emit_projects_items(ps)
            =~= spec_emit_project(ps[0]) + spec_projects_tail(ps.subrange(1, ps.len() as int)));
    }
}

/// Splitting a slice of the form `,` then one chunk then a tail then `]`.
#[verifier::rlimit(100)]
pub proof fn lemma_comma_item_slices(s: Seq<char>, j: int, ex: Seq<char>, tl: Seq<char>)
    requires
        0 <= j,
        j + 1 + ex.len() + tl.len() + 1 <= s.len(),
        s.subrange(j, j + 2 + ex.len() as int + tl.len() as int)
            == (seq![','] + ex + tl) + seq![']'],
    ensures
        s[j] == ',',
        s.subrange(j + 1, j + 1 + ex.len() as int) == ex,
        ex.len() > 0 ==> s[j + 1] == ex[0],
        s.subrange(
            j + 1 + ex.len() as int,
            j + 2 + ex.len() as int + tl.len() as int,
        ) == tl + seq![']'],
{
    assert((seq![','] + ex + tl) + seq![']'] =~= seq![','] + (ex + (tl + seq![']'])));
    lemma_concat_slices(seq![','], ex + (tl + seq![']']), s, j);
    lemma_concat_slices(ex, tl + seq![']'], s, j + 1);
    assert(s[j] == s.subrange(j, j + 1)[0]);
    if ex.len() > 0 {
        assert(s[j + 1] == s.subrange(j + 1, j + 1 + ex.len() as int)[0]);
    }
}

/// Splitting a slice of the form `[` then one chunk then a tail then `]`.
#[verifier::rlimit(100)]
pub proof fn lemma_bracket_item_slices(s: Seq<char>, ex: Seq<char>, tl: Seq<char>)
    requires
        2 + ex.len() + tl.len() <= s.len(),
        s.subrange(0, 2 + ex.len() as int + tl.len() as int)
            == (seq!['['] + ex + tl) + seq![']'],
    ensures
        s[0] == '[',
        s.subrange(1, 1 + ex.len() as int) == ex,
        ex.len() > 0 ==> s[1] == ex[0],
        s.subrange(
            1 + ex.len() as int,
            2 + ex.len() as int + tl.len() as int,
        ) == tl + seq![']'],
{
    assert((seq!['['] + ex + tl) + seq![']'] =~= seq!['['] + (ex + (tl + seq![']'])));
    lemma_concat_slices(seq!['['], ex + (tl + seq![']']), s, 0);
    lemma_concat_slices(ex, tl + seq![']'], s, 1);
    assert(s[0] == s.subrange(0, 1)[0]);
    if ex.len() > 0 {
        assert(s[1] == s.subrange(1, 1 + ex.len() as int)[0]);
    }
}

#[verifier::rlimit(100)]
pub proof fn lemma_parse_projects_rest_inverts(
    s: Seq<char>,
    j: int,
    acc: Seq<ProjectV>,
    remaining: Seq<ProjectV>,
)
    requires
        0 <= j,
        forall|q: int| 0 <= q < remaining.len() ==> (#[trigger] remaining[q]).wf(),
        j + spec_projects_tail(remaining).len() + 1 <= s.len(),
        s.subrange(j, j + spec_projects_tail(remaining).len() + 1)
            == spec_projects_tail(remaining) + seq![']'],
    ensures
        spec_parse_projects_rest(s, j, acc) == Option::Some((
            acc + remaining,
            j + spec_projects_tail(remaining).len() + 1,
        )),
    decreases remaining.len(),
{
    if remaining.len() == 0 {
        assert(spec_projects_tail(remaining) == Seq::<char>::empty());
        assert(s[j] == s.subrange(j, j + 1)[0]);
        assert(s[j] == ']');
        assert(acc + remaining =~= acc);
    } else {
        reveal_strlit("{\"id\":");
        let x = remaining[0];
        let rest = remaining.subrange(1, remaining.len() as int);
        let ex = spec_emit_project(x);
        let tl = spec_projects_tail(rest);
        assert(spec_projects_tail(remaining) == seq![','] + ex + tl);
        lemma_comma_item_slices(s, j, ex, tl);
        assert(s[j] != ']');
        lemma_parse_project_inverts(s, j + 1, x);
        assert(ex[0] == '{') by {
            reveal(spec_emit_project);
            reveal_strlit("{\"id\":");
        }
        assert(s[j + 1] == ex[0]);
        assert(s[j + 1] != ']');
        let j2: int = j + 1 + ex.len() as int;
        lemma_parse_projects_rest_inverts(s, j2, acc.push(x), rest);
        assert(acc.push(x) + rest =~= acc + remaining);
    }
}

/// The saved text of a non-empty collection, split at its first record.
#[verifier::rlimit(100)]
pub proof fn lemma_save_slices(s: Seq<char>, ps: Seq<ProjectV>)
    requires
        ps.len() > 0,
        s == spec_save(ps),
    ensures
        ({
            let ex = spec_emit_project(ps[0]);
            let tl = spec_projects_tail(ps.subrange(1, ps.len() as int));
            &&& s.len() == 2 + ex.len() + tl.len()
            &&& s[0] == '['
            &&& s.subrange(1, 1 + ex.len() as int) == ex
            &&& s.subrange(1 + ex.len() as int, s.len() as int) == tl + seq![']']
        }),
{
    let items = spec_emit_projects_items(ps);
    assert(s == seq!['['] + items + seq![']']);
    assert(s.subrange(0, s.len() as int) =~= s);
    lemma_projects_items_front(ps);
    let ex = spec_emit_project(ps[0]);
    let tl = spec_projects_tail(ps.subrange(1, ps.len() as int));
    assert(items == ex + tl);
    assert((seq!['['] + items) + seq![']'] =~= (seq!['['] + ex + tl) + seq![']']);
    lemma_bracket_item_slices(s, ex, tl);
}

#[verifier::rlimit(100)]
pub proof fn lemma_projects_nonempty_facts(s: Seq<char>, ps: Seq<ProjectV>)
    requires
        ps.len() > 0,
        forall|q: int| 0 <= q < ps.len() ==> (#[trigger] ps[q]).wf(),
        s == spec_save(ps),
    ensures
        2 <= s.len(),
        s[0] == '[',
        s[1] != ']',
        spec_parse_project(s, 1) == Option::Some((
            ps[0],
            1 + spec_emit_project(ps[0]).len() as int,
        )),
        spec_parse_projects_rest(
            s,
            1 + spec_emit_project(ps[0]).len() as int,
            seq![ps[0]],
        ) == Option::Some((ps, s.len() as int)),
        1 < 1 + spec_emit_project(ps[0]).len() as int <= s.len(),
{
    lemma_save_slices(s, ps);
    let x = ps[0];
    let ex = spec_emit_project(x);
    let rest = ps.subrange(1, ps.len() as int);
    let tl = spec_projects_tail(rest);
    lemma_parse_project_inverts(s, 1, x);
    assert(ex[0] == '{') by {
        reveal(spec_emit_project);
        reveal_strlit("{\"id\":");
    }
    assert(s[1] == s.subrange(1, 1 + ex.len() as int)[0]);
    assert(s[1] == '{');
    let j: int = 1 + ex.len() as int;
    lemma_parse_projects_rest_inverts(s, j, seq![x], rest);
    assert(seq![x] + rest =~= ps);
}

#[verifier::rlimit(100)]
pub proof fn lemma_parse_projects_inverts_nonempty(s: Seq<char>, ps: Seq<ProjectV>)
    requires
        ps.len() > 0,
        forall|q: int| 0 <= q < ps.len() ==> (#[trigger] ps[q]).wf(),
        s == spec_save(ps),
    ensures
        spec_parse_projects(s, 0) == Option::Some((ps, s.len() as int)),
{
    lemma_projects_nonempty_facts(s, ps);
}

#[verifier::rlimit(100)]
pub proof fn lemma_parse_projects_inverts(s: Seq<char>, ps: Seq<ProjectV>)
    requires
        forall|q: int| 0 <= q < ps.len() ==> (#[trigger] ps[q]).wf(),
        s == spec_save(ps),
    ensures
        spec_parse_projects(s, 0) == Option::Some((ps, s.len() as int)),
{
    let items = spec_emit_projects_items(ps);
    assert(s == seq!['['] + items + seq![']']);
    assert(s.subrange(0, s.len() as int) =~= s);
    if ps.len() == 0 {
        assert(items == Seq::<char>::empty());
        assert(s =~= seq!['[', ']']);
        assert(Seq::<ProjectV>::empty() =~= ps);
    } else {
        lemma_parse_projects_inverts_nonempty(s, ps);
    }
}

/// The store round-trip law: loading a saved collection yields that
/// collection again, and so saving what was just loaded reproduces the
/// persisted text byte for byte.
pub proof fn law_save_load_round_trip(ps: Seq<ProjectV>)
    requires
        collection_wf(ps),
    ensures
        spec_load(spec_save(ps)) == ps,
        spec_save(spec_load(spec_save(ps))) == spec_save(ps),
{
    lemma_parse_projects_inverts(spec_save(ps), ps);
}

} // verus!
