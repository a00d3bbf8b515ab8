//! The on-disk form of a collection: one JSON array of project records,
//! each `{"id":…,"title":…,"sessions":[…],"completed":…}`, a session
//! `{"start_time":…,"end_time":…}` with timestamps as
//! `YYYY-MM-DDTHH:MM:SS+HH:MM` strings and a missing end as `null`.
//! No whitespace; titles are escaped as JSON strings. The emitted text is
//! specified to the character.

use vstd::prelude::*;
use crate::time::Timestamp;
use crate::model::{Project, ProjectV, Session, views};
use crate::chars::{spec_pad2, spec_pad4, push_pad2, push_pad4, push_str_chars, string_chars,
    chars_to_string};

verus! {

pub open spec fn spec_hex_digit(n: int) -> char {
    if n == 0 { '0' }
    else if n == 1 { '1' }
    else if n == 2 { '2' }
    else if n == 3 { '3' }
    else if n == 4 { '4' }
    else if n == 5 { '5' }
    else if n == 6 { '6' }
    else if n == 7 { '7' }
    else if n == 8 { '8' }
    else if n == 9 { '9' }
    else if n == 10 { 'a' }
    else if n == 11 { 'b' }
    else if n == 12 { 'c' }
    else if n == 13 { 'd' }
    else if n == 14 { 'e' }
    else { 'f' }
}

fn hex_digit(n: u32) -> (c: char)
    requires
        n < 16,
    ensures
        c == spec_hex_digit(n as int),
{
    if n == 0 { '0' }
    else if n == 1 { '1' }
    else if n == 2 { '2' }
    else if n == 3 { '3' }
    else if n == 4 { '4' }
    else if n == 5 { '5' }
    else if n == 6 { '6' }
    else if n == 7 { '7' }
    else if n == 8 { '8' }
    else if n == 9 { '9' }
    else if n == 10 { 'a' }
    else if n == 11 { 'b' }
    else if n == 12 { 'c' }
    else if n == 13 { 'd' }
    else if n == 14 { 'e' }
    else { 'f' }
}

/// How one char of a title is written inside a JSON string: the quote, the
/// backslash and the named control chars get two-char escapes, any other
/// control char a `\u00..` escape, and everything else stands as itself.
pub open spec fn spec_escape_char(c: char) -> Seq<char> {
    if c == '"' { seq!['\\', '"'] }
    else if c == '\\' { seq!['\\', '\\'] }
    else if c == '\u{8}' { seq!['\\', 'b'] }
    else if c == '\u{c}' { seq!['\\', 'f'] }
    else if c == '\n' { seq!['\\', 'n'] }
    else if c == '\r' { seq!['\\', 'r'] }
    else if c == '\t' { seq!['\\', 't'] }
    else if (c as u32) < 32 {
        seq!['\\', 'u', '0', '0', spec_hex_digit(c as u32 as int / 16),
            spec_hex_digit(c as u32 as int % 16)]
    } else {
        seq![c]
    }
}

pub open spec fn spec_escape(s: Seq<char>) -> Seq<char>
    decreases s.len(),
{
    if s.len() == 0 {
        Seq::empty()
    } else {
        spec_escape(s.drop_last()) + spec_escape_char(s.last())
    }
}

fn push_escape_char(v: &mut Vec<char>, c: char)
    ensures
        final(v)@ == old(v)@ + spec_escape_char(c),
{
    if c == '"' {
        v.push('\\');
        v.push('"');
    } else if c == '\\' {
        v.push('\\');
        v.push('\\');
    } else if c == '\u{8}' {
        v.push('\\');
        v.push('b');
    } else if c == '\u{c}' {
        v.push('\\');
        v.push('f');
    } else if c == '\n' {
        v.push('\\');
        v.push('n');
    } else if c == '\r' {
        v.push('\\');
        v.push('r');
    } else if c == '\t' {
        v.push('\\');
        v.push('t');
    } else {
        let u = c as u32;
        if u < 32 {
            v.push('\\');
            v.push('u');
            v.push('0');
            v.push('0');
            v.push(hex_digit(u / 16));
            v.push(hex_digit(u % 16));
        } else {
            v.push(c);
        }
    }
}

/// Append the escaped form of `s`.
pub fn push_escaped(v: &mut Vec<char>, s: &str)
    ensures
        final(v)@ == old(v)@ + spec_escape(s@),
{
    let cs = string_chars(s);
    let mut i: usize = 0;
    while i < cs.len()
        invariant
            i <= cs@.len(),
            cs@ == s@,
            v@ == old(v)@ + spec_escape(s@.take(i as int)),
        decreases cs@.len() - i,
    {
        proof {
            assert(s@.take(i + 1).drop_last() =~= s@.take(i as int));
            assert(s@.take(i + 1).last() == s@[i as int]);
        }
        push_escape_char(v, cs[i]);
        i = i + 1;
    }
    proof {
        assert(s@.take(s@.len() as int) =~= s@);
    }
}

/// A timestamp as written to disk: `YYYY-MM-DDTHH:MM:SS` then the offset
/// as `+HH:MM` or `-HH:MM`.
pub open spec fn spec_emit_ts(t: Timestamp) -> Seq<char> {
    spec_pad4(t.year as int) + seq!['-'] + spec_pad2(t.month as int) + seq!['-']
        + spec_pad2(t.day as int) + seq!['T'] + spec_pad2(t.hour as int) + seq![':']
        + spec_pad2(t.minute as int) + seq![':'] + spec_pad2(t.second as int)
        + spec_emit_offset(t.offset_minutes as int)
}

pub open spec fn spec_emit_offset(m: int) -> Seq<char> {
    if m >= 0 {
        seq!['+'] + spec_pad2(m / 60) + seq![':'] + spec_pad2(m % 60)
    } else {
        seq!['-'] + spec_pad2((-m) / 60) + seq![':'] + spec_pad2((-m) % 60)
    }
}

#[verifier::rlimit(60)]
fn push_offset(v: &mut Vec<char>, offset_minutes: i32)
    requires
        -1439 <= offset_minutes <= 1439,
    ensures
        final(v)@ == old(v)@ + spec_emit_offset(offset_minutes as int),
{
    if offset_minutes >= 0 {
        let m = offset_minutes as u128;
        v.push('+');
        push_pad2(v, m / 60);
        v.push(':');
        push_pad2(v, m % 60);
    } else {
        let m = (-offset_minutes) as u128;
        v.push('-');
        push_pad2(v, m / 60);
        v.push(':');
        push_pad2(v, m % 60);
    }
}

#[verifier::rlimit(60)]
fn push_ts_date(v: &mut Vec<char>, t: &Timestamp)
    requires
        t.wf(),
    ensures
        final(v)@ == old(v)@ + spec_pad4(t.year as int) + seq!['-'] + spec_pad2(t.month as int)
            + seq!['-'] + spec_pad2(t.day as int),
{
    push_pad4(v, t.year as u128);
    v.push('-');
    push_pad2(v, t.month as u128);
    v.push('-');
    push_pad2(v, t.day as u128);
}

#[verifier::rlimit(100)]
pub fn push_ts(v: &mut Vec<char>, t: &Timestamp)
    requires
        t.wf(),
    ensures
        final(v)@ == old(v)@ + spec_emit_ts(*t),
{
    push_ts_date(v, t);
    v.push('T');
    push_pad2(v, t.hour as u128);
    v.push(':');
    push_pad2(v, t.minute as u128);
    v.push(':');
    push_pad2(v, t.second as u128);
    push_offset(v, t.offset_minutes);
}

pub open spec fn spec_emit_session(s: Session) -> Seq<char> {
    "{\"start_time\":\""@ + spec_emit_ts(s.start_time) + "\",\"end_time\":"@
        + (match s.end_time {
        Option::Some(e) => seq!['"'] + spec_emit_ts(e) + seq!['"'],
        Option::None => "null"@,
    }) + seq!['}']
}

#[verifier::rlimit(60)]
fn push_session(v: &mut Vec<char>, s: &Session)
    requires
        s.wf(),
    ensures
        final(v)@ == old(v)@ + spec_emit_session(*s),
{
    push_str_chars(v, "{\"start_time\":\"");
    push_ts(v, &s.start_time);
    push_str_chars(v, "\",\"end_time\":");
    match s.end_time {
        Option::Some(e) => {
            v.push('"');
            push_ts(v, &e);
            v.push('"');
        },
        Option::None => {
            push_str_chars(v, "null");
        },
    }
    v.push('}');
}

/// The sessions of a project, comma-separated.
pub open spec fn spec_emit_sessions_items(ss: Seq<Session>) -> Seq<char>
    decreases ss.len(),
{
    if ss.len() == 0 {
        Seq::empty()
    } else if ss.len() == 1 {
        spec_emit_session(ss[0])
    } else {
        spec_emit_sessions_items(ss.drop_last()) + seq![','] + spec_emit_session(ss.last())
    }
}

pub open spec fn spec_emit_sessions(ss: Seq<Session>) -> Seq<char> {
    seq!['['] + spec_emit_sessions_items(ss) + seq![']']
}

fn push_sessions(v: &mut Vec<char>, ss: &Vec<Session>)
    requires
        forall|i: int| 0 <= i < ss@.len() ==> ss@[i].wf(),
    ensures
        final(v)@ == old(v)@ + spec_emit_sessions(ss@),
{
    v.push('[');
    let mut i: usize = 0;
    while i < ss.len()
        invariant
            i <= ss@.len(),
            forall|k: int| 0 <= k < ss@.len() ==> ss@[k].wf(),
            v@ == old(v)@ + seq!['['] + spec_emit_sessions_items(ss@.take(i as int)),
        decreases ss@.len() - i,
    {
        proof {
            assert(ss@.take(i + 1).drop_last() =~= ss@.take(i as int));
            assert(ss@.take(i + 1).last() == ss@[i as int]);
        }
        if i > 0 {
            v.push(',');
        }
        let s = ss[i];
        push_session(v, &s);
        i = i + 1;
    }
    proof {
        assert(ss@.take(ss@.len() as int) =~= ss@);
    }
    v.push(']');
}

#[verifier::opaque]
pub open spec fn spec_emit_project(p: ProjectV) -> Seq<char> {
    "{\"id\":"@ + crate::chars::spec_dec(p.id as int) + ",\"title\":\""@ + spec_escape(p.title)
        + "\",\"sessions\":"@ + spec_emit_sessions(p.sessions) + ",\"completed\":"@
        + (if p.completed { "true"@ } else { "false"@ }) + seq!['}']
}

#[verifier::rlimit(60)]
fn push_project(v: &mut Vec<char>, p: &Project)
    requires
        p@.wf(),
    ensures
        final(v)@ == old(v)@ + spec_emit_project(p@),
{
    proof {
        reveal(spec_emit_project);
        assert forall|k: int| 0 <= k < p.sessions@.len() implies p.sessions@[k].wf() by {
            assert(p@.sessions[k].wf());
        }
    }
    push_str_chars(v, "{\"id\":");
    crate::chars::push_dec(v, p.id as u128);
    push_str_chars(v, ",\"title\":\"");
    push_escaped(v, p.title.as_str());
    push_str_chars(v, "\",\"sessions\":");
    push_sessions(v, &p.sessions);
    push_str_chars(v, ",\"completed\":");
    if p.completed {
        push_str_chars(v, "true");
    } else {
        push_str_chars(v, "false");
    }
    v.push('}');
}

pub open spec fn spec_emit_projects_items(ps: Seq<ProjectV>) -> Seq<char>
    decreases ps.len(),
{
    if ps.len() == 0 {
        Seq::empty()
    } else if ps.len() == 1 {
        spec_emit_project(ps[0])
    } else {
        spec_emit_projects_items(ps.drop_last()) + seq![','] + spec_emit_project(ps.last())
    }
}

/// The persisted text of a whole collection.
pub open spec fn spec_save(ps: Seq<ProjectV>) -> Seq<char> {
    seq!['['] + spec_emit_projects_items(ps) + seq![']']
}

/// Serialize the collection to the persisted text.
pub fn save_projects(projects: &Vec<Project>) -> (r: String)
    requires
        forall|i: int| 0 <= i < views(projects@).len() ==> (#[trigger] views(projects@)[i]).wf(),
    ensures
        r@ == spec_save(views(projects@)),
{
    let ghost ps = views(projects@);
    let mut v: Vec<char> = Vec::new();
    v.push('[');
    let mut i: usize = 0;
    while i < projects.len()
        invariant
            i <= ps.len(),
            ps == views(projects@),
            forall|k: int| 0 <= k < ps.len() ==> (#[trigger] ps[k]).wf(),
            v@ == seq!['['] + spec_emit_projects_items(ps.take(i as int)),
        decreases ps.len() - i,
    {
        proof {
            assert(ps.take(i + 1).drop_last() =~= ps.take(i as int));
            assert(ps.take(i + 1).last() == ps[i as int]);
            assert(ps[i as int] == projects@[i as int]@);
            assert(ps[i as int].wf());
        }
        if i > 0 {
            v.push(',');
        }
        push_project(&mut v, &projects[i]);
        i = i + 1;
    }
    proof {
        assert(ps.take(ps.len() as int) =~= ps);
    }
    v.push(']');
    chars_to_string(&v)
}

} // verus!
