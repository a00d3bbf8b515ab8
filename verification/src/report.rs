//! Read-only reports: status of in-progress projects, summaries of
//! completed ones, and day-bucketed listings.
//!
//! Output is specified to the character. A summary row is followed by a
//! blank line unless the summarised project is the last project of the
//! whole collection; `status` lists every session of each non-completed
//! project, an open session counted up to `now`.

use vstd::prelude::*;
use crate::time::Timestamp;
use crate::time::spec_epoch_seconds;
use crate::time::epoch_seconds;
use crate::model::{Project, ProjectV, Session, views, collection_wf, spec_total_at,
    spec_total_closed};
use crate::chars::{spec_dec, spec_pad2, spec_pad4, spec_format_duration, push_dec, push_pad2,
    push_pad4, push_duration, push_str_chars, chars_to_string};

verus! {

/// `YYYY-MM-DD HH:MM:SS`, the timestamp display of session rows.
pub open spec fn spec_timestamp_display(t: Timestamp) -> Seq<char> {
    spec_pad4(t.year as int) + seq!['-'] + spec_pad2(t.month as int) + seq!['-']
        + spec_pad2(t.day as int) + seq![' '] + spec_pad2(t.hour as int) + seq![':']
        + spec_pad2(t.minute as int) + seq![':'] + spec_pad2(t.second as int)
}

#[verifier::rlimit(60)]
pub fn push_timestamp_display(v: &mut Vec<char>, t: &Timestamp)
    requires
        t.wf(),
    ensures
        final(v)@ == old(v)@ + spec_timestamp_display(*t),
{
    push_pad4(v, t.year as u128);
    v.push('-');
    push_pad2(v, t.month as u128);
    v.push('-');
    push_pad2(v, t.day as u128);
    v.push(' ');
    push_pad2(v, t.hour as u128);
    v.push(':');
    push_pad2(v, t.minute as u128);
    v.push(':');
    push_pad2(v, t.second as u128);
}

/// The end a session is displayed and measured with: its own, or `now`.
pub open spec fn spec_end_or(s: Session, now: Timestamp) -> Timestamp {
    match s.end_time {
        Option::Some(e) => e,
        Option::None => now,
    }
}

/// One session row of `status`, `n` the 1-based session number.
pub open spec fn spec_session_line(n: int, s: Session, now: Timestamp) -> Seq<char> {
    "  Session "@ + spec_dec(n) + ": started at "@ + spec_timestamp_display(s.start_time)
        + ", ended at "@ + spec_timestamp_display(spec_end_or(s, now))
        + ". Duration: "@
        + spec_format_duration(
            spec_epoch_seconds(spec_end_or(s, now)) - spec_epoch_seconds(s.start_time))
        + seq!['\n']
}

pub open spec fn spec_session_lines(ss: Seq<Session>, now: Timestamp) -> Seq<char>
    decreases ss.len(),
{
    if ss.len() == 0 {
        Seq::empty()
    } else {
        spec_session_lines(ss.drop_last(), now)
            + spec_session_line(ss.len() as int, ss.last(), now)
    }
}

/// The header row shared by `status` and the summaries.
pub open spec fn spec_project_header(p: ProjectV) -> Seq<char> {
    "Project ID: "@ + spec_dec(p.id as int) + ", Title: "@ + p.title + seq!['\n']
}

/// The `status` block of one project.
pub open spec fn spec_status_block(p: ProjectV, now: Timestamp) -> Seq<char> {
    spec_project_header(p) + spec_session_lines(p.sessions, now)
        + "  Total time spent on project: "@
        + spec_format_duration(spec_total_at(p.sessions, now)) + seq!['\n']
}

/// `status`: the blocks of every non-completed project, in order.
pub open spec fn spec_status_report(ps: Seq<ProjectV>, now: Timestamp) -> Seq<char>
    decreases ps.len(),
{
    if ps.len() == 0 {
        Seq::empty()
    } else {
        spec_status_report(ps.drop_last(), now) + if !ps.last().completed {
            spec_status_block(ps.last(), now)
        } else {
            Seq::empty()
        }
    }
}

/// The two-row summary of a completed project: header and total over its
/// closed sessions.
pub open spec fn spec_summary(p: ProjectV) -> Seq<char> {
    spec_project_header(p) + "  Total time spent on project: "@
        + spec_format_duration(spec_total_closed(p.sessions)) + seq!['\n']
}

/// One `list` row: the summary, plus a spacing line unless the project is
/// the last of the whole collection (`last_id` its id).
pub open spec fn spec_list_item(p: ProjectV, last_id: u32) -> Seq<char> {
    spec_summary(p) + if p.id != last_id {
        seq!['\n']
    } else {
        Seq::empty()
    }
}

pub open spec fn spec_list_all_items(ps: Seq<ProjectV>, last_id: u32) -> Seq<char>
    decreases ps.len(),
{
    if ps.len() == 0 {
        Seq::empty()
    } else {
        spec_list_all_items(ps.drop_last(), last_id) + if ps.last().completed {
            spec_list_item(ps.last(), last_id)
        } else {
            Seq::empty()
        }
    }
}

/// `list all`: the summaries of every completed project.
pub open spec fn spec_list_all_report(ps: Seq<ProjectV>) -> Seq<char> {
    if ps.len() == 0 {
        Seq::empty()
    } else {
        spec_list_all_items(ps, ps.last().id)
    }
}

pub open spec fn spec_list_date_items(ps: Seq<ProjectV>, date: Timestamp, last_id: u32) -> Seq<char>
    decreases ps.len(),
{
    if ps.len() == 0 {
        Seq::empty()
    } else {
        spec_list_date_items(ps.drop_last(), date, last_id)
            + if ps.last().completed && ps.last().has_end_on_date(date) {
            spec_list_item(ps.last(), last_id)
        } else {
            Seq::empty()
        }
    }
}

/// `list today` / `list yesterday`: the summaries of every completed
/// project with some session ending on the local calendar date of `date`.
pub open spec fn spec_list_date_report(ps: Seq<ProjectV>, date: Timestamp) -> Seq<char> {
    if ps.len() == 0 {
        Seq::empty()
    } else {
        spec_list_date_items(ps, date, ps.last().id)
    }
}

/// Whether some session of `p` ends on the same calendar date as `date`.
pub fn ends_on_date(p: &Project, date: &Timestamp) -> (r: bool)
    ensures
        r == p@.has_end_on_date(*date),
{
    let mut i: usize = 0;
    while i < p.sessions.len()
        invariant
            i <= p.sessions@.len(),
            forall|j: int| 0 <= j < i ==> !(p.sessions@[j].end_time is Some
                && (p.sessions@[j].end_time->Some_0).same_date(*date)),
        decreases p.sessions@.len() - i,
    {
        match p.sessions[i].end_time {
            Option::Some(e) => {
                if e.year == date.year && e.month == date.month && e.day == date.day {
                    return true;
                }
            },
            Option::None => {},
        }
        i = i + 1;
    }
    false
}

/// Total seconds of `ss` with open sessions counted up to `now`.
fn total_at(ss: &Vec<Session>, now: &Timestamp) -> (r: i128)
    requires
        forall|i: int| 0 <= i < ss@.len() ==> ss@[i].wf(),
        now.wf(),
    ensures
        r == spec_total_at(ss@, *now),
        -100000000000000000000000000000000 < r < 100000000000000000000000000000000,
{
    let mut total: i128 = 0;
    let mut i: usize = 0;
    while i < ss.len()
        invariant
            i <= ss@.len(),
            forall|k: int| 0 <= k < ss@.len() ==> ss@[k].wf(),
            now.wf(),
            total == spec_total_at(ss@.take(i as int), *now),
            -400000000000 * (i as int) <= total <= 400000000000 * (i as int),
        decreases ss@.len() - i,
    {
        let s = ss[i];
        let end = match s.end_time {
            Option::Some(e) => e,
            Option::None => *now,
        };
        let d: i64 = epoch_seconds(&end) - epoch_seconds(&s.start_time);
        proof {
            assert(ss@.take(i + 1).drop_last() =~= ss@.take(i as int));
            assert(ss@.take(i + 1).last() == ss@[i as int]);
        }
        total = total + (d as i128);
        i = i + 1;
    }
    proof {
        assert(ss@.take(ss@.len() as int) =~= ss@);
    }
    total
}

/// Total seconds of the closed sessions of `ss`, open ones skipped.
fn total_closed(ss: &Vec<Session>) -> (r: i128)
    requires
        forall|i: int| 0 <= i < ss@.len() ==> ss@[i].wf(),
    ensures
        r == spec_total_closed(ss@),
        -100000000000000000000000000000000 < r < 100000000000000000000000000000000,
{
    let mut total: i128 = 0;
    let mut i: usize = 0;
    while i < ss.len()
        invariant
            i <= ss@.len(),
            forall|k: int| 0 <= k < ss@.len() ==> ss@[k].wf(),
            total == spec_total_closed(ss@.take(i as int)),
            -400000000000 * (i as int) <= total <= 400000000000 * (i as int),
        decreases ss@.len() - i,
    {
        let s = ss[i];
        proof {
            assert(ss@.take(i + 1).drop_last() =~= ss@.take(i as int));
            assert(ss@.take(i + 1).last() == ss@[i as int]);
        }
        match s.end_time {
            Option::Some(e) => {
                let d: i64 = epoch_seconds(&e) - epoch_seconds(&s.start_time);
                total = total + (d as i128);
            },
            Option::None => {},
        }
        i = i + 1;
    }
    proof {
        assert(ss@.take(ss@.len() as int) =~= ss@);
    }
    total
}

/// Append one session row of `status`: `n` is the 1-based session number.
#[verifier::rlimit(80)]
fn push_session_line(v: &mut Vec<char>, n: usize, s: &Session, now: &Timestamp)
    requires
        s.wf(),
        now.wf(),
        n < usize::MAX,
    ensures
        final(v)@ == old(v)@ + spec_session_line(n as int + 1, *s, *now),
{
    let end = match s.end_time {
        Option::Some(e) => e,
        Option::None => *now,
    };
    push_str_chars(v, "  Session ");
    push_dec(v, (n + 1) as u128);
    push_str_chars(v, ": started at ");
    push_timestamp_display(v, &s.start_time);
    push_str_chars(v, ", ended at ");
    push_timestamp_display(v, &end);
    push_str_chars(v, ". Duration: ");
    let d: i64 = epoch_seconds(&end) - epoch_seconds(&s.start_time);
    push_duration(v, d as i128);
    v.push('\n');
}

fn push_header(v: &mut Vec<char>, p: &Project)
    ensures
        final(v)@ == old(v)@ + spec_project_header(p@),
{
    push_str_chars(v, "Project ID: ");
    push_dec(v, p.id as u128);
    push_str_chars(v, ", Title: ");
    push_str_chars(v, p.title.as_str());
    v.push('\n');
}

/// All wf projects a report walks over.
pub open spec fn all_wf(ps: Seq<ProjectV>) -> bool {
    forall|i: int| 0 <= i < ps.len() ==> ps[i].wf()
}

/// Append the `status` block of one non-completed project.
#[verifier::rlimit(100)]
fn push_status_block(v: &mut Vec<char>, p: &Project, now: &Timestamp)
    requires
        p@.wf(),
        now.wf(),
    ensures
        final(v)@ == old(v)@ + spec_status_block(p@, *now),
{
    proof {
        assert forall|k: int| 0 <= k < p.sessions@.len() implies p.sessions@[k].wf() by {
            assert(p@.sessions[k].wf());
        }
    }
    push_header(v, p);
    let mut j: usize = 0;
    while j < p.sessions.len()
        invariant
            j <= p.sessions@.len(),
            forall|k: int| 0 <= k < p.sessions@.len() ==> p.sessions@[k].wf(),
            now.wf(),
            v@ == old(v)@ + spec_project_header(p@)
                + spec_session_lines(p.sessions@.take(j as int), *now),
        decreases p.sessions@.len() - j,
    {
        proof {
            assert(p.sessions@.take(j + 1).drop_last() =~= p.sessions@.take(j as int));
            assert(p.sessions@.take(j + 1).last() == p.sessions@[j as int]);
        }
        let s = p.sessions[j];
        push_session_line(v, j, &s, now);
        j = j + 1;
    }
    proof {
        assert(p.sessions@.take(p.sessions@.len() as int) =~= p.sessions@);
    }
    push_str_chars(v, "  Total time spent on project: ");
    let t = total_at(&p.sessions, now);
    push_duration(v, t);
    v.push('\n');
}

/// The `status` report: every non-completed project with its sessions,
/// each session and the total measured with open ends at `now`.
pub fn status_report(projects: &Vec<Project>, now: &Timestamp) -> (r: String)
    requires
        all_wf(views(projects@)),
        now.wf(),
    ensures
        r@ == spec_status_report(views(projects@), *now),
{
    let ghost ps = views(projects@);
    let mut v: Vec<char> = Vec::new();
    let mut i: usize = 0;
    while i < projects.len()
        invariant
            i <= ps.len(),
            ps == views(projects@),
            all_wf(ps),
            now.wf(),
            v@ == spec_status_report(ps.take(i as int), *now),
        decreases ps.len() - i,
    {
        proof {
            assert(ps.take(i + 1).drop_last() =~= ps.take(i as int));
            assert(ps.take(i + 1).last() == ps[i as int]);
            assert(ps[i as int].wf());
            assert(ps[i as int] == projects@[i as int]@);
        }
        let p = &projects[i];
        if !p.completed {
            push_status_block(&mut v, p, now);
        }
        i = i + 1;
    }
    proof {
        assert(ps.take(ps.len() as int) =~= ps);
    }
    chars_to_string(&v)
}

fn push_summary(v: &mut Vec<char>, p: &Project)
    requires
        forall|i: int| 0 <= i < p.sessions@.len() ==> p.sessions@[i].wf(),
    ensures
        final(v)@ == old(v)@ + spec_summary(p@),
{
    push_header(v, p);
    push_str_chars(v, "  Total time spent on project: ");
    let t = total_closed(&p.sessions);
    push_duration(v, t);
    v.push('\n');
}

/// The `list all` report: summaries of every completed project.
pub fn list_all_report(projects: &Vec<Project>) -> (r: String)
    requires
        all_wf(views(projects@)),
    ensures
        r@ == spec_list_all_report(views(projects@)),
{
    let ghost ps = views(projects@);
    let mut v: Vec<char> = Vec::new();
    if projects.len() == 0 {
        return chars_to_string(&v);
    }
    let last_id = projects[projects.len() - 1].id;
    let mut i: usize = 0;
    while i < projects.len()
        invariant
            i <= ps.len(),
            ps == views(projects@),
            all_wf(ps),
            ps.len() > 0,
            last_id == ps.last().id,
            v@ == spec_list_all_items(ps.take(i as int), last_id),
        decreases ps.len() - i,
    {
        proof {
            assert(ps.take(i + 1).drop_last() =~= ps.take(i as int));
            assert(ps.take(i + 1).last() == ps[i as int]);
            assert(ps[i as int].wf());
            assert(ps[i as int] == projects@[i as int]@);
        }
        let p = &projects[i];
        if p.completed {
            proof {
                assert(p@.wf());
                assert forall|k: int| 0 <= k < p.sessions@.len() implies p.sessions@[k].wf() by {
                    assert(p@.sessions[k].wf());
                }
            }
            push_summary(&mut v, p);
            if p.id != last_id {
                v.push('\n');
            }
        }
        i = i + 1;
    }
    proof {
        assert(ps.take(ps.len() as int) =~= ps);
    }
    chars_to_string(&v)
}

/// The `list today` / `list yesterday` report: summaries of every completed
/// project with a session ending on the local calendar date of `date`.
pub fn list_date_report(projects: &Vec<Project>, date: &Timestamp) -> (r: String)
    requires
        all_wf(views(projects@)),
    ensures
        r@ == spec_list_date_report(views(projects@), *date),
{
    let ghost ps = views(projects@);
    let mut v: Vec<char> = Vec::new();
    if projects.len() == 0 {
        return chars_to_string(&v);
    }
    let last_id = projects[projects.len() - 1].id;
    let mut i: usize = 0;
    while i < projects.len()
        invariant
            i <= ps.len(),
            ps == views(projects@),
            all_wf(ps),
            ps.len() > 0,
            last_id == ps.last().id,
            v@ == spec_list_date_items(ps.take(i as int), *date, last_id),
        decreases ps.len() - i,
    {
        proof {
            assert(ps.take(i + 1).drop_last() =~= ps.take(i as int));
            assert(ps.take(i + 1).last() == ps[i as int]);
            assert(ps[i as int].wf());
            assert(ps[i as int] == projects@[i as int]@);
        }
        let p = &projects[i];
        if p.completed && ends_on_date(p, date) {
            proof {
                assert(p@.wf());
                assert forall|k: int| 0 <= k < p.sessions@.len() implies p.sessions@[k].wf() by {
                    assert(p@.sessions[k].wf());
                }
            }
            push_summary(&mut v, p);
            if p.id != last_id {
                v.push('\n');
            }
        }
        i = i + 1;
    }
    proof {
        assert(ps.take(ps.len() as int) =~= ps);
    }
    chars_to_string(&v)
}

} // verus!
