//! The per-project state machine: start, pause, resume, stop.
//!
//! Each operation takes the whole collection, locates the project by id
//! (first match), applies at most one transition, and reports an outcome.
//! Unknown ids and redundant or impossible transitions leave the collection
//! untouched and are reported, never fatal. No operation ever modifies a
//! project other than the targeted one.

use vstd::prelude::*;
use crate::time::Timestamp;
use crate::model::{Project, ProjectV, Session, views, collection_wf, spec_max_id, spec_find,
    find_project, max_project_id, lemma_find_from_props};
use crate::chars::{spec_dec, push_dec, push_str_chars, chars_to_string};

verus! {

#[derive(Clone, Copy, PartialEq, Eq, Structural, Debug)]
pub enum PauseOutcome {
    Paused,
    AlreadyPaused,
    NoSessions,
    NotFound,
}

#[derive(Clone, Copy, PartialEq, Eq, Structural, Debug)]
pub enum ResumeOutcome {
    Resumed,
    CannotResume,
    AlreadyRunning,
    NoSessions,
    NotFound,
}

#[derive(Clone, Copy, PartialEq, Eq, Structural, Debug)]
pub enum StopOutcome {
    Stopped,
    AlreadyCompleted,
    NotFound,
}

/// `p` with its last session closed at `now`.
pub open spec fn spec_close_last(p: ProjectV, now: Timestamp) -> ProjectV
    recommends
        p.sessions.len() > 0,
{
    ProjectV {
        sessions: p.sessions.update(
            p.sessions.len() - 1,
            Session { start_time: p.sessions.last().start_time, end_time: Option::Some(now) },
        ),
        ..p
    }
}

/// A new project: the next id, one session running from `now`.
pub open spec fn spec_start(ps: Seq<ProjectV>, title: Seq<char>, now: Timestamp) -> Seq<ProjectV> {
    ps.push(ProjectV {
        id: (spec_max_id(ps) + 1) as u32,
        title: title,
        sessions: seq![Session { start_time: now, end_time: Option::None }],
        completed: false,
    })
}

pub open spec fn spec_pause(ps: Seq<ProjectV>, id: u32, now: Timestamp) -> (Seq<ProjectV>, PauseOutcome) {
    let i = spec_find(ps, id);
    if i == -1 {
        (ps, PauseOutcome::NotFound)
    } else {
        let p = ps[i];
        if p.sessions.len() == 0 {
            (ps, PauseOutcome::NoSessions)
        } else if p.sessions.last().closed() {
            (ps, PauseOutcome::AlreadyPaused)
        } else {
            (ps.update(i, spec_close_last(p, now)), PauseOutcome::Paused)
        }
    }
}

pub open spec fn spec_resume(ps: Seq<ProjectV>, id: u32, now: Timestamp) -> (Seq<ProjectV>, ResumeOutcome) {
    let i = spec_find(ps, id);
    if i == -1 {
        (ps, ResumeOutcome::NotFound)
    } else {
        let p = ps[i];
        if p.sessions.len() == 0 {
            (ps, ResumeOutcome::NoSessions)
        } else if p.completed {
            (ps, ResumeOutcome::CannotResume)
        } else if p.sessions.last().closed() {
            (
                ps.update(i, ProjectV {
                    sessions: p.sessions.push(
                        Session { start_time: now, end_time: Option::None },
                    ),
                    ..p
                }),
                ResumeOutcome::Resumed,
            )
        } else {
            (ps, ResumeOutcome::AlreadyRunning)
        }
    }
}

pub open spec fn spec_stop(ps: Seq<ProjectV>, id: u32, now: Timestamp) -> (Seq<ProjectV>, StopOutcome) {
    let i = spec_find(ps, id);
    if i == -1 {
        (ps, StopOutcome::NotFound)
    } else {
        let p = ps[i];
        if p.completed {
            (ps, StopOutcome::AlreadyCompleted)
        } else {
            let closed = if p.sessions.len() > 0 && !p.sessions.last().closed() {
                spec_close_last(p, now)
            } else {
                p
            };
            (ps.update(i, ProjectV { completed: true, ..closed }), StopOutcome::Stopped)
        }
    }
}

pub proof fn lemma_max_id_bound(ps: Seq<ProjectV>)
    ensures
        forall|i: int| 0 <= i < ps.len() ==> ps[i].id <= spec_max_id(ps),
    decreases ps.len(),
{
    if ps.len() > 0 {
        lemma_max_id_bound(ps.drop_last());
        assert forall|i: int| 0 <= i < ps.len() implies ps[i].id <= spec_max_id(ps) by {
            if i < ps.len() - 1 {
                assert(ps.drop_last()[i] == ps[i]);
            }
        }
    }
}

/// Create a new project titled `title` with one session starting at `now`;
/// the assigned id, one more than the largest in use, is returned.
pub fn start_with(projects: &mut Vec<Project>, title: String, now: Timestamp) -> (r: u32)
    requires
        collection_wf(views(old(projects)@)),
        now.wf(),
        spec_max_id(views(old(projects)@)) < u32::MAX,
    ensures
        r == spec_max_id(views(old(projects)@)) + 1,
        views(final(projects)@) == spec_start(views(old(projects)@), title@, now),
        collection_wf(views(final(projects)@)),
{
    let ghost ps0 = views(old(projects)@);
    let new_id = max_project_id(projects) + 1;
    let mut sessions: Vec<Session> = Vec::new();
    sessions.push(Session { start_time: now, end_time: Option::None });
    let ghost title_v = title@;
    let p = Project { id: new_id, title, sessions, completed: false };
    let ghost pv = p@;
    projects.push(p);
    proof {
        assert(views(projects@) =~= ps0.push(pv));
        assert(pv.sessions =~= seq![Session { start_time: now, end_time: Option::None }]);
        assert(views(projects@) =~= spec_start(ps0, title_v, now));
        lemma_max_id_bound(ps0);
        assert forall|i: int, j: int| 0 <= i < j < views(projects@).len()
            implies views(projects@)[i].id != views(projects@)[j].id by {
            if j == ps0.len() {
                assert(views(projects@)[i] == ps0[i]);
            }
        }
    }
    new_id
}

/// Close the running session of project `id` at `now`. A project whose last
/// session is already closed is reported unchanged, as is an unknown id or a
/// project without sessions.
pub fn pause_with(projects: &mut Vec<Project>, id: u32, now: Timestamp) -> (r: PauseOutcome)
    requires
        collection_wf(views(old(projects)@)),
        now.wf(),
    ensures
        views(final(projects)@) == spec_pause(views(old(projects)@), id, now).0,
        r == spec_pause(views(old(projects)@), id, now).1,
        collection_wf(views(final(projects)@)),
        r != PauseOutcome::Paused ==> final(projects)@ == old(projects)@,
{
    let ghost ps0 = views(old(projects)@);
    proof {
        lemma_find_from_props(ps0, id, 0);
    }
    match find_project(projects, id) {
        Option::None => PauseOutcome::NotFound,
        Option::Some(i) => {
            if projects[i].sessions.len() == 0 {
                PauseOutcome::NoSessions
            } else {
                let last_idx = projects[i].sessions.len() - 1;
                if projects[i].sessions[last_idx].end_time.is_some() {
                    PauseOutcome::AlreadyPaused
                } else {
                    let mut p = projects.remove(i);
                    let ghost pv0 = p@;
                    let s = p.sessions.pop().unwrap();
                    p.sessions.push(Session { start_time: s.start_time, end_time: Option::Some(now) });
                    proof {
                        assert(p@.sessions =~= pv0.sessions.update(
                            pv0.sessions.len() - 1,
                            Session { start_time: pv0.sessions.last().start_time, end_time: Option::Some(now) },
                        ));
                        assert(p@ == spec_close_last(pv0, now));
                    }
                    projects.insert(i, p);
                    proof {
                        assert(views(projects@) =~= ps0.update(i as int, spec_close_last(pv0, now)));
                    }
                    PauseOutcome::Paused
                }
            }
        },
    }
}

/// Open a new session at `now` for a paused project `id`. A completed
/// project, a running one, an unknown id and an empty session list are
/// reported unchanged.
pub fn resume_with(projects: &mut Vec<Project>, id: u32, now: Timestamp) -> (r: ResumeOutcome)
    requires
        collection_wf(views(old(projects)@)),
        now.wf(),
    ensures
        views(final(projects)@) == spec_resume(views(old(projects)@), id, now).0,
        r == spec_resume(views(old(projects)@), id, now).1,
        collection_wf(views(final(projects)@)),
        r != ResumeOutcome::Resumed ==> final(projects)@ == old(projects)@,
{
    let ghost ps0 = views(old(projects)@);
    proof {
        lemma_find_from_props(ps0, id, 0);
    }
    match find_project(projects, id) {
        Option::None => ResumeOutcome::NotFound,
        Option::Some(i) => {
            if projects[i].sessions.len() == 0 {
                ResumeOutcome::NoSessions
            } else if projects[i].completed {
                ResumeOutcome::CannotResume
            } else {
                let last_idx = projects[i].sessions.len() - 1;
                if projects[i].sessions[last_idx].end_time.is_some() {
                    let mut p = projects.remove(i);
                    let ghost pv0 = p@;
                    p.sessions.push(Session { start_time: now, end_time: Option::None });
                    projects.insert(i, p);
                    proof {
                        assert(views(projects@) =~= ps0.update(i as int, ProjectV {
                            sessions: pv0.sessions.push(
                                Session { start_time: now, end_time: Option::None },
                            ),
                            ..pv0
                        }));
                    }
                    ResumeOutcome::Resumed
                } else {
                    ResumeOutcome::AlreadyRunning
                }
            }
        },
    }
}

/// Close the running session of project `id` at `now`, if any, and mark the
/// project completed, its terminal state. A completed project and an
/// unknown id are reported unchanged.
pub fn stop_with(projects: &mut Vec<Project>, id: u32, now: Timestamp) -> (r: StopOutcome)
    requires
        collection_wf(views(old(projects)@)),
        now.wf(),
    ensures
        views(final(projects)@) == spec_stop(views(old(projects)@), id, now).0,
        r == spec_stop(views(old(projects)@), id, now).1,
        collection_wf(views(final(projects)@)),
        r != StopOutcome::Stopped ==> final(projects)@ == old(projects)@,
{
    let ghost ps0 = views(old(projects)@);
    proof {
        lemma_find_from_props(ps0, id, 0);
    }
    match find_project(projects, id) {
        Option::None => StopOutcome::NotFound,
        Option::Some(i) => {
            if projects[i].completed {
                StopOutcome::AlreadyCompleted
            } else {
                let mut p = projects.remove(i);
                let ghost pv0 = p@;
                if p.sessions.len() > 0 {
                    let last_idx = p.sessions.len() - 1;
                    if p.sessions[last_idx].end_time.is_none() {
                        let s = p.sessions.pop().unwrap();
                        p.sessions.push(Session {
                            start_time: s.start_time,
                            end_time: Option::Some(now),
                        });
                        proof {
                            assert(p@.sessions =~= pv0.sessions.update(
                                pv0.sessions.len() - 1,
                                Session {
                                    start_time: pv0.sessions.last().start_time,
                                    end_time: Option::Some(now),
                                },
                            ));
                        }
                    }
                }
                p.completed = true;
                projects.insert(i, p);
                proof {
                    let closed = if pv0.sessions.len() > 0 && !pv0.sessions.last().closed() {
                        spec_close_last(pv0, now)
                    } else {
                        pv0
                    };
                    assert(views(projects@) =~= ps0.update(i as int, ProjectV { completed: true, ..closed }));
                }
                StopOutcome::Stopped
            }
        },
    }
}

pub open spec fn spec_start_message(title: Seq<char>, id: u32) -> Seq<char> {
    "Started tracking time for '"@ + title + "' with ID "@ + spec_dec(id as int)
}

pub open spec fn spec_not_found_message(id: u32) -> Seq<char> {
    "No project found with ID: "@ + spec_dec(id as int)
}

pub open spec fn spec_pause_message(r: PauseOutcome, id: u32) -> Seq<char> {
    match r {
        PauseOutcome::Paused => "Paused project with ID: "@ + spec_dec(id as int),
        PauseOutcome::AlreadyPaused => "The last session of this project is already paused."@,
        PauseOutcome::NoSessions => "No active session found for project with ID: "@
            + spec_dec(id as int),
        PauseOutcome::NotFound => spec_not_found_message(id),
    }
}

pub open spec fn spec_resume_message(r: ResumeOutcome, id: u32) -> Seq<char> {
    match r {
        ResumeOutcome::Resumed => "Resumed project with ID: "@ + spec_dec(id as int),
        ResumeOutcome::CannotResume => "The project with ID: "@ + spec_dec(id as int)
            + " is completed and cannot be resumed."@,
        ResumeOutcome::AlreadyRunning => "The last session of this project is already running."@,
        ResumeOutcome::NoSessions => "No sessions found for project with ID: "@
            + spec_dec(id as int),
        ResumeOutcome::NotFound => spec_not_found_message(id),
    }
}

pub open spec fn spec_stop_message(r: StopOutcome, id: u32) -> Seq<char> {
    match r {
        StopOutcome::Stopped => "Stopped project with ID: "@ + spec_dec(id as int)
            + ". The project is now complete."@,
        StopOutcome::AlreadyCompleted => "The project with ID: "@ + spec_dec(id as int)
            + " is already completed."@,
        StopOutcome::NotFound => spec_not_found_message(id),
    }
}

/// The confirmation line `start` prints.
pub fn start_message(title: &str, id: u32) -> (r: String)
    ensures
        r@ == spec_start_message(title@, id),
{
    let mut v: Vec<char> = Vec::new();
    push_str_chars(&mut v, "Started tracking time for '");
    push_str_chars(&mut v, title);
    push_str_chars(&mut v, "' with ID ");
    push_dec(&mut v, id as u128);
    chars_to_string(&v)
}

/// The line `pause` prints for each outcome.
pub fn pause_message(r: PauseOutcome, id: u32) -> (s: String)
    ensures
        s@ == spec_pause_message(r, id),
{
    let mut v: Vec<char> = Vec::new();
    match r {
        PauseOutcome::Paused => {
            push_str_chars(&mut v, "Paused project with ID: ");
            push_dec(&mut v, id as u128);
        },
        PauseOutcome::AlreadyPaused => {
            push_str_chars(&mut v, "The last session of this project is already paused.");
        },
        PauseOutcome::NoSessions => {
            push_str_chars(&mut v, "No active session found for project with ID: ");
            push_dec(&mut v, id as u128);
        },
        PauseOutcome::NotFound => {
            push_str_chars(&mut v, "No project found with ID: ");
            push_dec(&mut v, id as u128);
        },
    }
    chars_to_string(&v)
}

/// The line `resume` prints for each outcome.
pub fn resume_message(r: ResumeOutcome, id: u32) -> (s: String)
    ensures
        s@ == spec_resume_message(r, id),
{
    let mut v: Vec<char> = Vec::new();
    match r {
        ResumeOutcome::Resumed => {
            push_str_chars(&mut v, "Resumed project with ID: ");
            push_dec(&mut v, id as u128);
        },
        ResumeOutcome::CannotResume => {
            push_str_chars(&mut v, "The project with ID: ");
            push_dec(&mut v, id as u128);
            push_str_chars(&mut v, " is completed and cannot be resumed.");
        },
        ResumeOutcome::AlreadyRunning => {
            push_str_chars(&mut v, "The last session of this project is already running.");
        },
        ResumeOutcome::NoSessions => {
            push_str_chars(&mut v, "No sessions found for project with ID: ");
            push_dec(&mut v, id as u128);
        },
        ResumeOutcome::NotFound => {
            push_str_chars(&mut v, "No project found with ID: ");
            push_dec(&mut v, id as u128);
        },
    }
    chars_to_string(&v)
}

/// The line `stop` prints for each outcome.
pub fn stop_message(r: StopOutcome, id: u32) -> (s: String)
    ensures
        s@ == spec_stop_message(r, id),
{
    let mut v: Vec<char> = Vec::new();
    match r {
        StopOutcome::Stopped => {
            push_str_chars(&mut v, "Stopped project with ID: ");
            push_dec(&mut v, id as u128);
            push_str_chars(&mut v, ". The project is now complete.");
        },
        StopOutcome::AlreadyCompleted => {
            push_str_chars(&mut v, "The project with ID: ");
            push_dec(&mut v, id as u128);
            push_str_chars(&mut v, " is already completed.");
        },
        StopOutcome::NotFound => {
            push_str_chars(&mut v, "No project found with ID: ");
            push_dec(&mut v, id as u128);
        },
    }
    chars_to_string(&v)
}

} // verus!
