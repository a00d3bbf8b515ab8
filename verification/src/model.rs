//! Projects and sessions: the data the tracker works on.
//!
//! A project is a titled, ordered list of timed sessions plus a `completed`
//! flag. At most the last session may still be running (no end time), and a
//! completed project has every session closed. The whole collection is an
//! ordered list of projects with pairwise distinct ids.

use vstd::prelude::*;
use crate::time::Timestamp;
use crate::time::spec_epoch_seconds;

verus! {

/// One contiguous tracked interval; no end time means it is still running.
#[derive(Clone, Copy, Debug)]
pub struct Session {
    pub start_time: Timestamp,
    pub end_time: Option<Timestamp>,
}

impl Session {
    pub open spec fn wf(self) -> bool {
        &&& self.start_time.wf()
        &&& match self.end_time {
            Option::Some(e) => e.wf(),
            Option::None => true,
        }
    }

    pub open spec fn closed(self) -> bool {
        self.end_time is Some
    }

    /// Seconds from start to end, for a closed session.
    pub open spec fn duration_seconds(self) -> int
        recommends
            self.closed(),
    {
        spec_epoch_seconds(self.end_time->Some_0) - spec_epoch_seconds(self.start_time)
    }
}

/// A named unit of tracked work.
pub struct Project {
    pub id: u32,
    pub title: String,
    pub sessions: Vec<Session>,
    pub completed: bool,
}

/// The mathematical model of a project.
pub struct ProjectV {
    pub id: u32,
    pub title: Seq<char>,
    pub sessions: Seq<Session>,
    pub completed: bool,
}

impl View for Project {
    type V = ProjectV;

    open spec fn view(&self) -> ProjectV {
        ProjectV {
            id: self.id,
            title: self.title@,
            sessions: self.sessions@,
            completed: self.completed,
        }
    }
}

#[derive(Clone, Copy, PartialEq, Eq, Structural, Debug)]
pub enum ProjState {
    Running,
    Paused,
    Completed,
}

impl ProjectV {
    pub open spec fn sessions_wf(self) -> bool {
        forall|i: int| 0 <= i < self.sessions.len() ==> self.sessions[i].wf()
    }

    /// Every session but possibly the last is closed, and a completed
    /// project has all of them closed.
    pub open spec fn wf(self) -> bool {
        &&& self.sessions_wf()
        &&& forall|i: int| 0 <= i < self.sessions.len() - 1 ==> self.sessions[i].closed()
        &&& self.completed ==> (forall|i: int|
            0 <= i < self.sessions.len() ==> self.sessions[i].closed())
    }

    pub open spec fn state(self) -> ProjState {
        if self.completed {
            ProjState::Completed
        } else if self.sessions.len() > 0 && !self.sessions.last().closed() {
            ProjState::Running
        } else {
            ProjState::Paused
        }
    }

    /// Total seconds over all sessions, an open one counted up to `now`.
    pub open spec fn total_seconds_at(self, now: Timestamp) -> int {
        spec_total_at(self.sessions, now)
    }

    /// Total seconds over the closed sessions, open ones skipped.
    pub open spec fn total_seconds_closed(self) -> int {
        spec_total_closed(self.sessions)
    }

    /// Some session ends on the same local calendar date as `date`.
    pub open spec fn has_end_on_date(self, date: Timestamp) -> bool {
        exists|i: int|
            0 <= i < self.sessions.len() && self.sessions[i].end_time is Some
                && (self.sessions[i].end_time->Some_0).same_date(date)
    }
}

pub open spec fn spec_total_at(ss: Seq<Session>, now: Timestamp) -> int
    decreases ss.len(),
{
    if ss.len() == 0 {
        0
    } else {
        spec_total_at(ss.drop_last(), now) + (match ss.last().end_time {
            Option::Some(e) => spec_epoch_seconds(e),
            Option::None => spec_epoch_seconds(now),
        } - spec_epoch_seconds(ss.last().start_time))
    }
}

pub open spec fn spec_total_closed(ss: Seq<Session>) -> int
    decreases ss.len(),
{
    if ss.len() == 0 {
        0
    } else {
        spec_total_closed(ss.drop_last()) + if ss.last().closed() {
            ss.last().duration_seconds()
        } else {
            0
        }
    }
}

/// The models of a sequence of projects.
pub open spec fn views(ps: Seq<Project>) -> Seq<ProjectV> {
    ps.map_values(|p: Project| p@)
}

/// Pairwise distinct ids, and every project well-formed.
pub open spec fn collection_wf(ps: Seq<ProjectV>) -> bool {
    &&& forall|i: int| 0 <= i < ps.len() ==> ps[i].wf()
    &&& forall|i: int, j: int| 0 <= i < j < ps.len() ==> ps[i].id != ps[j].id
}

/// The largest id in the collection, 0 if it is empty.
pub open spec fn spec_max_id(ps: Seq<ProjectV>) -> u32
    decreases ps.len(),
{
    if ps.len() == 0 {
        0u32
    } else {
        let m = spec_max_id(ps.drop_last());
        if ps.last().id > m {
            ps.last().id
        } else {
            m
        }
    }
}

/// The first index whose project has id `id`, or -1 if there is none.
pub open spec fn spec_find_from(ps: Seq<ProjectV>, id: u32, i: int) -> int
    decreases ps.len() - i,
{
    if i < 0 || i >= ps.len() {
        -1
    } else if ps[i].id == id {
        i
    } else {
        spec_find_from(ps, id, i + 1)
    }
}

pub open spec fn spec_find(ps: Seq<ProjectV>, id: u32) -> int {
    spec_find_from(ps, id, 0)
}

pub broadcast proof fn lemma_find_from_props(ps: Seq<ProjectV>, id: u32, i: int)
    requires
        0 <= i <= ps.len(),
    ensures
        -1 <= #[trigger] spec_find_from(ps, id, i) < ps.len(),
        spec_find_from(ps, id, i) >= 0 ==> i <= spec_find_from(ps, id, i)
            && ps[spec_find_from(ps, id, i)].id == id,
        spec_find_from(ps, id, i) == -1 ==> forall|j: int| i <= j < ps.len() ==> ps[j].id != id,
    decreases ps.len() - i,
{
    if i < ps.len() && ps[i].id != id {
        lemma_find_from_props(ps, id, i + 1);
    }
}

/// A session's well-formedness, computed.
pub fn session_wf(s: &Session) -> (r: bool)
    ensures
        r == s.wf(),
{
    if !crate::time::timestamp_wf(&s.start_time) {
        return false;
    }
    match s.end_time {
        Option::Some(e) => crate::time::timestamp_wf(&e),
        Option::None => true,
    }
}

/// A project's well-formedness, computed.
pub fn project_wf(p: &Project) -> (r: bool)
    ensures
        r == p@.wf(),
{
    let n = p.sessions.len();
    let mut i: usize = 0;
    while i < n
        invariant
            i <= n,
            n == p.sessions@.len(),
            forall|k: int| 0 <= k < i ==> (#[trigger] p.sessions@[k]).wf(),
            forall|k: int| 0 <= k < i && k < n - 1 ==> (#[trigger] p.sessions@[k]).closed(),
        decreases n - i,
    {
        let s = p.sessions[i];
        if !session_wf(&s) {
            return false;
        }
        if i < n - 1 && s.end_time.is_none() {
            return false;
        }
        i = i + 1;
    }
    if p.completed && n > 0 && p.sessions[n - 1].end_time.is_none() {
        return false;
    }
    true
}

/// The whole collection's well-formedness, computed.
pub fn collection_ok(projects: &Vec<Project>) -> (r: bool)
    ensures
        r == collection_wf(views(projects@)),
{
    let ghost ps = views(projects@);
    let n = projects.len();
    let mut i: usize = 0;
    while i < n
        invariant
            i <= n,
            ps == views(projects@),
            n == ps.len(),
            forall|k: int| 0 <= k < i ==> (#[trigger] ps[k]).wf(),
        decreases n - i,
    {
        if !project_wf(&projects[i]) {
            proof {
                assert(ps[i as int] == projects@[i as int]@);
            }
            return false;
        }
        proof {
            assert(ps[i as int] == projects@[i as int]@);
        }
        i = i + 1;
    }
    let mut a: usize = 0;
    while a < n
        invariant
            a <= n,
            ps == views(projects@),
            n == ps.len(),
            forall|x: int, y: int| 0 <= x < y < ps.len() && x < a ==> ps[x].id != ps[y].id,
        decreases n - a,
    {
        let mut b: usize = a + 1;
        while b < n
            invariant
                a < b <= n || (a + 1 == b && b > n),
                a < n,
                ps == views(projects@),
                n == ps.len(),
                forall|y: int| a < y < b ==> ps[a as int].id != ps[y].id,
            decreases n - b,
        {
            if projects[a].id == projects[b].id {
                proof {
                    assert(ps[a as int] == projects@[a as int]@);
                    assert(ps[b as int] == projects@[b as int]@);
                }
                return false;
            }
            proof {
                assert(ps[a as int] == projects@[a as int]@);
                assert(ps[b as int] == projects@[b as int]@);
            }
            b = b + 1;
        }
        a = a + 1;
    }
    proof {
        assert(forall|k: int| 0 <= k < ps.len() ==> (#[trigger] ps[k]).wf());
    }
    true
}

/// The state of a project, computed.
pub fn project_state(p: &Project) -> (s: ProjState)
    ensures
        s == p@.state(),
{
    if p.completed {
        ProjState::Completed
    } else if p.sessions.len() > 0 && p.sessions[p.sessions.len() - 1].end_time.is_none() {
        ProjState::Running
    } else {
        ProjState::Paused
    }
}

/// The largest project id in the collection (0 when empty).
pub fn max_project_id(projects: &Vec<Project>) -> (r: u32)
    ensures
        r == spec_max_id(views(projects@)),
{
    let mut m: u32 = 0;
    let mut i: usize = 0;
    while i < projects.len()
        invariant
            i <= projects@.len(),
            m == spec_max_id(views(projects@).take(i as int)),
        decreases projects@.len() - i,
    {
        proof {
            assert(views(projects@).take(i + 1).drop_last() =~= views(projects@).take(i as int));
            assert(views(projects@).take(i + 1).last() == projects@[i as int]@);
        }
        if projects[i].id > m {
            m = projects[i].id;
        }
        i = i + 1;
    }
    proof {
        assert(views(projects@).take(projects@.len() as int) =~= views(projects@));
    }
    m
}

/// The first position holding id `id`.
pub fn find_project(projects: &Vec<Project>, id: u32) -> (r: Option<usize>)
    ensures
        match r {
            Option::Some(i) => i < projects@.len() && spec_find(views(projects@), id) == i,
            Option::None => spec_find(views(projects@), id) == -1,
        },
{
    let ghost ps = views(projects@);
    let mut i: usize = 0;
    while i < projects.len()
        invariant
            i <= ps.len(),
            ps == views(projects@),
            spec_find(ps, id) == spec_find_from(ps, id, i as int),
        decreases ps.len() - i,
    {
        if projects[i].id == id {
            assert(spec_find_from(ps, id, i as int) == i);
            return Option::Some(i);
        }
        assert(spec_find_from(ps, id, i as int) == spec_find_from(ps, id, i + 1));
        i = i + 1;
    }
    assert(spec_find_from(ps, id, ps.len() as int) == -1);
    Option::None
}

} // verus!
