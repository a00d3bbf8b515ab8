//! Properties of the state machine, stated and proved over the same
//! specification functions the operations are verified against.

use vstd::prelude::*;
use crate::time::Timestamp;
use crate::model::{ProjectV, ProjState, Session, collection_wf, spec_max_id, spec_find,
    lemma_find_from_props};
use crate::tracker::{spec_start, spec_pause, spec_resume, spec_stop, spec_close_last,
    PauseOutcome, ResumeOutcome, lemma_max_id_bound};
use crate::codec::spec_save;

verus! {

/// A pause immediately followed by a resume, at the given times.
pub open spec fn spec_pause_resume(p: ProjectV, pause_at: Timestamp, resume_at: Timestamp) -> ProjectV {
    ProjectV {
        sessions: spec_close_last(p, pause_at).sessions.push(
            Session { start_time: resume_at, end_time: Option::None },
        ),
        ..p
    }
}

/// `p` after `times.len()` further pause/resume rounds.
pub open spec fn spec_after_rounds(p: ProjectV, times: Seq<(Timestamp, Timestamp)>) -> ProjectV
    decreases times.len(),
{
    if times.len() == 0 {
        p
    } else {
        spec_pause_resume(spec_after_rounds(p, times.drop_last()), times.last().0, times.last().1)
    }
}

/// A single project driven from its creation through any number of
/// pause/resume rounds and a final stop ends `Completed`, with every
/// session closed, and with one session more than the number of rounds.
pub proof fn law_lifecycle(title: Seq<char>, t0: Timestamp, times: Seq<(Timestamp, Timestamp)>, t_end: Timestamp)
    ensures
        ({
            let started = ProjectV {
                id: 1u32,
                title: title,
                sessions: seq![Session { start_time: t0, end_time: Option::None }],
                completed: false,
            };
            let worked = spec_after_rounds(started, times);
            let stopped = ProjectV { completed: true, ..spec_close_last(worked, t_end) };
            &&& stopped.state() == ProjState::Completed
            &&& stopped.sessions.len() == times.len() + 1
            &&& forall|i: int| 0 <= i < stopped.sessions.len() ==> stopped.sessions[i].closed()
        }),
{
    let started = ProjectV {
        id: 1u32,
        title: title,
        sessions: seq![Session { start_time: t0, end_time: Option::None }],
        completed: false,
    };
    lemma_rounds_shape(started, times);
    let worked = spec_after_rounds(started, times);
    let stopped = ProjectV { completed: true, ..spec_close_last(worked, t_end) };
    assert forall|i: int| 0 <= i < stopped.sessions.len() implies stopped.sessions[i].closed() by {
        if i < stopped.sessions.len() - 1 {
            assert(worked.sessions[i].closed());
        }
    }
}

/// Each pause/resume round keeps every non-final session closed and grows
/// the session list by one.
pub proof fn lemma_rounds_shape(p: ProjectV, times: Seq<(Timestamp, Timestamp)>)
    requires
        p.sessions.len() > 0,
        forall|i: int| 0 <= i < p.sessions.len() - 1 ==> p.sessions[i].closed(),
    ensures
        spec_after_rounds(p, times).sessions.len() == p.sessions.len() + times.len(),
        forall|i: int| 0 <= i < spec_after_rounds(p, times).sessions.len() - 1
            ==> spec_after_rounds(p, times).sessions[i].closed(),
        spec_after_rounds(p, times).completed == p.completed,
        spec_after_rounds(p, times).id == p.id,
    decreases times.len(),
{
    if times.len() > 0 {
        lemma_rounds_shape(p, times.drop_last());
    }
}

/// Fresh ids: a started project gets an id strictly greater than every id
/// in the collection, so ids never repeat; on an empty collection the
/// first id is 1, and a second start gets the next, strictly greater id.
pub proof fn law_fresh_ids(ps: Seq<ProjectV>, title1: Seq<char>, title2: Seq<char>, t1: Timestamp, t2: Timestamp)
    requires
        spec_max_id(ps) < u32::MAX - 1,
    ensures
        ({
            let once = spec_start(ps, title1, t1);
            let id1 = once.last().id;
            let twice = spec_start(once, title2, t2);
            let id2 = twice.last().id;
            &&& forall|i: int| 0 <= i < ps.len() ==> ps[i].id < id1
            &&& id2 == id1 + 1
            &&& ps.len() == 0 ==> id1 == 1
        }),
{
    lemma_max_id_bound(ps);
    let once = spec_start(ps, title1, t1);
    assert(once.drop_last() =~= ps);
    assert(spec_max_id(once) == once.last().id);
}

/// A pause of an already-paused project changes nothing: the collection,
/// and with it the persisted text, stays exactly as it was, and the
/// outcome names the redundancy.
pub proof fn law_pause_noop(ps: Seq<ProjectV>, id: u32, now: Timestamp)
    requires
        spec_find(ps, id) >= 0,
        ps[spec_find(ps, id)].sessions.len() > 0,
        ps[spec_find(ps, id)].sessions.last().closed(),
    ensures
        spec_pause(ps, id, now).0 == ps,
        spec_pause(ps, id, now).1 == PauseOutcome::AlreadyPaused,
        spec_save(spec_pause(ps, id, now).0) == spec_save(ps),
{
    lemma_find_from_props(ps, id, 0);
}

/// A resume of a completed project never appends a session: the collection
/// stays exactly as it was, and the outcome says it cannot be resumed.
pub proof fn law_resume_completed(ps: Seq<ProjectV>, id: u32, now: Timestamp)
    requires
        spec_find(ps, id) >= 0,
        ps[spec_find(ps, id)].sessions.len() > 0,
        ps[spec_find(ps, id)].completed,
    ensures
        spec_resume(ps, id, now).0 == ps,
        spec_resume(ps, id, now).1 == ResumeOutcome::CannotResume,
        spec_save(spec_resume(ps, id, now).0) == spec_save(ps),
{
    lemma_find_from_props(ps, id, 0);
}

} // verus!
