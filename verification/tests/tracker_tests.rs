use carbon::model::{Project, ProjState, Session, max_project_id, project_state};
use carbon::time::Timestamp;
use carbon::tracker::{start_with, pause_with, resume_with, stop_with, start_message,
    pause_message, resume_message, stop_message, PauseOutcome, ResumeOutcome, StopOutcome};
use carbon::codec::save_projects;

fn ts(year: u32, month: u32, day: u32, hour: u32, minute: u32, second: u32) -> Timestamp {
    Timestamp { year, month, day, hour, minute, second, offset_minutes: 0 }
}

#[test]
fn start_assigns_one_on_empty_store() {
    let mut projects: Vec<Project> = Vec::new();
    let id = start_with(&mut projects, String::from("X"), ts(2024, 1, 15, 10, 0, 0));
    assert_eq!(id, 1);
    assert_eq!(projects.len(), 1);
    assert_eq!(projects[0].id, 1);
    assert_eq!(projects[0].title, "X");
    assert_eq!(projects[0].sessions.len(), 1);
    assert!(projects[0].sessions[0].end_time.is_none());
    assert!(!projects[0].completed);
}

#[test]
fn start_ids_strictly_increase() {
    let mut projects: Vec<Project> = Vec::new();
    let id1 = start_with(&mut projects, String::from("X"), ts(2024, 1, 15, 10, 0, 0));
    let id2 = start_with(&mut projects, String::from("Y"), ts(2024, 1, 15, 11, 0, 0));
    assert_eq!(id1, 1);
    assert_eq!(id2, 2);
    assert!(id2 > id1);
    assert_eq!(max_project_id(&projects), 2);
}

#[test]
fn full_lifecycle_scenario() {
    let mut projects: Vec<Project> = Vec::new();
    let id = start_with(&mut projects, String::from("Carbon"), ts(2024, 1, 15, 10, 0, 0));
    assert_eq!(id, 1);
    assert_eq!(project_state(&projects[0]), ProjState::Running);
    assert_eq!(projects[0].sessions.len(), 1);

    let r = pause_with(&mut projects, 1, ts(2024, 1, 15, 11, 0, 0));
    assert_eq!(r, PauseOutcome::Paused);
    assert_eq!(project_state(&projects[0]), ProjState::Paused);
    assert!(projects[0].sessions[0].end_time.is_some());

    let r = resume_with(&mut projects, 1, ts(2024, 1, 15, 12, 0, 0));
    assert_eq!(r, ResumeOutcome::Resumed);
    assert_eq!(project_state(&projects[0]), ProjState::Running);
    assert_eq!(projects[0].sessions.len(), 2);

    let r = stop_with(&mut projects, 1, ts(2024, 1, 15, 13, 0, 0));
    assert_eq!(r, StopOutcome::Stopped);
    assert_eq!(project_state(&projects[0]), ProjState::Completed);
    assert_eq!(projects[0].sessions.len(), 2);
    assert!(projects[0].sessions[0].end_time.is_some());
    assert!(projects[0].sessions[1].end_time.is_some());
}

#[test]
fn pause_on_paused_is_noop_on_persisted_state() {
    let mut projects: Vec<Project> = Vec::new();
    start_with(&mut projects, String::from("X"), ts(2024, 1, 15, 10, 0, 0));
    pause_with(&mut projects, 1, ts(2024, 1, 15, 11, 0, 0));
    let before = save_projects(&projects);
    let r = pause_with(&mut projects, 1, ts(2024, 1, 15, 12, 0, 0));
    assert_eq!(r, PauseOutcome::AlreadyPaused);
    let after = save_projects(&projects);
    assert_eq!(before, after);
    assert_eq!(
        pause_message(r, 1),
        "The last session of this project is already paused."
    );
}

#[test]
fn resume_on_completed_never_appends() {
    let mut projects: Vec<Project> = Vec::new();
    start_with(&mut projects, String::from("X"), ts(2024, 1, 15, 10, 0, 0));
    stop_with(&mut projects, 1, ts(2024, 1, 15, 11, 0, 0));
    let before = save_projects(&projects);
    let r = resume_with(&mut projects, 1, ts(2024, 1, 15, 12, 0, 0));
    assert_eq!(r, ResumeOutcome::CannotResume);
    assert_eq!(projects[0].sessions.len(), 1);
    assert_eq!(save_projects(&projects), before);
    assert_eq!(
        resume_message(r, 1),
        "The project with ID: 1 is completed and cannot be resumed."
    );
}

#[test]
fn unknown_id_is_reported() {
    let mut projects: Vec<Project> = Vec::new();
    start_with(&mut projects, String::from("X"), ts(2024, 1, 15, 10, 0, 0));
    assert_eq!(pause_with(&mut projects, 5, ts(2024, 1, 15, 11, 0, 0)), PauseOutcome::NotFound);
    assert_eq!(resume_with(&mut projects, 5, ts(2024, 1, 15, 11, 0, 0)), ResumeOutcome::NotFound);
    assert_eq!(stop_with(&mut projects, 5, ts(2024, 1, 15, 11, 0, 0)), StopOutcome::NotFound);
    assert_eq!(pause_message(PauseOutcome::NotFound, 5), "No project found with ID: 5");
    assert_eq!(resume_message(ResumeOutcome::NotFound, 5), "No project found with ID: 5");
    assert_eq!(stop_message(StopOutcome::NotFound, 5), "No project found with ID: 5");
}

#[test]
fn resume_on_running_is_rejected() {
    let mut projects: Vec<Project> = Vec::new();
    start_with(&mut projects, String::from("X"), ts(2024, 1, 15, 10, 0, 0));
    let r = resume_with(&mut projects, 1, ts(2024, 1, 15, 11, 0, 0));
    assert_eq!(r, ResumeOutcome::AlreadyRunning);
    assert_eq!(projects[0].sessions.len(), 1);
    assert_eq!(resume_message(r, 1), "The last session of this project is already running.");
}

#[test]
fn stop_on_completed_is_reported() {
    let mut projects: Vec<Project> = Vec::new();
    start_with(&mut projects, String::from("X"), ts(2024, 1, 15, 10, 0, 0));
    stop_with(&mut projects, 1, ts(2024, 1, 15, 11, 0, 0));
    let before = save_projects(&projects);
    let r = stop_with(&mut projects, 1, ts(2024, 1, 15, 12, 0, 0));
    assert_eq!(r, StopOutcome::AlreadyCompleted);
    assert_eq!(save_projects(&projects), before);
    assert_eq!(stop_message(r, 1), "The project with ID: 1 is already completed.");
}

#[test]
fn pause_without_sessions_is_reported() {
    let mut projects = vec![Project {
        id: 7,
        title: String::from("empty"),
        sessions: Vec::new(),
        completed: false,
    }];
    let r = pause_with(&mut projects, 7, ts(2024, 1, 15, 11, 0, 0));
    assert_eq!(r, PauseOutcome::NoSessions);
    assert_eq!(pause_message(r, 7), "No active session found for project with ID: 7");
    let r = resume_with(&mut projects, 7, ts(2024, 1, 15, 11, 0, 0));
    assert_eq!(r, ResumeOutcome::NoSessions);
    assert_eq!(resume_message(r, 7), "No sessions found for project with ID: 7");
}

#[test]
fn stop_closes_open_session() {
    let mut projects: Vec<Project> = Vec::new();
    start_with(&mut projects, String::from("X"), ts(2024, 1, 15, 10, 0, 0));
    let r = stop_with(&mut projects, 1, ts(2024, 1, 15, 11, 0, 0));
    assert_eq!(r, StopOutcome::Stopped);
    assert!(projects[0].completed);
    assert_eq!(
        projects[0].sessions[0].end_time,
        Some(ts(2024, 1, 15, 11, 0, 0))
    );
    assert_eq!(stop_message(r, 1), "Stopped project with ID: 1. The project is now complete.");
}

#[test]
fn start_message_text() {
    assert_eq!(
        start_message("Carbon", 3),
        "Started tracking time for 'Carbon' with ID 3"
    );
}

#[test]
fn only_targeted_project_changes() {
    let mut projects: Vec<Project> = Vec::new();
    start_with(&mut projects, String::from("A"), ts(2024, 1, 15, 10, 0, 0));
    start_with(&mut projects, String::from("B"), ts(2024, 1, 15, 10, 30, 0));
    pause_with(&mut projects, 2, ts(2024, 1, 15, 11, 0, 0));
    assert!(projects[0].sessions[0].end_time.is_none());
    assert!(projects[1].sessions[0].end_time.is_some());
}

#[test]
fn session_copies_keep_fields() {
    let s = Session { start_time: ts(2024, 1, 1, 0, 0, 0), end_time: None };
    let c = s;
    assert_eq!(c.start_time, ts(2024, 1, 1, 0, 0, 0));
    assert!(c.end_time.is_none());
}
