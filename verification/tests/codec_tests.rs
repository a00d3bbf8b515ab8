use carbon::model::{Project, Session};
use carbon::time::Timestamp;
use carbon::codec::save_projects;
use carbon::parse::load_projects;

fn ts(year: u32, month: u32, day: u32, hour: u32, minute: u32, second: u32) -> Timestamp {
    Timestamp { year, month, day, hour, minute, second, offset_minutes: 0 }
}

fn sample() -> Vec<Project> {
    vec![
        Project {
            id: 1,
            title: String::from("Carbon"),
            sessions: vec![
                Session {
                    start_time: ts(2024, 1, 15, 10, 0, 0),
                    end_time: Some(ts(2024, 1, 15, 11, 2, 3)),
                },
                Session { start_time: ts(2024, 1, 15, 12, 0, 0), end_time: None },
            ],
            completed: false,
        },
        Project {
            id: 2,
            title: String::from("Other"),
            sessions: vec![Session {
                start_time: Timestamp {
                    year: 2023,
                    month: 12,
                    day: 31,
                    hour: 23,
                    minute: 0,
                    second: 0,
                    offset_minutes: -300,
                },
                end_time: Some(Timestamp {
                    year: 2023,
                    month: 12,
                    day: 31,
                    hour: 23,
                    minute: 59,
                    second: 59,
                    offset_minutes: -300,
                }),
            }],
            completed: true,
        },
    ]
}

#[test]
fn save_emits_exact_text() {
    let text = save_projects(&sample());
    assert_eq!(
        text,
        "[{\"id\":1,\"title\":\"Carbon\",\"sessions\":[{\"start_time\":\"2024-01-15T10:00:00+00:00\",\"end_time\":\"2024-01-15T11:02:03+00:00\"},{\"start_time\":\"2024-01-15T12:00:00+00:00\",\"end_time\":null}],\"completed\":false},{\"id\":2,\"title\":\"Other\",\"sessions\":[{\"start_time\":\"2023-12-31T23:00:00-05:00\",\"end_time\":\"2023-12-31T23:59:59-05:00\"}],\"completed\":true}]"
    );
}

#[test]
fn save_of_empty_collection() {
    let projects: Vec<Project> = Vec::new();
    assert_eq!(save_projects(&projects), "[]");
}

#[test]
fn round_trip_is_byte_identical() {
    let first = save_projects(&sample());
    let loaded = load_projects(&first);
    let second = save_projects(&loaded);
    assert_eq!(first, second);
    assert_eq!(loaded.len(), 2);
    assert_eq!(loaded[0].id, 1);
    assert_eq!(loaded[0].title, "Carbon");
    assert_eq!(loaded[0].sessions.len(), 2);
    assert_eq!(loaded[0].sessions[0].end_time, Some(ts(2024, 1, 15, 11, 2, 3)));
    assert!(loaded[1].completed);
}

#[test]
fn round_trip_with_escaped_title() {
    let projects = vec![Project {
        id: 1,
        title: String::from("a\"b\\c\nd\te\u{1}f"),
        sessions: vec![Session { start_time: ts(2024, 1, 1, 0, 0, 0), end_time: None }],
        completed: false,
    }];
    let first = save_projects(&projects);
    let loaded = load_projects(&first);
    assert_eq!(loaded.len(), 1);
    assert_eq!(loaded[0].title, "a\"b\\c\nd\te\u{1}f");
    assert_eq!(save_projects(&loaded), first);
}

#[test]
fn emitted_text_is_valid_json() {
    let text = save_projects(&sample());
    let v: serde_json::Value = serde_json::from_str(&text).unwrap();
    assert_eq!(v[0]["id"], serde_json::Value::from(1));
    assert_eq!(v[0]["title"], serde_json::Value::from("Carbon"));
    assert_eq!(v[1]["completed"], serde_json::Value::from(true));
    assert!(v[0]["sessions"][1]["end_time"].is_null());
}

#[test]
fn load_accepts_fractional_seconds() {
    let text = "[{\"id\":1,\"title\":\"X\",\"sessions\":[{\"start_time\":\"2024-01-15T10:00:00.123456789+01:00\",\"end_time\":null}],\"completed\":false}]";
    let loaded = load_projects(text);
    assert_eq!(loaded.len(), 1);
    let st = loaded[0].sessions[0].start_time;
    assert_eq!(st.hour, 10);
    assert_eq!(st.offset_minutes, 60);
}

#[test]
fn load_of_garbage_is_empty() {
    assert!(load_projects("").is_empty());
    assert!(load_projects("not json").is_empty());
    assert!(load_projects("{\"id\":1}").is_empty());
    assert!(load_projects("[{\"id\":1}]").is_empty());
    assert!(load_projects("[]").is_empty());
}

#[test]
fn load_rejects_trailing_text() {
    let text = save_projects(&sample());
    let with_tail = format!("{} ", text);
    assert!(load_projects(&with_tail).is_empty());
}

#[test]
fn load_rejects_duplicate_ids() {
    let text = "[{\"id\":1,\"title\":\"A\",\"sessions\":[{\"start_time\":\"2024-01-15T10:00:00+00:00\",\"end_time\":null}],\"completed\":false},{\"id\":1,\"title\":\"B\",\"sessions\":[{\"start_time\":\"2024-01-15T10:00:00+00:00\",\"end_time\":null}],\"completed\":false}]";
    assert!(load_projects(text).is_empty());
}

#[test]
fn load_rejects_open_session_before_last() {
    let text = "[{\"id\":1,\"title\":\"A\",\"sessions\":[{\"start_time\":\"2024-01-15T10:00:00+00:00\",\"end_time\":null},{\"start_time\":\"2024-01-15T11:00:00+00:00\",\"end_time\":null}],\"completed\":false}]";
    assert!(load_projects(text).is_empty());
}

#[test]
fn load_rejects_out_of_range_date() {
    let text = "[{\"id\":1,\"title\":\"X\",\"sessions\":[{\"start_time\":\"2024-13-15T10:00:00+00:00\",\"end_time\":null}],\"completed\":false}]";
    assert!(load_projects(text).is_empty());
}

#[test]
fn load_matches_serde_reading_of_same_text() {
    let text = save_projects(&sample());
    let v: serde_json::Value = serde_json::from_str(&text).unwrap();
    let loaded = load_projects(&text);
    assert_eq!(
        v[0]["sessions"][0]["start_time"],
        serde_json::Value::from("2024-01-15T10:00:00+00:00")
    );
    assert_eq!(loaded[0].sessions[0].start_time, ts(2024, 1, 15, 10, 0, 0));
}
