use carbon::model::{Project, Session};
use carbon::time::{Timestamp, prev_day, epoch_seconds};
use carbon::chars::format_duration;
use carbon::report::{status_report, list_all_report, list_date_report};
use carbon::clock::now;

fn ts(year: u32, month: u32, day: u32, hour: u32, minute: u32, second: u32) -> Timestamp {
    Timestamp { year, month, day, hour, minute, second, offset_minutes: 0 }
}

#[test]
fn duration_formatting_exact_values() {
    assert_eq!(format_duration(3723), "01:02:03");
    assert_eq!(format_duration(90000), "25:00:00");
    assert_eq!(format_duration(0), "00:00:00");
    assert_eq!(format_duration(59), "00:00:59");
    assert_eq!(format_duration(-3723), "-1:-2:-3");
}

#[test]
fn session_duration_from_midnight() {
    let start = ts(2024, 1, 15, 0, 0, 0);
    let end = ts(2024, 1, 15, 1, 2, 3);
    let secs = epoch_seconds(&end) - epoch_seconds(&start);
    assert_eq!(secs, 3723);
    assert_eq!(format_duration(secs as i128), "01:02:03");
}

#[test]
fn durations_respect_offsets() {
    let start = Timestamp { year: 2024, month: 1, day: 15, hour: 10, minute: 0, second: 0,
        offset_minutes: 60 };
    let end = Timestamp { year: 2024, month: 1, day: 15, hour: 10, minute: 0, second: 0,
        offset_minutes: 0 };
    assert_eq!(epoch_seconds(&end) - epoch_seconds(&start), 3600);
}

#[test]
fn status_report_exact_text() {
    let projects = vec![
        Project {
            id: 1,
            title: String::from("Carbon"),
            sessions: vec![Session {
                start_time: ts(2024, 1, 15, 10, 0, 0),
                end_time: Some(ts(2024, 1, 15, 11, 2, 3)),
            }],
            completed: false,
        },
        Project {
            id: 2,
            title: String::from("Done"),
            sessions: vec![Session {
                start_time: ts(2024, 1, 15, 10, 0, 0),
                end_time: Some(ts(2024, 1, 15, 10, 30, 0)),
            }],
            completed: true,
        },
    ];
    let r = status_report(&projects, &ts(2024, 1, 15, 12, 0, 0));
    assert_eq!(
        r,
        "Project ID: 1, Title: Carbon\n  Session 1: started at 2024-01-15 10:00:00, ended at 2024-01-15 11:02:03. Duration: 01:02:03\n  Total time spent on project: 01:02:03\n"
    );
}

#[test]
fn status_counts_open_session_up_to_now() {
    let projects = vec![Project {
        id: 1,
        title: String::from("Live"),
        sessions: vec![Session { start_time: ts(2024, 1, 15, 10, 0, 0), end_time: None }],
        completed: false,
    }];
    let r = status_report(&projects, &ts(2024, 1, 15, 10, 20, 0));
    assert_eq!(
        r,
        "Project ID: 1, Title: Live\n  Session 1: started at 2024-01-15 10:00:00, ended at 2024-01-15 10:20:00. Duration: 00:20:00\n  Total time spent on project: 00:20:00\n"
    );
}

fn two_completed_one_open() -> Vec<Project> {
    vec![
        Project {
            id: 1,
            title: String::from("A"),
            sessions: vec![Session {
                start_time: ts(2024, 2, 29, 22, 0, 0),
                end_time: Some(ts(2024, 2, 29, 23, 59, 59)),
            }],
            completed: true,
        },
        Project {
            id: 2,
            title: String::from("B"),
            sessions: vec![Session {
                start_time: ts(2024, 3, 1, 9, 0, 0),
                end_time: Some(ts(2024, 3, 1, 10, 0, 0)),
            }],
            completed: true,
        },
        Project {
            id: 3,
            title: String::from("C"),
            sessions: vec![Session { start_time: ts(2024, 3, 1, 11, 0, 0), end_time: None }],
            completed: false,
        },
    ]
}

#[test]
fn list_all_includes_completed_with_spacing() {
    let r = list_all_report(&two_completed_one_open());
    assert_eq!(
        r,
        "Project ID: 1, Title: A\n  Total time spent on project: 01:59:59\n\nProject ID: 2, Title: B\n  Total time spent on project: 01:00:00\n\n"
    );
}

#[test]
fn day_bucketing_across_boundary() {
    let projects = two_completed_one_open();
    let today = ts(2024, 3, 1, 12, 0, 0);
    let yesterday = prev_day(&today);
    assert_eq!((yesterday.year, yesterday.month, yesterday.day), (2024, 2, 29));

    let today_report = list_date_report(&projects, &today);
    assert!(today_report.contains("Title: B"));
    assert!(!today_report.contains("Title: A"));
    assert!(!today_report.contains("Title: C"));

    let yesterday_report = list_date_report(&projects, &yesterday);
    assert!(yesterday_report.contains("Title: A"));
    assert!(!yesterday_report.contains("Title: B"));
}

#[test]
fn prev_day_over_month_and_year_bounds() {
    let d = prev_day(&ts(2024, 3, 1, 0, 0, 0));
    assert_eq!((d.year, d.month, d.day), (2024, 2, 29));
    let d = prev_day(&ts(2023, 3, 1, 0, 0, 0));
    assert_eq!((d.year, d.month, d.day), (2023, 2, 28));
    let d = prev_day(&ts(2024, 1, 1, 0, 0, 0));
    assert_eq!((d.year, d.month, d.day), (2023, 12, 31));
    let d = prev_day(&ts(2100, 3, 1, 0, 0, 0));
    assert_eq!((d.year, d.month, d.day), (2100, 2, 28));
}

#[test]
fn list_on_empty_collection_is_empty() {
    let projects: Vec<Project> = Vec::new();
    assert_eq!(list_all_report(&projects), "");
    assert_eq!(list_date_report(&projects, &ts(2024, 1, 1, 0, 0, 0)), "");
    assert_eq!(status_report(&projects, &ts(2024, 1, 1, 0, 0, 0)), "");
}

#[test]
fn clock_gives_plausible_fields() {
    let t = now();
    assert!(1 <= t.month && t.month <= 12);
    assert!(1 <= t.day && t.day <= 31);
    assert!(t.hour <= 23 && t.minute <= 59 && t.second <= 59);
    assert!(2000 < t.year && t.year < 9999);
}
