use codetimelens::database::{
    date_entries, group_dated, row_of, DatedEntry, SessionEntry,
};
use codetimelens::history::{read_history, summarize, timed_session, TimedSession};
use codetimelens::moment::{Moment, Stamp};
use codetimelens::session_tracker::{line_for, CommitInfo, SessionTracker};

fn entry(start: &str, end: &str, path: &str) -> SessionEntry {
    SessionEntry {
        start: String::from(start),
        end: String::from(end),
        project_path: String::from(path),
    }
}

fn stamp(secs: i64, offset: i32) -> Stamp {
    Stamp { moment: Moment { secs, nanos: 0 }, offset }
}

fn timed(start: i64, minutes: i64, path: &str) -> TimedSession {
    TimedSession {
        start: Moment { secs: start, nanos: 0 },
        end: Moment { secs: start + minutes * 60, nanos: 0 },
        minutes,
        project_path: String::from(path),
    }
}

#[test]
fn a_timed_session_needs_both_times_and_the_minutes() {
    let session = timed_session(Some(stamp(100, 3_600)), Some(stamp(400, 0)), Some(5), "/p")
        .expect("everything was read");
    assert_eq!(session.start, Moment { secs: 100, nanos: 0 });
    assert_eq!(session.end, Moment { secs: 400, nanos: 0 });
    assert_eq!(session.minutes, 5);
    assert_eq!(session.project_path, "/p");
    assert!(timed_session(None, Some(stamp(400, 0)), Some(5), "/p").is_none());
    assert!(timed_session(Some(stamp(100, 0)), None, Some(5), "/p").is_none());
    assert!(timed_session(Some(stamp(100, 0)), Some(stamp(400, 0)), None, "/p").is_none());
    assert!(timed_session(None, None, None, "/p").is_none());
}

#[test]
fn reading_a_history_keeps_the_readable_entries_in_order() {
    let history = vec![
        entry("2024-01-02T09:00:00Z", "2024-01-02T10:30:00Z", "/a"),
        entry("nonsense", "2024-01-02T10:30:00Z", "/b"),
        entry("2024-01-01T09:00:00Z", "2024-01-01T09:01:00Z", "/c"),
    ];
    let sessions = read_history(&history);
    let read: Vec<(&str, i64, i64)> =
        sessions.iter().map(|s| (s.project_path.as_str(), s.start.secs, s.minutes)).collect();
    assert_eq!(read, vec![("/a", 1_704_186_000, 90), ("/c", 1_704_099_600, 1)]);
    assert!(read_history(&Vec::new()).is_empty());
}

#[test]
fn summarizing_groups_sorts_and_averages() {
    let sessions = vec![
        timed(3 * 86_400 + 10, 30, "/late"),
        timed(86_400, 20, "/early"),
        timed(3 * 86_400 + 86_399, 7, "/late2"),
        timed(-1, 3, "/before"),
        timed(86_400 + 5, -50, "/early2"),
    ];
    let report = summarize(&sessions, 8);
    let days: Vec<(i64, Vec<(&str, i64)>)> = report
        .days
        .iter()
        .map(|d| (d.day, d.sessions.iter().map(|s| (s.project_path.as_str(), s.minutes)).collect()))
        .collect();
    assert_eq!(
        days,
        vec![
            (-1, vec![("/before", 3)]),
            (1, vec![("/early", 20), ("/early2", -50)]),
            (3, vec![("/late", 30), ("/late2", 7)]),
        ]
    );
    assert_eq!(report.total_sessions, 8);
    assert_eq!(report.total_minutes, 10);
    assert_eq!(report.average_minutes, 1);
    assert_eq!(report.total_hours(), 0);
    assert_eq!(report.remaining_minutes(), 10);
}

#[test]
fn summarizing_nothing_gives_zeroes() {
    let report = summarize(&Vec::new(), 0);
    assert!(report.days.is_empty());
    assert_eq!(report.total_minutes, 0);
    assert_eq!(report.average_minutes, 0);
    let report = summarize(&Vec::new(), 3);
    assert_eq!(report.total_sessions, 3);
    assert_eq!(report.average_minutes, 0);
}

#[test]
fn the_total_does_not_overflow_on_extreme_minutes() {
    let sessions = vec![
        TimedSession {
            start: Moment { secs: 0, nanos: 0 },
            end: Moment { secs: 0, nanos: 0 },
            minutes: i64::MAX,
            project_path: String::from("/x"),
        },
        TimedSession {
            start: Moment { secs: 0, nanos: 0 },
            end: Moment { secs: 0, nanos: 0 },
            minutes: i64::MAX,
            project_path: String::from("/y"),
        },
    ];
    let report = summarize(&sessions, 2);
    assert_eq!(report.total_minutes, 2 * (i64::MAX as i128));
    assert_eq!(report.average_minutes, i64::MAX as i128);
    let low = vec![TimedSession {
        start: Moment { secs: 0, nanos: 0 },
        end: Moment { secs: 0, nanos: 0 },
        minutes: i64::MIN,
        project_path: String::from("/z"),
    }];
    let report = summarize(&low, 3);
    assert_eq!(report.total_minutes, i64::MIN as i128);
    assert_eq!(report.average_minutes, -3_074_457_345_618_258_602);
    assert_eq!(report.remaining_minutes(), -8);
}

#[test]
fn a_row_needs_both_times_written() {
    let session = SessionTracker::create_session(
        1,
        2,
        "/root",
        vec![String::from("/root/a"), String::from("/root/b")],
    );
    let row = row_of(&session, Some(String::from("from")), Some(String::from("to")))
        .expect("both times were written");
    assert_eq!(row.start_time, "from");
    assert_eq!(row.end_time, "to");
    assert_eq!(row.project_path, "/root");
    assert_eq!(row.files, "/root/a,/root/b");
    assert!(row_of(&session, None, Some(String::from("to"))).is_none());
    assert!(row_of(&session, Some(String::from("from")), None).is_none());
    assert!(row_of(&session, None, None).is_none());
}

#[test]
fn entries_are_dated_by_their_start_as_written() {
    let history = vec![
        entry("2024-01-01T23:30:00-02:00", "x", "/west"),
        entry("later", "2024-01-02T00:00:00Z", "/undated"),
        entry("1970-01-01T00:00:00Z", "", "/epoch"),
    ];
    let dated = date_entries(&history);
    let days: Vec<(Option<i64>, &str, &str)> = dated
        .iter()
        .map(|d| (d.day, d.entry.project_path.as_str(), d.entry.end.as_str()))
        .collect();
    assert_eq!(
        days,
        vec![
            (Some(19_723), "/west", "x"),
            (None, "/undated", "2024-01-02T00:00:00Z"),
            (Some(0), "/epoch", ""),
        ]
    );
}

#[test]
fn dated_entries_are_grouped_by_day_in_order() {
    let dated = vec![
        DatedEntry { day: Some(7), entry: entry("s1", "e1", "/a") },
        DatedEntry { day: None, entry: entry("s2", "e2", "/b") },
        DatedEntry { day: Some(-3), entry: entry("s3", "e3", "/c") },
        DatedEntry { day: Some(7), entry: entry("s4", "e4", "/d") },
        DatedEntry { day: Some(i64::MAX), entry: entry("s5", "e5", "/e") },
        DatedEntry { day: Some(7), entry: entry("s1", "e1", "/a") },
    ];
    let groups = group_dated(&dated);
    assert_eq!(groups.len(), 3);
    let names = |day: i64| -> Vec<(String, String)> {
        groups[&day].iter().map(|e| (e.project_path.clone(), e.start.clone())).collect()
    };
    assert_eq!(
        names(7),
        vec![
            (String::from("/a"), String::from("s1")),
            (String::from("/d"), String::from("s4")),
            (String::from("/a"), String::from("s1")),
        ]
    );
    assert_eq!(names(-3), vec![(String::from("/c"), String::from("s3"))]);
    assert_eq!(names(i64::MAX), vec![(String::from("/e"), String::from("s5"))]);
    assert!(group_dated(&Vec::new()).is_empty());
}

#[test]
fn a_commit_line_needs_a_valid_time() {
    let commit = CommitInfo {
        seconds: 42,
        author: Some(String::from("Ada")),
        summary: Some(String::from("Tidy up")),
    };
    let line = line_for(&commit, true).expect("the time is valid");
    assert_eq!((line.seconds, line.author.as_str(), line.message.as_str()), (42, "Ada", "Tidy up"));
    assert!(line_for(&commit, false).is_none());
    let bare = CommitInfo { seconds: -7, author: None, summary: None };
    let line = line_for(&bare, true).expect("the time is valid");
    assert_eq!(
        (line.seconds, line.author.as_str(), line.message.as_str()),
        (-7, "Unknown", "No commit message")
    );
}
