use codetimelens::database::{
    export_format, format_timestamp, group_sessions_by_day, session_row, ExportFormat,
    SessionEntry,
};
use codetimelens::moment::LAST_MILLI_OF_9999;
use codetimelens::session_tracker::SessionTracker;
use codetimelens::text::join_paths;

fn strings(items: &[&str]) -> Vec<String> {
    items.iter().map(|p| String::from(*p)).collect()
}

fn entry(start: &str, end: &str, path: &str) -> SessionEntry {
    SessionEntry {
        start: String::from(start),
        end: String::from(end),
        project_path: String::from(path),
    }
}

#[test]
fn no_paths_join_to_the_empty_string() {
    assert_eq!(join_paths(&Vec::new()), "");
}

#[test]
fn a_single_path_is_joined_without_a_comma() {
    assert_eq!(join_paths(&strings(&["/a/b.rs"])), "/a/b.rs");
}

#[test]
fn paths_are_joined_with_commas_and_repeats_are_kept() {
    assert_eq!(join_paths(&strings(&["/a", "/a", "/b"])), "/a,/a,/b");
}

#[test]
fn empty_and_comma_holding_paths_are_joined_as_they_are() {
    assert_eq!(join_paths(&strings(&["", "x,y", ""])), ",x,y,");
}

#[test]
fn the_epoch_is_written_as_rfc3339() {
    assert_eq!(format_timestamp(0).as_deref(), Some("1970-01-01T00:00:00+00:00"));
}

#[test]
fn milliseconds_are_written_when_there_are_any() {
    assert_eq!(
        format_timestamp(1_704_103_200_000).as_deref(),
        Some("2024-01-01T10:00:00+00:00")
    );
    assert_eq!(
        format_timestamp(1_704_103_200_500).as_deref(),
        Some("2024-01-01T10:00:00.500+00:00")
    );
    assert_eq!(
        format_timestamp(1_704_103_200_007).as_deref(),
        Some("2024-01-01T10:00:00.007+00:00")
    );
}

#[test]
fn the_end_of_the_year_9999_can_be_written() {
    assert_eq!(LAST_MILLI_OF_9999, 253_402_300_799_999);
    assert_eq!(
        format_timestamp(253_402_300_799_999).as_deref(),
        Some("9999-12-31T23:59:59.999+00:00")
    );
}

#[test]
fn times_beyond_the_calendar_cannot_be_written() {
    assert_eq!(format_timestamp(u64::MAX), None);
    assert_eq!(format_timestamp(1u64 << 63), None);
    assert_eq!(format_timestamp(i64::MAX as u64), None);
}

#[test]
fn a_row_holds_both_times_the_root_and_the_joined_paths() {
    let session = SessionTracker::create_session(
        1_704_103_200_000,
        1_704_105_900_250,
        "/work/repo",
        strings(&["/work/repo/a.rs", "/work/repo/a.rs", "/work/repo/b.rs"]),
    );
    let row = session_row(&session).expect("both times can be written");
    assert_eq!(row.start_time, "2024-01-01T10:00:00+00:00");
    assert_eq!(row.end_time, "2024-01-01T10:45:00.250+00:00");
    assert_eq!(row.project_path, "/work/repo");
    assert_eq!(row.files, "/work/repo/a.rs,/work/repo/a.rs,/work/repo/b.rs");
}

#[test]
fn a_row_for_a_session_without_paths_has_empty_files() {
    let session = SessionTracker::create_session(0, 1_000, "/p", Vec::new());
    let row = session_row(&session).expect("both times can be written");
    assert_eq!(row.start_time, "1970-01-01T00:00:00+00:00");
    assert_eq!(row.end_time, "1970-01-01T00:00:01+00:00");
    assert_eq!(row.files, "");
}

#[test]
fn there_is_no_row_when_a_time_cannot_be_written() {
    let session = SessionTracker::create_session(0, u64::MAX, "/p", Vec::new());
    assert!(session_row(&session).is_none());
    let session = SessionTracker::create_session(u64::MAX, u64::MAX, "/p", Vec::new());
    assert!(session_row(&session).is_none());
}

#[test]
fn export_formats_are_json_and_csv() {
    assert_eq!(export_format("json"), Some(ExportFormat::Json));
    assert_eq!(export_format("csv"), Some(ExportFormat::Csv));
}

#[test]
fn other_export_formats_are_unsupported() {
    assert_eq!(export_format(""), None);
    assert_eq!(export_format("JSON"), None);
    assert_eq!(export_format("xml"), None);
    assert_eq!(export_format("csv "), None);
    assert_eq!(export_format("jso"), None);
}

#[test]
fn entries_are_grouped_by_the_day_they_started_on() {
    let history = vec![
        entry("2024-01-02T09:00:00+00:00", "2024-01-02T10:30:00+00:00", "/a"),
        entry("2024-01-01T23:00:00+00:00", "2024-01-02T00:15:00+00:00", "/b"),
        entry("not a time", "2024-01-02T00:15:00+00:00", "/c"),
        entry("2024-01-02T11:00:00+00:00", "unreadable end", "/d"),
    ];
    let groups = group_sessions_by_day(&history);
    assert_eq!(groups.len(), 2);
    let first: Vec<&str> = groups[&19_723].iter().map(|e| e.project_path.as_str()).collect();
    let second: Vec<&str> = groups[&19_724].iter().map(|e| e.project_path.as_str()).collect();
    assert_eq!(first, vec!["/b"]);
    assert_eq!(second, vec!["/a", "/d"]);
    assert_eq!(groups[&19_724][1].start, "2024-01-02T11:00:00+00:00");
    assert_eq!(groups[&19_724][1].end, "unreadable end");
}

#[test]
fn the_day_of_a_group_is_the_day_as_written() {
    let history = vec![
        entry("2024-01-01T23:30:00-02:00", "2024-01-02T00:00:00-02:00", "/west"),
        entry("2024-01-02T00:30:00+03:00", "2024-01-02T01:00:00+03:00", "/east"),
        entry("1969-12-31T23:59:59+00:00", "1970-01-01T00:00:00+00:00", "/before"),
    ];
    let groups = group_sessions_by_day(&history);
    assert_eq!(groups.len(), 3);
    assert_eq!(groups[&19_723][0].project_path, "/west");
    assert_eq!(groups[&19_724][0].project_path, "/east");
    assert_eq!(groups[&-1][0].project_path, "/before");
}

#[test]
fn an_empty_history_has_no_groups() {
    assert!(group_sessions_by_day(&Vec::new()).is_empty());
}
