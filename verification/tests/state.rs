use codetimelens::session_tracker::{Session, SessionTracker};
use codetimelens::state::SessionState;

fn strings(items: &[&str]) -> Vec<String> {
    items.iter().map(|p| String::from(*p)).collect()
}

#[test]
fn a_new_state_is_empty() {
    let state = SessionState::new();
    assert!(!state.is_open());
    assert_eq!(state.open_session_start(), None);
    assert_eq!(state.last_activity(), None);
    assert!(state.touched_files().is_empty());
    assert!(!state.is_idle_expired(u64::MAX, 0));
}

#[test]
fn the_first_change_sets_start_and_last_activity_together() {
    let mut state = SessionState::new();
    state.record_activity(42, strings(&["/a"]));
    assert!(state.is_open());
    assert_eq!(state.open_session_start(), Some(42));
    assert_eq!(state.last_activity(), Some(42));
    assert_eq!(state.touched_files(), &strings(&["/a"]));
}

#[test]
fn later_changes_move_last_activity_and_append_paths() {
    let mut state = SessionState::new();
    state.record_activity(42, strings(&["/a"]));
    state.record_activity(50, strings(&["/b", "/a"]));
    state.record_activity(60, Vec::new());
    assert_eq!(state.open_session_start(), Some(42));
    assert_eq!(state.last_activity(), Some(60));
    assert_eq!(state.touched_files(), &strings(&["/a", "/b", "/a"]));
}

#[test]
fn idleness_is_measured_from_the_last_change() {
    let mut state = SessionState::new();
    state.record_activity(1_000, Vec::new());
    state.record_activity(2_000, Vec::new());
    assert!(!state.is_idle_expired(2_000, 300));
    assert!(!state.is_idle_expired(2_299, 300));
    assert!(state.is_idle_expired(2_300, 300));
    assert!(state.is_idle_expired(u64::MAX, 300));
    assert!(!state.is_idle_expired(1_500, 300));
    assert!(state.is_idle_expired(2_000, 0));
    assert!(!state.is_idle_expired(1_999, 0));
}

#[test]
fn close_hands_over_the_session_and_clears_everything() {
    let mut state = SessionState::new();
    state.record_activity(10, strings(&["/a"]));
    state.record_activity(20, strings(&["/b"]));
    let session = state.close(35, "/root/of/project").expect("a session is open");
    assert_eq!(session.start, 10);
    assert_eq!(session.end, 35);
    assert_eq!(session.project_path, "/root/of/project");
    assert_eq!(session.files, strings(&["/a", "/b"]));
    assert!(!state.is_open());
    assert_eq!(state.open_session_start(), None);
    assert_eq!(state.last_activity(), None);
    assert!(state.touched_files().is_empty());
    assert!(state.close(40, "/root/of/project").is_none());
}

#[test]
fn close_at_the_time_of_the_only_change_gives_an_empty_span() {
    let mut state = SessionState::new();
    state.record_activity(77, strings(&["/a"]));
    let session = state.close(77, "/p").expect("a session is open");
    assert_eq!((session.start, session.end), (77, 77));
}

#[test]
fn a_state_can_be_used_again_after_a_close() {
    let mut state = SessionState::new();
    state.record_activity(1, strings(&["/a"]));
    assert!(state.close(2, "/p").is_some());
    state.record_activity(3, strings(&["/b"]));
    assert_eq!(state.open_session_start(), Some(3));
    assert_eq!(state.touched_files(), &strings(&["/b"]));
}

#[test]
fn create_session_keeps_its_four_parts() {
    let session: Session =
        SessionTracker::create_session(5, 9, "/some/root", strings(&["/x", "/y", "/x"]));
    assert_eq!(session.start, 5);
    assert_eq!(session.end, 9);
    assert_eq!(session.project_path, "/some/root");
    assert_eq!(session.files, strings(&["/x", "/y", "/x"]));
    let copy = session.clone();
    assert_eq!(copy.files, session.files);
}
