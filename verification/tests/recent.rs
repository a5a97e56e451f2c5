use chrono::{DateTime, NaiveDateTime, Utc};
use flowcraft_studio::recent::{AppState, RecentFile, Snapshot, CAPACITY};

fn at(seconds: i64) -> NaiveDateTime {
    DateTime::from_timestamp(seconds, 0).unwrap().naive_utc()
}

fn file(path: &str, seconds: i64) -> RecentFile {
    RecentFile { path: path.to_string(), name: format!("{}.mmd", path), last_opened: at(seconds) }
}

fn paths(state: &AppState) -> Vec<String> {
    state.list().into_iter().map(|f| f.path).collect()
}

fn store_of(names: &[&str]) -> AppState {
    let mut state = AppState::default();
    for (i, name) in names.iter().enumerate() {
        state.record_at(name.to_string(), format!("{}.mmd", name), at(i as i64));
    }
    state
}

fn no_path_twice(state: &AppState) -> bool {
    let all = paths(state);
    all.iter().enumerate().all(|(i, p)| !all[i + 1..].contains(p))
}

#[test]
fn capacity_is_ten() {
    assert_eq!(CAPACITY, 10);
}

#[test]
fn default_store_is_empty() {
    let state = AppState::default();
    assert!(state.list().is_empty());
    assert!(state.recent_files.is_empty());
}

#[test]
fn record_puts_the_entry_first() {
    let mut state = AppState::default();
    state.record_at("/a".to_string(), "a".to_string(), at(5));
    assert_eq!(
        state.list(),
        vec![RecentFile { path: "/a".to_string(), name: "a".to_string(), last_opened: at(5) }]
    );
    state.record_at("/b".to_string(), "b".to_string(), at(6));
    assert_eq!(paths(&state), vec!["/b", "/a"]);
    assert_eq!(state.list()[0].name, "b");
    assert_eq!(state.list()[0].last_opened, at(6));
    assert_eq!(state.list()[1].last_opened, at(5));
}

#[test]
fn more_than_ten_paths_leave_the_ten_most_recent() {
    let names: Vec<String> = (0..25).map(|i| format!("/file{}", i)).collect();
    let refs: Vec<&str> = names.iter().map(|s| s.as_str()).collect();
    let state = store_of(&refs);
    let expected: Vec<String> = (15..25).rev().map(|i| format!("/file{}", i)).collect();
    assert_eq!(paths(&state), expected);
    assert_eq!(state.list().len(), 10);
    assert!(no_path_twice(&state));
    for (i, f) in state.list().iter().enumerate() {
        assert_eq!(f.last_opened, at(24 - i as i64));
    }
}

#[test]
fn repeated_paths_count_once() {
    let state = store_of(&[
        "a", "b", "c", "a", "d", "e", "f", "g", "b", "h", "i", "j", "k", "l", "c", "a", "m",
    ]);
    assert_eq!(paths(&state), vec!["m", "a", "c", "l", "k", "j", "i", "h", "b", "g"]);
    assert!(no_path_twice(&state));
    assert_eq!(state.list()[1].last_opened, at(15));
    assert_eq!(state.list()[8].last_opened, at(8));
}

#[test]
fn eleventh_path_pushes_out_the_oldest() {
    let mut state = store_of(&["0", "1", "2", "3", "4", "5", "6", "7", "8", "9"]);
    assert_eq!(state.list().len(), 10);
    assert_eq!(paths(&state).last().unwrap(), "0");
    state.record_at("new".to_string(), "new".to_string(), at(100));
    assert_eq!(paths(&state), vec!["new", "9", "8", "7", "6", "5", "4", "3", "2", "1"]);
}

#[test]
fn recording_again_moves_to_the_front() {
    let mut state = store_of(&["a", "b", "c", "d"]);
    assert_eq!(paths(&state), vec!["d", "c", "b", "a"]);
    state.record_at("b".to_string(), "renamed".to_string(), at(50));
    assert_eq!(paths(&state), vec!["b", "d", "c", "a"]);
    assert_eq!(state.list().len(), 4);
    assert!(no_path_twice(&state));
    assert_eq!(state.list()[0].name, "renamed");
    assert_eq!(state.list()[0].last_opened, at(50));
    state.record_at("b".to_string(), "b".to_string(), at(51));
    assert_eq!(paths(&state), vec!["b", "d", "c", "a"]);
}

#[test]
fn recording_again_in_a_full_store_keeps_it_full() {
    let mut state = store_of(&["0", "1", "2", "3", "4", "5", "6", "7", "8", "9"]);
    state.record_at("0".to_string(), "0".to_string(), at(10));
    assert_eq!(paths(&state), vec!["0", "9", "8", "7", "6", "5", "4", "3", "2", "1"]);
    state.record_at("5".to_string(), "5".to_string(), at(11));
    assert_eq!(paths(&state), vec!["5", "0", "9", "8", "7", "6", "4", "3", "2", "1"]);
}

#[test]
fn paths_are_compared_letter_for_letter() {
    let state = store_of(&["/A", "/a", "/a/", "/a"]);
    assert_eq!(paths(&state), vec!["/a", "/a/", "/A"]);
}

#[test]
fn record_entry_takes_the_entry_as_it_is() {
    let mut state = store_of(&["a", "b"]);
    state.record_entry(file("a", 77));
    assert_eq!(state.list(), vec![file("a", 77), file("b", 1)]);
}

#[test]
fn record_access_stamps_the_present() {
    let before = Utc::now().naive_utc();
    let mut state = AppState::default();
    state.record_access("/x.mmd".to_string(), "x.mmd".to_string());
    let after = Utc::now().naive_utc();
    let listed = state.list();
    assert_eq!(listed.len(), 1);
    assert_eq!(listed[0].path, "/x.mmd");
    assert_eq!(listed[0].name, "x.mmd");
    assert!(before <= listed[0].last_opened && listed[0].last_opened <= after);
}

#[test]
fn list_is_a_copy() {
    let state = store_of(&["a", "b"]);
    let mut copy = state.list();
    copy.clear();
    assert_eq!(paths(&state), vec!["b", "a"]);
    assert_eq!(state.list(), state.recent_files);
}

#[test]
fn clear_empties_the_store() {
    let mut state = store_of(&["a", "b", "c"]);
    state.clear();
    assert!(state.list().is_empty());
    let again = AppState::load_or_default(Snapshot::Entries(state.list()));
    assert!(again.list().is_empty());
    state.clear();
    assert!(state.list().is_empty());
}

#[test]
fn what_a_store_lists_seeds_the_same_store() {
    let names: Vec<String> = (0..14).map(|i| format!("/f{}", i % 12)).collect();
    let refs: Vec<&str> = names.iter().map(|s| s.as_str()).collect();
    let state = store_of(&refs);
    let again = AppState::from_entries(state.list());
    assert_eq!(again, state);
    assert_eq!(again.list(), state.list());
    let small = store_of(&["a", "b"]);
    assert_eq!(AppState::load_or_default(Snapshot::Entries(small.list())), small);
}

#[test]
fn seeding_keeps_the_first_of_each_path_and_the_first_ten() {
    let state = AppState::from_entries(vec![file("a", 3), file("b", 2), file("a", 1)]);
    assert_eq!(state.list(), vec![file("a", 3), file("b", 2)]);
    let many: Vec<RecentFile> = (0..13).map(|i| file(&format!("p{}", i), i)).collect();
    let state = AppState::from_entries(many);
    let expected: Vec<RecentFile> = (0..10).map(|i| file(&format!("p{}", i), i)).collect();
    assert_eq!(state.list(), expected);
    assert!(AppState::from_entries(Vec::new()).list().is_empty());
}

#[test]
fn corrupt_snapshot_gives_the_empty_store() {
    let state = AppState::load_or_default(Snapshot::Corrupt("expected value at line 1".to_string()));
    assert!(state.list().is_empty());
}

#[test]
fn unusable_snapshot_gives_the_default_store() {
    for snapshot in [
        Snapshot::Absent,
        Snapshot::Unreadable("Failed to read state file: denied".to_string()),
        Snapshot::Corrupt("Failed to parse state file: EOF".to_string()),
    ] {
        assert_eq!(AppState::load_or_default(snapshot), AppState::default());
    }
}

#[test]
fn missing_or_unreadable_snapshot_gives_the_empty_store() {
    assert!(AppState::load_or_default(Snapshot::Absent).list().is_empty());
    assert!(AppState::load_or_default(Snapshot::Unreadable("denied".to_string()))
        .list()
        .is_empty());
}

#[test]
fn store_with_a_path_twice_loses_both_when_it_is_recorded() {
    let mut state =
        AppState { recent_files: vec![file("a", 1), file("b", 2), file("a", 3), file("c", 4)] };
    state.record_at("a".to_string(), "a.mmd".to_string(), at(9));
    assert_eq!(state.list(), vec![file("a", 9), file("b", 2), file("c", 4)]);
}

#[test]
fn clone_of_a_file_is_equal_to_it() {
    let f = file("a", 1);
    assert_eq!(f.clone(), f);
}
