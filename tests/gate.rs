use depon::{
    compare_state, current_state, decide, read_state, run, when_modified, write_state, Decision,
    DeponError, DeponState, EpochTime, RecordFile,
};

fn state_of(pairs: &[(&str, u64)]) -> DeponState {
    let mut s = DeponState::new();
    for (path, modified) in pairs {
        s.insert(path.to_string(), *modified);
    }
    s
}

fn paths(names: &[&str]) -> Vec<String> {
    names.iter().map(|n| n.to_string()).collect()
}

fn saved_text(pairs: &[(&str, u64)]) -> RecordFile {
    RecordFile::Text(write_state(&state_of(pairs)).unwrap())
}

#[test]
fn insert_replaces_earlier_time() {
    let mut s = DeponState::new();
    assert_eq!(s.len(), 0);
    s.insert("a.txt".to_string(), 1000);
    s.insert("b.txt".to_string(), 5);
    s.insert("a.txt".to_string(), 2000);
    assert_eq!(s.len(), 2);
    assert_eq!(s.get(&"a.txt".to_string()), Some(2000));
    assert_eq!(s.get(&"b.txt".to_string()), Some(5));
    assert_eq!(s.get(&"c.txt".to_string()), None);
}

#[test]
fn from_entries_keeps_later_pair() {
    let pairs = vec![("x".to_string(), 1u64), ("y".to_string(), 2), ("x".to_string(), 3)];
    let s = DeponState::from_entries(&pairs);
    assert_eq!(s.len(), 2);
    assert_eq!(s.get(&"x".to_string()), Some(3));
    assert_eq!(s.entries().len(), 2);
}

#[test]
fn clone_keeps_every_path() {
    let s = state_of(&[("a", 1), ("b", 2)]);
    let c = s.clone();
    assert_eq!(c.len(), 2);
    assert_eq!(c.get(&"a".to_string()), Some(1));
    assert_eq!(c.get(&"b".to_string()), Some(2));
}

#[test]
fn equal_states_do_not_differ() {
    let s = state_of(&[("a.txt", 1000), ("b.txt", 7)]);
    assert!(!compare_state(s.clone(), s));
    assert!(!compare_state(DeponState::new(), DeponState::new()));
}

#[test]
fn row_order_does_not_matter() {
    let s1 = state_of(&[("a.txt", 1000), ("b.txt", 7)]);
    let s2 = state_of(&[("b.txt", 7), ("a.txt", 1000)]);
    assert!(!compare_state(s1, s2));
}

#[test]
fn changed_time_differs() {
    let s1 = state_of(&[("a.txt", 2000)]);
    let s2 = state_of(&[("a.txt", 1000)]);
    assert!(compare_state(s1, s2));
}

#[test]
fn different_key_count_differs() {
    let s1 = state_of(&[("a.txt", 1000), ("b.txt", 1000)]);
    let s2 = state_of(&[("a.txt", 1000)]);
    assert!(compare_state(s1, s2));
    let s3 = state_of(&[("a.txt", 1000)]);
    assert!(compare_state(s3, DeponState::new()));
}

#[test]
fn swapped_key_of_same_count_differs() {
    let s1 = state_of(&[("a.txt", 1000)]);
    let s2 = state_of(&[("b.txt", 1000)]);
    assert!(compare_state(s1, s2));
}

#[test]
fn absent_record_is_no_state() {
    assert!(matches!(read_state(&RecordFile::Absent), Ok(None)));
}

#[test]
fn unreadable_record_is_corrupt() {
    assert!(matches!(read_state(&RecordFile::Unreadable), Err(DeponError::RecordCorrupt)));
}

#[test]
fn yaml_mapping_loads() {
    let loaded = read_state(&RecordFile::Text("a.txt: 1000\nb.txt: 2000\n".to_string()))
        .unwrap()
        .unwrap();
    assert_eq!(loaded.len(), 2);
    assert_eq!(loaded.get(&"a.txt".to_string()), Some(1000));
    assert_eq!(loaded.get(&"b.txt".to_string()), Some(2000));
}

#[test]
fn non_mapping_record_is_corrupt() {
    let r = read_state(&RecordFile::Text("just some words".to_string()));
    assert!(matches!(r, Err(DeponError::RecordCorrupt)));
    let r = read_state(&RecordFile::Text("- a.txt\n- b.txt\n".to_string()));
    assert!(matches!(r, Err(DeponError::RecordCorrupt)));
    let r = read_state(&RecordFile::Text("a.txt: -5\n".to_string()));
    assert!(matches!(r, Err(DeponError::RecordCorrupt)));
}

#[test]
fn saved_text_is_a_yaml_mapping() {
    let text = write_state(&state_of(&[("a.txt", 1000)])).unwrap();
    assert_eq!(text, "a.txt: 1000\n");
}

#[test]
fn save_then_load_round_trips() {
    let original = state_of(&[
        ("a.txt", 0),
        ("dir/sub.dir/b.rs", u64::MAX),
        ("ünïcødé ✓", 42),
        ("yes", 1),
        ("123", 2),
        ("~", 3),
        ("with: colon", 4),
    ]);
    let text = write_state(&original).unwrap();
    let loaded = read_state(&RecordFile::Text(text)).unwrap().unwrap();
    assert!(!compare_state(loaded.clone(), original.clone()));
    assert_eq!(loaded.get(&"dir/sub.dir/b.rs".to_string()), Some(u64::MAX));
    assert_eq!(loaded.get(&"ünïcødé ✓".to_string()), Some(42));
}

#[test]
fn empty_state_round_trips() {
    let text = write_state(&DeponState::new()).unwrap();
    let loaded = read_state(&RecordFile::Text(text)).unwrap().unwrap();
    assert_eq!(loaded.len(), 0);
}

#[test]
fn unreadable_metadata_is_path_unreadable() {
    assert!(matches!(when_modified(None), Err(DeponError::PathUnreadable)));
}

#[test]
fn time_is_truncated_to_seconds() {
    let t = EpochTime::Since { secs: 1000, nanos: 999_000_000 };
    assert_eq!(when_modified(Some(t)), Ok(1000));
    let t = EpochTime::Since { secs: 0, nanos: 0 };
    assert_eq!(when_modified(Some(t)), Ok(0));
    let t = EpochTime::Since { secs: u64::MAX, nanos: 1 };
    assert_eq!(when_modified(Some(t)), Ok(u64::MAX));
}

#[test]
fn time_before_epoch_is_clock_anomaly() {
    assert_eq!(when_modified(Some(EpochTime::BeforeEpoch)), Err(DeponError::ClockAnomaly));
}

#[test]
fn current_state_holds_each_watched_path() {
    let s = current_state(&paths(&["a.txt", "b.txt", "a.txt"]), &vec![1, 2, 3]);
    assert_eq!(s.len(), 2);
    assert_eq!(s.get(&"a.txt".to_string()), Some(3));
    assert_eq!(s.get(&"b.txt".to_string()), Some(2));
}

#[test]
fn decide_without_prior_acts() {
    let o = decide(None, state_of(&[("a", 1)]));
    assert_eq!(o.decision, Decision::Act);
    assert!(!o.prior_found);
    assert_eq!(o.save.unwrap().get(&"a".to_string()), Some(1));
}

#[test]
fn decide_on_equal_states_skips() {
    let o = decide(Some(state_of(&[("a", 1)])), state_of(&[("a", 1)]));
    assert_eq!(o.decision, Decision::Skip);
    assert!(o.prior_found);
    assert!(o.save.is_none());
}

#[test]
fn empty_watch_set_acts_without_saving() {
    let o = run(&vec![], Ok(None), &vec![]).unwrap();
    assert_eq!(o.decision, Decision::Act);
    assert!(o.save.is_none());
    let o = run(&vec![], read_state(&saved_text(&[("a.txt", 1000)])), &vec![]).unwrap();
    assert_eq!(o.decision, Decision::Act);
    assert!(o.save.is_none());
    let o = run(&vec![], Err(DeponError::RecordCorrupt), &vec![]).unwrap();
    assert_eq!(o.decision, Decision::Act);
    assert!(o.save.is_none());
}

#[test]
fn first_run_acts_and_records_watch_set() {
    let o = run(&paths(&["a.txt"]), read_state(&RecordFile::Absent), &vec![Ok(1000)]).unwrap();
    assert_eq!(o.decision, Decision::Act);
    assert!(!o.prior_found);
    let saved = o.save.unwrap();
    assert_eq!(saved.len(), 1);
    assert_eq!(saved.get(&"a.txt".to_string()), Some(1000));
}

#[test]
fn unchanged_record_skips() {
    let previous = read_state(&saved_text(&[("a.txt", 1000)]));
    let o = run(&paths(&["a.txt"]), previous, &vec![Ok(1000)]).unwrap();
    assert_eq!(o.decision, Decision::Skip);
    assert!(o.prior_found);
    assert!(o.save.is_none());
}

#[test]
fn changed_time_acts_and_records_new_time() {
    let previous = read_state(&saved_text(&[("a.txt", 1000)]));
    let o = run(&paths(&["a.txt"]), previous, &vec![Ok(2000)]).unwrap();
    assert_eq!(o.decision, Decision::Act);
    assert!(o.prior_found);
    let saved = o.save.unwrap();
    assert_eq!(saved.len(), 1);
    assert_eq!(saved.get(&"a.txt".to_string()), Some(2000));
}

#[test]
fn added_path_acts_and_records_both() {
    let previous = read_state(&saved_text(&[("a.txt", 1000)]));
    let o = run(&paths(&["a.txt", "b.txt"]), previous, &vec![Ok(1000), Ok(1500)]).unwrap();
    assert_eq!(o.decision, Decision::Act);
    let saved = o.save.unwrap();
    assert_eq!(saved.len(), 2);
    assert_eq!(saved.get(&"a.txt".to_string()), Some(1000));
    assert_eq!(saved.get(&"b.txt".to_string()), Some(1500));
}

#[test]
fn corrupt_record_fails_the_run() {
    let previous = read_state(&RecordFile::Text("not a mapping".to_string()));
    let r = run(&paths(&["a.txt"]), previous, &vec![Ok(1000)]);
    assert!(matches!(r, Err(DeponError::RecordCorrupt)));
}

#[test]
fn failed_observation_fails_the_run() {
    let r = run(
        &paths(&["a.txt", "b.txt", "c.txt"]),
        Ok(None),
        &vec![Ok(1), Err(DeponError::ClockAnomaly), Err(DeponError::PathUnreadable)],
    );
    assert!(matches!(r, Err(DeponError::ClockAnomaly)));
}

#[test]
fn load_error_comes_before_observation_error() {
    let r = run(
        &paths(&["a.txt"]),
        Err(DeponError::RecordCorrupt),
        &vec![Err(DeponError::PathUnreadable)],
    );
    assert!(matches!(r, Err(DeponError::RecordCorrupt)));
}

#[test]
fn second_run_on_unchanged_files_skips() {
    let watch = paths(&["a.txt", "b.txt"]);
    let observed = vec![Ok(10), Ok(20)];
    let first = run(&watch, read_state(&RecordFile::Absent), &observed).unwrap();
    assert_eq!(first.decision, Decision::Act);
    let text = write_state(&first.save.unwrap()).unwrap();
    let second = run(&watch, read_state(&RecordFile::Text(text)), &observed).unwrap();
    assert_eq!(second.decision, Decision::Skip);
    assert!(second.save.is_none());
}

#[test]
fn error_messages_are_distinct() {
    let all = [
        DeponError::PathUnreadable,
        DeponError::ClockAnomaly,
        DeponError::RecordCorrupt,
        DeponError::RecordWriteFailure,
    ];
    for (i, a) in all.iter().enumerate() {
        for b in all.iter().skip(i + 1) {
            assert_ne!(a.message(), b.message());
        }
    }
}
