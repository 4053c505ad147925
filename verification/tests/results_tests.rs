use typing_test::results::ResultLog;

#[test]
fn new_log_is_empty() {
    let log: ResultLog<u8> = ResultLog::new();
    assert!(log.is_empty());
    assert_eq!(log.len(), 0);
    assert!(log.keys().is_empty());
}

#[test]
fn keys_come_out_in_ascending_order() {
    let mut log: ResultLog<u8> = ResultLog::new();
    for k in ["words_20_english", "time_60_english", "words_15_english", "time_120_english"] {
        log.record(k.to_string(), 1);
    }
    assert_eq!(
        log.keys(),
        vec!["time_120_english", "time_60_english", "words_15_english", "words_20_english"]
    );
    let mut sorted = log.keys();
    sorted.sort();
    assert_eq!(sorted, log.keys());
}

#[test]
fn record_appends_and_keeps_other_keys() {
    let mut log: ResultLog<u8> = ResultLog::new();
    log.record("b".to_string(), 1);
    log.record("a".to_string(), 2);
    log.record("b".to_string(), 3);
    assert_eq!(log.get(&"b".to_string()), Some(&vec![1, 3]));
    assert_eq!(log.get(&"a".to_string()), Some(&vec![2]));
    assert_eq!(log.get(&"c".to_string()), None);
    assert_eq!(log.len(), 2);
}

#[test]
fn set_entries_replaces() {
    let mut log: ResultLog<u8> = ResultLog::new();
    log.record("k".to_string(), 1);
    log.set_entries("k".to_string(), vec![4, 5]);
    log.set_entries("empty".to_string(), vec![]);
    assert_eq!(log.get(&"k".to_string()), Some(&vec![4, 5]));
    assert_eq!(log.get(&"empty".to_string()), Some(&vec![]));
    assert_eq!(log.len(), 2);
}

#[test]
fn entries_at_follows_key_order() {
    let mut log: ResultLog<u8> = ResultLog::new();
    log.record("zeta".to_string(), 26);
    log.record("alpha".to_string(), 1);
    assert_eq!(log.entries_at(0), &vec![1]);
    assert_eq!(log.entries_at(1), &vec![26]);
}

#[test]
fn prefix_sorts_first() {
    let mut log: ResultLog<u8> = ResultLog::new();
    log.record("ab".to_string(), 0);
    log.record("a".to_string(), 0);
    log.record("".to_string(), 0);
    assert_eq!(log.keys(), vec!["", "a", "ab"]);
}

#[test]
fn groups_come_out_in_key_order() {
    let mut log: ResultLog<u8> = ResultLog::new();
    log.record("b".to_string(), 2);
    log.record("a".to_string(), 1);
    log.record("b".to_string(), 3);
    let gs = log.into_groups();
    assert_eq!(gs.len(), 2);
    assert_eq!(gs[0].key, "a");
    assert_eq!(gs[0].entries, vec![1]);
    assert_eq!(gs[1].key, "b");
    assert_eq!(gs[1].entries, vec![2, 3]);
}
