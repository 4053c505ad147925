use typing_test::stats::{graph_columns, latest, stats_rows, stats_step, StatsKey, StatsState, ViewMode};
use typing_test::text::display_key;

#[test]
fn stats_open_on_first_key_as_table() {
    let s = StatsState::new();
    assert_eq!(s.selected_mode, 0);
    assert_eq!(s.view_mode, ViewMode::Table);
}

#[test]
fn stats_navigation_and_views() {
    let mut s = StatsState::new();
    assert!(stats_step(&mut s, StatsKey::Down, 3));
    assert!(stats_step(&mut s, StatsKey::Down, 3));
    assert!(stats_step(&mut s, StatsKey::Down, 3));
    assert_eq!(s.selected_mode, 2);
    stats_step(&mut s, StatsKey::Up, 3);
    assert_eq!(s.selected_mode, 1);
    stats_step(&mut s, StatsKey::Graph, 3);
    assert_eq!(s.view_mode, ViewMode::Graph);
    stats_step(&mut s, StatsKey::Table, 3);
    assert_eq!(s.view_mode, ViewMode::Table);
    assert!(!stats_step(&mut s, StatsKey::Quit, 3));
}

#[test]
fn stats_down_without_keys_stays() {
    let mut s = StatsState::new();
    stats_step(&mut s, StatsKey::Down, 0);
    assert_eq!(s.selected_mode, 0);
}

#[test]
fn latest_lists_newest_first() {
    let v = vec![1, 2, 3, 4, 5, 6, 7];
    let r: Vec<i32> = latest(&v, 5).into_iter().copied().collect();
    assert_eq!(r, vec![7, 6, 5, 4, 3]);
    let short = vec![1, 2];
    let r: Vec<i32> = latest(&short, 5).into_iter().copied().collect();
    assert_eq!(r, vec![2, 1]);
}

#[test]
fn rows_of_keys_around_opened_table() {
    // three keys, the second opened as a table of two results: header + 2 rows
    let rows = stats_rows(3, 1, ViewMode::Table, 2).unwrap();
    assert_eq!(rows, vec![4, 6, 13]);
}

#[test]
fn rows_of_keys_around_opened_graph() {
    let rows = stats_rows(2, 0, ViewMode::Graph, 4).unwrap();
    assert_eq!(rows, vec![4, 20]);
    let rows = stats_rows(2, 0, ViewMode::Graph, 0).unwrap();
    assert_eq!(rows, vec![4, 8]);
}

#[test]
fn rows_that_do_not_fit() {
    assert!(stats_rows(40000, 0, ViewMode::Table, 0).is_none());
}

#[test]
fn graph_columns_is_smaller_of_width_and_count() {
    assert_eq!(graph_columns(70, 12), 12);
    assert_eq!(graph_columns(10, 12), 10);
}

#[test]
fn displayed_keys_are_spaced_and_upper_case() {
    assert_eq!(display_key("words_20_english"), "WORDS 20 ENGLISH");
    assert_eq!(display_key("time_60_straße"), "TIME 60 STRASSE");
}
