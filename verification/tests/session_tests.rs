use typing_test::config::GameMode;
use typing_test::session::{after_test, start_session, AfterTest, Reaction, Session, SessionKey};

fn list(words: &[&str]) -> Vec<String> {
    words.iter().map(|w| w.to_string()).collect()
}

fn fixed(mode: GameMode, num_words: usize, words: &[&str]) -> Session {
    Session {
        mode,
        num_words,
        time_limit: 30,
        restart_allowed: true,
        words: list(words),
        typed: vec![String::new(); words.len()],
        current: 0,
        started: false,
    }
}

#[test]
fn words_mode_draws_distinct_words_from_list() {
    let l = list(&["a", "b", "c", "d", "e"]);
    let s = start_session(GameMode::Words, 3, 60, true, &l);
    assert_eq!(s.words.len(), 3);
    assert!(s.words.iter().all(|w| l.contains(w)));
    let mut sorted = s.words.clone();
    sorted.sort();
    sorted.dedup();
    assert_eq!(sorted.len(), 3);
    assert_eq!(s.typed.len(), 3);
    assert!(s.typed.iter().all(|t| t.is_empty()));
    assert_eq!(s.current, 0);
    assert!(!s.started);
}

#[test]
fn words_mode_takes_whole_short_list() {
    let l = list(&["a", "b"]);
    let s = start_session(GameMode::Words, 20, 60, true, &l);
    assert_eq!(s.words.len(), 2);
}

#[test]
fn time_mode_draws_ten_passes() {
    let l = list(&["x", "y", "z"]);
    let s = start_session(GameMode::Time, 20, 60, true, &l);
    assert_eq!(s.words.len(), 30);
    for pass in s.words.chunks(3) {
        let mut p = pass.to_vec();
        p.sort();
        assert_eq!(p, l);
    }
}

#[test]
fn typing_starts_clock_and_backspace_takes_back() {
    let l = list(&["cat", "dog"]);
    let mut s = fixed(GameMode::Words, 2, &["cat", "dog"]);
    assert_eq!(s.handle_key(SessionKey::Char('c'), &l), Reaction::Continue);
    assert!(s.started);
    s.handle_key(SessionKey::Char('x'), &l);
    assert_eq!(s.typed[0], "cx");
    s.handle_key(SessionKey::Backspace, &l);
    assert_eq!(s.typed[0], "c");
    s.handle_key(SessionKey::Backspace, &l);
    s.handle_key(SessionKey::Backspace, &l);
    assert_eq!(s.typed[0], "");
}

#[test]
fn space_moves_on_but_not_past_last_word() {
    let l = list(&["a", "b"]);
    let mut s = fixed(GameMode::Words, 2, &["a", "b"]);
    s.handle_key(SessionKey::Space, &l);
    assert_eq!(s.current, 1);
    s.handle_key(SessionKey::Space, &l);
    assert_eq!(s.current, 1);
    assert!(!s.out_of_words());
}

#[test]
fn last_word_typed_exactly_finishes_words_mode() {
    let l = list(&["hi", "yo"]);
    let mut s = fixed(GameMode::Words, 2, &["hi", "yo"]);
    s.handle_key(SessionKey::Char('h'), &l);
    s.handle_key(SessionKey::Space, &l);
    assert_eq!(s.handle_key(SessionKey::Char('y'), &l), Reaction::Continue);
    assert_eq!(s.handle_key(SessionKey::Char('o'), &l), Reaction::Finish);
}

#[test]
fn escape_finishes() {
    let l = list(&["a"]);
    let mut s = fixed(GameMode::Time, 20, &["a"]);
    assert_eq!(s.handle_key(SessionKey::Esc, &l), Reaction::Finish);
}

#[test]
fn tab_restarts_when_allowed() {
    let l = list(&["a", "b", "c"]);
    let mut s = fixed(GameMode::Words, 2, &["a", "b", "c"]);
    s.handle_key(SessionKey::Char('a'), &l);
    s.handle_key(SessionKey::Space, &l);
    assert_eq!(s.handle_key(SessionKey::Tab, &l), Reaction::Restart);
    assert_eq!(s.current, 0);
    assert!(!s.started);
    assert_eq!(s.words.len(), 2);
    assert!(s.typed.iter().all(|t| t.is_empty()));
    s.restart_allowed = false;
    s.handle_key(SessionKey::Char('q'), &l);
    assert_eq!(s.handle_key(SessionKey::Tab, &l), Reaction::Continue);
    assert_eq!(s.typed[0], "q");
}

#[test]
fn time_mode_refills_near_the_end() {
    let l = list(&["w1", "w2", "w3", "w4", "w5", "w6", "w7", "w8", "w9", "w10", "w11", "w12", "w13", "w14", "w15", "w16", "w17", "w18", "w19", "w20", "w21"]);
    let words: Vec<&str> = vec!["a"; 11];
    let mut s = fixed(GameMode::Time, 20, &words);
    s.handle_key(SessionKey::Space, &l);
    assert_eq!(s.words.len(), 11);
    s.handle_key(SessionKey::Space, &l);
    assert_eq!(s.current, 2);
    assert_eq!(s.words.len(), 31);
    assert_eq!(s.typed.len(), 31);
    assert!(s.words[11..].iter().all(|w| l.contains(w)));
}

#[test]
fn game_over_rules() {
    let mut s = fixed(GameMode::Words, 1, &["a", "b"]);
    assert!(!s.is_over(None));
    s.current = 1;
    assert!(s.is_over(None));
    let t = fixed(GameMode::Time, 5, &["a"]);
    assert!(!t.is_over(None));
    assert!(!t.is_over(Some(29)));
    assert!(t.is_over(Some(30)));
    assert_eq!(t.remaining_secs(Some(12)), 18);
    assert_eq!(t.remaining_secs(Some(40)), 0);
    assert_eq!(t.remaining_secs(None), 30);
}

#[test]
fn tallies_count_matches_and_errors() {
    let mut s = fixed(GameMode::Words, 3, &["cat", "dog", "bird"]);
    s.typed = vec!["cat".to_string(), "dxgs".to_string(), "bi".to_string()];
    s.current = 1;
    // live: every word: 3 + 2 + 2
    assert_eq!(s.live_correct(), Some(7));
    // final: words 0 and 1: correct 3 + 2, errors 1 mismatch + 1 extra byte
    assert_eq!(s.final_tally(), Some((5, 2)));
}

#[test]
fn tally_of_nothing_typed_is_zero() {
    let s = fixed(GameMode::Words, 2, &["ab", "cd"]);
    assert_eq!(s.final_tally(), Some((0, 0)));
    assert_eq!(s.live_correct(), Some(0));
}

#[test]
fn exact_typing_scores_every_character() {
    let mut s = fixed(GameMode::Words, 2, &["tree", "leaf"]);
    s.typed = vec!["tree".to_string(), "leaf".to_string()];
    s.current = 1;
    assert_eq!(s.final_tally(), Some((8, 0)));
}

#[test]
fn result_screen_keys() {
    assert_eq!(after_test(SessionKey::Tab), AfterTest::Again);
    assert_eq!(after_test(SessionKey::Esc), AfterTest::Stop);
    assert_eq!(after_test(SessionKey::Char('x')), AfterTest::Wait);
}
