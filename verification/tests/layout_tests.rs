use typing_test::layout::{char_marks, cursor_column, default_frame, flow_words, overflow_chars, word_widths, Mark};

fn words(ws: &[&str]) -> Vec<String> {
    ws.iter().map(|w| w.to_string()).collect()
}

#[test]
fn words_wrap_to_a_new_line() {
    let lens = vec![3u16, 4, 5];
    // line ends at column 10, lines two rows apart
    let f = flow_words(&lens, 2, 10, 2, 5, 3).unwrap();
    assert_eq!(f.placed, vec![(2, 5), (6, 5), (2, 7)]);
    assert_eq!(f.end, (8, 7));
}

#[test]
fn partial_flow_gives_cursor_start() {
    let lens = vec![3u16, 4, 5];
    let f = flow_words(&lens, 2, 10, 2, 5, 2).unwrap();
    assert_eq!(f.end, (11, 5));
}

#[test]
fn flow_that_leaves_u16_is_refused() {
    let lens = vec![60000u16, 60000];
    assert!(flow_words(&lens, 0, 65535, 1, 0, 2).is_none());
}

#[test]
fn widths_are_byte_lengths() {
    assert_eq!(word_widths(&words(&["ab", "été"])), vec![2, 5]);
}

#[test]
fn default_frame_centres_text() {
    let f = default_frame(80, 24, &words(&["hello", "world"])).unwrap();
    assert_eq!(f.start_x, (80 - 11) / 2);
    assert_eq!(f.start_y, 12);
    assert_eq!(f.bar_y, 10);
    let wide = default_frame(4, 24, &words(&["hello", "world"])).unwrap();
    assert_eq!(wide.start_x, 0);
    assert!(default_frame(80, 3, &words(&["a"])).is_none());
}

#[test]
fn marks_of_current_and_other_words() {
    let m = char_marks(&"cat".to_string(), &"cx".to_string(), true).unwrap();
    assert_eq!(m, vec![Mark::Correct, Mark::Incorrect, Mark::Pending]);
    let m = char_marks(&"cat".to_string(), &"c".to_string(), false).unwrap();
    assert_eq!(m, vec![Mark::Correct, Mark::Untyped, Mark::Untyped]);
}

#[test]
fn marks_refuse_multibyte_gap() {
    assert!(char_marks(&"abc".to_string(), &"é".to_string(), true).is_none());
}

#[test]
fn overflow_after_word() {
    assert_eq!(overflow_chars(&"ab".to_string(), &"abcd".to_string()), vec!['c', 'd']);
    assert!(overflow_chars(&"abcd".to_string(), &"ab".to_string()).is_empty());
}

#[test]
fn cursor_after_typed_bytes() {
    assert_eq!(cursor_column(10, &"abc".to_string()), Some(13));
    assert_eq!(cursor_column(65535, &"a".to_string()), None);
}
