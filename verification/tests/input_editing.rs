use ratatuni::gauge_state::GaugeState;
use ratatuni::input_state::{InputMode, InputState};

fn state_with(text: &str, cursor: usize) -> InputState {
    let mut s = InputState::new();
    s.input = text.to_string();
    s.cursor_position = cursor;
    s
}

#[test]
fn new_state_is_empty_and_viewing() {
    let s = InputState::new();
    assert_eq!(s.input, "");
    assert_eq!(s.cursor_position, 0);
    assert!(s.input_mode == InputMode::Normal);
    assert_eq!(s.urls_to_download_table.selected(), None);
    assert!(s.urls_to_download_table_data.is_empty());
    assert_eq!(s.download_index_and_length, (0, vec![]));
    assert_eq!((s.gauge.numer, s.gauge.denom), (0, 1));
    assert_eq!(s.progress_label, "VIEW ---");
}

#[test]
fn typing_inserts_at_cursor() {
    let mut s = state_with("ac", 1);
    s.enter_char('b');
    assert_eq!(s.input, "abc");
    assert_eq!(s.cursor_position, 2);
    s.enter_char('d');
    assert_eq!(s.input, "abdc");
    assert_eq!(s.cursor_position, 3);
}

#[test]
fn typing_at_end_and_start() {
    let mut s = state_with("", 0);
    for c in "url".chars() {
        s.enter_char(c);
    }
    assert_eq!(s.input, "url");
    assert_eq!(s.cursor_position, 3);
    s.reset_cursor();
    s.enter_char('>');
    assert_eq!(s.input, ">url");
    assert_eq!(s.cursor_position, 1);
}

#[test]
fn delete_removes_char_before_cursor() {
    let mut s = state_with("abc", 2);
    s.delete_char();
    assert_eq!(s.input, "ac");
    assert_eq!(s.cursor_position, 1);
    s.delete_char();
    assert_eq!(s.input, "c");
    assert_eq!(s.cursor_position, 0);
    s.delete_char();
    assert_eq!(s.input, "c");
    assert_eq!(s.cursor_position, 0);
}

#[test]
fn delete_undoes_enter_on_ascii() {
    for (text, cursor) in [("", 0usize), ("hello", 0), ("hello", 3), ("hello", 5)].iter() {
        let mut s = state_with(text, *cursor);
        s.enter_char('Z');
        s.delete_char();
        assert_eq!(s.input, *text);
        assert_eq!(s.cursor_position, *cursor);
    }
}

#[test]
fn cursor_moves_stay_in_text() {
    let mut s = state_with("ab", 0);
    s.move_cursor_left();
    assert_eq!(s.cursor_position, 0);
    s.move_cursor_right();
    s.move_cursor_right();
    s.move_cursor_right();
    assert_eq!(s.cursor_position, 2);
    assert_eq!(s.clamp_cursor(10), 2);
    assert_eq!(s.clamp_cursor(1), 1);
}

#[test]
fn cursor_counts_bytes() {
    let mut s = state_with("é", 0);
    s.move_cursor_right();
    s.move_cursor_right();
    s.move_cursor_right();
    assert_eq!(s.cursor_position, 2);
    assert!(s.can_insert_at_cursor());
    s.cursor_position = 1;
    assert!(!s.can_insert_at_cursor());
}

#[test]
fn delete_counts_characters_from_byte_cursor() {
    // cursor 2 is after the two bytes of 'é'; the character removed is the
    // one at index 1, 'x'.
    let mut s = state_with("éxy", 2);
    s.delete_char();
    assert_eq!(s.input, "éy");
    assert_eq!(s.cursor_position, 1);
}

#[test]
fn submit_queues_url_as_dormant() {
    let mut s = state_with("https://youtu.be/abc", 5);
    s.submit_url_to_queue();
    assert_eq!(s.input, "");
    assert_eq!(s.cursor_position, 0);
    assert_eq!(s.urls_to_download_table_data, vec![vec!["https://youtu.be/abc".to_string(), "Dormant".to_string()]]);
}

#[test]
fn queue_navigation_wraps() {
    let mut s = InputState::new();
    s.next();
    assert_eq!(s.urls_to_download_table.selected(), Some(0));
    for u in ["a", "b", "c"].iter() {
        s.input = u.to_string();
        s.submit_url_to_queue();
    }
    s.next();
    assert_eq!(s.urls_to_download_table.selected(), Some(1));
    s.next();
    s.next();
    assert_eq!(s.urls_to_download_table.selected(), Some(0));
    s.previous();
    assert_eq!(s.urls_to_download_table.selected(), Some(2));
    s.previous();
    assert_eq!(s.urls_to_download_table.selected(), Some(1));
}

#[test]
fn previous_on_empty_queue_selects_first() {
    let mut s = InputState::new();
    s.urls_to_download_table.select(Some(4));
    s.previous();
    assert_eq!(s.urls_to_download_table.selected(), Some(0));
}

#[test]
fn gauge_counts_steps() {
    let mut g = GaugeState { numer: 0, denom: 1 };
    g.increase_numerator();
    g.increase_numerator_by(3);
    assert_eq!(g.numer, 4);
    g.set_denominator(8);
    g.set_numerator(u64::MAX);
    g.increase_numerator();
    assert_eq!((g.numer, g.denom), (u64::MAX, 8));
}
