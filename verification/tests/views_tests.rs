use spectatui::views::{
    scroll_offset, scrolled_visible_range, split_length, split_task_id, stored_or_length, wrap_chars,
};

#[test]
fn scrolled_visible_range_shows_from_start_when_it_fits() {
    assert_eq!(scrolled_visible_range(10, 10, 20), (0, 10));
    assert_eq!(scrolled_visible_range(10, 0, 20), (0, 10));
}

#[test]
fn scrolled_visible_range_scrolls_to_keep_cursor_at_end_visible() {
    let (start, end) = scrolled_visible_range(30, 30, 10);
    assert_eq!((start, end), (21, 30));
    assert_eq!(end - start, 9, "9 chars visible, cursor sits right after them");
}

#[test]
fn scrolled_visible_range_scrolls_to_keep_cursor_at_start_visible() {
    let (start, end) = scrolled_visible_range(30, 0, 10);
    assert_eq!((start, end), (0, 10));
}

#[test]
fn scrolled_visible_range_scrolls_as_cursor_moves_through_middle() {
    let (start, end) = scrolled_visible_range(30, 15, 10);
    assert_eq!((start, end), (6, 16));
    assert!(15 >= start && 15 < end, "cursor stays within the visible range");
}

#[test]
fn scrolled_visible_range_clamps_cursor_beyond_char_count() {
    assert_eq!(scrolled_visible_range(5, 999, 10), (0, 5));
}

#[test]
fn split_length_honors_both_minimums() {
    assert_eq!(split_length(100, 500, 30, 40), 30);
    assert_eq!(split_length(100, 9_500, 30, 40), 60);
}

#[test]
fn stored_length_uses_the_legacy_default_until_dragged() {
    assert_eq!(stored_or_length(0, 38, 100), 3_800);
    assert_eq!(stored_or_length(6_200, 38, 100), 6_200);
}

#[test]
fn scroll_offset_keeps_selection_visible() {
    assert_eq!(scroll_offset(3, 10), 0);
    assert_eq!(scroll_offset(15, 10), 6);
    assert_eq!(scroll_offset(5, 0), 0);
}

#[test]
fn wrap_chars_splits_by_width() {
    assert_eq!(wrap_chars("abcdefg", 3), vec!["abc".to_string(), "def".to_string(), "g".to_string()]);
}

#[test]
fn split_task_id_takes_short_t_ids_only() {
    assert_eq!(split_task_id("  T001 Do thing"), ("T001".to_string(), " Do thing".to_string()));
    assert_eq!(split_task_id("Task one"), ("Task".to_string(), " one".to_string()));
    assert_eq!(split_task_id("Do one"), (String::new(), "Do one".to_string()));
    assert_eq!(split_task_id("T0001234 long id"), (String::new(), "T0001234 long id".to_string()));
}
