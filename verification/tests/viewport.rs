use pager::{Frame, MoveUnit, Screen, Segment};

fn screen(width: usize, height: usize, text: &str) -> Screen {
    Screen::new(width, height, text.to_string())
}

fn searching(width: usize, height: usize, text: &str, query: &str) -> Screen {
    let mut scr = screen(width, height, text);
    scr.get_query_mut().push_str(query);
    scr
}

fn numbered(count: usize) -> String {
    (0..count).map(|i| format!("line {}\n", i)).collect()
}

fn plain(text: &str) -> Segment {
    Segment { text: text.to_string(), highlighted: false }
}

fn marked(text: &str) -> Segment {
    Segment { text: text.to_string(), highlighted: true }
}

fn max_top(scr: &Screen) -> usize {
    scr.lines().len().saturating_sub(scr.height().saturating_sub(1))
}

#[test]
fn new_screen_shows_the_start() {
    let mut scr = screen(10, 4, "hello world\nfoo\n");
    assert_eq!(scr.lines(), &vec!["hello worl", "d", "foo"]);
    assert_eq!(scr.contents_height(), 3);
    assert_eq!(scr.current_top(), 0);
    assert_eq!(scr.width(), 10);
    assert_eq!(scr.height(), 4);
    assert_eq!(scr.get_query(), "");
    assert!(!scr.is_query_mode());
    assert_eq!(scr.message(), None);
    assert!(scr.needs_update());
    let frame = scr.draw().unwrap();
    assert_eq!(
        frame.rows,
        vec![vec![plain("hello worl")], vec![plain("d")], vec![plain("foo")]]
    );
    assert_eq!(frame.status, ":");
}

#[test]
fn content_rows_leave_out_the_status_row() {
    assert_eq!(screen(80, 24, "x").contents_height(), 23);
    assert_eq!(screen(80, 2, "x").contents_height(), 1);
    assert_eq!(screen(80, 1, "x").contents_height(), 0);
    assert_eq!(screen(80, 0, "x").contents_height(), 0);
    assert_eq!(screen(80, usize::MAX, "x").contents_height(), usize::MAX - 1);
}

#[test]
fn scrolling_moves_by_lines() {
    let mut scr = screen(80, 4, &numbered(10));
    scr.scroll(1);
    assert_eq!(scr.current_top(), 1);
    scr.scroll(3);
    assert_eq!(scr.current_top(), 4);
    scr.scroll(-2);
    assert_eq!(scr.current_top(), 2);
    scr.scroll(0);
    assert_eq!(scr.current_top(), 2);
}

#[test]
fn scrolling_stops_at_both_ends() {
    let mut scr = screen(80, 4, &numbered(10));
    scr.scroll(-1);
    assert_eq!(scr.current_top(), 0);
    scr.scroll(100);
    assert_eq!(scr.current_top(), 7);
    scr.scroll(1);
    assert_eq!(scr.current_top(), 7);
    scr.scroll(-100);
    assert_eq!(scr.current_top(), 0);
    scr.scroll(isize::MAX);
    assert_eq!(scr.current_top(), 7);
    scr.scroll(isize::MAX);
    assert_eq!(scr.current_top(), 7);
    scr.scroll(isize::MIN);
    assert_eq!(scr.current_top(), 0);
    scr.scroll(isize::MIN);
    assert_eq!(scr.current_top(), 0);
    scr.scroll(3);
    scr.scroll(-isize::MAX);
    assert_eq!(scr.current_top(), 0);
}

#[test]
fn text_shorter_than_the_screen_does_not_scroll() {
    let mut scr = screen(80, 24, &numbered(5));
    scr.scroll(1);
    assert_eq!(scr.current_top(), 0);
    scr.down_by(MoveUnit::Entire);
    assert_eq!(scr.current_top(), 0);
    scr.down_by(MoveUnit::HalfPage);
    assert_eq!(scr.current_top(), 0);
}

#[test]
fn scrolling_marks_the_screen_for_drawing() {
    let mut scr = screen(80, 4, &numbered(10));
    assert!(scr.draw().is_some());
    assert!(!scr.needs_update());
    scr.scroll(-1);
    assert_eq!(scr.current_top(), 0);
    assert!(scr.needs_update());
}

#[test]
fn units_are_a_line_half_a_page_and_everything() {
    let mut scr = screen(80, 9, &numbered(100));
    scr.down_by(MoveUnit::Line);
    assert_eq!(scr.current_top(), 1);
    scr.down_by(MoveUnit::HalfPage);
    assert_eq!(scr.current_top(), 5);
    scr.up_by(MoveUnit::Line);
    assert_eq!(scr.current_top(), 4);
    scr.down_by(MoveUnit::Entire);
    assert_eq!(scr.current_top(), 92);
    scr.up_by(MoveUnit::HalfPage);
    assert_eq!(scr.current_top(), 88);
    scr.up_by(MoveUnit::Entire);
    assert_eq!(scr.current_top(), 0);
    scr.up_by(MoveUnit::HalfPage);
    assert_eq!(scr.current_top(), 0);
}

#[test]
fn half_a_page_rounds_down() {
    let mut scr = screen(80, 5, &numbered(100));
    scr.down_by(MoveUnit::HalfPage);
    assert_eq!(scr.current_top(), 2);
    let mut scr = screen(80, 1, &numbered(100));
    scr.down_by(MoveUnit::HalfPage);
    assert_eq!(scr.current_top(), 0);
    let mut scr = screen(80, 0, &numbered(100));
    scr.down_by(MoveUnit::HalfPage);
    assert_eq!(scr.current_top(), 0);
}

#[test]
fn without_content_rows_the_offset_reaches_the_end() {
    let mut scr = screen(80, 1, &numbered(3));
    scr.down_by(MoveUnit::Entire);
    assert_eq!(scr.current_top(), 3);
    let frame = scr.draw().unwrap();
    assert_eq!(frame.rows, Vec::<Vec<Segment>>::new());
    scr.get_query_mut().push_str("line");
    scr.next();
    assert_eq!(scr.current_top(), 3);
    assert_eq!(scr.message(), Some("failed to find `line`"));
    scr.prev();
    assert_eq!(scr.current_top(), 2);
}

#[test]
fn same_size_changes_nothing() {
    let mut scr = screen(80, 4, &numbered(10));
    scr.scroll(2);
    assert!(scr.draw().is_some());
    scr.update_size(80, 4);
    assert!(!scr.needs_update());
    assert_eq!(scr.current_top(), 2);
    assert!(scr.draw().is_none());
}

#[test]
fn narrower_screen_wraps_anew_and_stays_in_range() {
    let text: String = (0..5).map(|_| format!("{}\n", "x".repeat(60))).collect();
    let mut scr = screen(80, 3, &text);
    assert_eq!(scr.lines().len(), 5);
    scr.down_by(MoveUnit::Entire);
    assert_eq!(scr.current_top(), 3);
    scr.update_size(40, 3);
    assert_eq!(scr.width(), 40);
    assert_eq!(scr.lines().len(), 10);
    assert_eq!(scr.lines()[0], "x".repeat(40));
    assert_eq!(scr.lines()[1], "x".repeat(20));
    assert_eq!(scr.current_top(), 3);
    assert!(scr.current_top() <= max_top(&scr));
    assert!(scr.needs_update());
}

#[test]
fn wider_screen_pulls_the_offset_back_to_the_last_page() {
    let text: String = (0..5).map(|_| format!("{}\n", "x".repeat(60))).collect();
    let mut scr = screen(40, 3, &text);
    assert_eq!(scr.lines().len(), 10);
    scr.down_by(MoveUnit::Entire);
    assert_eq!(scr.current_top(), 8);
    scr.update_size(80, 3);
    assert_eq!(scr.lines().len(), 5);
    assert_eq!(scr.current_top(), 3);
}

#[test]
fn taller_screen_pulls_the_offset_back_to_the_last_page() {
    let mut scr = screen(80, 4, &numbered(10));
    scr.down_by(MoveUnit::Entire);
    assert_eq!(scr.current_top(), 7);
    scr.update_size(80, 9);
    assert_eq!(scr.current_top(), 2);
    scr.update_size(80, 30);
    assert_eq!(scr.current_top(), 0);
    scr.update_size(80, 4);
    assert_eq!(scr.current_top(), 0);
}

#[test]
fn same_width_and_contents_give_the_same_lines() {
    let text = "alpha beta gamma delta\nepsilon\n\nzeta eta theta";
    let mut a = screen(7, 4, text);
    let b = screen(7, 9, text);
    assert_eq!(a.lines(), b.lines());
    let before = a.lines().clone();
    a.scroll(2);
    a.update_size(3, 4);
    assert_ne!(a.lines(), &before);
    a.update_size(7, 2);
    assert_eq!(a.lines(), &before);
    assert_eq!(a.lines(), b.lines());
}

#[test]
fn offset_stays_in_range_whatever_happens() {
    let mut scr = searching(12, 5, &numbered(30), "1");
    let steps: [isize; 12] = [3, -7, 40, -1, 15, isize::MAX, -2, isize::MIN, 9, 9, 9, 9];
    for (i, step) in steps.iter().enumerate() {
        scr.scroll(*step);
        assert!(scr.current_top() <= max_top(&scr));
        if i % 2 == 0 {
            scr.next();
        } else {
            scr.prev();
        }
        assert!(scr.current_top() <= max_top(&scr));
        scr.update_size(4 + i, 2 + (i * 5) % 11);
        assert!(scr.current_top() <= max_top(&scr));
        scr.down_by(MoveUnit::HalfPage);
        assert!(scr.current_top() <= max_top(&scr));
        scr.up_by(MoveUnit::Line);
        assert!(scr.current_top() <= max_top(&scr));
    }
    scr.down_by(MoveUnit::Entire);
    assert_eq!(scr.current_top(), max_top(&scr));
    scr.update_size(80, 100);
    assert_eq!(scr.current_top(), 0);
}

#[test]
fn query_is_edited_in_place() {
    let mut scr = screen(80, 4, "x");
    assert!(scr.draw().is_some());
    scr.get_query_mut().push('a');
    assert!(scr.needs_update());
    scr.get_query_mut().push('b');
    assert_eq!(scr.get_query(), "ab");
    let _ = scr.get_query_mut().pop();
    assert_eq!(scr.get_query(), "a");
    *scr.get_query_mut() = "foo".to_string();
    assert_eq!(scr.get_query(), "foo");
}

#[test]
fn query_mode_is_switched() {
    let mut scr = screen(80, 4, "x");
    assert!(scr.draw().is_some());
    scr.set_query_mode(true);
    assert!(scr.is_query_mode());
    assert!(scr.needs_update());
    assert_eq!(scr.draw().unwrap().status, "/");
    scr.set_query_mode(false);
    assert!(!scr.is_query_mode());
    assert!(scr.needs_update());
    assert_eq!(scr.draw().unwrap().status, ":");
}

#[test]
fn next_skips_the_top_line() {
    let mut scr = searching(80, 2, "foo bar\nbaz\nfoo qux\n", "foo");
    assert_eq!(scr.lines(), &vec!["foo bar", "baz", "foo qux"]);
    assert_eq!(scr.current_top(), 0);
    scr.next();
    assert_eq!(scr.current_top(), 2);
    assert_eq!(scr.message(), None);
    assert!(scr.needs_update());
}

#[test]
fn next_takes_the_first_line_below() {
    let mut scr = searching(80, 2, "a\nfoo 1\nfoo 2\nb\nfoo 3\n", "foo");
    scr.next();
    assert_eq!(scr.current_top(), 1);
    scr.next();
    assert_eq!(scr.current_top(), 2);
    scr.next();
    assert_eq!(scr.current_top(), 4);
    scr.next();
    assert_eq!(scr.current_top(), 4);
    assert_eq!(scr.message(), Some("failed to find `foo`"));
}

#[test]
fn prev_takes_the_nearest_line_above() {
    let mut scr = searching(80, 2, "a\nfoo 1\nfoo 2\nb\nfoo 3\n", "foo");
    scr.down_by(MoveUnit::Entire);
    assert_eq!(scr.current_top(), 4);
    scr.prev();
    assert_eq!(scr.current_top(), 2);
    scr.prev();
    assert_eq!(scr.current_top(), 1);
    assert_eq!(scr.message(), None);
    scr.prev();
    assert_eq!(scr.current_top(), 1);
    assert_eq!(scr.message(), Some("failed to find `foo`"));
}

#[test]
fn a_hit_on_the_last_page_scrolls_to_the_last_page() {
    let mut scr = searching(80, 4, "a\nb\nc\nd\nfoo\n", "foo");
    scr.next();
    assert_eq!(scr.current_top(), 2);
    assert_eq!(scr.draw().unwrap().rows.len(), 3);
    scr.next();
    assert_eq!(scr.current_top(), 2);
    assert_eq!(scr.message(), None);
    assert!(scr.needs_update());
}

#[test]
fn a_miss_sets_the_message_and_keeps_the_offset() {
    let mut scr = searching(80, 2, "foo bar\nbaz\nfoo qux\n", "xyz");
    scr.scroll(1);
    assert!(scr.draw().is_some());
    scr.next();
    assert_eq!(scr.message(), Some("failed to find `xyz`"));
    assert_eq!(scr.current_top(), 1);
    assert!(scr.needs_update());
    assert!(scr.draw().is_some());
    scr.prev();
    assert_eq!(scr.message(), Some("failed to find `xyz`"));
    assert_eq!(scr.current_top(), 1);
}

#[test]
fn search_without_a_query_only_sets_the_message() {
    let mut scr = screen(80, 2, "foo bar\nbaz\nfoo qux\n");
    scr.scroll(1);
    assert!(scr.draw().is_some());
    scr.next();
    assert_eq!(scr.current_top(), 1);
    assert_eq!(scr.message(), Some("search query is not set"));
    assert!(scr.needs_update());
    assert_eq!(scr.draw().unwrap().status, ":search query is not set");
    scr.prev();
    assert_eq!(scr.current_top(), 1);
    assert_eq!(scr.message(), Some("search query is not set"));
    assert!(scr.needs_update());
}

#[test]
fn prev_after_next_comes_back() {
    let mut scr = searching(80, 2, "a\nfoo 1\nb\nc\nfoo 2\nd\n", "foo");
    scr.scroll(1);
    scr.next();
    assert_eq!(scr.current_top(), 4);
    scr.prev();
    assert_eq!(scr.current_top(), 1);
}

#[test]
fn prev_after_next_comes_back_from_a_capped_jump() {
    let mut scr = searching(80, 4, "foo 1\na\nb\nc\nfoo 2\n", "foo");
    scr.next();
    assert_eq!(scr.current_top(), 2);
    scr.prev();
    assert_eq!(scr.current_top(), 0);
}

#[test]
fn prev_after_next_stays_where_the_start_was_no_hit() {
    let mut scr = searching(80, 2, "baz\nfoo\n", "foo");
    scr.next();
    assert_eq!(scr.current_top(), 1);
    scr.prev();
    assert_eq!(scr.current_top(), 1);
    assert_eq!(scr.message(), Some("failed to find `foo`"));
}

#[test]
fn a_query_across_a_wrap_is_not_found() {
    let mut scr = searching(5, 2, "x\nhello world\n", "lo w");
    assert_eq!(scr.lines(), &vec!["x", "hello", " worl", "d"]);
    scr.next();
    assert_eq!(scr.current_top(), 0);
    assert_eq!(scr.message(), Some("failed to find `lo w`"));
}

#[test]
fn draw_shows_the_window_from_the_offset() {
    let mut scr = screen(80, 4, &numbered(10));
    scr.scroll(2);
    let frame = scr.draw().unwrap();
    assert_eq!(
        frame,
        Frame {
            rows: vec![vec![plain("line 2")], vec![plain("line 3")], vec![plain("line 4")]],
            status_row: 3,
            status: ":".to_string(),
        }
    );
}

#[test]
fn draw_shows_fewer_rows_where_the_text_ends() {
    let mut scr = screen(80, 10, "a\nb\n");
    let frame = scr.draw().unwrap();
    assert_eq!(frame.rows, vec![vec![plain("a")], vec![plain("b")]]);
    assert_eq!(frame.status_row, 9);
    let mut scr = screen(80, 10, "");
    let frame = scr.draw().unwrap();
    assert_eq!(frame.rows, Vec::<Vec<Segment>>::new());
    assert_eq!(frame.status, ":");
}

#[test]
fn draw_highlights_the_query() {
    let mut scr = searching(80, 4, "foo bar\nbaz\nfoo qux foo\n", "foo");
    let frame = scr.draw().unwrap();
    assert_eq!(
        frame.rows,
        vec![
            vec![plain(""), marked("foo"), plain(" bar")],
            vec![plain("baz")],
            vec![plain(""), marked("foo"), plain(" qux "), marked("foo"), plain("")],
        ]
    );
    assert_eq!(frame.status, ":foo");
}

#[test]
fn draw_happens_once_per_change() {
    let mut scr = screen(80, 4, "a\n");
    assert!(scr.draw().is_some());
    assert!(!scr.needs_update());
    assert!(scr.draw().is_none());
    assert!(scr.draw().is_none());
    scr.scroll(1);
    assert!(scr.draw().is_some());
    assert!(scr.draw().is_none());
}

#[test]
fn message_is_shown_once() {
    let mut scr = searching(80, 4, "a\n", "xyz");
    scr.next();
    assert_eq!(scr.draw().unwrap().status, ":failed to find `xyz`");
    assert_eq!(scr.message(), None);
    scr.scroll(0);
    assert_eq!(scr.draw().unwrap().status, ":xyz");
}

#[test]
fn status_row_shows_the_query_being_edited() {
    let mut scr = screen(80, 4, "a\n");
    scr.set_query_mode(true);
    scr.get_query_mut().push_str("ab");
    assert_eq!(scr.draw().unwrap().status, "/ab");
    scr.set_query_mode(false);
    assert_eq!(scr.draw().unwrap().status, ":ab");
}

#[test]
fn status_row_is_below_the_content_rows() {
    assert_eq!(screen(80, 24, "a\n").draw().unwrap().status_row, 23);
    assert_eq!(screen(80, 2, "a\n").draw().unwrap().status_row, 1);
    assert_eq!(screen(80, 1, "a\n").draw().unwrap().status_row, 0);
    assert_eq!(screen(80, 0, "a\n").draw().unwrap().status_row, 0);
}
