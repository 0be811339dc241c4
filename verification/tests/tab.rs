use kilo::keys::{EditorKey, CTRL_H, CTRL_L};
use kilo::tab::{SearchDirection, Tab};

fn cs(text: &str) -> Vec<char> {
    text.chars().collect()
}

fn doc(lines: &[&str]) -> Tab {
    let mut tab = Tab::new(20, 80);
    let mut text = String::new();
    for line in lines {
        text.push_str(line);
        text.push('\n');
    }
    tab.load_file(None, &cs(&text));
    tab
}

fn numbered(count: usize) -> Tab {
    let lines: Vec<String> = (0..count).map(|i| format!("line {}", i)).collect();
    let refs: Vec<&str> = lines.iter().map(|l| l.as_str()).collect();
    doc(&refs)
}

fn content(tab: &Tab) -> Vec<String> {
    tab.rows.iter().map(|l| l.chars.iter().collect()).collect()
}

fn renders(tab: &Tab) -> Vec<String> {
    tab.rows.iter().map(|l| l.render.iter().collect()).collect()
}

fn at(tab: &mut Tab, cy: usize, cx: usize) {
    tab.cy = cy;
    tab.cx = cx;
}

fn cursor(tab: &Tab) -> (usize, usize) {
    (tab.cy, tab.cx)
}

#[test]
fn a_new_tab_is_empty_and_unnamed() {
    let tab = Tab::new(20, 80);
    assert_eq!((tab.screenrows, tab.screencols), (20, 80));
    assert_eq!((tab.cx, tab.cy, tab.rx), (0, 0, 0));
    assert_eq!((tab.row_offset, tab.col_offset), (0, 0));
    assert!(tab.rows.is_empty());
    assert_eq!(tab.filename, None);
    assert_eq!(tab.dirty, 0);
    assert_eq!(tab.last_match, None);
    assert_eq!(tab.direction, SearchDirection::Forward);
}

#[test]
fn a_loaded_file_renders_its_tabs() {
    let mut tab = Tab::new(20, 80);
    tab.load_file(Some(cs("notes.txt")), &cs("abc\n\tde\nf"));
    assert_eq!(content(&tab), vec!["abc", "\tde", "f"]);
    assert_eq!(renders(&tab), vec!["abc", "    de", "f"]);
    assert_eq!(tab.rows[1].cx_to_rx(0), 0);
    assert_eq!(tab.rows[1].cx_to_rx(1), 4);
    assert_eq!(tab.filename, Some(cs("notes.txt")));
    assert_eq!(tab.dirty, 0);
    assert_eq!(cursor(&tab), (0, 0));
}

#[test]
fn load_file_adds_below_what_is_there() {
    let mut tab = doc(&["one"]);
    at(&mut tab, 1, 0);
    tab.load_file(None, &cs("two\n\tthree"));
    assert_eq!(content(&tab), vec!["one", "two", "\tthree"]);
    assert_eq!(renders(&tab), vec!["one", "two", "    three"]);
    assert_eq!(cursor(&tab), (1, 0));
    assert_eq!(tab.filename, None);
}

#[test]
fn contents_ends_every_line_with_a_line_feed() {
    assert_eq!(doc(&["ab", "", "\tc"]).contents(), cs("ab\n\n\tc\n"));
    assert_eq!(doc(&["only"]).contents(), cs("only\n"));
    assert_eq!(Tab::new(20, 80).contents(), cs(""));
}

#[test]
fn arrow_right_at_the_end_of_a_line_goes_to_the_start_of_the_next() {
    let mut tab = doc(&["abc", "def"]);
    at(&mut tab, 0, 3);
    tab.move_cursor(EditorKey::ArrowRight);
    assert_eq!(cursor(&tab), (1, 0));
}

#[test]
fn arrow_right_steps_inside_a_line() {
    let mut tab = doc(&["abc"]);
    tab.move_cursor(EditorKey::ArrowRight);
    assert_eq!(cursor(&tab), (0, 1));
    tab.process_buffer_keypress(EditorKey::ArrowRight);
    assert_eq!(cursor(&tab), (0, 2));
}

#[test]
fn arrow_right_stops_at_the_append_position() {
    let mut tab = doc(&["abc"]);
    at(&mut tab, 0, 3);
    tab.move_cursor(EditorKey::ArrowRight);
    assert_eq!(cursor(&tab), (1, 0));
    tab.move_cursor(EditorKey::ArrowRight);
    assert_eq!(cursor(&tab), (1, 0));
}

#[test]
fn arrow_left_at_the_start_of_a_line_goes_to_the_end_of_the_line_above() {
    let mut tab = doc(&["abc", "de"]);
    at(&mut tab, 1, 0);
    tab.move_cursor(EditorKey::ArrowLeft);
    assert_eq!(cursor(&tab), (0, 3));
    tab.move_cursor(EditorKey::ArrowLeft);
    assert_eq!(cursor(&tab), (0, 2));
}

#[test]
fn arrow_left_stops_at_the_start_of_the_buffer() {
    let mut tab = doc(&["abc"]);
    tab.move_cursor(EditorKey::ArrowLeft);
    assert_eq!(cursor(&tab), (0, 0));
}

#[test]
fn up_and_down_snap_the_column_to_the_line() {
    let mut tab = doc(&["abcdef", "ab", "abcd"]);
    at(&mut tab, 0, 5);
    tab.move_cursor(EditorKey::ArrowDown);
    assert_eq!(cursor(&tab), (1, 2));
    tab.move_cursor(EditorKey::ArrowDown);
    assert_eq!(cursor(&tab), (2, 2));
    tab.move_cursor(EditorKey::ArrowUp);
    tab.move_cursor(EditorKey::ArrowUp);
    assert_eq!(cursor(&tab), (0, 2));
}

#[test]
fn down_does_nothing_on_the_last_line() {
    let mut tab = doc(&["a", "b"]);
    at(&mut tab, 1, 0);
    tab.move_cursor(EditorKey::ArrowDown);
    assert_eq!(cursor(&tab), (1, 0));
    tab.process_buffer_keypress(EditorKey::ArrowDown);
    assert_eq!(cursor(&tab), (1, 0));
    let mut single = doc(&["a"]);
    at(&mut single, 0, 1);
    single.move_cursor(EditorKey::ArrowDown);
    assert_eq!(cursor(&single), (0, 1));
}

#[test]
fn down_does_nothing_at_the_append_position() {
    let mut tab = doc(&["a", "b"]);
    at(&mut tab, 2, 0);
    tab.move_cursor(EditorKey::ArrowDown);
    assert_eq!(cursor(&tab), (2, 0));
    let mut empty = Tab::new(20, 80);
    empty.move_cursor(EditorKey::ArrowDown);
    assert_eq!(cursor(&empty), (0, 0));
}

#[test]
fn down_steps_to_the_last_line() {
    let mut tab = doc(&["a", "b", "c"]);
    tab.move_cursor(EditorKey::ArrowDown);
    assert_eq!(cursor(&tab), (1, 0));
    tab.move_cursor(EditorKey::ArrowDown);
    assert_eq!(cursor(&tab), (2, 0));
    tab.move_cursor(EditorKey::ArrowDown);
    assert_eq!(cursor(&tab), (2, 0));
}

#[test]
fn up_stops_at_the_first_line() {
    let mut tab = doc(&["a", "b"]);
    at(&mut tab, 1, 1);
    tab.move_cursor(EditorKey::ArrowUp);
    assert_eq!(cursor(&tab), (0, 1));
    tab.move_cursor(EditorKey::ArrowUp);
    assert_eq!(cursor(&tab), (0, 1));
}

#[test]
fn move_cursor_ignores_other_keys() {
    let mut tab = doc(&["abc"]);
    at(&mut tab, 0, 2);
    tab.move_cursor(EditorKey::Home);
    tab.move_cursor(EditorKey::Char('x'));
    assert_eq!(cursor(&tab), (0, 2));
    assert_eq!(content(&tab), vec!["abc"]);
}

#[test]
fn move_cursor_snaps_a_column_beyond_the_line() {
    let mut tab = doc(&["abc", "d"]);
    at(&mut tab, 1, 3);
    tab.move_cursor(EditorKey::ArrowRight);
    assert_eq!(cursor(&tab), (1, 1));
}

#[test]
fn page_down_starts_at_the_bottom_of_the_window() {
    let mut tab = numbered(100);
    tab.row_offset = 10;
    at(&mut tab, 12, 3);
    tab.process_buffer_keypress(EditorKey::PageDown);
    assert_eq!(cursor(&tab), (49, 3));
}

#[test]
fn page_down_stops_on_the_last_line() {
    let mut tab = numbered(30);
    at(&mut tab, 2, 4);
    tab.process_buffer_keypress(EditorKey::PageDown);
    assert_eq!(cursor(&tab), (29, 4));
    tab.row_offset = 10;
    tab.process_buffer_keypress(EditorKey::PageDown);
    assert_eq!(cursor(&tab), (29, 4));
}

#[test]
fn page_down_in_a_short_document_starts_at_the_append_position() {
    let mut short = numbered(3);
    at(&mut short, 1, 2);
    short.process_buffer_keypress(EditorKey::PageDown);
    assert_eq!(cursor(&short), (3, 0));
    let mut window = numbered(25);
    window.row_offset = 6;
    window.process_buffer_keypress(EditorKey::PageDown);
    assert_eq!(cursor(&window), (25, 0));
    window.row_offset = 5;
    window.process_buffer_keypress(EditorKey::PageDown);
    assert_eq!(cursor(&window), (24, 0));
}

#[test]
fn page_up_starts_at_the_top_of_the_window() {
    let mut tab = numbered(100);
    tab.row_offset = 50;
    at(&mut tab, 60, 2);
    tab.process_buffer_keypress(EditorKey::PageUp);
    assert_eq!(cursor(&tab), (30, 2));
    tab.row_offset = 5;
    tab.process_buffer_keypress(EditorKey::PageUp);
    assert_eq!(cursor(&tab), (0, 2));
}

#[test]
fn page_up_with_the_window_below_the_buffer_starts_at_the_append_position() {
    let mut tab = numbered(3);
    tab.row_offset = 10;
    tab.screenrows = 2;
    tab.process_buffer_keypress(EditorKey::PageUp);
    assert_eq!(cursor(&tab), (1, 0));
}

#[test]
fn page_keys_on_a_screen_without_rows_snap_the_column() {
    let mut tab = doc(&["abcdef", "ab"]);
    tab.screenrows = 0;
    tab.row_offset = 1;
    at(&mut tab, 0, 6);
    tab.process_buffer_keypress(EditorKey::PageUp);
    assert_eq!(cursor(&tab), (1, 2));
    tab.row_offset = 0;
    tab.process_buffer_keypress(EditorKey::PageDown);
    assert_eq!(cursor(&tab), (0, 2));
}

#[test]
fn home_and_end_go_to_the_ends_of_the_line() {
    let mut tab = doc(&["abc"]);
    at(&mut tab, 0, 1);
    tab.process_buffer_keypress(EditorKey::End);
    assert_eq!(cursor(&tab), (0, 3));
    tab.process_buffer_keypress(EditorKey::Home);
    assert_eq!(cursor(&tab), (0, 0));
    at(&mut tab, 1, 0);
    tab.process_buffer_keypress(EditorKey::End);
    assert_eq!(cursor(&tab), (1, 0));
}

#[test]
fn insert_char_puts_the_character_at_the_cursor() {
    let mut tab = doc(&["abc"]);
    at(&mut tab, 0, 1);
    tab.insert_char('X');
    assert_eq!(content(&tab), vec!["aXbc"]);
    assert_eq!(renders(&tab), vec!["aXbc"]);
    assert_eq!(cursor(&tab), (0, 2));
    assert_eq!(tab.dirty, 1);
}

#[test]
fn insert_char_derives_the_render_form_again() {
    let mut tab = doc(&["ab"]);
    at(&mut tab, 0, 1);
    tab.insert_char('\t');
    assert_eq!(content(&tab), vec!["a\tb"]);
    assert_eq!(renders(&tab), vec!["a   b"]);
}

#[test]
fn insert_char_at_the_append_position_adds_a_line() {
    let mut tab = Tab::new(20, 80);
    tab.insert_char('a');
    assert_eq!(content(&tab), vec!["a"]);
    assert_eq!(cursor(&tab), (0, 1));
    assert_eq!(tab.dirty, 2);
    let mut below = doc(&["x"]);
    at(&mut below, 1, 0);
    below.process_buffer_keypress(EditorKey::Char('y'));
    assert_eq!(content(&below), vec!["x", "y"]);
    assert_eq!(cursor(&below), (1, 1));
}

#[test]
fn insert_row_puts_a_line_before_the_given_one() {
    let mut tab = doc(&["a", "c"]);
    tab.insert_row(1, cs("\tb"));
    assert_eq!(content(&tab), vec!["a", "\tb", "c"]);
    assert_eq!(renders(&tab), vec!["a", "    b", "c"]);
    assert_eq!(tab.dirty, 1);
    tab.insert_row(3, cs("d"));
    assert_eq!(content(&tab), vec!["a", "\tb", "c", "d"]);
    assert_eq!(tab.dirty, 2);
}

#[test]
fn insert_row_beyond_the_append_position_does_nothing() {
    let mut tab = doc(&["a"]);
    tab.insert_row(2, cs("b"));
    assert_eq!(content(&tab), vec!["a"]);
    assert_eq!(tab.dirty, 0);
}

#[test]
fn insert_newline_at_column_zero_puts_an_empty_line_above() {
    let mut tab = doc(&["abc"]);
    tab.insert_newline();
    assert_eq!(content(&tab), vec!["", "abc"]);
    assert_eq!(cursor(&tab), (1, 0));
    assert_eq!(tab.dirty, 1);
}

#[test]
fn insert_newline_splits_the_line_at_the_cursor() {
    let mut tab = doc(&["a\tbc", "z"]);
    at(&mut tab, 0, 2);
    tab.process_buffer_keypress(EditorKey::Char('\r'));
    assert_eq!(content(&tab), vec!["a\t", "bc", "z"]);
    assert_eq!(renders(&tab), vec!["a   ", "bc", "z"]);
    assert_eq!(cursor(&tab), (1, 0));
    assert_eq!(tab.dirty, 1);
}

#[test]
fn insert_newline_at_the_end_of_a_line_opens_an_empty_line_below() {
    let mut tab = doc(&["abc"]);
    at(&mut tab, 0, 3);
    tab.insert_newline();
    assert_eq!(content(&tab), vec!["abc", ""]);
    assert_eq!(cursor(&tab), (1, 0));
}

#[test]
fn insert_newline_at_the_append_position_adds_an_empty_line() {
    let mut tab = doc(&["abc"]);
    at(&mut tab, 1, 0);
    tab.insert_newline();
    assert_eq!(content(&tab), vec!["abc", ""]);
    assert_eq!(cursor(&tab), (2, 0));
}

#[test]
fn del_char_does_nothing_at_the_start_of_the_buffer() {
    let mut tab = doc(&["abc"]);
    tab.del_char();
    assert_eq!(content(&tab), vec!["abc"]);
    assert_eq!(cursor(&tab), (0, 0));
    assert_eq!(tab.dirty, 0);
}

#[test]
fn del_char_does_nothing_at_the_append_position() {
    let mut tab = doc(&["abc"]);
    at(&mut tab, 1, 0);
    tab.del_char();
    assert_eq!(content(&tab), vec!["abc"]);
    assert_eq!(cursor(&tab), (1, 0));
    assert_eq!(tab.dirty, 0);
}

#[test]
fn del_char_removes_the_character_before_the_cursor() {
    let mut tab = doc(&["a\tc"]);
    at(&mut tab, 0, 2);
    tab.del_char();
    assert_eq!(content(&tab), vec!["ac"]);
    assert_eq!(renders(&tab), vec!["ac"]);
    assert_eq!(cursor(&tab), (0, 1));
    assert_eq!(tab.dirty, 1);
}

#[test]
fn del_char_at_column_zero_joins_the_line_to_the_one_above() {
    let mut tab = doc(&["a", "\tb", "c"]);
    at(&mut tab, 1, 0);
    tab.del_char();
    assert_eq!(content(&tab), vec!["a\tb", "c"]);
    assert_eq!(renders(&tab), vec!["a   b", "c"]);
    assert_eq!(cursor(&tab), (0, 1));
    assert_eq!(tab.dirty, 1);
}

#[test]
fn backspace_and_ctrl_h_delete_backwards() {
    let mut tab = doc(&["abc"]);
    at(&mut tab, 0, 3);
    tab.process_buffer_keypress(EditorKey::Backspace);
    assert_eq!(content(&tab), vec!["ab"]);
    tab.process_buffer_keypress(EditorKey::Char(CTRL_H));
    assert_eq!(content(&tab), vec!["a"]);
    assert_eq!(cursor(&tab), (0, 1));
    assert_eq!(tab.dirty, 2);
}

#[test]
fn delete_removes_the_character_under_the_cursor() {
    let mut tab = doc(&["abc"]);
    at(&mut tab, 0, 1);
    tab.process_buffer_keypress(EditorKey::Delete);
    assert_eq!(content(&tab), vec!["ac"]);
    assert_eq!(cursor(&tab), (0, 1));
    assert_eq!(tab.dirty, 1);
}

#[test]
fn delete_at_the_end_of_a_line_joins_the_next_line() {
    let mut tab = doc(&["ab", "cd"]);
    at(&mut tab, 0, 2);
    tab.process_buffer_keypress(EditorKey::Delete);
    assert_eq!(content(&tab), vec!["abcd"]);
    assert_eq!(cursor(&tab), (0, 2));
}

#[test]
fn delete_at_the_end_of_the_last_line_only_moves_to_the_append_position() {
    let mut tab = doc(&["ab"]);
    at(&mut tab, 0, 2);
    tab.process_buffer_keypress(EditorKey::Delete);
    assert_eq!(content(&tab), vec!["ab"]);
    assert_eq!(cursor(&tab), (1, 0));
    assert_eq!(tab.dirty, 0);
}

#[test]
fn escape_and_ctrl_l_change_nothing() {
    let mut tab = doc(&["abc"]);
    at(&mut tab, 0, 1);
    tab.process_buffer_keypress(EditorKey::Char('\u{1b}'));
    tab.process_buffer_keypress(EditorKey::Char(CTRL_L));
    assert_eq!(content(&tab), vec!["abc"]);
    assert_eq!(cursor(&tab), (0, 1));
    assert_eq!(tab.dirty, 0);
}

#[test]
fn insert_then_forward_delete_restores_content_and_render() {
    for (cy, cx) in [(0, 0), (0, 1), (0, 2), (0, 3), (1, 0), (1, 2), (2, 0)] {
        for c in ['x', '\t', ' '] {
            let mut tab = doc(&["a\tb", "cd", ""]);
            at(&mut tab, cy, cx);
            tab.insert_char(c);
            tab.move_cursor(EditorKey::ArrowLeft);
            assert_eq!(cursor(&tab), (cy, cx));
            tab.process_buffer_keypress(EditorKey::Delete);
            assert_eq!(content(&tab), vec!["a\tb", "cd", ""]);
            assert_eq!(renders(&tab), vec!["a   b", "cd", ""]);
            assert_eq!(cursor(&tab), (cy, cx));
        }
    }
}

#[test]
fn newline_then_backspace_restores_the_line() {
    for k in 0..=4 {
        let mut tab = doc(&["a\tbc", "def"]);
        at(&mut tab, 0, k);
        tab.insert_newline();
        assert_eq!(tab.rows.len(), 3);
        assert_eq!(cursor(&tab), (1, 0));
        tab.process_buffer_keypress(EditorKey::Backspace);
        assert_eq!(content(&tab), vec!["a\tbc", "def"]);
        assert_eq!(renders(&tab), vec!["a   bc", "def"]);
        assert_eq!(cursor(&tab), (0, k));
    }
}

#[test]
fn scroll_brings_the_cursor_line_into_the_window() {
    let mut tab = numbered(100);
    at(&mut tab, 50, 0);
    tab.scroll();
    assert_eq!(tab.row_offset, 31);
    at(&mut tab, 45, 0);
    tab.scroll();
    assert_eq!(tab.row_offset, 31);
    at(&mut tab, 10, 0);
    tab.scroll();
    assert_eq!(tab.row_offset, 10);
    at(&mut tab, 100, 0);
    tab.scroll();
    assert_eq!(tab.row_offset, 81);
}

#[test]
fn scroll_brings_the_cursor_column_into_the_window() {
    let long: String = "x".repeat(200);
    let mut tab = doc(&[long.as_str()]);
    at(&mut tab, 0, 100);
    tab.scroll();
    assert_eq!(tab.rx, 100);
    assert_eq!(tab.col_offset, 21);
    at(&mut tab, 0, 5);
    tab.scroll();
    assert_eq!(tab.col_offset, 5);
    at(&mut tab, 0, 84);
    tab.scroll();
    assert_eq!(tab.col_offset, 5);
    at(&mut tab, 0, 85);
    tab.scroll();
    assert_eq!(tab.col_offset, 6);
}

#[test]
fn scroll_derives_the_render_column() {
    let mut tab = doc(&["\tabc"]);
    at(&mut tab, 0, 1);
    tab.scroll();
    assert_eq!(tab.rx, 4);
    at(&mut tab, 0, 4);
    tab.scroll();
    assert_eq!(tab.rx, 7);
    tab.rx = 9;
    at(&mut tab, 1, 0);
    tab.scroll();
    assert_eq!(tab.rx, 0);
}

#[test]
fn after_scroll_the_cursor_is_inside_the_window() {
    let mut tab = numbered(60);
    for (cy, ro) in [(0, 40), (59, 0), (60, 0), (30, 30), (30, 11), (30, 10)] {
        tab.row_offset = ro;
        at(&mut tab, cy, 0);
        tab.scroll();
        assert!(tab.row_offset <= tab.cy);
        assert!(tab.cy < tab.row_offset + tab.screenrows);
        assert!(tab.col_offset <= tab.rx);
        assert!(tab.rx < tab.col_offset + tab.screencols);
    }
}

#[test]
fn the_first_search_step_starts_at_the_top() {
    let mut tab = doc(&["zero", "one x", "two x"]);
    at(&mut tab, 2, 1);
    tab.find_cb(&cs("x"), EditorKey::Char('x'));
    assert_eq!(cursor(&tab), (1, 4));
    assert_eq!(tab.last_match, Some(1));
    assert_eq!(tab.direction, SearchDirection::Forward);
    assert_eq!(tab.row_offset, 3);
}

#[test]
fn arrow_down_and_right_search_on_from_the_last_match() {
    let mut tab = doc(&["zero", "one x", "two x"]);
    tab.find_cb(&cs("x"), EditorKey::Char('x'));
    tab.find_cb(&cs("x"), EditorKey::ArrowDown);
    assert_eq!(cursor(&tab), (2, 4));
    assert_eq!(tab.last_match, Some(2));
    tab.find_cb(&cs("x"), EditorKey::ArrowRight);
    assert_eq!(cursor(&tab), (1, 4));
    assert_eq!(tab.last_match, Some(1));
}

#[test]
fn a_forward_search_wraps_past_the_last_line() {
    let mut tab = doc(&["match here", "nothing", "nothing more"]);
    at(&mut tab, 2, 3);
    tab.find_cb(&cs("match"), EditorKey::Char('h'));
    assert_eq!(cursor(&tab), (0, 0));
    assert_eq!(tab.last_match, Some(0));
    at(&mut tab, 1, 2);
    tab.find_cb(&cs("match"), EditorKey::ArrowDown);
    assert_eq!(cursor(&tab), (0, 0));
    assert_eq!(tab.last_match, Some(0));
    assert_eq!(tab.row_offset, 3);
}

#[test]
fn arrow_up_and_left_search_backwards_and_wrap() {
    let mut tab = doc(&["a x", "b", "c x"]);
    tab.find_cb(&cs("x"), EditorKey::Char('x'));
    assert_eq!(tab.last_match, Some(0));
    tab.find_cb(&cs("x"), EditorKey::ArrowUp);
    assert_eq!(cursor(&tab), (2, 2));
    assert_eq!(tab.direction, SearchDirection::Backward);
    tab.find_cb(&cs("x"), EditorKey::ArrowLeft);
    assert_eq!(cursor(&tab), (0, 2));
    assert_eq!(tab.last_match, Some(0));
}

#[test]
fn the_direction_can_be_reversed_in_the_middle_of_a_search() {
    let mut tab = doc(&["x0", "x1", "x2", "x3"]);
    tab.find_cb(&cs("x"), EditorKey::Char('x'));
    tab.find_cb(&cs("x"), EditorKey::ArrowDown);
    tab.find_cb(&cs("x"), EditorKey::ArrowDown);
    assert_eq!(tab.last_match, Some(2));
    tab.find_cb(&cs("x"), EditorKey::ArrowUp);
    assert_eq!(tab.last_match, Some(1));
    tab.find_cb(&cs("x"), EditorKey::ArrowDown);
    assert_eq!(tab.last_match, Some(2));
}

#[test]
fn a_backward_step_without_a_last_match_runs_forward() {
    let mut tab = doc(&["a x", "b", "c x"]);
    tab.find_cb(&cs("x"), EditorKey::ArrowUp);
    assert_eq!(cursor(&tab), (0, 2));
    assert_eq!(tab.direction, SearchDirection::Forward);
}

#[test]
fn any_other_key_starts_the_search_again_from_the_top() {
    let mut tab = doc(&["x", "xy"]);
    tab.find_cb(&cs("x"), EditorKey::Char('x'));
    tab.find_cb(&cs("x"), EditorKey::ArrowDown);
    assert_eq!(tab.last_match, Some(1));
    tab.find_cb(&cs("x"), EditorKey::Backspace);
    assert_eq!(tab.last_match, Some(0));
    tab.find_cb(&cs("xy"), EditorKey::Char('y'));
    assert_eq!(tab.last_match, Some(1));
    tab.find_cb(&cs("x"), EditorKey::PageDown);
    assert_eq!(tab.last_match, Some(0));
}

#[test]
fn a_search_without_match_moves_nothing() {
    let mut tab = doc(&["abc", "def"]);
    at(&mut tab, 1, 2);
    tab.row_offset = 1;
    tab.find_cb(&cs("zzz"), EditorKey::Char('z'));
    assert_eq!(cursor(&tab), (1, 2));
    assert_eq!(tab.row_offset, 1);
    assert_eq!(tab.last_match, None);
    assert_eq!(tab.dirty, 0);
}

#[test]
fn a_failed_step_keeps_the_last_match() {
    let mut tab = doc(&["abc", "abd"]);
    tab.find_cb(&cs("ab"), EditorKey::Char('b'));
    tab.find_cb(&cs("ab"), EditorKey::ArrowDown);
    assert_eq!(tab.last_match, Some(1));
    tab.find_cb(&cs("zz"), EditorKey::ArrowUp);
    assert_eq!(tab.last_match, Some(1));
    assert_eq!(tab.direction, SearchDirection::Backward);
    assert_eq!(cursor(&tab), (1, 0));
}

#[test]
fn enter_and_escape_end_the_search_without_moving() {
    for key in [EditorKey::Char('\r'), EditorKey::Char('\u{1b}')] {
        let mut tab = doc(&["a x", "b x"]);
        tab.find_cb(&cs("x"), EditorKey::Char('x'));
        tab.find_cb(&cs("x"), EditorKey::ArrowUp);
        assert_eq!(cursor(&tab), (1, 2));
        tab.find_cb(&cs("x"), key);
        assert_eq!(cursor(&tab), (1, 2));
        assert_eq!(tab.last_match, None);
        assert_eq!(tab.direction, SearchDirection::Forward);
    }
}

#[test]
fn a_match_behind_a_tab_is_mapped_back_to_the_content() {
    let mut tab = doc(&["\tfoo"]);
    tab.find_cb(&cs("foo"), EditorKey::Char('o'));
    assert_eq!(cursor(&tab), (0, 1));
    let mut two = doc(&["ab\tc\tfoo"]);
    two.find_cb(&cs("foo"), EditorKey::Char('o'));
    assert_eq!(cursor(&two), (0, 5));
}

#[test]
fn a_match_inside_the_span_of_a_tab_puts_the_cursor_on_the_tab() {
    let mut tab = doc(&["a\tb"]);
    tab.find_cb(&cs(" b"), EditorKey::Char('b'));
    assert_eq!(cursor(&tab), (0, 1));
}

#[test]
fn the_search_looks_at_the_render_form() {
    let mut tab = doc(&["a\tb"]);
    tab.find_cb(&cs("\t"), EditorKey::Char('\t'));
    assert_eq!(tab.last_match, None);
    tab.find_cb(&cs("a   b"), EditorKey::Char('b'));
    assert_eq!(tab.last_match, Some(0));
}

#[test]
fn the_search_is_case_sensitive() {
    let mut tab = doc(&["Hello", "hello"]);
    tab.find_cb(&cs("hello"), EditorKey::Char('o'));
    assert_eq!(cursor(&tab), (1, 0));
}

#[test]
fn the_empty_query_matches_the_first_line_looked_at() {
    let mut tab = doc(&["abc", "def"]);
    at(&mut tab, 1, 2);
    tab.find_cb(&cs(""), EditorKey::Backspace);
    assert_eq!(cursor(&tab), (0, 0));
    assert_eq!(tab.last_match, Some(0));
}

#[test]
fn a_search_in_an_empty_buffer_finds_nothing() {
    let mut tab = Tab::new(20, 80);
    tab.find_cb(&cs(""), EditorKey::Char('a'));
    tab.find_cb(&cs("a"), EditorKey::ArrowDown);
    assert_eq!(cursor(&tab), (0, 0));
    assert_eq!(tab.last_match, None);
    assert_eq!(tab.row_offset, 0);
}

#[test]
fn the_written_text_loads_back_as_the_same_lines() {
    for lines in [vec![], vec![""], vec!["a"], vec!["a\tb", "", "c d", ""], vec!["\r x", "y"]] {
        let tab = doc(&lines);
        let mut again = Tab::new(20, 80);
        again.load_file(None, &tab.contents());
        assert_eq!(content(&again), lines);
        assert_eq!(renders(&again), renders(&tab));
        assert_eq!(again.contents(), tab.contents());
    }
}

#[test]
fn keys_that_change_the_text_are_counted() {
    let keys = [
        EditorKey::Char('a'),
        EditorKey::Char('\r'),
        EditorKey::Backspace,
        EditorKey::Delete,
        EditorKey::Char(CTRL_H),
        EditorKey::ArrowLeft,
        EditorKey::PageDown,
        EditorKey::Home,
        EditorKey::Char(CTRL_L),
    ];
    for (cy, cx) in [(0, 0), (0, 2), (1, 0), (1, 1), (2, 0)] {
        for key in keys {
            let mut tab = doc(&["ab", "c"]);
            at(&mut tab, cy, cx);
            tab.process_buffer_keypress(key);
            assert_eq!(content(&tab) != vec!["ab", "c"], tab.dirty > 0);
        }
    }
}

#[test]
fn keys_that_only_move_need_no_room_in_the_counter() {
    let mut tab = doc(&["ab", "cd"]);
    tab.dirty = usize::MAX;
    for key in [
        EditorKey::ArrowDown,
        EditorKey::ArrowRight,
        EditorKey::End,
        EditorKey::PageUp,
        EditorKey::PageDown,
        EditorKey::Home,
        EditorKey::ArrowUp,
        EditorKey::ArrowLeft,
        EditorKey::Char('\u{1b}'),
        EditorKey::Char(CTRL_L),
    ] {
        tab.process_buffer_keypress(key);
        assert_eq!(tab.dirty, usize::MAX);
        assert_eq!(content(&tab), vec!["ab", "cd"]);
    }
}

#[test]
fn typing_and_deleting_backward_restores_content_and_render() {
    for (cy, cx) in [(0, 0), (0, 1), (0, 3), (1, 0), (1, 2), (2, 0)] {
        for c in ['x', '\t'] {
            let mut tab = doc(&["a\tb", "cd", ""]);
            at(&mut tab, cy, cx);
            tab.insert_char(c);
            tab.del_char();
            assert_eq!(content(&tab), vec!["a\tb", "cd", ""]);
            assert_eq!(renders(&tab), vec!["a   b", "cd", ""]);
            assert_eq!(cursor(&tab), (cy, cx));
        }
    }
}
