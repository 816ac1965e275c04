use hecto::editor::{prompt_key, Action, Editor, Key, PromptStep, QUIT_TIMES};
use hecto::file::File;
use hecto::screen::{terminal_cell, Position, ScreenSize};

fn editor(lines: &[&str]) -> Editor {
    let file = File::open("notes.txt", lines.iter().map(|l| l.to_string()).collect());
    Editor::new(file, ScreenSize { width: 10, height: 3 })
}

fn lines(editor: &Editor) -> Vec<String> {
    (0..editor.file.len()).map(|i| editor.file.row(i).unwrap().as_str().to_string()).collect()
}

fn at(x: usize, y: usize) -> Position {
    Position { x, y }
}

fn press(editor: &mut Editor, keys: &[Key]) {
    for key in keys {
        editor.move_cursor(*key);
    }
}

#[test]
fn a_new_editor_starts_at_the_origin() {
    let e = editor(&["a"]);
    assert_eq!(e.cursor, at(0, 0));
    assert_eq!(e.offset, at(0, 0));
    assert_eq!(e.quit_times, 0);
    assert!(!e.should_quit);
    assert_eq!(e.highlighted_word, None);
    assert_eq!(e.size, ScreenSize { width: 10, height: 3 });
}

#[test]
fn right_goes_on_to_the_next_row() {
    let mut e = editor(&["ab", "c"]);
    press(&mut e, &[Key::Right]);
    assert_eq!(e.cursor, at(1, 0));
    press(&mut e, &[Key::Right]);
    assert_eq!(e.cursor, at(2, 0));
    press(&mut e, &[Key::Right]);
    assert_eq!(e.cursor, at(0, 1));
    press(&mut e, &[Key::Right, Key::Right]);
    assert_eq!(e.cursor, at(0, 2));
    press(&mut e, &[Key::Right]);
    assert_eq!(e.cursor, at(0, 2));
}

#[test]
fn left_goes_back_to_the_end_of_the_row_before() {
    let mut e = editor(&["ab", "c"]);
    e.cursor = at(0, 1);
    press(&mut e, &[Key::Left]);
    assert_eq!(e.cursor, at(2, 0));
    press(&mut e, &[Key::Left, Key::Left, Key::Left]);
    assert_eq!(e.cursor, at(0, 0));
    e.cursor = at(0, 2);
    press(&mut e, &[Key::Left]);
    assert_eq!(e.cursor, at(1, 1));
}

#[test]
fn up_and_down_keep_the_column_where_the_row_reaches() {
    let mut e = editor(&["abcd", "x", "abcdef"]);
    e.cursor = at(4, 0);
    press(&mut e, &[Key::Down]);
    assert_eq!(e.cursor, at(1, 1));
    press(&mut e, &[Key::Down]);
    assert_eq!(e.cursor, at(1, 2));
    press(&mut e, &[Key::End, Key::Up]);
    assert_eq!(e.cursor, at(1, 1));
    press(&mut e, &[Key::Up, Key::Up]);
    assert_eq!(e.cursor, at(1, 0));
    e.cursor = at(5, 2);
    press(&mut e, &[Key::Down]);
    assert_eq!(e.cursor, at(5, 3));
    press(&mut e, &[Key::Down]);
    assert_eq!(e.cursor, at(5, 3));
}

#[test]
fn home_and_end() {
    let mut e = editor(&["abc"]);
    press(&mut e, &[Key::End]);
    assert_eq!(e.cursor, at(3, 0));
    press(&mut e, &[Key::Home]);
    assert_eq!(e.cursor, at(0, 0));
    e.cursor = at(2, 1);
    press(&mut e, &[Key::End]);
    assert_eq!(e.cursor, at(0, 1));
}

#[test]
fn page_keys_move_by_the_height_of_the_window() {
    let mut e = editor(&["0", "1", "2", "3", "4", "5", "6", "7"]);
    press(&mut e, &[Key::PageDown]);
    assert_eq!(e.cursor, at(0, 3));
    press(&mut e, &[Key::PageDown]);
    assert_eq!(e.cursor, at(0, 6));
    press(&mut e, &[Key::PageDown]);
    assert_eq!(e.cursor, at(0, 8));
    press(&mut e, &[Key::PageUp]);
    assert_eq!(e.cursor, at(0, 5));
    press(&mut e, &[Key::PageUp]);
    assert_eq!(e.cursor, at(0, 2));
    press(&mut e, &[Key::PageUp]);
    assert_eq!(e.cursor, at(0, 0));
    e.cursor = at(0, 3);
    press(&mut e, &[Key::PageUp]);
    assert_eq!(e.cursor, at(0, 0));
}

#[test]
fn other_keys_do_not_move_the_caret() {
    let mut e = editor(&["abc"]);
    e.cursor = at(1, 0);
    press(&mut e, &[Key::Esc, Key::Other, Key::Char('x'), Key::Ctrl('q'), Key::Delete, Key::Backspace]);
    assert_eq!(e.cursor, at(1, 0));
    assert_eq!(lines(&e), vec!["abc"]);
}

#[test]
fn the_window_follows_the_caret() {
    let mut e = editor(&["a"]);
    e.cursor = at(25, 7);
    e.scroll();
    assert_eq!(e.offset, at(16, 5));
    e.cursor = at(20, 6);
    e.scroll();
    assert_eq!(e.offset, at(16, 5));
    e.cursor = at(3, 2);
    e.scroll();
    assert_eq!(e.offset, at(3, 2));
    e.cursor = at(12, 4);
    e.scroll();
    assert_eq!(e.offset, at(3, 2));
    e.cursor = at(13, 5);
    e.scroll();
    assert_eq!(e.offset, at(4, 3));
}

#[test]
fn a_window_without_cells_starts_behind_the_caret() {
    let mut e = editor(&["a"]);
    e.size = ScreenSize { width: 0, height: 0 };
    e.cursor = at(4, 2);
    e.scroll();
    assert_eq!(e.offset, at(5, 3));
    e.cursor = at(usize::MAX, usize::MAX);
    e.scroll();
    assert_eq!(e.offset, at(usize::MAX, usize::MAX));
}

#[test]
fn typing_puts_the_character_in_and_steps_right() {
    let mut e = editor(&["ac"]);
    e.cursor = at(1, 0);
    assert_eq!(e.process_keypress(Key::Char('b')), Action::Continue);
    assert_eq!(lines(&e), vec!["abc"]);
    assert_eq!(e.cursor, at(2, 0));
    assert!(e.file.dirty);
    assert_eq!(e.quit_times, QUIT_TIMES);
}

#[test]
fn typing_behind_the_last_row_starts_a_row() {
    let mut e = editor(&[]);
    e.process_keypress(Key::Char('h'));
    e.process_keypress(Key::Char('i'));
    assert_eq!(lines(&e), vec!["hi"]);
    assert_eq!(e.cursor, at(2, 0));
}

#[test]
fn enter_breaks_the_line_and_steps_over_the_indentation() {
    let mut e = editor(&["ab   cd"]);
    e.cursor = at(2, 0);
    e.process_keypress(Key::Char('\n'));
    assert_eq!(lines(&e), vec!["ab", "   cd"]);
    assert_eq!(e.cursor, at(3, 1));
    e.cursor = at(0, 0);
    e.process_keypress(Key::Char('\n'));
    assert_eq!(lines(&e), vec!["", "ab", "   cd"]);
    assert_eq!(e.cursor, at(0, 1));
}

#[test]
fn backspace_deletes_before_the_caret() {
    let mut e = editor(&["ab", "cd"]);
    e.cursor = at(1, 1);
    e.process_keypress(Key::Backspace);
    assert_eq!(lines(&e), vec!["ab", "d"]);
    assert_eq!(e.cursor, at(0, 1));
    e.process_keypress(Key::Backspace);
    assert_eq!(lines(&e), vec!["abd"]);
    assert_eq!(e.cursor, at(2, 0));
}

#[test]
fn backspace_at_the_start_of_the_buffer_does_nothing() {
    let mut e = editor(&["ab", "cd"]);
    assert_eq!(e.process_keypress(Key::Backspace), Action::Continue);
    assert_eq!(lines(&e), vec!["ab", "cd"]);
    assert_eq!(e.cursor, at(0, 0));
    assert!(!e.file.dirty);
}

#[test]
fn delete_deletes_at_the_caret() {
    let mut e = editor(&["ab", "cd"]);
    e.cursor = at(1, 0);
    e.process_keypress(Key::Delete);
    assert_eq!(lines(&e), vec!["a", "cd"]);
    assert_eq!(e.cursor, at(1, 0));
    e.process_keypress(Key::Delete);
    assert_eq!(lines(&e), vec!["acd"]);
    e.cursor = at(0, 1);
    e.file.dirty = false;
    e.process_keypress(Key::Delete);
    assert_eq!(lines(&e), vec!["acd"]);
    assert!(!e.file.dirty);
}

#[test]
fn keys_of_movement_move_and_scroll() {
    let mut e = editor(&["0", "1", "2", "3", "4"]);
    for _ in 0..4 {
        assert_eq!(e.process_keypress(Key::Down), Action::Continue);
    }
    assert_eq!(e.cursor, at(0, 4));
    assert_eq!(e.offset, at(0, 2));
    assert!(!e.file.dirty);
}

#[test]
fn quit_leaves_an_unchanged_buffer_at_once() {
    let mut e = editor(&["a"]);
    e.process_keypress(Key::Right);
    assert_eq!(e.process_keypress(Key::Ctrl('q')), Action::Continue);
    assert!(e.should_quit);
}

#[test]
fn quit_warns_three_times_about_changes() {
    let mut e = editor(&["a"]);
    e.process_keypress(Key::Char('x'));
    assert_eq!(e.process_keypress(Key::Ctrl('q')), Action::Warn(3));
    assert_eq!(e.process_keypress(Key::Ctrl('q')), Action::Warn(2));
    assert_eq!(e.process_keypress(Key::Ctrl('q')), Action::Warn(1));
    assert!(!e.should_quit);
    assert_eq!(e.quit_times, 0);
    assert_eq!(e.process_keypress(Key::Ctrl('q')), Action::Continue);
    assert!(e.should_quit);
}

#[test]
fn another_key_fills_the_quit_count_up_again() {
    let mut e = editor(&["a"]);
    e.process_keypress(Key::Char('x'));
    assert_eq!(e.process_keypress(Key::Ctrl('q')), Action::Warn(3));
    e.process_keypress(Key::Left);
    assert_eq!(e.process_keypress(Key::Ctrl('q')), Action::Warn(3));
}

#[test]
fn save_and_search_are_handed_to_the_caller() {
    let mut e = editor(&["a"]);
    assert_eq!(e.process_keypress(Key::Ctrl('s')), Action::Save);
    assert_eq!(e.process_keypress(Key::Ctrl('f')), Action::Search);
    assert_eq!(e.process_keypress(Key::Ctrl('h')), Action::Continue);
    assert_eq!(e.process_keypress(Key::Esc), Action::Continue);
    assert_eq!(lines(&e), vec!["a"]);
    assert!(!e.should_quit);
}

#[test]
fn search_goes_to_the_match_and_marks_the_word() {
    let mut e = editor(&["one", "two", "three two", "four", "two"]);
    e.search_key(Key::Char('o'), "two");
    assert_eq!(e.cursor, at(0, 1));
    assert_eq!(e.highlighted_word, Some("two".to_string()));
    e.search_key(Key::Right, "two");
    assert_eq!(e.cursor, at(6, 2));
    e.search_key(Key::Down, "two");
    assert_eq!(e.cursor, at(0, 4));
    assert_eq!(e.offset, at(0, 2));
    e.search_key(Key::Right, "two");
    assert_eq!(e.cursor, at(0, 4));
    e.search_key(Key::Left, "two");
    assert_eq!(e.cursor, at(6, 2));
    e.search_key(Key::Up, "two");
    assert_eq!(e.cursor, at(0, 1));
    e.search_key(Key::Up, "two");
    assert_eq!(e.cursor, at(0, 1));
}

#[test]
fn search_end_restores_the_place_of_a_search_given_up() {
    let mut e = editor(&["one", "two", "three", "four", "five"]);
    let (cursor, offset) = (e.cursor, e.offset);
    e.search_key(Key::Char('e'), "five");
    assert_eq!(e.cursor, at(0, 4));
    assert_eq!(e.offset, at(0, 2));
    e.search_end(cursor, offset, false);
    assert_eq!(e.cursor, at(0, 0));
    assert_eq!(e.offset, at(0, 0));
    assert_eq!(e.highlighted_word, None);
    e.search_key(Key::Char('e'), "five");
    e.search_end(cursor, offset, true);
    assert_eq!(e.cursor, at(0, 4));
    assert_eq!(e.highlighted_word, None);
}

#[test]
fn prompt_keys() {
    let mut text = String::new();
    assert_eq!(prompt_key(&mut text, Key::Char('a')), PromptStep::Continue);
    assert_eq!(prompt_key(&mut text, Key::Char('é')), PromptStep::Continue);
    assert_eq!(prompt_key(&mut text, Key::Char('\t')), PromptStep::Continue);
    assert_eq!(prompt_key(&mut text, Key::Left), PromptStep::Continue);
    assert_eq!(text, "aé");
    assert_eq!(prompt_key(&mut text, Key::Char('\n')), PromptStep::Accept);
    assert_eq!(text, "aé");
    assert_eq!(prompt_key(&mut text, Key::Backspace), PromptStep::Continue);
    assert_eq!(text, "a");
    assert_eq!(prompt_key(&mut text, Key::Backspace), PromptStep::Continue);
    assert_eq!(prompt_key(&mut text, Key::Backspace), PromptStep::Continue);
    assert_eq!(text, "");
    prompt_key(&mut text, Key::Char('x'));
    assert_eq!(prompt_key(&mut text, Key::Esc), PromptStep::Cancel);
    assert_eq!(text, "");
}

#[test]
fn save_takes_a_name_for_a_buffer_without_one() {
    let mut e = Editor::new(File::default(), ScreenSize { width: 10, height: 3 });
    e.process_keypress(Key::Char('x'));
    assert_eq!(e.save(None), None);
    assert!(e.file.dirty);
    assert_eq!(e.file.filename, None);
    assert_eq!(e.save(Some("a.rs".to_string())), Some(vec!["x".to_string()]));
    assert_eq!(e.file.filename, Some("a.rs".to_string()));
    assert!(!e.file.dirty);
    e.process_keypress(Key::Char('y'));
    assert_eq!(e.save(Some("other.c".to_string())), Some(vec!["xy".to_string()]));
    assert_eq!(e.file.filename, Some("a.rs".to_string()));
}

#[test]
fn refresh_highlights_the_window_and_places_the_caret() {
    let mut e = editor(&["a1", "b", "c", "d", "e", "f"]);
    e.highlighted_word = Some("b".to_string());
    e.cursor = at(1, 1);
    assert_eq!(e.refresh_screen(), Some(at(1, 1)));
    let done: Vec<usize> = (0..6).map(|i| e.file.row(i).unwrap().highlighting().len()).collect();
    assert_eq!(done, vec![2, 1, 1, 1, 0, 0]);
    e.offset = at(0, 1);
    e.cursor = at(0, 0);
    assert_eq!(e.refresh_screen(), Some(at(0, 0)));
    e.should_quit = true;
    assert_eq!(e.refresh_screen(), None);
}

#[test]
fn cells_of_the_terminal_count_from_one() {
    assert_eq!(terminal_cell(&at(0, 0)), (1, 1));
    assert_eq!(terminal_cell(&at(79, 23)), (80, 24));
    assert_eq!(terminal_cell(&at(65535, 65536)), (0, 1));
    assert_eq!(terminal_cell(&at(usize::MAX, 0)), (65535, 1));
}

#[test]
fn the_text_area_leaves_two_rows_to_the_bars() {
    assert_eq!(ScreenSize::for_terminal(80, 24), ScreenSize { width: 80, height: 22 });
    assert_eq!(ScreenSize::for_terminal(80, 2), ScreenSize { width: 80, height: 0 });
    assert_eq!(ScreenSize::for_terminal(80, 1), ScreenSize { width: 80, height: 0 });
    assert_eq!(Position::default(), at(0, 0));
}
