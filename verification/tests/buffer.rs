use hecto::editor::SearchDirection;
use hecto::file::{File, FileType, HighlightOptions};
use hecto::highlight::Highlight;
use hecto::screen::Position;

fn buffer(lines: &[&str]) -> File {
    File::open("notes.txt", lines.iter().map(|l| l.to_string()).collect())
}

fn texts(file: &File) -> Vec<String> {
    (0..file.len()).map(|i| file.row(i).unwrap().as_str().to_string()).collect()
}

fn at(x: usize, y: usize) -> Position {
    Position { x, y }
}

#[test]
fn open_makes_one_row_for_each_line() {
    let file = buffer(&["one", "", "three"]);
    assert_eq!(file.len(), 3);
    assert_eq!(file.num_rows(), 3);
    assert!(!file.is_empty());
    assert_eq!(texts(&file), vec!["one", "", "three"]);
    assert_eq!(file.filename, Some("notes.txt".to_string()));
    assert!(!file.dirty);
    assert_eq!(file.file_type(), Some(FileType::Text));
    assert!(file.row(3).is_none());
}

#[test]
fn default_buffer_is_empty_and_unnamed() {
    let file = File::default();
    assert!(file.is_empty());
    assert_eq!(file.len(), 0);
    assert_eq!(file.filename, None);
    assert!(!file.dirty);
    assert_eq!(file.file_type(), None);
}

#[test]
fn insert_into_a_row() {
    let mut file = buffer(&["ac"]);
    file.insert(&at(1, 0), 'b');
    assert_eq!(texts(&file), vec!["abc"]);
    assert!(file.dirty);
}

#[test]
fn insert_at_the_end_of_the_buffer_starts_a_row() {
    let mut file = File::default();
    file.insert(&at(0, 0), 'x');
    assert_eq!(texts(&file), vec!["x"]);
    assert!(file.dirty);
    file.insert(&at(5, 1), 'y');
    assert_eq!(texts(&file), vec!["x", "y"]);
}

#[test]
fn insert_beyond_the_end_of_the_buffer_does_nothing() {
    let mut file = buffer(&["a"]);
    file.insert(&at(0, 2), 'x');
    assert_eq!(texts(&file), vec!["a"]);
    assert!(!file.dirty);
}

#[test]
fn newline_splits_the_row() {
    let mut file = buffer(&["hello world", "next"]);
    file.insert(&at(5, 0), '\n');
    assert_eq!(texts(&file), vec!["hello", " world", "next"]);
    assert!(file.dirty);
    file.insert(&at(0, 3), '\n');
    assert_eq!(texts(&file), vec!["hello", " world", "next", "", ""]);
    file.insert(&at(9, 0), '\n');
    assert_eq!(texts(&file), vec!["hello", "", " world", "next", "", ""]);
}

#[test]
fn insert_takes_the_mark_from_the_rows_from_the_one_before() {
    let mut file = buffer(&["a", "b", "c", "d"]);
    for i in 0..4 {
        file.mut_row(i).unwrap().set_highlighted(true);
    }
    file.insert(&at(0, 2), 'x');
    let marks: Vec<bool> = (0..4).map(|i| file.row(i).unwrap().is_highlighted()).collect();
    assert_eq!(marks, vec![true, false, false, false]);
    file.unhighlight_rows(0);
    assert!(!file.row(0).unwrap().is_highlighted());
}

#[test]
fn delete_in_a_row() {
    let mut file = buffer(&["abc", "d"]);
    file.delete(&at(1, 0));
    assert_eq!(texts(&file), vec!["ac", "d"]);
    assert!(file.dirty);
}

#[test]
fn delete_at_the_end_of_a_row_joins_the_next() {
    let mut file = buffer(&["ab", "cd", "ef"]);
    file.delete(&at(2, 0));
    assert_eq!(texts(&file), vec!["abcd", "ef"]);
    assert_eq!(file.len(), 2);
    assert_eq!(file.row(0).unwrap().len(), 4);
    assert!(file.dirty);
}

#[test]
fn delete_at_the_end_of_the_last_row_changes_no_text() {
    let mut file = buffer(&["ab"]);
    file.delete(&at(2, 0));
    assert_eq!(texts(&file), vec!["ab"]);
    assert!(file.dirty);
}

#[test]
fn delete_beyond_the_rows_does_nothing() {
    let mut file = buffer(&["ab"]);
    file.delete(&at(0, 1));
    file.delete(&at(0, 7));
    assert_eq!(texts(&file), vec!["ab"]);
    assert!(!file.dirty);
    let mut empty = File::default();
    empty.delete(&at(0, 0));
    assert!(empty.is_empty());
    assert!(!empty.dirty);
}

#[test]
fn forward_search_goes_down_the_rows() {
    let file = buffer(&["one two", "two three", "none", "two"]);
    assert_eq!(file.find("two", &at(0, 0), SearchDirection::Forward), Some(at(4, 0)));
    assert_eq!(file.find("two", &at(5, 0), SearchDirection::Forward), Some(at(0, 1)));
    assert_eq!(file.find("two", &at(1, 1), SearchDirection::Forward), Some(at(0, 3)));
    assert_eq!(file.find("two", &at(1, 3), SearchDirection::Forward), None);
    assert_eq!(file.find("one", &at(1, 0), SearchDirection::Forward), Some(at(1, 2)));
}

#[test]
fn backward_search_goes_up_the_rows() {
    let file = buffer(&["one two", "two three", "none", "two"]);
    assert_eq!(file.find("two", &at(3, 3), SearchDirection::Backward), Some(at(0, 3)));
    assert_eq!(file.find("two", &at(0, 3), SearchDirection::Backward), Some(at(0, 1)));
    assert_eq!(file.find("two", &at(0, 1), SearchDirection::Backward), Some(at(4, 0)));
    assert_eq!(file.find("two", &at(4, 0), SearchDirection::Backward), None);
    assert_eq!(file.find("three", &at(2, 3), SearchDirection::Backward), Some(at(4, 1)));
}

#[test]
fn search_does_not_go_round_the_ends() {
    let file = buffer(&["needle", "hay"]);
    assert_eq!(file.find("needle", &at(1, 0), SearchDirection::Forward), None);
    assert_eq!(file.find("hay", &at(0, 0), SearchDirection::Backward), None);
}

#[test]
fn search_from_a_row_that_is_not_there_finds_nothing() {
    let file = buffer(&["a"]);
    assert_eq!(file.find("a", &at(0, 1), SearchDirection::Forward), None);
    assert_eq!(file.find("a", &at(0, 1), SearchDirection::Backward), None);
    assert_eq!(File::default().find("a", &at(0, 0), SearchDirection::Forward), None);
    assert_eq!(file.find("", &at(0, 0), SearchDirection::Forward), None);
}

#[test]
fn highlight_threads_the_comment_state_through_the_rows() {
    let mut file = File::open("x.c", vec!["a /* b".to_string(), "c */ 1".to_string(), "2".to_string()]);
    file.mut_row(0).unwrap();
    let mut opts = HighlightOptions::from("x.c");
    opts.multiline_comments = true;
    let mut probe = hecto::row::Row::from("a /* b");
    assert!(probe.highlight(&opts, &None, false));
    file.highlight(&None, None);
    let first = file.row(0).unwrap().highlighting().clone();
    assert_eq!(first.len(), 6);
    let third = file.row(2).unwrap().highlighting().clone();
    assert_eq!(third, vec![Highlight::Plain]);
}

#[test]
fn highlight_stops_after_the_limit_row() {
    let mut file = buffer(&["a", "b", "c", "d"]);
    file.highlight(&Some("b".to_string()), Some(1));
    let lens: Vec<usize> = (0..4).map(|i| file.row(i).unwrap().highlighting().len()).collect();
    assert_eq!(lens, vec![1, 1, 0, 0]);
    assert_eq!(file.row(1).unwrap().highlighting()[0], Highlight::Match);
    file.highlight(&None, Some(usize::MAX));
    assert_eq!(file.row(3).unwrap().highlighting().len(), 1);
    assert_eq!(file.row(1).unwrap().highlighting()[0], Highlight::Plain);
}

#[test]
fn save_hands_out_the_lines_and_clears_the_dirty_flag() {
    let mut file = buffer(&["ab", "c"]);
    file.insert(&at(2, 1), 'd');
    assert!(file.dirty);
    file.filename = Some("prog.rs".to_string());
    let lines = file.save();
    assert_eq!(lines, Some(vec!["ab".to_string(), "cd".to_string()]));
    assert!(!file.dirty);
    assert_eq!(file.file_type(), Some(FileType::Rust));
}

#[test]
fn save_without_a_name_does_nothing() {
    let mut file = File::default();
    file.insert(&at(0, 0), 'x');
    assert_eq!(file.save(), None);
    assert!(file.dirty);
}
