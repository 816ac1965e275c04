use hecto::editor::{Editor, Key};
use hecto::file::{File, FileType};
use hecto::frame::{cut_to, message_line, push_blanks, push_decimal, status_line, welcome_line};
use hecto::screen::{Position, ScreenSize};

const RESET: &str = "\x1b[39m";

fn decimal(n: usize) -> String {
    let mut out = String::new();
    push_decimal(&mut out, n);
    out
}

#[test]
fn numbers_in_decimal() {
    assert_eq!(decimal(0), "0");
    assert_eq!(decimal(7), "7");
    assert_eq!(decimal(10), "10");
    assert_eq!(decimal(905), "905");
    assert_eq!(decimal(usize::MAX), usize::MAX.to_string());
    let mut out = "n=".to_string();
    push_decimal(&mut out, 42);
    assert_eq!(out, "n=42");
}

#[test]
fn blanks_and_cuts() {
    let mut out = "a".to_string();
    push_blanks(&mut out, 3);
    assert_eq!(out, "a   ");
    push_blanks(&mut out, 0);
    assert_eq!(out, "a   ");
    assert_eq!(cut_to("héllo".to_string(), 2), "hé");
    assert_eq!(cut_to("héllo".to_string(), 5), "héllo");
    assert_eq!(cut_to("héllo".to_string(), 9), "héllo");
    assert_eq!(cut_to("héllo".to_string(), 0), "");
}

#[test]
fn welcome_line_is_moved_towards_the_middle() {
    let title = "Hecto editor -- version 0.1.0\r";
    assert_eq!(welcome_line(40), format!("~    {}", title));
    assert_eq!(welcome_line(34), format!("~ {}", title));
    assert_eq!(welcome_line(33), format!("~{}", title));
    assert_eq!(welcome_line(31), format!("~{}", title));
    assert_eq!(welcome_line(30), "~Hecto editor -- version 0.1.0");
    assert_eq!(welcome_line(5), "~Hect");
    assert_eq!(welcome_line(0), "");
}

#[test]
fn status_line_has_both_parts() {
    let line = status_line(Some("a.rs"), 12, true, Some(FileType::Rust), 3, 50);
    assert_eq!(line, "a.rs - 12 lines (modified)           Rust | 3/12 ");
    assert_eq!(line.chars().count(), 49);
    let unnamed = status_line(None, 0, false, None, 0, 40);
    assert_eq!(unnamed, "[No name] - 0 lines        no ft | 0/0 ");
    assert_eq!(unnamed.chars().count(), 39);
}

#[test]
fn status_line_in_a_narrow_window_is_cut() {
    assert_eq!(status_line(Some("a.c"), 5, false, Some(FileType::C), 1, 8), "a.c - 5 ");
    assert_eq!(status_line(Some("a.c"), 5, false, Some(FileType::C), 1, 22), "a.c - 5 lines C | 1/5 ");
    assert_eq!(status_line(Some("a.c"), 5, false, Some(FileType::C), 1, 24), "a.c - 5 lines  C | 1/5 ");
}

#[test]
fn message_line_is_cut_and_goes_away() {
    assert_eq!(message_line("HELP: Ctrl-S = save", 10, true), "HELP: Ctrl");
    assert_eq!(message_line("HELP", 10, true), "HELP");
    assert_eq!(message_line("HELP", 10, false), "");
}

#[test]
fn a_frame_of_an_empty_buffer_shows_the_welcome_line() {
    let e = Editor::new(File::default(), ScreenSize { width: 40, height: 6 });
    let lines = e.draw_rows();
    assert_eq!(lines.len(), 6);
    for (i, line) in lines.iter().enumerate() {
        if i == 2 {
            assert_eq!(*line, e.draw_welcome_message());
        } else {
            assert_eq!(line, "~");
        }
    }
}

#[test]
fn a_frame_shows_the_rows_of_the_window() {
    let file = File::open("a.txt", vec!["first".to_string(), "second".to_string(), "third".to_string()]);
    let mut e = Editor::new(file, ScreenSize { width: 3, height: 4 });
    e.offset = Position { x: 1, y: 1 };
    let lines = e.draw_rows();
    assert_eq!(lines, vec![format!("eco{}", RESET), format!("hir{}", RESET), "~".to_string(), "~".to_string()]);
    assert_eq!(e.draw_row(0), format!("irs{}", RESET));
    e.offset = Position { x: 0, y: usize::MAX };
    assert_eq!(e.draw_rows(), vec!["~"; 4]);
}

#[test]
fn bars_of_the_editor() {
    let file = File::open("a.c", vec!["x".to_string()]);
    let mut e = Editor::new(file, ScreenSize { width: 30, height: 4 });
    e.process_keypress(Key::Char('y'));
    e.process_keypress(Key::Down);
    assert_eq!(e.draw_status_bar(), "a.c - 1 lines (modified)C | 1/");
    e.size = ScreenSize { width: 40, height: 4 };
    assert_eq!(e.draw_status_bar(), "a.c - 1 lines (modified)       C | 1/1 ");
    assert_eq!(e.draw_message_bar("saved", true), "saved");
    assert_eq!(e.draw_message_bar("saved", false), "");
}
