use hecto::file::{FileType, HighlightOptions};

#[test]
fn file_type_comes_from_the_extension() {
    assert_eq!(HighlightOptions::set_filetype("main.rs"), Some(FileType::Rust));
    assert_eq!(HighlightOptions::set_filetype("src/lib.rs"), Some(FileType::Rust));
    assert_eq!(HighlightOptions::set_filetype("a.c"), Some(FileType::C));
    assert_eq!(HighlightOptions::set_filetype("notes.txt"), Some(FileType::Text));
    assert_eq!(HighlightOptions::set_filetype("archive.tar.txt"), Some(FileType::Text));
}

#[test]
fn other_names_have_no_file_type() {
    for name in ["", "rs", "Makefile", "a.py", "a.", ".rs", "dir.rs/file", "a.RS", "a.rss", "b.txt.bak"] {
        assert_eq!(HighlightOptions::set_filetype(name), None);
    }
}

#[test]
fn file_type_names() {
    assert_eq!(FileType::C.to_enum_str(), "C");
    assert_eq!(FileType::Rust.to_enum_str(), "Rust");
    assert_eq!(FileType::Text.to_enum_str(), "Text");
    assert_eq!(FileType::default(), FileType::Text);
}

#[test]
fn options_for_a_file_look_for_numbers_and_strings() {
    let opts = HighlightOptions::from("main.rs");
    assert_eq!(opts.file_type, Some(FileType::Rust));
    assert!(opts.numbers);
    assert!(opts.strings);
    assert!(!opts.characters);
    assert!(!opts.comments);
    assert!(!opts.multiline_comments);
    assert!(opts.primary_keywords().contains(&"fn".to_string()));
    assert!(opts.secondary_keywords().contains(&"usize".to_string()));
}

#[test]
fn keywords_follow_the_file_type() {
    let c = HighlightOptions::from("a.c");
    assert!(c.primary_keywords().contains(&"switch".to_string()));
    assert!(c.secondary_keywords().contains(&"int".to_string()));
    assert!(!c.primary_keywords().contains(&"fn".to_string()));
    let text = HighlightOptions::from("a.txt");
    assert!(text.primary_keywords().is_empty());
    assert!(text.secondary_keywords().is_empty());
    let none = HighlightOptions::from("a");
    assert_eq!(none.file_type, None);
    assert!(none.primary_keywords().is_empty());
}

#[test]
fn default_options_switch_everything_off() {
    let opts = HighlightOptions::default();
    assert_eq!(opts.file_type, None);
    assert!(!opts.numbers && !opts.strings && !opts.characters);
    assert!(!opts.comments && !opts.multiline_comments);
    assert!(opts.primary_keywords().is_empty());
    assert!(opts.secondary_keywords().is_empty());
}
