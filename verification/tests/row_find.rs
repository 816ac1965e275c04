use hecto::editor::SearchDirection;
use hecto::row::Row;

#[test]
fn forward_finds_the_leftmost_match_from_the_start_column() {
    let row = Row::from("abcabcabc");
    assert_eq!(row.find("abc", 0, SearchDirection::Forward), Some(0));
    assert_eq!(row.find("abc", 1, SearchDirection::Forward), Some(3));
    assert_eq!(row.find("abc", 3, SearchDirection::Forward), Some(3));
    assert_eq!(row.find("abc", 6, SearchDirection::Forward), Some(6));
    assert_eq!(row.find("abc", 7, SearchDirection::Forward), None);
    assert_eq!(row.find("abc", 9, SearchDirection::Forward), None);
}

#[test]
fn backward_finds_the_rightmost_match_before_the_start_column() {
    let row = Row::from("abcabcabc");
    assert_eq!(row.find("abc", 9, SearchDirection::Backward), Some(6));
    assert_eq!(row.find("abc", 8, SearchDirection::Backward), Some(3));
    assert_eq!(row.find("abc", 6, SearchDirection::Backward), Some(3));
    assert_eq!(row.find("abc", 3, SearchDirection::Backward), Some(0));
    assert_eq!(row.find("abc", 2, SearchDirection::Backward), None);
    assert_eq!(row.find("abc", 0, SearchDirection::Backward), None);
}

#[test]
fn empty_query_finds_nothing() {
    let row = Row::from("abc");
    assert_eq!(row.find("", 0, SearchDirection::Forward), None);
    assert_eq!(row.find("", 3, SearchDirection::Backward), None);
}

#[test]
fn start_beyond_the_row_finds_nothing() {
    let row = Row::from("abc");
    assert_eq!(row.find("a", 4, SearchDirection::Forward), None);
    assert_eq!(row.find("a", 4, SearchDirection::Backward), None);
    assert_eq!(row.find("c", 3, SearchDirection::Backward), Some(2));
}

#[test]
fn columns_are_counted_in_clusters() {
    let row = Row::from("e\u{301}🇷🇺xyz");
    assert_eq!(row.find("xyz", 0, SearchDirection::Forward), Some(2));
    assert_eq!(row.find("z", 0, SearchDirection::Forward), Some(4));
    assert_eq!(row.find("x", 5, SearchDirection::Backward), Some(2));
    assert_eq!(row.find("🇷🇺", 0, SearchDirection::Forward), Some(1));
}

#[test]
fn a_match_inside_a_cluster_gives_the_column_of_that_cluster() {
    let row = Row::from("ae\u{301}b");
    assert_eq!(row.find("\u{301}b", 0, SearchDirection::Forward), Some(1));
    assert_eq!(row.find("\u{301}", 3, SearchDirection::Backward), Some(1));
}

#[test]
fn forward_never_finds_before_the_start_and_backward_never_at_or_after_it() {
    let row = Row::from("xx ae\u{301}xx 🇷🇺xx");
    for at in 0..=row.len() {
        if let Some(col) = row.find("xx", at, SearchDirection::Forward) {
            assert!(col >= at);
        }
        if let Some(col) = row.find("xx", at, SearchDirection::Backward) {
            assert!(col < at);
        }
    }
}

#[test]
fn search_in_an_empty_row() {
    let row = Row::default();
    assert_eq!(row.find("a", 0, SearchDirection::Forward), None);
    assert_eq!(row.find("a", 0, SearchDirection::Backward), None);
}

#[test]
fn search_agrees_with_the_string_search_of_std() {
    let alphabet = ['a', 'b', 'é'];
    let mut texts: Vec<String> = vec![];
    for len in 0..=5usize {
        for code in 0..alphabet.len().pow(len as u32) {
            let mut n = code;
            let mut s = String::new();
            for _ in 0..len {
                s.push(alphabet[n % alphabet.len()]);
                n /= alphabet.len();
            }
            texts.push(s);
        }
    }
    for text in &texts {
        let row = Row::from(text.as_str());
        let chars: Vec<char> = text.chars().collect();
        for query in texts.iter().filter(|t| (1..=2).contains(&t.chars().count())) {
            for at in 0..=chars.len() {
                let tail: String = chars[at..].iter().collect();
                let head: String = chars[..at].iter().collect();
                let forward = tail.find(query.as_str()).map(|b| at + tail[..b].chars().count());
                let backward = head.rfind(query.as_str()).map(|b| head[..b].chars().count());
                assert_eq!(row.find(query, at, SearchDirection::Forward), forward);
                assert_eq!(row.find(query, at, SearchDirection::Backward), backward);
            }
        }
    }
}
