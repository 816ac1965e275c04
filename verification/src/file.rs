//! File types, highlighting options and the buffer of rows.

use crate::editor::SearchDirection;
use crate::grapheme::{cluster_count, symbols};
use crate::row::{
    highlighted_classes, lemma_empty_text, lemma_find_bounds, row_find, text_after_delete,
    text_after_insert, text_before, text_from, word_text, Row, RowState,
};
use crate::screen::Position;
use crate::syntax::scan;
use crate::text::to_chars;
use vstd::prelude::*;
use vstd::string::StringExecFns;

verus! {

/// The language a file is written in, as far as highlighting cares.
#[derive(PartialEq, Eq, Structural, Clone, Copy, Debug)]
pub enum FileType {
    C,
    Rust,
    Text,
}

impl Default for FileType {
    fn default() -> (t: Self)
        ensures
            t == FileType::Text,
    {
        FileType::Text
    }
}

impl FileType {
    /// The name of the file type, as shown in the status bar.
    pub fn to_enum_str(&self) -> (name: &'static str)
        ensures
            name@ == file_type_name(*self),
    {
        match self {
            FileType::C => "C",
            FileType::Rust => "Rust",
            FileType::Text => "Text",
        }
    }
}

/// The displayed name of each file type.
pub open spec fn file_type_name(t: FileType) -> Seq<char> {
    match t {
        FileType::C => "C"@,
        FileType::Rust => "Rust"@,
        FileType::Text => "Text"@,
    }
}

/// Index of the last `c` in `s`, or -1 where `s` holds none.
pub open spec fn last_index_of(s: Seq<char>, c: char) -> int
    decreases s.len(),
{
    if s.len() == 0 {
        -1
    } else if s.last() == c {
        s.len() - 1
    } else {
        last_index_of(s.drop_last(), c)
    }
}

/// What follows the last `/` of `path`: its file name.
pub open spec fn file_name_of(path: Seq<char>) -> Seq<char> {
    path.skip(last_index_of(path, '/') + 1)
}

/// What follows the last `.` of the file name of `path`, where the name holds
/// a `.` that is not its first character.
pub open spec fn extension_of(path: Seq<char>) -> Option<Seq<char>> {
    let name = file_name_of(path);
    let dot = last_index_of(name, '.');
    if dot <= 0 {
        None
    } else {
        Some(name.skip(dot + 1))
    }
}

/// The file type that an extension stands for.
pub open spec fn file_type_of_extension(ext: Seq<char>) -> Option<FileType> {
    if ext == seq!['r', 's'] {
        Some(FileType::Rust)
    } else if ext == seq!['c'] {
        Some(FileType::C)
    } else if ext == seq!['t', 'x', 't'] {
        Some(FileType::Text)
    } else {
        None
    }
}

/// The file type of a file called `path`: `rs` is Rust, `c` is C, `txt` is
/// text, and anything else, or no extension, has none.
pub open spec fn file_type_of(path: Seq<char>) -> Option<FileType> {
    match extension_of(path) {
        Some(ext) => file_type_of_extension(ext),
        None => None,
    }
}

proof fn lemma_last_index_bounds(s: Seq<char>, c: char)
    ensures
        -1 <= last_index_of(s, c) < s.len(),
        last_index_of(s, c) >= 0 ==> s[last_index_of(s, c)] == c,
        forall|j: int| last_index_of(s, c) < j < s.len() ==> s[j] != c,
    decreases s.len(),
{
    if s.len() > 0 && s.last() != c {
        let front = s.drop_last();
        lemma_last_index_bounds(front, c);
        assert forall|j: int| last_index_of(s, c) < j < s.len() implies s[j] != c by {
            if j < front.len() {
                assert(front[j] == s[j]);
            }
        }
    }
}

/// The last index of `c` is fixed by being an index of `c` with no `c` after it.
proof fn lemma_last_index_unique(s: Seq<char>, c: char, at: int)
    requires
        -1 <= at < s.len(),
        at >= 0 ==> s[at] == c,
        forall|j: int| at < j < s.len() ==> s[j] != c,
    ensures
        last_index_of(s, c) == at,
{
    lemma_last_index_bounds(s, c);
}

/// Index of the last `c` in `chars[from..]`, counted from `from`.
fn find_last_char(chars: &Vec<char>, from: usize, c: char) -> (found: Option<usize>)
    requires
        from <= chars.len(),
    ensures
        match found {
            Some(at) => from + at < chars.len() && last_index_of(chars@.skip(from as int), c) == at,
            None => last_index_of(chars@.skip(from as int), c) == -1,
        },
{
    let ghost tail = chars@.skip(from as int);
    let mut at: usize = chars.len();
    while at > from
        invariant
            from <= at <= chars.len(),
            tail == chars@.skip(from as int),
            forall|j: int| at - from <= j < tail.len() ==> tail[j] != c,
        decreases at,
    {
        at -= 1;
        if chars[at] == c {
            proof {
                lemma_last_index_unique(tail, c, at - from);
            }
            return Some(at - from);
        }
    }
    proof {
        lemma_last_index_unique(tail, c, -1);
    }
    None
}

/// Which classes the highlighter looks for, and the keywords it knows.
pub struct HighlightOptions {
    pub file_type: Option<FileType>,
    pub numbers: bool,
    pub strings: bool,
    pub characters: bool,
    pub comments: bool,
    pub multiline_comments: bool,
    pub keywords1: Vec<String>,
    pub keywords2: Vec<String>,
}

/// Highlighting options as the highlighter reads them.
pub struct Syntax {
    pub numbers: bool,
    pub strings: bool,
    pub characters: bool,
    pub comments: bool,
    pub multiline_comments: bool,
    pub primary: Seq<Seq<char>>,
    pub secondary: Seq<Seq<char>>,
}

impl View for HighlightOptions {
    type V = Syntax;

    open spec fn view(&self) -> Syntax {
        Syntax {
            numbers: self.numbers,
            strings: self.strings,
            characters: self.characters,
            comments: self.comments,
            multiline_comments: self.multiline_comments,
            primary: self.keywords1@.map_values(|k: String| k@),
            secondary: self.keywords2@.map_values(|k: String| k@),
        }
    }
}

impl Default for HighlightOptions {
    /// Options that switch every class off and know no keyword.
    fn default() -> (o: Self)
        ensures
            o.file_type is None,
            o@ == (Syntax {
                numbers: false,
                strings: false,
                characters: false,
                comments: false,
                multiline_comments: false,
                primary: Seq::empty(),
                secondary: Seq::empty(),
            }),
    {
        let o = HighlightOptions {
            file_type: None,
            numbers: false,
            strings: false,
            characters: false,
            comments: false,
            multiline_comments: false,
            keywords1: Vec::new(),
            keywords2: Vec::new(),
        };
        assert(o@.primary =~= Seq::empty());
        assert(o@.secondary =~= Seq::empty());
        o
    }
}

/// The primary keywords of a file type: the words of the language that
/// declare and steer.
pub open spec fn primary_keywords_of(t: Option<FileType>) -> Seq<Seq<char>> {
    match t {
        Some(FileType::Rust) => seq![
            "as"@, "break"@, "const"@, "continue"@, "else"@, "enum"@, "fn"@, "for"@, "if"@,
            "impl"@, "in"@, "let"@, "loop"@, "match"@, "mod"@, "mut"@, "pub"@, "return"@,
            "struct"@, "trait"@, "type"@, "use"@, "where"@, "while"@,
        ],
        Some(FileType::C) => seq![
            "break"@, "case"@, "const"@, "continue"@, "default"@, "do"@, "else"@, "enum"@,
            "for"@, "goto"@, "if"@, "return"@, "sizeof"@, "struct"@, "switch"@, "typedef"@,
            "union"@, "while"@,
        ],
        _ => Seq::empty(),
    }
}

/// The secondary keywords of a file type: the names of its built-in types.
pub open spec fn secondary_keywords_of(t: Option<FileType>) -> Seq<Seq<char>> {
    match t {
        Some(FileType::Rust) => seq![
            "bool"@, "char"@, "i8"@, "i16"@, "i32"@, "i64"@, "isize"@, "str"@, "u8"@, "u16"@,
            "u32"@, "u64"@, "usize"@,
        ],
        Some(FileType::C) => seq![
            "char"@, "int"@, "long"@, "short"@, "signed"@, "unsigned"@, "void"@,
        ],
        _ => Seq::empty(),
    }
}

/// Copies a list of words into owned strings.
fn owned_words(words: &[&str]) -> (list: Vec<String>)
    ensures
        list@.map_values(|k: String| k@) == words@.map_values(|w: &str| w@),
{
    let mut list: Vec<String> = Vec::new();
    let mut i: usize = 0;
    while i < words.len()
        invariant
            i <= words.len(),
            list.len() == i,
            forall|j: int| 0 <= j < i ==> (#[trigger] list[j])@ == words[j]@,
        decreases words.len() - i,
    {
        list.push(String::from_str(words[i]));
        i += 1;
    }
    assert(list@.map_values(|k: String| k@) =~= words@.map_values(|w: &str| w@));
    list
}

fn primary_keywords_for(t: Option<FileType>) -> (list: Vec<String>)
    ensures
        list@.map_values(|k: String| k@) == primary_keywords_of(t),
{
    match t {
        Some(FileType::Rust) => {
            let words = [
                "as", "break", "const", "continue", "else", "enum", "fn", "for", "if", "impl",
                "in", "let", "loop", "match", "mod", "mut", "pub", "return", "struct", "trait",
                "type", "use", "where", "while",
            ];
            assert(words@.map_values(|w: &str| w@) =~= primary_keywords_of(t));
            owned_words(&words)
        },
        Some(FileType::C) => {
            let words = [
                "break", "case", "const", "continue", "default", "do", "else", "enum", "for",
                "goto", "if", "return", "sizeof", "struct", "switch", "typedef", "union", "while",
            ];
            assert(words@.map_values(|w: &str| w@) =~= primary_keywords_of(t));
            owned_words(&words)
        },
        _ => {
            let list: Vec<String> = Vec::new();
            assert(list@.map_values(|k: String| k@) =~= primary_keywords_of(t));
            list
        },
    }
}

fn secondary_keywords_for(t: Option<FileType>) -> (list: Vec<String>)
    ensures
        list@.map_values(|k: String| k@) == secondary_keywords_of(t),
{
    match t {
        Some(FileType::Rust) => {
            let words = [
                "bool", "char", "i8", "i16", "i32", "i64", "isize", "str", "u8", "u16", "u32",
                "u64", "usize",
            ];
            assert(words@.map_values(|w: &str| w@) =~= secondary_keywords_of(t));
            owned_words(&words)
        },
        Some(FileType::C) => {
            let words = ["char", "int", "long", "short", "signed", "unsigned", "void"];
            assert(words@.map_values(|w: &str| w@) =~= secondary_keywords_of(t));
            owned_words(&words)
        },
        _ => {
            let list: Vec<String> = Vec::new();
            assert(list@.map_values(|k: String| k@) =~= secondary_keywords_of(t));
            list
        },
    }
}

/// The options that `HighlightOptions::from` gives a file called `path`:
/// numbers and strings are looked for, and the keywords are those of the
/// file's type.
pub open spec fn syntax_for(path: Seq<char>) -> Syntax {
    Syntax {
        numbers: true,
        strings: true,
        characters: false,
        comments: false,
        multiline_comments: false,
        primary: primary_keywords_of(file_type_of(path)),
        secondary: secondary_keywords_of(file_type_of(path)),
    }
}

impl HighlightOptions {
    /// The options for a file called `filename`.
    pub fn from(filename: &str) -> (o: Self)
        ensures
            o.file_type == file_type_of(filename@),
            o@ == syntax_for(filename@),
    {
        let file_type = Self::set_filetype(filename);
        HighlightOptions {
            file_type,
            numbers: true,
            strings: true,
            characters: false,
            comments: false,
            multiline_comments: false,
            keywords1: primary_keywords_for(file_type),
            keywords2: secondary_keywords_for(file_type),
        }
    }

    /// The file type that the extension of `filename` stands for.
    pub fn set_filetype(filename: &str) -> (t: Option<FileType>)
        ensures
            t == file_type_of(filename@),
    {
        let chars = to_chars(filename);
        let start: usize = match find_last_char(&chars, 0, '/') {
            Some(slash) => slash + 1,
            None => 0,
        };
        assert(chars@.skip(0) =~= chars@);
        let ghost name = file_name_of(chars@);
        assert(name == chars@.skip(start as int));
        match find_last_char(&chars, start, '.') {
            Some(dot) => {
                if dot == 0 {
                    return None;
                }
                let from: usize = start + dot + 1;
                let n: usize = chars.len() - from;
                let ghost ext = name.skip(dot + 1);
                assert(ext =~= chars@.skip(from as int));
                if n == 2 && chars[from] == 'r' && chars[from + 1] == 's' {
                    assert(ext =~= seq!['r', 's']);
                    Some(FileType::Rust)
                } else if n == 1 && chars[from] == 'c' {
                    assert(ext =~= seq!['c']);
                    Some(FileType::C)
                } else if n == 3 && chars[from] == 't' && chars[from + 1] == 'x' && chars[from + 2]
                    == 't' {
                    assert(ext =~= seq!['t', 'x', 't']);
                    Some(FileType::Text)
                } else {
                    assert(ext != seq!['r', 's']) by {
                        if ext == seq!['r', 's'] {
                            assert(ext.len() == 2 && ext[0] == 'r' && ext[1] == 's');
                        }
                    }
                    assert(ext != seq!['c']) by {
                        if ext == seq!['c'] {
                            assert(ext.len() == 1 && ext[0] == 'c');
                        }
                    }
                    assert(ext != seq!['t', 'x', 't']) by {
                        if ext == seq!['t', 'x', 't'] {
                            assert(ext.len() == 3 && ext[0] == 't' && ext[1] == 'x' && ext[2] == 't');
                        }
                    }
                    None
                }
            },
            None => None,
        }
    }

    /// The primary keywords.
    pub fn primary_keywords(&self) -> (list: &Vec<String>)
        ensures
            list@.map_values(|k: String| k@) == self@.primary,
    {
        &self.keywords1
    }

    /// The secondary keywords.
    pub fn secondary_keywords(&self) -> (list: &Vec<String>)
        ensures
            list@.map_values(|k: String| k@) == self@.secondary,
    {
        &self.keywords2
    }
}

/// The state of a row that was just made from `text`.
pub open spec fn fresh_row(text: Seq<char>) -> RowState {
    RowState { text, classes: Seq::empty(), highlighted: false }
}

/// `row` with another text.
pub open spec fn with_text(row: RowState, text: Seq<char>) -> RowState {
    RowState { text, classes: row.classes, highlighted: row.highlighted }
}

/// `row` without its highlighted mark.
pub open spec fn unmarked(row: RowState) -> RowState {
    RowState { text: row.text, classes: row.classes, highlighted: false }
}

/// `rows` with the rows from index `from` on unmarked.
pub open spec fn unmarked_from(rows: Seq<RowState>, from: int) -> Seq<RowState> {
    Seq::new(
        rows.len(),
        |i: int|
            if i >= from {
                unmarked(rows[i])
            } else {
                rows[i]
            },
    )
}

/// The rows after a line break at `at`: the row is cut before column `at.x`,
/// and what stood from that column on becomes the next row. At the end of the
/// buffer an empty row is cut.
pub open spec fn rows_after_newline(rows: Seq<RowState>, at: Position) -> Seq<RowState> {
    let base = if at.y == rows.len() {
        rows.push(fresh_row(Seq::empty()))
    } else {
        rows
    };
    let row = base[at.y as int];
    base.update(at.y as int, unmarked(with_text(row, text_before(row.text, at.x as int)))).insert(
        at.y + 1,
        fresh_row(text_from(row.text, at.x as int)),
    )
}

/// The rows after `c` was typed at `at`. A row index beyond the end of the
/// buffer changes nothing. A line feed breaks the line; at the end of the
/// buffer any other character starts a new row; else it goes into its row.
/// The rows from the one before `at.y` on lose their highlighted mark.
pub open spec fn rows_after_insert(rows: Seq<RowState>, at: Position, c: char) -> Seq<RowState> {
    if at.y > rows.len() {
        rows
    } else {
        let edited = if c == '\n' {
            rows_after_newline(rows, at)
        } else if at.y == rows.len() {
            rows.push(fresh_row(seq![c]))
        } else {
            rows.update(
                at.y as int,
                with_text(rows[at.y as int], text_after_insert(rows[at.y as int].text, at.x as int, c)),
            )
        };
        unmarked_from(edited, at.y - 1)
    }
}

/// The caret at `at` stands at the end of a row that has a successor.
pub open spec fn at_row_end(rows: Seq<RowState>, at: Position) -> bool {
    at.y + 1 < rows.len() && at.x == cluster_count(rows[at.y as int].text)
}

/// The rows after a deletion at `at`. A row index at or beyond the end of the
/// buffer changes nothing. At the end of a row that has a successor, the
/// successor is taken out and its text joins the row; else the cluster at
/// column `at.x` leaves the row.
pub open spec fn rows_after_delete(rows: Seq<RowState>, at: Position) -> Seq<RowState> {
    if at.y >= rows.len() {
        rows
    } else if at_row_end(rows, at) {
        rows.update(
            at.y as int,
            with_text(rows[at.y as int], rows[at.y as int].text + rows[at.y + 1].text),
        ).remove(at.y + 1)
    } else {
        rows.update(
            at.y as int,
            with_text(rows[at.y as int], text_after_delete(rows[at.y as int].text, at.x as int)),
        )
    }
}

/// A deletion at the end of a row that has a successor joins the successor
/// to the row: the buffer has one row less, the row holds both texts, and the
/// other rows stay as they are, those behind moved up by one.
pub proof fn lemma_delete_joins_rows(rows: Seq<RowState>, at: Position)
    requires
        at_row_end(rows, at),
    ensures
        rows_after_delete(rows, at).len() == rows.len() - 1,
        rows_after_delete(rows, at)[at.y as int].text == rows[at.y as int].text + rows[at.y
            + 1].text,
        forall|i: int| 0 <= i < at.y ==> #[trigger] rows_after_delete(rows, at)[i] == rows[i],
        forall|i: int|
            at.y < i < rows.len() - 1 ==> #[trigger] rows_after_delete(rows, at)[i] == rows[i + 1],
{
}

/// A deletion at the start of a buffer that holds nothing there, no row or
/// one empty row alone, changes nothing.
pub proof fn lemma_delete_nothing(rows: Seq<RowState>)
    requires
        rows.len() == 0 || (rows.len() == 1 && rows[0].text.len() == 0),
    ensures
        rows_after_delete(rows, Position { x: 0, y: 0 }) == rows,
{
    if rows.len() == 1 {
        lemma_empty_text();
        assert(rows[0].text =~= Seq::<char>::empty());
        assert(rows_after_delete(rows, Position { x: 0, y: 0 }) =~= rows);
    }
}

/// What a forward search finds from column `x` of row `y` on: the first row
/// at or after `y` in which the row search finds something, and the column
/// there. Rows after `y` are searched from their first column.
pub open spec fn find_forward(rows: Seq<RowState>, query: Seq<char>, y: int, x: int) -> Option<
    (int, int),
>
    decreases rows.len() - y,
{
    if y < 0 || y >= rows.len() {
        None
    } else {
        match row_find(rows[y].text, query, x, SearchDirection::Forward) {
            Some(col) => Some((col, y)),
            None => find_forward(rows, query, y + 1, 0),
        }
    }
}

/// What a backward search finds from column `x` of row `y` back: the last row
/// at or before `y` in which the row search finds something, and the column
/// there. Rows before `y` are searched from their end.
pub open spec fn find_backward(rows: Seq<RowState>, query: Seq<char>, y: int, x: int) -> Option<
    (int, int),
>
    decreases y,
{
    if y < 0 || y >= rows.len() {
        None
    } else {
        match row_find(rows[y].text, query, x, SearchDirection::Backward) {
            Some(col) => Some((col, y)),
            None => if y == 0 {
                None
            } else {
                find_backward(rows, query, y - 1, cluster_count(rows[y - 1].text) as int)
            },
        }
    }
}

/// What a search from `at` finds, as column and row.
pub open spec fn buffer_find(
    rows: Seq<RowState>,
    query: Seq<char>,
    at: Position,
    direction: SearchDirection,
) -> Option<(int, int)> {
    match direction {
        SearchDirection::Forward => find_forward(rows, query, at.y as int, at.x as int),
        SearchDirection::Backward => find_backward(rows, query, at.y as int, at.x as int),
    }
}

/// A forward search finds nothing before its start: not in a row above the
/// start row, and in the start row not left of the start column.
pub proof fn lemma_find_forward_bounds(rows: Seq<RowState>, query: Seq<char>, y: int, x: int)
    ensures
        match find_forward(rows, query, y, x) {
            Some(found) => {
                &&& y <= found.1 < rows.len()
                &&& 0 <= found.0 < cluster_count(rows[found.1].text)
                &&& found.1 == y ==> x <= found.0
            },
            None => true,
        },
    decreases rows.len() - y,
{
    if 0 <= y < rows.len() {
        lemma_find_bounds(rows[y].text, query, x, SearchDirection::Forward);
        if row_find(rows[y].text, query, x, SearchDirection::Forward) is None {
            lemma_find_forward_bounds(rows, query, y + 1, 0);
        }
    }
}

/// A backward search finds nothing at or behind its start: not in a row
/// below the start row, and in the start row only left of the start column.
pub proof fn lemma_find_backward_bounds(rows: Seq<RowState>, query: Seq<char>, y: int, x: int)
    ensures
        match find_backward(rows, query, y, x) {
            Some(found) => {
                &&& 0 <= found.1 <= y
                &&& found.1 < rows.len()
                &&& 0 <= found.0 < cluster_count(rows[found.1].text)
                &&& found.1 == y ==> found.0 < x
            },
            None => true,
        },
    decreases y,
{
    if 0 <= y < rows.len() {
        lemma_find_bounds(rows[y].text, query, x, SearchDirection::Backward);
        if row_find(rows[y].text, query, x, SearchDirection::Backward) is None && y > 0 {
            lemma_find_backward_bounds(rows, query, y - 1, cluster_count(rows[y - 1].text) as int);
        }
    }
}

/// Whether row `k` starts inside a multiline comment: row 0 never does, and
/// another row does where the row before it ends inside one.
pub open spec fn comment_before(rows: Seq<RowState>, o: Syntax, k: int) -> bool
    decreases k,
{
    if k <= 0 || k > rows.len() {
        false
    } else {
        scan(symbols(rows[k - 1].text), o, 0, comment_before(rows, o, k - 1)).1
    }
}

/// How many rows a highlight pass covers: all of them, or those up to row
/// `until`, that row included.
pub open spec fn highlight_limit(count: int, until: Option<usize>) -> int {
    match until {
        Some(last) => if last + 1 < count {
            last + 1
        } else {
            count
        },
        None => count,
    }
}

/// The rows after a highlight pass over the first `limit` of them.
pub open spec fn rows_after_highlight(
    rows: Seq<RowState>,
    o: Syntax,
    word: Option<Seq<char>>,
    limit: int,
) -> Seq<RowState> {
    Seq::new(
        rows.len(),
        |i: int|
            if i < limit {
                RowState {
                    text: rows[i].text,
                    classes: highlighted_classes(rows[i].text, o, word, comment_before(rows, o, i)),
                    highlighted: rows[i].highlighted,
                }
            } else {
                rows[i]
            },
    )
}

/// The states of a list of rows.
pub open spec fn row_states(rows: Seq<Row>) -> Seq<RowState> {
    rows.map_values(|r: Row| r.state())
}

/// The buffer: the rows of a file, its name, whether it was changed since it
/// was read or written, and its highlighting options.
pub struct File {
    rows: Vec<Row>,
    pub filename: Option<String>,
    pub dirty: bool,
    hl_opts: HighlightOptions,
}

impl File {
    /// The rows of the buffer.
    pub closed spec fn rows(&self) -> Seq<RowState> {
        row_states(self.rows@)
    }

    /// The name of the file, where it has one.
    pub closed spec fn name(&self) -> Option<Seq<char>> {
        word_text(self.filename)
    }

    /// Whether the buffer was changed since it was read or written.
    pub closed spec fn modified(&self) -> bool {
        self.dirty
    }

    /// The highlighting options.
    pub closed spec fn syntax(&self) -> Syntax {
        self.hl_opts@
    }

    /// The type of the file.
    pub closed spec fn kind(&self) -> Option<FileType> {
        self.hl_opts.file_type
    }

    /// A buffer for the file called `filename`, which holds `lines`.
    pub fn open(filename: &str, lines: Vec<String>) -> (file: Self)
        ensures
            file.rows() == lines@.map_values(|l: String| fresh_row(l@)),
            file.name() == Some(filename@),
            !file.modified(),
            file.syntax() == syntax_for(filename@),
            file.kind() == file_type_of(filename@),
    {
        let mut rows: Vec<Row> = Vec::new();
        let mut i: usize = 0;
        while i < lines.len()
            invariant
                i <= lines.len(),
                rows.len() == i,
                forall|j: int| 0 <= j < i ==> (#[trigger] rows[j]).state() == fresh_row(lines[j]@),
            decreases lines.len() - i,
        {
            rows.push(Row::from(lines[i].as_str()));
            i += 1;
        }
        assert(row_states(rows@) =~= lines@.map_values(|l: String| fresh_row(l@)));
        File {
            rows,
            filename: Some(String::from_str(filename)),
            dirty: false,
            hl_opts: HighlightOptions::from(filename),
        }
    }

    /// The number of rows.
    pub fn len(&self) -> (n: usize)
        ensures
            n == self.rows().len(),
    {
        self.rows.len()
    }

    /// The type of the file.
    pub fn file_type(&self) -> (t: Option<FileType>)
        ensures
            t == self.kind(),
    {
        self.hl_opts.file_type
    }

    /// An empty buffer without a name, with every highlight class off.
    pub fn default() -> (file: Self)
        ensures
            file.rows() == Seq::<RowState>::empty(),
            file.name() is None,
            !file.modified(),
            file.kind() is None,
            file.syntax() == (Syntax {
                numbers: false,
                strings: false,
                characters: false,
                comments: false,
                multiline_comments: false,
                primary: Seq::empty(),
                secondary: Seq::empty(),
            }),
    {
        let file = File {
            rows: Vec::new(),
            filename: None,
            dirty: false,
            hl_opts: HighlightOptions::default(),
        };
        assert(file.rows() =~= Seq::<RowState>::empty());
        file
    }

    /// Takes note that the buffer is about to be written. Where the buffer
    /// has a name, the highlighting options are made anew from it, the buffer
    /// counts as unchanged, and the texts of the rows are returned, to be
    /// written one to a line. Without a name nothing happens.
    pub fn save(&mut self) -> (lines: Option<Vec<String>>)
        ensures
            final(self).rows() == old(self).rows(),
            final(self).name() == old(self).name(),
            match old(self).name() {
                Some(name) => {
                    &&& lines is Some
                    &&& lines->0@.map_values(|l: String| l@) == old(self).rows().map_values(
                        |r: RowState| r.text,
                    )
                    &&& !final(self).modified()
                    &&& final(self).syntax() == syntax_for(name)
                    &&& final(self).kind() == file_type_of(name)
                },
                None => {
                    &&& lines is None
                    &&& final(self).modified() == old(self).modified()
                    &&& final(self).syntax() == old(self).syntax()
                    &&& final(self).kind() == old(self).kind()
                },
            },
    {
        match &self.filename {
            Some(name) => {
                let options = HighlightOptions::from(name.as_str());
                let mut lines: Vec<String> = Vec::new();
                let mut i: usize = 0;
                while i < self.rows.len()
                    invariant
                        i <= self.rows.len(),
                        lines.len() == i,
                        forall|j: int| 0 <= j < i ==> (#[trigger] lines[j])@ == self.rows[j]@,
                    decreases self.rows.len() - i,
                {
                    lines.push(String::from_str(self.rows[i].as_str()));
                    i += 1;
                }
                assert(lines@.map_values(|l: String| l@) =~= self.rows().map_values(
                    |r: RowState| r.text,
                ));
                self.hl_opts = options;
                self.dirty = false;
                Some(lines)
            },
            None => None,
        }
    }

    /// Whether the buffer was changed since it was read or written.
    pub fn is_dirty(&self) -> (b: bool)
        ensures
            b == self.modified(),
    {
        self.dirty
    }

    /// The name of the file, where it has one.
    pub fn name_of_file(&self) -> (name: Option<&str>)
        ensures
            match name {
                Some(n) => self.name() == Some(n@),
                None => self.name() is None,
            },
    {
        match &self.filename {
            Some(name) => Some(name.as_str()),
            None => None,
        }
    }

    /// Gives the file a name.
    pub fn set_filename(&mut self, name: String)
        ensures
            final(self).name() == Some(name@),
            final(self).rows() == old(self).rows(),
            final(self).modified() == old(self).modified(),
            final(self).syntax() == old(self).syntax(),
            final(self).kind() == old(self).kind(),
    {
        self.filename = Some(name);
    }

    /// The number of rows.
    pub fn num_rows(&self) -> (n: usize)
        ensures
            n == self.rows().len(),
    {
        self.rows.len()
    }

    /// The row at `index`, where there is one.
    pub fn row(&self, index: usize) -> (row: Option<&Row>)
        ensures
            match row {
                Some(r) => index < self.rows().len() && r.state() == self.rows()[index as int],
                None => index >= self.rows().len(),
            },
    {
        if index < self.rows.len() {
            Some(&self.rows[index])
        } else {
            None
        }
    }

    /// Whether the buffer has no row.
    pub fn is_empty(&self) -> (b: bool)
        ensures
            b == (self.rows().len() == 0),
    {
        self.rows.len() == 0
    }

    /// Takes the highlighted mark from the rows from the one before `start`
    /// on.
    pub fn unhighlight_rows(&mut self, start: usize)
        ensures
            final(self).rows() == unmarked_from(old(self).rows(), start - 1),
            final(self).name() == old(self).name(),
            final(self).modified() == old(self).modified(),
            final(self).syntax() == old(self).syntax(),
            final(self).kind() == old(self).kind(),
    {
        let first: usize = if start > 0 {
            start - 1
        } else {
            0
        };
        let mut i: usize = first;
        while i < self.rows.len()
            invariant
                first <= i,
                self.rows.len() == old(self).rows.len(),
                self.filename == old(self).filename,
                self.dirty == old(self).dirty,
                self.hl_opts == old(self).hl_opts,
                forall|j: int|
                    0 <= j < self.rows.len() ==> (#[trigger] self.rows[j]).state() == (if first
                        <= j < i {
                        unmarked(old(self).rows[j].state())
                    } else {
                        old(self).rows[j].state()
                    }),
            decreases self.rows.len() - i,
        {
            self.rows[i].set_highlighted(false);
            i += 1;
        }
        assert(self.rows() =~= unmarked_from(old(self).rows(), start - 1));
    }
    /// Types `c` at `at`.
    pub fn insert(&mut self, at: &Position, c: char)
        ensures
            final(self).rows() == rows_after_insert(old(self).rows(), *at, c),
            final(self).modified() == (old(self).modified() || at.y <= old(self).rows().len()),
            final(self).name() == old(self).name(),
            final(self).syntax() == old(self).syntax(),
            final(self).kind() == old(self).kind(),
    {
        if at.y > self.rows.len() {
            return;
        }
        self.dirty = true;
        if c == '\n' {
            self.insert_newline(at);
        } else if at.y == self.rows.len() {
            let mut row = Row::default();
            row.insert(0, c);
            proof {
                lemma_empty_text();
            }
            self.rows.push(row);
            assert(self.rows() =~= old(self).rows().push(fresh_row(seq![c])));
        } else {
            self.rows[at.y].insert(at.x, c);
            assert(self.rows() =~= old(self).rows().update(
                at.y as int,
                with_text(
                    old(self).rows()[at.y as int],
                    text_after_insert(old(self).rows()[at.y as int].text, at.x as int, c),
                ),
            ));
        }
        self.unhighlight_rows(at.y);
    }

    /// Deletes at `at`.
    pub fn delete(&mut self, at: &Position)
        ensures
            final(self).rows() == rows_after_delete(old(self).rows(), *at),
            final(self).modified() == (old(self).modified() || at.y < old(self).rows().len()),
            final(self).name() == old(self).name(),
            final(self).syntax() == old(self).syntax(),
            final(self).kind() == old(self).kind(),
    {
        if at.y >= self.rows.len() {
            return;
        }
        self.dirty = true;
        if at.x == self.rows[at.y].len() && at.y + 1 < self.rows.len() {
            let next = self.rows.remove(at.y + 1);
            self.rows[at.y].append(&next);
            assert(self.rows() =~= rows_after_delete(old(self).rows(), *at));
        } else {
            self.rows[at.y].delete(at.x);
            assert(self.rows() =~= rows_after_delete(old(self).rows(), *at));
        }
    }

    /// Breaks the line at `at`.
    fn insert_newline(&mut self, at: &Position)
        requires
            at.y <= old(self).rows().len(),
        ensures
            final(self).rows() == rows_after_newline(old(self).rows(), *at),
            final(self).modified() == old(self).modified(),
            final(self).name() == old(self).name(),
            final(self).syntax() == old(self).syntax(),
            final(self).kind() == old(self).kind(),
    {
        if at.y == self.rows.len() {
            self.rows.push(Row::default());
        }
        let ghost base = self.rows();
        assert(base =~= if at.y == old(self).rows().len() {
            old(self).rows().push(fresh_row(Seq::empty()))
        } else {
            old(self).rows()
        });
        let count = self.rows.len();
        let rest = self.rows[at.y].split(at.x);
        assert(at.y < count && count == self.rows.len());
        self.rows.insert(at.y + 1, rest);
        assert(self.rows() =~= rows_after_newline(old(self).rows(), *at));
    }

    /// Searches the buffer for `query` from `at` on, in the given direction,
    /// and does not go round the ends of the buffer.
    pub fn find(&self, query: &str, at: &Position, direction: SearchDirection) -> (found: Option<
        Position,
    >)
        ensures
            match found {
                Some(p) => {
                    &&& buffer_find(self.rows(), query@, *at, direction) == Some(
                        (p.x as int, p.y as int),
                    )
                    &&& p.y < self.rows().len()
                    &&& p.x < cluster_count(self.rows()[p.y as int].text)
                    &&& direction == SearchDirection::Forward ==> at.y <= p.y && (p.y == at.y
                        ==> at.x <= p.x)
                    &&& direction == SearchDirection::Backward ==> p.y <= at.y && (p.y == at.y
                        ==> p.x < at.x)
                },
                None => buffer_find(self.rows(), query@, *at, direction) is None,
            },
    {
        if at.y >= self.rows.len() {
            return None;
        }
        let mut y: usize = at.y;
        let mut x: usize = at.x;
        match direction {
            SearchDirection::Forward => {
                while y < self.rows.len()
                    invariant
                        at.y <= y,
                        y == at.y ==> x == at.x,
                        direction == SearchDirection::Forward,
                        find_forward(self.rows(), query@, at.y as int, at.x as int)
                            == find_forward(self.rows(), query@, y as int, x as int),
                    decreases self.rows.len() - y,
                {
                    if let Some(col) = self.rows[y].find(query, x, direction) {
                        return Some(Position { x: col, y });
                    }
                    y += 1;
                    x = 0;
                }
                None
            },
            SearchDirection::Backward => {
                loop
                    invariant
                        y <= at.y < self.rows.len(),
                        y == at.y ==> x == at.x,
                        direction == SearchDirection::Backward,
                        find_backward(self.rows(), query@, at.y as int, at.x as int)
                            == find_backward(self.rows(), query@, y as int, x as int),
                    decreases y,
                {
                    if let Some(col) = self.rows[y].find(query, x, direction) {
                        return Some(Position { x: col, y });
                    }
                    if y == 0 {
                        return None;
                    }
                    y -= 1;
                    x = self.rows[y].len();
                }
            },
        }
    }

    /// Highlights the rows up to row `until`, that row included, or all rows
    /// where `until` is `None`, and marks the occurrences of `word` in them. Row 0
    /// starts outside any comment, and each further row starts as the row
    /// before it ended.
    pub fn highlight(&mut self, word: &Option<String>, until: Option<usize>)
        ensures
            final(self).rows() == rows_after_highlight(
                old(self).rows(),
                old(self).syntax(),
                word_text(*word),
                highlight_limit(old(self).rows().len() as int, until),
            ),
            final(self).modified() == old(self).modified(),
            final(self).name() == old(self).name(),
            final(self).syntax() == old(self).syntax(),
            final(self).kind() == old(self).kind(),
    {
        let count = self.rows.len();
        let limit: usize = match until {
            Some(last) => if last < count && last + 1 < count {
                last + 1
            } else {
                count
            },
            None => count,
        };
        let ghost before = self.rows();
        let ghost o = self.syntax();
        let mut in_comment = false;
        let mut i: usize = 0;
        while i < limit
            invariant
                i <= limit <= count,
                count == self.rows.len(),
                before == old(self).rows(),
                before.len() == count,
                o == self.hl_opts@,
                self.filename == old(self).filename,
                self.dirty == old(self).dirty,
                self.hl_opts == old(self).hl_opts,
                in_comment == comment_before(before, o, i as int),
                forall|j: int|
                    0 <= j < count ==> (#[trigger] self.rows[j]).state() == (if j < i {
                        RowState {
                            text: before[j].text,
                            classes: highlighted_classes(
                                before[j].text,
                                o,
                                word_text(*word),
                                comment_before(before, o, j),
                            ),
                            highlighted: before[j].highlighted,
                        }
                    } else {
                        before[j]
                    }),
            decreases limit - i,
        {
            in_comment = self.rows[i].highlight(&self.hl_opts, word, in_comment);
            i += 1;
        }
        assert(self.rows() =~= rows_after_highlight(
            before,
            o,
            word_text(*word),
            highlight_limit(count as int, until),
        ));
    }

    /// The row at `index`, to be changed, where there is one.
    pub fn mut_row(&mut self, index: usize) -> (row: Option<&mut Row>)
        ensures
            match row {
                Some(r) => {
                    &&& index < old(self).rows().len()
                    &&& r.state() == old(self).rows()[index as int]
                    &&& final(self).rows() == old(self).rows().update(
                        index as int,
                        final(r).state(),
                    )
                },
                None => index >= old(self).rows().len() && final(self).rows() == old(self).rows(),
            },
            final(self).modified() == old(self).modified(),
            final(self).name() == old(self).name(),
            final(self).syntax() == old(self).syntax(),
            final(self).kind() == old(self).kind(),
    {
        if index < self.rows.len() {
            Some(&mut self.rows[index])
        } else {
            None
        }
    }
}

} // verus!
