//! The decisions of the editor: where the caret goes, how the window follows
//! it, and what a key does. Reading keys and drawing are left to the caller.

use crate::file::{
    buffer_find, file_type_of, highlight_limit, rows_after_delete, rows_after_highlight,
    rows_after_insert, syntax_for, File,
};
use crate::frame::{
    message_line, message_text, status_left, status_line, status_right, status_text,
    welcome_line, welcome_text,
};
use crate::grapheme::{cluster_count, clusters};
use crate::row::{leading_run, render_text, word_text, RowState};
use crate::screen::{Position, ScreenSize};
use crate::syntax::{is_control, is_control_char};
use crate::text::{chars_to_string, to_chars};
use vstd::prelude::*;
use vstd::string::StringExecFns;

verus! {

/// The direction of a search.
#[derive(PartialEq, Eq, Structural, Clone, Copy, Debug)]
pub enum SearchDirection {
    Forward,
    Backward,
}

/// A key as the editor reads it.
#[derive(PartialEq, Eq, Structural, Clone, Copy, Debug)]
pub enum Key {
    Backspace,
    Left,
    Right,
    Up,
    Down,
    Home,
    End,
    PageUp,
    PageDown,
    Delete,
    Char(char),
    Ctrl(char),
    Esc,
    Other,
}

/// What the caller has to do after a key was handled.
#[derive(PartialEq, Eq, Structural, Clone, Copy, Debug)]
pub enum Action {
    /// Nothing but to draw the next frame.
    Continue,
    /// Write the buffer.
    Save,
    /// Ask for a word and search for it.
    Search,
    /// Tell the user that the buffer has changes that were not written, and
    /// that so many more quit keys leave the editor.
    Warn(u8),
}

/// How the prompt goes on after a key.
#[derive(PartialEq, Eq, Structural, Clone, Copy, Debug)]
pub enum PromptStep {
    /// The prompt waits for the next key.
    Continue,
    /// The text is taken as it stands.
    Accept,
    /// The prompt is given up.
    Cancel,
}

/// How often the quit key has to be pressed again to leave a changed buffer.
pub const QUIT_TIMES: u8 = 3;

/// The state of the editor: the caret, the top left corner of the window, the
/// size of the window, the buffer, how many more quit keys a changed buffer
/// asks for, whether the editor is to end, and the word to be marked.
pub struct Editor {
    pub cursor: Position,
    pub offset: Position,
    pub size: ScreenSize,
    pub file: File,
    pub quit_times: u8,
    pub should_quit: bool,
    pub highlighted_word: Option<String>,
}

/// The length of row `y`, or 0 where the buffer has no such row.
pub open spec fn row_len(rows: Seq<RowState>, y: int) -> int {
    if 0 <= y < rows.len() {
        cluster_count(rows[y].text) as int
    } else {
        0
    }
}

/// Column `x` brought back into row `y`, where the buffer has such a row.
pub open spec fn column_in_row(rows: Seq<RowState>, x: int, y: int) -> int {
    if 0 <= y < rows.len() && x > row_len(rows, y) {
        row_len(rows, y)
    } else {
        x
    }
}

/// A position from a column and a row.
pub open spec fn position(x: int, y: int) -> Position {
    Position { x: x as usize, y: y as usize }
}

/// Where a key takes the caret in a buffer of `rows`, with `page` rows to
/// the window. Left and right go on to the neighbouring row at the ends of a
/// row; up and down keep the column as far as the new row reaches; the page
/// keys move by the height of the window and stop at the ends of the buffer.
/// The caret may stand behind the last row.
pub open spec fn moved_cursor(cursor: Position, key: Key, rows: Seq<RowState>, page: int) -> Position {
    let x = cursor.x as int;
    let y = cursor.y as int;
    match key {
        Key::Left => if x > 0 {
            position(x - 1, y)
        } else if y > 0 {
            position(row_len(rows, y - 1), y - 1)
        } else {
            cursor
        },
        Key::Right => if x < row_len(rows, y) {
            position(x + 1, y)
        } else if y < rows.len() {
            position(0, y + 1)
        } else {
            cursor
        },
        Key::Up => {
            let up = if y > 0 {
                y - 1
            } else {
                0
            };
            position(column_in_row(rows, x, up), up)
        },
        Key::Down => if y < rows.len() {
            position(column_in_row(rows, x, y + 1), y + 1)
        } else {
            cursor
        },
        Key::Home => position(0, y),
        Key::End => position(row_len(rows, y), y),
        Key::PageDown => if y + page < rows.len() {
            position(x, y + page)
        } else {
            position(x, rows.len() as int)
        },
        Key::PageUp => if y > page {
            position(x, y - page)
        } else {
            position(x, 0)
        },
        _ => cursor,
    }
}

/// The caret after `times` steps to the right.
pub open spec fn moved_right(cursor: Position, rows: Seq<RowState>, page: int, times: nat) -> Position
    decreases times,
{
    if times == 0 {
        cursor
    } else {
        moved_right(moved_cursor(cursor, Key::Right, rows, page), rows, page, (times - 1) as nat)
    }
}

/// Number of spaces at the start of row `y`, or 0 where the buffer has no
/// such row.
pub open spec fn indent_of(rows: Seq<RowState>, y: int) -> nat {
    if 0 <= y < rows.len() {
        leading_run(clusters(rows[y].text), seq![' '])
    } else {
        0
    }
}

/// Where the caret stands after `c` was typed and `rows` is the buffer with
/// it: one step to the right, and after a line break behind the leading
/// spaces of the new row.
pub open spec fn cursor_after_typing(
    cursor: Position,
    c: char,
    rows: Seq<RowState>,
    page: int,
) -> Position {
    let next = moved_cursor(cursor, Key::Right, rows, page);
    if c == '\n' {
        moved_right(next, rows, page, indent_of(rows, next.y as int))
    } else {
        next
    }
}

/// What a key does to the caret and the buffer, and what it asks of the
/// caller. `warned` says that the key was a quit key that a changed buffer
/// answered with a warning; `quit` that it ends the editor.
pub struct Effect {
    pub cursor: Position,
    pub rows: Seq<RowState>,
    pub modified: bool,
    pub action: Action,
    pub warned: bool,
    pub quit: bool,
}

/// The effect of `key`. A character is typed at the caret. Backspace steps
/// left and deletes there, unless the caret stands at the start of the
/// buffer; delete deletes at the caret. The keys of movement move the caret.
/// Control with `q` quits, or warns while the buffer has changes and
/// `quit_times` is not used up; with `s` it asks to save, with `f` to search.
/// Every other key does nothing.
pub open spec fn key_effect(
    cursor: Position,
    rows: Seq<RowState>,
    modified: bool,
    quit_times: u8,
    page: int,
    key: Key,
) -> Effect {
    let same = Effect {
        cursor,
        rows,
        modified,
        action: Action::Continue,
        warned: false,
        quit: false,
    };
    match key {
        Key::Char(c) => {
            let typed = rows_after_insert(rows, cursor, c);
            Effect {
                cursor: cursor_after_typing(cursor, c, typed, page),
                rows: typed,
                modified: modified || cursor.y <= rows.len(),
                action: Action::Continue,
                warned: false,
                quit: false,
            }
        },
        Key::Ctrl(c) => if c == 'q' {
            if modified && quit_times > 0 {
                Effect { action: Action::Warn(quit_times), warned: true, ..same }
            } else {
                Effect { quit: true, ..same }
            }
        } else if c == 's' {
            Effect { action: Action::Save, ..same }
        } else if c == 'f' {
            Effect { action: Action::Search, ..same }
        } else {
            same
        },
        Key::Backspace => if cursor.x > 0 || cursor.y > 0 {
            let left = moved_cursor(cursor, Key::Left, rows, page);
            Effect {
                cursor: left,
                rows: rows_after_delete(rows, left),
                modified: modified || left.y < rows.len(),
                ..same
            }
        } else {
            same
        },
        Key::Delete => Effect {
            rows: rows_after_delete(rows, cursor),
            modified: modified || cursor.y < rows.len(),
            ..same
        },
        Key::Esc => same,
        Key::Other => same,
        _ => Effect { cursor: moved_cursor(cursor, key, rows, page), ..same },
    }
}

/// Backspace at the start of the buffer changes neither the buffer nor the
/// caret.
pub proof fn lemma_backspace_at_origin(
    rows: Seq<RowState>,
    modified: bool,
    quit_times: u8,
    page: int,
)
    ensures
        key_effect(Position { x: 0, y: 0 }, rows, modified, quit_times, page, Key::Backspace).rows
            == rows,
        key_effect(
            Position { x: 0, y: 0 },
            rows,
            modified,
            quit_times,
            page,
            Key::Backspace,
        ).cursor == (Position { x: 0, y: 0 }),
        key_effect(
            Position { x: 0, y: 0 },
            rows,
            modified,
            quit_times,
            page,
            Key::Backspace,
        ).modified == modified,
{
}

/// The direction in which a key sends a search that is under way: left and
/// up send it backward, every other key forward.
pub open spec fn search_direction(key: Key) -> SearchDirection {
    match key {
        Key::Left => SearchDirection::Backward,
        Key::Up => SearchDirection::Backward,
        _ => SearchDirection::Forward,
    }
}

/// Right and down step over the match at the caret before the search goes
/// on.
pub open spec fn search_steps(key: Key) -> bool {
    key == Key::Right || key == Key::Down
}

/// The text of a prompt after a key: backspace takes the last character
/// away, escape all of them, and a character that is no control character is
/// put at the end.
pub open spec fn prompt_text(text: Seq<char>, key: Key) -> Seq<char> {
    match key {
        Key::Backspace => if text.len() > 0 {
            text.drop_last()
        } else {
            text
        },
        Key::Char(c) => if is_control(c) {
            text
        } else {
            text.push(c)
        },
        Key::Esc => Seq::empty(),
        _ => text,
    }
}

/// How a prompt goes on after a key: a line feed accepts, escape cancels.
pub open spec fn prompt_step(key: Key) -> PromptStep {
    match key {
        Key::Char(c) => if c == '\n' {
            PromptStep::Accept
        } else {
            PromptStep::Continue
        },
        Key::Esc => PromptStep::Cancel,
        _ => PromptStep::Continue,
    }
}

/// `n` where it fits the machine's word, and else the largest number that
/// does.
pub open spec fn capped(n: int) -> int {
    if n > usize::MAX {
        usize::MAX as int
    } else {
        n
    }
}

/// Line `line` of the window: the row of the buffer that stands there, drawn
/// from the left edge of the window on; in an empty buffer the welcome line,
/// a third down the window; and else a tilde.
pub open spec fn frame_line(
    rows: Seq<RowState>,
    offset: Position,
    size: ScreenSize,
    line: int,
) -> Seq<char> {
    let y = capped(offset.y + line);
    if y < rows.len() {
        render_text(rows[y].text, rows[y].classes, offset.x as int, capped(offset.x + size.width))
    } else if rows.len() == 0 && line == size.height / 3 {
        welcome_text(size.width as int)
    } else {
        seq!['~']
    }
}

/// Handles one key of a prompt whose text is `text`.
pub fn prompt_key(text: &mut String, key: Key) -> (step: PromptStep)
    ensures
        final(text)@ == prompt_text(old(text)@, key),
        step == prompt_step(key),
{
    match key {
        Key::Backspace => {
            let chars = to_chars(text.as_str());
            if chars.len() > 0 {
                *text = chars_to_string(&chars, 0, chars.len() - 1);
                assert(text@ =~= old(text)@.drop_last());
            }
            PromptStep::Continue
        },
        Key::Char(c) => {
            if c == '\n' {
                PromptStep::Accept
            } else {
                if !is_control_char(c) {
                    text.push(c);
                }
                PromptStep::Continue
            }
        },
        Key::Esc => {
            *text = String::new();
            PromptStep::Cancel
        },
        _ => PromptStep::Continue,
    }
}

/// Where a window of `span` cells that starts at `start` has to start so
/// that it holds `at`: at `at` where `at` lies before it, so that `at` is its
/// last cell where `at` lies behind it, and else where it is.
pub open spec fn window_start(at: int, start: int, span: int) -> int {
    let first = if at < start {
        at
    } else {
        start
    };
    if at >= first + span {
        if at - span + 1 > usize::MAX {
            usize::MAX as int
        } else {
            at - span + 1
        }
    } else {
        first
    }
}

/// The corner of the window after it has followed the caret.
pub open spec fn scrolled_offset(cursor: Position, offset: Position, size: ScreenSize) -> Position {
    position(
        window_start(cursor.x as int, offset.x as int, size.width as int),
        window_start(cursor.y as int, offset.y as int, size.height as int),
    )
}

/// Where a window has to start so that it holds `at`.
fn follow(at: usize, start: usize, span: u16) -> (first: usize)
    ensures
        first == window_start(at as int, start as int, span as int),
{
    let first = if at < start {
        at
    } else {
        start
    };
    if at - first >= span as usize {
        let back = at - span as usize;
        if back < usize::MAX {
            back + 1
        } else {
            back
        }
    } else {
        first
    }
}

impl Editor {
    /// An editor on `file` in a window of `size`, with the caret and the
    /// window at the start of the buffer.
    pub fn new(file: File, size: ScreenSize) -> (editor: Self)
        ensures
            editor.cursor == (Position { x: 0, y: 0 }),
            editor.offset == (Position { x: 0, y: 0 }),
            editor.size == size,
            editor.file == file,
            editor.quit_times == 0,
            !editor.should_quit,
            editor.highlighted_word is None,
    {
        Editor {
            cursor: Position::default(),
            offset: Position::default(),
            size,
            file,
            quit_times: 0,
            should_quit: false,
            highlighted_word: None,
        }
    }

    /// The length of row `y`, or 0 where the buffer has no such row.
    fn width_of_row(&self, y: usize) -> (width: usize)
        ensures
            width == row_len(self.file.rows(), y as int),
    {
        match self.file.row(y) {
            Some(row) => row.len(),
            None => 0,
        }
    }

    /// Column `x` brought back into row `y`.
    fn column_in(&self, x: usize, y: usize) -> (column: usize)
        ensures
            column == column_in_row(self.file.rows(), x as int, y as int),
    {
        match self.file.row(y) {
            Some(row) => {
                let width = row.len();
                if x > width {
                    width
                } else {
                    x
                }
            },
            None => x,
        }
    }

    /// Moves the caret as `key` says.
    pub fn move_cursor(&mut self, key: Key)
        ensures
            final(self).cursor == moved_cursor(
                old(self).cursor,
                key,
                old(self).file.rows(),
                old(self).size.height as int,
            ),
            final(self).offset == old(self).offset,
            final(self).size == old(self).size,
            final(self).file == old(self).file,
            final(self).quit_times == old(self).quit_times,
            final(self).should_quit == old(self).should_quit,
            final(self).highlighted_word == old(self).highlighted_word,
    {
        let mut x = self.cursor.x;
        let mut y = self.cursor.y;
        let height = self.file.len();
        let page = self.size.height as usize;
        let width = self.width_of_row(y);
        match key {
            Key::Left => {
                if x > 0 {
                    x -= 1;
                } else if y > 0 {
                    y -= 1;
                    x = self.width_of_row(y);
                }
            },
            Key::Right => {
                if x < width {
                    x += 1;
                } else if y < height {
                    x = 0;
                    y += 1;
                }
            },
            Key::Up => {
                if y > 0 {
                    y -= 1;
                }
                x = self.column_in(x, y);
            },
            Key::Down => {
                if y < height {
                    y += 1;
                    x = self.column_in(x, y);
                }
            },
            Key::Home => {
                x = 0;
            },
            Key::End => {
                x = width;
            },
            Key::PageDown => {
                y = if y < height && page < height - y {
                    y + page
                } else {
                    height
                };
            },
            Key::PageUp => {
                y = if y > page {
                    y - page
                } else {
                    0
                };
            },
            _ => {},
        }
        self.cursor = Position { x, y };
    }

    /// Handles one key: changes the buffer and the caret as `key_effect`
    /// says, lets the window follow the caret and fills `quit_times` up
    /// again. A quit key that is answered with a warning uses up one of
    /// `quit_times` instead and leaves the window where it is.
    pub fn process_keypress(&mut self, key: Key) -> (action: Action)
        ensures
            ({
                let effect = key_effect(
                    old(self).cursor,
                    old(self).file.rows(),
                    old(self).file.modified(),
                    old(self).quit_times,
                    old(self).size.height as int,
                    key,
                );
                &&& action == effect.action
                &&& final(self).cursor == effect.cursor
                &&& final(self).file.rows() == effect.rows
                &&& final(self).file.modified() == effect.modified
                &&& if effect.warned {
                    &&& final(self).quit_times == old(self).quit_times - 1
                    &&& final(self).offset == old(self).offset
                    &&& final(self).should_quit == old(self).should_quit
                } else {
                    &&& final(self).quit_times == QUIT_TIMES
                    &&& final(self).offset == scrolled_offset(
                        effect.cursor,
                        old(self).offset,
                        old(self).size,
                    )
                    &&& final(self).should_quit == (old(self).should_quit || effect.quit)
                }
            }),
            final(self).size == old(self).size,
            final(self).highlighted_word == old(self).highlighted_word,
            final(self).file.name() == old(self).file.name(),
            final(self).file.syntax() == old(self).file.syntax(),
            final(self).file.kind() == old(self).file.kind(),
    {
        let mut action = Action::Continue;
        match key {
            Key::Char(c) => {
                let at = self.cursor;
                self.file.insert(&at, c);
                self.move_cursor(Key::Right);
                if c == '\n' {
                    self.skip_indent();
                }
            },
            Key::Ctrl(c) => {
                if c == 'q' {
                    if self.file.is_dirty() && self.quit_times > 0 {
                        let left = self.quit_times;
                        self.quit_times -= 1;
                        return Action::Warn(left);
                    }
                    self.should_quit = true;
                } else if c == 's' {
                    action = Action::Save;
                } else if c == 'f' {
                    action = Action::Search;
                }
            },
            Key::Backspace => {
                if self.cursor.x > 0 || self.cursor.y > 0 {
                    self.move_cursor(Key::Left);
                    let at = self.cursor;
                    self.file.delete(&at);
                }
            },
            Key::Delete => {
                let at = self.cursor;
                self.file.delete(&at);
            },
            Key::Esc => {},
            Key::Other => {},
            _ => {
                self.move_cursor(key);
            },
        }
        self.scroll();
        self.quit_times = QUIT_TIMES;
        action
    }

    /// Moves the caret to the right by the number of spaces that the row of
    /// the caret starts with.
    fn skip_indent(&mut self)
        ensures
            final(self).cursor == moved_right(
                old(self).cursor,
                old(self).file.rows(),
                old(self).size.height as int,
                indent_of(old(self).file.rows(), old(self).cursor.y as int),
            ),
            final(self).offset == old(self).offset,
            final(self).size == old(self).size,
            final(self).file == old(self).file,
            final(self).quit_times == old(self).quit_times,
            final(self).should_quit == old(self).should_quit,
            final(self).highlighted_word == old(self).highlighted_word,
    {
        proof {
            reveal_strlit(" ");
            assert(" "@ =~= seq![' ']);
        }
        let count = match self.file.row(self.cursor.y) {
            Some(row) => row.get_prefix_len(" "),
            None => 0,
        };
        let ghost rows = self.file.rows();
        let ghost page = self.size.height as int;
        let ghost start = self.cursor;
        let mut done: usize = 0;
        while done < count
            invariant
                done <= count,
                rows == self.file.rows(),
                page == self.size.height as int,
                moved_right(start, rows, page, count as nat) == moved_right(
                    self.cursor,
                    rows,
                    page,
                    (count - done) as nat,
                ),
                self.offset == old(self).offset,
                self.size == old(self).size,
                self.file == old(self).file,
                self.quit_times == old(self).quit_times,
                self.should_quit == old(self).should_quit,
                self.highlighted_word == old(self).highlighted_word,
            decreases count - done,
        {
            self.move_cursor(Key::Right);
            done += 1;
        }
    }

    /// Handles one key of a search for `query` that is under way. Right and
    /// down step over the match at the caret and search forward, left and up
    /// search backward, every other key searches forward from the caret.
    /// Where something is found the caret goes there and the window follows;
    /// where nothing is found a step that was made is taken back. `query`
    /// becomes the word to be marked.
    pub fn search_key(&mut self, key: Key, query: &str)
        ensures
            ({
                let rows = old(self).file.rows();
                let page = old(self).size.height as int;
                let start = if search_steps(key) {
                    moved_cursor(old(self).cursor, Key::Right, rows, page)
                } else {
                    old(self).cursor
                };
                match buffer_find(rows, query@, start, search_direction(key)) {
                    Some(found) => {
                        &&& final(self).cursor == position(found.0, found.1)
                        &&& final(self).offset == scrolled_offset(
                            final(self).cursor,
                            old(self).offset,
                            old(self).size,
                        )
                    },
                    None => {
                        &&& final(self).cursor == if search_steps(key) {
                            moved_cursor(start, Key::Left, rows, page)
                        } else {
                            old(self).cursor
                        }
                        &&& final(self).offset == old(self).offset
                    },
                }
            }),
            word_text(final(self).highlighted_word) == Some(query@),
            final(self).size == old(self).size,
            final(self).file == old(self).file,
            final(self).quit_times == old(self).quit_times,
            final(self).should_quit == old(self).should_quit,
    {
        let mut stepped = false;
        let direction = match key {
            Key::Right | Key::Down => {
                self.move_cursor(Key::Right);
                stepped = true;
                SearchDirection::Forward
            },
            Key::Left | Key::Up => SearchDirection::Backward,
            _ => SearchDirection::Forward,
        };
        let at = self.cursor;
        match self.file.find(query, &at, direction) {
            Some(found) => {
                self.cursor = found;
                self.scroll();
            },
            None => {
                if stepped {
                    self.move_cursor(Key::Left);
                }
            },
        }
        self.highlighted_word = Some(String::from_str(query));
    }

    /// Ends a search. A search that was given up puts the caret and the
    /// window back to `cursor` and `offset`, where they were when it began.
    /// No word is marked any more.
    pub fn search_end(&mut self, cursor: Position, offset: Position, accepted: bool)
        ensures
            final(self).cursor == if accepted {
                old(self).cursor
            } else {
                cursor
            },
            final(self).offset == if accepted {
                old(self).offset
            } else {
                scrolled_offset(cursor, offset, old(self).size)
            },
            final(self).highlighted_word is None,
            final(self).size == old(self).size,
            final(self).file == old(self).file,
            final(self).quit_times == old(self).quit_times,
            final(self).should_quit == old(self).should_quit,
    {
        if !accepted {
            self.cursor = cursor;
            self.offset = offset;
            self.scroll();
        }
        self.highlighted_word = None;
    }

    /// Gets the buffer ready to be written. A buffer without a name takes
    /// `name`; where there is none either, nothing is written. Else the
    /// result holds the texts of the rows, to be written one to a line, and
    /// the buffer counts as unchanged.
    pub fn save(&mut self, name: Option<String>) -> (lines: Option<Vec<String>>)
        ensures
            ({
                let named = match old(self).file.name() {
                    Some(n) => Some(n),
                    None => word_text(name),
                };
                &&& final(self).file.name() == named
                &&& final(self).file.rows() == old(self).file.rows()
                &&& match named {
                    Some(n) => {
                        &&& lines is Some
                        &&& lines->0@.map_values(|l: String| l@) == old(self).file.rows().map_values(
                            |r: RowState| r.text,
                        )
                        &&& !final(self).file.modified()
                        &&& final(self).file.syntax() == syntax_for(n)
                        &&& final(self).file.kind() == file_type_of(n)
                    },
                    None => {
                        &&& lines is None
                        &&& final(self).file.modified() == old(self).file.modified()
                        &&& final(self).file.syntax() == old(self).file.syntax()
                        &&& final(self).file.kind() == old(self).file.kind()
                    },
                }
            }),
            final(self).cursor == old(self).cursor,
            final(self).offset == old(self).offset,
            final(self).size == old(self).size,
            final(self).quit_times == old(self).quit_times,
            final(self).should_quit == old(self).should_quit,
            final(self).highlighted_word == old(self).highlighted_word,
    {
        if self.file.name_of_file().is_none() {
            match name {
                Some(n) => {
                    self.file.set_filename(n);
                },
                None => {
                    return None;
                },
            }
        }
        self.file.save()
    }

    /// Gets the buffer ready for the next frame: highlights the rows down to
    /// the bottom of the window and marks the word that is searched for. The
    /// result is the place of the caret in the window. An editor that is to
    /// end does nothing and has no place for the caret.
    pub fn refresh_screen(&mut self) -> (caret: Option<Position>)
        ensures
            match caret {
                Some(at) => {
                    &&& !old(self).should_quit
                    &&& at.x == if old(self).cursor.x > old(self).offset.x {
                        old(self).cursor.x - old(self).offset.x
                    } else {
                        0
                    }
                    &&& at.y == if old(self).cursor.y > old(self).offset.y {
                        old(self).cursor.y - old(self).offset.y
                    } else {
                        0
                    }
                    &&& final(self).file.rows() == rows_after_highlight(
                        old(self).file.rows(),
                        old(self).file.syntax(),
                        word_text(old(self).highlighted_word),
                        highlight_limit(
                            old(self).file.rows().len() as int,
                            Some(capped(old(self).offset.y + old(self).size.height) as usize),
                        ),
                    )
                },
                None => old(self).should_quit && final(self).file.rows() == old(self).file.rows(),
            },
            final(self).file.name() == old(self).file.name(),
            final(self).file.modified() == old(self).file.modified(),
            final(self).file.syntax() == old(self).file.syntax(),
            final(self).file.kind() == old(self).file.kind(),
            final(self).cursor == old(self).cursor,
            final(self).offset == old(self).offset,
            final(self).size == old(self).size,
            final(self).quit_times == old(self).quit_times,
            final(self).should_quit == old(self).should_quit,
            final(self).highlighted_word == old(self).highlighted_word,
    {
        if self.should_quit {
            return None;
        }
        let until = self.offset.y.saturating_add(self.size.height as usize);
        self.file.highlight(&self.highlighted_word, Some(until));
        Some(
            Position {
                x: self.cursor.x.saturating_sub(self.offset.x),
                y: self.cursor.y.saturating_sub(self.offset.y),
            },
        )
    }

    /// The lines of the window, from the top.
    pub fn draw_rows(&self) -> (lines: Vec<String>)
        ensures
            lines.len() == self.size.height,
            forall|i: int|
                0 <= i < lines.len() ==> (#[trigger] lines[i])@ == frame_line(
                    self.file.rows(),
                    self.offset,
                    self.size,
                    i,
                ),
    {
        let height = self.size.height as usize;
        let empty = self.file.is_empty();
        let mut lines: Vec<String> = Vec::new();
        let mut line: usize = 0;
        while line < height
            invariant
                line <= height == self.size.height,
                lines.len() == line,
                empty == (self.file.rows().len() == 0),
                forall|i: int|
                    0 <= i < line ==> (#[trigger] lines[i])@ == frame_line(
                        self.file.rows(),
                        self.offset,
                        self.size,
                        i,
                    ),
            decreases height - line,
        {
            let y = self.offset.y.saturating_add(line);
            let count = self.file.len();
            let text = if y < count {
                self.draw_row(y)
            } else if empty && line == height / 3 {
                self.draw_welcome_message()
            } else {
                proof {
                    reveal_strlit("~");
                    assert("~"@ =~= seq!['~']);
                }
                String::from_str("~")
            };
            lines.push(text);
            line += 1;
        }
        lines
    }

    /// Row `y` of the buffer as the window shows it, or nothing where the
    /// buffer has no such row.
    pub fn draw_row(&self, y: usize) -> (line: String)
        ensures
            line@ == if y < self.file.rows().len() {
                render_text(
                    self.file.rows()[y as int].text,
                    self.file.rows()[y as int].classes,
                    self.offset.x as int,
                    capped(self.offset.x + self.size.width),
                )
            } else {
                Seq::empty()
            },
    {
        let end = self.offset.x.saturating_add(self.size.width as usize);
        match self.file.row(y) {
            Some(row) => row.render(self.offset.x, end),
            None => String::new(),
        }
    }

    /// The welcome line.
    pub fn draw_welcome_message(&self) -> (line: String)
        ensures
            line@ == welcome_text(self.size.width as int),
    {
        welcome_line(self.size.width as usize)
    }

    /// The status bar.
    pub fn draw_status_bar(&self) -> (line: String)
        ensures
            line@ == status_text(
                status_left(
                    self.file.name(),
                    self.file.rows().len(),
                    self.file.modified(),
                ),
                status_right(
                    self.file.kind(),
                    self.cursor.y as nat,
                    self.file.rows().len(),
                ),
                self.size.width as int,
            ),
    {
        status_line(
            self.file.name_of_file(),
            self.file.num_rows(),
            self.file.is_dirty(),
            self.file.file_type(),
            self.cursor.y,
            self.size.width as usize,
        )
    }

    /// The message bar. `shown` says whether the message is still to be
    /// shown.
    pub fn draw_message_bar(&self, text: &str, shown: bool) -> (line: String)
        ensures
            line@ == message_text(text@, self.size.width as int, shown),
    {
        message_line(text, self.size.width as usize, shown)
    }

    /// Moves the window so that it holds the caret.
    pub fn scroll(&mut self)
        ensures
            final(self).offset == scrolled_offset(
                old(self).cursor,
                old(self).offset,
                old(self).size,
            ),
            final(self).cursor == old(self).cursor,
            final(self).size == old(self).size,
            final(self).file == old(self).file,
            final(self).quit_times == old(self).quit_times,
            final(self).should_quit == old(self).should_quit,
            final(self).highlighted_word == old(self).highlighted_word,
    {
        let y = follow(self.cursor.y, self.offset.y, self.size.height);
        let x = follow(self.cursor.x, self.offset.x, self.size.width);
        self.offset = Position { x, y };
    }
}

} // verus!
