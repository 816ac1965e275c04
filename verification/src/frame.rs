//! The lines of text that make up a frame besides the rows of the buffer: the
//! welcome line, the status bar and the message bar.

use crate::file::{file_type_name, FileType};
use crate::highlight::digit_char;
use crate::text::{chars_to_string, to_chars};
use vstd::prelude::*;
use vstd::string::{StrSliceExecFns, StringExecFns};

verus! {

/// `n` in decimal.
pub open spec fn decimal_digits(n: nat) -> Seq<char>
    decreases n,
{
    if n < 10 {
        seq![digit_char(n as int)]
    } else {
        decimal_digits(n / 10).push(digit_char((n % 10) as int))
    }
}

/// `count` spaces; none where `count` is not positive.
pub open spec fn blanks(count: int) -> Seq<char> {
    Seq::new(
        if count > 0 {
            count as nat
        } else {
            0
        },
        |i: int| ' ',
    )
}

/// `text` cut to its first `width` characters.
pub open spec fn cut(text: Seq<char>, width: int) -> Seq<char> {
    if 0 <= width < text.len() {
        text.take(width)
    } else {
        text
    }
}

/// The line that greets the user in an empty buffer.
pub open spec fn welcome_title() -> Seq<char> {
    "Hecto editor -- version 0.1.0\r"@
}

/// The welcome line in a window `width` cells wide: a tilde, the title moved
/// towards the middle, cut to the window.
pub open spec fn welcome_text(width: int) -> Seq<char> {
    let title = welcome_title();
    let padding = if width > title.len() {
        (width - title.len()) / 2
    } else {
        0
    };
    cut(seq!['~'] + blanks(padding - 1) + title, width)
}

/// The name shown for a buffer.
pub open spec fn shown_name(name: Option<Seq<char>>) -> Seq<char> {
    match name {
        Some(n) => n,
        None => "[No name]"@,
    }
}

/// The name shown for a file type.
pub open spec fn shown_type(kind: Option<FileType>) -> Seq<char> {
    match kind {
        Some(t) => file_type_name(t),
        None => "no ft"@,
    }
}

/// The left part of the status bar: the name of the buffer, the number of
/// its rows, and whether it has changes.
pub open spec fn status_left(name: Option<Seq<char>>, rows: nat, modified: bool) -> Seq<char> {
    shown_name(name) + " - "@ + decimal_digits(rows) + " lines "@ + (if modified {
        "(modified)"@
    } else {
        Seq::empty()
    })
}

/// The right part of the status bar: the file type, the row of the caret and
/// the number of rows.
pub open spec fn status_right(kind: Option<FileType>, row: nat, rows: nat) -> Seq<char> {
    shown_type(kind) + " | "@ + decimal_digits(row) + seq!['/'] + decimal_digits(rows) + seq![' ']
}

/// The status bar in a window `width` cells wide: the two parts with spaces
/// between them, one less than would fill the width, cut to the window.
pub open spec fn status_text(left: Seq<char>, right: Seq<char>, width: int) -> Seq<char> {
    cut(left + blanks(width - right.len() - left.len() - 1) + right, width)
}

/// The message bar: the message cut to the window while it is shown, and
/// nothing afterwards.
pub open spec fn message_text(text: Seq<char>, width: int, shown: bool) -> Seq<char> {
    if shown {
        cut(text, width)
    } else {
        Seq::empty()
    }
}

/// The decimal digit `d`.
fn digit_of(d: u8) -> (c: char)
    requires
        d < 10,
    ensures
        c == digit_char(d as int),
{
    (48 + d) as char
}

/// Appends `n` in decimal to `out`.
pub fn push_decimal(out: &mut String, n: usize)
    ensures
        final(out)@ == old(out)@ + decimal_digits(n as nat),
    decreases n,
{
    if n >= 10 {
        push_decimal(out, n / 10);
        out.push(digit_of((n % 10) as u8));
        assert(out@ =~= old(out)@ + decimal_digits(n as nat));
    } else {
        out.push(digit_of(n as u8));
        assert(out@ =~= old(out)@ + decimal_digits(n as nat));
    }
}

/// Appends `count` spaces to `out`.
pub fn push_blanks(out: &mut String, count: usize)
    ensures
        final(out)@ == old(out)@ + blanks(count as int),
{
    let mut i: usize = 0;
    while i < count
        invariant
            i <= count,
            out@ == old(out)@ + blanks(i as int),
        decreases count - i,
    {
        out.push(' ');
        i += 1;
        assert(out@ =~= old(out)@ + blanks(i as int));
    }
    assert(out@ =~= old(out)@ + blanks(count as int));
}

/// `text` cut to its first `width` characters.
pub fn cut_to(text: String, width: usize) -> (out: String)
    ensures
        out@ == cut(text@, width as int),
{
    let chars = to_chars(text.as_str());
    if width < chars.len() {
        let out = chars_to_string(&chars, 0, width);
        assert(out@ =~= text@.take(width as int));
        out
    } else {
        text
    }
}

/// The welcome line for a window `width` cells wide.
pub fn welcome_line(width: usize) -> (line: String)
    ensures
        line@ == welcome_text(width as int),
{
    let title = "Hecto editor -- version 0.1.0\r";
    let len = title.unicode_len();
    let padding = width.saturating_sub(len) / 2;
    let mut line = String::from_str("~");
    proof {
        reveal_strlit("~");
        assert("~"@ =~= seq!['~']);
    }
    push_blanks(&mut line, padding.saturating_sub(1));
    line.append(title);
    cut_to(line, width)
}

/// The status bar for a window `width` cells wide.
pub fn status_line(
    name: Option<&str>,
    rows: usize,
    modified: bool,
    kind: Option<FileType>,
    row: usize,
    width: usize,
) -> (line: String)
    ensures
        line@ == status_text(
            status_left(
                match name {
                    Some(n) => Some(n@),
                    None => None,
                },
                rows as nat,
                modified,
            ),
            status_right(kind, row as nat, rows as nat),
            width as int,
        ),
{
    let mut left = String::from_str(
        match name {
            Some(n) => n,
            None => "[No name]",
        },
    );
    left.append(" - ");
    push_decimal(&mut left, rows);
    left.append(" lines ");
    if modified {
        left.append("(modified)");
    }
    let mut right = String::from_str(
        match kind {
            Some(t) => t.to_enum_str(),
            None => "no ft",
        },
    );
    right.append(" | ");
    push_decimal(&mut right, row);
    right.push('/');
    push_decimal(&mut right, rows);
    right.push(' ');
    proof {
        let name_text = match name {
            Some(n) => Some(n@),
            None => None,
        };
        assert(left@ =~= status_left(name_text, rows as nat, modified));
        assert(right@ =~= status_right(kind, row as nat, rows as nat));
    }
    let left_len = left.as_str().unicode_len();
    let right_len = right.as_str().unicode_len();
    let padding = width.saturating_sub(right_len).saturating_sub(left_len).saturating_sub(1);
    assert(blanks(padding as int) =~= blanks(width - right_len - left_len - 1));
    let mut line = left;
    push_blanks(&mut line, padding);
    line.append(right.as_str());
    cut_to(line, width)
}

/// The message bar for a window `width` cells wide. `shown` says whether the
/// message is still to be shown.
pub fn message_line(text: &str, width: usize, shown: bool) -> (line: String)
    ensures
        line@ == message_text(text@, width as int, shown),
{
    if shown {
        cut_to(String::from_str(text), width)
    } else {
        String::new()
    }
}

} // verus!
