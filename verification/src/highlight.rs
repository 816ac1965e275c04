//! Highlight classes and the colours they are drawn in.

use vstd::prelude::*;

verus! {

/// The class that the highlighter gives to one character position.
#[derive(PartialEq, Eq, Structural, Clone, Copy, Debug)]
pub enum Highlight {
    Plain,
    Normal,
    String,
    Character,
    Comment,
    MlComment,
    Keyword1,
    Keyword2,
    Number,
    Match,
    Caps,
}

/// A colour by its red, green and blue parts.
#[derive(PartialEq, Eq, Structural, Clone, Copy, Debug)]
pub struct Rgb(pub u8, pub u8, pub u8);

/// The colour of each class. Both kinds of comment share one colour, and every
/// class without a colour of its own is drawn in the default text colour.
pub open spec fn true_color(class: Highlight) -> Rgb {
    match class {
        Highlight::Number => Rgb(237, 21, 21),
        Highlight::Match => Rgb(68, 133, 58),
        Highlight::String => Rgb(246, 116, 0),
        Highlight::Character => Rgb(29, 153, 243),
        Highlight::Comment => Rgb(61, 174, 233),
        Highlight::MlComment => Rgb(61, 174, 233),
        Highlight::Keyword1 => Rgb(155, 89, 182),
        Highlight::Keyword2 => Rgb(253, 188, 75),
        _ => Rgb(23, 168, 139),
    }
}

/// The decimal digit `d`, for `d` below ten.
pub open spec fn digit_char(d: int) -> char {
    (48 + d) as char
}

/// `n` in decimal, without leading zeros.
pub open spec fn decimal(n: u8) -> Seq<char> {
    if n < 10 {
        seq![digit_char(n as int)]
    } else if n < 100 {
        seq![digit_char(n as int / 10), digit_char(n as int % 10)]
    } else {
        seq![digit_char(n as int / 100), digit_char(n as int / 10 % 10), digit_char(n as int % 10)]
    }
}

/// The control sequence that sets the foreground to `color`:
/// `ESC [ 38 ; 2 ; r ; g ; b m`.
pub open spec fn fg_sequence(color: Rgb) -> Seq<char> {
    seq!['\u{1b}', '[', '3', '8', ';', '2', ';'] + decimal(color.0) + seq![';'] + decimal(color.1)
        + seq![';'] + decimal(color.2) + seq!['m']
}

/// The control sequence that puts the foreground back to the terminal's
/// default: `ESC [ 39 m`.
pub open spec fn fg_reset_sequence() -> Seq<char> {
    seq!['\u{1b}', '[', '3', '9', 'm']
}

impl Highlight {
    /// The colour this class is drawn in.
    pub fn to_true_color(self) -> (color: Rgb)
        ensures
            color == true_color(self),
    {
        match self {
            Highlight::Number => Rgb(237, 21, 21),
            Highlight::Match => Rgb(68, 133, 58),
            Highlight::String => Rgb(246, 116, 0),
            Highlight::Character => Rgb(29, 153, 243),
            Highlight::Comment | Highlight::MlComment => Rgb(61, 174, 233),
            Highlight::Keyword1 => Rgb(155, 89, 182),
            Highlight::Keyword2 => Rgb(253, 188, 75),
            _ => Rgb(23, 168, 139),
        }
    }
}

/// Formats `termion::color::Fg` of a `termion::color::Rgb`.
///
/// Trusted: termion writes the prefix `ESC [ 38 ; 2 ;`, the three parts in
/// decimal with `;` between them, and `m`.
#[verifier::external_body]
pub(crate) fn fg_escape(color: Rgb) -> (out: String)
    ensures
        out@ == fg_sequence(color),
{
    format!("{}", termion::color::Fg(termion::color::Rgb(color.0, color.1, color.2)))
}

/// Formats `termion::color::Fg` of `termion::color::Reset`.
///
/// Trusted: termion writes the constant `ESC [ 39 m`.
#[verifier::external_body]
pub(crate) fn fg_reset_escape() -> (out: String)
    ensures
        out@ == fg_reset_sequence(),
{
    format!("{}", termion::color::Fg(termion::color::Reset))
}

} // verus!
