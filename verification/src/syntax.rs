//! The lexical highlighter: one pass over the characters of a row that gives
//! each position a class.

use crate::file::{HighlightOptions, Syntax};
use crate::highlight::Highlight;
use crate::text::to_char_lists;
use vstd::prelude::*;

verus! {

/// Control characters: the code points U+0000 to U+001F and U+007F to U+009F.
pub open spec fn is_control(c: char) -> bool {
    c as u32 <= 0x1f || 0x7f <= c as u32 <= 0x9f
}

/// Characters with the Unicode property White_Space.
pub open spec fn is_whitespace(c: char) -> bool {
    let n = c as u32;
    ||| 0x09 <= n <= 0x0d
    ||| n == 0x20
    ||| n == 0x85
    ||| n == 0xa0
    ||| n == 0x1680
    ||| 0x2000 <= n <= 0x200a
    ||| n == 0x2028
    ||| n == 0x2029
    ||| n == 0x202f
    ||| n == 0x205f
    ||| n == 0x3000
}

/// The punctuation that bounds a token.
pub open spec fn is_punctuation(c: char) -> bool {
    ||| c == ';'
    ||| c == '{'
    ||| c == '}'
    ||| c == '<'
    ||| c == '>'
    ||| c == '('
    ||| c == ')'
    ||| c == '['
    ||| c == ']'
    ||| c == ','
    ||| c == '.'
    ||| c == '+'
    ||| c == '-'
    ||| c == '/'
    ||| c == '*'
    ||| c == '='
    ||| c == '%'
}

/// Characters that bound keywords and numbers: white space, control
/// characters and punctuation.
pub open spec fn is_separator(c: char) -> bool {
    is_control(c) || is_whitespace(c) || is_punctuation(c)
}

/// The digits `0` to `9`.
pub open spec fn is_ascii_digit(c: char) -> bool {
    '0' as u32 <= c as u32 <= '9' as u32
}

/// `a` stands at `at` and `b` right after it.
pub open spec fn pair_at(cs: Seq<char>, at: int, a: char, b: char) -> bool {
    0 <= at && at + 1 < cs.len() && cs[at] == a && cs[at + 1] == b
}

/// The first position at or after `from` that holds the `/` of a `*/`.
pub open spec fn comment_close(cs: Seq<char>, from: int) -> Option<int>
    decreases cs.len() - from,
{
    if from < 1 || from >= cs.len() {
        None
    } else if cs[from - 1] == '*' && cs[from] == '/' {
        Some(from)
    } else {
        comment_close(cs, from + 1)
    }
}

/// The first position at or after `from` that holds `c`.
pub open spec fn next_char(cs: Seq<char>, c: char, from: int) -> Option<int>
    decreases cs.len() - from,
{
    if from < 0 || from >= cs.len() {
        None
    } else if cs[from] == c {
        Some(from)
    } else {
        next_char(cs, c, from + 1)
    }
}

/// Where the run of digits that starts at `from` ends: the first position at
/// or after `from` that holds no digit, or the end of the row.
pub open spec fn digits_end(cs: Seq<char>, from: int) -> int
    decreases cs.len() - from,
{
    if from < 0 || from >= cs.len() || !is_ascii_digit(cs[from]) {
        from
    } else {
        digits_end(cs, from + 1)
    }
}

/// Where the word that starts at `from` ends: the first position at or after
/// `from` that holds a separator, or the end of the row.
pub open spec fn word_end(cs: Seq<char>, from: int) -> int
    decreases cs.len() - from,
{
    if from < 0 || from >= cs.len() || is_separator(cs[from]) {
        from
    } else {
        word_end(cs, from + 1)
    }
}

/// One step of the highlighter: the positions up to `end` are classified, the
/// first as `head` and the others as `body`. `open` says that the row ends
/// inside a multiline comment that this step did not see closed.
pub struct Token {
    pub end: int,
    pub head: Highlight,
    pub body: Highlight,
    pub open: bool,
}

/// A multiline comment that runs from the scan position through the first
/// `*/` whose `/` stands at or after `from`, or to the end of the row.
pub open spec fn comment_token(cs: Seq<char>, from: int) -> Token {
    match comment_close(cs, from) {
        Some(close) => Token {
            end: close + 1,
            head: Highlight::MlComment,
            body: Highlight::MlComment,
            open: false,
        },
        None => Token {
            end: cs.len() as int,
            head: Highlight::MlComment,
            body: Highlight::MlComment,
            open: true,
        },
    }
}

/// The run of digits after the separator at `at` is a number: it ends at a
/// separator, or it is not empty and ends the row.
pub open spec fn number_follows(cs: Seq<char>, at: int) -> bool {
    let end = digits_end(cs, at + 1);
    if end < cs.len() {
        is_separator(cs[end])
    } else {
        end > at + 1
    }
}

/// The word that follows the separator at `at`.
pub open spec fn word_after(cs: Seq<char>, at: int) -> Seq<char> {
    cs.subrange(at + 1, word_end(cs, at + 1))
}

/// The step taken at a separator: the separator itself is plain, and what
/// follows it is a number, a primary keyword, a secondary keyword, or nothing.
pub open spec fn separator_token(cs: Seq<char>, o: Syntax, at: int) -> Token {
    let word = word_after(cs, at);
    if o.numbers && number_follows(cs, at) {
        Token {
            end: digits_end(cs, at + 1),
            head: Highlight::Plain,
            body: Highlight::Number,
            open: false,
        }
    } else if o.primary.contains(word) {
        Token {
            end: word_end(cs, at + 1),
            head: Highlight::Plain,
            body: Highlight::Keyword1,
            open: false,
        }
    } else if o.secondary.contains(word) {
        Token {
            end: word_end(cs, at + 1),
            head: Highlight::Plain,
            body: Highlight::Keyword2,
            open: false,
        }
    } else {
        Token { end: at + 1, head: Highlight::Plain, body: Highlight::Plain, open: false }
    }
}

/// A literal between two `quote` characters, the first of them at `at`.
pub open spec fn quoted_at(cs: Seq<char>, at: int, quote: char) -> bool {
    cs[at] == quote && next_char(cs, quote, at + 1) is Some
}

/// The step taken at position `at`, by the first rule that applies: inside a
/// multiline comment; at the opening of one; at a line comment; at a string;
/// at a character literal; at a separator; and else one plain character.
pub open spec fn token_at(cs: Seq<char>, o: Syntax, at: int, in_comment: bool) -> Token {
    if o.multiline_comments && in_comment {
        comment_token(cs, at + 1)
    } else if o.multiline_comments && pair_at(cs, at, '/', '*') {
        comment_token(cs, at + 2)
    } else if o.comments && pair_at(cs, at, '/', '/') {
        Token {
            end: cs.len() as int,
            head: Highlight::Comment,
            body: Highlight::Comment,
            open: false,
        }
    } else if o.strings && quoted_at(cs, at, '"') {
        Token {
            end: next_char(cs, '"', at + 1)->0 + 1,
            head: Highlight::String,
            body: Highlight::String,
            open: false,
        }
    } else if o.characters && quoted_at(cs, at, '\'') {
        Token {
            end: next_char(cs, '\'', at + 1)->0 + 1,
            head: Highlight::Character,
            body: Highlight::Character,
            open: false,
        }
    } else if is_separator(cs[at]) {
        separator_token(cs, o, at)
    } else {
        Token { end: at + 1, head: Highlight::Plain, body: Highlight::Plain, open: false }
    }
}

/// The classes that a step taken at `at` gives.
pub open spec fn token_classes(t: Token, at: int) -> Seq<Highlight> {
    Seq::new(
        (t.end - at) as nat,
        |k: int|
            if k == 0 {
                t.head
            } else {
                t.body
            },
    )
}

/// The classes of the positions from `at` on, and whether the row ends inside
/// a multiline comment. `in_comment` says whether position `at` lies inside a
/// multiline comment that an earlier row opened.
pub open spec fn scan(cs: Seq<char>, o: Syntax, at: int, in_comment: bool) -> (
    Seq<Highlight>,
    bool,
)
    decreases cs.len() - at,
    via scan_decreases
{
    if at < 0 || at >= cs.len() {
        (Seq::empty(), in_comment && o.multiline_comments)
    } else {
        let t = token_at(cs, o, at, in_comment);
        if t.open {
            (token_classes(t, at), true)
        } else {
            let rest = scan(cs, o, t.end, false);
            (token_classes(t, at) + rest.0, rest.1)
        }
    }
}

#[via_fn]
proof fn scan_decreases(cs: Seq<char>, o: Syntax, at: int, in_comment: bool) {
    if 0 <= at < cs.len() {
        lemma_token_bounds(cs, o, at, in_comment);
    }
}

pub proof fn lemma_comment_close_bounds(cs: Seq<char>, from: int)
    ensures
        match comment_close(cs, from) {
            Some(n) => from <= n < cs.len(),
            None => true,
        },
    decreases cs.len() - from,
{
    if 1 <= from < cs.len() && !(cs[from - 1] == '*' && cs[from] == '/') {
        lemma_comment_close_bounds(cs, from + 1);
    }
}

pub proof fn lemma_next_char_bounds(cs: Seq<char>, c: char, from: int)
    ensures
        match next_char(cs, c, from) {
            Some(n) => from <= n < cs.len() && cs[n] == c,
            None => true,
        },
    decreases cs.len() - from,
{
    if 0 <= from < cs.len() && cs[from] != c {
        lemma_next_char_bounds(cs, c, from + 1);
    }
}

pub proof fn lemma_digits_end_bounds(cs: Seq<char>, from: int)
    requires
        0 <= from <= cs.len(),
    ensures
        from <= digits_end(cs, from) <= cs.len(),
    decreases cs.len() - from,
{
    if from < cs.len() && is_ascii_digit(cs[from]) {
        lemma_digits_end_bounds(cs, from + 1);
    }
}

pub proof fn lemma_word_end_bounds(cs: Seq<char>, from: int)
    requires
        0 <= from <= cs.len(),
    ensures
        from <= word_end(cs, from) <= cs.len(),
    decreases cs.len() - from,
{
    if from < cs.len() && !is_separator(cs[from]) {
        lemma_word_end_bounds(cs, from + 1);
    }
}

/// Every step classifies at least the position it is taken at, and none
/// beyond the row.
pub proof fn lemma_token_bounds(cs: Seq<char>, o: Syntax, at: int, in_comment: bool)
    requires
        0 <= at < cs.len(),
    ensures
        at < token_at(cs, o, at, in_comment).end <= cs.len(),
{
    lemma_comment_close_bounds(cs, at + 1);
    lemma_comment_close_bounds(cs, at + 2);
    lemma_next_char_bounds(cs, '"', at + 1);
    lemma_next_char_bounds(cs, '\'', at + 1);
    lemma_digits_end_bounds(cs, at + 1);
    lemma_word_end_bounds(cs, at + 1);
}

/// The highlighter gives every position of the row one class.
pub proof fn lemma_scan_len(cs: Seq<char>, o: Syntax, at: int, in_comment: bool)
    requires
        0 <= at <= cs.len(),
    ensures
        scan(cs, o, at, in_comment).0.len() == cs.len() - at,
    decreases cs.len() - at,
{
    if at < cs.len() {
        lemma_token_bounds(cs, o, at, in_comment);
        let t = token_at(cs, o, at, in_comment);
        if !t.open {
            lemma_scan_len(cs, o, t.end, false);
        }
    }
}

/// `count` positions of one class.
pub open spec fn run_of(class: Highlight, count: int) -> Seq<Highlight> {
    Seq::new(count as nat, |i: int| class)
}

/// A row that starts inside a multiline comment is comment through the first
/// `*/`; what follows is classified as the highlighter classifies from there
/// on outside a comment. Without a `*/` the whole row is comment, and it ends
/// inside the comment.
pub proof fn lemma_comment_carries_over(cs: Seq<char>, o: Syntax)
    requires
        o.multiline_comments,
        cs.len() > 0,
    ensures
        match comment_close(cs, 1) {
            Some(close) => {
                &&& scan(cs, o, 0, true).0 == run_of(Highlight::MlComment, close + 1) + scan(
                    cs,
                    o,
                    close + 1,
                    false,
                ).0
                &&& scan(cs, o, 0, true).1 == scan(cs, o, close + 1, false).1
            },
            None => scan(cs, o, 0, true) == (run_of(Highlight::MlComment, cs.len() as int), true),
        },
{
    lemma_comment_close_bounds(cs, 1);
    let t = token_at(cs, o, 0, true);
    assert(token_classes(t, 0) =~= run_of(Highlight::MlComment, t.end));
}

/// A multiline comment that is opened and not closed in its row takes the
/// rest of the row, and the row ends inside it.
pub proof fn lemma_open_comment_runs_on(cs: Seq<char>, o: Syntax, at: int)
    requires
        o.multiline_comments,
        pair_at(cs, at, '/', '*'),
        comment_close(cs, at + 2) is None,
    ensures
        scan(cs, o, at, false) == (run_of(Highlight::MlComment, cs.len() - at), true),
{
    let t = token_at(cs, o, at, false);
    assert(token_classes(t, at) =~= run_of(Highlight::MlComment, cs.len() - at));
}

/// What follows a separator is marked as a keyword only where the whole word
/// up to the next separator is in the list: as a primary keyword where it is
/// in the primary list, and as a secondary one where it is in the secondary
/// list alone. A word in neither list is no keyword.
pub proof fn lemma_keyword_is_whole_word(cs: Seq<char>, o: Syntax, at: int)
    ensures
        separator_token(cs, o, at).body == Highlight::Keyword1 ==> o.primary.contains(
            word_after(cs, at),
        ) && separator_token(cs, o, at).end == word_end(cs, at + 1),
        separator_token(cs, o, at).body == Highlight::Keyword2 ==> o.secondary.contains(
            word_after(cs, at),
        ) && !o.primary.contains(word_after(cs, at)) && separator_token(cs, o, at).end
            == word_end(cs, at + 1),
        !(o.numbers && number_follows(cs, at)) && o.primary.contains(word_after(cs, at))
            ==> separator_token(cs, o, at).body == Highlight::Keyword1,
        separator_token(cs, o, at).head == Highlight::Plain,
{
}

/// Whether `c` bounds keywords and numbers.
pub fn is_separator_char(c: char) -> (b: bool)
    ensures
        b == is_separator(c),
{
    let n: u32 = c as u32;
    let control = n <= 0x1f || (0x7f <= n && n <= 0x9f);
    let space = (0x09 <= n && n <= 0x0d) || n == 0x20 || n == 0x85 || n == 0xa0 || n == 0x1680 || (
    0x2000 <= n && n <= 0x200a) || n == 0x2028 || n == 0x2029 || n == 0x202f || n == 0x205f || n
        == 0x3000;
    let punctuation = c == ';' || c == '{' || c == '}' || c == '<' || c == '>' || c == '(' || c
        == ')' || c == '[' || c == ']' || c == ',' || c == '.' || c == '+' || c == '-' || c == '/'
        || c == '*' || c == '=' || c == '%';
    control || space || punctuation
}

/// Whether `c` is a control character.
pub fn is_control_char(c: char) -> (b: bool)
    ensures
        b == is_control(c),
{
    let n: u32 = c as u32;
    n <= 0x1f || (0x7f <= n && n <= 0x9f)
}

/// Whether `c` is one of the digits `0` to `9`.
pub fn is_digit_char(c: char) -> (b: bool)
    ensures
        b == is_ascii_digit(c),
{
    let n: u32 = c as u32;
    '0' as u32 <= n && n <= '9' as u32
}

/// One step of the highlighter, as the scanner computes it.
pub struct Lexeme {
    pub end: usize,
    pub head: Highlight,
    pub body: Highlight,
    pub open: bool,
}

impl View for Lexeme {
    type V = Token;

    open spec fn view(&self) -> Token {
        Token { end: self.end as int, head: self.head, body: self.body, open: self.open }
    }
}

fn find_comment_close(chars: &Vec<char>, from: usize) -> (found: Option<usize>)
    requires
        1 <= from,
    ensures
        match found {
            Some(n) => n < chars.len() && comment_close(chars@, from as int) == Some(n as int),
            None => comment_close(chars@, from as int) is None,
        },
{
    let mut n: usize = from;
    while n < chars.len()
        invariant
            1 <= from <= n,
            comment_close(chars@, from as int) == comment_close(chars@, n as int),
        decreases chars.len() - n,
    {
        if chars[n - 1] == '*' && chars[n] == '/' {
            return Some(n);
        }
        n += 1;
    }
    None
}

fn find_next_char(chars: &Vec<char>, c: char, from: usize) -> (found: Option<usize>)
    ensures
        match found {
            Some(n) => n < chars.len() && next_char(chars@, c, from as int) == Some(n as int),
            None => next_char(chars@, c, from as int) is None,
        },
{
    let mut n: usize = from;
    while n < chars.len()
        invariant
            from <= n,
            next_char(chars@, c, from as int) == next_char(chars@, c, n as int),
        decreases chars.len() - n,
    {
        if chars[n] == c {
            return Some(n);
        }
        n += 1;
    }
    None
}

fn find_digits_end(chars: &Vec<char>, from: usize) -> (end: usize)
    requires
        from <= chars.len(),
    ensures
        end == digits_end(chars@, from as int),
        from <= end <= chars.len(),
{
    let mut n: usize = from;
    while n < chars.len() && is_digit_char(chars[n])
        invariant
            from <= n <= chars.len(),
            digits_end(chars@, from as int) == digits_end(chars@, n as int),
        decreases chars.len() - n,
    {
        n += 1;
    }
    n
}

fn find_word_end(chars: &Vec<char>, from: usize) -> (end: usize)
    requires
        from <= chars.len(),
    ensures
        end == word_end(chars@, from as int),
        from <= end <= chars.len(),
{
    let mut n: usize = from;
    while n < chars.len() && !is_separator_char(chars[n])
        invariant
            from <= n <= chars.len(),
            word_end(chars@, from as int) == word_end(chars@, n as int),
        decreases chars.len() - n,
    {
        n += 1;
    }
    n
}

/// The contents of a list of character vectors.
pub open spec fn words(list: Seq<Vec<char>>) -> Seq<Seq<char>> {
    list.map_values(|w: Vec<char>| w@)
}

/// Whether `chars[from..to]` is one of the words of `list`.
fn contains_word(list: &Vec<Vec<char>>, chars: &Vec<char>, from: usize, to: usize) -> (found: bool)
    requires
        from <= to <= chars.len(),
    ensures
        found == words(list@).contains(chars@.subrange(from as int, to as int)),
{
    let ghost word = chars@.subrange(from as int, to as int);
    let mut i: usize = 0;
    while i < list.len()
        invariant
            i <= list.len(),
            from <= to <= chars.len(),
            word == chars@.subrange(from as int, to as int),
            forall|j: int| 0 <= j < i ==> (#[trigger] words(list@)[j]) != word,
        decreases list.len() - i,
    {
        let entry = &list[i];
        if entry.len() == to - from {
            let mut k: usize = 0;
            while k < entry.len() && entry[k] == chars[from + k]
                invariant
                    k <= entry.len(),
                    entry.len() == to - from,
                    to <= chars.len(),
                    forall|j: int| 0 <= j < k ==> entry@[j] == chars@[from + j],
                decreases entry.len() - k,
            {
                k += 1;
            }
            if k == entry.len() {
                assert(entry@ =~= word);
                assert(words(list@)[i as int] == word);
                return true;
            }
            assert(entry@[k as int] != word[k as int]);
        }
        assert(words(list@)[i as int] == entry@);
        i += 1;
    }
    false
}

/// The step taken at the separator at `at`.
fn separator_lexeme(
    chars: &Vec<char>,
    opts: &HighlightOptions,
    primary: &Vec<Vec<char>>,
    secondary: &Vec<Vec<char>>,
    at: usize,
) -> (t: Lexeme)
    requires
        at < chars.len(),
        words(primary@) == opts@.primary,
        words(secondary@) == opts@.secondary,
    ensures
        t@ == separator_token(chars@, opts@, at as int),
{
    if opts.numbers {
        let end = find_digits_end(chars, at + 1);
        let bounded = if end < chars.len() {
            is_separator_char(chars[end])
        } else {
            end > at + 1
        };
        if bounded {
            return Lexeme { end, head: Highlight::Plain, body: Highlight::Number, open: false };
        }
    }
    let end = find_word_end(chars, at + 1);
    if contains_word(primary, chars, at + 1, end) {
        Lexeme { end, head: Highlight::Plain, body: Highlight::Keyword1, open: false }
    } else if contains_word(secondary, chars, at + 1, end) {
        Lexeme { end, head: Highlight::Plain, body: Highlight::Keyword2, open: false }
    } else {
        Lexeme { end: at + 1, head: Highlight::Plain, body: Highlight::Plain, open: false }
    }
}

/// The multiline comment that is closed by the first `*/` whose `/` stands at
/// or after `from`, or that runs to the end of the row.
fn comment_lexeme(chars: &Vec<char>, from: usize) -> (t: Lexeme)
    requires
        1 <= from,
    ensures
        t@ == comment_token(chars@, from as int),
{
    match find_comment_close(chars, from) {
        Some(close) => {
            Lexeme {
                end: close + 1,
                head: Highlight::MlComment,
                body: Highlight::MlComment,
                open: false,
            }
        },
        None => Lexeme {
            end: chars.len(),
            head: Highlight::MlComment,
            body: Highlight::MlComment,
            open: true,
        },
    }
}

/// The step taken at position `at`.
fn lexeme_at(
    chars: &Vec<char>,
    opts: &HighlightOptions,
    primary: &Vec<Vec<char>>,
    secondary: &Vec<Vec<char>>,
    at: usize,
    in_comment: bool,
) -> (t: Lexeme)
    requires
        at < chars.len(),
        words(primary@) == opts@.primary,
        words(secondary@) == opts@.secondary,
    ensures
        t@ == token_at(chars@, opts@, at as int, in_comment),
        at < t.end <= chars.len(),
{
    proof {
        lemma_token_bounds(chars@, opts@, at as int, in_comment);
    }
    let c = chars[at];
    let pair = at + 1 < chars.len();
    if opts.multiline_comments && in_comment {
        return comment_lexeme(chars, at + 1);
    }
    if opts.multiline_comments && pair && c == '/' && chars[at + 1] == '*' {
        return comment_lexeme(chars, at + 2);
    }
    if opts.comments && pair && c == '/' && chars[at + 1] == '/' {
        return Lexeme {
            end: chars.len(),
            head: Highlight::Comment,
            body: Highlight::Comment,
            open: false,
        };
    }
    if opts.strings && c == '"' {
        if let Some(close) = find_next_char(chars, '"', at + 1) {
            return Lexeme {
                end: close + 1,
                head: Highlight::String,
                body: Highlight::String,
                open: false,
            };
        }
    }
    if opts.characters && c == '\'' {
        if let Some(close) = find_next_char(chars, '\'', at + 1) {
            return Lexeme {
                end: close + 1,
                head: Highlight::Character,
                body: Highlight::Character,
                open: false,
            };
        }
    }
    if is_separator_char(c) {
        return separator_lexeme(chars, opts, primary, secondary, at);
    }
    Lexeme { end: at + 1, head: Highlight::Plain, body: Highlight::Plain, open: false }
}

/// Classifies every position of `chars`. `in_comment` says whether the row
/// starts inside a multiline comment; the second result says whether it ends
/// inside one.
pub fn tokenize(chars: &Vec<char>, opts: &HighlightOptions, in_comment: bool) -> (out: (
    Vec<Highlight>,
    bool,
))
    ensures
        out.0@ == scan(chars@, opts@, 0, in_comment).0,
        out.1 == scan(chars@, opts@, 0, in_comment).1,
        out.0.len() == chars.len(),
{
    let primary = to_char_lists(&opts.keywords1);
    let secondary = to_char_lists(&opts.keywords2);
    assert(words(primary@) =~= opts@.primary);
    assert(words(secondary@) =~= opts@.secondary);
    proof {
        lemma_scan_len(chars@, opts@, 0, in_comment);
    }
    let mut classes: Vec<Highlight> = Vec::new();
    let mut at: usize = 0;
    let mut inside = in_comment;
    while at < chars.len()
        invariant
            at <= chars.len(),
            classes.len() == at,
            words(primary@) == opts@.primary,
            words(secondary@) == opts@.secondary,
            scan(chars@, opts@, 0, in_comment).0 == classes@ + scan(
                chars@,
                opts@,
                at as int,
                inside,
            ).0,
            scan(chars@, opts@, 0, in_comment).1 == scan(chars@, opts@, at as int, inside).1,
        decreases chars.len() - at,
    {
        let t = lexeme_at(chars, opts, &primary, &secondary, at, inside);
        let ghost before = classes@;
        let ghost start = at;
        classes.push(t.head);
        at += 1;
        while at < t.end
            invariant
                start < at <= t.end <= chars.len(),
                classes.len() == at,
                classes@ == before + token_classes(t@, start as int).take(at - start),
            decreases t.end - at,
        {
            classes.push(t.body);
            at += 1;
        }
        assert(token_classes(t@, start as int).take(at - start) =~= token_classes(
            t@,
            start as int,
        ));
        if t.open {
            assert(classes@ =~= scan(chars@, opts@, 0, in_comment).0);
            return (classes, true);
        }
        inside = false;
        assert(classes@ + scan(chars@, opts@, at as int, false).0 =~= before + (token_classes(
            t@,
            start as int,
        ) + scan(chars@, opts@, at as int, false).0));
    }
    assert(classes@ =~= scan(chars@, opts@, 0, in_comment).0);
    (classes, inside && opts.multiline_comments)
}

} // verus!
