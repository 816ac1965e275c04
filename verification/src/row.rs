//! One line of text, addressed by grapheme cluster, with the highlight
//! classes of its columns.

use crate::editor::SearchDirection;
use crate::file::{HighlightOptions, Syntax};
use crate::grapheme::{
    cluster_count, cluster_of, cluster_start, cluster_starts, clusters, concat_span,
    first_chars, lemma_cluster_of, lemma_cluster_start_grows, lemma_clusters_cut, lemma_span_all,
    lemma_span_join, lemma_span_len, lemma_span_one, locate, span_text, split_clusters,
    symbols, texts,
};
use crate::highlight::{
    fg_escape, fg_reset_escape, fg_reset_sequence, fg_sequence, true_color, Highlight,
};
use crate::search::{
    find_first, find_last, first_match, last_match, lemma_first_match, lemma_last_match,
    occurs_at,
};
use crate::syntax::{scan, tokenize};
use crate::text::to_chars;
use vstd::prelude::*;
use vstd::std_specs::convert::FromSpecImpl;
use vstd::string::StringExecFns;
use vstd::utf8::encode_utf8;

verus! {

/// A line of text. Its length is counted in grapheme clusters and kept beside
/// the text; the classes are those of the last highlight pass.
pub struct Row {
    string: String,
    highlight: Vec<Highlight>,
    is_highlighted: bool,
    len: usize,
}

impl View for Row {
    type V = Seq<char>;

    /// The text of the row.
    closed spec fn view(&self) -> Seq<char> {
        self.string@
    }
}

/// What a row holds: its text, the classes of the last highlight pass, and
/// the mark that says whether they are up to date.
pub struct RowState {
    pub text: Seq<char>,
    pub classes: Seq<Highlight>,
    pub highlighted: bool,
}

/// The empty text has no cluster.
pub proof fn lemma_empty_text()
    ensures
        cluster_count(Seq::<char>::empty()) == 0,
{
    let parts = clusters(Seq::<char>::empty());
    lemma_clusters_cut(Seq::<char>::empty());
    lemma_span_all(parts);
    lemma_span_len(parts, 0, parts.len() as int);
}

/// The text before cluster `at`: the whole text where `at` is beyond it.
pub open spec fn text_before(text: Seq<char>, at: int) -> Seq<char> {
    span_text(clusters(text), 0, at)
}

/// The text from cluster `at` on: empty where `at` is beyond the text.
pub open spec fn text_from(text: Seq<char>, at: int) -> Seq<char> {
    span_text(clusters(text), at, clusters(text).len() as int)
}

/// The text with `c` put in before cluster `at`, or at the end where the text
/// has no cluster `at`.
pub open spec fn text_after_insert(text: Seq<char>, at: int, c: char) -> Seq<char> {
    if at >= cluster_count(text) {
        text.push(c)
    } else {
        text_before(text, at).push(c) + text_from(text, at)
    }
}

/// The text without cluster `at`, or the text itself where it has no cluster
/// `at`.
pub open spec fn text_after_delete(text: Seq<char>, at: int) -> Seq<char> {
    if at >= cluster_count(text) {
        text
    } else {
        text_before(text, at) + text_from(text, at + 1)
    }
}

/// Number of clusters at the start of `parts` that equal `pattern`.
pub open spec fn leading_run(parts: Seq<Seq<char>>, pattern: Seq<char>) -> nat
    decreases parts.len(),
{
    if parts.len() == 0 || parts[0] != pattern {
        0
    } else {
        1 + leading_run(parts.drop_first(), pattern)
    }
}

/// Splitting a text before any column and appending the second part to the
/// first gives the text back, with the number of clusters it had.
pub proof fn lemma_split_then_append(text: Seq<char>, at: int)
    requires
        0 <= at,
    ensures
        text_before(text, at) + text_from(text, at) == text,
        cluster_count(text_before(text, at) + text_from(text, at)) == cluster_count(text),
{
    lemma_text_parts(text, at);
}

/// An insertion makes the text longer by the one character.
pub proof fn lemma_insert_adds_one_character(text: Seq<char>, at: int, c: char)
    requires
        0 <= at,
    ensures
        text_after_insert(text, at, c).len() == text.len() + 1,
{
    lemma_text_parts(text, at);
}

/// A deletion at a column of the text takes away the cluster that stands
/// there, and nothing else.
pub proof fn lemma_delete_takes_one_cluster(text: Seq<char>, at: int)
    requires
        0 <= at < cluster_count(text),
    ensures
        text_before(text, at) + clusters(text)[at] + text_from(text, at + 1) == text,
        text_after_delete(text, at).len() + clusters(text)[at].len() == text.len(),
{
    let parts = clusters(text);
    let n = parts.len() as int;
    lemma_clusters_cut(text);
    lemma_span_all(parts);
    lemma_span_join(parts, 0, at, n);
    lemma_span_join(parts, at, at + 1, n);
    lemma_span_one(parts, at);
    assert(text_before(text, at) + clusters(text)[at] + text_from(text, at + 1) =~= span_text(
        parts,
        0,
        at,
    ) + (span_text(parts, at, at + 1) + span_text(parts, at + 1, n)));
}

/// What lies before a cut and what lies after it make the text again.
proof fn lemma_text_parts(text: Seq<char>, at: int)
    requires
        0 <= at,
    ensures
        text_before(text, at) + text_from(text, at) == text,
{
    let parts = clusters(text);
    let n = parts.len() as int;
    let k = if at > n { n } else { at };
    lemma_clusters_cut(text);
    lemma_span_all(parts);
    lemma_span_join(parts, 0, k, n);
    assert(span_text(parts, 0, at) == span_text(parts, 0, k));
    assert(span_text(parts, at, n) =~= span_text(parts, k, n));
}

/// What a search in one row finds. The search starts at column `at`: forward
/// it takes the leftmost occurrence of `query` that begins at or after that
/// column, backward the rightmost one that ends before it. The result is the
/// column of the cluster in which the occurrence begins. An empty query, or a
/// start beyond the end of the row, finds nothing.
pub open spec fn row_find(
    text: Seq<char>,
    query: Seq<char>,
    at: int,
    direction: SearchDirection,
) -> Option<int> {
    let parts = clusters(text);
    if at < 0 || at > parts.len() || query.len() == 0 {
        None
    } else {
        let edge = cluster_start(parts, at);
        let hit = match direction {
            SearchDirection::Forward => first_match(text, query, edge),
            SearchDirection::Backward => last_match(text, query, edge),
        };
        match hit {
            Some(pos) => Some(cluster_of(parts, pos)),
            None => None,
        }
    }
}

/// `classes` with the positions `from..to` set to `Match`.
pub open spec fn mark_match(classes: Seq<Highlight>, from: int, to: int) -> Seq<Highlight> {
    Seq::new(
        classes.len(),
        |i: int|
            if from <= i < to {
                Highlight::Match
            } else {
                classes[i]
            },
    )
}

/// How far a search that starts at column `from` still has to go.
pub open spec fn columns_left(text: Seq<char>, from: int) -> nat {
    if from > cluster_count(text) {
        0
    } else {
        (cluster_count(text) + 1 - from) as nat
    }
}

/// `classes` with every occurrence of `word` that a forward search finds from
/// column `from` on set to `Match`. Each search starts where the occurrence
/// before it ended, and an occurrence covers as many positions as `word` has
/// clusters.
pub open spec fn overlay_from(
    classes: Seq<Highlight>,
    text: Seq<char>,
    word: Seq<char>,
    from: int,
) -> Seq<Highlight>
    decreases columns_left(text, from),
    via overlay_decreases
{
    match row_find(text, word, from, SearchDirection::Forward) {
        Some(at) => overlay_from(
            mark_match(classes, at, at + cluster_count(word)),
            text,
            word,
            at + cluster_count(word),
        ),
        None => classes,
    }
}

#[via_fn]
proof fn overlay_decreases(classes: Seq<Highlight>, text: Seq<char>, word: Seq<char>, from: int) {
    lemma_find_bounds(text, word, from, SearchDirection::Forward);
}

/// The text of a word to highlight, where there is one.
pub open spec fn word_text(word: Option<String>) -> Option<Seq<char>> {
    match word {
        Some(w) => Some(w@),
        None => None,
    }
}

/// The classes that a highlight pass gives a row, one for each column: those
/// of the scan over the characters that stand for the columns, and on top of
/// them the matches of `word`, whatever was there before.
pub open spec fn highlighted_classes(
    text: Seq<char>,
    o: Syntax,
    word: Option<Seq<char>>,
    in_comment: bool,
) -> Seq<Highlight> {
    let scanned = scan(symbols(text), o, 0, in_comment).0;
    match word {
        Some(w) => overlay_from(scanned, text, w, 0),
        None => scanned,
    }
}

/// The class that column `at` is drawn in: the class at that index, or plain
/// where the classes do not reach so far.
pub open spec fn class_at(classes: Seq<Highlight>, at: int) -> Highlight {
    if 0 <= at < classes.len() {
        classes[at]
    } else {
        Highlight::Plain
    }
}

/// What is drawn for one cluster: a tab becomes one space.
pub open spec fn glyph(cluster: Seq<char>) -> Seq<char> {
    if cluster == seq!['\t'] {
        seq![' ']
    } else {
        cluster
    }
}

/// The clusters `at..end` as they are drawn when the colour in force is that
/// of `current`: a colour sequence wherever the class changes, and the reset
/// sequence at the end.
pub open spec fn render_from(
    parts: Seq<Seq<char>>,
    classes: Seq<Highlight>,
    at: int,
    end: int,
    current: Highlight,
) -> Seq<char>
    decreases end - at,
{
    if at < 0 || at >= end || at >= parts.len() {
        fg_reset_sequence()
    } else {
        let class = class_at(classes, at);
        let color = if class != current {
            fg_sequence(true_color(class))
        } else {
            Seq::empty()
        };
        color + glyph(parts[at]) + render_from(parts, classes, at + 1, end, class)
    }
}

/// The columns `start..end` of a row as they are drawn. A `start` beyond
/// `end` counts as `end`.
pub open spec fn render_text(
    text: Seq<char>,
    classes: Seq<Highlight>,
    start: int,
    end: int,
) -> Seq<char> {
    let first = if start < end {
        start
    } else {
        end
    };
    render_from(clusters(text), classes, first, end, Highlight::Plain)
}

/// Where a search finds something, it is a column of the row; forward it is
/// not before the start column, and backward it is before it. The occurrence
/// also leaves room, from that column on, for as many characters as the query
/// has clusters.
pub proof fn lemma_find_bounds(
    text: Seq<char>,
    query: Seq<char>,
    at: int,
    direction: SearchDirection,
)
    ensures
        match row_find(text, query, at, direction) {
            Some(col) => {
                &&& 0 <= col < cluster_count(text)
                &&& direction == SearchDirection::Forward ==> at <= col
                &&& direction == SearchDirection::Backward ==> col < at
                &&& cluster_count(query) >= 1
                &&& col + cluster_count(query) <= text.len()
            },
            None => true,
        },
{
    let parts = clusters(text);
    let n = parts.len() as int;
    if row_find(text, query, at, direction) is Some {
        lemma_clusters_cut(text);
        lemma_clusters_cut(query);
        lemma_span_all(parts);
        lemma_span_all(clusters(query));
        lemma_span_len(clusters(query), 0, clusters(query).len() as int);
        let edge = cluster_start(parts, at);
        lemma_cluster_start_grows(parts, at, n);
        let pos = match direction {
            SearchDirection::Forward => first_match(text, query, edge)->0,
            SearchDirection::Backward => last_match(text, query, edge)->0,
        };
        lemma_first_match(text, query, edge);
        lemma_last_match(text, query, edge);
        assert(occurs_at(text, query, pos));
        lemma_cluster_of(parts, pos);
        let col = cluster_of(parts, pos);
        lemma_cluster_start_grows(parts, 0, col);
        if direction == SearchDirection::Forward {
            if col < at {
                lemma_cluster_start_grows(parts, col + 1, at);
            }
        } else {
            if col >= at {
                lemma_cluster_start_grows(parts, at, col);
            }
        }
    }
}

/// Marking the matches of a word changes no class but to `Match`, and keeps
/// the number of classes.
pub proof fn lemma_overlay_marks_only(
    classes: Seq<Highlight>,
    text: Seq<char>,
    word: Seq<char>,
    from: int,
)
    ensures
        overlay_from(classes, text, word, from).len() == classes.len(),
        forall|i: int|
            0 <= i < classes.len() ==> {
                let marked = #[trigger] overlay_from(classes, text, word, from)[i];
                marked == Highlight::Match || marked == classes[i]
            },
    decreases columns_left(text, from),
{
    lemma_find_bounds(text, word, from, SearchDirection::Forward);
    match row_find(text, word, from, SearchDirection::Forward) {
        Some(at) => {
            let next = mark_match(classes, at, at + cluster_count(word));
            lemma_overlay_marks_only(next, text, word, at + cluster_count(word));
            assert forall|i: int| 0 <= i < classes.len() implies {
                let marked = #[trigger] overlay_from(classes, text, word, from)[i];
                marked == Highlight::Match || marked == classes[i]
            } by {
                let marked = overlay_from(next, text, word, at + cluster_count(word))[i];
                assert(marked == Highlight::Match || marked == next[i]);
            }
        },
        None => {},
    }
}

/// What `Row::from` returns is said by its own contract: a row has no form
/// that could be written down here.
impl FromSpecImpl<&str> for Row {
    open spec fn obeys_from_spec() -> bool {
        false
    }

    open spec fn from_spec(v: &str) -> Row {
        arbitrary()
    }
}

impl From<&str> for Row {
    /// A row that holds `slice`, not highlighted.
    fn from(slice: &str) -> (row: Row)
        ensures
            row@ == slice@,
            row.kept_len() == cluster_count(slice@),
            row.classes() == Seq::<Highlight>::empty(),
            !row.highlighted(),
    {
        let parts = split_clusters(slice);
        Row {
            string: String::from_str(slice),
            highlight: Vec::new(),
            is_highlighted: false,
            len: parts.len(),
        }
    }
}

impl Default for Row {
    /// The empty row.
    fn default() -> (row: Row)
        ensures
            row@ == Seq::<char>::empty(),
            row.kept_len() == 0,
            row.classes() == Seq::<Highlight>::empty(),
            !row.highlighted(),
    {
        proof {
            lemma_empty_text();
        }
        let text = String::new();
        let parts = split_clusters(text.as_str());
        Row { string: text, highlight: Vec::new(), is_highlighted: false, len: parts.len() }
    }
}

impl Row {
    #[verifier::type_invariant]
    spec fn counted(self) -> bool {
        self.len == cluster_count(self.string@)
    }

    /// The classes that the last highlight pass gave, one for each column
    /// that the row had then.
    pub closed spec fn classes(&self) -> Seq<Highlight> {
        self.highlight@
    }

    /// The mark that says whether the classes are up to date.
    pub closed spec fn highlighted(&self) -> bool {
        self.is_highlighted
    }

    /// The length that the row keeps beside its text.
    pub closed spec fn kept_len(&self) -> nat {
        self.len as nat
    }

    /// All that the row holds.
    pub open spec fn state(&self) -> RowState {
        RowState { text: self@, classes: self.classes(), highlighted: self.highlighted() }
    }

    /// The length of the row, in grapheme clusters.
    pub fn len(&self) -> (n: usize)
        ensures
            n == self.kept_len(),
            n == cluster_count(self@),
    {
        proof {
            use_type_invariant(self);
        }
        self.len
    }

    /// The text of the row as UTF-8.
    pub fn as_bytes(&self) -> (bytes: &[u8])
        ensures
            bytes@ == encode_utf8(self@),
    {
        self.string.as_str().as_bytes()
    }

    /// The text of the row.
    pub fn as_str(&self) -> (text: &str)
        ensures
            text@ == self@,
    {
        self.string.as_str()
    }

    /// The classes of the last highlight pass.
    pub fn highlighting(&self) -> (classes: &Vec<Highlight>)
        ensures
            classes@ == self.classes(),
    {
        &self.highlight
    }

    /// Whether the row is marked as highlighted.
    pub fn is_highlighted(&self) -> (b: bool)
        ensures
            b == self.highlighted(),
    {
        self.is_highlighted
    }

    /// Marks the row as highlighted or not.
    pub fn set_highlighted(&mut self, value: bool)
        ensures
            final(self)@ == old(self)@,
            final(self).kept_len() == old(self).kept_len(),
            final(self).classes() == old(self).classes(),
            final(self).highlighted() == value,
    {
        proof {
            use_type_invariant(&*self);
        }
        self.is_highlighted = value;
    }

    /// Puts `text` in place of the row's text and counts its clusters.
    fn set_text(&mut self, text: String)
        ensures
            final(self)@ == text@,
            final(self).kept_len() == cluster_count(final(self)@),
            final(self).classes() == old(self).classes(),
            final(self).highlighted() == old(self).highlighted(),
    {
        proof {
            use_type_invariant(&*self);
        }
        let parts = split_clusters(text.as_str());
        let mut classes: Vec<Highlight> = Vec::new();
        core::mem::swap(&mut classes, &mut self.highlight);
        *self = Row {
            string: text,
            highlight: classes,
            is_highlighted: self.is_highlighted,
            len: parts.len(),
        };
    }

    /// Inserts `c` before the cluster at column `at`; where the row has no
    /// such column, `c` goes to the end.
    pub fn insert(&mut self, at: usize, c: char)
        ensures
            final(self)@ == text_after_insert(old(self)@, at as int, c),
            final(self)@.len() == old(self)@.len() + 1,
            final(self).kept_len() == cluster_count(final(self)@),
            final(self).classes() == old(self).classes(),
            final(self).highlighted() == old(self).highlighted(),
    {
        proof {
            lemma_insert_adds_one_character(self@, at as int, c);
        }
        let parts = split_clusters(self.string.as_str());
        let mut text: String;
        if at >= parts.len() {
            text = self.string.clone();
            text.push(c);
        } else {
            text = concat_span(&parts, 0, at);
            text.push(c);
            let tail = concat_span(&parts, at, parts.len());
            text.append(tail.as_str());
        }
        self.set_text(text);
    }

    /// Removes the cluster at column `at`; a row without such a column stays
    /// as it is.
    pub fn delete(&mut self, at: usize)
        ensures
            final(self)@ == text_after_delete(old(self)@, at as int),
            at < cluster_count(old(self)@) ==> final(self)@.len() + clusters(old(self)@)[at as int].len()
                == old(self)@.len(),
            final(self).kept_len() == cluster_count(final(self)@),
            final(self).classes() == old(self).classes(),
            final(self).highlighted() == old(self).highlighted(),
    {
        proof {
            use_type_invariant(&*self);
        }
        let parts = split_clusters(self.string.as_str());
        if at >= parts.len() {
            return;
        }
        proof {
            lemma_delete_takes_one_cluster(self@, at as int);
        }
        let mut text = concat_span(&parts, 0, at);
        let tail = concat_span(&parts, at + 1, parts.len());
        text.append(tail.as_str());
        self.set_text(text);
    }

    /// Puts the text of `new` after the row's own.
    pub fn append(&mut self, new: &Self)
        ensures
            final(self)@ == old(self)@ + new@,
            final(self).kept_len() == cluster_count(final(self)@),
            final(self).classes() == old(self).classes(),
            final(self).highlighted() == old(self).highlighted(),
    {
        let mut text = self.string.clone();
        text.append(new.string.as_str());
        self.set_text(text);
    }

    /// Puts `s` before the row's text.
    pub fn prepend_str(&mut self, s: &str)
        ensures
            final(self)@ == s@ + old(self)@,
            final(self).kept_len() == cluster_count(final(self)@),
            final(self).classes() == old(self).classes(),
            final(self).highlighted() == old(self).highlighted(),
    {
        let mut text = String::from_str(s);
        text.append(self.string.as_str());
        self.set_text(text);
    }

    /// Cuts the row before column `at`: the row keeps what stands before it,
    /// and what stands from it on is returned as a row of its own. Neither
    /// row is marked as highlighted afterwards.
    pub fn split(&mut self, at: usize) -> (rest: Self)
        ensures
            final(self)@ == text_before(old(self)@, at as int),
            rest@ == text_from(old(self)@, at as int),
            final(self)@ + rest@ == old(self)@,
            final(self).kept_len() == cluster_count(final(self)@),
            rest.kept_len() == cluster_count(rest@),
            final(self).classes() == old(self).classes(),
            !final(self).highlighted(),
            rest.classes() == Seq::<Highlight>::empty(),
            !rest.highlighted(),
    {
        let parts = split_clusters(self.string.as_str());
        let cut: usize = if at > parts.len() {
            parts.len()
        } else {
            at
        };
        let head = concat_span(&parts, 0, cut);
        let tail = concat_span(&parts, cut, parts.len());
        proof {
            lemma_text_parts(self@, at as int);
            assert(tail@ =~= text_from(self@, at as int));
        }
        let rest = Row::from(tail.as_str());
        self.set_text(head);
        self.set_highlighted(false);
        rest
    }

    /// Number of clusters at the start of the row that equal `s`.
    pub fn get_prefix_len(&self, s: &str) -> (n: usize)
        ensures
            n == leading_run(clusters(self@), s@),
            n <= cluster_count(self@),
    {
        let parts = split_clusters(self.string.as_str());
        let pattern = String::from_str(s);
        let ghost all = texts(parts@);
        let mut n: usize = 0;
        assert(all.skip(0) =~= all);
        while n < parts.len() && parts[n] == pattern
            invariant
                n <= parts.len(),
                all == texts(parts@),
                pattern@ == s@,
                leading_run(all, s@) == n + leading_run(all.skip(n as int), s@),
            decreases parts.len() - n,
        {
            proof {
                let tail = all.skip(n as int);
                assert(tail[0] == parts[n as int]@);
                assert(tail.drop_first() =~= all.skip(n + 1));
            }
            n += 1;
        }
        proof {
            let tail = all.skip(n as int);
            if n < parts.len() {
                assert(tail[0] == parts[n as int]@);
            }
        }
        n
    }

    /// Searches the row for `query` from column `at`: forward for the
    /// leftmost occurrence that begins at or after that column, backward for
    /// the rightmost one that ends before it. The result is the column in
    /// which the occurrence begins.
    pub fn find(&self, query: &str, at: usize, direction: SearchDirection) -> (found: Option<usize>)
        ensures
            match found {
                Some(col) => {
                    &&& row_find(self@, query@, at as int, direction) == Some(col as int)
                    &&& col < cluster_count(self@)
                    &&& direction == SearchDirection::Forward ==> at <= col
                    &&& direction == SearchDirection::Backward ==> col < at
                },
                None => row_find(self@, query@, at as int, direction) is None,
            },
    {
        let chars = to_chars(self.string.as_str());
        let parts = split_clusters(self.string.as_str());
        assert(texts(parts@).flatten().len() == chars.len());
        let starts = cluster_starts(&parts);
        let needle = to_chars(query);
        proof {
            lemma_find_bounds(self@, query@, at as int, direction);
        }
        find_in(&chars, &parts, &starts, &needle, at, direction)
    }

    /// Classifies the columns of the row and marks the occurrences of
    /// `word`. `start_with_comment` says whether the row before ended inside
    /// a multiline comment; the result says whether this row does.
    pub fn highlight(
        &mut self,
        hl: &HighlightOptions,
        word: &Option<String>,
        start_with_comment: bool,
    ) -> (open: bool)
        ensures
            final(self)@ == old(self)@,
            final(self).kept_len() == old(self).kept_len(),
            final(self).highlighted() == old(self).highlighted(),
            open == scan(symbols(old(self)@), hl@, 0, start_with_comment).1,
            final(self).classes() == highlighted_classes(
                old(self)@,
                hl@,
                word_text(*word),
                start_with_comment,
            ),
            final(self).classes().len() == cluster_count(old(self)@),
    {
        proof {
            use_type_invariant(&*self);
            lemma_overlay_marks_only(
                scan(symbols(self@), hl@, 0, start_with_comment).0,
                self@,
                match word_text(*word) {
                    Some(w) => w,
                    None => Seq::empty(),
                },
                0,
            );
        }
        let parts = split_clusters(self.string.as_str());
        let columns = first_chars(&parts);
        let (mut classes, open) = tokenize(&columns, hl, start_with_comment);
        if let Some(w) = word {
            let chars = to_chars(self.string.as_str());
            assert(texts(parts@).flatten().len() == chars.len());
            let starts = cluster_starts(&parts);
            highlight_match(&mut classes, &chars, &parts, &starts, w.as_str());
        }
        self.highlight = classes;
        open
    }

    /// Draws the columns `start..end` of the row: the clusters, with a tab as
    /// one space, a colour sequence before each cluster whose class differs
    /// from that of the cluster before it, and the reset sequence at the end.
    pub fn render(&self, start: usize, end: usize) -> (out: String)
        ensures
            out@ == render_text(self@, self.classes(), start as int, end as int),
    {
        let parts = split_clusters(self.string.as_str());
        let tab = String::from_str("\t");
        proof {
            reveal_strlit("\t");
            assert(tab@ =~= seq!['\t']);
        }
        let first: usize = if start < end {
            start
        } else {
            end
        };
        let ghost all = texts(parts@);
        let ghost whole = render_from(all, self.classes(), first as int, end as int, Highlight::Plain);
        let mut out = String::new();
        let mut current = Highlight::Plain;
        let mut at: usize = first;
        assert(out@ + whole =~= whole);
        while at < end && at < parts.len()
            invariant
                first <= at,
                all == texts(parts@),
                tab@ == seq!['\t'],
                whole == out@ + render_from(all, self.classes(), at as int, end as int, current),
            decreases parts.len() - at,
        {
            let ghost before = out@;
            let class = if at < self.highlight.len() {
                self.highlight[at]
            } else {
                Highlight::Plain
            };
            if class != current {
                let color = fg_escape(class.to_true_color());
                out.append(color.as_str());
            }
            if parts[at] == tab {
                out.push(' ');
            } else {
                out.append(parts[at].as_str());
            }
            proof {
                let color = if class != current {
                    fg_sequence(true_color(class))
                } else {
                    Seq::empty()
                };
                assert(all[at as int] == parts[at as int]@);
                assert(out@ =~= before + color + glyph(all[at as int]));
                let rest = render_from(all, self.classes(), at + 1, end as int, class);
                assert(before + (color + glyph(all[at as int]) + rest) =~= out@ + rest);
            }
            current = class;
            at += 1;
        }
        let reset = fg_reset_escape();
        out.append(reset.as_str());
        out
    }
}

/// Searches `chars`, the text whose clusters are `parts`, for `query` from
/// column `at`.
fn find_in(
    chars: &Vec<char>,
    parts: &Vec<String>,
    starts: &Vec<usize>,
    query: &Vec<char>,
    at: usize,
    direction: SearchDirection,
) -> (found: Option<usize>)
    requires
        texts(parts@) == clusters(chars@),
        starts.len() == parts.len() + 1,
        forall|j: int|
            0 <= j <= parts.len() ==> (#[trigger] starts[j]) == cluster_start(texts(parts@), j),
    ensures
        match found {
            Some(col) => row_find(chars@, query@, at as int, direction) == Some(col as int),
            None => row_find(chars@, query@, at as int, direction) is None,
        },
{
    if at > parts.len() || query.len() == 0 {
        return None;
    }
    let edge = starts[at];
    proof {
        lemma_clusters_cut(chars@);
        lemma_span_all(texts(parts@));
        lemma_cluster_start_grows(texts(parts@), at as int, parts.len() as int);
        lemma_first_match(chars@, query@, edge as int);
        lemma_last_match(chars@, query@, edge as int);
    }
    let hit = match direction {
        SearchDirection::Forward => find_first(chars, query, edge),
        SearchDirection::Backward => find_last(chars, query, edge),
    };
    match hit {
        Some(pos) => {
            assert(occurs_at(chars@, query@, pos as int));
            assert(parts.len() > 0) by {
                if parts.len() == 0 {
                    assert(texts(parts@).flatten() =~= Seq::<char>::empty());
                }
            }
            Some(locate(parts, starts, pos))
        },
        None => None,
    }
}

/// Sets the classes of every occurrence of `word` to `Match`.
fn highlight_match(
    classes: &mut Vec<Highlight>,
    chars: &Vec<char>,
    parts: &Vec<String>,
    starts: &Vec<usize>,
    word: &str,
)
    requires
        texts(parts@) == clusters(chars@),
        starts.len() == parts.len() + 1,
        forall|j: int|
            0 <= j <= parts.len() ==> (#[trigger] starts[j]) == cluster_start(texts(parts@), j),
    ensures
        final(classes)@ == overlay_from(old(classes)@, chars@, word@, 0),
{
    let needle = to_chars(word);
    let word_parts = split_clusters(word);
    let width = word_parts.len();
    let mut index: usize = 0;
    loop
        invariant
            needle@ == word@,
            width == cluster_count(word@),
            texts(parts@) == clusters(chars@),
            starts.len() == parts.len() + 1,
            forall|j: int|
                0 <= j <= parts.len() ==> (#[trigger] starts[j]) == cluster_start(
                    texts(parts@),
                    j,
                ),
            overlay_from(old(classes)@, chars@, word@, 0) == overlay_from(
                classes@,
                chars@,
                word@,
                index as int,
            ),
        ensures
            classes@ == overlay_from(old(classes)@, chars@, word@, 0),
        decreases columns_left(chars@, index as int),
    {
        proof {
            lemma_find_bounds(chars@, word@, index as int, SearchDirection::Forward);
        }
        match find_in(chars, parts, starts, &needle, index, SearchDirection::Forward) {
            Some(col) => {
                let ghost before = classes@;
                assert(col + width <= chars.len());
                let next: usize = col + width;
                let stop: usize = if next < classes.len() {
                    next
                } else {
                    classes.len()
                };
                let mut i: usize = col;
                while i < stop
                    invariant
                        stop <= classes.len(),
                        col <= i,
                        i <= stop || i == col,
                        classes.len() == before.len(),
                        forall|j: int|
                            0 <= j < classes.len() ==> (#[trigger] classes@[j]) == (if col <= j
                                < i {
                                Highlight::Match
                            } else {
                                before[j]
                            }),
                    decreases stop - i,
                {
                    classes[i] = Highlight::Match;
                    i += 1;
                }
                assert(classes@ =~= mark_match(before, col as int, next as int));
                index = next;
            },
            None => {
                break;
            },
        }
    }
}

} // verus!
