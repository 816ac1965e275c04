//! Segmentation of text into extended grapheme clusters, the unit in which
//! columns are counted everywhere in this crate.

use unicode_segmentation::UnicodeSegmentation;
use vstd::prelude::*;
use vstd::seq_lib::lemma_flatten_concat;
use vstd::string::{StrSliceExecFns, StringExecFns};

verus! {

/// The extended grapheme clusters of `text`, in order, as Unicode text
/// segmentation (UAX #29) defines them.
pub uninterp spec fn grapheme_clusters(text: Seq<char>) -> Seq<Seq<char>>;

/// The contents of a list of strings.
pub open spec fn texts(parts: Seq<String>) -> Seq<Seq<char>> {
    parts.map_values(|p: String| p@)
}

/// `parts` cuts `text` into consecutive pieces, none of them empty.
pub open spec fn cuts(parts: Seq<Seq<char>>, text: Seq<char>) -> bool {
    &&& parts.flatten() == text
    &&& forall|i: int| 0 <= i < parts.len() ==> (#[trigger] parts[i]).len() > 0
}

/// Every character of `text` as a piece of its own.
pub open spec fn singletons(text: Seq<char>) -> Seq<Seq<char>> {
    Seq::new(text.len(), |i: int| seq![text[i]])
}

/// The clusters of `text` as this crate counts them: its grapheme clusters.
/// The definition is total: a segmentation that did not cut the text into
/// non-empty pieces would be replaced by the text's single characters, so that
/// `cuts(clusters(text), text)` holds of every text.
pub open spec fn clusters(text: Seq<char>) -> Seq<Seq<char>> {
    if cuts(grapheme_clusters(text), text) {
        grapheme_clusters(text)
    } else {
        singletons(text)
    }
}

/// Number of clusters in `text`.
pub open spec fn cluster_count(text: Seq<char>) -> nat {
    clusters(text).len()
}

/// The first character of each piece.
pub open spec fn heads(parts: Seq<Seq<char>>) -> Seq<char> {
    parts.map_values(|p: Seq<char>| p[0])
}

/// The characters that stand for the columns of `text`: of each cluster the
/// first character, which is the letter or sign that any marks after it
/// belong to.
pub open spec fn symbols(text: Seq<char>) -> Seq<char> {
    heads(clusters(text))
}

/// The text made of the clusters `from..to` of `parts`; bounds outside the
/// list are clamped to it.
pub open spec fn span_text(parts: Seq<Seq<char>>, from: int, to: int) -> Seq<char> {
    let hi = if to > parts.len() {
        parts.len() as int
    } else {
        to
    };
    let lo = if from < 0 {
        0
    } else {
        from
    };
    if lo >= hi {
        Seq::empty()
    } else {
        parts.subrange(lo, hi).flatten()
    }
}

/// Number of characters that stand before cluster `k` of `parts`.
pub open spec fn cluster_start(parts: Seq<Seq<char>>, k: int) -> int {
    span_text(parts, 0, k).len() as int
}

/// Segments `text` with `UnicodeSegmentation::graphemes` in extended mode and
/// copies each cluster into a string of its own.
///
/// Trusted: the clusters are named, not computed here. What is claimed besides
/// the name is what the iterator's `next` shows: it hands out consecutive
/// slices of the text, each at least one character long, from the first byte to
/// the last.
#[verifier::external_body]
pub(crate) fn segment(text: &str) -> (parts: Vec<String>)
    ensures
        texts(parts@) == grapheme_clusters(text@),
        cuts(texts(parts@), text@),
{
    text.graphemes(true).map(String::from).collect()
}

/// Segments `text` into its clusters.
pub(crate) fn split_clusters(text: &str) -> (parts: Vec<String>)
    ensures
        texts(parts@) == clusters(text@),
        cuts(texts(parts@), text@),
        parts.len() == cluster_count(text@),
{
    segment(text)
}

/// The single characters of a text are a cut of it.
pub proof fn lemma_singletons_cut(text: Seq<char>)
    ensures
        cuts(singletons(text), text),
    decreases text.len(),
{
    if text.len() == 0 {
        assert(singletons(text) =~= Seq::<Seq<char>>::empty());
        assert(singletons(text).flatten() =~= text);
    } else {
        let front = text.drop_last();
        lemma_singletons_cut(front);
        assert(singletons(text) =~= singletons(front).push(seq![text.last()]));
        singletons(front).lemma_flatten_push(seq![text.last()]);
        assert(front + seq![text.last()] =~= text);
    }
}

/// The clusters of a text cut it into non-empty pieces.
pub proof fn lemma_clusters_cut(text: Seq<char>)
    ensures
        cuts(clusters(text), text),
{
    lemma_singletons_cut(text);
}

/// A span that ends where the next begins joins with it.
pub proof fn lemma_span_join(parts: Seq<Seq<char>>, a: int, b: int, c: int)
    requires
        0 <= a <= b <= c <= parts.len(),
    ensures
        span_text(parts, a, c) == span_text(parts, a, b) + span_text(parts, b, c),
{
    if a < b && b < c {
        assert(parts.subrange(a, c) =~= parts.subrange(a, b) + parts.subrange(b, c));
        lemma_flatten_concat(parts.subrange(a, b), parts.subrange(b, c));
    } else {
        assert(span_text(parts, a, c) =~= span_text(parts, a, b) + span_text(parts, b, c));
    }
}

/// The span of one cluster is that cluster.
pub proof fn lemma_span_one(parts: Seq<Seq<char>>, k: int)
    requires
        0 <= k < parts.len(),
    ensures
        span_text(parts, k, k + 1) == parts[k],
{
    let one = parts.subrange(k, k + 1);
    assert(one =~= seq![parts[k]]);
    one.lemma_flatten_one_element();
}

/// The whole span is the flattened list.
pub proof fn lemma_span_all(parts: Seq<Seq<char>>)
    ensures
        span_text(parts, 0, parts.len() as int) == parts.flatten(),
{
    if parts.len() > 0 {
        assert(parts.subrange(0, parts.len() as int) =~= parts);
    }
}

/// Pieces that are not empty make a span at least as long, in characters, as
/// the number of pieces in it.
pub proof fn lemma_span_len(parts: Seq<Seq<char>>, a: int, b: int)
    requires
        0 <= a <= b <= parts.len(),
        forall|i: int| 0 <= i < parts.len() ==> (#[trigger] parts[i]).len() > 0,
    ensures
        span_text(parts, a, b).len() >= b - a,
    decreases b - a,
{
    if a < b {
        lemma_span_len(parts, a, b - 1);
        lemma_span_join(parts, a, b - 1, b);
        lemma_span_one(parts, b - 1);
    }
}

/// The next cluster starts where this one ends.
pub proof fn lemma_cluster_start_step(parts: Seq<Seq<char>>, k: int)
    requires
        0 <= k < parts.len(),
    ensures
        cluster_start(parts, k + 1) == cluster_start(parts, k) + parts[k].len(),
{
    lemma_span_join(parts, 0, k, k + 1);
    lemma_span_one(parts, k);
}

/// The first cluster at or after `k` whose successor starts beyond `pos`.
pub open spec fn cluster_from(parts: Seq<Seq<char>>, pos: int, k: int) -> int
    decreases parts.len() - k,
{
    if k + 1 >= parts.len() || pos < cluster_start(parts, k + 1) {
        k
    } else {
        cluster_from(parts, pos, k + 1)
    }
}

/// Index of the cluster of `parts` that holds character position `pos`.
pub open spec fn cluster_of(parts: Seq<Seq<char>>, pos: int) -> int {
    cluster_from(parts, pos, 0)
}

/// Later clusters start later: between two cluster indices lie at least as
/// many characters as clusters.
pub proof fn lemma_cluster_start_grows(parts: Seq<Seq<char>>, a: int, b: int)
    requires
        0 <= a <= b <= parts.len(),
        forall|i: int| 0 <= i < parts.len() ==> (#[trigger] parts[i]).len() > 0,
    ensures
        cluster_start(parts, a) + (b - a) <= cluster_start(parts, b),
{
    lemma_span_join(parts, 0, a, b);
    lemma_span_len(parts, a, b);
}

/// The cluster found for a position that lies in the text holds it.
pub proof fn lemma_cluster_from(parts: Seq<Seq<char>>, pos: int, k: int)
    requires
        0 <= k < parts.len(),
        cluster_start(parts, k) <= pos < cluster_start(parts, parts.len() as int),
    ensures
        k <= cluster_from(parts, pos, k) < parts.len(),
        cluster_start(parts, cluster_from(parts, pos, k)) <= pos,
        pos < cluster_start(parts, cluster_from(parts, pos, k) + 1),
    decreases parts.len() - k,
{
    if k + 1 < parts.len() && pos >= cluster_start(parts, k + 1) {
        lemma_cluster_from(parts, pos, k + 1);
    }
}

/// The cluster that holds a position of the text is the only one that starts
/// at or before it and ends after it.
pub proof fn lemma_cluster_of(parts: Seq<Seq<char>>, pos: int)
    requires
        0 <= pos < parts.flatten().len(),
        forall|i: int| 0 <= i < parts.len() ==> (#[trigger] parts[i]).len() > 0,
    ensures
        0 <= cluster_of(parts, pos) < parts.len(),
        cluster_start(parts, cluster_of(parts, pos)) <= pos < cluster_start(
            parts,
            cluster_of(parts, pos) + 1,
        ),
        forall|k: int|
            0 <= k < parts.len() && #[trigger] cluster_start(parts, k) <= pos && pos
                < cluster_start(parts, k + 1) ==> k == cluster_of(parts, pos),
{
    lemma_span_all(parts);
    assert(parts.len() > 0);
    lemma_cluster_from(parts, pos, 0);
    let found = cluster_of(parts, pos);
    assert forall|k: int|
        0 <= k < parts.len() && #[trigger] cluster_start(parts, k) <= pos && pos < cluster_start(
            parts,
            k + 1,
        ) implies k == found by {
        if k < found {
            lemma_cluster_start_grows(parts, k + 1, found);
        } else if k > found {
            lemma_cluster_start_grows(parts, found + 1, k);
        }
    }
}

/// The number of characters before each cluster of `parts`, and after the
/// last.
pub(crate) fn cluster_starts(parts: &Vec<String>) -> (starts: Vec<usize>)
    requires
        texts(parts@).flatten().len() <= usize::MAX,
    ensures
        starts.len() == parts.len() + 1,
        forall|k: int|
            0 <= k <= parts.len() ==> (#[trigger] starts[k]) == cluster_start(texts(parts@), k),
{
    let ghost all = texts(parts@);
    let mut starts: Vec<usize> = Vec::new();
    let mut total: usize = 0;
    starts.push(total);
    let mut k: usize = 0;
    while k < parts.len()
        invariant
            k <= parts.len(),
            all == texts(parts@),
            all.flatten().len() <= usize::MAX,
            starts.len() == k + 1,
            total == cluster_start(all, k as int),
            forall|j: int| 0 <= j <= k ==> (#[trigger] starts[j]) == cluster_start(all, j),
        decreases parts.len() - k,
    {
        let width = parts[k].as_str().unicode_len();
        proof {
            lemma_cluster_start_step(all, k as int);
            lemma_span_join(all, 0, k + 1, all.len() as int);
            lemma_span_all(all);
        }
        total = total + width;
        starts.push(total);
        k += 1;
    }
    starts
}

/// Index of the cluster that holds character position `pos`.
pub(crate) fn locate(parts: &Vec<String>, starts: &Vec<usize>, pos: usize) -> (k: usize)
    requires
        starts.len() == parts.len() + 1,
        forall|j: int|
            0 <= j <= parts.len() ==> (#[trigger] starts[j]) == cluster_start(texts(parts@), j),
        parts.len() > 0,
    ensures
        k == cluster_of(texts(parts@), pos as int),
        k < parts.len(),
{
    let mut k: usize = 0;
    while k + 1 < parts.len() && starts[k + 1] <= pos
        invariant
            k < parts.len(),
            starts.len() == parts.len() + 1,
            forall|j: int|
                0 <= j <= parts.len() ==> (#[trigger] starts[j]) == cluster_start(
                    texts(parts@),
                    j,
                ),
            cluster_of(texts(parts@), pos as int) == cluster_from(
                texts(parts@),
                pos as int,
                k as int,
            ),
        decreases parts.len() - k,
    {
        k += 1;
    }
    k
}

/// The first character of each string of `parts`.
pub(crate) fn first_chars(parts: &Vec<String>) -> (firsts: Vec<char>)
    requires
        forall|i: int| 0 <= i < parts.len() ==> (#[trigger] texts(parts@)[i]).len() > 0,
    ensures
        firsts@ == heads(texts(parts@)),
{
    let mut firsts: Vec<char> = Vec::new();
    let mut i: usize = 0;
    while i < parts.len()
        invariant
            i <= parts.len(),
            firsts.len() == i,
            forall|j: int| 0 <= j < parts.len() ==> (#[trigger] texts(parts@)[j]).len() > 0,
            forall|j: int| 0 <= j < i ==> (#[trigger] firsts[j]) == parts[j]@[0],
        decreases parts.len() - i,
    {
        assert(texts(parts@)[i as int] == parts[i as int]@);
        firsts.push(parts[i].as_str().get_char(0));
        i += 1;
    }
    assert(firsts@ =~= heads(texts(parts@)));
    firsts
}

/// Concatenates the strings `from..to` of `parts`.
pub(crate) fn concat_span(parts: &Vec<String>, from: usize, to: usize) -> (out: String)
    requires
        from <= to <= parts.len(),
    ensures
        out@ == span_text(texts(parts@), from as int, to as int),
{
    let mut out = String::new();
    let mut i: usize = from;
    while i < to
        invariant
            from <= i <= to <= parts.len(),
            out@ == span_text(texts(parts@), from as int, i as int),
        decreases to - i,
    {
        proof {
            lemma_span_join(texts(parts@), from as int, i as int, i + 1);
            lemma_span_one(texts(parts@), i as int);
        }
        out.append(parts[i].as_str());
        i += 1;
    }
    out
}

} // verus!
