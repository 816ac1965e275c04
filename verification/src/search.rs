//! Substring search in sequences of characters.

use vstd::prelude::*;

verus! {

/// `needle` stands in `hay` at position `at`.
pub open spec fn occurs_at(hay: Seq<char>, needle: Seq<char>, at: int) -> bool {
    &&& 0 <= at
    &&& at + needle.len() <= hay.len()
    &&& hay.subrange(at, at + needle.len()) == needle
}

/// The leftmost position at or after `from` where `needle` stands in `hay`.
pub open spec fn first_match(hay: Seq<char>, needle: Seq<char>, from: int) -> Option<int>
    decreases hay.len() - from,
{
    if from < 0 || from + needle.len() > hay.len() {
        None
    } else if occurs_at(hay, needle, from) {
        Some(from)
    } else if from >= hay.len() {
        None
    } else {
        first_match(hay, needle, from + 1)
    }
}

/// The rightmost position where `needle` stands in `hay` and ends at or
/// before `end`.
pub open spec fn last_match(hay: Seq<char>, needle: Seq<char>, end: int) -> Option<int>
    decreases end,
{
    if end < needle.len() {
        None
    } else if occurs_at(hay, needle, end - needle.len()) {
        Some(end - needle.len())
    } else if end <= 0 {
        None
    } else {
        last_match(hay, needle, end - 1)
    }
}

/// `first_match` is the least occurrence from `from` on, and `None` exactly
/// when there is no occurrence from there on.
pub proof fn lemma_first_match(hay: Seq<char>, needle: Seq<char>, from: int)
    requires
        0 <= from,
    ensures
        match first_match(hay, needle, from) {
            Some(p) => {
                &&& from <= p
                &&& occurs_at(hay, needle, p)
                &&& forall|q: int| from <= q < p ==> !occurs_at(hay, needle, q)
            },
            None => forall|q: int| from <= q ==> !occurs_at(hay, needle, q),
        },
    decreases hay.len() - from,
{
    if from + needle.len() <= hay.len() && !occurs_at(hay, needle, from) && from < hay.len() {
        lemma_first_match(hay, needle, from + 1);
    }
}

/// `last_match` is the greatest occurrence that ends by `end`, and `None`
/// exactly when no occurrence ends by `end`.
pub proof fn lemma_last_match(hay: Seq<char>, needle: Seq<char>, end: int)
    ensures
        match last_match(hay, needle, end) {
            Some(p) => {
                &&& p + needle.len() <= end
                &&& occurs_at(hay, needle, p)
                &&& forall|q: int| p < q && q + needle.len() <= end ==> !occurs_at(hay, needle, q)
            },
            None => forall|q: int| q + needle.len() <= end ==> !occurs_at(hay, needle, q),
        },
    decreases end,
{
    if end >= needle.len() && !occurs_at(hay, needle, end - needle.len()) && end > 0 {
        lemma_last_match(hay, needle, end - 1);
    }
}

/// Whether `needle` stands in `hay` at `at`.
pub fn matches_at(hay: &Vec<char>, needle: &Vec<char>, at: usize) -> (found: bool)
    ensures
        found == occurs_at(hay@, needle@, at as int),
{
    if needle.len() > hay.len() || at > hay.len() - needle.len() {
        return false;
    }
    let mut k: usize = 0;
    while k < needle.len()
        invariant
            k <= needle.len(),
            at + needle.len() <= hay.len(),
            forall|j: int| 0 <= j < k ==> hay@[at + j] == needle@[j],
        decreases needle.len() - k,
    {
        if hay[at + k] != needle[k] {
            assert(hay@.subrange(at as int, at + needle.len())[k as int] == hay@[at + k]);
            return false;
        }
        k += 1;
    }
    assert(hay@.subrange(at as int, at + needle.len()) =~= needle@);
    true
}

/// The leftmost occurrence of `needle` in `hay` at or after `from`.
pub fn find_first(hay: &Vec<char>, needle: &Vec<char>, from: usize) -> (found: Option<usize>)
    ensures
        match found {
            Some(p) => first_match(hay@, needle@, from as int) == Some(p as int),
            None => first_match(hay@, needle@, from as int) is None,
        },
{
    if needle.len() > hay.len() {
        return None;
    }
    let last: usize = hay.len() - needle.len();
    let mut p: usize = from;
    while p <= last
        invariant
            from <= p,
            last == hay.len() - needle.len(),
            needle.len() <= hay.len(),
            first_match(hay@, needle@, from as int) == first_match(hay@, needle@, p as int),
        decreases last + 1 - p,
    {
        if matches_at(hay, needle, p) {
            return Some(p);
        }
        if p == last {
            assert(first_match(hay@, needle@, p + 1) is None);
            return None;
        }
        p += 1;
    }
    None
}

/// The rightmost occurrence of `needle` in `hay` that ends at or before `end`.
pub fn find_last(hay: &Vec<char>, needle: &Vec<char>, end: usize) -> (found: Option<usize>)
    ensures
        match found {
            Some(p) => last_match(hay@, needle@, end as int) == Some(p as int),
            None => last_match(hay@, needle@, end as int) is None,
        },
{
    let mut e: usize = end;
    while e >= needle.len()
        invariant
            e <= end,
            last_match(hay@, needle@, end as int) == last_match(hay@, needle@, e as int),
        decreases e,
    {
        if matches_at(hay, needle, e - needle.len()) {
            return Some(e - needle.len());
        }
        if e == 0 {
            return None;
        }
        e -= 1;
    }
    None
}

} // verus!
