//! Substring search within display lines, and the split of a line into plain
//! and highlighted segments.
//!
//! A query matches where its characters occur one after another, exactly as
//! given. A query never matches across two display lines.

use vstd::prelude::*;
use crate::text::{chars_of, string_of};

verus! {

/// Whether `query` occurs in `line` starting at position `at`.
pub open spec fn matches_at(line: Seq<char>, query: Seq<char>, at: int) -> bool {
    &&& 0 <= at
    &&& at + query.len() <= line.len()
    &&& line.subrange(at, at + query.len()) == query
}

/// Whether `query` occurs somewhere in `line`.
pub open spec fn contains_query(line: Seq<char>, query: Seq<char>) -> bool {
    exists|at: int| matches_at(line, query, at)
}

/// The first position at or after `from` where `query` occurs in `line`.
pub open spec fn first_match(line: Seq<char>, query: Seq<char>, from: int) -> Option<int>
    decreases line.len() - from + 1,
{
    if from < 0 || from + query.len() > line.len() {
        None
    } else if matches_at(line, query, from) {
        Some(from)
    } else {
        first_match(line, query, from + 1)
    }
}

/// `first_match` finds an occurrence at or after `from` and before which, from
/// `from` on, there is none; it finds nothing only where there is none.
pub proof fn lemma_first_match(line: Seq<char>, query: Seq<char>, from: int)
    requires
        0 <= from,
    ensures
        match first_match(line, query, from) {
            Some(at) => from <= at && matches_at(line, query, at) && forall|k: int|
                from <= k < at ==> !matches_at(line, query, k),
            None => forall|k: int| from <= k ==> !matches_at(line, query, k),
        },
    decreases line.len() - from + 1,
{
    if from + query.len() <= line.len() && !matches_at(line, query, from) {
        lemma_first_match(line, query, from + 1);
    }
}

/// A line contains the query exactly where a search from its start finds it.
pub proof fn lemma_contains_is_first_match(line: Seq<char>, query: Seq<char>)
    ensures
        contains_query(line, query) <==> first_match(line, query, 0) is Some,
{
    lemma_first_match(line, query, 0);
}

/// Whether `query` occurs in `line` at `at`.
pub fn matches_here(line: &Vec<char>, query: &Vec<char>, at: usize) -> (found: bool)
    ensures
        found == matches_at(line@, query@, at as int),
{
    let n = line.len();
    let m = query.len();
    if m > n || at > n - m {
        return false;
    }
    let mut j: usize = 0;
    while j < m
        invariant
            n == line.len(),
            m == query.len(),
            at + m <= n,
            j <= m,
            line@.subrange(at as int, at + j) == query@.take(j as int),
        decreases m - j,
    {
        if line[at + j] != query[j] {
            assert(line@.subrange(at as int, at + m)[j as int] != query@[j as int]);
            return false;
        }
        j = j + 1;
        assert(line@.subrange(at as int, at + j).drop_last() == line@.subrange(
            at as int,
            at + j - 1,
        ));
        assert(query@.take(j as int).drop_last() == query@.take(j - 1));
        assert(line@.subrange(at as int, at + j) == query@.take(j as int));
    }
    assert(query@.take(m as int) == query@);
    true
}

/// The first position at or after `from` where `query` occurs in `line`.
pub fn find_from(line: &Vec<char>, query: &Vec<char>, from: usize) -> (found: Option<usize>)
    ensures
        match found {
            Some(at) => first_match(line@, query@, from as int) == Some(at as int),
            None => first_match(line@, query@, from as int) is None,
        },
{
    let n = line.len();
    let m = query.len();
    if m > n {
        return None;
    }
    let last = n - m;
    let mut at: usize = from;
    while at <= last
        invariant
            n == line.len(),
            m == query.len(),
            last == n - m,
            from <= at,
            first_match(line@, query@, from as int) == first_match(line@, query@, at as int),
        decreases last + 1 - at,
    {
        if matches_here(line, query, at) {
            return Some(at);
        }
        if at == last {
            assert(first_match(line@, query@, at + 1) is None);
            return None;
        }
        at = at + 1;
    }
    None
}

/// Whether `query` occurs somewhere in `line`.
pub fn contains(line: &str, query: &str) -> (found: bool)
    ensures
        found == contains_query(line@, query@),
{
    let l = chars_of(line);
    let q = chars_of(query);
    proof {
        lemma_contains_is_first_match(line@, query@);
    }
    find_from(&l, &q, 0).is_some()
}

/// The first line at or after index `from` that contains the query.
pub open spec fn hit_after(lines: Seq<Seq<char>>, query: Seq<char>, from: int) -> Option<int>
    decreases lines.len() - from,
{
    if from < 0 || from >= lines.len() {
        None
    } else if contains_query(lines[from], query) {
        Some(from)
    } else {
        hit_after(lines, query, from + 1)
    }
}

/// The last line before index `before` that contains the query.
pub open spec fn hit_before(lines: Seq<Seq<char>>, query: Seq<char>, before: int) -> Option<int>
    decreases before,
{
    if before <= 0 {
        None
    } else if before - 1 < lines.len() && contains_query(lines[before - 1], query) {
        Some(before - 1)
    } else {
        hit_before(lines, query, before - 1)
    }
}

/// `hit_after` finds a line at or after `from` that contains the query, with
/// no such line between `from` and it; it finds nothing only where no line
/// from `from` on contains the query.
pub proof fn lemma_hit_after(lines: Seq<Seq<char>>, query: Seq<char>, from: int)
    requires
        0 <= from,
    ensures
        match hit_after(lines, query, from) {
            Some(at) => from <= at < lines.len() && contains_query(lines[at], query)
                && forall|k: int| from <= k < at ==> !contains_query(#[trigger] lines[k], query),
            None => forall|k: int|
                from <= k < lines.len() ==> !contains_query(#[trigger] lines[k], query),
        },
    decreases lines.len() - from,
{
    if from < lines.len() && !contains_query(lines[from], query) {
        lemma_hit_after(lines, query, from + 1);
    }
}

/// `hit_before` finds a line before `before` that contains the query, with no
/// such line between it and `before`; it finds nothing only where no line
/// before `before` contains the query.
pub proof fn lemma_hit_before(lines: Seq<Seq<char>>, query: Seq<char>, before: int)
    ensures
        match hit_before(lines, query, before) {
            Some(at) => 0 <= at < before && at < lines.len() && contains_query(lines[at], query)
                && forall|k: int|
                at < k < before && k < lines.len() ==> !contains_query(#[trigger] lines[k], query),
            None => forall|k: int|
                0 <= k < before && k < lines.len() ==> !contains_query(#[trigger] lines[k], query),
        },
    decreases before,
{
    if before > 0 && !(before - 1 < lines.len() && contains_query(lines[before - 1], query)) {
        lemma_hit_before(lines, query, before - 1);
    }
}

/// Looking back from beyond the last line is looking back from the end.
pub proof fn lemma_hit_before_past_end(lines: Seq<Seq<char>>, query: Seq<char>, before: int)
    requires
        before >= lines.len(),
    ensures
        hit_before(lines, query, before) == hit_before(lines, query, lines.len() as int),
    decreases before,
{
    if before > lines.len() {
        lemma_hit_before_past_end(lines, query, before - 1);
    }
}

/// Index of the first line at or after `from` that contains `query`.
pub fn find_line_after(lines: &Vec<String>, query: &str, from: usize) -> (found: Option<usize>)
    ensures
        match found {
            Some(at) => hit_after(lines.deep_view(), query@, from as int) == Some(at as int),
            None => hit_after(lines.deep_view(), query@, from as int) is None,
        },
{
    let q = chars_of(query);
    let n = lines.len();
    let ghost all = lines.deep_view();
    let mut i: usize = from;
    while i < n
        invariant
            n == lines.len(),
            all == lines.deep_view(),
            q@ == query@,
            from <= i,
            hit_after(all, q@, from as int) == hit_after(all, q@, i as int),
        decreases n - i,
    {
        let l = chars_of(lines[i].as_str());
        proof {
            assert(all[i as int] == l@);
            lemma_contains_is_first_match(l@, q@);
        }
        if find_from(&l, &q, 0).is_some() {
            return Some(i);
        }
        i = i + 1;
    }
    None
}

/// Index of the last line before `before` that contains `query`.
pub fn find_line_before(lines: &Vec<String>, query: &str, before: usize) -> (found: Option<usize>)
    ensures
        match found {
            Some(at) => hit_before(lines.deep_view(), query@, before as int) == Some(at as int),
            None => hit_before(lines.deep_view(), query@, before as int) is None,
        },
{
    let q = chars_of(query);
    let n = lines.len();
    let ghost all = lines.deep_view();
    let mut i: usize = if before < n {
        before
    } else {
        n
    };
    proof {
        if before >= n {
            lemma_hit_before_past_end(all, q@, before as int);
        }
    }
    while i > 0
        invariant
            n == lines.len(),
            all == lines.deep_view(),
            q@ == query@,
            i <= n,
            hit_before(all, q@, before as int) == hit_before(all, q@, i as int),
        decreases i,
    {
        let l = chars_of(lines[i - 1].as_str());
        proof {
            assert(all[i - 1] == l@);
            lemma_contains_is_first_match(l@, q@);
        }
        if find_from(&l, &q, 0).is_some() {
            return Some(i - 1);
        }
        i = i - 1;
    }
    None
}

/// A stretch of a display line as it is drawn: plain, or highlighted as an
/// occurrence of the query.
#[derive(Debug, PartialEq, Eq)]
pub struct Segment {
    pub text: String,
    pub highlighted: bool,
}

/// What a [`Segment`] stands for.
pub struct SegmentView {
    pub text: Seq<char>,
    pub highlighted: bool,
}

impl View for Segment {
    type V = SegmentView;

    open spec fn view(&self) -> SegmentView {
        SegmentView { text: self.text@, highlighted: self.highlighted }
    }
}

impl DeepView for Segment {
    type V = SegmentView;

    open spec fn deep_view(&self) -> SegmentView {
        self@
    }
}

/// A plain segment.
pub open spec fn plain(text: Seq<char>) -> SegmentView {
    SegmentView { text, highlighted: false }
}

/// A highlighted segment.
pub open spec fn marked(text: Seq<char>) -> SegmentView {
    SegmentView { text, highlighted: true }
}

/// The segments of `line` from position `from` on, for a query that is not
/// empty: the plain text up to the next occurrence, the occurrence, and so on
/// from behind it; after the last occurrence, the plain rest.
pub open spec fn segments_from(line: Seq<char>, query: Seq<char>, from: int) -> Seq<SegmentView>
    decreases line.len() - from,
    via segments_from_terminates
{
    let hit = first_match(line, query, from);
    if query.len() > 0 && hit is Some {
        let at = hit->0;
        seq![plain(line.subrange(from, at)), marked(query)] + segments_from(
            line,
            query,
            at + query.len(),
        )
    } else {
        seq![plain(line.subrange(from, line.len() as int))]
    }
}

#[via_fn]
proof fn segments_from_terminates(line: Seq<char>, query: Seq<char>, from: int) {
    if from >= 0 {
        lemma_first_match(line, query, from);
    }
}

/// The segments that `line` is drawn in while `query` is searched for. With
/// no query the whole line is one plain segment. Otherwise the occurrences of
/// the query, taken from the left and never overlapping, are highlighted, and
/// the text before, between and after them is plain; these plain segments are
/// there even where they are empty.
pub open spec fn segments(line: Seq<char>, query: Seq<char>) -> Seq<SegmentView> {
    if query.len() == 0 {
        seq![plain(line)]
    } else {
        segments_from(line, query, 0)
    }
}

/// The texts of the segments, one after another.
pub open spec fn joined(parts: Seq<SegmentView>) -> Seq<char>
    decreases parts.len(),
{
    if parts.len() == 0 {
        Seq::empty()
    } else {
        parts.first().text + joined(parts.drop_first())
    }
}

/// What holds of the segments of a line for a query: there is an odd number
/// of them; the first, third and so on are plain and do not contain the
/// query; the second, fourth and so on are highlighted and are the query.
pub open spec fn alternates(parts: Seq<SegmentView>, query: Seq<char>) -> bool {
    &&& parts.len() % 2 == 1
    &&& forall|i: int|
        0 <= i < parts.len() && i % 2 == 0 ==> !(#[trigger] parts[i]).highlighted
            && !contains_query(parts[i].text, query)
    &&& forall|i: int|
        0 <= i < parts.len() && i % 2 == 1 ==> (#[trigger] parts[i]).highlighted && parts[i].text
            == query
}

/// Splits `line` into the segments it is drawn in while `query` is searched
/// for.
pub fn split_segments(line: &str, query: &str) -> (out: Vec<Segment>)
    ensures
        out.deep_view() == segments(line@, query@),
{
    let mut out: Vec<Segment> = Vec::new();
    if query.is_empty() {
        out.push(Segment { text: line.to_owned(), highlighted: false });
        assert(out.deep_view() == seq![plain(line@)]);
        return out;
    }
    let l = chars_of(line);
    let q = chars_of(query);
    let n = l.len();
    let m = q.len();
    let mut curr: usize = 0;
    loop
        invariant_except_break
            out.deep_view() + segments_from(l@, q@, curr as int) == segments_from(l@, q@, 0),
        invariant
            l@ == line@,
            q@ == query@,
            n == l.len(),
            m == q.len(),
            m > 0,
            curr <= n,
        ensures
            out.deep_view() == segments_from(l@, q@, 0),
        decreases n - curr,
    {
        let ghost before = out.deep_view();
        proof {
            lemma_first_match(l@, q@, curr as int);
        }
        match find_from(&l, &q, curr) {
            Some(at) => {
                out.push(Segment { text: string_of(&l, curr, at), highlighted: false });
                out.push(Segment { text: string_of(&q, 0, m), highlighted: true });
                proof {
                    assert(q@.subrange(0, m as int) == q@);
                    let pair = seq![plain(l@.subrange(curr as int, at as int)), marked(q@)];
                    assert(out.deep_view() == before + pair);
                    assert((before + pair) + segments_from(l@, q@, at + m) == before + (pair
                        + segments_from(l@, q@, at + m)));
                }
                curr = at + m;
            },
            None => {
                out.push(Segment { text: string_of(&l, curr, n), highlighted: false });
                proof {
                    let rest = seq![plain(l@.subrange(curr as int, n as int))];
                    assert(out.deep_view() == before + rest);
                }
                break ;
            },
        }
    }
    out
}

/// The segments from `from` on, read one after another, are the line from
/// `from` on: splitting loses nothing and adds nothing.
pub proof fn lemma_segments_from_rebuild(line: Seq<char>, query: Seq<char>, from: int)
    requires
        0 <= from <= line.len(),
        query.len() > 0,
    ensures
        joined(segments_from(line, query, from)) == line.subrange(from, line.len() as int),
    decreases line.len() - from,
{
    lemma_first_match(line, query, from);
    let hit = first_match(line, query, from);
    let end = line.len() as int;
    if hit is Some {
        let at = hit->0;
        let next = at + query.len();
        let tail = segments_from(line, query, next);
        lemma_segments_from_rebuild(line, query, next);
        let all = segments_from(line, query, from);
        assert(all.drop_first() == seq![marked(query)] + tail);
        assert(all.drop_first().drop_first() == tail);
        assert(joined(all.drop_first()) == query + joined(tail));
        assert(joined(all) == line.subrange(from, at) + (query + joined(tail)));
        assert(line.subrange(from, at) + (line.subrange(at, next) + line.subrange(next, end))
            == line.subrange(from, end));
    } else {
        let all = segments_from(line, query, from);
        assert(joined(all.drop_first()) == Seq::<char>::empty());
        assert(joined(all) == line.subrange(from, end) + Seq::<char>::empty());
    }
}

/// The segments of a line, read one after another, are the line.
pub proof fn lemma_segments_rebuild(line: Seq<char>, query: Seq<char>)
    ensures
        joined(segments(line, query)) == line,
{
    if query.len() == 0 {
        let all = segments(line, query);
        assert(joined(all.drop_first()) == Seq::<char>::empty());
        assert(joined(all) == line + Seq::<char>::empty());
    } else {
        lemma_segments_from_rebuild(line, query, 0);
        assert(line.subrange(0, line.len() as int) == line);
    }
}

/// A stretch of a line in which the query occurs holds an occurrence of the
/// query in the line.
proof fn lemma_match_in_stretch(line: Seq<char>, query: Seq<char>, from: int, to: int)
    requires
        0 <= from <= to <= line.len(),
        contains_query(line.subrange(from, to), query),
    ensures
        exists|at: int| from <= at && at + query.len() <= to && matches_at(line, query, at),
{
    let part = line.subrange(from, to);
    let k = choose|k: int| matches_at(part, query, k);
    assert(part.subrange(k, k + query.len()) == line.subrange(from + k, from + k + query.len()));
    assert(matches_at(line, query, from + k));
}

/// The segments from `from` on alternate between plain text without the
/// query and the query highlighted.
pub proof fn lemma_segments_from_alternate(line: Seq<char>, query: Seq<char>, from: int)
    requires
        0 <= from <= line.len(),
        query.len() > 0,
    ensures
        alternates(segments_from(line, query, from), query),
    decreases line.len() - from,
{
    lemma_first_match(line, query, from);
    let hit = first_match(line, query, from);
    let all = segments_from(line, query, from);
    let end = line.len() as int;
    if hit is Some {
        let at = hit->0;
        let next = at + query.len();
        let tail = segments_from(line, query, next);
        lemma_segments_from_alternate(line, query, next);
        assert(all.len() == tail.len() + 2);
        assert(!contains_query(line.subrange(from, at), query)) by {
            if contains_query(line.subrange(from, at), query) {
                lemma_match_in_stretch(line, query, from, at);
            }
        }
        assert forall|i: int| 0 <= i < all.len() && i % 2 == 0 implies !(
            #[trigger] all[i]
        ).highlighted && !contains_query(all[i].text, query) by {
            if i >= 2 {
                assert(all[i] == tail[i - 2]);
            }
        }
        assert forall|i: int| 0 <= i < all.len() && i % 2 == 1 implies (
            #[trigger] all[i]
        ).highlighted && all[i].text == query by {
            if i >= 2 {
                assert(all[i] == tail[i - 2]);
            }
        }
    } else {
        assert(!contains_query(line.subrange(from, end), query)) by {
            if contains_query(line.subrange(from, end), query) {
                lemma_match_in_stretch(line, query, from, end);
            }
        }
    }
}

/// While a query is searched for, the segments of a line alternate between
/// plain text that does not contain the query and the query highlighted,
/// starting and ending with plain text.
pub proof fn lemma_segments_alternate(line: Seq<char>, query: Seq<char>)
    requires
        query.len() > 0,
    ensures
        alternates(segments(line, query), query),
{
    lemma_segments_from_alternate(line, query, 0);
}

} // verus!
