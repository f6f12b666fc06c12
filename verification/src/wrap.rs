//! The line wrapper: raw text to display lines.
//!
//! Carriage returns are dropped, a newline ends a line, and a line that would
//! grow wider than the screen is cut before the character that does not fit.
//! A character is never split: one that is wider than the whole screen stands
//! alone on a line of its own.

use vstd::prelude::*;
use crate::width::{at_least_one, char_cols, cols, effective_width, fits, width_of};

verus! {

/// `text` without its carriage returns.
pub open spec fn strip_cr(text: Seq<char>) -> Seq<char> {
    text.filter(|c: char| c != '\r')
}

/// Whether the first `n` characters of `t` can stand together on one display
/// line: none of them is a newline, and together they are no wider than
/// `width`, unless there is at most one of them.
pub open spec fn fits_line(t: Seq<char>, width: nat, n: int) -> bool {
    &&& 0 <= n <= t.len()
    &&& forall|i: int| 0 <= i < n ==> t[i] != '\n'
    &&& (n <= 1 || cols(t.take(n)) <= width)
}

/// Where a line that already holds the first `n` characters of `t` ends: it
/// grows for as long as one more character fits.
pub open spec fn line_end(t: Seq<char>, width: nat, n: int) -> int
    decreases t.len() - n,
{
    if n < t.len() && fits_line(t, width, n + 1) {
        line_end(t, width, n + 1)
    } else {
        n
    }
}

/// Number of characters on the first display line of `t`.
pub open spec fn line_len(t: Seq<char>, width: nat) -> int {
    line_end(t, width, 0)
}

/// Number of characters that the first display line of `t` uses up: its own,
/// and the newline that ends it where there is one.
pub open spec fn line_step(t: Seq<char>, width: nat) -> int {
    let n = line_len(t, width);
    if n < t.len() && t[n] == '\n' {
        n + 1
    } else {
        n
    }
}

/// The display lines of `t`, a text without carriage returns, at `width`
/// columns. Empty text has no lines; otherwise the first line is cut off and
/// the rest is wrapped in the same way.
pub open spec fn wrap(t: Seq<char>, width: nat) -> Seq<Seq<char>>
    decreases t.len(),
    via wrap_terminates
{
    if t.len() == 0 {
        Seq::empty()
    } else {
        seq![t.take(line_len(t, width))] + wrap(t.skip(line_step(t, width)), width)
    }
}

#[via_fn]
proof fn wrap_terminates(t: Seq<char>, width: nat) {
    if t.len() != 0 {
        lemma_line_step_bounds(t, width);
    }
}

/// The display lines of raw text on a screen `width` columns wide.
pub open spec fn display_lines(text: Seq<char>, width: nat) -> Seq<Seq<char>> {
    wrap(strip_cr(text), effective_width(width))
}

/// A line that holds `n` characters ends at or after `n`, inside the text.
pub proof fn lemma_line_end_bounds(t: Seq<char>, width: nat, n: int)
    requires
        0 <= n <= t.len(),
    ensures
        n <= line_end(t, width, n) <= t.len(),
    decreases t.len() - n,
{
    if n < t.len() && fits_line(t, width, n + 1) {
        lemma_line_end_bounds(t, width, n + 1);
    }
}

/// The first line of a text that is not empty uses up at least one character
/// and no more than there are.
pub proof fn lemma_line_step_bounds(t: Seq<char>, width: nat)
    requires
        t.len() > 0,
    ensures
        line_len(t, width) <= line_step(t, width) <= t.len(),
        1 <= line_step(t, width),
{
    lemma_line_end_bounds(t, width, 0);
    if t[0] != '\n' {
        assert(fits_line(t, width, 1));
        lemma_line_end_bounds(t, width, 1);
    }
}

/// Cuts raw text into display lines, one line per call.
pub struct LineBreaker {
    /// The text, carriage returns already dropped.
    chars: Vec<char>,
    /// Position of the first character that no line has used yet.
    curr_idx: usize,
    /// The requested screen width.
    width: usize,
}

impl LineBreaker {
    /// The text that is still to be cut into lines; it holds no carriage return.
    pub closed spec fn remaining(&self) -> Seq<char> {
        if self.curr_idx <= self.chars.len() {
            self.chars@.skip(self.curr_idx as int)
        } else {
            Seq::empty()
        }
    }

    /// The screen width that lines are cut to.
    pub closed spec fn width(&self) -> nat {
        self.width as nat
    }

    /// The display lines that are still to come.
    pub open spec fn pending_lines(&self) -> Seq<Seq<char>> {
        wrap(self.remaining(), effective_width(self.width()))
    }

    /// A breaker at the start of `contents`, for a screen `width` columns wide.
    pub fn new(width: usize, contents: &str) -> (lb: Self)
        ensures
            lb.width() == width,
            lb.remaining() == strip_cr(contents@),
            lb.pending_lines() == display_lines(contents@, width as nat),
    {
        let mut chars: Vec<char> = Vec::new();
        for c in it: contents.chars()
            invariant
                it.seq() == contents@,
                chars@ == strip_cr(it.seq().take(it.index())),
        {
            proof {
                let k = it.index();
                let s = it.seq();
                reveal(Seq::filter);
                assert(s.take(k + 1).drop_last() == s.take(k));
            }
            if c != '\r' {
                chars.push(c);
            }
        }
        proof {
            assert(contents@.take(contents@.len() as int) == contents@);
            assert(chars@.skip(0) == chars@);
        }
        LineBreaker { chars, curr_idx: 0, width }
    }

    /// The next display line, or `None` when the text is used up. The line is
    /// the longest beginning of the remaining text that fits on a line; it and
    /// the newline that ends it, if one does, are taken off the remaining text.
    pub fn next(&mut self) -> (line: Option<String>)
        ensures
            final(self).width() == old(self).width(),
            match line {
                Some(l) => {
                    let t = old(self).remaining();
                    let w = effective_width(old(self).width());
                    &&& t.len() > 0
                    &&& l@ == t.take(line_len(t, w))
                    &&& final(self).remaining() == t.skip(line_step(t, w))
                    &&& l@ == old(self).pending_lines().first()
                    &&& final(self).pending_lines() == old(self).pending_lines().drop_first()
                },
                None => {
                    &&& old(self).remaining().len() == 0
                    &&& old(self).pending_lines().len() == 0
                    &&& final(self).remaining() == old(self).remaining()
                },
            },
    {
        let n = self.chars.len();
        let start = self.curr_idx;
        if start >= n {
            return None;
        }
        let width = at_least_one(self.width);
        let ghost t = self.chars@.skip(start as int);
        let mut line = String::new();
        let mut used: usize = 0;
        let mut i: usize = start;
        while i < n
            invariant
                self.chars@ == old(self).chars@,
                n == self.chars.len(),
                t == self.chars@.skip(start as int),
                start <= i <= n,
                width == effective_width(self.width as nat),
                line@ == t.take(i - start),
                used == cols(line@),
                fits_line(t, width as nat, i - start),
                line_len(t, width as nat) == line_end(t, width as nat, i - start),
            ensures
                start <= i <= n,
                line@ == t.take(i - start),
                line_len(t, width as nat) == i - start,
            decreases n - i,
        {
            let ch = self.chars[i];
            assert(ch == t[i - start]);
            proof {
                assert(t.take(i - start + 1).drop_last() == t.take(i - start));
            }
            if ch == '\n' {
                break ;
            }
            let c = width_of(ch);
            if !fits(i - start, used, c, width) {
                break ;
            }
            used = used + c;
            line.push(ch);
            i = i + 1;
            assert(line@ == t.take(i - start));
        }
        if i < n && self.chars[i] == '\n' {
            self.curr_idx = i + 1;
        } else {
            self.curr_idx = i;
        }
        assert(self.chars@.skip(self.curr_idx as int) == t.skip(self.curr_idx - start));
        Some(line)
    }

    /// All the display lines that are still to come, in order.
    pub fn collect(self) -> (lines: Vec<String>)
        ensures
            lines.deep_view() == self.pending_lines(),
    {
        let mut breaker = self;
        let mut lines: Vec<String> = Vec::new();
        loop
            invariant
                breaker.width() == self.width(),
                lines.deep_view() + breaker.pending_lines() == self.pending_lines(),
            ensures
                lines.deep_view() == self.pending_lines(),
            decreases breaker.remaining().len(),
        {
            let ghost t = breaker.remaining();
            let ghost before = lines.deep_view();
            proof {
                if t.len() > 0 {
                    lemma_line_step_bounds(t, effective_width(breaker.width()));
                }
            }
            match breaker.next() {
                None => {
                    assert(lines.deep_view() + Seq::<Seq<char>>::empty() == lines.deep_view());
                    break ;
                },
                Some(line) => {
                    lines.push(line);
                    assert(lines.deep_view() == before.push(line@));
                    assert(before.push(line@) + breaker.pending_lines() == before + (seq![line@]
                        + breaker.pending_lines()));
                },
            }
        }
        lines
    }
}

/// What holds of every display line at `width` columns: it holds neither a
/// newline nor a carriage return, and it is no wider than the screen unless
/// it is a single character that is.
pub open spec fn is_display_line(line: Seq<char>, width: nat) -> bool {
    &&& forall|j: int| 0 <= j < line.len() ==> line[j] != '\n' && line[j] != '\r'
    &&& (cols(line) <= width || line.len() == 1)
}

/// A line that grows from a prefix that fits ends at a prefix that fits, and
/// one more character would not.
pub proof fn lemma_line_end_is_longest(t: Seq<char>, width: nat, n: int)
    requires
        fits_line(t, width, n),
    ensures
        fits_line(t, width, line_end(t, width, n)),
        !fits_line(t, width, line_end(t, width, n) + 1),
    decreases t.len() - n,
{
    if n < t.len() && fits_line(t, width, n + 1) {
        lemma_line_end_is_longest(t, width, n + 1);
    }
}

/// The columns of a single character are its own.
pub proof fn lemma_cols_single(line: Seq<char>)
    requires
        line.len() == 1,
    ensures
        cols(line) == char_cols(line[0]),
{
    assert(line.drop_last().len() == 0);
    assert(cols(line.drop_last()) == 0);
}

/// Every character of the text without carriage returns stood in the text, and
/// none of them is a carriage return.
pub proof fn lemma_strip_cr_chars(text: Seq<char>)
    ensures
        forall|i: int|
            0 <= i < strip_cr(text).len() ==> #[trigger] strip_cr(text)[i] != '\r'
                && text.contains(strip_cr(text)[i]),
    decreases text.len(),
{
    reveal(Seq::filter);
    if text.len() > 0 {
        let front = text.drop_last();
        lemma_strip_cr_chars(front);
        assert forall|i: int| 0 <= i < strip_cr(text).len() implies #[trigger] strip_cr(text)[i]
            != '\r' && text.contains(strip_cr(text)[i]) by {
            if i < strip_cr(front).len() {
                let c = strip_cr(front)[i];
                assert(front.contains(c));
                let k = choose|k: int| 0 <= k < front.len() && front[k] == c;
                assert(text[k] == c);
            } else {
                assert(text[text.len() - 1] == text.last());
            }
        }
    }
}

/// Each line that wrapping makes of a text without carriage returns is a
/// display line, made of characters of that text.
pub proof fn lemma_wrap_lines(t: Seq<char>, width: nat)
    requires
        forall|i: int| 0 <= i < t.len() ==> t[i] != '\r',
    ensures
        forall|k: int|
            0 <= k < wrap(t, width).len() ==> is_display_line(#[trigger] wrap(t, width)[k], width)
                && forall|j: int|
                0 <= j < wrap(t, width)[k].len() ==> t.contains(#[trigger] wrap(t, width)[k][j]),
    decreases t.len(),
{
    if t.len() > 0 {
        let n = line_len(t, width);
        let step = line_step(t, width);
        let rest = t.skip(step);
        lemma_line_step_bounds(t, width);
        lemma_line_end_is_longest(t, width, 0);
        lemma_wrap_lines(rest, width);
        let first = t.take(n);
        assert(is_display_line(first, width));
        assert forall|k: int| 0 <= k < wrap(t, width).len() implies is_display_line(
            #[trigger] wrap(t, width)[k],
            width,
        ) && forall|j: int|
            0 <= j < wrap(t, width)[k].len() ==> t.contains(#[trigger] wrap(t, width)[k][j]) by {
            let line = wrap(t, width)[k];
            if k == 0 {
                assert(line == first);
                assert forall|j: int| 0 <= j < line.len() implies t.contains(
                    #[trigger] line[j],
                ) by {
                    assert(t[j] == line[j]);
                }
            } else {
                assert(line == wrap(rest, width)[k - 1]);
                assert forall|j: int| 0 <= j < line.len() implies t.contains(
                    #[trigger] line[j],
                ) by {
                    assert(rest.contains(line[j]));
                    let m = choose|m: int| 0 <= m < rest.len() && rest[m] == line[j];
                    assert(t[m + step] == line[j]);
                }
            }
        }
    }
}

/// Every display line holds neither a newline nor a carriage return, and is no
/// wider than the screen (a width below one counting as one) unless it is a
/// single character that is wider than the screen.
pub proof fn lemma_display_lines_are_lines(text: Seq<char>, width: nat)
    ensures
        forall|k: int|
            0 <= k < display_lines(text, width).len() ==> is_display_line(
                #[trigger] display_lines(text, width)[k],
                effective_width(width),
            ),
{
    lemma_strip_cr_chars(text);
    lemma_wrap_lines(strip_cr(text), effective_width(width));
}

/// On a screen at least one column wide, where no character of the text is
/// wider than the screen, no display line is wider than the screen, and none
/// holds a newline or a carriage return.
pub proof fn lemma_display_lines_fit(text: Seq<char>, width: nat)
    requires
        width >= 1,
        forall|i: int|
            0 <= i < text.len() && text[i] != '\n' && text[i] != '\r' ==> char_cols(text[i])
                <= width,
    ensures
        forall|k: int|
            0 <= k < display_lines(text, width).len() ==> {
                let line = #[trigger] display_lines(text, width)[k];
                &&& cols(line) <= width
                &&& forall|j: int| 0 <= j < line.len() ==> line[j] != '\n' && line[j] != '\r'
            },
{
    let t = strip_cr(text);
    lemma_strip_cr_chars(text);
    lemma_wrap_lines(t, width);
    assert forall|k: int| 0 <= k < display_lines(text, width).len() implies {
        let line = #[trigger] display_lines(text, width)[k];
        &&& cols(line) <= width
        &&& forall|j: int| 0 <= j < line.len() ==> line[j] != '\n' && line[j] != '\r'
    } by {
        let line = display_lines(text, width)[k];
        assert(is_display_line(line, width));
        if line.len() == 1 {
            lemma_cols_single(line);
            assert(t.contains(line[0]));
            let m = choose|m: int| 0 <= m < t.len() && t[m] == line[0];
            assert(text.contains(t[m]));
            let i = choose|i: int| 0 <= i < text.len() && text[i] == t[m];
            assert(char_cols(text[i]) <= width);
        }
    }
}

/// `text` without its newlines.
pub open spec fn strip_newlines(text: Seq<char>) -> Seq<char> {
    text.filter(|c: char| c != '\n')
}

/// A text without newlines is what is left of itself when newlines are
/// dropped.
pub proof fn lemma_strip_newlines_of_line(line: Seq<char>)
    requires
        forall|i: int| 0 <= i < line.len() ==> line[i] != '\n',
    ensures
        strip_newlines(line) == line,
    decreases line.len(),
{
    reveal(Seq::filter);
    if line.len() > 0 {
        lemma_strip_newlines_of_line(line.drop_last());
        assert(line.drop_last().push(line.last()) == line);
    }
}

/// Dropping the newlines from nothing, or from a single newline, leaves
/// nothing.
proof fn lemma_strip_newlines_of_gap(gap: Seq<char>)
    requires
        gap.len() <= 1,
        gap.len() == 1 ==> gap[0] == '\n',
    ensures
        strip_newlines(gap) == Seq::<char>::empty(),
{
    reveal(Seq::filter);
    if gap.len() == 1 {
        assert(gap.drop_last().len() == 0);
        assert(strip_newlines(gap.drop_last()) == gap.drop_last());
    }
}

/// Dropping the newlines from a text made of three parts drops them from
/// each part.
proof fn lemma_strip_newlines_of_parts(a: Seq<char>, b: Seq<char>, c: Seq<char>)
    ensures
        strip_newlines((a + b) + c) == (strip_newlines(a) + strip_newlines(b)) + strip_newlines(c),
{
    Seq::filter_distributes_over_add(a + b, c, |ch: char| ch != '\n');
    Seq::filter_distributes_over_add(a, b, |ch: char| ch != '\n');
}

/// A line followed by more lines, read one after another, is the line
/// followed by the others read one after another.
proof fn lemma_flatten_first(first: Seq<char>, others: Seq<Seq<char>>)
    ensures
        (seq![first] + others).flatten() == first + others.flatten(),
{
    let all = seq![first] + others;
    assert(all.first() == first);
    assert(all.drop_first() == others);
}

/// The lines that wrapping makes of a text, read one after another, are the
/// text without its newlines: wrapping drops the newlines and nothing else,
/// and adds nothing.
pub proof fn lemma_wrap_rebuilds_text(t: Seq<char>, width: nat)
    ensures
        wrap(t, width).flatten() == strip_newlines(t),
    decreases t.len(),
{
    if t.len() == 0 {
        reveal(Seq::filter);
    } else {
        lemma_line_step_bounds(t, width);
        lemma_line_end_is_longest(t, width, 0);
        let n = line_len(t, width);
        let step = line_step(t, width);
        let first = t.take(n);
        let gap = t.subrange(n, step);
        let rest = t.skip(step);
        lemma_wrap_rebuilds_text(rest, width);
        lemma_flatten_first(first, wrap(rest, width));
        lemma_strip_newlines_of_line(first);
        lemma_strip_newlines_of_gap(gap);
        lemma_strip_newlines_of_parts(first, gap, rest);
        assert(t == (first + gap) + rest);
        assert((first + Seq::<char>::empty()) + strip_newlines(rest) == first + strip_newlines(
            rest,
        ));
    }
}

/// The display lines, read one after another, are the text without its
/// carriage returns and newlines.
pub proof fn lemma_display_lines_rebuild_text(text: Seq<char>, width: nat)
    ensures
        display_lines(text, width).flatten() == strip_newlines(strip_cr(text)),
{
    lemma_wrap_rebuilds_text(strip_cr(text), effective_width(width));
}

/// Text without characters has no display lines.
pub proof fn lemma_no_text_no_lines(text: Seq<char>, width: nat)
    requires
        strip_cr(text).len() == 0,
    ensures
        display_lines(text, width).len() == 0,
{
}

/// A newline behind a text does not move the end of a line within the text.
proof fn lemma_line_end_before_final_newline(t: Seq<char>, width: nat, n: int)
    requires
        0 <= n <= t.len(),
    ensures
        line_end(t.push('\n'), width, n) == line_end(t, width, n),
    decreases t.len() - n,
{
    let longer = t.push('\n');
    if n < t.len() {
        assert(longer.take(n + 1) == t.take(n + 1));
        assert(fits_line(longer, width, n + 1) == fits_line(t, width, n + 1)) by {
            if fits_line(t, width, n + 1) {
                assert forall|i: int| 0 <= i < n + 1 implies longer[i] != '\n' by {
                    assert(longer[i] == t[i]);
                }
            }
            if fits_line(longer, width, n + 1) {
                assert forall|i: int| 0 <= i < n + 1 implies t[i] != '\n' by {
                    assert(longer[i] == t[i]);
                }
            }
        }
        if fits_line(t, width, n + 1) {
            lemma_line_end_before_final_newline(t, width, n + 1);
        }
    } else {
        assert(longer[n] == '\n');
        assert(!fits_line(longer, width, n + 1));
    }
}

/// A text that does not end in a newline has a last display line that is not
/// empty, and one newline behind the text adds no line.
pub proof fn lemma_wrap_final_newline(t: Seq<char>, width: nat)
    requires
        t.len() > 0,
        t.last() != '\n',
    ensures
        wrap(t, width).len() > 0,
        wrap(t, width).last().len() > 0,
        wrap(t.push('\n'), width) == wrap(t, width),
    decreases t.len(),
{
    let longer = t.push('\n');
    lemma_line_step_bounds(t, width);
    lemma_line_step_bounds(longer, width);
    lemma_line_end_before_final_newline(t, width, 0);
    let n = line_len(t, width);
    let step = line_step(t, width);
    let rest = t.skip(step);
    assert(longer.take(n) == t.take(n));
    if n == t.len() {
        assert(longer[n] == '\n');
        assert(line_step(longer, width) == n + 1);
        assert(longer.skip(n + 1).len() == 0);
        assert(rest.len() == 0);
        assert(wrap(longer.skip(n + 1), width) == Seq::<Seq<char>>::empty());
        assert(wrap(rest, width) == Seq::<Seq<char>>::empty());
        assert(wrap(longer, width) == seq![t.take(n)] + Seq::<Seq<char>>::empty());
        assert(wrap(t, width) == seq![t.take(n)] + Seq::<Seq<char>>::empty());
        assert(wrap(t, width).last() == t.take(n));
    } else {
        assert(longer[n] == t[n]);
        assert(line_step(longer, width) == step);
        assert(longer.skip(step) == rest.push('\n'));
        assert(rest.len() > 0);
        assert(rest.last() == t.last());
        lemma_wrap_final_newline(rest, width);
        let tail = wrap(rest, width);
        assert(wrap(t, width) == seq![t.take(n)] + tail);
        assert(wrap(t, width).last() == tail.last());
    }
}

/// Raw text whose last character, carriage returns left aside, is not a
/// newline has a last display line that is not empty, and one newline behind
/// the text adds no display line.
pub proof fn lemma_display_lines_final_newline(text: Seq<char>, width: nat)
    requires
        strip_cr(text).len() > 0,
        strip_cr(text).last() != '\n',
    ensures
        display_lines(text, width).len() > 0,
        display_lines(text, width).last().len() > 0,
        display_lines(text.push('\n'), width) == display_lines(text, width),
{
    lemma_wrap_final_newline(strip_cr(text), effective_width(width));
    assert(strip_cr(text.push('\n')) == strip_cr(text).push('\n')) by {
        reveal(Seq::filter);
        assert(text.push('\n').drop_last() == text);
    }
}

/// A run of characters is at least as wide as each of its beginnings.
pub proof fn lemma_cols_of_prefix(s: Seq<char>, m: int)
    requires
        0 <= m <= s.len(),
    ensures
        cols(s.take(m)) <= cols(s),
    decreases s.len(),
{
    if m == s.len() {
        assert(s.take(m) == s);
    } else {
        lemma_cols_of_prefix(s.drop_last(), m);
        assert(s.drop_last().take(m) == s.take(m));
    }
}

/// Where the first `n` characters fit on a line, so do the first `m` of them.
pub proof fn lemma_fits_line_shorter(t: Seq<char>, width: nat, n: int, m: int)
    requires
        fits_line(t, width, n),
        0 <= m <= n,
    ensures
        fits_line(t, width, m),
{
    if m > 1 {
        lemma_cols_of_prefix(t.take(n), m);
        assert(t.take(n).take(m) == t.take(m));
    }
}

/// The first display line is as long as a line can be: its characters fit on
/// a line, and no longer beginning of the text does.
pub proof fn lemma_line_len_is_longest(t: Seq<char>, width: nat)
    ensures
        fits_line(t, width, line_len(t, width)),
        forall|n: int| line_len(t, width) < n ==> !fits_line(t, width, n),
{
    lemma_line_end_is_longest(t, width, 0);
    let len = line_len(t, width);
    assert forall|n: int| len < n implies !fits_line(t, width, n) by {
        if fits_line(t, width, n) {
            lemma_fits_line_shorter(t, width, n, len + 1);
        }
    }
}

/// A run of characters is at least as wide as each of its characters.
pub proof fn lemma_cols_of_member(s: Seq<char>, j: int)
    requires
        0 <= j < s.len(),
    ensures
        char_cols(s[j]) <= cols(s),
{
    lemma_cols_of_prefix(s, j + 1);
    assert(s.take(j + 1).last() == s[j]);
}

/// Whatever stands in the lines read one after another stands in one of the
/// lines.
proof fn lemma_flatten_member(lines: Seq<Seq<char>>, c: char)
    requires
        lines.flatten().contains(c),
    ensures
        exists|k: int, j: int| 0 <= k < lines.len() && 0 <= j < lines[k].len() && lines[k][j] == c,
    decreases lines.len(),
{
    if lines.len() > 0 {
        let first = lines.first();
        let others = lines.drop_first();
        let all = lines.flatten();
        let at = choose|at: int| 0 <= at < all.len() && all[at] == c;
        if at < first.len() {
            assert(lines[0][at] == c);
        } else {
            assert(others.flatten()[at - first.len()] == c);
            lemma_flatten_member(others, c);
            let (k, j) = choose|k: int, j: int|
                0 <= k < others.len() && 0 <= j < others[k].len() && others[k][j] == c;
            assert(lines[k + 1][j] == c);
        }
    }
}

/// A character that is wider than the screen stands alone on a display line,
/// which is then wider than the screen: the one case in which a line is.
pub proof fn lemma_too_wide_character_stands_alone(text: Seq<char>, width: nat, i: int)
    requires
        0 <= i < text.len(),
        text[i] != '\n',
        text[i] != '\r',
        char_cols(text[i]) > effective_width(width),
    ensures
        exists|k: int|
            0 <= k < display_lines(text, width).len() && #[trigger] display_lines(text, width)[k]
                == seq![text[i]],
{
    let lines = display_lines(text, width);
    let c = text[i];
    text.lemma_filter_contains(|c: char| c != '\r', i);
    let bare = strip_cr(text);
    let at = choose|at: int| 0 <= at < bare.len() && bare[at] == c;
    bare.lemma_filter_contains(|c: char| c != '\n', at);
    lemma_display_lines_rebuild_text(text, width);
    lemma_flatten_member(lines, c);
    let (k, j) = choose|k: int, j: int|
        0 <= k < lines.len() && 0 <= j < lines[k].len() && lines[k][j] == c;
    lemma_display_lines_are_lines(text, width);
    lemma_cols_of_member(lines[k], j);
    assert(is_display_line(lines[k], effective_width(width)));
    assert(lines[k] == seq![c]);
}

/// A width of zero is taken for a width of one.
pub proof fn lemma_width_zero_is_width_one(text: Seq<char>)
    ensures
        display_lines(text, 0) == display_lines(text, 1),
{
}

} // verus!
