//! Display widths of characters.
//!
//! How many terminal columns a character occupies comes from the `unicode-width`
//! tables. That lookup is the one thing in this module that is taken on trust;
//! everything decided from its answer is verified.

use vstd::prelude::*;
use unicode_width::UnicodeWidthChar;

verus! {

/// What `unicode_width::UnicodeWidthChar::width` reports for `c`: the character's
/// width in columns, or `None` for a control character. The tables are fixed
/// data, so the answer depends on `c` alone.
pub uninterp spec fn table_width(c: char) -> Option<usize>;

/// Looks `c` up with `unicode_width::UnicodeWidthChar::width`.
///
/// Trusted: nothing is claimed about the answer beyond its being the table's
/// entry for `c`.
#[verifier::external_body]
fn lookup_width(c: char) -> (reported: Option<usize>)
    ensures
        reported == table_width(c),
{
    UnicodeWidthChar::width(c)
}

/// Columns for a character whose table entry is `reported`: the entry itself,
/// and one column where the table defines no width.
pub open spec fn columns_for(reported: Option<usize>) -> nat {
    match reported {
        Some(n) => n as nat,
        None => 1,
    }
}

/// Columns that `c` occupies on the terminal.
pub open spec fn char_cols(c: char) -> nat {
    columns_for(table_width(c))
}

/// Total columns of a run of characters: the sum of the columns of each.
pub open spec fn cols(s: Seq<char>) -> nat
    decreases s.len(),
{
    if s.len() == 0 {
        0
    } else {
        cols(s.drop_last()) + char_cols(s.last())
    }
}

/// The width that wrapping works with: a requested width below one counts as one.
pub open spec fn effective_width(width: nat) -> nat {
    if width < 1 {
        1
    } else {
        width
    }
}

/// Whether a character of `cols` columns may join a line that already holds
/// `taken` characters in `used` columns, on a screen `width` columns wide.
/// The first character of a line is always taken, however wide; after that a
/// character joins only while the line stays within the width.
pub open spec fn joins_line(taken: nat, used: nat, cols: nat, width: nat) -> bool {
    taken == 0 || used + cols <= width
}

/// Turns a table entry into a column count.
pub fn columns(reported: Option<usize>) -> (n: usize)
    ensures
        n == columns_for(reported),
{
    match reported {
        Some(n) => n,
        None => 1,
    }
}

/// Decides [`joins_line`] without overflow, whatever the operands.
pub fn fits(taken: usize, used: usize, cols: usize, width: usize) -> (ok: bool)
    ensures
        ok == joins_line(taken as nat, used as nat, cols as nat, width as nat),
{
    taken == 0 || (used <= width && cols <= width - used)
}

/// Columns that `c` occupies, as the width tables have it.
pub fn width_of(c: char) -> (n: usize)
    ensures
        n == char_cols(c),
{
    columns(lookup_width(c))
}

/// `width`, or one if it is zero.
pub fn at_least_one(width: usize) -> (w: usize)
    ensures
        w == effective_width(width as nat),
{
    if width < 1 {
        1
    } else {
        width
    }
}

} // verus!
