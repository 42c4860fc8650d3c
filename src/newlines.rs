//! The mathematical model: how many newline bytes a range of a buffer holds.

use vstd::prelude::*;

verus! {

/// Line indices are signed, so that callers may compute differences freely.
pub type CoordType = isize;

/// The byte that ends a line.
pub const NEWLINE: u8 = 10;

/// The number of newline bytes in `h[lo..hi]` (zero for an empty range).
pub open spec fn count_nl(h: Seq<u8>, lo: int, hi: int) -> int
    decreases hi - lo,
{
    if hi <= lo {
        0
    } else {
        count_nl(h, lo, hi - 1) + if h[hi - 1] == NEWLINE { 1int } else { 0int }
    }
}

/// A range's count is at least zero and at most its length.
pub proof fn lemma_count_bounds(h: Seq<u8>, lo: int, hi: int)
    requires
        lo <= hi,
    ensures
        0 <= count_nl(h, lo, hi) <= hi - lo,
    decreases hi - lo,
{
    if lo < hi {
        lemma_count_bounds(h, lo, hi - 1);
    }
}

/// Counting over two adjacent ranges is counting over their union.
pub proof fn lemma_count_split(h: Seq<u8>, lo: int, mid: int, hi: int)
    requires
        lo <= mid <= hi,
    ensures
        count_nl(h, lo, hi) == count_nl(h, lo, mid) + count_nl(h, mid, hi),
    decreases hi - mid,
{
    if mid < hi {
        lemma_count_split(h, lo, mid, hi - 1);
    }
}

/// The count of a range, peeled from its low end.
pub proof fn lemma_count_step_low(h: Seq<u8>, lo: int, hi: int)
    requires
        lo < hi,
    ensures
        count_nl(h, lo, hi) == count_nl(h, lo + 1, hi) + if h[lo] == NEWLINE { 1int } else { 0int },
{
    lemma_count_split(h, lo, lo + 1, hi);
    assert(count_nl(h, lo, lo) == 0);
}

/// Widening a range never lowers its count.
pub proof fn lemma_count_mono(h: Seq<u8>, lo: int, mid: int, hi: int)
    requires
        lo <= mid <= hi,
    ensures
        count_nl(h, lo, mid) <= count_nl(h, lo, hi),
        count_nl(h, mid, hi) <= count_nl(h, lo, hi),
{
    lemma_count_split(h, lo, mid, hi);
    lemma_count_bounds(h, lo, mid);
    lemma_count_bounds(h, mid, hi);
}

/// A range that ends in a newline holds at least one.
pub proof fn lemma_count_last_newline(h: Seq<u8>, lo: int, hi: int)
    requires
        lo < hi,
        h[hi - 1] == NEWLINE,
    ensures
        count_nl(h, lo, hi) >= 1,
{
    lemma_count_bounds(h, lo, hi - 1);
}

/// Counts the newline bytes of `h[beg..end]`.
pub fn count_newlines(h: &[u8], beg: usize, end: usize) -> (c: usize)
    requires
        beg <= end <= h@.len(),
    ensures
        c == count_nl(h@, beg as int, end as int),
{
    let mut c: usize = 0;
    let mut i: usize = beg;
    while i < end
        invariant
            beg <= i <= end <= h@.len(),
            c == count_nl(h@, beg as int, i as int),
            c <= i - beg,
        decreases end - i,
    {
        if h[i] == NEWLINE {
            c = c + 1;
        }
        i = i + 1;
    }
    c
}

} // verus!
