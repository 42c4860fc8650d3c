//! Laws that relate seeks to one another.

use vstd::prelude::*;
use crate::lines_bwd::{is_bwd_scan, is_bwd_seek};
use crate::lines_fwd::{is_fwd_scan, is_fwd_seek};
use crate::newlines::{count_nl, NEWLINE, lemma_count_bounds, lemma_count_last_newline, lemma_count_mono, lemma_count_split};

verus! {

/// A forward seek whose target line is already reached returns the offset and
/// line it was given.
pub proof fn lemma_fwd_noop(h: Seq<u8>, offset: int, line: int, line_stop: int, res: (int, int))
    requires
        0 <= offset <= h.len(),
        line >= line_stop,
        is_fwd_seek(h, offset, line, line_stop, res),
    ensures
        res == (offset, line),
{
}

/// A backward seek whose target line is already reached returns the offset and
/// line it was given.
pub proof fn lemma_bwd_noop(h: Seq<u8>, offset: int, line: int, line_stop: int, res: (int, int))
    requires
        0 <= offset <= h.len(),
        line <= line_stop,
        is_bwd_seek(h, offset, line, line_stop, res),
    ensures
        res == (offset, line),
{
}

/// The forward seek contract determines the result: any two strategies that
/// meet it, the byte-at-a-time one and a windowed one alike, return the same
/// pair on the same input.
pub proof fn lemma_fwd_strategies_agree(h: Seq<u8>, offset: int, line: int, line_stop: int, a: (int, int), b: (int, int))
    requires
        is_fwd_seek(h, offset, line, line_stop, a),
        is_fwd_seek(h, offset, line, line_stop, b),
    ensures
        a == b,
{
    let beg = if offset <= h.len() { offset } else { h.len() as int };
    if line < line_stop {
        lemma_fwd_scan_order(h, beg, line, line_stop, a, b);
        lemma_fwd_scan_order(h, beg, line, line_stop, b, a);
    }
}

/// Of two forward scan results, neither stands before the other.
proof fn lemma_fwd_scan_order(h: Seq<u8>, beg: int, line: int, line_stop: int, a: (int, int), b: (int, int))
    requires
        is_fwd_scan(h, beg, line, line_stop, a),
        is_fwd_scan(h, beg, line, line_stop, b),
    ensures
        b.0 <= a.0,
{
    if a.0 < b.0 {
        lemma_count_split(h, beg, a.0, b.0);
        lemma_count_bounds(h, a.0, b.0);
        if b.1 == line_stop && h[b.0 - 1] == NEWLINE {
            lemma_count_last_newline(h, a.0, b.0);
        }
    }
}

/// The backward seek contract determines the result: any two strategies that
/// meet it, the byte-at-a-time one and a windowed one alike, return the same
/// pair on the same input.
pub proof fn lemma_bwd_strategies_agree(h: Seq<u8>, offset: int, line: int, line_stop: int, a: (int, int), b: (int, int))
    requires
        is_bwd_seek(h, offset, line, line_stop, a),
        is_bwd_seek(h, offset, line, line_stop, b),
    ensures
        a == b,
{
    let end = if offset <= h.len() { offset } else { h.len() as int };
    if line > line_stop {
        lemma_bwd_scan_order(h, end, line, line_stop, a, b);
        lemma_bwd_scan_order(h, end, line, line_stop, b, a);
    }
}

/// Of two backward scan results, neither stands before the other.
proof fn lemma_bwd_scan_order(h: Seq<u8>, end: int, line: int, line_stop: int, a: (int, int), b: (int, int))
    requires
        is_bwd_scan(h, end, line, line_stop, a),
        is_bwd_scan(h, end, line, line_stop, b),
    ensures
        b.0 <= a.0,
{
    if a.0 < b.0 {
        lemma_count_split(h, a.0, b.0, end);
        lemma_count_last_newline(h, a.0, b.0);
    }
}

/// A forward scan stops at `line_stop` or at the line index of the buffer's
/// end, whichever is smaller.
proof fn lemma_fwd_scan_line(h: Seq<u8>, beg: int, line: int, line_stop: int, res: (int, int))
    requires
        0 <= beg,
        is_fwd_scan(h, beg, line, line_stop, res),
    ensures
        res.1 == if line + count_nl(h, beg, h.len() as int) < line_stop {
            line + count_nl(h, beg, h.len() as int)
        } else {
            line_stop
        },
{
    lemma_count_mono(h, beg, res.0, h.len() as int);
}

/// For a fixed buffer, offset and starting line, the line index that a forward
/// seek returns does not decrease as the target line grows.
pub proof fn lemma_fwd_monotone(h: Seq<u8>, offset: int, line: int, stop1: int, stop2: int, a: (int, int), b: (int, int))
    requires
        0 <= offset,
        stop1 <= stop2,
        is_fwd_seek(h, offset, line, stop1, a),
        is_fwd_seek(h, offset, line, stop2, b),
    ensures
        a.1 <= b.1,
{
    let beg = if offset <= h.len() { offset } else { h.len() as int };
    lemma_count_bounds(h, beg, h.len() as int);
    if line < stop1 {
        lemma_fwd_scan_line(h, beg, line, stop1, a);
    }
    if line < stop2 {
        lemma_fwd_scan_line(h, beg, line, stop2, b);
        lemma_count_bounds(h, beg, b.0);
    }
}

/// In an empty buffer, seeks from line zero return position zero at line zero.
pub proof fn lemma_empty_haystack(h: Seq<u8>, offset: int, line_stop: int, f: (int, int), b: (int, int))
    requires
        h.len() == 0,
        0 <= offset,
        is_fwd_seek(h, offset, 0, line_stop, f),
        is_bwd_seek(h, offset, 0, line_stop, b),
    ensures
        f == (0int, 0int),
        b == (0int, 0int),
{
}

/// In a buffer without newlines, a forward seek toward any later line ends at
/// the buffer's end with the line index it started with.
pub proof fn lemma_fwd_no_newlines(h: Seq<u8>, offset: int, line: int, line_stop: int, res: (int, int))
    requires
        0 <= offset,
        count_nl(h, 0, h.len() as int) == 0,
        line < line_stop,
        is_fwd_seek(h, offset, line, line_stop, res),
    ensures
        res == (h.len() as int, line),
{
    let beg = if offset <= h.len() { offset } else { h.len() as int };
    lemma_count_split(h, 0, beg, h.len() as int);
    lemma_count_split(h, beg, res.0, h.len() as int);
    lemma_count_bounds(h, 0, beg);
    lemma_count_bounds(h, beg, res.0);
    lemma_count_bounds(h, res.0, h.len() as int);
    if res.1 == line_stop {
        lemma_count_last_newline(h, beg, res.0);
    }
}

} // verus!
