//! Seeking backward to the start of an earlier line.

use vstd::prelude::*;
use crate::dispatch::Kernel;
use crate::newlines::{count_newlines, count_nl, lemma_count_split, lemma_count_step_low, CoordType, NEWLINE};

verus! {

/// `res` is what a backward scan from `end` toward the start of `h` yields,
/// starting at line `line` with `line >= line_stop`: each newline passed lowers
/// the line index, and the scan stops just past the first newline met once the
/// index is `line_stop` (the start of that line), or at the start of `h`.
pub open spec fn is_bwd_scan(h: Seq<u8>, end: int, line: int, line_stop: int, res: (int, int)) -> bool {
    &&& 0 <= res.0 <= end
    &&& res.1 == line - count_nl(h, res.0, end)
    &&& {
        ||| (res.1 == line_stop && 0 < res.0 && h[res.0 - 1] == NEWLINE)
        ||| (res.0 == 0 && res.1 >= line_stop)
    }
}

/// `res` is the result of seeking backward in `h` from `offset` (clamped to the
/// length of `h`), at line `line`, to the start of line `line_stop`: nothing
/// moves when `line <= line_stop`, and a backward scan runs otherwise.
pub open spec fn is_bwd_seek(h: Seq<u8>, offset: int, line: int, line_stop: int, res: (int, int)) -> bool {
    let end = if offset <= h.len() { offset } else { h.len() as int };
    if line <= line_stop {
        res == (end, line)
    } else {
        is_bwd_scan(h, end, line, line_stop, res)
    }
}

/// Scans byte by byte down from `end`, counting newlines, until it passes the
/// newline before line `line_stop` or reaches the start of the buffer.
fn scan_bwd(h: &[u8], end: usize, line: CoordType, line_stop: CoordType) -> (res: (usize, CoordType))
    requires
        end <= h@.len(),
        line >= line_stop,
    ensures
        is_bwd_scan(h@, end as int, line as int, line_stop as int, (res.0 as int, res.1 as int)),
{
    let mut it: usize = end;
    let mut cur: CoordType = line;
    while it > 0
        invariant
            it <= end <= h@.len(),
            cur == line - count_nl(h@, it as int, end as int),
            cur >= line_stop,
        decreases it,
    {
        let n = it - 1;
        proof {
            lemma_count_step_low(h@, n as int, end as int);
        }
        if h[n] == NEWLINE {
            if cur == line_stop {
                return (it, cur);
            }
            cur = cur - 1;
        }
        it = n;
    }
    (it, cur)
}

/// A windowed strategy: from `end`, commits whole windows of `width` bytes
/// below it while the newlines they hold leave the line index at or above
/// `line_stop`, then pinpoints the stopping byte with the byte-at-a-time scan
/// from the top of the first window that it cannot commit.
fn scan_bwd_windowed(h: &[u8], end: usize, line: CoordType, line_stop: CoordType, width: usize) -> (res: (usize, CoordType))
    requires
        end <= h@.len(),
        line >= line_stop,
        width >= 1,
    ensures
        is_bwd_scan(h@, end as int, line as int, line_stop as int, (res.0 as int, res.1 as int)),
{
    let mut it: usize = end;
    let mut cur: CoordType = line;
    while it >= width
        invariant
            it <= end <= h@.len(),
            cur == line - count_nl(h@, it as int, end as int),
            cur >= line_stop,
            width >= 1,
        decreases it,
    {
        let c = count_newlines(h, it - width, it);
        let next: i128 = cur as i128 - c as i128;
        if next < line_stop as i128 {
            break;
        }
        proof {
            lemma_count_split(h@, (it - width) as int, it as int, end as int);
        }
        cur = next as CoordType;
        it = it - width;
    }
    let res = scan_bwd(h, it, cur, line_stop);
    proof {
        lemma_count_split(h@, res.0 as int, it as int, end as int);
    }
    res
}

/// Seeks backward with the given strategy; see [`lines_bwd`]. Every strategy
/// returns the same result.
pub fn lines_bwd_with(kernel: Kernel, haystack: &[u8], offset: usize, line: CoordType, line_stop: CoordType) -> (res: (usize, CoordType))
    ensures
        is_bwd_seek(haystack@, offset as int, line as int, line_stop as int, (res.0 as int, res.1 as int)),
{
    let end = if offset <= haystack.len() { offset } else { haystack.len() };
    if line <= line_stop {
        return (end, line);
    }
    match kernel {
        Kernel::Scalar => scan_bwd(haystack, end, line, line_stop),
        _ => scan_bwd_windowed(haystack, end, line, line_stop, kernel.window()),
    }
}

/// The byte-at-a-time strategy: seeks backward from `offset` (clamped to the
/// length of `haystack`), where the line index is `line`, to the start of line
/// `line_stop`, and returns the position reached and its line index.
pub fn lines_bwd_fallback(haystack: &[u8], offset: usize, line: CoordType, line_stop: CoordType) -> (res: (usize, CoordType))
    ensures
        is_bwd_seek(haystack@, offset as int, line as int, line_stop as int, (res.0 as int, res.1 as int)),
{
    lines_bwd_with(Kernel::Scalar, haystack, offset, line, line_stop)
}

/// Seeks backward from `offset` (clamped to the length of `haystack`), where
/// the line index is `line`, to the start of line `line_stop`. Returns the
/// position just past the newline that ends the line before it, with
/// `line_stop`; or, when the buffer's start comes first, zero with the line
/// index there. When `line <= line_stop` it returns the clamped offset and
/// `line` unchanged. Scans with 32-byte windows; every strategy gives the
/// same result.
pub fn lines_bwd(haystack: &[u8], offset: usize, line: CoordType, line_stop: CoordType) -> (res: (usize, CoordType))
    ensures
        is_bwd_seek(haystack@, offset as int, line as int, line_stop as int, (res.0 as int, res.1 as int)),
{
    lines_bwd_with(Kernel::Wide32, haystack, offset, line, line_stop)
}

} // verus!
