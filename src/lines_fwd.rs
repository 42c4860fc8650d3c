//! Seeking forward to the start of a later line.

use vstd::prelude::*;
use crate::dispatch::Kernel;
use crate::newlines::{count_newlines, count_nl, lemma_count_split, CoordType, NEWLINE};

verus! {

/// `res` is what a forward scan from `beg` to the end of `h` yields, starting at
/// line `line` with `line < line_stop`: the position just past the newline that
/// brings the line index to `line_stop`, or the end of `h` with the line index
/// reached there when `h` runs out first.
pub open spec fn is_fwd_scan(h: Seq<u8>, beg: int, line: int, line_stop: int, res: (int, int)) -> bool {
    &&& beg <= res.0 <= h.len()
    &&& res.1 == line + count_nl(h, beg, res.0)
    &&& {
        ||| (res.1 == line_stop && beg < res.0 && h[res.0 - 1] == NEWLINE)
        ||| (res.0 == h.len() && res.1 < line_stop)
    }
}

/// `res` is the result of seeking forward in `h` from `offset` (clamped to the
/// length of `h`), at line `line`, to line `line_stop`: nothing moves when the
/// target is already reached, and a forward scan runs otherwise.
pub open spec fn is_fwd_seek(h: Seq<u8>, offset: int, line: int, line_stop: int, res: (int, int)) -> bool {
    let beg = if offset <= h.len() { offset } else { h.len() as int };
    if line >= line_stop {
        res == (beg, line)
    } else {
        is_fwd_scan(h, beg, line, line_stop, res)
    }
}

/// Scans byte by byte from `beg`, counting newlines, until the line index
/// reaches `line_stop` or the buffer ends.
fn scan_fwd(h: &[u8], beg: usize, line: CoordType, line_stop: CoordType) -> (res: (usize, CoordType))
    requires
        beg <= h@.len(),
        line < line_stop,
    ensures
        is_fwd_scan(h@, beg as int, line as int, line_stop as int, (res.0 as int, res.1 as int)),
{
    let mut it: usize = beg;
    let mut cur: CoordType = line;
    while it < h.len()
        invariant
            beg <= it <= h@.len(),
            cur == line + count_nl(h@, beg as int, it as int),
            cur < line_stop,
        decreases h@.len() - it,
    {
        let c = h[it];
        it = it + 1;
        if c == NEWLINE {
            cur = cur + 1;
            if cur == line_stop {
                return (it, cur);
            }
        }
    }
    (it, cur)
}

/// The byte-at-a-time strategy: seeks forward from `offset` (clamped to the
/// length of `haystack`), where the line index is `line`, to the start of line
/// `line_stop`, and returns the position reached and its line index.
pub fn lines_fwd_fallback(haystack: &[u8], offset: usize, line: CoordType, line_stop: CoordType) -> (res: (usize, CoordType))
    ensures
        is_fwd_seek(haystack@, offset as int, line as int, line_stop as int, (res.0 as int, res.1 as int)),
{
    lines_fwd_with(Kernel::Scalar, haystack, offset, line, line_stop)
}

/// A windowed strategy: from `beg`, commits whole windows of `width` bytes
/// while the newlines they hold leave the line index short of `line_stop`,
/// then pinpoints the stopping byte with the byte-at-a-time scan from the start
/// of the first window that it cannot commit.
fn scan_fwd_windowed(h: &[u8], beg: usize, line: CoordType, line_stop: CoordType, width: usize) -> (res: (usize, CoordType))
    requires
        beg <= h@.len(),
        line < line_stop,
        width >= 1,
    ensures
        is_fwd_scan(h@, beg as int, line as int, line_stop as int, (res.0 as int, res.1 as int)),
{
    let mut it: usize = beg;
    let mut cur: CoordType = line;
    while h.len() - it >= width
        invariant
            beg <= it <= h@.len(),
            cur == line + count_nl(h@, beg as int, it as int),
            cur < line_stop,
            width >= 1,
        decreases h@.len() - it,
    {
        let c = count_newlines(h, it, it + width);
        let next: i128 = cur as i128 + c as i128;
        if next >= line_stop as i128 {
            break;
        }
        proof {
            lemma_count_split(h@, beg as int, it as int, (it + width) as int);
        }
        cur = next as CoordType;
        it = it + width;
    }
    let res = scan_fwd(h, it, cur, line_stop);
    proof {
        lemma_count_split(h@, beg as int, it as int, res.0 as int);
    }
    res
}

/// Seeks forward with the given strategy; see [`lines_fwd`]. Every strategy
/// returns the same result.
pub fn lines_fwd_with(kernel: Kernel, haystack: &[u8], offset: usize, line: CoordType, line_stop: CoordType) -> (res: (usize, CoordType))
    ensures
        is_fwd_seek(haystack@, offset as int, line as int, line_stop as int, (res.0 as int, res.1 as int)),
{
    let beg = if offset <= haystack.len() { offset } else { haystack.len() };
    if line >= line_stop {
        return (beg, line);
    }
    match kernel {
        Kernel::Scalar => scan_fwd(haystack, beg, line, line_stop),
        _ => scan_fwd_windowed(haystack, beg, line, line_stop, kernel.window()),
    }
}

/// Seeks forward from `offset` (clamped to the length of `haystack`), where the
/// line index is `line`, to the start of line `line_stop`. Returns the position
/// just past the newline that begins that line, with `line_stop`; or, when the
/// buffer ends first, its length with the (smaller) line index reached there.
/// When `line >= line_stop` it returns the clamped offset and `line` unchanged.
/// Scans with 32-byte windows; every strategy gives the same result.
pub fn lines_fwd(haystack: &[u8], offset: usize, line: CoordType, line_stop: CoordType) -> (res: (usize, CoordType))
    ensures
        is_fwd_seek(haystack@, offset as int, line as int, line_stop as int, (res.0 as int, res.1 as int)),
{
    lines_fwd_with(Kernel::Wide32, haystack, offset, line, line_stop)
}

} // verus!
