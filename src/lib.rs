//! Line-boundary seeking over byte buffers.
//!
//! Given a buffer, a position in it and the line index at that position, the
//! seekers move forward or backward to where a target line begins. Several
//! interchangeable scanning strategies (a byte-at-a-time scanner and windowed
//! scanners that skip whole windows when they cannot hold the answer) share one
//! contract, so every strategy returns the same result.

use vstd::prelude::*;

pub mod newlines;
pub mod dispatch;
pub mod laws;
pub mod lines_fwd;
pub mod lines_bwd;

pub use lines_bwd::lines_bwd;
pub use lines_fwd::lines_fwd;
