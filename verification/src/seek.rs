//! Where a cursor is sent.

use vstd::prelude::*;

verus! {

/// A place for a cursor, counted in bytes from one of three points.
#[derive(Clone, Copy, Debug, PartialEq, Eq, Structural)]
pub enum SeekFrom {
    /// So many bytes after the start.
    Start(u64),
    /// So many bytes after the end, or before it where the number is negative.
    End(i64),
    /// So many bytes after the cursor, or before it where the number is negative.
    Current(i64),
}

} // verus!
