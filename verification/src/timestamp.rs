//! A point in time as the API reports it.
use vstd::prelude::*;

verus! {

/// A moment given as whole seconds since the Unix epoch (UTC), the
/// nanoseconds past that second, and the UTC offset it was written in.
#[derive(Debug, Clone, Copy, PartialEq, Eq)]
pub struct Timestamp {
    /// Whole seconds since 1970-01-01T00:00:00Z.
    pub unix_seconds: i64,
    /// Nanoseconds past `unix_seconds` (below one second).
    pub nanosecond: u32,
    /// The offset from UTC, in seconds, of the local time it was given in.
    pub offset_seconds: i32,
}

} // verus!
