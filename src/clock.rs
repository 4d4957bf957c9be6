//! Simulation time.
use vstd::prelude::*;

verus! {

/// Latest time, in milliseconds since the session began, that the schedulers
/// accept; far beyond any session, it keeps every deadline within `u64`.
pub const MAX_TIME: u64 = 0x1000_0000_0000_0000;

/// Milliseconds in a second.
pub const SECOND: u64 = 1000;

} // verus!
