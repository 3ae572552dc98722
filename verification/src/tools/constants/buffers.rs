//! Sample buffer sizing.

use vstd::prelude::*;

verus! {

/// The sample buffer is pre-allocated to this many analysis windows.
pub const BUFFER_CAPACITY_MULTIPLIER: usize = 3;

/// The buffer is compacted once it exceeds this many half windows
/// (seven half windows, that is three and a half windows).
pub const MAX_BUFFER_HALF_WINDOWS: usize = 7;

} // verus!
