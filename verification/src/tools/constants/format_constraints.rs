//! Limits on the audio formats accepted.

use vstd::prelude::*;

verus! {

/// Largest number of channels supported.
pub const MAX_CHANNELS: u16 = 32;

} // verus!
