//! Limits on parallelism and batch sizes.

use vstd::prelude::*;

verus! {

/// Smallest degree of parallelism: at least one worker.
pub const MIN_PARALLEL_DEGREE: usize = 1;

/// Largest degree of parallelism.
pub const MAX_PARALLEL_DEGREE: usize = 16;

/// Smallest parallel decoding batch size.
pub const MIN_PARALLEL_BATCH_SIZE: usize = 1;

/// Largest parallel decoding batch size.
pub const MAX_PARALLEL_BATCH_SIZE: usize = 256;

} // verus!
