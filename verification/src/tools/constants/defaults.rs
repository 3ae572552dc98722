//! Default configuration values.

use vstd::prelude::*;

verus! {

/// Default batch size for parallel decoding (packets).
pub const PARALLEL_BATCH_SIZE: usize = 64;

/// Default number of decoding threads.
pub const PARALLEL_THREADS: usize = 4;

/// Default number of files analysed at once in batch mode.
pub const PARALLEL_FILES_DEGREE: usize = 4;

} // verus!
