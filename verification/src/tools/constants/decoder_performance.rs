//! Decoder tuning values.

use vstd::prelude::*;

verus! {

/// Packets read ahead per batch by the packet reader.
pub const BATCH_PACKET_SIZE: usize = 64;

/// Read ahead again once fewer packets than this are buffered.
pub const PREFETCH_THRESHOLD: usize = 20;

/// Batch size of the parallel decoder; the same as the default batch size.
pub const PARALLEL_DECODE_BATCH_SIZE: usize = 64;

/// Worker threads of the parallel decoder; the same as the default thread count.
pub const PARALLEL_DECODE_THREADS: usize = 4;

/// Capacity of the ordered result channel, per decoding thread.
pub const SEQUENCED_CHANNEL_CAPACITY_MULTIPLIER: usize = 4;

/// Receive timeout when draining the decoder (milliseconds).
pub const DRAIN_RECV_TIMEOUT_MS: u64 = 5;

/// Initial capacity of each worker's sample buffer.
pub const THREAD_LOCAL_SAMPLE_BUFFER_CAPACITY: usize = 8192;

} // verus!
