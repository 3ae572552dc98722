//! Choice of processing strategy from a file's size and the memory available.

use crate::error::{AudioError, AudioResult};
use crate::text::{decimal, digit, digit_char, push_char, push_decimal, push_str};
use vstd::prelude::*;

verus! {

/// Bytes in a mebibyte.
pub const MIB: u64 = 1048576;

/// Bytes in a gibibyte.
pub const GIB: u64 = 1073741824;

/// Files below this size may be loaded whole (200 MiB).
pub const FULL_MEMORY_MAX_FILE: u64 = 209715200;

/// Files above this size are always streamed (2 GiB).
pub const STREAMING_MIN_FILE: u64 = 2147483648;

/// Growth of a file's size into decoded samples, assumed conservatively.
pub const DECODE_EXPANSION: u64 = 15;

/// Fixed overhead added to the peak estimate (50 MiB).
pub const PROCESSING_OVERHEAD: u64 = 52428800;

/// Memory the streaming mode needs (50 MiB).
pub const STREAMING_MEMORY: u64 = 52428800;

/// How a file is processed.
#[derive(Debug, Clone, Copy, PartialEq, Eq, Structural)]
pub enum ProcessingStrategy {
    /// The whole file is decoded into memory.
    FullMemory,
    /// The file is decoded and analysed in fixed blocks.
    StreamingBlocks,
    /// Chosen at run time between the two.
    Adaptive,
}

/// Memory estimate for one file.
#[derive(Debug, Clone, Copy, PartialEq, Eq, Structural)]
pub struct MemoryEstimate {
    /// Decoded audio, in bytes.
    pub raw_audio_bytes: u64,
    /// The sample array, in bytes.
    pub samples_memory: u64,
    /// Peak use while processing, in bytes.
    pub peak_memory: u64,
    /// The strategy chosen for the file.
    pub recommended_strategy: ProcessingStrategy,
}

/// The strategy for a file of `file_size` bytes with an estimated peak of
/// `peak` bytes, given the safe limit: whole in memory when the file is below
/// 200 MiB and the peak below the limit; streamed when the peak exceeds the
/// limit or the file exceeds 2 GiB; adaptive otherwise.
pub open spec fn strategy_for(peak: nat, file_size: nat, limit: nat) -> ProcessingStrategy {
    if file_size < FULL_MEMORY_MAX_FILE && peak < limit {
        ProcessingStrategy::FullMemory
    } else if peak > limit || file_size > STREAMING_MIN_FILE {
        ProcessingStrategy::StreamingBlocks
    } else {
        ProcessingStrategy::Adaptive
    }
}

/// `bytes` in gibibytes, in tenths, rounded to nearest with ties to even.
pub open spec fn gib_tenths(bytes: nat) -> nat {
    let q = bytes * 10 / (GIB as nat);
    let r = bytes * 10 % (GIB as nat);
    if 2 * r > GIB || (2 * r == GIB && q % 2 == 1) {
        q + 1
    } else {
        q
    }
}

/// `bytes` in gibibytes with one decimal, as `{:.1}` renders `bytes as f64 / 2^30`
/// (exactly so while `bytes` is below 2^53, where the conversion is exact).
pub open spec fn gib_text(bytes: nat) -> Seq<char> {
    let t = gib_tenths(bytes);
    decimal(t / 10).push('.').push(digit_char(t % 10))
}

/// Appends `bytes` in gibibytes with one decimal (see `gib_text`).
pub fn push_gib(s: &mut String, bytes: u64)
    ensures
        final(s)@ == old(s)@ + gib_text(bytes as nat),
{
    let scaled: u128 = (bytes as u128) * 10;
    let q: u128 = scaled / (GIB as u128);
    let r: u128 = scaled % (GIB as u128);
    let t: u128 = if 2 * r > (GIB as u128) || (2 * r == (GIB as u128) && q % 2 == 1) {
        q + 1
    } else {
        q
    };
    assert(t == gib_tenths(bytes as nat));
    assert(q <= scaled);
    assert(t / 10 <= u64::MAX);
    let whole: u64 = (t / 10) as u64;
    let tenth: u64 = (t % 10) as u64;
    push_decimal(s, whole);
    push_char(s, '.');
    push_char(s, digit(tenth));
    assert(s@ =~= old(s)@ + gib_text(bytes as nat));
}

/// Chooses how to process files, within half of the available memory.
pub struct MemoryStrategySelector {
    available_memory: u64,
    memory_limit: u64,
}

impl MemoryStrategySelector {
    /// Available memory, in bytes.
    pub closed spec fn available(&self) -> nat {
        self.available_memory as nat
    }

    /// Safe memory limit, in bytes: half of what is available.
    pub closed spec fn limit(&self) -> nat {
        self.memory_limit as nat
    }

    /// A selector for `available_memory` bytes of available memory (as the
    /// caller measured it); the safe limit is half of it.
    pub fn new(available_memory: u64) -> (s: Self)
        ensures
            s.available() == available_memory,
            s.limit() == available_memory / 2,
    {
        MemoryStrategySelector { available_memory, memory_limit: available_memory / 2 }
    }

    /// Available memory, in bytes.
    pub fn available_memory(&self) -> (m: u64)
        ensures
            m == self.available(),
    {
        self.available_memory
    }

    /// Safe memory limit, in bytes.
    pub fn memory_limit(&self) -> (m: u64)
        ensures
            m == self.limit(),
    {
        self.memory_limit
    }

    /// The strategy for a file (see `strategy_for`).
    pub fn select_strategy(&self, estimated_peak: u64, file_size: u64) -> (st: ProcessingStrategy)
        ensures
            st == strategy_for(estimated_peak as nat, file_size as nat, self.limit()),
    {
        if file_size < FULL_MEMORY_MAX_FILE && estimated_peak < self.memory_limit {
            return ProcessingStrategy::FullMemory;
        }
        if estimated_peak > self.memory_limit || file_size > STREAMING_MIN_FILE {
            return ProcessingStrategy::StreamingBlocks;
        }
        ProcessingStrategy::Adaptive
    }

    /// The estimate for a file of `file_size` bytes: decoded audio fifteen times
    /// the file, the same again for samples, 50 MiB more at the peak.
    pub fn estimate_for_file_size(&self, file_size: u64) -> (e: MemoryEstimate)
        requires
            file_size * DECODE_EXPANSION + PROCESSING_OVERHEAD <= u64::MAX,
        ensures
            e.raw_audio_bytes == file_size * DECODE_EXPANSION,
            e.samples_memory == file_size * DECODE_EXPANSION,
            e.peak_memory == file_size * DECODE_EXPANSION + PROCESSING_OVERHEAD,
            e.recommended_strategy == strategy_for(e.peak_memory as nat, file_size as nat, self.limit()),
    {
        let raw = file_size * DECODE_EXPANSION;
        let peak = raw + PROCESSING_OVERHEAD;
        let strategy = self.select_strategy(peak, file_size);
        MemoryEstimate {
            raw_audio_bytes: raw,
            samples_memory: raw,
            peak_memory: peak,
            recommended_strategy: strategy,
        }
    }

    /// Checks that a strategy is safe: the whole-file mode must peak within the
    /// limit, and streaming needs 50 MiB available.
    pub fn validate_strategy(&self, estimate: &MemoryEstimate) -> (r: AudioResult<()>)
        ensures
            r is Ok <==> strategy_safe(*estimate, self.available(), self.limit()),
            r matches Err(e) ==> e matches AudioError::InvalidInput(m) && m@ == strategy_message(
                *estimate,
                self.available(),
                self.limit(),
            ),
    {
        match estimate.recommended_strategy {
            ProcessingStrategy::FullMemory => {
                if estimate.peak_memory > self.memory_limit {
                    let mut m = String::new();
                    push_str(&mut m, "文件过大：全内存模式需要");
                    push_gib(&mut m, estimate.peak_memory);
                    push_str(&mut m, "GB，超过安全限制");
                    push_gib(&mut m, self.memory_limit);
                    push_str(&mut m, "GB");
                    return Err(AudioError::InvalidInput(m));
                }
            },
            ProcessingStrategy::StreamingBlocks => {
                if STREAMING_MEMORY > self.available_memory {
                    let mut m = String::new();
                    push_str(&mut m, "系统内存不足：流式处理需要50MB，可用内存");
                    push_gib(&mut m, self.available_memory);
                    push_str(&mut m, "GB");
                    return Err(AudioError::InvalidInput(m));
                }
            },
            ProcessingStrategy::Adaptive => {},
        }
        Ok(())
    }
}

/// Whether a strategy is safe for the available memory and limit.
pub open spec fn strategy_safe(e: MemoryEstimate, available: nat, limit: nat) -> bool {
    match e.recommended_strategy {
        ProcessingStrategy::FullMemory => e.peak_memory <= limit,
        ProcessingStrategy::StreamingBlocks => STREAMING_MEMORY <= available,
        ProcessingStrategy::Adaptive => true,
    }
}

/// Message for an unsafe strategy.
pub open spec fn strategy_message(e: MemoryEstimate, available: nat, limit: nat) -> Seq<char> {
    match e.recommended_strategy {
        ProcessingStrategy::FullMemory => "文件过大：全内存模式需要"@ + gib_text(e.peak_memory as nat)
            + "GB，超过安全限制"@ + gib_text(limit) + "GB"@,
        _ => "系统内存不足：流式处理需要50MB，可用内存"@ + gib_text(available) + "GB"@,
    }
}

/// A strategy chosen by `strategy_for` for a file loaded whole always passes
/// the safety check; so does an adaptive one.
pub proof fn lemma_chosen_strategy_is_safe(e: MemoryEstimate, file_size: nat, available: nat, limit: nat)
    requires
        e.recommended_strategy == strategy_for(e.peak_memory as nat, file_size, limit),
        e.recommended_strategy != ProcessingStrategy::StreamingBlocks,
    ensures
        strategy_safe(e, available, limit),
{
}

} // verus!
