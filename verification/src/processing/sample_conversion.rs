//! Sample formats, conversion statistics and the converter's configuration,
//! plus the verified step that writes one converted channel into an
//! interleaved buffer. (The integer-to-float arithmetic is the caller's.)

use crate::processing::simd_core::{basic_simd, SimdCapabilities, SimdProcessor};
use vstd::prelude::*;

verus! {

/// Formats in which decoded samples arrive.
#[derive(Debug, Clone, Copy, PartialEq, Eq, Structural)]
pub enum SampleFormat {
    S16,
    S24,
    S32,
    F32,
    F64,
    U8,
    U16,
    U24,
    U32,
    S8,
}

impl SampleFormat {
    /// Bits per sample.
    pub fn bit_depth(&self) -> (b: u8)
        ensures
            b == match *self {
                SampleFormat::S8 | SampleFormat::U8 => 8u8,
                SampleFormat::S16 | SampleFormat::U16 => 16u8,
                SampleFormat::S24 | SampleFormat::U24 => 24u8,
                SampleFormat::S32 | SampleFormat::U32 | SampleFormat::F32 => 32u8,
                SampleFormat::F64 => 64u8,
            },
    {
        match self {
            SampleFormat::S8 | SampleFormat::U8 => 8,
            SampleFormat::S16 | SampleFormat::U16 => 16,
            SampleFormat::S24 | SampleFormat::U24 => 24,
            SampleFormat::S32 | SampleFormat::U32 | SampleFormat::F32 => 32,
            SampleFormat::F64 => 64,
        }
    }

    /// Whether the format is floating point.
    pub fn is_float(&self) -> (b: bool)
        ensures
            b == (*self == SampleFormat::F32 || *self == SampleFormat::F64),
    {
        match self {
            SampleFormat::F32 | SampleFormat::F64 => true,
            _ => false,
        }
    }

    /// Whether the format is signed (floating-point formats are).
    pub fn is_signed(&self) -> (b: bool)
        ensures
            b == (*self == SampleFormat::S8 || *self == SampleFormat::S16 || *self
                == SampleFormat::S24 || *self == SampleFormat::S32 || *self == SampleFormat::F32
                || *self == SampleFormat::F64),
    {
        match self {
            SampleFormat::S8 | SampleFormat::S16 | SampleFormat::S24 | SampleFormat::S32
            | SampleFormat::F32 | SampleFormat::F64 => true,
            _ => false,
        }
    }
}

/// Counters of one conversion.
#[derive(Debug, Clone, PartialEq, Eq, Structural)]
pub struct ConversionStats {
    /// Samples handed in.
    pub input_samples: usize,
    /// Samples written.
    pub output_samples: usize,
    /// Whether the vector path was taken.
    pub used_simd: bool,
    /// Samples converted by the vector path.
    pub simd_samples: usize,
    /// Samples converted one by one.
    pub scalar_samples: usize,
    /// Time taken, in nanoseconds.
    pub duration_ns: u64,
}

impl ConversionStats {
    /// Counters for a conversion of `input_samples` samples, nothing done yet.
    pub fn new(input_samples: usize) -> (s: Self)
        ensures
            s == (ConversionStats {
                input_samples,
                output_samples: 0,
                used_simd: false,
                simd_samples: 0,
                scalar_samples: 0,
                duration_ns: 0,
            }),
    {
        ConversionStats {
            input_samples,
            output_samples: 0,
            used_simd: false,
            simd_samples: 0,
            scalar_samples: 0,
            duration_ns: 0,
        }
    }
}

/// Converts decoded samples; knows the vector capabilities and whether to time itself.
#[derive(Clone, Debug)]
pub struct SampleConverter {
    simd_processor: SimdProcessor,
    enable_stats: bool,
}

impl SampleConverter {
    /// The capabilities the converter decides by.
    pub closed spec fn caps(&self) -> SimdCapabilities {
        self.simd_processor.caps()
    }

    /// Whether conversions are timed and reported.
    pub closed spec fn stats_enabled(&self) -> bool {
        self.enable_stats
    }

    /// A converter for the given capabilities, without timing.
    pub fn new(capabilities: SimdCapabilities) -> (c: Self)
        ensures
            c.caps() == capabilities,
            !c.stats_enabled(),
    {
        SampleConverter { simd_processor: SimdProcessor::new(capabilities), enable_stats: false }
    }

    /// A converter for the given capabilities, with timing.
    pub fn new_with_stats(capabilities: SimdCapabilities) -> (c: Self)
        ensures
            c.caps() == capabilities,
            c.stats_enabled(),
    {
        SampleConverter { simd_processor: SimdProcessor::new(capabilities), enable_stats: true }
    }

    /// Whether a four-lane vector path is available.
    pub fn has_simd_support(&self) -> (b: bool)
        ensures
            b == basic_simd(self.caps()),
    {
        self.simd_processor.capabilities().has_basic_simd()
    }

    /// The capabilities.
    pub fn simd_capabilities(&self) -> (c: &SimdCapabilities)
        ensures
            *c == self.caps(),
    {
        self.simd_processor.capabilities()
    }

    /// Turns timing on or off.
    pub fn set_stats_enabled(&mut self, enabled: bool)
        ensures
            final(self).stats_enabled() == enabled,
            final(self).caps() == old(self).caps(),
    {
        self.enable_stats = enabled;
    }

    /// Whether conversions are timed.
    pub fn is_stats_enabled(&self) -> (b: bool)
        ensures
            b == self.stats_enabled(),
    {
        self.enable_stats
    }
}

/// Writes the samples of one channel into their slots of an interleaved buffer:
/// sample `k` goes to `k * channel_count + channel_index`; every other slot is kept.
pub fn interleave_channel<T: Copy>(
    channel: &[T],
    output_interleaved: &mut [T],
    channel_index: usize,
    channel_count: usize,
)
    requires
        channel_index < channel_count,
        channel@.len() * channel_count <= old(output_interleaved).len(),
    ensures
        final(output_interleaved)@.len() == old(output_interleaved)@.len(),
        forall|k: int|
            0 <= k < channel@.len() ==> final(output_interleaved)@[k * channel_count
                + channel_index] == #[trigger] channel@[k],
        forall|j: int|
            0 <= j < old(output_interleaved)@.len() && (j % channel_count as int != channel_index
                || j / channel_count as int >= channel@.len()) ==> #[trigger] final(output_interleaved)@[j]
                == old(output_interleaved)@[j],
{
    let n = channel.len();
    let mut k: usize = 0;
    while k < n
        invariant
            k <= n,
            n == channel@.len(),
            channel_index < channel_count,
            n * channel_count <= output_interleaved.len(),
            output_interleaved@.len() == old(output_interleaved)@.len(),
            forall|m: int|
                0 <= m < k ==> output_interleaved@[m * channel_count + channel_index]
                    == #[trigger] channel@[m],
            forall|j: int|
                0 <= j < old(output_interleaved)@.len() && (j % channel_count as int
                    != channel_index || j / channel_count as int >= k) ==> #[trigger] output_interleaved@[j]
                    == old(output_interleaved)@[j],
        decreases n - k,
    {
        proof {
            assert(k * channel_count + channel_index < n * channel_count) by (nonlinear_arith)
                requires
                    k < n,
                    channel_index < channel_count,
            ;
        }
        let idx = k * channel_count + channel_index;
        let ghost prev = output_interleaved@;
        output_interleaved[idx] = channel[k];
        proof {
            assert(output_interleaved@ == prev.update(idx as int, channel@[k as int]));
            lemma_slot(k as int, channel_count as int, channel_index as int);
            assert forall|m: int| 0 <= m < k + 1 implies output_interleaved@[m * channel_count
                + channel_index] == #[trigger] channel@[m] by {
                assert(m * channel_count + channel_index < n * channel_count) by (nonlinear_arith)
                    requires
                        0 <= m < n,
                        channel_index < channel_count,
                ;
                if m < k {
                    lemma_slot_distinct(m, k as int, channel_count as int, channel_index as int);
                    assert(prev[m * channel_count + channel_index] == channel@[m]);
                } else {
                    assert(m == k);
                    assert(m * channel_count + channel_index == idx);
                }
            }
            assert forall|j: int|
                0 <= j < old(output_interleaved)@.len() && (j % channel_count as int
                    != channel_index || j / channel_count as int >= k + 1) implies #[trigger] output_interleaved@[j]
                    == old(output_interleaved)@[j] by {
                assert(j != idx);
                assert(prev[j] == old(output_interleaved)@[j]);
            }
        }
        k = k + 1;
    }
}

proof fn lemma_slot(k: int, count: int, idx: int)
    requires
        0 <= idx < count,
        k >= 0,
    ensures
        (k * count + idx) % count == idx,
        (k * count + idx) / count == k,
{
    vstd::arithmetic::div_mod::lemma_fundamental_div_mod_converse(k * count + idx, count, k, idx);
}

proof fn lemma_slot_distinct(m: int, k: int, count: int, idx: int)
    requires
        0 <= m < k,
        0 <= idx < count,
    ensures
        m * count + idx != k * count + idx,
{
    assert(m * count < k * count) by (nonlinear_arith)
        requires
            m < k,
            count > 0,
    ;
}

} // verus!
