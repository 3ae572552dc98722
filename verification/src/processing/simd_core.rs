//! Vector-unit capabilities and the decisions taken from them.
//!
//! The capabilities are probed by the caller (the probe is a compile-time and
//! run-time matter of the target CPU); here they are only read.

use vstd::prelude::*;

verus! {

/// Vector instruction sets available on the running CPU.
#[derive(Debug, Clone, Copy, PartialEq, Eq, Structural)]
pub struct SimdCapabilities {
    /// SSE2 (four `f32` lanes).
    pub sse2: bool,
    /// SSE3.
    pub sse3: bool,
    /// SSSE3.
    pub ssse3: bool,
    /// SSE4.1.
    pub sse4_1: bool,
    /// AVX.
    pub avx: bool,
    /// AVX2.
    pub avx2: bool,
    /// Fused multiply-add.
    pub fma: bool,
    /// NEON (four `f32` lanes).
    pub neon: bool,
    /// NEON half-precision arithmetic.
    pub neon_fp16: bool,
    /// SVE.
    pub sve: bool,
}

/// Whether a four-lane vector path (SSE2 or NEON) is available.
pub open spec fn basic_simd(c: SimdCapabilities) -> bool {
    c.sse2 || c.neon
}

impl SimdCapabilities {
    /// Whether a four-lane vector path (SSE2 or NEON) is available.
    pub fn has_basic_simd(&self) -> (b: bool)
        ensures
            b == basic_simd(*self),
    {
        self.sse2 || self.neon
    }

    /// Whether the advanced sets (SSE4.1 or NEON FP16) are available.
    pub fn has_advanced_simd(&self) -> (b: bool)
        ensures
            b == (self.sse4_1 || self.neon_fp16),
    {
        self.sse4_1 || self.neon_fp16
    }

    /// Samples processed at once: four with a four-lane vector path, else one.
    /// (AVX2 is recognised but has no wider path, so it also gives four.)
    pub fn recommended_parallelism(&self) -> (n: usize)
        ensures
            n == if basic_simd(*self) {
                4usize
            } else {
                1usize
            },
    {
        if self.sse2 || self.neon {
            4
        } else {
            1
        }
    }
}

/// Fewest samples for which the vector path is worth its set-up.
pub const SIMD_MIN_SAMPLES: usize = 100;

/// Four frames of four channels, one array per channel.
#[derive(Debug, Clone, Copy)]
pub struct Transpose4x4<T> {
    pub ch0: [T; 4],
    pub ch1: [T; 4],
    pub ch2: [T; 4],
    pub ch3: [T; 4],
}

/// Decides on and performs the vector-friendly operations.
#[derive(Debug, Clone)]
pub struct SimdProcessor {
    capabilities: SimdCapabilities,
}

impl SimdProcessor {
    /// The capabilities this processor decides by.
    pub closed spec fn caps(&self) -> SimdCapabilities {
        self.capabilities
    }

    /// A processor for the given capabilities.
    pub fn new(capabilities: SimdCapabilities) -> (p: Self)
        ensures
            p.caps() == capabilities,
    {
        SimdProcessor { capabilities }
    }

    /// The capabilities.
    pub fn capabilities(&self) -> (c: &SimdCapabilities)
        ensures
            *c == self.caps(),
    {
        &self.capabilities
    }

    /// Whether the vector path should be used for `sample_count` samples: only
    /// with SSE2 or NEON, and only from `SIMD_MIN_SAMPLES` samples on.
    pub fn should_use_simd(&self, sample_count: usize) -> (b: bool)
        ensures
            b == (basic_simd(self.caps()) && sample_count >= SIMD_MIN_SAMPLES),
    {
        if !self.capabilities.has_basic_simd() {
            return false;
        }
        sample_count >= SIMD_MIN_SAMPLES
    }

    /// Extracts four consecutive frames of the four channels starting at
    /// `channel_offset` from interleaved samples, one array per channel.
    pub fn transpose_4x4_block<T: Copy>(
        &self,
        interleaved: &[T],
        frame_offset: usize,
        channel_offset: usize,
        channel_count: usize,
    ) -> (t: Transpose4x4<T>)
        requires
            channel_count > 0,
            channel_offset % 4 == 0,
            frame_offset + 4 <= interleaved@.len() / channel_count as nat,
            (frame_offset + 3) * channel_count + channel_offset + 3 < interleaved@.len(),
        ensures
            forall|i: int|
                #![trigger t.ch0@[i]]
                #![trigger t.ch1@[i]]
                #![trigger t.ch2@[i]]
                #![trigger t.ch3@[i]]
                0 <= i < 4 ==> {
                    let pos = (frame_offset + i) * channel_count + channel_offset;
                    &&& t.ch0@[i] == interleaved@[pos]
                    &&& t.ch1@[i] == interleaved@[pos + 1]
                    &&& t.ch2@[i] == interleaved@[pos + 2]
                    &&& t.ch3@[i] == interleaved@[pos + 3]
                },
    {
        let p0 = self.frame_position(frame_offset, 0, channel_offset, channel_count, interleaved.len());
        let p1 = self.frame_position(frame_offset, 1, channel_offset, channel_count, interleaved.len());
        let p2 = self.frame_position(frame_offset, 2, channel_offset, channel_count, interleaved.len());
        let p3 = self.frame_position(frame_offset, 3, channel_offset, channel_count, interleaved.len());
        let t = Transpose4x4 {
            ch0: [interleaved[p0], interleaved[p1], interleaved[p2], interleaved[p3]],
            ch1: [interleaved[p0 + 1], interleaved[p1 + 1], interleaved[p2 + 1], interleaved[p3 + 1]],
            ch2: [interleaved[p0 + 2], interleaved[p1 + 2], interleaved[p2 + 2], interleaved[p3 + 2]],
            ch3: [interleaved[p0 + 3], interleaved[p1 + 3], interleaved[p2 + 3], interleaved[p3 + 3]],
        };
        assert(forall|i: int|
            #![trigger t.ch0@[i]]
            #![trigger t.ch1@[i]]
            #![trigger t.ch2@[i]]
            #![trigger t.ch3@[i]]
            0 <= i < 4 ==> {
                let pos = (frame_offset + i) * channel_count + channel_offset;
                &&& t.ch0@[i] == interleaved@[pos]
                &&& t.ch1@[i] == interleaved@[pos + 1]
                &&& t.ch2@[i] == interleaved@[pos + 2]
                &&& t.ch3@[i] == interleaved@[pos + 3]
            }) by {
            assert(t.ch0@ =~= seq![interleaved@[p0 as int], interleaved@[p1 as int], interleaved@[p2 as int], interleaved@[p3 as int]]);
        }
        t
    }

    /// Index of channel `channel_offset` in frame `frame_offset + i`.
    fn frame_position(
        &self,
        frame_offset: usize,
        i: usize,
        channel_offset: usize,
        channel_count: usize,
        len: usize,
    ) -> (pos: usize)
        requires
            i <= 3,
            channel_count > 0,
            (frame_offset + 3) * channel_count + channel_offset + 3 < len,
        ensures
            pos == (frame_offset + i) * channel_count + channel_offset,
            pos + 3 < len,
    {
        proof {
            assert((frame_offset + i) * channel_count <= (frame_offset + 3) * channel_count)
                by (nonlinear_arith)
                requires
                    i <= 3,
            ;
            assert(frame_offset + 3 <= (frame_offset + 3) * channel_count) by (nonlinear_arith)
                requires
                    channel_count > 0,
            ;
        }
        (frame_offset + i) * channel_count + channel_offset
    }
}

} // verus!
