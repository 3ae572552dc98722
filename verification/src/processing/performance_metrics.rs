//! Decisions behind the performance estimates: which vector path the speed-up
//! is estimated for and how large a data set counts as small or large.
//! (The estimate itself is a floating-point product taken by the caller.)

use crate::processing::simd_core::{basic_simd, SimdCapabilities, SIMD_MIN_SAMPLES};
use vstd::prelude::*;

verus! {

/// Fewer samples per channel than this make a small data set.
pub const SMALL_DATASET_THRESHOLD: usize = 1000;

/// More samples per channel than this make a large data set.
pub const LARGE_DATASET_THRESHOLD: usize = 100000;

/// The vector path a speed-up estimate is based on, in order of preference.
#[derive(Debug, Clone, Copy, PartialEq, Eq, Structural)]
pub enum SpeedupBasis {
    /// AVX2 detected (estimated like AVX, with no discount).
    Avx2,
    /// AVX detected.
    Avx,
    /// NEON with half-precision arithmetic.
    NeonFp16,
    /// NEON.
    Neon,
    /// SSE2 with SSE4.1.
    Sse41,
    /// SSE2.
    Sse2,
    /// No vector path: no speed-up.
    Scalar,
}

/// Size class of a data set, by samples per channel.
#[derive(Debug, Clone, Copy, PartialEq, Eq, Structural)]
pub enum DatasetSize {
    Small,
    Medium,
    Large,
}

/// The basis chosen for a set of capabilities.
pub open spec fn basis_for(c: SimdCapabilities) -> SpeedupBasis {
    if c.avx2 {
        SpeedupBasis::Avx2
    } else if c.avx {
        SpeedupBasis::Avx
    } else if c.neon {
        if c.neon_fp16 {
            SpeedupBasis::NeonFp16
        } else {
            SpeedupBasis::Neon
        }
    } else if c.sse2 {
        if c.sse4_1 {
            SpeedupBasis::Sse41
        } else {
            SpeedupBasis::Sse2
        }
    } else {
        SpeedupBasis::Scalar
    }
}

/// The size class of `sample_count` samples per channel.
pub open spec fn size_class(sample_count: nat) -> DatasetSize {
    if sample_count < SMALL_DATASET_THRESHOLD {
        DatasetSize::Small
    } else if sample_count > LARGE_DATASET_THRESHOLD {
        DatasetSize::Large
    } else {
        DatasetSize::Medium
    }
}

/// The size class of `sample_count` samples per channel.
pub fn dataset_size(sample_count: usize) -> (d: DatasetSize)
    ensures
        d == size_class(sample_count as nat),
{
    if sample_count < SMALL_DATASET_THRESHOLD {
        DatasetSize::Small
    } else if sample_count > LARGE_DATASET_THRESHOLD {
        DatasetSize::Large
    } else {
        DatasetSize::Medium
    }
}

/// Evaluates processing performance for one set of capabilities.
pub struct PerformanceEvaluator {
    capabilities: SimdCapabilities,
}

impl PerformanceEvaluator {
    /// The capabilities evaluated for.
    pub closed spec fn caps(&self) -> SimdCapabilities {
        self.capabilities
    }

    /// An evaluator for the capabilities of the running CPU, as probed by the caller.
    pub fn new(capabilities: SimdCapabilities) -> (e: Self)
        ensures
            e.caps() == capabilities,
    {
        PerformanceEvaluator { capabilities }
    }

    /// An evaluator for the given capabilities.
    pub fn with_capabilities(capabilities: SimdCapabilities) -> (e: Self)
        ensures
            e.caps() == capabilities,
    {
        PerformanceEvaluator { capabilities }
    }

    /// The capabilities.
    pub fn capabilities(&self) -> (c: &SimdCapabilities)
        ensures
            *c == self.caps(),
    {
        &self.capabilities
    }

    /// The vector path the speed-up estimate is based on.
    pub fn speedup_basis(&self) -> (b: SpeedupBasis)
        ensures
            b == basis_for(self.caps()),
    {
        let c = &self.capabilities;
        if c.avx2 {
            SpeedupBasis::Avx2
        } else if c.avx {
            SpeedupBasis::Avx
        } else if c.neon {
            if c.neon_fp16 {
                SpeedupBasis::NeonFp16
            } else {
                SpeedupBasis::Neon
            }
        } else if c.sse2 {
            if c.sse4_1 {
                SpeedupBasis::Sse41
            } else {
                SpeedupBasis::Sse2
            }
        } else {
            SpeedupBasis::Scalar
        }
    }

    /// Whether the vector path should be used for `sample_count` samples: only
    /// with SSE2 or NEON, and only from `SIMD_MIN_SAMPLES` samples on.
    pub fn should_use_simd(&self, sample_count: usize) -> (b: bool)
        ensures
            b == (basic_simd(self.caps()) && sample_count >= SIMD_MIN_SAMPLES),
    {
        if !self.capabilities.has_basic_simd() {
            return false;
        }
        sample_count >= SIMD_MIN_SAMPLES
    }
}

} // verus!
