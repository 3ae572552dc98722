//! Memory tiers by available memory, and the memory bounds each tier grants.

use vstd::prelude::*;

verus! {

/// How much memory is available, in broad classes.
#[derive(Debug, Clone, Copy, PartialEq, Eq, Structural)]
pub enum MemoryTier {
    /// Below 512 MiB.
    Emergency,
    /// 512 MiB up to 2 GiB.
    Limited,
    /// 2 GiB up to 8 GiB.
    Standard,
    /// 8 GiB up to 32 GiB.
    Abundant,
    /// 32 GiB and more.
    Ultra,
}

/// The tier of `available` bytes.
pub open spec fn tier_of(available: nat) -> MemoryTier {
    if available < 536870912 {
        MemoryTier::Emergency
    } else if available < 2147483648 {
        MemoryTier::Limited
    } else if available < 8589934592 {
        MemoryTier::Standard
    } else if available < 34359738368 {
        MemoryTier::Abundant
    } else {
        MemoryTier::Ultra
    }
}

/// The tier of `available_bytes` bytes of available memory.
pub fn classify_memory_tier(available_bytes: u64) -> (t: MemoryTier)
    ensures
        t == tier_of(available_bytes as nat),
{
    if available_bytes < 536870912 {
        MemoryTier::Emergency
    } else if available_bytes < 2147483648 {
        MemoryTier::Limited
    } else if available_bytes < 8589934592 {
        MemoryTier::Standard
    } else if available_bytes < 34359738368 {
        MemoryTier::Abundant
    } else {
        MemoryTier::Ultra
    }
}

/// More available memory never gives a lower tier.
pub proof fn lemma_tier_monotone(a: nat, b: nat)
    requires
        a <= b,
    ensures
        tier_rank(tier_of(a)) <= tier_rank(tier_of(b)),
{
}

/// Position of a tier from the scarcest to the most plentiful.
pub open spec fn tier_rank(t: MemoryTier) -> nat {
    match t {
        MemoryTier::Emergency => 0,
        MemoryTier::Limited => 1,
        MemoryTier::Standard => 2,
        MemoryTier::Abundant => 3,
        MemoryTier::Ultra => 4,
    }
}

/// Bytes in a mebibyte.
pub const MIB: u64 = 1048576;

/// The smallest budget ever granted (64 MiB).
pub const ABSOLUTE_MIN_BYTES: u64 = 67108864;

/// Below this much usable memory the manager runs in emergency mode (512 MiB).
pub const EMERGENCY_THRESHOLD_BYTES: u64 = 536870912;

/// The floor of an adaptive budget (32 MiB).
pub const ADAPTIVE_FLOOR_BYTES: u64 = 33554432;

/// The memory bounds of the analysis: the range it may use, the budget it uses
/// now, and whether it runs in emergency mode.
#[derive(Debug, Clone, Copy, PartialEq, Eq, Structural)]
pub struct MemoryLimits {
    pub min_memory_bytes: u64,
    pub max_memory_bytes: u64,
    pub current_memory_bytes: u64,
    pub emergency_mode: bool,
}

/// Minimum, maximum and current budget for `usable` bytes: each tier has a
/// fixed range and grants a fraction of what is usable (an eighth, at least
/// 64 MiB, in emergency; a quarter; a third; a half; two thirds).
pub open spec fn tier_bounds(usable: nat) -> (nat, nat, nat) {
    match tier_of(usable) {
        MemoryTier::Emergency => (
            ABSOLUTE_MIN_BYTES as nat,
            EMERGENCY_THRESHOLD_BYTES as nat,
            if usable / 8 > ABSOLUTE_MIN_BYTES { usable / 8 } else { ABSOLUTE_MIN_BYTES as nat },
        ),
        MemoryTier::Limited => (ABSOLUTE_MIN_BYTES as nat, 2147483648, usable / 4),
        MemoryTier::Standard => (134217728, 8589934592, usable / 3),
        MemoryTier::Abundant => (268435456, 34359738368, usable / 2),
        MemoryTier::Ultra => (536870912, 68719476736, (usable * 2) / 3),
    }
}

/// The bounds for `usable` bytes of usable memory (see `tier_bounds`);
/// emergency mode when less than 512 MiB is usable.
pub fn tier_limits(usable: u64) -> (l: MemoryLimits)
    ensures
        (l.min_memory_bytes as nat, l.max_memory_bytes as nat, l.current_memory_bytes as nat)
            == tier_bounds(usable as nat),
        l.emergency_mode == (usable < EMERGENCY_THRESHOLD_BYTES),
{
    let emergency_mode = usable < EMERGENCY_THRESHOLD_BYTES;
    match classify_memory_tier(usable) {
        MemoryTier::Emergency => {
            let eighth = usable / 8;
            let current = if eighth > ABSOLUTE_MIN_BYTES { eighth } else { ABSOLUTE_MIN_BYTES };
            MemoryLimits {
                min_memory_bytes: ABSOLUTE_MIN_BYTES,
                max_memory_bytes: EMERGENCY_THRESHOLD_BYTES,
                current_memory_bytes: current,
                emergency_mode,
            }
        },
        MemoryTier::Limited => MemoryLimits {
            min_memory_bytes: ABSOLUTE_MIN_BYTES,
            max_memory_bytes: 2147483648,
            current_memory_bytes: usable / 4,
            emergency_mode,
        },
        MemoryTier::Standard => MemoryLimits {
            min_memory_bytes: 134217728,
            max_memory_bytes: 8589934592,
            current_memory_bytes: usable / 3,
            emergency_mode,
        },
        MemoryTier::Abundant => MemoryLimits {
            min_memory_bytes: 268435456,
            max_memory_bytes: 34359738368,
            current_memory_bytes: usable / 2,
            emergency_mode,
        },
        MemoryTier::Ultra => {
            let q = usable / 3;
            let r = usable % 3;
            assert((usable as nat * 2) / 3 == 2 * q + (2 * r) / 3) by (nonlinear_arith)
                requires
                    q == usable / 3,
                    r == usable % 3,
            ;
            MemoryLimits {
                min_memory_bytes: 536870912,
                max_memory_bytes: 68719476736,
                current_memory_bytes: 2 * q + (2 * r) / 3,
                emergency_mode,
            }
        },
    }
}

impl MemoryLimits {
    /// The bounds with the maximum forced to `max_mb` MiB; the current budget
    /// is lowered to the new maximum when above it.
    pub fn with_max_memory_mb(&self, max_mb: u64) -> (l: MemoryLimits)
        requires
            max_mb * MIB <= u64::MAX,
        ensures
            l.max_memory_bytes == max_mb * MIB,
            l.current_memory_bytes == if self.current_memory_bytes <= max_mb * MIB {
                self.current_memory_bytes as int
            } else {
                max_mb * MIB
            },
            l.min_memory_bytes == self.min_memory_bytes,
            l.emergency_mode == self.emergency_mode,
    {
        let max_bytes = max_mb * MIB;
        let current = if self.current_memory_bytes <= max_bytes {
            self.current_memory_bytes
        } else {
            max_bytes
        };
        MemoryLimits { max_memory_bytes: max_bytes, current_memory_bytes: current, ..*self }
    }

    /// The bounds forced into emergency mode: the budget drops to the minimum.
    pub fn with_emergency_mode(&self) -> (l: MemoryLimits)
        ensures
            l.emergency_mode,
            l.current_memory_bytes == self.min_memory_bytes,
            l.min_memory_bytes == self.min_memory_bytes,
            l.max_memory_bytes == self.max_memory_bytes,
    {
        MemoryLimits { emergency_mode: true, current_memory_bytes: self.min_memory_bytes, ..*self }
    }

    /// The budget for a format whose scaled demand is `scaled_target` bytes:
    /// the minimum in emergency mode, otherwise the demand capped at the
    /// maximum; never below 32 MiB.
    pub fn adaptive_budget(&self, scaled_target: u64) -> (b: u64)
        ensures
            b == ({
                let base = if self.emergency_mode {
                    self.min_memory_bytes
                } else if scaled_target <= self.max_memory_bytes {
                    scaled_target
                } else {
                    self.max_memory_bytes
                };
                if base >= ADAPTIVE_FLOOR_BYTES { base } else { ADAPTIVE_FLOOR_BYTES }
            }),
    {
        let base = if self.emergency_mode {
            self.min_memory_bytes
        } else if scaled_target <= self.max_memory_bytes {
            scaled_target
        } else {
            self.max_memory_bytes
        };
        if base >= ADAPTIVE_FLOOR_BYTES { base } else { ADAPTIVE_FLOOR_BYTES }
    }
}

/// The budget granted never falls below the minimum of its tier. (It can
/// exceed the tier's maximum: two thirds of more than 96 GiB.)
pub proof fn lemma_tier_budget_at_least_minimum(usable: nat)
    ensures
        tier_bounds(usable).0 <= tier_bounds(usable).2,
{
    match tier_of(usable) {
        MemoryTier::Ultra => {
            assert((usable * 2) / 3 >= 536870912) by (nonlinear_arith)
                requires
                    usable >= 34359738368,
            ;
        },
        _ => {},
    }
}

} // verus!
