//! Memory needs of an audio format: the complexity class, the integer parts of
//! the estimate, and the advice given for the format.
//! (The decoding and sample-rate overheads are fractional multiples of the raw
//! size and are computed by the caller.)

use crate::text::push_str;
use vstd::prelude::*;

verus! {

/// How demanding a format is.
#[derive(Debug, Clone, Copy, PartialEq, Eq, Structural)]
pub enum AudioComplexity {
    /// Up to two channels, up to 48 kHz, up to 24 bits.
    Simple,
    /// Up to eight channels, up to 96 kHz, up to 32 bits.
    Standard,
    /// Up to sixteen channels, up to 192 kHz, up to 32 bits.
    Complex,
    /// Anything beyond, and every rate from 384 kHz on.
    Extreme,
}

/// Memory needed to analyse a format, in bytes.
#[derive(Debug, Clone, Copy, PartialEq, Eq, Structural)]
pub struct MemoryRequirement {
    pub complexity: AudioComplexity,
    /// One three-second block of decoded audio.
    pub raw_audio_bytes: u64,
    pub decoding_memory: u64,
    pub dr_calculation_memory: u64,
    pub system_overhead: u64,
    pub total_minimum: u64,
    /// The minimum with a safety margin.
    pub recommended_memory: u64,
    /// Whether the minimum fits in 512 MiB.
    pub survivable_in_emergency: bool,
}

/// The complexity class of a format.
pub open spec fn complexity_of(sample_rate: nat, channels: nat, bits: nat) -> AudioComplexity {
    if sample_rate >= 384000 {
        AudioComplexity::Extreme
    } else if sample_rate >= 192000 && (channels > 2 || bits > 24) {
        AudioComplexity::Extreme
    } else if channels <= 2 && sample_rate <= 48000 && bits <= 24 {
        AudioComplexity::Simple
    } else if channels <= 8 && sample_rate <= 96000 && bits <= 32 {
        AudioComplexity::Standard
    } else if channels <= 16 && sample_rate <= 192000 && bits <= 32 {
        AudioComplexity::Complex
    } else {
        AudioComplexity::Extreme
    }
}

/// Bytes per stored sample: 2, 3 or 4, and 4 for any other depth.
pub open spec fn bytes_per_sample(bits: nat) -> nat {
    if bits == 16 {
        2
    } else if bits == 24 {
        3
    } else {
        4
    }
}

/// Bytes of one three-second block.
pub open spec fn raw_block_bytes(sample_rate: nat, channels: nat, bits: nat) -> nat {
    sample_rate * 3 * channels * bytes_per_sample(bits)
}

/// Memory of the DR computation: the sample array plus per-channel metadata
/// (1 KiB) and accumulators (256 bytes).
pub open spec fn dr_memory(raw_bytes: nat, channels: nat) -> nat {
    raw_bytes + channels * 1024 + channels * 256
}

/// Overhead independent of the sample rate: 16 MiB, plus 8, 32 or 64 MiB by
/// complexity, and for extreme formats with more than sixteen channels another
/// 256 MiB for every sixteen channels or part of them beyond sixteen.
pub open spec fn fixed_overhead(complexity: AudioComplexity, channels: nat) -> nat {
    16 * 1048576 + match complexity {
        AudioComplexity::Simple => 0,
        AudioComplexity::Standard => 8 * 1048576,
        AudioComplexity::Complex => 32 * 1048576,
        AudioComplexity::Extreme => if channels > 16 {
            64 * 1048576 + (((channels - 16) as nat) / 16 + 1) * 256 * 1048576
        } else {
            64 * 1048576
        },
    }
}

/// Largest minimum that still fits the emergency mode (512 MiB).
pub const EMERGENCY_LIMIT: u64 = 536870912;

/// Smallest minimum ever reported (32 MiB).
pub const ABSOLUTE_MINIMUM: u64 = 33554432;

/// Computes the memory needs of audio formats.
pub struct AudioMemoryAnalyzer;

impl AudioMemoryAnalyzer {
    /// The complexity class of a format (see `complexity_of`).
    pub fn classify_complexity(sample_rate: u32, channels: u16, bits_per_sample: u16) -> (c:
        AudioComplexity)
        ensures
            c == complexity_of(sample_rate as nat, channels as nat, bits_per_sample as nat),
    {
        let channels = channels as u32;
        let bits = bits_per_sample as u32;
        if sample_rate >= 384000 {
            return AudioComplexity::Extreme;
        }
        if sample_rate >= 192000 && (channels > 2 || bits > 24) {
            return AudioComplexity::Extreme;
        }
        if channels <= 2 && sample_rate <= 48000 && bits <= 24 {
            AudioComplexity::Simple
        } else if channels <= 8 && sample_rate <= 96000 && bits <= 32 {
            AudioComplexity::Standard
        } else if channels <= 16 && sample_rate <= 192000 && bits <= 32 {
            AudioComplexity::Complex
        } else {
            AudioComplexity::Extreme
        }
    }

    /// Bytes of one three-second block of a format (see `raw_block_bytes`).
    pub fn raw_audio_bytes(sample_rate: u32, channels: u16, bits_per_sample: u16) -> (b: u64)
        ensures
            b == raw_block_bytes(sample_rate as nat, channels as nat, bits_per_sample as nat),
    {
        let per_sample: u64 = if bits_per_sample == 16 {
            2
        } else if bits_per_sample == 24 {
            3
        } else {
            4
        };
        assert((sample_rate as u64) * 3 * (channels as u64) * per_sample <= 0xffff_ffff * 3 * 0xffff
            * 4) by (nonlinear_arith)
            requires
                sample_rate <= 0xffff_ffff,
                channels <= 0xffff,
                per_sample <= 4,
        ;
        (sample_rate as u64) * 3 * (channels as u64) * per_sample
    }

    /// Memory of the DR computation (see `dr_memory`).
    pub fn calculate_dr_memory(raw_bytes: u64, channels: u16) -> (m: u64)
        requires
            raw_bytes + (channels as nat) * 1280 <= u64::MAX,
        ensures
            m == dr_memory(raw_bytes as nat, channels as nat),
    {
        raw_bytes + (channels as u64) * 1024 + (channels as u64) * 256
    }

    /// Overhead independent of the sample rate (see `fixed_overhead`).
    pub fn fixed_system_overhead(complexity: AudioComplexity, channels: u16) -> (m: u64)
        ensures
            m == fixed_overhead(complexity, channels as nat),
    {
        let base: u64 = 16 * 1048576;
        let extra: u64 = match complexity {
            AudioComplexity::Simple => 0,
            AudioComplexity::Standard => 8 * 1048576,
            AudioComplexity::Complex => 32 * 1048576,
            AudioComplexity::Extreme => {
                if channels > 16 {
                    64 * 1048576 + ((channels as u64 - 16) / 16 + 1) * 256 * 1048576
                } else {
                    64 * 1048576
                }
            },
        };
        base + extra
    }

    /// The minimum memory of a format: the raw block, the decoding buffers, the
    /// DR working memory and the system overhead together; `None` when the sum
    /// does not fit in a `u64`.
    pub fn total_minimum_memory(raw: u64, decoding: u64, dr: u64, overhead: u64) -> (t: Option<u64>)
        ensures
            t is Some <==> raw + decoding + dr + overhead <= u64::MAX,
            t matches Some(v) ==> v == raw + decoding + dr + overhead,
    {
        match raw.checked_add(decoding) {
            Some(a) => match a.checked_add(dr) {
                Some(b) => b.checked_add(overhead),
                None => None,
            },
            None => None,
        }
    }

    /// Whether a minimum fits the emergency mode (512 MiB).
    pub fn survivable_in_emergency(total_minimum: u64) -> (b: bool)
        ensures
            b == (total_minimum <= EMERGENCY_LIMIT),
    {
        total_minimum <= EMERGENCY_LIMIT
    }

    /// The dynamic minimum for a requirement: its minimum, but never below 32 MiB.
    pub fn calculate_dynamic_minimum(requirement: &MemoryRequirement) -> (m: u64)
        ensures
            m == if requirement.total_minimum > ABSOLUTE_MINIMUM {
                requirement.total_minimum
            } else {
                ABSOLUTE_MINIMUM
            },
    {
        if requirement.total_minimum > ABSOLUTE_MINIMUM {
            requirement.total_minimum
        } else {
            ABSOLUTE_MINIMUM
        }
    }

    /// The advice lines for a requirement and its format, joined with the
    /// report's line indentation (see `recommendation_lines`).
    pub fn generate_recommendations(
        requirement: &MemoryRequirement,
        sample_rate: u32,
        channels: u16,
    ) -> (s: String)
        ensures
            s@ == joined(
                recommendation_lines(
                    requirement.complexity,
                    requirement.survivable_in_emergency,
                    sample_rate as nat,
                    channels as nat,
                ),
            ),
    {
        let mut lines: Vec<&'static str> = Vec::new();
        match requirement.complexity {
            AudioComplexity::Simple => {
                lines.push("✅ 简单格式，所有模式均可正常处理");
            },
            AudioComplexity::Standard => {
                lines.push("✅ 标准格式，推荐128MB+内存");
            },
            AudioComplexity::Complex => {
                lines.push("⚠️ 复杂格式，需要256MB+内存");
                lines.push("💡 建议使用Standard或更高内存模式");
            },
            AudioComplexity::Extreme => {
                lines.push("🔥 极端格式，需要512MB+内存");
                lines.push("💡 强烈建议使用Abundant或Ultra内存模式");
                if !requirement.survivable_in_emergency {
                    lines.push("⛔ 在Emergency模式下无法处理，需要更多内存");
                }
            },
        }
        if channels > 32 {
            lines.push("🎵 超多声道音频(32+)，考虑分批处理或使用专业音频工作站");
        } else if channels > 16 {
            lines.push("🎵 超多声道音频(16+)，建议使用高内存配置");
        }
        if 192001 <= sample_rate && sample_rate <= 384000 {
            lines.push("🎼 192-384kHz超高采样率，需要大量内存和处理能力");
            lines.push("💡 建议确保系统有充足的内存（4GB+）");
        } else if sample_rate >= 384001 {
            lines.push("🔥 384kHz+极端采样率，需要专业级硬件配置");
            lines.push("💡 强烈建议使用Ultra内存模式（8GB+）");
            lines.push("⚠️ 可能需要调整系统虚拟内存设置");
        } else if 96001 <= sample_rate && sample_rate <= 192000 {
            lines.push("🎼 96-192kHz高采样率，建议预留额外内存缓冲");
        }
        if sample_rate >= 192000 && channels > 8 {
            lines.push("⚡ 高采样率+多声道组合，内存需求极大");
            lines.push("💡 考虑使用专业音频处理设备或云端处理");
        }
        proof {
            assert(lines@.map_values(|l: &str| l@) =~= recommendation_lines(
                requirement.complexity,
                requirement.survivable_in_emergency,
                sample_rate as nat,
                channels as nat,
            ));
        }
        join_lines(&lines)
    }
}

/// Separator between advice lines in the report.
pub open spec fn advice_separator() -> Seq<char> {
    "\n             "@
}

/// Lines joined by `advice_separator`.
pub open spec fn joined(lines: Seq<Seq<char>>) -> Seq<char>
    decreases lines.len(),
{
    if lines.len() == 0 {
        Seq::empty()
    } else if lines.len() == 1 {
        lines[0]
    } else {
        joined(lines.drop_last()) + advice_separator() + lines.last()
    }
}

/// The advice for a format, in order: by complexity, by channel count, by
/// sample rate, and for high rates with many channels.
pub open spec fn recommendation_lines(
    complexity: AudioComplexity,
    survivable: bool,
    sample_rate: nat,
    channels: nat,
) -> Seq<Seq<char>> {
    let by_complexity = match complexity {
        AudioComplexity::Simple => seq!["✅ 简单格式，所有模式均可正常处理"@],
        AudioComplexity::Standard => seq!["✅ 标准格式，推荐128MB+内存"@],
        AudioComplexity::Complex => seq!["⚠️ 复杂格式，需要256MB+内存"@, "💡 建议使用Standard或更高内存模式"@],
        AudioComplexity::Extreme => if survivable {
            seq!["🔥 极端格式，需要512MB+内存"@, "💡 强烈建议使用Abundant或Ultra内存模式"@]
        } else {
            seq![
                "🔥 极端格式，需要512MB+内存"@,
                "💡 强烈建议使用Abundant或Ultra内存模式"@,
                "⛔ 在Emergency模式下无法处理，需要更多内存"@,
            ]
        },
    };
    let by_channels = if channels > 32 {
        seq!["🎵 超多声道音频(32+)，考虑分批处理或使用专业音频工作站"@]
    } else if channels > 16 {
        seq!["🎵 超多声道音频(16+)，建议使用高内存配置"@]
    } else {
        Seq::empty()
    };
    let by_rate = if 192001 <= sample_rate <= 384000 {
        seq!["🎼 192-384kHz超高采样率，需要大量内存和处理能力"@, "💡 建议确保系统有充足的内存（4GB+）"@]
    } else if sample_rate >= 384001 {
        seq![
            "🔥 384kHz+极端采样率，需要专业级硬件配置"@,
            "💡 强烈建议使用Ultra内存模式（8GB+）"@,
            "⚠️ 可能需要调整系统虚拟内存设置"@,
        ]
    } else if 96001 <= sample_rate <= 192000 {
        seq!["🎼 96-192kHz高采样率，建议预留额外内存缓冲"@]
    } else {
        Seq::empty()
    };
    let combined = if sample_rate >= 192000 && channels > 8 {
        seq!["⚡ 高采样率+多声道组合，内存需求极大"@, "💡 考虑使用专业音频处理设备或云端处理"@]
    } else {
        Seq::empty()
    };
    by_complexity + by_channels + by_rate + combined
}

/// Joins lines with `advice_separator`.
fn join_lines(lines: &Vec<&'static str>) -> (s: String)
    ensures
        s@ == joined(lines@.map_values(|l: &str| l@)),
{
    let ghost views = lines@.map_values(|l: &str| l@);
    let mut s = String::new();
    let mut i: usize = 0;
    while i < lines.len()
        invariant
            i <= lines@.len(),
            views == lines@.map_values(|l: &str| l@),
            s@ == joined(views.take(i as int)),
        decreases lines@.len() - i,
    {
        if i > 0 {
            push_str(&mut s, "\n             ");
        }
        push_str(&mut s, lines[i]);
        proof {
            let t = views.take(i + 1);
            assert(t.drop_last() =~= views.take(i as int));
            assert(t.last() == lines@[i as int]@);
            if i == 0 {
                assert(t.len() == 1);
                assert(Seq::<char>::empty() + t[0] =~= t[0]);
            }
        }
        i = i + 1;
    }
    assert(views.take(lines@.len() as int) =~= views);
    s
}

} // verus!
