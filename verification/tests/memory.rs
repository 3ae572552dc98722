use macinmeter_dr_tool::error::AudioError;
use macinmeter_dr_tool::utils::dynamic_memory::{classify_memory_tier, tier_limits, MemoryLimits, MemoryTier};
use macinmeter_dr_tool::utils::memory_analysis::{AudioComplexity, AudioMemoryAnalyzer, MemoryRequirement};
use macinmeter_dr_tool::utils::memory_strategy::{
    push_gib, MemoryEstimate, MemoryStrategySelector, ProcessingStrategy,
};

const GIB: u64 = 1024 * 1024 * 1024;

#[test]
fn test_memory_strategy_selection() {
    let selector = MemoryStrategySelector::new(8 * GIB);
    assert!(selector.available_memory() > 0);
    assert!(selector.memory_limit() > 0);
    assert!(selector.memory_limit() <= selector.available_memory());
}

#[test]
fn test_strategy_for_large_files() {
    let selector = MemoryStrategySelector::new(8 * GIB);
    let large_file_size = 3 * 1024 * 1024 * 1024u64;
    let estimated_peak = large_file_size * 15;
    let strategy = selector.select_strategy(estimated_peak, large_file_size);
    assert_eq!(strategy, ProcessingStrategy::StreamingBlocks);
}

#[test]
fn small_file_is_loaded_whole() {
    let selector = MemoryStrategySelector::new(8 * GIB);
    let estimate = selector.estimate_for_file_size(1024 * 1024);
    assert_eq!(estimate.raw_audio_bytes, 15 * 1024 * 1024);
    assert_eq!(estimate.peak_memory, 65 * 1024 * 1024);
    assert_eq!(estimate.recommended_strategy, ProcessingStrategy::FullMemory);
    assert!(selector.validate_strategy(&estimate).is_ok());
}

#[test]
fn medium_file_is_adaptive() {
    let selector = MemoryStrategySelector::new(64 * GIB);
    assert_eq!(selector.select_strategy(GIB, 300 * 1024 * 1024), ProcessingStrategy::Adaptive);
}

#[test]
fn validation_messages_match_one_decimal_formatting() {
    let selector = MemoryStrategySelector::new(3 * GIB);
    let estimate = MemoryEstimate {
        raw_audio_bytes: 0,
        samples_memory: 0,
        peak_memory: 5 * GIB / 2,
        recommended_strategy: ProcessingStrategy::FullMemory,
    };
    match selector.validate_strategy(&estimate) {
        Err(AudioError::InvalidInput(m)) => assert_eq!(
            m,
            format!(
                "文件过大：全内存模式需要{:.1}GB，超过安全限制{:.1}GB",
                estimate.peak_memory as f64 / (1024.0 * 1024.0 * 1024.0),
                selector.memory_limit() as f64 / (1024.0 * 1024.0 * 1024.0)
            )
        ),
        other => panic!("unexpected {other:?}"),
    }
    let tiny = MemoryStrategySelector::new(10 * 1024 * 1024);
    let streaming = MemoryEstimate { recommended_strategy: ProcessingStrategy::StreamingBlocks, ..estimate };
    match tiny.validate_strategy(&streaming) {
        Err(AudioError::InvalidInput(m)) => assert_eq!(
            m,
            format!(
                "系统内存不足：流式处理需要50MB，可用内存{:.1}GB",
                tiny.available_memory() as f64 / (1024.0 * 1024.0 * 1024.0)
            )
        ),
        other => panic!("unexpected {other:?}"),
    }
}

#[test]
fn gib_text_agrees_with_float_formatting() {
    let mut values = vec![0u64, 1, GIB / 20, GIB / 20 * 3, GIB / 10, 3 * GIB / 20, GIB, 5 * GIB / 2, 123456789012];
    for k in 0..200u64 {
        values.push(k * GIB / 20);
        values.push(k * GIB / 20 + 1);
        values.push((k * GIB / 20).saturating_sub(1));
        values.push(k * 987654321 + 12345);
    }
    for v in values {
        let mut s = String::new();
        push_gib(&mut s, v);
        assert_eq!(s, format!("{:.1}", v as f64 / (1024.0 * 1024.0 * 1024.0)), "{v}");
    }
}

#[test]
fn test_memory_tier_classification() {
    assert_eq!(classify_memory_tier(100 * 1024 * 1024), MemoryTier::Emergency);
    assert_eq!(classify_memory_tier(1024 * 1024 * 1024), MemoryTier::Limited);
    assert_eq!(classify_memory_tier(4 * 1024 * 1024 * 1024), MemoryTier::Standard);
    assert_eq!(classify_memory_tier(16 * 1024 * 1024 * 1024), MemoryTier::Abundant);
    assert_eq!(classify_memory_tier(64 * 1024 * 1024 * 1024), MemoryTier::Ultra);
}

#[test]
fn complexity_classes() {
    assert_eq!(AudioMemoryAnalyzer::classify_complexity(44100, 2, 16), AudioComplexity::Simple);
    assert_eq!(AudioMemoryAnalyzer::classify_complexity(96000, 2, 24), AudioComplexity::Standard);
    assert_eq!(AudioMemoryAnalyzer::classify_complexity(48000, 6, 32), AudioComplexity::Standard);
    assert_eq!(AudioMemoryAnalyzer::classify_complexity(192000, 2, 24), AudioComplexity::Complex);
    assert_eq!(AudioMemoryAnalyzer::classify_complexity(192000, 2, 32), AudioComplexity::Extreme);
    assert_eq!(AudioMemoryAnalyzer::classify_complexity(384000, 1, 16), AudioComplexity::Extreme);
    assert_eq!(AudioMemoryAnalyzer::classify_complexity(96000, 20, 32), AudioComplexity::Extreme);
}

#[test]
fn integer_parts_of_the_estimate() {
    assert_eq!(AudioMemoryAnalyzer::raw_audio_bytes(44100, 2, 16), 44100 * 3 * 2 * 2);
    assert_eq!(AudioMemoryAnalyzer::raw_audio_bytes(96000, 2, 24), 96000 * 3 * 2 * 3);
    assert_eq!(AudioMemoryAnalyzer::raw_audio_bytes(48000, 2, 8), 48000 * 3 * 2 * 4);
    assert_eq!(AudioMemoryAnalyzer::calculate_dr_memory(1000, 2), 1000 + 2048 + 512);
    let mib = 1024 * 1024;
    assert_eq!(AudioMemoryAnalyzer::fixed_system_overhead(AudioComplexity::Simple, 2), 16 * mib);
    assert_eq!(AudioMemoryAnalyzer::fixed_system_overhead(AudioComplexity::Extreme, 16), 80 * mib);
    assert_eq!(AudioMemoryAnalyzer::fixed_system_overhead(AudioComplexity::Extreme, 20), 80 * mib + 256 * mib);
    assert_eq!(AudioMemoryAnalyzer::fixed_system_overhead(AudioComplexity::Extreme, 33), 80 * mib + 512 * mib);
    assert!(AudioMemoryAnalyzer::survivable_in_emergency(512 * mib));
    assert!(!AudioMemoryAnalyzer::survivable_in_emergency(512 * mib + 1));
}

fn requirement(complexity: AudioComplexity, total: u64, survivable: bool) -> MemoryRequirement {
    MemoryRequirement {
        complexity,
        raw_audio_bytes: 0,
        decoding_memory: 0,
        dr_calculation_memory: 0,
        system_overhead: 0,
        total_minimum: total,
        recommended_memory: 0,
        survivable_in_emergency: survivable,
    }
}

#[test]
fn dynamic_minimum_never_below_absolute_floor() {
    assert_eq!(AudioMemoryAnalyzer::calculate_dynamic_minimum(&requirement(AudioComplexity::Simple, 1, true)), 32 * 1024 * 1024);
    assert_eq!(AudioMemoryAnalyzer::calculate_dynamic_minimum(&requirement(AudioComplexity::Extreme, 900 * 1024 * 1024, false)), 900 * 1024 * 1024);
}

#[test]
fn recommendations_follow_format() {
    let simple = AudioMemoryAnalyzer::generate_recommendations(&requirement(AudioComplexity::Simple, 0, true), 44100, 2);
    assert_eq!(simple, "✅ 简单格式，所有模式均可正常处理");
    let extreme = AudioMemoryAnalyzer::generate_recommendations(&requirement(AudioComplexity::Extreme, 0, false), 384001, 64);
    let expected = [
        "🔥 极端格式，需要512MB+内存",
        "💡 强烈建议使用Abundant或Ultra内存模式",
        "⛔ 在Emergency模式下无法处理，需要更多内存",
        "🎵 超多声道音频(32+)，考虑分批处理或使用专业音频工作站",
        "🔥 384kHz+极端采样率，需要专业级硬件配置",
        "💡 强烈建议使用Ultra内存模式（8GB+）",
        "⚠️ 可能需要调整系统虚拟内存设置",
        "⚡ 高采样率+多声道组合，内存需求极大",
        "💡 考虑使用专业音频处理设备或云端处理",
    ]
    .join("\n             ");
    assert_eq!(extreme, expected);
    let at_384k = AudioMemoryAnalyzer::generate_recommendations(&requirement(AudioComplexity::Extreme, 0, true), 384000, 2);
    assert_eq!(
        at_384k,
        [
            "🔥 极端格式，需要512MB+内存",
            "💡 强烈建议使用Abundant或Ultra内存模式",
            "🎼 192-384kHz超高采样率，需要大量内存和处理能力",
            "💡 建议确保系统有充足的内存（4GB+）",
        ]
        .join("\n             ")
    );
    let hi = AudioMemoryAnalyzer::generate_recommendations(&requirement(AudioComplexity::Complex, 0, true), 192000, 8);
    assert_eq!(
        hi,
        ["⚠️ 复杂格式，需要256MB+内存", "💡 建议使用Standard或更高内存模式", "🎼 96-192kHz高采样率，建议预留额外内存缓冲"].join("\n             ")
    );
}

const MIB: u64 = 1024 * 1024;

#[test]
fn tier_limits_per_tier() {
    let emergency = tier_limits(100 * MIB);
    assert_eq!((emergency.min_memory_bytes, emergency.max_memory_bytes, emergency.current_memory_bytes), (64 * MIB, 512 * MIB, 64 * MIB));
    assert!(emergency.emergency_mode);
    let limited = tier_limits(GIB);
    assert_eq!((limited.min_memory_bytes, limited.max_memory_bytes, limited.current_memory_bytes), (64 * MIB, 2 * GIB, 256 * MIB));
    assert!(!limited.emergency_mode);
    let standard = tier_limits(3 * GIB);
    assert_eq!((standard.min_memory_bytes, standard.max_memory_bytes, standard.current_memory_bytes), (128 * MIB, 8 * GIB, GIB));
    let abundant = tier_limits(16 * GIB);
    assert_eq!((abundant.min_memory_bytes, abundant.max_memory_bytes, abundant.current_memory_bytes), (256 * MIB, 32 * GIB, 8 * GIB));
    let ultra = tier_limits(48 * GIB);
    assert_eq!((ultra.min_memory_bytes, ultra.max_memory_bytes, ultra.current_memory_bytes), (512 * MIB, 64 * GIB, 32 * GIB));
}

#[test]
fn tier_limits_two_thirds_without_overflow() {
    let ultra = tier_limits(u64::MAX);
    assert_eq!(ultra.current_memory_bytes, ((u64::MAX as u128) * 2 / 3) as u64);
    assert_eq!(tier_limits(34359738368 + 1).current_memory_bytes, (34359738369u64 * 2) / 3);
}

#[test]
fn emergency_budget_never_below_64_mib() {
    assert_eq!(tier_limits(0).current_memory_bytes, 64 * MIB);
    assert_eq!(tier_limits(512 * MIB - 1).current_memory_bytes, 64 * MIB);
    assert!(tier_limits(512 * MIB - 1).emergency_mode);
    assert!(!tier_limits(512 * MIB).emergency_mode);
}

#[test]
fn max_memory_override_lowers_budget() {
    let limits = tier_limits(16 * GIB);
    let capped = limits.with_max_memory_mb(1024);
    assert_eq!(capped.max_memory_bytes, GIB);
    assert_eq!(capped.current_memory_bytes, GIB);
    assert_eq!(capped.min_memory_bytes, limits.min_memory_bytes);
    let raised = limits.with_max_memory_mb(65536);
    assert_eq!(raised.current_memory_bytes, 8 * GIB);
}

#[test]
fn emergency_override_drops_to_minimum() {
    let limits = tier_limits(16 * GIB).with_emergency_mode();
    assert!(limits.emergency_mode);
    assert_eq!(limits.current_memory_bytes, 256 * MIB);
    assert_eq!(limits.adaptive_budget(10 * GIB), 256 * MIB);
}

#[test]
fn adaptive_budget_caps_and_floors() {
    let limits = MemoryLimits { min_memory_bytes: 16 * MIB, max_memory_bytes: GIB, current_memory_bytes: 100 * MIB, emergency_mode: false };
    assert_eq!(limits.adaptive_budget(300 * MIB), 300 * MIB);
    assert_eq!(limits.adaptive_budget(5 * GIB), GIB);
    assert_eq!(limits.adaptive_budget(MIB), 32 * MIB);
    let emergency = MemoryLimits { emergency_mode: true, ..limits };
    assert_eq!(emergency.adaptive_budget(300 * MIB), 32 * MIB);
}

#[test]
fn total_minimum_memory_adds_the_parts() {
    assert_eq!(AudioMemoryAnalyzer::total_minimum_memory(1, 2, 3, 4), Some(10));
    assert_eq!(AudioMemoryAnalyzer::total_minimum_memory(u64::MAX - 3, 1, 1, 1), Some(u64::MAX));
    assert_eq!(AudioMemoryAnalyzer::total_minimum_memory(u64::MAX, 0, 0, 1), None);
}
