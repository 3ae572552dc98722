use macinmeter_dr_tool::processing::simd_core::{SimdCapabilities, SimdProcessor};

fn scalar_caps() -> SimdCapabilities {
    SimdCapabilities {
        sse2: false,
        sse3: false,
        ssse3: false,
        sse4_1: false,
        avx: false,
        avx2: false,
        fma: false,
        neon: false,
        neon_fp16: false,
        sve: false,
    }
}

fn x86_caps() -> SimdCapabilities {
    SimdCapabilities { sse2: true, sse3: true, ssse3: true, sse4_1: true, avx: true, avx2: true, fma: true, ..scalar_caps() }
}

fn arm_caps() -> SimdCapabilities {
    SimdCapabilities { neon: true, neon_fp16: true, ..scalar_caps() }
}

fn all_caps() -> Vec<SimdCapabilities> {
    vec![
        scalar_caps(),
        x86_caps(),
        arm_caps(),
        SimdCapabilities { sse2: true, ..scalar_caps() },
        SimdCapabilities { neon: true, ..scalar_caps() },
        SimdCapabilities { avx2: true, ..scalar_caps() },
    ]
}

#[test]
fn simd_test_simd_capability_detection() {
    for caps in all_caps() {
        println!("SIMD能力检测:");
        println!("    SSE2: {}", caps.sse2);
        println!("    SSE4.1: {}", caps.sse4_1);
        println!("    NEON: {}", caps.neon);
        println!("  基础SIMD支持: {}", caps.has_basic_simd());
        println!("  高级SIMD支持: {}", caps.has_advanced_simd());
        println!("  推荐并行度: {}", caps.recommended_parallelism());
        assert!(caps.recommended_parallelism() >= 1);
        assert!(caps.recommended_parallelism() <= 16);
    }
}

#[test]
fn simd_core_test_simd_capability_detection() {
    for caps in all_caps() {
        println!("SIMD capability detection / SIMD能力检测:");
        println!("  SSE2: {}", caps.sse2);
        println!("  SSE4.1: {}", caps.sse4_1);
        println!("  AVX: {}", caps.avx);
        println!("  Recommended parallelism / 推荐并行度: {}", caps.recommended_parallelism());
        assert!(caps.recommended_parallelism() >= 1);
        assert!(caps.recommended_parallelism() <= 16);
    }
}

#[test]
fn test_has_advanced_simd() {
    for caps in all_caps() {
        let has_advanced = caps.has_advanced_simd();
        assert_eq!(has_advanced, caps.sse4_1 || caps.neon_fp16);
    }
    assert!(!SimdCapabilities { sse2: true, ..scalar_caps() }.has_advanced_simd());
    assert!(x86_caps().has_advanced_simd());
}

#[test]
fn test_recommended_parallelism_levels() {
    for caps in all_caps() {
        let parallelism = caps.recommended_parallelism();
        if caps.avx2 && caps.has_basic_simd() {
            assert_eq!(parallelism, 4);
        } else if caps.has_basic_simd() {
            assert_eq!(parallelism, 4);
        } else {
            assert_eq!(parallelism, 1);
        }
    }
    // AVX2 alone (without SSE2) has no implemented vector path.
    assert_eq!(SimdCapabilities { avx2: true, ..scalar_caps() }.recommended_parallelism(), 1);
}

#[test]
fn test_simd_processor_should_use_simd_thresholds() {
    let test_cases = vec![
        (10, false, "too few samples / 太少样本"),
        (50, false, "below threshold / 低于阈值"),
        (99, false, "just below 100 / 刚好低于100"),
        (100, true, "threshold boundary / 阈值边界"),
        (101, true, "just above 100 / 刚好高于100"),
        (1000, true, "sufficient samples / 充足样本"),
        (10000, true, "large sample set / 大量样本"),
    ];
    for caps in all_caps() {
        let processor = SimdProcessor::new(caps);
        for (count, expected_if_simd, desc) in test_cases.iter() {
            let should_use = processor.should_use_simd(*count);
            let has_simd = processor.capabilities().has_basic_simd();
            if has_simd {
                assert_eq!(should_use, *expected_if_simd, "样本数{count} ({desc})");
            } else {
                assert!(!should_use, "无SIMD支持时不应使用SIMD");
            }
        }
    }
}

#[test]
fn test_simd_processor_capabilities_access() {
    for expected in all_caps() {
        let processor = SimdProcessor::new(expected.clone());
        let caps = processor.capabilities();
        assert!(caps.recommended_parallelism() >= 1);
        assert_eq!(caps.has_basic_simd(), caps.sse2 || caps.neon);
        assert_eq!(caps, &expected);
    }
}

#[test]
fn test_transpose_4x4_basic() {
    let processor = SimdProcessor::new(x86_caps());
    let interleaved: Vec<f32> = (1..=16).map(|i| i as f32).collect();
    let result = processor.transpose_4x4_block(&interleaved, 0, 0, 4);
    assert_eq!(result.ch0, [1.0, 5.0, 9.0, 13.0]);
    assert_eq!(result.ch1, [2.0, 6.0, 10.0, 14.0]);
    assert_eq!(result.ch2, [3.0, 7.0, 11.0, 15.0]);
    assert_eq!(result.ch3, [4.0, 8.0, 12.0, 16.0]);
}

#[test]
fn test_transpose_4x4_multi_channel() {
    let processor = SimdProcessor::new(arm_caps());
    let mut interleaved = Vec::new();
    for frame in 0..4 {
        for ch in 0..8 {
            interleaved.push((frame * 8 + ch) as f32);
        }
    }
    let result = processor.transpose_4x4_block(&interleaved, 0, 4, 8);
    assert_eq!(result.ch0, [4.0, 12.0, 20.0, 28.0]);
    assert_eq!(result.ch1, [5.0, 13.0, 21.0, 29.0]);
    assert_eq!(result.ch2, [6.0, 14.0, 22.0, 30.0]);
    assert_eq!(result.ch3, [7.0, 15.0, 23.0, 31.0]);
}

#[test]
fn test_transpose_4x4_simd_vs_scalar() {
    let processor = SimdProcessor::new(x86_caps());
    let scalar = SimdProcessor::new(scalar_caps());
    let mut interleaved = Vec::new();
    for frame in 0..8 {
        for ch in 0..4 {
            interleaved.push((frame as f32) * 0.1 + (ch as f32) * 0.01);
        }
    }
    let result1 = processor.transpose_4x4_block(&interleaved, 0, 0, 4);
    let result2 = processor.transpose_4x4_block(&interleaved, 4, 0, 4);
    assert_eq!(result1.ch0.len(), 4);
    assert_eq!(result2.ch0.len(), 4);
    for i in 0..4 {
        let expected_value = (i as f32) * 0.1;
        assert!((result1.ch0[i] - expected_value).abs() < 1e-6);
    }
    let s1 = scalar.transpose_4x4_block(&interleaved, 4, 0, 4);
    assert_eq!(s1.ch2, result2.ch2);
}

#[test]
fn transpose_works_on_integer_samples() {
    let processor = SimdProcessor::new(scalar_caps());
    let interleaved: Vec<i32> = (0..40).collect();
    let t = processor.transpose_4x4_block(&interleaved, 1, 4, 8);
    assert_eq!(t.ch0, [12, 20, 28, 36]);
    assert_eq!(t.ch3, [15, 23, 31, 39]);
}
