use macinmeter_dr_tool::processing::performance_metrics::{
    dataset_size, DatasetSize, PerformanceEvaluator, SpeedupBasis,
};
use macinmeter_dr_tool::processing::simd_core::SimdCapabilities;

fn caps(sse2: bool, sse4_1: bool, avx: bool, avx2: bool, neon: bool, neon_fp16: bool) -> SimdCapabilities {
    SimdCapabilities {
        sse2,
        sse3: false,
        ssse3: false,
        sse4_1,
        avx,
        avx2,
        fma: false,
        neon,
        neon_fp16,
        sve: false,
    }
}

#[test]
fn test_performance_evaluator_creation() {
    let evaluator = PerformanceEvaluator::new(caps(true, true, false, false, false, false));
    println!("性能评估器SIMD能力: {:?}", evaluator.capabilities());
}

#[test]
fn test_simd_recommendation() {
    for c in [
        caps(false, false, false, false, false, false),
        caps(true, false, false, false, false, false),
        caps(false, false, false, false, true, false),
    ] {
        let evaluator = PerformanceEvaluator::new(c);
        assert!(!evaluator.should_use_simd(50));
        let supports_simd = evaluator.capabilities().has_basic_simd();
        if supports_simd {
            assert!(evaluator.should_use_simd(1000));
        } else {
            assert!(!evaluator.should_use_simd(1000));
        }
        println!("SIMD推荐测试通过 (当前系统SIMD支持: {supports_simd})");
    }
}

#[test]
fn speedup_basis_prefers_widest_path() {
    let e = |c| PerformanceEvaluator::with_capabilities(c).speedup_basis();
    assert_eq!(e(caps(true, true, true, true, false, false)), SpeedupBasis::Avx2);
    assert_eq!(e(caps(true, true, true, false, false, false)), SpeedupBasis::Avx);
    assert_eq!(e(caps(false, false, false, false, true, true)), SpeedupBasis::NeonFp16);
    assert_eq!(e(caps(false, false, false, false, true, false)), SpeedupBasis::Neon);
    assert_eq!(e(caps(true, true, false, false, false, false)), SpeedupBasis::Sse41);
    assert_eq!(e(caps(true, false, false, false, false, false)), SpeedupBasis::Sse2);
    assert_eq!(e(caps(false, false, false, false, false, false)), SpeedupBasis::Scalar);
}

#[test]
fn dataset_size_thresholds() {
    assert_eq!(dataset_size(0), DatasetSize::Small);
    assert_eq!(dataset_size(999), DatasetSize::Small);
    assert_eq!(dataset_size(1000), DatasetSize::Medium);
    assert_eq!(dataset_size(100000), DatasetSize::Medium);
    assert_eq!(dataset_size(100001), DatasetSize::Large);
}
