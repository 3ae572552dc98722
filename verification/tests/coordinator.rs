use macinmeter_dr_tool::error::AudioError;
use macinmeter_dr_tool::processing::processing_coordinator::ProcessingCoordinator;
use macinmeter_dr_tool::processing::simd_core::SimdCapabilities;

#[derive(Debug, Clone, PartialEq)]
struct DrResult {
    channel: usize,
    dr_value: f64,
    rms: f64,
    peak: f64,
    primary_peak: f64,
    secondary_peak: f64,
    sample_count: usize,
}

fn caps() -> SimdCapabilities {
    SimdCapabilities {
        sse2: true,
        sse3: false,
        ssse3: false,
        sse4_1: false,
        avx: false,
        avx2: false,
        fma: false,
        neon: false,
        neon_fp16: false,
        sve: false,
    }
}

fn zero_result() -> DrResult {
    DrResult {
        channel: 0,
        dr_value: 0.0,
        rms: 0.0,
        peak: 0.0,
        primary_peak: 0.0,
        secondary_peak: 0.0,
        sample_count: 0,
    }
}

#[test]
fn test_processing_coordinator_creation() {
    let coordinator = ProcessingCoordinator::new(caps());
    assert_eq!(*coordinator.simd_capabilities(), caps());
}

#[test]
fn test_parallel_vs_sequential_coordination() {
    let mut samples = Vec::new();
    for _ in 0..50 {
        samples.extend_from_slice(&[0.01f32, 0.01]);
    }
    samples.extend_from_slice(&[1.0, 1.0, 0.95, 0.95]);
    let processor = |channel_samples: &[f32], channel_idx: usize| {
        Ok(DrResult {
            channel: channel_idx,
            dr_value: 15.0,
            rms: 0.05,
            peak: 1.0,
            primary_peak: 1.0,
            secondary_peak: 0.95,
            sample_count: channel_samples.len(),
        })
    };
    let result1 = ProcessingCoordinator::new(caps()).process_channels(&samples, 2, processor).unwrap();
    let result2 = ProcessingCoordinator::new(caps()).process_channels(&samples, 2, processor).unwrap();
    assert_eq!(result1.dr_results.len(), result2.dr_results.len());
    for (dr1, dr2) in result1.dr_results.iter().zip(result2.dr_results.iter()) {
        assert!((dr1.dr_value - dr2.dr_value).abs() < 1e-6);
        assert!((dr1.rms - dr2.rms).abs() < 1e-6);
        assert!((dr1.peak - dr2.peak).abs() < 1e-6);
    }
}

#[test]
fn test_empty_samples_error() {
    let coordinator = ProcessingCoordinator::new(caps());
    let empty: [f32; 0] = [];
    let result = coordinator.process_channels(&empty, 1, |_samples, _idx| Ok(zero_result()));
    assert!(result.is_err());
    if let Err(AudioError::InvalidInput(msg)) = result {
        assert!(msg.contains("样本数据不能为空"));
    } else {
        panic!("Expected InvalidInput error");
    }
}

#[test]
fn test_sample_channel_mismatch_error() {
    let coordinator = ProcessingCoordinator::new(caps());
    let samples = vec![0.5f32, 0.3, 0.7];
    let result = coordinator.process_channels(&samples, 2, |_samples, _idx| Ok(zero_result()));
    assert!(result.is_err());
    if let Err(AudioError::InvalidInput(msg)) = result {
        assert!(msg.contains("必须是声道数"));
        assert!(msg.contains("的倍数"));
    } else {
        panic!("Expected InvalidInput error with mismatch message");
    }
}

#[test]
fn test_callback_error_propagation() {
    let coordinator = ProcessingCoordinator::new(caps());
    let samples = vec![0.5f32, 0.3, 0.7, 0.4];
    let result = coordinator.process_channels(&samples, 2, |_samples, _idx| -> Result<DrResult, AudioError> {
        Err(AudioError::CalculationError("模拟DR计算失败".to_string()))
    });
    assert!(result.is_err());
    if let Err(AudioError::CalculationError(msg)) = result {
        assert_eq!(msg, "模拟DR计算失败");
    } else {
        panic!("Expected CalculationError");
    }
}

#[test]
fn processing_coordinator_test_mono_channel_extraction() {
    let coordinator = ProcessingCoordinator::new(caps());
    let samples = vec![0.5f32, 0.6, 0.7, 0.8];
    coordinator
        .process_channels(&samples, 1, |channel_samples, _idx| {
            assert_eq!(channel_samples, &samples[..]);
            Ok(DrResult {
                channel: 0,
                dr_value: 10.0,
                rms: 0.5,
                peak: 0.8,
                primary_peak: 0.8,
                secondary_peak: 0.7,
                sample_count: channel_samples.len(),
            })
        })
        .unwrap();
}

#[test]
fn test_simd_capabilities_access() {
    let coordinator = ProcessingCoordinator::new(caps());
    let capabilities = coordinator.simd_capabilities();
    assert!(std::mem::size_of_val(capabilities) > 0);
}

#[test]
fn test_performance_evaluator_access() {
    let coordinator = ProcessingCoordinator::new(caps());
    let evaluator = coordinator.performance_evaluator();
    assert!(std::mem::size_of_val(evaluator) > 0);
}

#[test]
fn stereo_channels_are_separated_in_order() {
    let coordinator = ProcessingCoordinator::new(caps());
    let samples = vec![1u8, 10, 2, 20, 3, 30];
    let results = coordinator
        .process_channels(&samples, 2, |channel, idx| Ok((idx, channel.to_vec())))
        .unwrap();
    assert_eq!(results.dr_results, vec![(0, vec![1, 2, 3]), (1, vec![10, 20, 30])]);
    assert_eq!(results.channels_processed, 2);
    assert_eq!(results.total_samples, 6);
    assert_eq!(results.samples_per_channel, 3);
}

#[test]
fn first_failing_channel_stops_the_run() {
    let coordinator = ProcessingCoordinator::new(caps());
    let samples = vec![1u8, 2, 3, 4];
    let result = coordinator.process_channels(&samples, 2, |_channel: &[u8], idx: usize| -> Result<u8, AudioError> {
        if idx == 0 {
            Err(AudioError::CalculationError("left".to_string()))
        } else {
            Err(AudioError::CalculationError("right".to_string()))
        }
    });
    assert_eq!(result.map(|r| r.dr_results), Err::<Vec<u8>, _>(AudioError::CalculationError("left".to_string())));
}

#[test]
fn layout_errors_give_exact_messages() {
    assert_eq!(ProcessingCoordinator::samples_per_channel(6, 2), Ok(3));
    assert_eq!(
        ProcessingCoordinator::samples_per_channel(3, 2),
        Err(AudioError::InvalidInput("样本数量(3)必须是声道数(2)的倍数".to_string()))
    );
    assert_eq!(
        ProcessingCoordinator::samples_per_channel(3, 0),
        Err(AudioError::InvalidInput("样本数量(3)必须是声道数(0)的倍数".to_string()))
    );
    assert_eq!(
        ProcessingCoordinator::samples_per_channel(0, 2),
        Err(AudioError::InvalidInput("样本数据不能为空".to_string()))
    );
}

#[test]
fn mono_run_reports_its_counts() {
    let coordinator = ProcessingCoordinator::new(caps());
    let samples = vec![0.1f32, 0.2, 0.3, 0.4, 0.5];
    let run = coordinator
        .process_channels(&samples, 1, |channel_samples, idx| Ok((idx, channel_samples.len())))
        .unwrap();
    assert_eq!(run.dr_results, vec![(0, 5)]);
    assert_eq!(run.channels_processed, 1);
    assert_eq!(run.total_samples, 5);
    assert_eq!(run.samples_per_channel, 5);
}
