use macinmeter_dr_tool::processing::channel_separator::ChannelSeparator;
use macinmeter_dr_tool::processing::sample_conversion::interleave_channel;
use macinmeter_dr_tool::processing::simd_core::SimdCapabilities;

fn host_caps() -> SimdCapabilities {
    SimdCapabilities {
        sse2: true,
        sse3: true,
        ssse3: true,
        sse4_1: true,
        avx: false,
        avx2: false,
        fma: false,
        neon: false,
        neon_fp16: false,
        sve: false,
    }
}

#[test]
fn test_stereo_extractor_creation() {
    let separator = ChannelSeparator::new(host_caps());
    println!(
        "Stereo separator SIMD capabilities: {caps:?} / 立体声分离器SIMD能力: {caps:?}",
        caps = separator.simd_capabilities()
    );
    assert!(separator.has_simd_support());
}

#[test]
fn channel_separator_test_mono_channel_extraction() {
    let separator = ChannelSeparator::new(host_caps());
    let samples = vec![0.1, 0.2, 0.3, 0.4, 0.5];
    let result = separator.extract_channel_samples_optimized(&samples, 0, 1);
    assert_eq!(result, samples);
}

#[test]
fn test_stereo_channel_separation() {
    let separator = ChannelSeparator::new(host_caps());
    let samples = vec![0.1, 0.2, 0.3, 0.4, 0.5, 0.6];
    let left = separator.extract_channel_samples_optimized(&samples, 0, 2);
    assert_eq!(left, vec![0.1, 0.3, 0.5]);
    let right = separator.extract_channel_samples_optimized(&samples, 1, 2);
    assert_eq!(right, vec![0.2, 0.4, 0.6]);
}

#[test]
fn test_scalar_vs_simd_consistency() {
    let separator = ChannelSeparator::new(host_caps());
    let mut samples = Vec::new();
    for i in 0..100 {
        samples.push(i as f32);
        samples.push((i + 1000) as f32);
    }
    let simd_left = separator.extract_channel_samples_optimized(&samples, 0, 2);
    let simd_right = separator.extract_channel_samples_optimized(&samples, 1, 2);
    let scalar_left = ChannelSeparator::extract_channel_samples_scalar(&samples, 0, 2);
    let scalar_right = ChannelSeparator::extract_channel_samples_scalar(&samples, 1, 2);
    assert_eq!(simd_left.len(), scalar_left.len());
    assert_eq!(simd_right.len(), scalar_right.len());
    for (simd_val, scalar_val) in simd_left.iter().zip(scalar_left.iter()) {
        assert!((simd_val - scalar_val).abs() < 1e-6);
    }
    for (simd_val, scalar_val) in simd_right.iter().zip(scalar_right.iter()) {
        assert!((simd_val - scalar_val).abs() < 1e-6);
    }
}

#[test]
fn odd_length_stereo_gives_left_one_more() {
    let separator = ChannelSeparator::new(host_caps());
    let samples = vec![1, 2, 3, 4, 5];
    assert_eq!(separator.extract_channel_samples_optimized(&samples, 0, 2), vec![1, 3, 5]);
    assert_eq!(separator.extract_channel_samples_optimized(&samples, 1, 2), vec![2, 4]);
}

#[test]
fn scalar_into_appends_and_into_replaces() {
    let separator = ChannelSeparator::new(host_caps());
    let samples = vec![10, 11, 12, 13, 14, 15, 16];
    let mut out = vec![99];
    ChannelSeparator::extract_channel_samples_scalar_into(&samples, 1, 3, &mut out);
    assert_eq!(out, vec![99, 11, 14]);
    separator.extract_channel_into(&samples, 0, 1, &mut out);
    assert_eq!(out, samples);
    assert!(ChannelSeparator::extract_channel_samples_scalar(&samples, 9, 2).is_empty());
}

#[test]
fn extract_then_interleave_restores_the_stream() {
    let separator = ChannelSeparator::new(host_caps());
    let samples: Vec<i16> = (0..12).collect();
    let left = separator.extract_channel_samples_optimized(&samples, 0, 2);
    let right = separator.extract_channel_samples_optimized(&samples, 1, 2);
    let mut rebuilt = vec![0i16; 12];
    interleave_channel(&left, &mut rebuilt, 0, 2);
    interleave_channel(&right, &mut rebuilt, 1, 2);
    assert_eq!(rebuilt, samples);
}
