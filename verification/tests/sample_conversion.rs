use macinmeter_dr_tool::processing::sample_conversion::{
    interleave_channel, ConversionStats, SampleConverter, SampleFormat,
};
use macinmeter_dr_tool::processing::simd_core::SimdCapabilities;

fn host_caps() -> SimdCapabilities {
    SimdCapabilities {
        sse2: false,
        sse3: false,
        ssse3: false,
        sse4_1: false,
        avx: false,
        avx2: false,
        fma: false,
        neon: true,
        neon_fp16: false,
        sve: false,
    }
}

#[test]
fn test_sample_format_properties() {
    assert_eq!(SampleFormat::S16.bit_depth(), 16);
    assert!(SampleFormat::S16.is_signed());
    assert!(!SampleFormat::S16.is_float());

    assert_eq!(SampleFormat::F32.bit_depth(), 32);
    assert!(SampleFormat::F32.is_signed());
    assert!(SampleFormat::F32.is_float());
}

#[test]
fn test_sample_converter_creation() {
    let converter = SampleConverter::new(host_caps());
    println!("SIMD支持: {}", converter.has_simd_support());
    println!("SIMD能力: {:?}", converter.simd_capabilities());
    assert!(converter.has_simd_support());
    assert!(!converter.is_stats_enabled());
}

#[test]
fn every_format_has_its_depth_and_sign() {
    let table = [
        (SampleFormat::S8, 8, true, false),
        (SampleFormat::U8, 8, false, false),
        (SampleFormat::S16, 16, true, false),
        (SampleFormat::U16, 16, false, false),
        (SampleFormat::S24, 24, true, false),
        (SampleFormat::U24, 24, false, false),
        (SampleFormat::S32, 32, true, false),
        (SampleFormat::U32, 32, false, false),
        (SampleFormat::F32, 32, true, true),
        (SampleFormat::F64, 64, true, true),
    ];
    for (f, bits, signed, float) in table {
        assert_eq!(f.bit_depth(), bits);
        assert_eq!(f.is_signed(), signed);
        assert_eq!(f.is_float(), float);
    }
}

#[test]
fn conversion_stats_start_empty() {
    let stats = ConversionStats::new(1234);
    assert_eq!(stats.input_samples, 1234);
    assert_eq!(stats.output_samples, 0);
    assert!(!stats.used_simd);
    assert_eq!(stats.simd_samples, 0);
    assert_eq!(stats.scalar_samples, 0);
    assert_eq!(stats.duration_ns, 0);
}

#[test]
fn stats_switch() {
    let mut converter = SampleConverter::new_with_stats(host_caps());
    assert!(converter.is_stats_enabled());
    converter.set_stats_enabled(false);
    assert!(!converter.is_stats_enabled());
}

#[test]
fn interleave_writes_only_its_slots() {
    let channel = vec![1.0f32, 2.0, 3.0];
    let mut out = vec![-1.0f32; 9];
    interleave_channel(&channel, &mut out, 2, 3);
    assert_eq!(out, vec![-1.0, -1.0, 1.0, -1.0, -1.0, 2.0, -1.0, -1.0, 3.0]);
}
