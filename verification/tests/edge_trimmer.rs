use macinmeter_dr_tool::processing::edge_trimmer::{EdgeTrimmer, TrimSettings};

/// Frames from milliseconds at a sample rate, rounded up.
fn frames(ms: f64, sample_rate: u32) -> usize {
    ((ms / 1000.0) * sample_rate as f64).ceil() as usize
}

/// One flag per whole frame: the loudest channel is below the threshold.
fn silence_flags(samples: &[f32], channels: usize, threshold_db: f64) -> Vec<bool> {
    let threshold = 10f64.powf(threshold_db / 20.0);
    samples
        .chunks_exact(channels)
        .map(|frame| frame.iter().fold(0.0f64, |m, s| m.max(s.abs() as f64)) < threshold)
        .collect()
}

fn trimmer(min_run_ms: f64, hysteresis_ms: f64) -> EdgeTrimmer<f32> {
    EdgeTrimmer::new(
        TrimSettings {
            enabled: true,
            min_run_frames: frames(min_run_ms, 44100),
            hysteresis_frames: frames(hysteresis_ms, 44100),
        },
        2,
    )
}

fn feed(t: &mut EdgeTrimmer<f32>, samples: &[f32]) -> Vec<f32> {
    let flags = silence_flags(samples, 2, -40.0);
    t.process_chunk(samples, &flags)
}

fn generate_test_audio(frames: usize, amplitude: f32, channels: usize) -> Vec<f32> {
    vec![amplitude; frames * channels]
}

#[test]
fn test_leading_short_silence_reinjected() {
    let mut t = trimmer(10.0, 5.0);
    let short_silence = generate_test_audio(50, 0.0001, 2);
    let out1 = feed(&mut t, &short_silence);
    let audio = generate_test_audio(500, 0.5, 2);
    let out2 = feed(&mut t, &audio);
    assert!(out1.is_empty(), "Leading 状态中短静音应累积，不输出");
    assert!(!out2.is_empty(), "非静音时应回灌短静音");
    assert!(out2.len() > short_silence.len(), "out2 应包含短静音+音频");
}

#[test]
fn test_trailing_short_silence_reinjected() {
    let mut t = trimmer(10.0, 5.0);
    let audio = generate_test_audio(500, 0.5, 2);
    feed(&mut t, &audio);
    let short_trailing_silence = generate_test_audio(300, 0.0001, 2);
    feed(&mut t, &short_trailing_silence);
    let (final_chunk, stats) = t.finalize();
    assert_eq!(stats.trailing_samples_trimmed, 0, "短尾部静音不应被丢弃");
    assert!(!final_chunk.is_empty(), "短尾部静音应被回灌");
}

#[test]
fn test_leading_long_silence_dropped() {
    let mut t = trimmer(10.0, 5.0);
    let long_silence = generate_test_audio(5000, 0.0001, 2);
    let out1 = feed(&mut t, &long_silence);
    let audio = generate_test_audio(500, 0.5, 2);
    let _out2 = feed(&mut t, &audio);
    assert!(out1.is_empty() || out1.len() < long_silence.len());
}

#[test]
fn test_mixed_frames_in_trailing_reinjected() {
    let mut t = trimmer(10.0, 5.0);
    let audio = generate_test_audio(500, 0.5, 2);
    feed(&mut t, &audio);
    let mut mixed = Vec::new();
    mixed.extend_from_slice(&generate_test_audio(200, 0.0001, 2));
    mixed.extend_from_slice(&generate_test_audio(50, 0.5, 2));
    let _out = feed(&mut t, &mixed);
    let (final_chunk, stats) = t.finalize();
    assert_eq!(stats.trailing_samples_trimmed, 0, "混合帧不应被丢弃");
    assert!(!final_chunk.is_empty(), "混合尾段应被回灌");
}

#[test]
fn test_disabled_passthrough() {
    let mut t: EdgeTrimmer<f32> = EdgeTrimmer::new(
        TrimSettings { enabled: false, min_run_frames: frames(60.0, 44100), hysteresis_frames: frames(50.0, 44100) },
        2,
    );
    let input = generate_test_audio(1000, 0.5, 2);
    let output = t.process_chunk(&input, &[]);
    assert_eq!(output.len(), input.len());
    assert_eq!(t.stats().total_samples_processed, 0);
}

#[test]
fn samples_are_conserved_over_a_stream() {
    let mut t = trimmer(10.0, 5.0);
    let mut stream = Vec::new();
    stream.extend(generate_test_audio(1000, 0.0001, 2));
    stream.extend(generate_test_audio(700, 0.5, 2));
    stream.extend(generate_test_audio(30, 0.0001, 2));
    stream.extend(generate_test_audio(400, 0.5, 2));
    stream.extend(generate_test_audio(900, 0.0001, 2));
    let mut out = Vec::new();
    for chunk in stream.chunks(334) {
        out.extend(feed(&mut t, chunk));
    }
    let (tail, stats) = t.finalize();
    out.extend(tail);
    assert_eq!(stats.total_samples_processed, stream.len());
    assert_eq!(out.len() + stats.leading_samples_trimmed + stats.trailing_samples_trimmed, stream.len());
    assert_eq!(stats.leading_samples_trimmed, 1000 * 2);
    assert_eq!(stats.trailing_samples_trimmed, 900 * 2);
}

#[test]
fn untrimmed_stream_passes_in_order() {
    let mut t: EdgeTrimmer<u32> = EdgeTrimmer::new(TrimSettings { enabled: true, min_run_frames: 5, hysteresis_frames: 2 }, 1);
    let samples: Vec<u32> = (0..20).collect();
    let flags: Vec<bool> = samples.iter().map(|s| s % 7 == 3).collect();
    let mut out = t.process_chunk(&samples, &flags);
    let (tail, stats) = t.finalize();
    out.extend(tail);
    assert_eq!(stats.leading_samples_trimmed + stats.trailing_samples_trimmed, 0);
    assert_eq!(out, samples);
}

#[test]
fn long_leading_silence_is_dropped_whole() {
    let mut t = trimmer(10.0, 5.0);
    let out1 = feed(&mut t, &generate_test_audio(5000, 0.0001, 2));
    assert!(out1.is_empty());
    let audio = generate_test_audio(1000, 0.5, 2);
    let out2 = feed(&mut t, &audio);
    assert_eq!(out2, audio);
    assert_eq!(t.stats().leading_samples_trimmed, 10000);
}

#[test]
fn disabled_trimmer_passes_any_channel_count() {
    let mut t: EdgeTrimmer<f32> =
        EdgeTrimmer::new(TrimSettings { enabled: false, min_run_frames: 441, hysteresis_frames: 221 }, 0);
    let input = generate_test_audio(1000, 0.5, 2);
    assert_eq!(t.process_chunk(&input, &[]), input);
    let (tail, stats) = t.finalize();
    assert!(tail.is_empty());
    assert_eq!(stats.leading_samples_trimmed + stats.trailing_samples_trimmed + stats.total_samples_processed, 0);
}

#[test]
fn trimmed_stream_keeps_sample_order() {
    let mut t: EdgeTrimmer<u32> =
        EdgeTrimmer::new(TrimSettings { enabled: true, min_run_frames: 3, hysteresis_frames: 1 }, 1);
    let samples: Vec<u32> = (0..40).collect();
    let flags: Vec<bool> = samples.iter().map(|s| *s < 6 || (20..24).contains(s) || *s >= 35).collect();
    let mut out = Vec::new();
    for (chunk, chunk_flags) in samples.chunks(7).zip(flags.chunks(7)) {
        out.extend(t.process_chunk(chunk, chunk_flags));
    }
    let (tail, stats) = t.finalize();
    out.extend(tail);
    let expected: Vec<u32> = (6..35).collect();
    assert_eq!(out, expected);
    assert_eq!(stats.leading_samples_trimmed, 6);
    assert_eq!(stats.trailing_samples_trimmed, 5);
}
