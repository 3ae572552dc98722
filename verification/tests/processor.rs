use macinmeter_dr_tool::error::AudioError;
use macinmeter_dr_tool::tools::processor::{
    add_failed_to_batch_output, add_to_batch_output, check_minimum_frames, reconcile_sample_count,
    BatchAggregate, WindowBuffer,
};

#[test]
fn windows_come_out_whole_and_in_order() {
    let mut buffer: WindowBuffer<u32> = WindowBuffer::new(4, true);
    let mut windows = Vec::new();
    let stream: Vec<u32> = (0..23).collect();
    for chunk in stream.chunks(5) {
        buffer.push_chunk(chunk);
        while let Some(w) = buffer.take_window() {
            windows.push(w);
        }
    }
    let rest = buffer.take_remaining();
    assert_eq!(windows.len(), 5);
    for (i, w) in windows.iter().enumerate() {
        assert_eq!(w, &((4 * i as u32)..(4 * i as u32 + 4)).collect::<Vec<_>>());
    }
    assert_eq!(rest, vec![20, 21, 22]);
    assert_eq!(buffer.unconsumed_len(), 0);
}

#[test]
fn window_buffer_without_hard_limit() {
    let mut buffer: WindowBuffer<i16> = WindowBuffer::new(3, false);
    buffer.push_chunk(&[1, 2, 3, 4, 5, 6, 7]);
    assert_eq!(buffer.take_window(), Some(vec![1, 2, 3]));
    assert_eq!(buffer.take_window(), Some(vec![4, 5, 6]));
    assert_eq!(buffer.take_window(), None);
    assert_eq!(buffer.unconsumed_len(), 1);
    buffer.push_chunk(&[8, 9]);
    assert_eq!(buffer.take_window(), Some(vec![7, 8, 9]));
}

#[test]
fn minimum_frames() {
    assert_eq!(check_minimum_frames(4, 2).unwrap(), 2);
    match check_minimum_frames(3, 2) {
        Err(AudioError::InvalidInput(m)) => assert_eq!(
            m,
            "音频文件样本数过少，无法进行可靠的DR分析。\n要求最少：2 个样本，实际：1 个样本。\n音频文件需要足够的样本用于RMS计算和峰值检测。"
        ),
        other => panic!("{other:?}"),
    }
    assert!(check_minimum_frames(100, 0).is_err());
}

#[test]
fn sample_count_reconciliation() {
    let r = reconcile_sample_count(1000, 1600, 2, false);
    assert_eq!(r.sample_count, 1000);
    assert_eq!(r.missing_frames, Some(200));
    let trimmed = reconcile_sample_count(1000, 1600, 2, true);
    assert_eq!(trimmed.sample_count, 800);
    assert_eq!(trimmed.missing_frames, None);
    let longer = reconcile_sample_count(1000, 2400, 2, false);
    assert_eq!(longer.sample_count, 1000);
    assert_eq!(longer.missing_frames, None);
}

#[test]
fn failed_line_matches_padded_format() {
    let mut out = String::from("head\n");
    add_failed_to_batch_output(&mut out, "track 01.flac");
    assert_eq!(out, format!("head\n{:<17}{:<17}{}\n", "-", "处理失败", "track 01.flac"));
}

#[test]
fn push_and_take_windows_hands_out_every_whole_window() {
    let mut buffer: WindowBuffer<u32> = WindowBuffer::new(3, true);
    let first = buffer.push_and_take_windows(&[1, 2, 3, 4, 5, 6, 7]);
    assert_eq!(first, vec![vec![1, 2, 3], vec![4, 5, 6]]);
    assert_eq!(buffer.unconsumed_len(), 1);
    let second = buffer.push_and_take_windows(&[8]);
    assert!(second.is_empty());
    let third = buffer.push_and_take_windows(&[9, 10, 11]);
    assert_eq!(third, vec![vec![7, 8, 9]]);
    assert_eq!(buffer.take_remaining(), vec![10, 11]);
}

#[test]
fn stream_is_conserved_across_pushes() {
    let stream: Vec<u32> = (0..1000).collect();
    let mut buffer: WindowBuffer<u32> = WindowBuffer::new(7, true);
    let mut rebuilt = Vec::new();
    for chunk in stream.chunks(13) {
        for w in buffer.push_and_take_windows(chunk) {
            assert_eq!(w.len(), 7);
            rebuilt.extend(w);
        }
        assert!(buffer.unconsumed_len() < 7);
    }
    rebuilt.extend(buffer.take_remaining());
    assert_eq!(rebuilt, stream);
}

#[test]
fn batch_lines_for_results() {
    let mut out = String::new();
    add_to_batch_output(
        &mut out,
        "a.flac",
        Some(BatchAggregate { official_dr: 12, precise: "11.87".to_string(), excluded_lfe: 0 }),
        false,
        false,
        2,
    );
    assert_eq!(out, format!("{:<17}{:<17}{}\n", "DR12", "11.87 dB", "a.flac"));
    let mut lfe = String::new();
    add_to_batch_output(
        &mut lfe,
        "m.wav",
        Some(BatchAggregate { official_dr: 9, precise: "9.10".to_string(), excluded_lfe: 1 }),
        true,
        true,
        6,
    );
    assert!(lfe.ends_with("m.wav [LFE excluded / 已剔除LFE]\n"));
    let mut none = String::new();
    add_to_batch_output(&mut none, "s.wav", None, false, false, 2);
    assert_eq!(none, format!("{:<17}{:<17}{}\n", "-", "无有效声道", "s.wav"));
}
