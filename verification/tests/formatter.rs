use macinmeter_dr_tool::tools::formatter::{
    channel_label, exclusion_footnote, format_duration, format_sample_rate, identify_lfe_channels,
    layout_name, lfe_channel_positions, lfe_note, partial_analysis_warning, pcm_bitrate_kbps,
    potential_dr, result_layout, select_aggregation_channels, BoundaryDirection, BoundaryRiskLevel,
    CodecKind, ResultLayout, ChannelFigures, format_mono_results, format_stereo_results,
    format_medium_multichannel_results, format_large_multichannel_results,
    format_dr_results_by_channel_count, format_boundary_warning, format_audio_info,
    create_output_header, EdgeTrimFigures, SilenceChannelFigures, SilenceFilterFigures,
};

#[test]
fn lfe_positions_of_standard_layouts() {
    assert_eq!(identify_lfe_channels(6), vec![5]);
    assert_eq!(identify_lfe_channels(8), vec![7]);
    assert_eq!(identify_lfe_channels(12), vec![7]);
    assert_eq!(identify_lfe_channels(16), vec![9]);
    assert_eq!(identify_lfe_channels(24), vec![11]);
    assert_eq!(identify_lfe_channels(2), Vec::<usize>::new());
    assert_eq!(identify_lfe_channels(5), Vec::<usize>::new());
}

#[test]
fn lfe_positions_prefer_container_layout() {
    assert_eq!(lfe_channel_positions(true, &vec![3, 9], 6, 6), vec![3]);
    assert_eq!(lfe_channel_positions(true, &vec![], 6, 6), vec![5]);
    assert_eq!(lfe_channel_positions(false, &vec![1], 6, 6), vec![5]);
    assert_eq!(lfe_channel_positions(false, &vec![], 6, 4), Vec::<usize>::new());
}

#[test]
fn aggregation_excludes_silent_and_requested_lfe() {
    let silent = [false, false, false, true, false, false];
    let sel = select_aggregation_channels(&silent, true, true, &vec![], 6).unwrap();
    assert_eq!(sel.valid, vec![0, 1, 2, 4]);
    assert_eq!(sel.excluded_count, 2);
    assert_eq!(sel.excluded_lfe, 1);
    let no_meta = select_aggregation_channels(&silent, true, false, &vec![], 6).unwrap();
    assert_eq!(no_meta.valid, vec![0, 1, 2, 4, 5]);
    assert_eq!(no_meta.excluded_lfe, 0);
    assert!(select_aggregation_channels(&[true, true], false, false, &vec![], 2).is_none());
    assert!(select_aggregation_channels(&[], false, false, &vec![], 0).is_none());
}

#[test]
fn labels_and_names() {
    assert_eq!(channel_label(0, false, false), format!("通道 / Channel {:>2}", 1));
    assert_eq!(channel_label(11, true, true), "通道 / Channel 12  [LFE]");
    assert_eq!(channel_label(3, false, true), "通道 / Channel  4  [Silent / 静音]");
    assert_eq!(layout_name(12), "7.1.4 (Dolby Atmos)");
    assert_eq!(layout_name(5), "多声道");
    assert_eq!(CodecKind::Vorbis.display_name(), "OGG Vorbis");
    assert!(CodecKind::Opus.is_lossy());
    assert!(!CodecKind::Alac.is_lossy());
}

#[test]
fn lfe_note_lists_one_based_positions() {
    let note = lfe_note(16, &vec![9, 10]);
    assert!(note.starts_with("\n注 / Note: 检测为 9.1.6 (DTS:X Pro) 格式"));
    assert!(note.ends_with("    LFE声道位置 / LFE channels: Channel 10, 11\n"));
    assert_eq!(lfe_note(6, &vec![]), "");
}

#[test]
fn durations_rates_and_bitrates() {
    assert_eq!(format_duration(59), "0:59");
    assert_eq!(format_duration(3599), "59:59");
    assert_eq!(format_duration(3600), "1:00:00");
    assert_eq!(format_duration(3725), "1:02:05");
    assert_eq!(format_sample_rate(44100, None), "44100 Hz");
    assert_eq!(format_sample_rate(2822400, Some(352800)), "2822400 Hz → 352800 Hz (DSD downsampled / DSD降采样)");
    assert_eq!(format_sample_rate(48000, Some(48000)), "48000 Hz");
    assert_eq!(pcm_bitrate_kbps(44100, 2, 16), 1411);
    assert_eq!(pcm_bitrate_kbps(384000, 32, 32), 393216);
    assert_eq!(pcm_bitrate_kbps(u32::MAX, u16::MAX, u16::MAX), u32::MAX);
    assert_eq!(partial_analysis_warning(3), " 部分分析警告：跳过了 3 个损坏的音频包\n    分析结果可能不完整，建议检查源文件质量。\n\n");
}

#[test]
fn layout_by_result_count() {
    assert_eq!(result_layout(0), ResultLayout::NoData);
    assert_eq!(result_layout(1), ResultLayout::Mono);
    assert_eq!(result_layout(2), ResultLayout::Stereo);
    assert_eq!(result_layout(8), ResultLayout::MediumMultichannel);
    assert_eq!(result_layout(9), ResultLayout::LargeMultichannel);
}

#[test]
fn boundary_warning_helpers() {
    assert_eq!(potential_dr(10, BoundaryDirection::Upper), 11);
    assert_eq!(potential_dr(10, BoundaryDirection::Lower), 9);
    assert_eq!(potential_dr(0, BoundaryDirection::Lower), 0);
    assert_eq!(BoundaryRiskLevel::High.label(), "High");
    assert_eq!(BoundaryRiskLevel::Low.label(), "Low");
    assert!(BoundaryRiskLevel::High.priority() > BoundaryRiskLevel::Medium.priority());
    assert_eq!(exclusion_footnote(true, true), "\n*LFE excluded / †Silent channels excluded\n");
    assert_eq!(exclusion_footnote(false, true), "\n†Silent channels excluded\n");
    assert_eq!(exclusion_footnote(false, false), "");
}

use macinmeter_dr_tool::tools::formatter::{batch_line_tail, calculate_official_dr, OfficialDr};

#[test]
fn official_dr_section() {
    let agg = OfficialDr {
        official_dr: 12,
        precise_text: "11.87".to_string(),
        warning: None,
        excluded_count: 0,
        excluded_lfe: 0,
    };
    assert_eq!(
        calculate_official_dr(Some(agg), 2, false, false, 2),
        "Official DR Value: DR12\nPrecise DR Value: 11.87 dB\n\n"
    );
    let with_lfe = OfficialDr {
        official_dr: 9,
        precise_text: "9.10".to_string(),
        warning: Some("W\n".to_string()),
        excluded_count: 2,
        excluded_lfe: 1,
    };
    assert_eq!(
        calculate_official_dr(Some(with_lfe), 6, true, true, 6),
        "Official DR Value: DR9\nPrecise DR Value: 9.10 dB\n\nW\n\nDR计算基于 4 个有效声道 (已排除 1 个静音声道, 1 个LFE声道)\nAggregation based on 4 valid channels (excluded 1 silent, 1 LFE).\n\n"
    );
    let silent_only = OfficialDr {
        official_dr: -1,
        precise_text: "-0.60".to_string(),
        warning: None,
        excluded_count: 1,
        excluded_lfe: 0,
    };
    let text = calculate_official_dr(Some(silent_only), 6, true, false, 6);
    assert!(text.starts_with("Official DR Value: DR-1\n"));
    assert!(text.contains("DR计算基于 5 个有效声道 (已排除 1 个静音声道)\n"));
    assert!(text.ends_with("Note: LFE exclusion requested but no channel layout metadata detected; LFE exclusion not performed.\n\n"));
    assert_eq!(calculate_official_dr(None, 2, false, false, 2), "Official DR Value: 无有效声道\n\n");
}

#[test]
fn batch_line_notes() {
    assert_eq!(batch_line_tail("a.flac", 1, true, true, 6), "a.flac [LFE excluded / 已剔除LFE]");
    assert_eq!(batch_line_tail("a.flac", 0, true, false, 6), "a.flac [LFE requested, layout missing / 请求LFE剔除，未检测布局]");
    assert_eq!(batch_line_tail("a.flac", 0, true, false, 2), "a.flac");
}

fn fig(official: i32, precise: &str, silent: bool) -> ChannelFigures {
    ChannelFigures {
        official_dr: official,
        precise_dr: precise.to_string(),
        rms_db: "-20.00".to_string(),
        peak_db: "-1.00".to_string(),
        primary_peak_db: "-0.50".to_string(),
        secondary_peak_db: "-1.00".to_string(),
        silent,
    }
}

fn row(a: &str, b: &str, tail: &str) -> String {
    format!("{:<17}{:<17}{}\n", a, b, tail)
}

#[test]
fn mono_table_layout() {
    let text = format_mono_results(&fig(12, "11.87", false), false);
    assert_eq!(text, format!("                 单声道 / Mono\n\nDR通道 / DR Channel:{}11.87 dB\n\n", " ".repeat(8)));
    let with_diag = format_mono_results(&fig(12, "11.87", false), true);
    assert!(with_diag.contains("RMS/Peak 诊断 / RMS/Peak Diagnostics\n"));
    assert!(with_diag.contains(&format!("RMS(20%):{}-20.00 dB\n", " ".repeat(13))));
    assert!(with_diag.ends_with("-1.00 dB\n\n"));
}

#[test]
fn stereo_table_layout() {
    let text = format_stereo_results(&[fig(10, "9.81", false), fig(11, "10.52", false)], false);
    assert_eq!(
        text,
        format!(
            "                         左声道 / Left      右声道 / Right\n\nDR通道 / DR Channel:{}9.81 dB{}10.52 dB\n\n",
            " ".repeat(8),
            " ".repeat(7)
        )
    );
}

#[test]
fn medium_table_rows_and_labels() {
    let figs = vec![fig(10, "10.10", false), fig(9, "9.40", false), fig(0, "0.00", true)];
    let text = format_medium_multichannel_results(&figs, false, &vec![], 3);
    let header = row("Official DR", "Precise DR", "通道 / Channel");
    let mut expected = String::from("声道明细 / Channel breakdown (3 channels):\n");
    expected.push_str(&header);
    expected.push_str(&format!("{}\n", "=".repeat(48)));
    expected.push_str(&row("DR10", "10.10 dB", "通道 / Channel  1"));
    expected.push_str(&row("DR9", "9.40 dB", "通道 / Channel  2"));
    expected.push_str(&row("DR0", "0.00 dB", "通道 / Channel  3  [LFE]"));
    assert!(text.starts_with(&expected));
    assert!(text.contains(&row("-20.00 dB", "-1.00 dB", "通道 / Channel  3  [LFE]")));
}

#[test]
fn large_table_zeroes_silent_channels_and_notes_lfe() {
    let mut figs: Vec<ChannelFigures> = (0..12).map(|i| fig(8 + i, "8.50", false)).collect();
    figs[3] = fig(-3, "-2.70", true);
    let text = format_large_multichannel_results(&figs, false, &vec![], 12);
    assert!(text.contains(&row("DR-3", "0.00 dB", "通道 / Channel  4  [Silent / 静音]")));
    assert!(text.contains(&row("DR15", "8.50 dB", "通道 / Channel  8  [LFE]")));
    assert!(text.contains("检测为 7.1.4 (Dolby Atmos) 格式"));
    assert!(text.contains("    LFE声道位置 / LFE channels: Channel 8\n"));
}

#[test]
fn results_section_by_channel_count() {
    assert_eq!(format_dr_results_by_channel_count(&[], 0, false, false, &vec![], 0), "ERROR: 无音频数据\n");
    let partial = format_dr_results_by_channel_count(&[], 3, false, false, &vec![], 0);
    assert!(partial.starts_with(" 部分分析警告：跳过了 3 个损坏的音频包\n"));
    let mono = format_dr_results_by_channel_count(&[fig(7, "7.00", false)], 0, false, false, &vec![], 1);
    assert_eq!(mono, format_mono_results(&fig(7, "7.00", false), false));
}

#[test]
fn boundary_warning_upper_high() {
    let w = format_boundary_warning(BoundaryRiskLevel::High, BoundaryDirection::Upper, 12, "12.48", "0.02");
    assert_eq!(
        w,
        "边界风险（高） / Boundary Risk (High)\n\
         Precise DR 12.48 dB 距离 DR12/DR13 上边界 0.02 dB\n\
         Distance to upper boundary between DR12 and DR13: 0.02 dB\n\
         可能被舍入至 DR13 而非 DR12\n\
         May round to DR13 instead of DR12\n\
         建议 / Recommendation: 使用 foobar2000 DR Meter 交叉验证 / Cross-validate with foobar2000\n"
    );
}

#[test]
fn boundary_warning_lower_never_below_zero() {
    let w = format_boundary_warning(BoundaryRiskLevel::Medium, BoundaryDirection::Lower, 0, "-0.46", "0.04");
    assert!(w.starts_with("边界风险（中） / Boundary Risk (Medium)\n"));
    assert!(w.contains("距离 DR0/DR0 下边界 0.04 dB\n"));
    assert!(w.contains("lower boundary between DR0 and DR0"));
}

#[test]
fn audio_info_layout() {
    let header = "MacinMeter DR Tool v0.1.0 / Dynamic Range Meter (foobar2000 compatible)";
    let text = format_audio_info(44100, None, 2, 16, Some(1411), "FLAC", header);
    let lines: Vec<&str> = text.lines().collect();
    assert_eq!(lines.len(), 6);
    assert_eq!(lines[0], "采样率 / Sample rate:  44100 Hz");
    assert_eq!(lines[1], "声道数 / Channels:     2");
    assert_eq!(lines[2], "位深 / Bits per sample:16");
    assert_eq!(lines[3], "比特率 / Bitrate:      1411 kbps");
    assert_eq!(lines[4], "编码 / Codec:          FLAC");
    assert_eq!(lines[5], "=".repeat(header.len()));
    let dsd = format_audio_info(2822400, Some(352800), 2, 1, None, "DSD", header);
    assert!(dsd.contains("2822400 Hz → 352800 Hz (DSD downsampled / DSD降采样)"));
    assert!(dsd.contains("Note: foobar2000 often shows 384 kHz"));
    assert!(dsd.contains("N/A"));
}

#[test]
fn report_header_lines() {
    let header = "MacinMeter DR Tool v0.1.0 / Dynamic Range Meter (foobar2000 compatible)";
    let text = create_output_header(header, "2024-01-02 03:04:05", "song.flac", 441000, 3725, None, None);
    let dashes = "-".repeat(header.len());
    assert_eq!(
        text,
        format!(
            "{header}\n日志时间 / Log date: 2024-01-02 03:04:05\n\n{dashes}\n统计对象 / Statistics for: song.flac\n样本总数 / Number of samples: 441000\n时长 / Duration: 1:02:05\n{dashes}\n\n"
        )
    );
}

#[test]
fn report_header_with_trim_and_filter() {
    let trim = EdgeTrimFigures {
        threshold_db: "-60.0".to_string(),
        min_run_ms: "60".to_string(),
        hysteresis_ms: "50".to_string(),
        total_seconds: "1.250".to_string(),
        leading_seconds: "1.000".to_string(),
        trailing_seconds: "0.250".to_string(),
        total_samples: 110250,
    };
    let channel = |i: usize, valid: usize, filtered: usize, total: usize| SilenceChannelFigures {
        channel_index: i,
        valid_windows: valid,
        filtered_windows: filtered,
        total_windows: total,
        filtered_percent: "25.00".to_string(),
    };
    let filter = SilenceFilterFigures {
        threshold_db: "-70.0".to_string(),
        channels: vec![channel(0, 0, 0, 0), channel(1, 8, 0, 8), channel(2, 6, 2, 8)],
    };
    let text = create_output_header("H", "now", "f", 10, 59, Some(trim), Some(filter));
    assert!(text.contains("时长 / Duration: 0:59\n"));
    assert!(text.contains("边缘裁切启用 / Edge trimming enabled: threshold -60.0 dBFS, min run 60 ms (hysteresis 50 ms)\n"));
    assert!(text.contains("裁切剔除 / Trimmed: 1.250 s (110250 samples) | 前端 / Leading 1.000 s, 末端 / Trailing 0.250 s\n"));
    assert!(text.contains("静音过滤启用 / Silence filter enabled: threshold -70.0 dBFS\n"));
    assert!(text.contains("通道 Channel 1: 无可分析窗口（文件过短）/ No analysis windows (file too short)\n"));
    assert!(text.contains("通道 Channel 2: 未移除静音窗口 / No silent windows removed （总窗口 / Total: 8）\n"));
    assert!(text.contains("通道 Channel 3: 移除 2/8 窗口 (25.00%)，有效 / Valid 6\n"));
    assert!(text.ends_with("-\n\n"));
}
