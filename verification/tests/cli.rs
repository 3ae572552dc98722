use macinmeter_dr_tool::tools::cli::{
    parse_batch_size, parse_parallel_degree, DEFAULT_PARALLEL_BATCH, DEFAULT_PARALLEL_FILES,
    DEFAULT_PARALLEL_THREADS, DEFAULT_SILENCE_THRESHOLD_DB_STR, DEFAULT_TRIM_MIN_RUN_MS_STR,
    DEFAULT_TRIM_THRESHOLD_DB_STR,
};
use macinmeter_dr_tool::tools::constants::defaults;

#[test]
fn test_cli_defaults_match_constants() {
    assert_eq!(
        DEFAULT_PARALLEL_BATCH.parse::<usize>().unwrap(),
        defaults::PARALLEL_BATCH_SIZE,
        "DEFAULT_PARALLEL_BATCH 必须与 constants::defaults::PARALLEL_BATCH_SIZE 同步"
    );
    assert_eq!(
        DEFAULT_PARALLEL_THREADS.parse::<usize>().unwrap(),
        defaults::PARALLEL_THREADS,
        "DEFAULT_PARALLEL_THREADS 必须与 constants::defaults::PARALLEL_THREADS 同步"
    );
    assert_eq!(
        DEFAULT_PARALLEL_FILES.parse::<usize>().unwrap(),
        defaults::PARALLEL_FILES_DEGREE,
        "DEFAULT_PARALLEL_FILES 必须与 constants::defaults::PARALLEL_FILES_DEGREE 同步"
    );
    let default_threshold = DEFAULT_SILENCE_THRESHOLD_DB_STR
        .parse::<f64>()
        .expect("DEFAULT_SILENCE_THRESHOLD_DB_STR 应该是有效浮点数");
    assert!(
        (-120.0..=0.0).contains(&default_threshold),
        "DEFAULT_SILENCE_THRESHOLD_DB 必须在 -120 到 0 dB 范围内"
    );
}

#[test]
fn test_parse_parallel_degree_valid() {
    assert_eq!(parse_parallel_degree("1").unwrap(), 1);
    assert_eq!(parse_parallel_degree("4").unwrap(), 4);
    assert_eq!(parse_parallel_degree("16").unwrap(), 16);
}

#[test]
fn test_parse_parallel_degree_invalid() {
    assert!(parse_parallel_degree("0").is_err());
    assert!(parse_parallel_degree("17").is_err());
    assert!(parse_parallel_degree("abc").is_err());
}

#[test]
fn test_parse_batch_size_valid() {
    assert_eq!(parse_batch_size("1").unwrap(), 1);
    assert_eq!(parse_batch_size("64").unwrap(), 64);
    assert_eq!(parse_batch_size("256").unwrap(), 256);
}

#[test]
fn test_parse_batch_size_invalid() {
    assert!(parse_batch_size("0").is_err());
    assert!(parse_batch_size("257").is_err());
    assert!(parse_batch_size("xyz").is_err());
}

#[test]
fn parse_errors_carry_their_messages() {
    assert_eq!(parse_parallel_degree("0").unwrap_err(), "value must be at least 1 / 值必须至少为 1");
    assert_eq!(parse_parallel_degree("17").unwrap_err(), "value cannot exceed 16 / 值不能超过 16");
    assert_eq!(parse_parallel_degree("abc").unwrap_err(), "'abc' is not a valid number / 不是有效的数字");
    assert_eq!(parse_batch_size("0").unwrap_err(), "batch size must be at least 1 / 批大小必须至少为 1");
    assert_eq!(parse_batch_size("257").unwrap_err(), "batch size cannot exceed 256 / 批大小不能超过 256");
    assert_eq!(parse_batch_size("").unwrap_err(), "'' is not a valid number / 不是有效的数字");
}

#[test]
fn parse_follows_unsigned_integer_syntax() {
    for text in ["+8", "08", "16", "+", "-1", " 4", "4 ", "99999999999999999999999", "1e1"] {
        let expected = text.parse::<usize>().ok().filter(|v| (1..=16).contains(v));
        assert_eq!(parse_parallel_degree(text).ok(), expected, "{text}");
        let expected_batch = text.parse::<usize>().ok().filter(|v| (1..=256).contains(v));
        assert_eq!(parse_batch_size(text).ok(), expected_batch, "{text}");
    }
}

#[test]
fn trim_defaults_parse() {
    assert_eq!(DEFAULT_TRIM_THRESHOLD_DB_STR.parse::<f64>().unwrap(), -60.0);
    assert_eq!(DEFAULT_TRIM_MIN_RUN_MS_STR.parse::<f64>().unwrap(), 60.0);
}

use macinmeter_dr_tool::tools::cli::parse_dsd_pcm_rate;

#[test]
fn dsd_rates() {
    for ok in [88200u32, 176400, 352800, 384000] {
        assert_eq!(parse_dsd_pcm_rate(&ok.to_string()), Ok(ok));
    }
    assert_eq!(parse_dsd_pcm_rate("44100").unwrap_err(), "must be 88200|176400|352800|384000 / 仅支持 88200/176400/352800/384000");
    assert_eq!(parse_dsd_pcm_rate("abc").unwrap_err(), "invalid rate 'abc' / 无效采样率");
    assert_eq!(parse_dsd_pcm_rate("4294967296").unwrap_err(), "invalid rate '4294967296' / 无效采样率");
}
