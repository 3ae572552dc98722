use macinmeter_dr_tool::error::{AudioError, IoErrorKind};
use macinmeter_dr_tool::utils::safety::{FileStatus, SafeRunner, SafetyGuard};

#[test]
fn test_check_bounds_valid() {
    let result = SafetyGuard::check_bounds(5, 10, "测试数组");
    assert!(result.is_ok());
}

#[test]
fn test_check_bounds_invalid() {
    let result = SafetyGuard::check_bounds(10, 10, "测试数组");
    assert!(result.is_err());
}

#[test]
fn check_bounds_message() {
    match SafetyGuard::check_bounds(10, 10, "测试数组") {
        Err(AudioError::InvalidInput(m)) => assert_eq!(m, "测试数组中索引(10)超出范围(0-9)"),
        other => panic!("{other:?}"),
    }
    match SafetyGuard::check_bounds(0, 0, "空") {
        Err(AudioError::InvalidInput(m)) => assert_eq!(m, "空中索引(0)超出范围(0-0)"),
        other => panic!("{other:?}"),
    }
}

#[test]
fn test_validate_format() {
    assert!(SafetyGuard::validate_format(44100, 2, 16).is_ok());
    assert!(SafetyGuard::validate_format(12345, 2, 16).is_err());
    assert!(SafetyGuard::validate_format(44100, 0, 16).is_err());
    assert!(SafetyGuard::validate_format(44100, 33, 16).is_err());
    assert!(SafetyGuard::validate_format(44100, 2, 8).is_err());
}

#[test]
fn validate_format_messages() {
    match SafetyGuard::validate_format(12345, 2, 16) {
        Err(AudioError::FormatError(m)) => assert_eq!(m, "不支持的采样率: 12345Hz"),
        other => panic!("{other:?}"),
    }
    match SafetyGuard::validate_format(44100, 33, 16) {
        Err(AudioError::FormatError(m)) => assert_eq!(m, "不支持的声道数: 33"),
        other => panic!("{other:?}"),
    }
    match SafetyGuard::validate_format(44100, 2, 8) {
        Err(AudioError::FormatError(m)) => assert_eq!(m, "不支持的位深度: 8位"),
        other => panic!("{other:?}"),
    }
    for rate in [8000, 11025, 16000, 22050, 24000, 32000, 44100, 48000, 88200, 96000, 176400, 192000, 352800, 384000] {
        assert!(SafetyGuard::validate_format(rate, 32, 24).is_ok());
    }
}

#[test]
fn test_validate_input_valid() {
    let samples = vec![0.5, -0.3, 0.7, -0.1];
    assert!(SafetyGuard::validate_input(&samples, 2, 44100).is_ok());
}

#[test]
fn test_validate_input_empty_samples() {
    let samples: Vec<f32> = vec![];
    assert!(SafetyGuard::validate_input(&samples, 2, 44100).is_err());
}

#[test]
fn test_validate_input_invalid_channels() {
    let samples = vec![0.5, -0.3];
    assert!(SafetyGuard::validate_input(&samples, 0, 44100).is_err());
    assert!(SafetyGuard::validate_input(&samples, 33, 44100).is_err());
}

#[test]
fn test_validate_input_mismatched_samples() {
    let samples = vec![0.5, -0.3, 0.7];
    match SafetyGuard::validate_input(&samples, 2, 44100) {
        Err(AudioError::InvalidInput(m)) => assert_eq!(m, "样本数量(3)必须是声道数(2)的倍数"),
        other => panic!("{other:?}"),
    }
}

#[test]
fn test_validate_input_invalid_sample_rate() {
    let samples = vec![0.5, -0.3];
    assert!(SafetyGuard::validate_input(&samples, 2, 0).is_err());
    match SafetyGuard::validate_input(&samples, 2, 500_000) {
        Err(AudioError::InvalidInput(m)) => assert_eq!(m, "采样率(500000)超出支持范围(8kHz-384kHz)"),
        other => panic!("{other:?}"),
    }
}

#[test]
fn test_check_memory_safety() {
    assert!(SafetyGuard::check_memory_safety(1024, "测试").is_ok());
    assert!(SafetyGuard::check_memory_safety(2 * 1024 * 1024 * 1024, "测试").is_err());
}

#[test]
fn memory_warning_line() {
    let mib = 1024 * 1024;
    assert_eq!(SafetyGuard::check_memory_safety(512 * mib, "测试").unwrap(), None);
    assert_eq!(
        SafetyGuard::check_memory_safety(600 * mib, "解码").unwrap(),
        Some("警告: 解码操作将使用大量内存(600MB)".to_string())
    );
    assert!(matches!(SafetyGuard::check_memory_safety(1024 * mib + 1, "x"), Err(AudioError::OutOfMemory)));
}

#[test]
fn test_ensure_cleanup() {
    assert!(SafetyGuard::ensure_cleanup("测试资源").is_ok());
    assert!(SafetyGuard::ensure_cleanup("").is_err());
    assert_eq!(SafetyGuard::ensure_cleanup("缓冲").unwrap(), "资源清理确认: 缓冲");
}

#[test]
fn file_safety_checks() {
    let present = FileStatus { exists: true, size: Some(100), parent_missing: false };
    let missing = FileStatus { exists: false, size: None, parent_missing: true };
    assert!(SafetyGuard::check_file_safety("/music/a.flac", "read", &present).is_ok());
    match SafetyGuard::check_file_safety("/music/../a.flac", "read", &present) {
        Err(AudioError::IoError(IoErrorKind::InvalidInput, m)) => assert_eq!(m, "文件路径包含不安全的相对路径"),
        other => panic!("{other:?}"),
    }
    match SafetyGuard::check_file_safety("/music/a.flac", "read", &missing) {
        Err(AudioError::IoError(IoErrorKind::NotFound, m)) => assert_eq!(m, "文件不存在: /music/a.flac"),
        other => panic!("{other:?}"),
    }
    let huge = FileStatus { exists: true, size: Some(3 * 1024 * 1024 * 1024), parent_missing: false };
    match SafetyGuard::check_file_safety("a.wav", "read", &huge) {
        Err(AudioError::IoError(IoErrorKind::InvalidData, m)) => assert_eq!(m, "文件过大"),
        other => panic!("{other:?}"),
    }
    assert!(SafetyGuard::check_file_safety("out/a.txt", "write", &present).is_ok());
    match SafetyGuard::check_file_safety("out/a.txt", "write", &missing) {
        Err(AudioError::IoError(IoErrorKind::NotFound, m)) => assert_eq!(m, "目标目录不存在"),
        other => panic!("{other:?}"),
    }
    match SafetyGuard::check_file_safety("a.wav", "delete", &present) {
        Err(AudioError::IoError(IoErrorKind::InvalidInput, m)) => assert_eq!(m, "不支持的文件操作: delete"),
        other => panic!("{other:?}"),
    }
    let long_ascii = "a".repeat(4096);
    assert!(SafetyGuard::check_file_safety(&long_ascii, "read", &present).is_ok());
    let too_long = "a".repeat(4097);
    assert!(SafetyGuard::check_file_safety(&too_long, "read", &present).is_err());
    let wide = "音".repeat(1366);
    assert_eq!(wide.len(), 4098);
    assert!(SafetyGuard::check_file_safety(&wide, "read", &present).is_err());
}

#[test]
fn safe_runner_keeps_context() {
    let runner = SafeRunner::new("测试运行器");
    assert_eq!(runner.context(), "测试运行器");
}

#[test]
fn test_safe_runner() {
    let runner = SafeRunner::new("测试运行器");
    let samples = vec![0.5f32, -0.3, 0.7, -0.1];
    let mut log = Vec::new();
    let result = runner.run_with_protection(&samples, 2, 44100, || Ok("操作成功".to_string()), &mut log);
    assert!(result.is_ok());
    assert_eq!(result.unwrap(), "操作成功");
    assert_eq!(log, vec!["资源清理确认: 测试运行器: 操作完成".to_string()]);
}

#[test]
fn test_safe_runner_with_invalid_input() {
    let runner = SafeRunner::new("测试运行器");
    let samples: Vec<f32> = vec![];
    let mut log = Vec::new();
    let result = runner.run_with_protection(&samples, 2, 44100, || Ok("不应该执行到这里".to_string()), &mut log);
    assert!(result.is_err());
    assert!(log.is_empty());
}

#[test]
fn safe_runner_reports_format_and_operation_failures() {
    let runner = SafeRunner::new("ctx");
    let samples = vec![0i16; 4];
    let mut log = Vec::new();
    let unsupported: Result<(), AudioError> = runner.run_with_protection(&samples, 2, 12345, || Ok(()), &mut log);
    assert_eq!(unsupported, Err(AudioError::FormatError("不支持的采样率: 12345Hz".to_string())));
    let failed: Result<(), AudioError> = runner.run_with_protection(
        &samples,
        2,
        48000,
        || Err(AudioError::CalculationError("x".to_string())),
        &mut log,
    );
    assert_eq!(failed, Err(AudioError::CalculationError("x".to_string())));
    assert!(log.is_empty());
}
