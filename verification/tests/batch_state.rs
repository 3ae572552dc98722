use macinmeter_dr_tool::error::{AudioError, ErrorCategory, IoErrorKind};
use macinmeter_dr_tool::tools::batch_state::{count_after_increment, tally_outcomes, ErrorStats, FailureRecord, ParallelBatchStats, SerialBatchStats};
use rayon::iter::{IntoParallelIterator, ParallelIterator};

#[test]
fn test_serial_stats_basic() {
    let mut stats = SerialBatchStats::new();

    let snapshot = stats.snapshot();
    assert_eq!(snapshot.processed, 0);
    assert_eq!(snapshot.failed, 0);
    assert!(snapshot.error_stats.is_empty());

    assert_eq!(stats.inc_processed(), 1);
    assert_eq!(stats.inc_processed(), 2);

    let category =
        ErrorCategory::from_audio_error(&AudioError::FormatError("test error".to_string()));
    assert_eq!(stats.inc_failed(category, "file1.wav".to_string()), 1);
    assert_eq!(stats.inc_failed(category, "file2.wav".to_string()), 2);

    let snapshot = stats.snapshot();
    assert_eq!(snapshot.processed, 2);
    assert_eq!(snapshot.failed, 2);
    assert_eq!(snapshot.error_stats.len(), 1);
    assert_eq!(snapshot.error_stats.files(category).len(), 2);
}

#[test]
fn test_serial_stats_multiple_categories() {
    let mut stats = SerialBatchStats::new();

    let cat1 = ErrorCategory::from_audio_error(&AudioError::FormatError("format".to_string()));
    let cat2 = ErrorCategory::from_audio_error(&AudioError::DecodingError("decode".to_string()));

    stats.inc_failed(cat1, "file1.wav".to_string());
    stats.inc_failed(cat2, "file2.mp3".to_string());
    stats.inc_failed(cat1, "file3.wav".to_string());

    let snapshot = stats.snapshot();
    assert_eq!(snapshot.failed, 3);
    assert_eq!(snapshot.error_stats.len(), 2);
    assert_eq!(snapshot.error_stats.files(cat1).len(), 2);
    assert_eq!(snapshot.error_stats.files(cat2).len(), 1);
}

#[test]
fn test_parallel_stats_basic() {
    let stats = ParallelBatchStats::new();

    let snapshot = stats.snapshot();
    assert_eq!(snapshot.processed, 0);
    assert_eq!(snapshot.failed, 0);

    assert_eq!(stats.inc_processed(), 1);
    assert_eq!(stats.inc_processed(), 2);

    let category =
        ErrorCategory::from_audio_error(&AudioError::FormatError("test error".to_string()));
    assert_eq!(stats.inc_failed(category, "file1.wav".to_string()), 1);

    let snapshot = stats.snapshot();
    assert_eq!(snapshot.processed, 2);
    assert_eq!(snapshot.failed, 1);
}

#[test]
fn test_parallel_stats_clone() {
    let stats1 = ParallelBatchStats::new();
    stats1.inc_processed();

    let stats2 = stats1.clone();
    stats2.inc_processed();

    assert_eq!(stats1.snapshot().processed, 2);
    assert_eq!(stats2.snapshot().processed, 2);
}

#[test]
fn parallel_snapshot_groups_failures_in_filing_order() {
    let stats = ParallelBatchStats::new();
    stats.inc_failed(ErrorCategory::Io, "a.wav".to_string());
    stats.inc_failed(ErrorCategory::Format, "b.flac".to_string());
    stats.inc_failed(ErrorCategory::Io, "c.wav".to_string());
    let snapshot = stats.snapshot();
    assert_eq!(snapshot.failed, 3);
    assert_eq!(snapshot.error_stats.files(ErrorCategory::Io), &vec!["a.wav".to_string(), "c.wav".to_string()]);
    assert_eq!(snapshot.error_stats.files(ErrorCategory::Format), &vec!["b.flac".to_string()]);
    assert!(snapshot.error_stats.get(ErrorCategory::Memory).is_none());
}

#[test]
fn failed_count_equals_filed_names() {
    let mut stats = SerialBatchStats::new();
    let cats = [ErrorCategory::Input, ErrorCategory::Other, ErrorCategory::Input, ErrorCategory::Memory];
    for (i, c) in cats.iter().enumerate() {
        stats.inc_failed(*c, format!("f{i}"));
    }
    let snapshot = stats.snapshot();
    let mut total = 0;
    for i in 0..7 {
        total += snapshot.error_stats.files(ErrorCategory::from_index(i)).len();
    }
    assert_eq!(total, snapshot.failed);
    assert_eq!(snapshot.error_stats.len(), 3);
}

#[test]
fn error_stats_from_records_matches_recording() {
    let records = vec![
        FailureRecord { category: ErrorCategory::Decoding, file_name: "x".to_string() },
        FailureRecord { category: ErrorCategory::Decoding, file_name: "y".to_string() },
    ];
    let grouped = ErrorStats::from_records(&records);
    let mut recorded = ErrorStats::new();
    recorded.record(ErrorCategory::Decoding, "x".to_string());
    recorded.record(ErrorCategory::Decoding, "y".to_string());
    assert_eq!(grouped.files(ErrorCategory::Decoding), recorded.files(ErrorCategory::Decoding));
}

#[test]
fn error_category_mapping_and_names() {
    assert_eq!(ErrorCategory::from_audio_error(&AudioError::OutOfMemory), ErrorCategory::Memory);
    assert_eq!(ErrorCategory::from_audio_error(&AudioError::IoError(IoErrorKind::Other, "x".to_string())), ErrorCategory::Io);
    assert_eq!(ErrorCategory::from_audio_error(&AudioError::NumericOverflow("x".to_string())), ErrorCategory::Calculation);
    assert_eq!(ErrorCategory::from_audio_error(&AudioError::ResourceError("x".to_string())), ErrorCategory::Other);
    for i in 0..7 {
        assert_eq!(ErrorCategory::from_index(i).index(), i);
    }
    assert_eq!(ErrorCategory::Io.display_name(), "File access error");
}

#[test]
fn test_parallel_stats_concurrent_updates() {
    let stats = ParallelBatchStats::new();
    (0..100).into_par_iter().for_each(|_| {
        stats.inc_processed();
    });
    let category = ErrorCategory::from_audio_error(&AudioError::FormatError("test error".to_string()));
    (0..50).into_par_iter().for_each(|i| {
        stats.inc_failed(category, format!("file{i}.wav"));
    });
    let snapshot = stats.snapshot();
    assert_eq!(snapshot.processed, 100);
    assert_eq!(snapshot.failed, 50);
    assert_eq!(snapshot.error_stats.files(category).len(), 50);
}

#[test]
fn every_file_is_counted_once() {
    let names: Vec<String> = vec!["a.flac".into(), "b.flac".into(), "c.wav".into(), "d.wav".into()];
    let outcomes: Vec<Result<u32, AudioError>> = vec![
        Ok(1),
        Err(AudioError::FormatError("bad".into())),
        Ok(3),
        Err(AudioError::IoError(IoErrorKind::NotFound, "gone".into())),
    ];
    let snapshot = tally_outcomes(&names, &outcomes).snapshot();
    assert_eq!(snapshot.processed, 2);
    assert_eq!(snapshot.failed, 2);
    assert_eq!(snapshot.error_stats.len(), 2);
}

#[test]
fn increment_count_follows_previous_value() {
    assert_eq!(count_after_increment(0), 1);
    assert_eq!(count_after_increment(41), 42);
    assert_eq!(count_after_increment(usize::MAX), 0);
}
