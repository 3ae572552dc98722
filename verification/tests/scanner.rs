use macinmeter_dr_tool::error::ErrorCategory;
use macinmeter_dr_tool::tools::batch_state::ErrorStats;
use macinmeter_dr_tool::tools::formatter::{BoundaryDirection, BoundaryRiskLevel};
use macinmeter_dr_tool::tools::scanner::{
    batch_report_file_name, batch_report_stamp, boundary_warnings_section, create_batch_output_footer,
    create_batch_output_header, error_summary_order, format_error_summary, is_dsd_extension,
    summary_rows, warning_rows, WarningRow,
};

#[test]
fn header_with_and_without_dsd() {
    let plain = create_batch_output_header("2024-01-02 03:04:05", 3, "/music", false, None);
    assert_eq!(
        plain,
        "## MacinMeter DR Batch Report\n\n**Generated**: 2024-01-02 03:04:05 | **Files**: 3 | **Directory**: /music\n\n| DR | Precise | File |\n|----|---------|------|\n"
    );
    let dsd = create_batch_output_header("t", 1, "d", true, None);
    assert!(dsd.contains("> DSD files downsampled to 352800 Hz for analysis\n\n"));
    let dsd_rate = create_batch_output_header("t", 1, "d", true, Some(176400));
    assert!(dsd_rate.contains("176400 Hz"));
}

#[test]
fn dsd_extensions_ignore_case() {
    assert!(is_dsd_extension("dsf"));
    assert!(is_dsd_extension("DFF"));
    assert!(is_dsd_extension("DsF"));
    assert!(!is_dsd_extension("flac"));
    assert!(!is_dsd_extension("ds"));
}

#[test]
fn summary_orders_by_count_then_name() {
    let mut stats = ErrorStats::new();
    stats.record(ErrorCategory::Io, "a".to_string());
    stats.record(ErrorCategory::Format, "b".to_string());
    stats.record(ErrorCategory::Decoding, "c".to_string());
    stats.record(ErrorCategory::Io, "d".to_string());
    assert_eq!(error_summary_order(&stats), vec![ErrorCategory::Io, ErrorCategory::Decoding, ErrorCategory::Format]);
    let text = format_error_summary(&stats);
    assert_eq!(
        text,
        "\n**Errors**:\n- File access error: 2\n  - a\n  - d\n- Decoding error: 1\n  - c\n- Unsupported or invalid format: 1\n  - b\n"
    );
}

#[test]
fn summary_shows_three_names_and_the_rest_counted() {
    let mut stats = ErrorStats::new();
    for i in 0..5 {
        stats.record(ErrorCategory::Memory, format!("f{i}"));
    }
    assert_eq!(
        format_error_summary(&stats),
        "\n**Errors**:\n- Out of memory: 5\n  - f0\n  - f1\n  - f2\n  - ... (+2)\n"
    );
    assert_eq!(format_error_summary(&ErrorStats::new()), "");
}

#[test]
fn summary_ties_break_by_variant_name() {
    let mut stats = ErrorStats::new();
    for c in [ErrorCategory::Other, ErrorCategory::Memory, ErrorCategory::Io, ErrorCategory::Input, ErrorCategory::Format, ErrorCategory::Decoding, ErrorCategory::Calculation] {
        stats.record(c, "x".to_string());
    }
    let mut names: Vec<String> = error_summary_order(&stats).iter().map(|c| format!("{c:?}")).collect();
    let sorted = {
        let mut n = names.clone();
        n.sort();
        n
    };
    assert_eq!(names, sorted);
    names.dedup();
    assert_eq!(names.len(), 7);
}

#[test]
fn summary_rows_list_failures_only_when_present() {
    assert_eq!(
        summary_rows(10, 10, 0, "100"),
        vec![vec!["Total".to_string(), "10".to_string()], vec!["Success".to_string(), "10 (100%)".to_string()]]
    );
    assert_eq!(summary_rows(4, 3, 1, "75").len(), 3);
    assert_eq!(summary_rows(4, 3, 1, "75")[2], vec!["Failed".to_string(), "1".to_string()]);
}

#[test]
fn footer_holds_table_summary_and_closing_line() {
    let mut stats = ErrorStats::new();
    stats.record(ErrorCategory::Io, "a.flac".to_string());
    let footer = create_batch_output_footer(3, 2, 1, "67", &stats, "0.1.0");
    assert!(footer.starts_with("### Summary\n\n"));
    assert!(footer.contains("Metric"));
    assert!(footer.contains("2 (67%)"));
    assert!(footer.contains("\n**Errors**:\n- File access error: 1\n  - a.flac\n"));
    assert!(footer.ends_with("\n---\n*MacinMeter DR Tool v0.1.0*\n"));
}

#[test]
fn warning_rows_and_section() {
    let rows = vec![
        WarningRow {
            official_dr: 12,
            precise: "12.48".to_string(),
            risk: BoundaryRiskLevel::High,
            direction: BoundaryDirection::Upper,
            file_name: "a.flac".to_string(),
        },
        WarningRow {
            official_dr: 0,
            precise: "0.47".to_string(),
            risk: BoundaryRiskLevel::Medium,
            direction: BoundaryDirection::Lower,
            file_name: "b.flac".to_string(),
        },
    ];
    let cells = warning_rows(&rows);
    assert_eq!(cells[0], vec!["12", "12.48", "High", "DR13", "a.flac"]);
    assert_eq!(cells[1], vec!["0", "0.47", "Medium", "DR0", "b.flac"]);
    let section = boundary_warnings_section(&rows);
    assert!(section.starts_with("### Boundary Warnings (2)\n\n"));
    assert!(section.contains("DR13"));
    assert!(section.ends_with("\n\n"));
}

#[test]
fn batch_report_names() {
    assert_eq!(batch_report_stamp(0), Some("1970-01-01_00-00-00".to_string()));
    assert_eq!(batch_report_stamp(1431648000), Some("2015-05-15_00-00-00".to_string()));
    assert_eq!(batch_report_stamp(i64::MAX), None);
    assert_eq!(batch_report_file_name("My Album.v2", "2015-05-15_00-00-00"), "My_Album_v2_BatchDR_2015-05-15_00-00-00.txt");
}

#[test]
fn batch_report_stamps_cover_years_1_to_9999() {
    assert_eq!(batch_report_stamp(253402300799), Some("9999-12-31_23-59-59".to_string()));
    assert_eq!(batch_report_stamp(-62135596800), Some("0001-01-01_00-00-00".to_string()));
    assert_eq!(batch_report_stamp(i64::MIN), None);
}
