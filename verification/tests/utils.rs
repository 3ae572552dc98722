use macinmeter_dr_tool::tools::utils::{effective_parallel_degree, optimize_for_performance, sanitize_filename};

#[test]
fn sanitize_examples() {
    assert_eq!(sanitize_filename("test file.txt"), "test_file_txt");
    assert_eq!(sanitize_filename("test<>file"), "test__file");
    assert_eq!(sanitize_filename("test/file\\name"), "test_file_name");
    assert_eq!(sanitize_filename("a:b\"c|d?e*f"), "a_b_c_d_e_f");
    assert_eq!(sanitize_filename("tab\tnul\0del\u{7f}c1\u{85}"), "tab_nul_del_c1_");
    assert_eq!(sanitize_filename("音乐 合集"), "音乐_合集");
}

#[test]
fn sanitize_is_idempotent_and_keeps_length() {
    for s in ["x.y z", "日本語.flac", "<>:\"/\\|?*", "plain"] {
        let once = sanitize_filename(s);
        assert_eq!(sanitize_filename(&once), once);
        assert_eq!(once.chars().count(), s.chars().count());
    }
}

#[test]
fn effective_degree_examples() {
    assert_eq!(effective_parallel_degree(0, None), 1);
    assert_eq!(effective_parallel_degree(8, None), 8);
    assert_eq!(effective_parallel_degree(32, None), 16);
    assert_eq!(effective_parallel_degree(8, Some(3)), 3);
    assert_eq!(effective_parallel_degree(8, Some(10)), 8);
    assert_eq!(effective_parallel_degree(8, Some(0)), 8);
}

#[test]
fn tuning_fails_only_when_both_fail() {
    assert!(optimize_for_performance(Ok(()), Ok(())).is_ok());
    assert!(optimize_for_performance(Err("a".to_string()), Ok(())).is_ok());
    assert!(optimize_for_performance(Ok(()), Err("b".to_string())).is_ok());
    assert_eq!(
        optimize_for_performance(Err("a".to_string()), Err("b".to_string())).unwrap_err(),
        "所有性能优化均失败: 主线程: a, Rayon: b"
    );
}
