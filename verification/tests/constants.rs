use macinmeter_dr_tool::tools::constants::app_info::{format_output_header, APP_NAME, OUTPUT_COMPATIBILITY};

#[test]
fn output_header_line() {
    assert_eq!(
        format_output_header("0.1.0"),
        "MacinMeter DR Tool v0.1.0 / Dynamic Range Meter (foobar2000 compatible)"
    );
    assert_eq!(format_output_header("x"), format!("{APP_NAME} vx / {OUTPUT_COMPATIBILITY}"));
}
