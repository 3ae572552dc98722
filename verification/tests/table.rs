use macinmeter_dr_tool::tools::table::{
    format_cols_line, format_two_cols_line, separator_for_lines, separator_for_lines_with_char,
    separator_from, text_width,
};

#[test]
fn display_width_counts_wide_characters_twice() {
    assert_eq!(text_width("abc"), 3);
    assert_eq!(text_width("通道"), 4);
    assert_eq!(text_width("通道 / Channel"), 14);
    assert_eq!(text_width(""), 0);
}

#[test]
fn columns_are_padded_by_display_width() {
    assert_eq!(format_cols_line(&["ab", "c"], &[4, 0], ""), "ab  c\n");
    assert_eq!(format_cols_line(&["通道", "x"], &[6, 0], ""), "通道  x\n");
    assert_eq!(format_cols_line(&["abcdef", "x"], &[3, 0], "|"), "abcdef|x\n");
    assert_eq!(format_cols_line(&["a", "b", "c"], &[2], ""), "a bc\n");
    assert_eq!(format_cols_line(&[], &[], ""), "\n");
}

#[test]
fn two_column_lines_use_seventeen_columns() {
    assert_eq!(
        format_two_cols_line("DR12", "12.34 dB", "song.flac"),
        format!("{:<17}{:<17}{}\n", "DR12", "12.34 dB", "song.flac")
    );
    assert_eq!(format_two_cols_line("通道", "b", "t"), format!("通道{}b{}t\n", " ".repeat(13), " ".repeat(16)));
}

#[test]
fn separators_match_the_widest_line() {
    assert_eq!(separator_from("abc\n\n"), "===\n");
    assert_eq!(separator_from("通道"), "====\n");
    assert_eq!(separator_for_lines(&["ab", "abcd\n"]), "====\n");
    assert_eq!(separator_for_lines_with_char(&["xyz"], '-'), "---\n");
    assert_eq!(separator_for_lines(&[]), "\n");
}
