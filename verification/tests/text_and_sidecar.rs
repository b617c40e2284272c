use omx_cli::sparkshell::{choose_output_mode, failure_message, summary_stdout, summary_unavailable_message, OutputMode};
use omx_cli::text::{chars_of, decimal_chars, i32_decimal_chars, lines_of, split_once_chars, trim_chars};

fn s(c: &[char]) -> String {
    c.iter().collect()
}

#[test]
fn trims_unicode_white_space() {
    assert_eq!(s(&trim_chars(&chars_of("\u{3000} a b\u{85}\t"))), "a b");
    assert_eq!(s(&trim_chars(&chars_of("   "))), "");
    assert_eq!(s(&trim_chars(&chars_of("x"))), "x");
}

#[test]
fn splits_lines_like_str_lines() {
    for raw in ["a\nb\r\nc", "a\n\nb\n", "", "\n", "x\r", "x\r\n\r\n"] {
        let got: Vec<String> = lines_of(&chars_of(raw)).iter().map(|l| s(l)).collect();
        let want: Vec<String> = raw.lines().map(|l| l.to_string()).collect();
        assert_eq!(got, want, "{raw:?}");
    }
}

#[test]
fn splits_at_first_separator() {
    let (a, b) = split_once_chars(&chars_of("x\ty\tz"), '\t').unwrap();
    assert_eq!(s(&a), "x");
    assert_eq!(s(&b), "y\tz");
    assert!(split_once_chars(&chars_of("xyz"), '\t').is_none());
}

#[test]
fn writes_decimal_numerals() {
    assert_eq!(s(&decimal_chars(0)), "0");
    assert_eq!(s(&decimal_chars(1234567890)), "1234567890");
    assert_eq!(s(&decimal_chars(u128::MAX)), u128::MAX.to_string());
    assert_eq!(s(&i32_decimal_chars(-15)), "-15");
    assert_eq!(s(&i32_decimal_chars(i32::MIN)), i32::MIN.to_string());
}

#[test]
fn sidecar_output_mode_and_messages() {
    assert_eq!(choose_output_mode(10, 10), OutputMode::Raw);
    assert_eq!(choose_output_mode(11, 10), OutputMode::Summary);
    assert_eq!(summary_stdout("summary:\n- ok"), b"summary:\n- ok\n".to_vec());
    assert_eq!(summary_stdout("done\n"), b"done\n".to_vec());
    assert_eq!(summary_stdout(""), b"\n".to_vec());
    assert_eq!(summary_unavailable_message("timeout"), "omx sparkshell: summary unavailable (timeout)");
    assert_eq!(failure_message("boom"), "omx sparkshell: boom");
}
