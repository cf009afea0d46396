use watchr::text::{decimal_i32, decimal_u128, join_strings, lines_of, trim_text, words_of};

#[test]
fn trim_removes_surrounding_white_space() {
    assert_eq!(trim_text("  *.log \t"), "*.log");
    assert_eq!(trim_text("   "), "");
    assert_eq!(trim_text("a b"), "a b");
    assert_eq!(trim_text("\u{3000}x\u{a0}"), "x");
}

#[test]
fn words_split_on_any_white_space() {
    assert_eq!(words_of("  cargo   build\t--release "), vec!["cargo", "build", "--release"]);
    assert!(words_of(" \t ").is_empty());
    assert!(words_of("").is_empty());
}

#[test]
fn lines_follow_str_lines() {
    assert_eq!(lines_of("a\nb"), vec!["a", "b"]);
    assert_eq!(lines_of("a\r\nb\n"), vec!["a", "b"]);
    assert_eq!(lines_of("a\n\nb"), vec!["a", "", "b"]);
    assert_eq!(lines_of("a\r"), vec!["a\r"]);
    assert!(lines_of("").is_empty());
    assert_eq!(lines_of("\n"), vec![""]);
    for s in ["x\ny\r\nz", "one\n", "\n\n", "tail\r", "p\rq\n"] {
        let expected: Vec<String> = s.lines().map(|l| l.to_string()).collect();
        assert_eq!(lines_of(s), expected);
    }
}

#[test]
fn join_puts_separator_between() {
    let list = vec!["*.log".to_string(), "target/".to_string()];
    assert_eq!(join_strings(&list, ","), "*.log,target/");
    assert_eq!(join_strings(&vec![], ","), "");
    assert_eq!(join_strings(&vec!["one".to_string()], ","), "one");
}

#[test]
fn decimals_match_display() {
    assert_eq!(decimal_u128(0), "0");
    assert_eq!(decimal_u128(1243), "1243");
    assert_eq!(decimal_u128(u128::MAX), u128::MAX.to_string());
    assert_eq!(decimal_i32(-1), "-1");
    assert_eq!(decimal_i32(i32::MIN), i32::MIN.to_string());
    assert_eq!(decimal_i32(101), "101");
}
