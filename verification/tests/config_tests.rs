use watchr::config::{resolve_settings, CliOptions, History, ProjectConfig, SettingsError};
use watchr::display::parse_history_entry;

fn cli() -> CliOptions {
    CliOptions { path: None, cmd: None, debounce: None, ignore: None, clear: false, once: false, notify: false }
}

#[test]
fn command_line_overrides_project_file() {
    let mut c = cli();
    c.cmd = Some("cargo test".to_string());
    c.debounce = Some(1000);
    let mut p = ProjectConfig::default();
    p.cmd = Some("cargo build".to_string());
    p.path = Some("./src".to_string());
    p.debounce = Some(300);
    p.ignore = vec!["*.log".to_string(), "target/".to_string()];
    p.clear = Some(true);
    p.notify = Some(false);
    let s = resolve_settings(c, Some(p)).unwrap();
    assert_eq!(s.cmd, "cargo test");
    assert_eq!(s.path, "./src");
    assert_eq!(s.debounce_ms, 1000);
    assert_eq!(s.ignore, "*.log,target/");
    assert!(s.clear);
    assert!(!s.once);
    assert!(!s.notify);
}

#[test]
fn defaults_apply_without_project_file() {
    let mut c = cli();
    c.cmd = Some("make".to_string());
    c.once = true;
    let s = resolve_settings(c, None).unwrap();
    assert_eq!(s.path, ".");
    assert_eq!(s.debounce_ms, 500);
    assert_eq!(s.ignore, "");
    assert!(s.once);
}

#[test]
fn missing_command_is_an_error() {
    assert!(matches!(resolve_settings(cli(), None), Err(SettingsError::MissingCommand)));
    assert!(matches!(resolve_settings(cli(), Some(ProjectConfig::default())), Err(SettingsError::MissingCommand)));
}

#[test]
fn cli_ignore_wins_even_when_empty_config_list() {
    let mut c = cli();
    c.cmd = Some("x".to_string());
    c.ignore = Some("*.tmp".to_string());
    let mut p = ProjectConfig::default();
    p.ignore = vec!["*.log".to_string()];
    assert_eq!(resolve_settings(c, Some(p)).unwrap().ignore, "*.tmp");
}

#[test]
fn history_line_format() {
    assert_eq!(History::entry("14:23:05", "cargo build", true, 1243), "14:23:05 | cargo build | success | 1243ms");
    assert_eq!(History::entry("14:21:10", "cargo build", false, 892), "14:21:10 | cargo build | failed | 892ms");
}

#[test]
fn history_line_now_has_a_clock_time() {
    let line = History::entry_now("make", true, 7);
    let t: Vec<char> = line.chars().take(8).collect();
    assert_eq!(t[2], ':');
    assert_eq!(t[5], ':');
    assert!(line.ends_with(" | make | success | 7ms"));
}

#[test]
fn history_keeps_the_last_ten_newest_first() {
    let mut contents = String::new();
    for i in 0..12 {
        let entry = History::entry("00:00:00", "run", i % 2 == 0, i);
        contents = History::updated(&contents, &entry);
    }
    let lines = History::lines(&contents);
    assert_eq!(lines.len(), 10);
    assert_eq!(lines[0], "00:00:00 | run | failed | 11ms");
    assert_eq!(lines[9], "00:00:00 | run | success | 2ms");
}

#[test]
fn history_updated_on_empty_file() {
    assert_eq!(History::updated("", "a"), "a");
    assert_eq!(History::updated("b\nc", "a"), "a\nb\nc");
    assert_eq!(History::updated("b\r\nc\n", "a"), "a\nb\nc");
}

#[test]
fn history_prepend_limits_length() {
    let lines: Vec<String> = (0..15).map(|i| i.to_string()).collect();
    let r = History::prepend(lines, "new".to_string());
    assert_eq!(r.len(), 10);
    assert_eq!(r[0], "new");
    assert_eq!(r[9], "8");
}

#[test]
fn history_entry_reads_back() {
    let line = History::entry("14:23:05", "cargo build", true, 1243);
    let e = parse_history_entry(&line).unwrap();
    assert_eq!(e.time, "14:23:05");
    assert_eq!(e.command, "cargo build");
    assert_eq!(e.status, "success");
    assert_eq!(e.duration, "1243ms");
    assert!(e.succeeded());
    let f = parse_history_entry(&History::entry("1", "x", false, 0)).unwrap();
    assert!(!f.succeeded());
}

#[test]
fn short_history_lines_are_not_entries() {
    assert!(parse_history_entry("garbage").is_none());
    assert!(parse_history_entry("a | b | c").is_none());
    let e = parse_history_entry(" a |b| c |d|e").unwrap();
    assert_eq!(e.time, "a");
    assert_eq!(e.duration, "d");
}

#[test]
fn history_read_back_edge_with_carriage_return() {
    // a kept line that ends in `\r` loses it when read back
    let contents = History::updated("x\r\r\ny", "a");
    assert_eq!(contents, "a\nx\r\ny");
    assert_eq!(History::lines(&contents), vec!["a", "x", "y"]);
    // otherwise reading back gives the new line first, then the old ones
    let contents = History::updated("x\ny", "a");
    assert_eq!(History::lines(&contents), vec!["a", "x", "y"]);
}

#[test]
fn untrimmed_history_fields_read_back_trimmed() {
    let e = parse_history_entry("  09:00:00  |  make all  | failed | 42ms").unwrap();
    assert_eq!(e.time, "09:00:00");
    assert_eq!(e.command, "make all");
    assert_eq!(e.status, "failed");
    assert_eq!(e.duration, "42ms");
    assert!(!e.succeeded());
}
