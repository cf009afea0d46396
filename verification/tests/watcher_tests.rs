use watchr::ignore::parse_ignore_patterns;
use watchr::watcher::{ChangeKind, Debouncer, PathText, WatchAction, WatchEvent};

const MS: u128 = 1_000_000;

fn changed(kind: ChangeKind, path: &str, at_ms: u128) -> WatchEvent {
    WatchEvent::Changed {
        kind,
        first_path: Some(PathText::Unicode(path.to_string())),
        at_ns: at_ms * MS,
    }
}

fn quiet(at_ms: u128) -> WatchEvent {
    WatchEvent::Quiet { at_ns: at_ms * MS }
}

fn is_wait(a: &WatchAction) -> bool {
    matches!(a, WatchAction::Wait)
}

#[test]
fn runs_once_after_the_quiet_period() {
    let mut d = Debouncer::new(500, Vec::new());
    assert!(is_wait(&d.on_event(changed(ChangeKind::Modify, "src/a.rs", 0))));
    assert!(is_wait(&d.on_event(changed(ChangeKind::Create, "src/b.rs", 100))));
    assert!(is_wait(&d.on_event(quiet(599))));
    match d.on_event(quiet(600)) {
        WatchAction::Run { changed_file } => assert_eq!(changed_file, "src/b.rs"),
        other => panic!("{:?}", other),
    }
    assert!(is_wait(&d.on_event(quiet(2000))));
}

#[test]
fn irrelevant_and_ignored_events_change_nothing() {
    let mut d = Debouncer::new(10, parse_ignore_patterns("*.log"));
    assert!(is_wait(&d.on_event(changed(ChangeKind::Access, "src/a.rs", 0))));
    assert!(is_wait(&d.on_event(changed(ChangeKind::Modify, "target/x", 0))));
    assert!(is_wait(&d.on_event(changed(ChangeKind::Modify, "out.log", 0))));
    assert!(is_wait(&d.on_event(WatchEvent::Changed { kind: ChangeKind::Remove, first_path: None, at_ns: 0 })));
    assert!(is_wait(&d.on_event(quiet(1000))));
}

#[test]
fn non_unicode_paths_are_reported_as_unknown() {
    let mut d = Debouncer::new(0, Vec::new());
    d.on_event(WatchEvent::Changed { kind: ChangeKind::Remove, first_path: Some(PathText::NotUnicode), at_ns: 5 });
    match d.on_event(WatchEvent::Quiet { at_ns: 5 }) {
        WatchAction::Run { changed_file } => assert_eq!(changed_file, "unknown"),
        other => panic!("{:?}", other),
    }
}

#[test]
fn errors_and_disconnection() {
    let mut d = Debouncer::new(500, Vec::new());
    match d.on_event(WatchEvent::Failed { message: "boom".to_string() }) {
        WatchAction::Report { message } => assert_eq!(message, "Watch error: boom"),
        other => panic!("{:?}", other),
    }
    match d.on_event(WatchEvent::Disconnected) {
        WatchAction::Stop { message } => assert_eq!(message, "Watcher disconnected unexpectedly"),
        other => panic!("{:?}", other),
    }
}

#[test]
fn a_clock_that_reads_earlier_counts_as_no_time() {
    let mut d = Debouncer::new(1, Vec::new());
    d.on_event(changed(ChangeKind::Modify, "a", 10));
    assert!(is_wait(&d.on_event(quiet(5))));
    assert!(matches!(d.on_event(quiet(11)), WatchAction::Run { .. }));
}

#[test]
fn a_long_burst_runs_once_for_the_latest_file() {
    let mut d = Debouncer::new(100, Vec::new());
    for i in 0..20u128 {
        assert!(is_wait(&d.on_event(changed(ChangeKind::Modify, &format!("f{}", i), i * 50))));
    }
    assert!(is_wait(&d.on_event(quiet(19 * 50 + 99))));
    match d.on_event(quiet(19 * 50 + 100)) {
        WatchAction::Run { changed_file } => assert_eq!(changed_file, "f19"),
        other => panic!("{:?}", other),
    }
    assert!(is_wait(&d.on_event(quiet(5000))));
}

#[test]
fn short_quiet_periods_inside_a_burst_add_no_run() {
    let mut d = Debouncer::new(100, Vec::new());
    assert!(is_wait(&d.on_event(changed(ChangeKind::Modify, "a", 0))));
    assert!(is_wait(&d.on_event(quiet(99))));
    assert!(is_wait(&d.on_event(changed(ChangeKind::Create, "b", 150))));
    assert!(is_wait(&d.on_event(quiet(249))));
    match d.on_event(quiet(250)) {
        WatchAction::Run { changed_file } => assert_eq!(changed_file, "b"),
        other => panic!("{:?}", other),
    }
    assert!(is_wait(&d.on_event(quiet(400))));
}
