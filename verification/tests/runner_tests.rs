use watchr::runner::{new_shared_bool, CommandOutcome, RunStatus, Runner};

#[test]
fn runner_keeps_its_settings() {
    let r = Runner::new("cargo build".to_string(), true, false);
    assert_eq!(r.cmd(), "cargo build");
    assert!(r.clear());
    assert!(!r.notify());
}

#[test]
fn one_run_at_a_time() {
    let r = Runner::new("x".to_string(), false, false);
    assert!(r.try_begin());
    assert!(!r.try_begin());
    r.finish();
    assert!(r.try_begin());
    let flag = r.get_is_running();
    assert!(*flag.lock().unwrap());
    r.finish();
    assert!(!*flag.lock().unwrap());
}

#[test]
fn shared_bool_starts_with_value() {
    assert!(*new_shared_bool(true).lock().unwrap());
    assert!(!*new_shared_bool(false).lock().unwrap());
}

#[test]
fn command_line_splits_on_white_space() {
    let r = Runner::new("  cargo  test --all ".to_string(), false, false);
    let cl = r.command_line().unwrap();
    assert_eq!(cl.program, "cargo");
    assert_eq!(cl.args, vec!["test", "--all"]);
    assert!(Runner::new("   ".to_string(), false, false).command_line().is_none());
}

#[test]
fn success_report() {
    let r = Runner::new("cargo build".to_string(), false, true);
    let rep = r.report(CommandOutcome::Exited { success: true, code: Some(0) }, 1243);
    assert!(matches!(rep.status, RunStatus::Succeeded));
    assert!(rep.success);
    assert_eq!(rep.notification.unwrap(), "cargo build succeeded in 1243ms");
}

#[test]
fn failure_report() {
    let r = Runner::new("cargo build".to_string(), false, true);
    let rep = r.report(CommandOutcome::Exited { success: false, code: Some(101) }, 5);
    assert!(matches!(rep.status, RunStatus::Failed { code: 101 }));
    assert!(!rep.success);
    assert_eq!(rep.notification.unwrap(), "cargo build failed (code 101)");
    let rep = r.report(CommandOutcome::Exited { success: false, code: None }, 5);
    assert!(matches!(rep.status, RunStatus::Failed { code: -1 }));
    assert_eq!(rep.notification.unwrap(), "cargo build failed (code -1)");
}

#[test]
fn start_failure_report() {
    let r = Runner::new("nope".to_string(), false, true);
    let rep = r.report(CommandOutcome::NotStarted { error: "not found".to_string() }, 1);
    match rep.status {
        RunStatus::NotStarted { message } => assert_eq!(message, "Failed to run command: not found"),
        other => panic!("{:?}", other),
    }
    assert!(!rep.success);
    assert!(rep.notification.is_none());
}

#[test]
fn no_notification_when_off() {
    let r = Runner::new("x".to_string(), false, false);
    assert!(r.report(CommandOutcome::Exited { success: true, code: Some(0) }, 1).notification.is_none());
    assert!(r.report(CommandOutcome::Exited { success: false, code: Some(1) }, 1).notification.is_none());
}

use watchr::runner::RunAction;

fn names(actions: &[RunAction]) -> Vec<String> {
    actions
        .iter()
        .map(|a| match a {
            RunAction::ShowWaiting => "waiting".to_string(),
            RunAction::ShowChange { file } => format!("change {}", file),
            RunAction::ClearTerminal => "clear".to_string(),
            RunAction::ShowRunning { cmd } => format!("running {}", cmd),
            RunAction::ShowError { message } => format!("error {}", message),
            RunAction::Launch { line } => format!("launch {} {:?}", line.program, line.args),
            RunAction::ShowSuccess { duration_ms } => format!("success {}", duration_ms),
            RunAction::ShowFailure { code, duration_ms } => format!("failure {} {}", code, duration_ms),
            RunAction::RecordHistory { cmd, success, duration_ms } => {
                format!("history {} {} {}", cmd, success, duration_ms)
            }
            RunAction::Notify { title, body } => format!("notify {}: {}", title, body),
            RunAction::Release => "release".to_string(),
            RunAction::ShowWatching => "watching".to_string(),
        })
        .collect()
}

#[test]
fn a_new_runner_is_idle() {
    let r = Runner::new("x".to_string(), false, false);
    assert!(!*r.get_is_running().lock().unwrap());
    assert!(r.try_begin());
}

#[test]
fn busy_runner_only_shows_waiting() {
    let r = Runner::new("cargo build".to_string(), true, false);
    assert_eq!(names(&r.begin_actions("src/a.rs", false)), vec!["waiting"]);
    assert!(r.try_begin());
    assert_eq!(names(&r.begin("src/a.rs")), vec!["waiting"]);
}

#[test]
fn starting_a_run() {
    let r = Runner::new("cargo build --release".to_string(), true, false);
    assert_eq!(
        names(&r.begin("src/a.rs")),
        vec![
            "change src/a.rs",
            "clear",
            "running cargo build --release",
            "launch cargo [\"build\", \"--release\"]"
        ]
    );
    let r = Runner::new("  ".to_string(), false, false);
    assert_eq!(names(&r.begin_actions("f", true)), vec!["change f", "running   ", "error Empty command", "release"]);
}

#[test]
fn ending_a_run() {
    let r = Runner::new("make".to_string(), false, true);
    assert_eq!(
        names(&r.end_actions(CommandOutcome::Exited { success: true, code: Some(0) }, 12)),
        vec!["success 12", "history make true 12", "notify watchr: make succeeded in 12ms", "release", "watching"]
    );
    assert_eq!(
        names(&r.end_actions(CommandOutcome::Exited { success: false, code: None }, 3)),
        vec!["failure -1 3", "history make false 3", "notify watchr: make failed (code -1)", "release", "watching"]
    );
    assert_eq!(
        names(&r.end_actions(CommandOutcome::NotStarted { error: "gone".to_string() }, 1)),
        vec!["error Failed to run command: gone", "history make false 1", "release", "watching"]
    );
}
