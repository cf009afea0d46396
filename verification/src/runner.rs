//! The command runner: the command line it runs, the flag that tells
//! whether a run is under way, and what a finished run reports. Starting
//! the process, timing it and printing stand outside the library.

use std::sync::{Arc, Mutex};
use vstd::prelude::*;
use vstd::string::*;
use crate::text::{decimal, decimal_i32, decimal_u128, signed_decimal, texts, words_of, words_spec};

verus! {

// ---------------------------------------------------------------------------
// The shared flag
// ---------------------------------------------------------------------------

#[verifier::external_type_specification]
#[verifier::external_body]
#[verifier::reject_recursive_types(T)]
pub struct ExMutex<T: ?Sized>(Mutex<T>);

/// A flag that several owners share and that any of them may set.
pub type SharedBool = Arc<Mutex<bool>>;

/// The value that the lock `m` was made with: the argument of the
/// `std::sync::Mutex::new` call that made it. It never changes, whatever is
/// stored under the lock later.
pub uninterp spec fn made_with(m: Mutex<bool>) -> bool;

/// Makes a lock around `value` (`std::sync::Mutex::new`). Claimed: the lock
/// was made with `value`. What it holds later is not stated: that can change
/// behind a shared reference, which a contract cannot follow.
#[verifier::external_body]
fn new_lock(value: bool) -> (r: Mutex<bool>)
    ensures
        made_with(r) == value,
{
    Mutex::new(value)
}

/// Another handle to the same flag (`Arc::clone`). Claimed: the handle is
/// equal to the one it was cloned from, as both point to the one lock.
#[verifier::external_body]
fn share(flag: &SharedBool) -> (r: SharedBool)
    ensures
        r == *flag,
{
    Arc::clone(flag)
}

/// Reads the flag under its lock (`std::sync::Mutex::lock`); a lock that a
/// panic elsewhere poisoned is read all the same. Nothing is stated of the
/// value read, as other owners may set it.
#[verifier::external_body]
fn read_flag(flag: &SharedBool) -> (r: bool) {
    match flag.lock() {
        Ok(guard) => *guard,
        Err(poisoned) => *poisoned.into_inner(),
    }
}

/// Sets the flag under its lock (`std::sync::Mutex::lock`); a lock that a
/// panic elsewhere poisoned is written all the same.
#[verifier::external_body]
fn write_flag(flag: &SharedBool, value: bool) {
    match flag.lock() {
        Ok(mut guard) => *guard = value,
        Err(poisoned) => *poisoned.into_inner() = value,
    }
}

/// A new shared flag set to `value`.
pub fn new_shared_bool(value: bool) -> (r: SharedBool)
    ensures
        made_with(*r) == value,
{
    Arc::new(new_lock(value))
}

// ---------------------------------------------------------------------------
// The runner
// ---------------------------------------------------------------------------

/// The command line to start: the program and its arguments.
#[derive(Debug)]
pub struct CommandLine {
    pub program: String,
    pub args: Vec<String>,
}

/// How starting and waiting for the command ended.
#[derive(Debug)]
pub enum CommandOutcome {
    /// The command ran and exited; `code` is its exit code, `None` when a
    /// signal ended it.
    Exited { success: bool, code: Option<i32> },
    /// The command could not be started; `error` says why.
    NotStarted { error: String },
}

/// How a run ended, for the terminal.
#[derive(Debug)]
pub enum RunStatus {
    /// The command exited successfully.
    Succeeded,
    /// The command exited with `code` (`-1` when a signal ended it).
    Failed { code: i32 },
    /// The command could not be started; `message` says so.
    NotStarted { message: String },
}

/// What a finished run leads to.
#[derive(Debug)]
pub struct RunReport {
    /// What the terminal shows.
    pub status: RunStatus,
    /// Whether the run history records a success.
    pub success: bool,
    /// The desktop notification to send, if any.
    pub notification: Option<String>,
}

/// The settings of a `Runner`.
pub struct RunnerView {
    pub cmd: Seq<char>,
    pub clear: bool,
    pub notify: bool,
}

/// Runs the command on a change, one run at a time.
pub struct Runner {
    cmd: String,
    is_running: SharedBool,
    clear: bool,
    notify: bool,
}

impl View for Runner {
    type V = RunnerView;

    closed spec fn view(&self) -> RunnerView {
        RunnerView { cmd: self.cmd@, clear: self.clear, notify: self.notify }
    }
}

/// The exit code a failed run reports: the code, or `-1` when a signal
/// ended the command.
pub open spec fn reported_code(code: Option<i32>) -> i32 {
    match code {
        Some(c) => c,
        None => -1i32,
    }
}

/// What a run of `cmd` that ended in `outcome` after `duration_ms`
/// milliseconds leads to, when notifications are `notify`.
pub open spec fn report_spec(
    cmd: Seq<char>,
    notify: bool,
    outcome: CommandOutcome,
    duration_ms: u128,
    r: RunReport,
) -> bool {
    match outcome {
        CommandOutcome::Exited { success, code } => if success {
            &&& r.status is Succeeded
            &&& r.success
            &&& if notify {
                r.notification matches Some(m) && m@ == cmd + " succeeded in "@ + decimal(
                    duration_ms as nat,
                ) + "ms"@
            } else {
                r.notification is None
            }
        } else {
            &&& r.status == RunStatus::Failed { code: reported_code(code) }
            &&& !r.success
            &&& if notify {
                r.notification matches Some(m) && m@ == cmd + " failed (code "@ + signed_decimal(
                    reported_code(code) as int,
                ) + ")"@
            } else {
                r.notification is None
            }
        },
        CommandOutcome::NotStarted { error } => {
            &&& r.status matches RunStatus::NotStarted { message } && message@
                == "Failed to run command: "@ + error@
            &&& !r.success
            &&& r.notification is None
        },
    }
}

impl Runner {
    /// The shared flag of this runner.
    pub closed spec fn flag(&self) -> SharedBool {
        self.is_running
    }

    /// A runner for `cmd` that is not running.
    pub fn new(cmd: String, clear: bool, notify: bool) -> (r: Runner)
        ensures
            r@ == (RunnerView { cmd: cmd@, clear, notify }),
            made_with(*r.flag()) == false,
    {
        Runner { cmd, is_running: new_shared_bool(false), clear, notify }
    }

    /// Another handle to the flag that tells whether a run is under way.
    pub fn get_is_running(&self) -> (r: SharedBool)
        ensures
            r == self.flag(),
    {
        share(&self.is_running)
    }

    /// The command.
    pub fn cmd(&self) -> (r: &str)
        ensures
            r@ == self@.cmd,
    {
        self.cmd.as_str()
    }

    /// Whether the terminal is cleared before each run.
    pub fn clear(&self) -> (r: bool)
        ensures
            r == self@.clear,
    {
        self.clear
    }

    /// Whether a desktop notification is sent when a run ends.
    pub fn notify(&self) -> (r: bool)
        ensures
            r == self@.notify,
    {
        self.notify
    }

    /// Marks a run as under way, unless one already is: `false` means a run
    /// is under way and this change waits for it to finish.
    pub fn try_begin(&self) -> bool {
        if read_flag(&self.is_running) {
            return false;
        }
        write_flag(&self.is_running, true);
        true
    }

    /// Marks the run as over.
    pub fn finish(&self) {
        write_flag(&self.is_running, false);
    }

    /// The program and arguments to start: the words of the command; `None`
    /// when the command has no words.
    pub fn command_line(&self) -> (r: Option<CommandLine>)
        ensures
            r is None <==> words_spec(self@.cmd).len() == 0,
            r matches Some(cl) ==> {
                &&& cl.program@ == words_spec(self@.cmd)[0]
                &&& texts(cl.args@) == words_spec(self@.cmd).drop_first()
            },
    {
        let mut words = words_of(self.cmd.as_str());
        if words.len() == 0 {
            return None;
        }
        let ghost all = texts(words@);
        let program = words.remove(0);
        assert(texts(words@) =~= all.drop_first());
        Some(CommandLine { program, args: words })
    }

    /// What a run that ended in `outcome` after `duration_ms` milliseconds
    /// leads to: the status to show, whether history records a success, and
    /// the notification to send when notifications are on (none when the
    /// command could not be started).
    pub fn report(&self, outcome: CommandOutcome, duration_ms: u128) -> (r: RunReport)
        ensures
            report_spec(self@.cmd, self@.notify, outcome, duration_ms, r),
    {
        match outcome {
            CommandOutcome::Exited { success, code } => {
                if success {
                    let notification = if self.notify {
                        let mut m = String::from_str(self.cmd.as_str());
                        m.append(" succeeded in ");
                        let ms = decimal_u128(duration_ms);
                        m.append(ms.as_str());
                        m.append("ms");
                        Some(m)
                    } else {
                        None
                    };
                    RunReport { status: RunStatus::Succeeded, success: true, notification }
                } else {
                    let c: i32 = match code {
                        Some(c) => c,
                        None => -1,
                    };
                    let notification = if self.notify {
                        let mut m = String::from_str(self.cmd.as_str());
                        m.append(" failed (code ");
                        let digits = decimal_i32(c);
                        m.append(digits.as_str());
                        m.append(")");
                        Some(m)
                    } else {
                        None
                    };
                    RunReport { status: RunStatus::Failed { code: c }, success: false, notification }
                }
            },
            CommandOutcome::NotStarted { error } => {
                let mut message = String::from_str("Failed to run command: ");
                message.append(error.as_str());
                RunReport {
                    status: RunStatus::NotStarted { message },
                    success: false,
                    notification: None,
                }
            },
        }
    }
}

// ---------------------------------------------------------------------------
// The run protocol
// ---------------------------------------------------------------------------

/// One step of a run, for the event loop to carry out in order.
#[derive(Debug)]
pub enum RunAction {
    /// Show that a run is under way and this change waits.
    ShowWaiting,
    /// Show the change to `file` that starts the run.
    ShowChange { file: String },
    /// Clear the terminal.
    ClearTerminal,
    /// Show the command that runs.
    ShowRunning { cmd: String },
    /// Show the error `message`.
    ShowError { message: String },
    /// Start `line` and wait for it to end; then carry out
    /// `Runner::end_actions` for how it ended.
    Launch { line: CommandLine },
    /// Show that the run succeeded after `duration_ms` milliseconds.
    ShowSuccess { duration_ms: u128 },
    /// Show that the run failed with `code` after `duration_ms` milliseconds.
    ShowFailure { code: i32, duration_ms: u128 },
    /// Record the run in the history.
    RecordHistory { cmd: String, success: bool, duration_ms: u128 },
    /// Send the desktop notification `body` under `title`.
    Notify { title: String, body: String },
    /// Mark the run as over (`Runner::finish`).
    Release,
    /// Show that the watcher waits for changes again.
    ShowWatching,
}

/// A `RunAction` with its texts as sequences.
pub enum RunActionView {
    ShowWaiting,
    ShowChange(Seq<char>),
    ClearTerminal,
    ShowRunning(Seq<char>),
    ShowError(Seq<char>),
    Launch(Seq<char>, Seq<Seq<char>>),
    ShowSuccess(u128),
    ShowFailure(i32, u128),
    RecordHistory(Seq<char>, bool, u128),
    Notify(Seq<char>, Seq<char>),
    Release,
    ShowWatching,
}

impl View for RunAction {
    type V = RunActionView;

    open spec fn view(&self) -> RunActionView {
        match self {
            RunAction::ShowWaiting => RunActionView::ShowWaiting,
            RunAction::ShowChange { file } => RunActionView::ShowChange(file@),
            RunAction::ClearTerminal => RunActionView::ClearTerminal,
            RunAction::ShowRunning { cmd } => RunActionView::ShowRunning(cmd@),
            RunAction::ShowError { message } => RunActionView::ShowError(message@),
            RunAction::Launch { line } => RunActionView::Launch(line.program@, texts(line.args@)),
            RunAction::ShowSuccess { duration_ms } => RunActionView::ShowSuccess(*duration_ms),
            RunAction::ShowFailure { code, duration_ms } => RunActionView::ShowFailure(
                *code,
                *duration_ms,
            ),
            RunAction::RecordHistory { cmd, success, duration_ms } => RunActionView::RecordHistory(
                cmd@,
                *success,
                *duration_ms,
            ),
            RunAction::Notify { title, body } => RunActionView::Notify(title@, body@),
            RunAction::Release => RunActionView::Release,
            RunAction::ShowWatching => RunActionView::ShowWatching,
        }
    }
}

/// The views of `actions`.
pub open spec fn action_views(actions: Seq<RunAction>) -> Seq<RunActionView> {
    actions.map_values(|a: RunAction| a@)
}

/// What a change to `file` leads to: when a run is already under way
/// (`started` false), only the waiting line. Otherwise the change, a
/// cleared terminal when asked for, and the command; then, for a command
/// without words, the error and the end of the run, else the start of the
/// command.
pub open spec fn begin_spec(r: RunnerView, file: Seq<char>, started: bool) -> Seq<RunActionView> {
    if !started {
        seq![RunActionView::ShowWaiting]
    } else {
        let head = seq![RunActionView::ShowChange(file)] + (if r.clear {
            seq![RunActionView::ClearTerminal]
        } else {
            Seq::<RunActionView>::empty()
        }) + seq![RunActionView::ShowRunning(r.cmd)];
        let words = words_spec(r.cmd);
        if words.len() == 0 {
            head + seq![RunActionView::ShowError("Empty command"@), RunActionView::Release]
        } else {
            head.push(RunActionView::Launch(words[0], words.drop_first()))
        }
    }
}

/// The notification text after a run of `cmd` that ended in `outcome`
/// after `duration_ms` milliseconds, when notifications are `notify`.
pub open spec fn notification_spec(
    cmd: Seq<char>,
    notify: bool,
    outcome: CommandOutcome,
    duration_ms: u128,
) -> Option<Seq<char>> {
    match outcome {
        CommandOutcome::Exited { success, code } => if !notify {
            None
        } else if success {
            Some(cmd + " succeeded in "@ + decimal(duration_ms as nat) + "ms"@)
        } else {
            Some(cmd + " failed (code "@ + signed_decimal(reported_code(code) as int) + ")"@)
        },
        CommandOutcome::NotStarted { .. } => None,
    }
}

/// What the end of a run that ended in `outcome` after `duration_ms`
/// milliseconds leads to: how it ended, its history record, the
/// notification when there is one, the end of the run, and the watching
/// line.
pub open spec fn end_spec(r: RunnerView, outcome: CommandOutcome, duration_ms: u128) -> Seq<
    RunActionView,
> {
    let status = match outcome {
        CommandOutcome::Exited { success, code } => if success {
            RunActionView::ShowSuccess(duration_ms)
        } else {
            RunActionView::ShowFailure(reported_code(code), duration_ms)
        },
        CommandOutcome::NotStarted { error } => RunActionView::ShowError(
            "Failed to run command: "@ + error@,
        ),
    };
    let success = match outcome {
        CommandOutcome::Exited { success, .. } => success,
        CommandOutcome::NotStarted { .. } => false,
    };
    let note = match notification_spec(r.cmd, r.notify, outcome, duration_ms) {
        Some(body) => seq![RunActionView::Notify("watchr"@, body)],
        None => Seq::<RunActionView>::empty(),
    };
    seq![status, RunActionView::RecordHistory(r.cmd, success, duration_ms)] + note + seq![
        RunActionView::Release,
        RunActionView::ShowWatching,
    ]
}

impl Runner {
    /// The steps that a change to `changed_file` leads to, given whether
    /// this change `started` a run (`try_begin`'s answer).
    pub fn begin_actions(&self, changed_file: &str, started: bool) -> (r: Vec<RunAction>)
        ensures
            action_views(r@) == begin_spec(self@, changed_file@, started),
    {
        let mut r: Vec<RunAction> = Vec::new();
        if !started {
            r.push(RunAction::ShowWaiting);
            assert(action_views(r@) =~= begin_spec(self@, changed_file@, started));
            return r;
        }
        r.push(RunAction::ShowChange { file: String::from_str(changed_file) });
        if self.clear {
            r.push(RunAction::ClearTerminal);
        }
        r.push(RunAction::ShowRunning { cmd: String::from_str(self.cmd.as_str()) });
        let ghost head = action_views(r@);
        assert(head =~= seq![RunActionView::ShowChange(changed_file@)] + (if self@.clear {
            seq![RunActionView::ClearTerminal]
        } else {
            Seq::<RunActionView>::empty()
        }) + seq![RunActionView::ShowRunning(self@.cmd)]);
        match self.command_line() {
            None => {
                r.push(RunAction::ShowError { message: String::from_str("Empty command") });
                r.push(RunAction::Release);
                assert(action_views(r@) =~= head + seq![
                    RunActionView::ShowError("Empty command"@),
                    RunActionView::Release,
                ]);
            },
            Some(line) => {
                r.push(RunAction::Launch { line });
                assert(action_views(r@) =~= head.push(
                    RunActionView::Launch(words_spec(self@.cmd)[0], words_spec(self@.cmd).drop_first()),
                ));
            },
        }
        r
    }

    /// The steps that a change to `changed_file` leads to: marks a run as
    /// under way unless one already is (the shared flag decides), then
    /// gives the steps for that answer.
    pub fn begin(&self, changed_file: &str) -> (r: Vec<RunAction>)
        ensures
            action_views(r@) == begin_spec(self@, changed_file@, true) || action_views(r@)
                == begin_spec(self@, changed_file@, false),
    {
        let started = self.try_begin();
        self.begin_actions(changed_file, started)
    }

    /// The steps that the end of a run leads to, when it ended in `outcome`
    /// after `duration_ms` milliseconds.
    pub fn end_actions(&self, outcome: CommandOutcome, duration_ms: u128) -> (r: Vec<RunAction>)
        ensures
            action_views(r@) == end_spec(self@, outcome, duration_ms),
    {
        let ghost outcome0 = outcome;
        let report = self.report(outcome, duration_ms);
        let mut r: Vec<RunAction> = Vec::new();
        match report.status {
            RunStatus::Succeeded => r.push(RunAction::ShowSuccess { duration_ms }),
            RunStatus::Failed { code } => r.push(RunAction::ShowFailure { code, duration_ms }),
            RunStatus::NotStarted { message } => r.push(RunAction::ShowError { message }),
        }
        r.push(
            RunAction::RecordHistory {
                cmd: String::from_str(self.cmd.as_str()),
                success: report.success,
                duration_ms,
            },
        );
        let ghost with_record = action_views(r@);
        match report.notification {
            Some(body) => r.push(RunAction::Notify { title: String::from_str("watchr"), body }),
            None => {},
        }
        let ghost with_note = action_views(r@);
        assert(with_note =~= with_record + match notification_spec(
            self@.cmd,
            self@.notify,
            outcome0,
            duration_ms,
        ) {
            Some(body) => seq![RunActionView::Notify("watchr"@, body)],
            None => Seq::<RunActionView>::empty(),
        });
        r.push(RunAction::Release);
        r.push(RunAction::ShowWatching);
        assert(action_views(r@) =~= end_spec(self@, outcome0, duration_ms));
        r
    }
}

/// Every run that starts ends by marking the run as over: a change that
/// finds a run under way only shows the waiting line; one that starts a run
/// either ends it at once (a command without words) or starts the command,
/// and the end of every command releases the run, once, before the
/// watching line.
pub proof fn lemma_every_started_run_ends(
    r: RunnerView,
    file: Seq<char>,
    outcome: CommandOutcome,
    duration_ms: u128,
)
    ensures
        begin_spec(r, file, false) == seq![RunActionView::ShowWaiting],
        words_spec(r.cmd).len() == 0 ==> begin_spec(r, file, true).last() == RunActionView::Release,
        words_spec(r.cmd).len() > 0 ==> begin_spec(r, file, true).last() is Launch,
        end_spec(r, outcome, duration_ms).len() >= 2,
        end_spec(r, outcome, duration_ms)[end_spec(r, outcome, duration_ms).len() - 2]
            == RunActionView::Release,
        end_spec(r, outcome, duration_ms).last() == RunActionView::ShowWatching,
        forall|i: int|
            0 <= i < end_spec(r, outcome, duration_ms).len() - 2 ==> !(#[trigger] end_spec(
                r,
                outcome,
                duration_ms,
            )[i] is Release),
{
    let e = end_spec(r, outcome, duration_ms);
    let note = match notification_spec(r.cmd, r.notify, outcome, duration_ms) {
        Some(body) => seq![RunActionView::Notify("watchr"@, body)],
        None => Seq::<RunActionView>::empty(),
    };
    assert forall|i: int| 0 <= i < e.len() - 2 implies !(#[trigger] e[i] is Release) by {
        if i >= 2 {
            assert(e[i] == note[i - 2]);
        }
    }
}

/// A started run clears the terminal exactly when the runner's clear
/// setting is on, whatever its notify setting; a change that finds a run
/// under way clears nothing.
pub proof fn lemma_clear_only_when_asked(r: RunnerView, file: Seq<char>, started: bool)
    ensures
        begin_spec(r, file, started).contains(RunActionView::ClearTerminal) <==> (started
            && r.clear),
{
    let b = begin_spec(r, file, started);
    if started && r.clear {
        assert(b[1] == RunActionView::ClearTerminal);
    } else {
        assert forall|i: int| 0 <= i < b.len() implies !(#[trigger] b[i] is ClearTerminal) by {
            if started {
                if i >= 2 {
                }
            }
        }
    }
}

/// No notification is sent unless notifications are on; when they are, a
/// command that ran sends one, right after its history record; a command
/// that could not start sends none.
pub proof fn lemma_notify_only_when_asked(r: RunnerView, outcome: CommandOutcome, duration_ms: u128)
    ensures
        !r.notify ==> forall|i: int|
            0 <= i < end_spec(r, outcome, duration_ms).len() ==> !(#[trigger] end_spec(
                r,
                outcome,
                duration_ms,
            )[i] is Notify),
        outcome is NotStarted ==> forall|i: int|
            0 <= i < end_spec(r, outcome, duration_ms).len() ==> !(#[trigger] end_spec(
                r,
                outcome,
                duration_ms,
            )[i] is Notify),
        r.notify && outcome is Exited ==> end_spec(r, outcome, duration_ms)[2] is Notify,
{
    let e = end_spec(r, outcome, duration_ms);
    if !r.notify || outcome is NotStarted {
        assert(notification_spec(r.cmd, r.notify, outcome, duration_ms) is None);
        assert forall|i: int| 0 <= i < e.len() implies !(#[trigger] e[i] is Notify) by {}
    }
}

} // verus!
