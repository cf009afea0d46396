//! The watcher's decisions: which file-system events count, and when the
//! quiet period after the latest change has lasted long enough to run the
//! command. The event loop itself (the channel, the clock, the runs) stands
//! outside the library and feeds `Debouncer::on_event`.

use vstd::prelude::*;
use vstd::string::*;
use crate::ignore::{
    glob_matches, ignored, ignored_by_patterns, pattern_texts, should_ignore, IgnorePattern,
};

verus! {

/// The kind of a file-system event, one for each kind `notify` reports.
#[derive(Clone, Copy, Debug)]
pub enum ChangeKind {
    Any,
    Access,
    Create,
    Modify,
    Remove,
    Other,
}

/// Creating, modifying or removing a file counts as a change.
pub open spec fn is_content_change(kind: ChangeKind) -> bool {
    kind is Create || kind is Modify || kind is Remove
}

/// The text of a changed path.
#[derive(Debug)]
pub enum PathText {
    /// The path is valid Unicode and reads so.
    Unicode(String),
    /// The path is not valid Unicode.
    NotUnicode,
}

/// The text that the ignore rules test: empty when the path is not
/// Unicode.
pub open spec fn tested_text(p: PathText) -> Seq<char> {
    match p {
        PathText::Unicode(s) => s@,
        PathText::NotUnicode => Seq::<char>::empty(),
    }
}

/// The name under which a changed path is reported: `unknown` when the path
/// is not Unicode.
pub open spec fn reported_name(p: PathText) -> Seq<char> {
    match p {
        PathText::Unicode(s) => s@,
        PathText::NotUnicode => "unknown"@,
    }
}

/// What the event loop hands the watcher.
#[derive(Debug)]
pub enum WatchEvent {
    /// A file-system event of `kind`, whose first path is `first_path`, seen
    /// at `at_ns` nanoseconds on the loop's monotonic clock.
    Changed { kind: ChangeKind, first_path: Option<PathText>, at_ns: u128 },
    /// The file-system watcher reported an error.
    Failed { message: String },
    /// No event came within the debounce delay; the clock reads `at_ns`.
    Quiet { at_ns: u128 },
    /// The file-system watcher is gone.
    Disconnected,
}

/// What the event loop is to do next.
#[derive(Debug)]
pub enum WatchAction {
    /// Nothing; wait for the next event.
    Wait,
    /// Run the command for a change to `changed_file`.
    Run { changed_file: String },
    /// Show the error `message` and go on.
    Report { message: String },
    /// Show the error `message` and stop watching.
    Stop { message: String },
}

/// A `WatchAction` with its texts as sequences.
pub enum ActionView {
    Wait,
    Run(Seq<char>),
    Report(Seq<char>),
    Stop(Seq<char>),
}

impl View for WatchAction {
    type V = ActionView;

    open spec fn view(&self) -> ActionView {
        match self {
            WatchAction::Wait => ActionView::Wait,
            WatchAction::Run { changed_file } => ActionView::Run(changed_file@),
            WatchAction::Report { message } => ActionView::Report(message@),
            WatchAction::Stop { message } => ActionView::Stop(message@),
        }
    }
}

/// The state of a `Debouncer`.
#[verifier::ext_equal]
pub struct DebounceView {
    /// The quiet period to wait for, in nanoseconds.
    pub debounce_ns: u128,
    /// When the latest change that counts was seen, if one is waiting.
    pub pending_since: Option<u128>,
    /// The file of the latest change that counted.
    pub last_file: Seq<char>,
    /// The user's ignore patterns.
    pub patterns: Seq<Seq<char>>,
}

/// The time from `since` to `now`, zero when the clock reads earlier.
pub open spec fn elapsed(since: u128, now: u128) -> int {
    if now >= since {
        now - since
    } else {
        0
    }
}

/// One decision of the watcher: the state after `event`, and the action.
pub open spec fn step(s: DebounceView, event: WatchEvent) -> (DebounceView, ActionView) {
    match event {
        WatchEvent::Changed { kind, first_path, at_ns } => {
            if !is_content_change(kind) {
                (s, ActionView::Wait)
            } else {
                match first_path {
                    None => (s, ActionView::Wait),
                    Some(p) => {
                        if ignored(tested_text(p), s.patterns) {
                            (s, ActionView::Wait)
                        } else {
                            (
                                DebounceView {
                                    debounce_ns: s.debounce_ns,
                                    pending_since: Some(at_ns),
                                    last_file: reported_name(p),
                                    patterns: s.patterns,
                                },
                                ActionView::Wait,
                            )
                        }
                    },
                }
            }
        },
        WatchEvent::Failed { message } => (s, ActionView::Report("Watch error: "@ + message@)),
        WatchEvent::Quiet { at_ns } => match s.pending_since {
            Some(since) => {
                if elapsed(since, at_ns) >= s.debounce_ns {
                    (
                        DebounceView {
                            debounce_ns: s.debounce_ns,
                            pending_since: None,
                            last_file: s.last_file,
                            patterns: s.patterns,
                        },
                        ActionView::Run(s.last_file),
                    )
                } else {
                    (s, ActionView::Wait)
                }
            },
            None => (s, ActionView::Wait),
        },
        WatchEvent::Disconnected => (s, ActionView::Stop("Watcher disconnected unexpectedly"@)),
    }
}

/// Waits for the file system to stay quiet for the debounce delay after a
/// change, then asks for one run of the command.
pub struct Debouncer {
    debounce_ns: u128,
    pending_since: Option<u128>,
    last_changed_file: String,
    ignore: Vec<IgnorePattern>,
}

impl View for Debouncer {
    type V = DebounceView;

    closed spec fn view(&self) -> DebounceView {
        DebounceView {
            debounce_ns: self.debounce_ns,
            pending_since: self.pending_since,
            last_file: self.last_changed_file@,
            patterns: pattern_texts(self.ignore@),
        }
    }
}

impl Debouncer {
    /// A debouncer that waits `debounce_ms` milliseconds of quiet and
    /// leaves alone what `ignore` matches.
    pub fn new(debounce_ms: u64, ignore: Vec<IgnorePattern>) -> (r: Debouncer)
        ensures
            r@ == (DebounceView {
                debounce_ns: (debounce_ms * 1_000_000) as u128,
                pending_since: None,
                last_file: Seq::<char>::empty(),
                patterns: pattern_texts(ignore@),
            }),
    {
        let debounce_ns: u128 = (debounce_ms as u128) * 1_000_000;
        Debouncer { debounce_ns, pending_since: None, last_changed_file: String::new(), ignore }
    }

    /// Decides what `event` means: a change that counts restarts the quiet
    /// period and is remembered; a quiet period that has lasted the debounce
    /// delay since the latest such change asks for a run.
    pub fn on_event(&mut self, event: WatchEvent) -> (a: WatchAction)
        ensures
            (final(self)@, a@) == step(old(self)@, event),
    {
        match event {
            WatchEvent::Changed { kind, first_path, at_ns } => {
                let counts = match kind {
                    ChangeKind::Create => true,
                    ChangeKind::Modify => true,
                    ChangeKind::Remove => true,
                    _ => false,
                };
                if !counts {
                    return WatchAction::Wait;
                }
                match first_path {
                    None => WatchAction::Wait,
                    Some(p) => {
                        let (tested, name) = match p {
                            PathText::Unicode(s) => (s.clone(), s),
                            PathText::NotUnicode => (String::new(), String::from_str("unknown")),
                        };
                        if should_ignore(tested.as_str(), self.ignore.as_slice()) {
                            WatchAction::Wait
                        } else {
                            self.pending_since = Some(at_ns);
                            self.last_changed_file = name;
                            WatchAction::Wait
                        }
                    },
                }
            },
            WatchEvent::Failed { message } => {
                let mut text = String::from_str("Watch error: ");
                text.append(message.as_str());
                WatchAction::Report { message: text }
            },
            WatchEvent::Quiet { at_ns } => match self.pending_since {
                Some(since) => {
                    let waited: u128 = if at_ns >= since {
                        at_ns - since
                    } else {
                        0
                    };
                    if waited >= self.debounce_ns {
                        self.pending_since = None;
                        WatchAction::Run { changed_file: self.last_changed_file.clone() }
                    } else {
                        WatchAction::Wait
                    }
                },
                None => WatchAction::Wait,
            },
            WatchEvent::Disconnected => WatchAction::Stop {
                message: String::from_str("Watcher disconnected unexpectedly"),
            },
        }
    }
}

/// A change that the watcher leaves alone changes nothing and asks for
/// nothing.
pub proof fn lemma_ignored_change_changes_nothing(
    s: DebounceView,
    kind: ChangeKind,
    p: PathText,
    at_ns: u128,
)
    requires
        ignored(tested_text(p), s.patterns),
    ensures
        step(s, WatchEvent::Changed { kind, first_path: Some(p), at_ns }) == (s, ActionView::Wait),
{
}

/// The command never runs before the debounce delay has passed since the
/// latest change that counted.
pub proof fn lemma_no_run_before_quiet_period(
    s: DebounceView,
    kind: ChangeKind,
    p: PathText,
    changed_at: u128,
    now: u128,
)
    requires
        is_content_change(kind),
        !ignored(tested_text(p), s.patterns),
        elapsed(changed_at, now) < s.debounce_ns,
    ensures
        ({
            let s1 = step(s, WatchEvent::Changed { kind, first_path: Some(p), at_ns: changed_at }).0;
            step(s1, WatchEvent::Quiet { at_ns: now }).1 == ActionView::Wait
        }),
{
}

/// The state and the actions after each of `events` in turn.
pub open spec fn steps(s: DebounceView, events: Seq<WatchEvent>) -> (DebounceView, Seq<ActionView>)
    decreases events.len(),
{
    if events.len() == 0 {
        (s, Seq::<ActionView>::empty())
    } else {
        let prev = steps(s, events.drop_last());
        let next = step(prev.0, events.last());
        (next.0, prev.1.push(next.1))
    }
}

/// `event` is a change that counts for a watcher with `patterns`: a
/// creation, modification or removal of a path that is not ignored.
pub open spec fn counting_change(patterns: Seq<Seq<char>>, event: WatchEvent) -> bool {
    match event {
        WatchEvent::Changed { kind, first_path, at_ns } => match first_path {
            Some(p) => is_content_change(kind) && !ignored(tested_text(p), patterns),
            None => false,
        },
        _ => false,
    }
}

/// The time of a change event.
pub open spec fn change_time(event: WatchEvent) -> u128 {
    match event {
        WatchEvent::Changed { at_ns, .. } => at_ns,
        _ => 0,
    }
}

/// The reported name of the path of a change event.
pub open spec fn change_name(event: WatchEvent) -> Seq<char> {
    match event {
        WatchEvent::Changed { first_path: Some(p), .. } => reported_name(p),
        _ => Seq::<char>::empty(),
    }
}

/// The latest change event among `events`, if there is one.
pub open spec fn latest_change(events: Seq<WatchEvent>) -> Option<WatchEvent>
    decreases events.len(),
{
    if events.len() == 0 {
        None
    } else if events.last() is Changed {
        Some(events.last())
    } else {
        latest_change(events.drop_last())
    }
}

/// `events` form a burst for a watcher with `patterns` and the debounce
/// delay `debounce_ns`: it opens with a change that counts, and each later
/// event is a change that counts or a quiet period that ends less than the
/// debounce delay after the latest change before it.
pub open spec fn is_burst(patterns: Seq<Seq<char>>, debounce_ns: u128, events: Seq<WatchEvent>) -> bool
    decreases events.len(),
{
    if events.len() == 0 {
        false
    } else if events.len() == 1 {
        counting_change(patterns, events[0])
    } else {
        &&& is_burst(patterns, debounce_ns, events.drop_last())
        &&& (counting_change(patterns, events.last()) || match events.last() {
            WatchEvent::Quiet { at_ns } => elapsed(
                change_time(latest_change(events.drop_last())->0),
                at_ns,
            ) < debounce_ns,
            _ => false,
        })
    }
}

/// A burst asks for nothing while it lasts, and leaves one change pending:
/// the latest, at its time.
pub proof fn lemma_burst_leaves_latest_pending(s: DebounceView, events: Seq<WatchEvent>)
    requires
        is_burst(s.patterns, s.debounce_ns, events),
    ensures
        latest_change(events) is Some,
        counting_change(s.patterns, latest_change(events)->0),
        steps(s, events).0 == (DebounceView {
            debounce_ns: s.debounce_ns,
            pending_since: Some(change_time(latest_change(events)->0)),
            last_file: change_name(latest_change(events)->0),
            patterns: s.patterns,
        }),
        steps(s, events).1.len() == events.len(),
        forall|i: int| 0 <= i < events.len() ==> #[trigger] steps(s, events).1[i] == ActionView::Wait,
    decreases events.len(),
{
    let init = events.drop_last();
    if events.len() == 1 {
        assert(init.len() == 0);
        assert(events.last() == events[0]);
        assert(steps(s, init) == (s, Seq::<ActionView>::empty()));
        assert(latest_change(init) is None);
    } else {
        lemma_burst_leaves_latest_pending(s, init);
        let prev = steps(s, init);
        if !counting_change(s.patterns, events.last()) {
            assert(events.last() is Quiet);
            assert(latest_change(events) == latest_change(init));
        }
        assert forall|i: int| 0 <= i < events.len() implies #[trigger] steps(s, events).1[i]
            == ActionView::Wait by {
            if i < init.len() {
                assert(steps(s, events).1[i] == prev.1[i]);
            }
        }
    }
}

/// A burst of changes, however long, leads to exactly one run: none while
/// the burst lasts, none while the quiet period after its latest change is
/// shorter than the debounce delay, then one for the file of the latest
/// change, and none for a quiet period right after.
pub proof fn lemma_burst_runs_once(
    s: DebounceView,
    events: Seq<WatchEvent>,
    now: u128,
    later: u128,
)
    requires
        is_burst(s.patterns, s.debounce_ns, events),
    ensures
        forall|i: int| 0 <= i < events.len() ==> #[trigger] steps(s, events).1[i] == ActionView::Wait,
        ({
            let latest = latest_change(events)->0;
            let after = steps(s, events).0;
            let r = step(after, WatchEvent::Quiet { at_ns: now });
            &&& elapsed(change_time(latest), now) < s.debounce_ns ==> r == (after, ActionView::Wait)
            &&& elapsed(change_time(latest), now) >= s.debounce_ns ==> {
                &&& r.1 == ActionView::Run(change_name(latest))
                &&& step(r.0, WatchEvent::Quiet { at_ns: later }).1 == ActionView::Wait
            }
        }),
{
    lemma_burst_leaves_latest_pending(s, events);
}

/// The debounce delay and the user's ignore patterns never change: after
/// any events, they are the ones the watcher started with.
pub proof fn lemma_settings_never_change(s: DebounceView, events: Seq<WatchEvent>)
    ensures
        steps(s, events).0.patterns == s.patterns,
        steps(s, events).0.debounce_ns == s.debounce_ns,
    decreases events.len(),
{
    if events.len() > 0 {
        lemma_settings_never_change(s, events.drop_last());
    }
}

/// The user's patterns hold for the watcher's whole life: after any events,
/// a change to a path that one of the patterns given at the start matches
/// changes nothing and asks for nothing, so a quiet period after it asks
/// for no run unless an earlier change is still waiting.
pub proof fn lemma_matched_change_never_counts(
    s: DebounceView,
    events: Seq<WatchEvent>,
    i: int,
    kind: ChangeKind,
    p: PathText,
    at_ns: u128,
    now: u128,
)
    requires
        0 <= i < s.patterns.len(),
        glob_matches(s.patterns[i], tested_text(p)),
    ensures
        ({
            let t = steps(s, events).0;
            let u = step(t, WatchEvent::Changed { kind, first_path: Some(p), at_ns });
            &&& u == (t, ActionView::Wait)
            &&& t.pending_since is None ==> step(u.0, WatchEvent::Quiet { at_ns: now }).1
                == ActionView::Wait
        }),
{
    lemma_settings_never_change(s, events);
    let t = steps(s, events).0;
    assert(glob_matches(t.patterns[i], tested_text(p)));
    assert(ignored_by_patterns(tested_text(p), t.patterns));
}

} // verus!
