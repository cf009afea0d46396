//! Settings from the command line and the project file, and the run history.

use vstd::prelude::*;
use vstd::string::*;
use crate::display::{clock_text, history_entry_spec, timestamp, HistoryEntryView};
use crate::text::{
    decimal, decimal_u128, is_digit, is_space, is_trimmed, join_spec, join_strings,
    lemma_lines_of_join, lemma_split_append_free, lemma_split_join, lemma_split_pieces_free,
    lemma_split_sep_then_free, lemma_trim_ignores_padding, lemma_trim_padded, trim_spec, lines_of, lines_spec, separates, split_spec,
    strip_cr, texts, Separator,
};

verus! {

// ---------------------------------------------------------------------------
// Settings
// ---------------------------------------------------------------------------

/// The settings that a project's `.watchr.toml` may hold.
#[derive(Debug)]
pub struct ProjectConfig {
    pub path: Option<String>,
    pub cmd: Option<String>,
    pub debounce: Option<u64>,
    pub ignore: Vec<String>,
    pub clear: Option<bool>,
    pub once: Option<bool>,
    pub notify: Option<bool>,
}

impl Default for ProjectConfig {
    /// A project file that sets nothing.
    fn default() -> (r: ProjectConfig)
        ensures
            r.path is None,
            r.cmd is None,
            r.debounce is None,
            r.ignore@.len() == 0,
            r.clear is None,
            r.once is None,
            r.notify is None,
    {
        ProjectConfig {
            path: None,
            cmd: None,
            debounce: None,
            ignore: Vec::new(),
            clear: None,
            once: None,
            notify: None,
        }
    }
}

/// The settings given on the command line.
#[derive(Debug)]
pub struct CliOptions {
    pub path: Option<String>,
    pub cmd: Option<String>,
    pub debounce: Option<u64>,
    pub ignore: Option<String>,
    pub clear: bool,
    pub once: bool,
    pub notify: bool,
}

/// The settings the watcher runs with.
#[derive(Debug)]
pub struct Settings {
    /// The folder to watch.
    pub path: String,
    /// The command to run on a change.
    pub cmd: String,
    /// The quiet period to wait for after a change, in milliseconds.
    pub debounce_ms: u64,
    /// The comma-separated ignore patterns.
    pub ignore: String,
    /// Clear the terminal before each run.
    pub clear: bool,
    /// Run the command once on startup.
    pub once: bool,
    /// Send a desktop notification when a run ends.
    pub notify: bool,
}

/// Why no settings could be put together.
#[derive(Debug)]
pub enum SettingsError {
    /// Neither the command line nor the project file names a command.
    MissingCommand,
}

/// The debounce delay used when nothing sets one.
pub const DEFAULT_DEBOUNCE_MS: u64 = 500;

/// The folder to watch: the command line's, else the project file's, else
/// the current folder.
pub open spec fn chosen_path(cli: CliOptions, config: Option<ProjectConfig>) -> Seq<char> {
    match cli.path {
        Some(p) => p@,
        None => match config {
            Some(c) => match c.path {
                Some(p) => p@,
                None => "."@,
            },
            None => "."@,
        },
    }
}

/// The command: the command line's, else the project file's.
pub open spec fn chosen_cmd(cli: CliOptions, config: Option<ProjectConfig>) -> Option<Seq<char>> {
    match cli.cmd {
        Some(c) => Some(c@),
        None => match config {
            Some(c) => match c.cmd {
                Some(x) => Some(x@),
                None => None,
            },
            None => None,
        },
    }
}

/// The debounce delay: the command line's, else the project file's, else
/// the default.
pub open spec fn chosen_debounce(cli: CliOptions, config: Option<ProjectConfig>) -> u64 {
    match cli.debounce {
        Some(d) => d,
        None => match config {
            Some(c) => match c.debounce {
                Some(d) => d,
                None => DEFAULT_DEBOUNCE_MS,
            },
            None => DEFAULT_DEBOUNCE_MS,
        },
    }
}

/// The ignore list: the command line's, else the project file's patterns
/// joined by commas when there are any, else empty.
pub open spec fn chosen_ignore(cli: CliOptions, config: Option<ProjectConfig>) -> Seq<char> {
    match cli.ignore {
        Some(i) => i@,
        None => match config {
            Some(c) => if c.ignore@.len() > 0 {
                join_spec(texts(c.ignore@), ","@)
            } else {
                Seq::<char>::empty()
            },
            None => Seq::<char>::empty(),
        },
    }
}

/// A switch is on when the command line sets it or the project file sets it
/// to `true`.
pub open spec fn switch_on(cli_flag: bool, config_flag: Option<bool>) -> bool {
    cli_flag || config_flag == Some(true)
}

/// The project file's value of a switch, if there is a project file.
pub open spec fn config_switch(config: Option<ProjectConfig>, which: int) -> Option<bool> {
    match config {
        Some(c) => if which == 0 {
            c.clear
        } else if which == 1 {
            c.once
        } else {
            c.notify
        },
        None => None,
    }
}

fn switch_from(cli_flag: bool, config_flag: Option<bool>) -> (r: bool)
    ensures
        r == switch_on(cli_flag, config_flag),
{
    cli_flag || match config_flag {
        Some(b) => b,
        None => false,
    }
}

/// Puts the settings together: each value from the command line when it
/// gives one, else from the project file, else the default; a switch is on
/// when either turns it on. Fails when neither names a command.
pub fn resolve_settings(cli: CliOptions, config: Option<ProjectConfig>) -> (r: Result<
    Settings,
    SettingsError,
>)
    ensures
        r is Err <==> chosen_cmd(cli, config) is None,
        r matches Ok(s) ==> {
            &&& s.path@ == chosen_path(cli, config)
            &&& Some(s.cmd@) == chosen_cmd(cli, config)
            &&& s.debounce_ms == chosen_debounce(cli, config)
            &&& s.ignore@ == chosen_ignore(cli, config)
            &&& s.clear == switch_on(cli.clear, config_switch(config, 0))
            &&& s.once == switch_on(cli.once, config_switch(config, 1))
            &&& s.notify == switch_on(cli.notify, config_switch(config, 2))
        },
{
    let (cfg_path, cfg_cmd, cfg_debounce, cfg_ignore, cfg_clear, cfg_once, cfg_notify) =
        match config {
        Some(c) => (c.path, c.cmd, c.debounce, Some(c.ignore), c.clear, c.once, c.notify),
        None => (None, None, None, None, None, None, None),
    };
    let path = match cli.path {
        Some(p) => p,
        None => match cfg_path {
            Some(p) => p,
            None => String::from_str("."),
        },
    };
    let cmd = match cli.cmd {
        Some(c) => c,
        None => match cfg_cmd {
            Some(c) => c,
            None => {
                return Err(SettingsError::MissingCommand);
            },
        },
    };
    let debounce_ms = match cli.debounce {
        Some(d) => d,
        None => match cfg_debounce {
            Some(d) => d,
            None => DEFAULT_DEBOUNCE_MS,
        },
    };
    let ignore = match cli.ignore {
        Some(i) => i,
        None => match cfg_ignore {
            Some(list) => if list.len() > 0 {
                join_strings(&list, ",")
            } else {
                String::new()
            },
            None => String::new(),
        },
    };
    let clear = switch_from(cli.clear, cfg_clear);
    let once = switch_from(cli.once, cfg_once);
    let notify = switch_from(cli.notify, cfg_notify);
    Ok(Settings { path, cmd, debounce_ms, ignore, clear, once, notify })
}

// ---------------------------------------------------------------------------
// Run history
// ---------------------------------------------------------------------------

/// How many runs the history keeps.
pub const HISTORY_LIMIT: usize = 10;

/// The status word of a run.
pub open spec fn status_word(success: bool) -> Seq<char> {
    if success {
        "success"@
    } else {
        "failed"@
    }
}

/// The history line of a run: `time | command | status | <ms>ms`.
pub open spec fn entry_spec(time: Seq<char>, cmd: Seq<char>, success: bool, duration_ms: u128) -> Seq<
    char,
> {
    time + " | "@ + cmd + " | "@ + status_word(success) + " | "@ + decimal(duration_ms as nat)
        + "ms"@
}

/// The history after a run: its line first, then the earlier lines, at
/// most `HISTORY_LIMIT` in all.
pub open spec fn prepend_spec(lines: Seq<Seq<char>>, entry: Seq<char>) -> Seq<Seq<char>> {
    let all = seq![entry] + lines;
    if all.len() > HISTORY_LIMIT {
        all.take(HISTORY_LIMIT as int)
    } else {
        all
    }
}

/// The history file's text after a run whose line is `entry`, when it held
/// `contents` before.
pub open spec fn updated_spec(contents: Seq<char>, entry: Seq<char>) -> Seq<char> {
    join_spec(prepend_spec(lines_spec(contents), entry), "\n"@)
}

/// The run history: the latest runs, newest first, one line each.
pub struct History;

impl History {
    /// The history line of a run of `cmd` at clock time `time`.
    pub fn entry(time: &str, cmd: &str, success: bool, duration_ms: u128) -> (r: String)
        ensures
            r@ == entry_spec(time@, cmd@, success, duration_ms),
    {
        let mut line = String::from_str(time);
        line.append(" | ");
        line.append(cmd);
        line.append(" | ");
        if success {
            line.append("success");
        } else {
            line.append("failed");
        }
        line.append(" | ");
        let ms = decimal_u128(duration_ms);
        line.append(ms.as_str());
        line.append("ms");
        line
    }

    /// The history line of a run of `cmd` that ends now.
    pub fn entry_now(cmd: &str, success: bool, duration_ms: u128) -> (r: String)
        ensures
            exists|time: Seq<char>|
                clock_text(time) && r@ == #[trigger] entry_spec(time, cmd@, success, duration_ms),
    {
        let time = timestamp();
        let r = History::entry(time.as_str(), cmd, success, duration_ms);
        assert(clock_text(time@) && r@ == entry_spec(time@, cmd@, success, duration_ms));
        r
    }

    /// The lines of the history file's text.
    pub fn lines(contents: &str) -> (r: Vec<String>)
        ensures
            texts(r@) == lines_spec(contents@),
    {
        lines_of(contents)
    }

    /// Puts `entry` before `lines` and keeps the first `HISTORY_LIMIT`.
    pub fn prepend(lines: Vec<String>, entry: String) -> (r: Vec<String>)
        ensures
            texts(r@) == prepend_spec(texts(lines@), entry@),
            r@.len() <= HISTORY_LIMIT,
            r@[0]@ == entry@,
            forall|i: int| 1 <= i < r@.len() ==> #[trigger] r@[i]@ == lines@[i - 1]@,
    {
        let mut r: Vec<String> = Vec::new();
        r.push(entry);
        let mut i: usize = 0;
        while i < lines.len() && r.len() < HISTORY_LIMIT
            invariant
                i <= lines.len(),
                r@.len() == i + 1,
                r@.len() <= HISTORY_LIMIT,
                texts(r@) == (seq![entry@] + texts(lines@)).take(i + 1),
            decreases lines.len() - i,
        {
            let ghost before = texts(r@);
            let line = lines[i].clone();
            r.push(line);
            assert(texts(r@) =~= (seq![entry@] + texts(lines@)).take(i + 2));
            i += 1;
        }
        assert(texts(r@) =~= prepend_spec(texts(lines@), entry@));
        assert(texts(r@)[0] == r@[0]@);
        assert forall|i: int| 1 <= i < r@.len() implies #[trigger] r@[i]@ == lines@[i - 1]@ by {
            assert(texts(r@)[i] == r@[i]@);
            assert(texts(lines@)[i - 1] == lines@[i - 1]@);
        }
        r
    }

    /// The history file's text for `lines`.
    pub fn render(lines: &Vec<String>) -> (r: String)
        ensures
            r@ == join_spec(texts(lines@), "\n"@),
    {
        join_strings(lines, "\n")
    }

    /// The history file's text after a run whose line is `entry`, when it
    /// held `contents` before.
    pub fn updated(contents: &str, entry: &str) -> (r: String)
        ensures
            r@ == updated_spec(contents@, entry@),
    {
        let lines = History::lines(contents);
        let all = History::prepend(lines, String::from_str(entry));
        History::render(&all)
    }
}

/// No line of a text holds a line break.
pub proof fn lemma_lines_have_no_break(s: Seq<char>)
    ensures
        forall|i: int, j: int|
            0 <= i < lines_spec(s).len() && 0 <= j < lines_spec(s)[i].len() ==> #[trigger] lines_spec(
                s,
            )[i][j] != '\n',
{
    let sep = Separator::Char('\n');
    lemma_split_pieces_free(s, sep);
    let parts = split_spec(s, sep);
    assert forall|i: int, j: int|
        0 <= i < lines_spec(s).len() && 0 <= j < lines_spec(s)[i].len() implies #[trigger] lines_spec(
        s,
    )[i][j] != '\n' by {
        assert(lines_spec(s)[i][j] == parts[i][j]);
        assert(!separates(sep, parts[i][j]));
    }
}

/// Reading the history back after a run gives the run's line first, then
/// the earlier lines, at most `HISTORY_LIMIT` in all; this holds whenever
/// the run's line holds no line break, no kept line but the last ends in
/// `\r`, and the last kept line is not empty.
pub proof fn lemma_history_reads_back(contents: Seq<char>, entry: Seq<char>)
    requires
        forall|j: int| 0 <= j < entry.len() ==> #[trigger] entry[j] != '\n',
        forall|i: int|
            0 <= i < prepend_spec(lines_spec(contents), entry).len() - 1 ==> #[trigger] strip_cr(
                prepend_spec(lines_spec(contents), entry)[i],
            ) == prepend_spec(lines_spec(contents), entry)[i],
        prepend_spec(lines_spec(contents), entry).last().len() > 0,
    ensures
        lines_spec(updated_spec(contents, entry)) == prepend_spec(lines_spec(contents), entry),
        lines_spec(updated_spec(contents, entry)).len() <= HISTORY_LIMIT,
        lines_spec(updated_spec(contents, entry))[0] == entry,
{
    let old_lines = lines_spec(contents);
    let p = prepend_spec(old_lines, entry);
    lemma_lines_have_no_break(contents);
    assert forall|i: int, j: int| 0 <= i < p.len() && 0 <= j < p[i].len() implies #[trigger] p[i][j]
        != '\n' by {
        if i > 0 {
            assert(p[i] == old_lines[i - 1]);
        }
    }
    assert("\n"@ == seq!['\n']) by {
        reveal_strlit("\n");
    }
    lemma_lines_of_join(p);
}

/// The decimal digits of a number are digits.
pub proof fn lemma_decimal_digits(n: nat)
    ensures
        decimal(n).len() > 0,
        forall|j: int| 0 <= j < decimal(n).len() ==> is_digit(#[trigger] decimal(n)[j]),
    decreases n,
{
    if n >= 10 {
        lemma_decimal_digits(n / 10);
        let d = decimal(n / 10);
        assert forall|j: int| 0 <= j < decimal(n).len() implies is_digit(#[trigger] decimal(n)[j]) by {
            if j < d.len() {
                assert(decimal(n)[j] == d[j]);
            }
        }
    }
}

/// `s` holds no `c`.
pub open spec fn free_of(s: Seq<char>, c: char) -> bool {
    forall|j: int| 0 <= j < s.len() ==> #[trigger] s[j] != c
}

proof fn lemma_free_of_concat(a: Seq<char>, b: Seq<char>, c: char)
    requires
        free_of(a, c),
        free_of(b, c),
    ensures
        free_of(a + b, c),
{
    assert forall|j: int| 0 <= j < (a + b).len() implies #[trigger] (a + b)[j] != c by {
        if j < a.len() {
            assert((a + b)[j] == a[j]);
        } else {
            assert((a + b)[j] == b[j - a.len()]);
        }
    }
}

/// A history line is a single line: when the clock time and the command
/// hold no line break, neither does the line; it is not empty and does not
/// end in `\r`.
pub proof fn lemma_history_entry_is_one_line(
    time: Seq<char>,
    cmd: Seq<char>,
    success: bool,
    duration_ms: u128,
)
    requires
        free_of(time, '\n'),
        free_of(cmd, '\n'),
    ensures
        entry_spec(time, cmd, success, duration_ms).len() > 0,
        free_of(entry_spec(time, cmd, success, duration_ms), '\n'),
        strip_cr(entry_spec(time, cmd, success, duration_ms)) == entry_spec(
            time,
            cmd,
            success,
            duration_ms,
        ),
{
    reveal_strlit(" | ");
    reveal_strlit("ms");
    reveal_strlit("success");
    reveal_strlit("failed");
    let bar = " | "@;
    let st = status_word(success);
    let d = decimal(duration_ms as nat);
    lemma_decimal_digits(duration_ms as nat);
    assert(free_of(bar, '\n'));
    assert(free_of(st, '\n'));
    assert(free_of(d, '\n'));
    assert(free_of("ms"@, '\n'));
    lemma_free_of_concat(time, bar, '\n');
    lemma_free_of_concat(time + bar, cmd, '\n');
    lemma_free_of_concat(time + bar + cmd, bar, '\n');
    lemma_free_of_concat(time + bar + cmd + bar, st, '\n');
    lemma_free_of_concat(time + bar + cmd + bar + st, bar, '\n');
    lemma_free_of_concat(time + bar + cmd + bar + st + bar, d, '\n');
    lemma_free_of_concat(time + bar + cmd + bar + st + bar + d, "ms"@, '\n');
    let e = entry_spec(time, cmd, success, duration_ms);
    assert(e.last() == 's');
}

/// A history line reads back as the fields it was written with, when the
/// clock time and the command hold no `|` and have no white space at either
/// end.
pub proof fn lemma_history_entry_reads_back(
    time: Seq<char>,
    cmd: Seq<char>,
    success: bool,
    duration_ms: u128,
)
    requires
        forall|j: int| 0 <= j < time.len() ==> #[trigger] time[j] != '|',
        forall|j: int| 0 <= j < cmd.len() ==> #[trigger] cmd[j] != '|',
        is_trimmed(time),
        is_trimmed(cmd),
    ensures
        history_entry_spec(entry_spec(time, cmd, success, duration_ms)) == Some(
            HistoryEntryView {
                time,
                command: cmd,
                status: status_word(success),
                duration: decimal(duration_ms as nat) + "ms"@,
            },
        ),
{
    reveal_strlit(" | ");
    reveal_strlit("ms");
    reveal_strlit("success");
    reveal_strlit("failed");
    let sep = Separator::Char('|');
    let sp = seq![' '];
    let st = status_word(success);
    let d = decimal(duration_ms as nat) + "ms"@;
    lemma_decimal_digits(duration_ms as nat);
    let a0 = time + sp;
    let a1 = sp + cmd + sp;
    let a2 = sp + st + sp;
    let a3 = sp + d;
    let line = entry_spec(time, cmd, success, duration_ms);
    assert(" | "@ == seq![' ', '|', ' ']);
    assert(line =~= a0 + seq!['|'] + a1 + seq!['|'] + a2 + seq!['|'] + a3);
    assert(is_space(' '));
    assert(forall|j: int| 0 <= j < sp.len() ==> is_space(#[trigger] sp[j]));
    assert(forall|j: int| 0 <= j < Seq::<char>::empty().len() ==> is_space(
        #[trigger] Seq::<char>::empty()[j],
    ));
    // No piece holds a `|`.
    assert forall|j: int| 0 <= j < a0.len() implies !separates(sep, #[trigger] a0[j]) by {
        if j < time.len() {
            assert(a0[j] == time[j]);
        }
    }
    assert forall|j: int| 0 <= j < a1.len() implies !separates(sep, #[trigger] a1[j]) by {
        if 1 <= j < 1 + cmd.len() {
            assert(a1[j] == cmd[j - 1]);
        }
    }
    assert forall|j: int| 0 <= j < a2.len() implies !separates(sep, #[trigger] a2[j]) by {
        if 1 <= j < 1 + st.len() {
            assert(a2[j] == st[j - 1]);
        }
    }
    assert forall|j: int| 0 <= j < a3.len() implies !separates(sep, #[trigger] a3[j]) by {
        if 1 <= j < 1 + decimal(duration_ms as nat).len() {
            assert(a3[j] == decimal(duration_ms as nat)[j - 1]);
        }
    }
    // The pieces.
    lemma_split_append_free(Seq::<char>::empty(), a0, sep);
    assert(Seq::<char>::empty() + a0 == a0);
    assert(split_spec(Seq::<char>::empty(), sep) == seq![Seq::<char>::empty()]);
    assert(split_spec(a0, sep) == seq![a0]);
    lemma_split_sep_then_free(a0, '|', a1, sep);
    lemma_split_sep_then_free(a0 + seq!['|'] + a1, '|', a2, sep);
    lemma_split_sep_then_free(a0 + seq!['|'] + a1 + seq!['|'] + a2, '|', a3, sep);
    let parts = split_spec(line, sep);
    assert(parts =~= seq![a0, a1, a2, a3]);
    // The trimmed fields.
    lemma_trim_padded(Seq::<char>::empty(), time, sp);
    assert(Seq::<char>::empty() + time + sp == a0);
    lemma_trim_padded(sp, cmd, sp);
    lemma_trim_padded(sp, st, sp);
    assert(is_trimmed(st));
    lemma_trim_padded(sp, d, Seq::<char>::empty());
    assert(sp + d + Seq::<char>::empty() == a3);
    assert(d.len() > 0 && !is_space(d[0]) && !is_space(d.last()));
}

/// A line in the history format, `time | cmd | status | <duration>ms`, with
/// any texts in the four places.
pub open spec fn history_line_spec(
    time: Seq<char>,
    cmd: Seq<char>,
    status: Seq<char>,
    duration: Seq<char>,
) -> Seq<char> {
    time + " | "@ + cmd + " | "@ + status + " | "@ + duration + "ms"@
}

/// Any line in the history format reads back as its four fields, each
/// trimmed, when none of them holds a `|`.
pub proof fn lemma_history_line_reads_back(
    time: Seq<char>,
    cmd: Seq<char>,
    status: Seq<char>,
    duration: Seq<char>,
)
    requires
        free_of(time, '|'),
        free_of(cmd, '|'),
        free_of(status, '|'),
        free_of(duration, '|'),
    ensures
        history_entry_spec(history_line_spec(time, cmd, status, duration)) == Some(
            HistoryEntryView {
                time: trim_spec(time),
                command: trim_spec(cmd),
                status: trim_spec(status),
                duration: trim_spec(duration + "ms"@),
            },
        ),
{
    reveal_strlit(" | ");
    reveal_strlit("ms");
    let sep = Separator::Char('|');
    let sp = seq![' '];
    let e = Seq::<char>::empty();
    let d = duration + "ms"@;
    assert(free_of("ms"@, '|'));
    lemma_free_of_concat(duration, "ms"@, '|');
    let a0 = time + sp;
    let a1 = sp + cmd + sp;
    let a2 = sp + status + sp;
    let a3 = sp + d;
    let line = history_line_spec(time, cmd, status, duration);
    assert(" | "@ == seq![' ', '|', ' ']);
    assert(line =~= a0 + seq!['|'] + a1 + seq!['|'] + a2 + seq!['|'] + a3);
    assert(is_space(' '));
    assert(forall|j: int| 0 <= j < sp.len() ==> is_space(#[trigger] sp[j]));
    assert(forall|j: int| 0 <= j < e.len() ==> is_space(#[trigger] e[j]));
    assert(free_of(sp, '|'));
    lemma_free_of_concat(time, sp, '|');
    lemma_free_of_concat(sp, cmd, '|');
    lemma_free_of_concat(sp + cmd, sp, '|');
    lemma_free_of_concat(sp, status, '|');
    lemma_free_of_concat(sp + status, sp, '|');
    lemma_free_of_concat(sp, d, '|');
    assert(forall|j: int| 0 <= j < a0.len() ==> !separates(sep, #[trigger] a0[j]));
    assert(forall|j: int| 0 <= j < a1.len() ==> !separates(sep, #[trigger] a1[j]));
    assert(forall|j: int| 0 <= j < a2.len() ==> !separates(sep, #[trigger] a2[j]));
    assert(forall|j: int| 0 <= j < a3.len() ==> !separates(sep, #[trigger] a3[j]));
    lemma_split_append_free(e, a0, sep);
    assert(e + a0 == a0);
    assert(split_spec(e, sep) == seq![e]);
    assert(split_spec(a0, sep) == seq![a0]);
    lemma_split_sep_then_free(a0, '|', a1, sep);
    lemma_split_sep_then_free(a0 + seq!['|'] + a1, '|', a2, sep);
    lemma_split_sep_then_free(a0 + seq!['|'] + a1 + seq!['|'] + a2, '|', a3, sep);
    assert(split_spec(line, sep) =~= seq![a0, a1, a2, a3]);
    lemma_trim_ignores_padding(e, time, sp);
    assert(e + time + sp == a0);
    lemma_trim_ignores_padding(sp, cmd, sp);
    lemma_trim_ignores_padding(sp, status, sp);
    lemma_trim_ignores_padding(sp, d, e);
    assert(sp + d + e == a3);
}

/// After a run whose history line holds no line break, the history file
/// holds at most `HISTORY_LIMIT` lines, whatever it held before.
pub proof fn lemma_history_at_most_limit(contents: Seq<char>, entry: Seq<char>)
    requires
        free_of(entry, '\n'),
    ensures
        lines_spec(updated_spec(contents, entry)).len() <= HISTORY_LIMIT,
{
    let sep = Separator::Char('\n');
    let old_lines = lines_spec(contents);
    let p = prepend_spec(old_lines, entry);
    lemma_lines_have_no_break(contents);
    assert forall|i: int, j: int| 0 <= i < p.len() && 0 <= j < p[i].len() implies !separates(
        sep,
        #[trigger] p[i][j],
    ) by {
        if i > 0 {
            assert(p[i] == old_lines[i - 1]);
        }
    }
    assert("\n"@ == seq!['\n']) by {
        reveal_strlit("\n");
    }
    lemma_split_join(p, '\n', sep);
}

/// The command comes from the command line when it names one, else from
/// the project file; the settings fail for want of a command only when
/// neither names one.
pub proof fn lemma_command_precedence(cli: CliOptions, config: Option<ProjectConfig>)
    ensures
        cli.cmd is Some ==> chosen_cmd(cli, config) == Some(cli.cmd->0@),
        cli.cmd is None && config is Some && config->0.cmd is Some ==> chosen_cmd(cli, config)
            == Some(config->0.cmd->0@),
        chosen_cmd(cli, config) is None <==> (cli.cmd is None && (config is None
            || config->0.cmd is None)),
{
}

/// The folder and the debounce delay come from the command line when it
/// gives them, else from the project file, else they are `.` and 500 ms.
pub proof fn lemma_path_and_debounce_precedence(cli: CliOptions, config: Option<ProjectConfig>)
    ensures
        cli.path is Some ==> chosen_path(cli, config) == cli.path->0@,
        cli.path is None && config is Some && config->0.path is Some ==> chosen_path(cli, config)
            == config->0.path->0@,
        cli.path is None && (config is None || config->0.path is None) ==> chosen_path(
            cli,
            config,
        ) == "."@,
        cli.debounce is Some ==> chosen_debounce(cli, config) == cli.debounce->0,
        cli.debounce is None && config is Some && config->0.debounce is Some ==> chosen_debounce(
            cli,
            config,
        ) == config->0.debounce->0,
        cli.debounce is None && (config is None || config->0.debounce is None) ==> chosen_debounce(
            cli,
            config,
        ) == 500,
{
}

} // verus!
