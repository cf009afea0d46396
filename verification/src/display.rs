//! What the terminal shows that takes more than printing: the clock time of
//! an event, and the fields of a run-history line.

use vstd::prelude::*;
use vstd::string::*;
use crate::text::{
    chars_of, is_digit, split_chars, split_spec, string_of, trim_chars, trim_spec, Separator,
};

verus! {

/// The value of the decimal digit `c`.
pub open spec fn digit_value(c: char) -> int {
    (c as int) - ('0' as int)
}

/// The value of the two digits `a` and `b`.
pub open spec fn two_digit_value(a: char, b: char) -> int {
    10 * digit_value(a) + digit_value(b)
}

/// `t` reads like `14:23:05`: hour (at most 23), colon, minute (at most
/// 59), colon, second (at most 60, for a leap second), each as two digits.
pub open spec fn clock_text(t: Seq<char>) -> bool {
    &&& t.len() == 8
    &&& t[2] == ':'
    &&& t[5] == ':'
    &&& is_digit(t[0]) && is_digit(t[1])
    &&& is_digit(t[3]) && is_digit(t[4])
    &&& is_digit(t[6]) && is_digit(t[7])
    &&& two_digit_value(t[0], t[1]) <= 23
    &&& two_digit_value(t[3], t[4]) <= 59
    &&& two_digit_value(t[6], t[7]) <= 60
}

/// The local clock time, from `chrono::Local::now()` formatted with
/// `"%H:%M:%S"`. Claimed: the text has the shape of `clock_text` (chrono
/// writes each of hour, minute and second as two zero-padded digits, and a
/// time of day has hour 0 to 23, minute 0 to 59, second 0 to 60); which
/// time it shows is not stated, as it depends on the clock.
#[verifier::external_body]
pub(crate) fn timestamp() -> (r: String)
    ensures
        clock_text(r@),
{
    chrono::Local::now().format("%H:%M:%S").to_string()
}

/// The four fields of a run-history line.
#[derive(Debug)]
pub struct HistoryEntry {
    pub time: String,
    pub command: String,
    pub status: String,
    pub duration: String,
}

/// The four fields of a run-history line, as sequences.
pub struct HistoryEntryView {
    pub time: Seq<char>,
    pub command: Seq<char>,
    pub status: Seq<char>,
    pub duration: Seq<char>,
}

impl View for HistoryEntry {
    type V = HistoryEntryView;

    open spec fn view(&self) -> HistoryEntryView {
        HistoryEntryView {
            time: self.time@,
            command: self.command@,
            status: self.status@,
            duration: self.duration@,
        }
    }
}

/// The fields of the history line `line`: the first four pieces between
/// `|`, each trimmed; `None` when there are fewer than four.
pub open spec fn history_entry_spec(line: Seq<char>) -> Option<HistoryEntryView> {
    let parts = split_spec(line, Separator::Char('|'));
    if parts.len() < 4 {
        None
    } else {
        Some(
            HistoryEntryView {
                time: trim_spec(parts[0]),
                command: trim_spec(parts[1]),
                status: trim_spec(parts[2]),
                duration: trim_spec(parts[3]),
            },
        )
    }
}

impl HistoryEntry {
    /// Whether the run succeeded: its status reads `success`.
    pub fn succeeded(&self) -> (r: bool)
        ensures
            r == (self.status@ == "success"@),
    {
        self.status == String::from_str("success")
    }
}

/// Reads a run-history line such as `14:23:05 | cargo build | success |
/// 1243ms` into its fields; `None` when it has fewer than four fields, in
/// which case the line is shown as it is.
pub fn parse_history_entry(line: &str) -> (r: Option<HistoryEntry>)
    ensures
        match r {
            None => history_entry_spec(line@) is None,
            Some(e) => history_entry_spec(line@) == Some(e@),
        },
{
    let v = chars_of(line);
    let parts = split_chars(&v, Separator::Char('|'));
    if parts.len() < 4 {
        return None;
    }
    let time = string_of(&trim_chars(&parts[0]));
    let command = string_of(&trim_chars(&parts[1]));
    let status = string_of(&trim_chars(&parts[2]));
    let duration = string_of(&trim_chars(&parts[3]));
    assert(parts@[0]@ == split_spec(line@, Separator::Char('|'))[0]);
    assert(parts@[1]@ == split_spec(line@, Separator::Char('|'))[1]);
    assert(parts@[2]@ == split_spec(line@, Separator::Char('|'))[2]);
    assert(parts@[3]@ == split_spec(line@, Separator::Char('|'))[3]);
    Some(HistoryEntry { time, command, status, duration })
}

/// The clock time in brackets, as a change is shown: `[14:23:05]`.
pub fn bracketed_timestamp() -> (r: String)
    ensures
        exists|t: Seq<char>| clock_text(t) && r@ == #[trigger] ("["@ + t + "]"@),
{
    let t = timestamp();
    let mut r = String::from_str("[");
    r.append(t.as_str());
    r.append("]");
    assert(clock_text(t@) && r@ == ("["@ + t@ + "]"@));
    r
}

/// The AppleScript that shows a desktop notification on macOS:
/// `display notification "<body>" with title "<title>"`.
pub fn notification_script(title: &str, body: &str) -> (r: String)
    ensures
        r@ == "display notification \""@ + body@ + "\" with title \""@ + title@ + "\""@,
{
    let mut r = String::from_str("display notification \"");
    r.append(body);
    r.append("\" with title \"");
    r.append(title);
    r.append("\"");
    r
}

} // verus!
