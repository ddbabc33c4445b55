use vstd::prelude::*;
use std::collections::HashSet;
use chrono::{Datelike, NaiveDateTime, Timelike};
use crate::text::{push_str, string_views};

verus! {

/// The severity of a log line.
#[derive(Debug, Clone, Copy, PartialEq, Eq, Hash)]
pub enum LogLevel {
    Trace,
    Debug,
    Info,
    Warn,
    Error,
}

/// The level a log line names: `DEBUG`, `INFO`, `WARN` and `ERROR` name theirs, anything
/// else is taken as `TRACE`.
pub open spec fn level_named(name: Seq<char>) -> LogLevel {
    if name == "DEBUG"@ {
        LogLevel::Debug
    } else if name == "INFO"@ {
        LogLevel::Info
    } else if name == "WARN"@ {
        LogLevel::Warn
    } else if name == "ERROR"@ {
        LogLevel::Error
    } else {
        LogLevel::Trace
    }
}

/// The name a level is shown by.
pub open spec fn level_text(level: LogLevel) -> Seq<char> {
    match level {
        LogLevel::Trace => "TRACE"@,
        LogLevel::Debug => "DEBUG"@,
        LogLevel::Info => "INFO"@,
        LogLevel::Warn => "WARN"@,
        LogLevel::Error => "ERROR"@,
    }
}

/// Naming a level and reading the name back gives the same level.
pub proof fn lemma_level_name_round_trip(level: LogLevel)
    ensures
        level_named(level_text(level)) == level,
{
    reveal_strlit("TRACE");
    reveal_strlit("DEBUG");
    reveal_strlit("INFO");
    reveal_strlit("WARN");
    reveal_strlit("ERROR");
    // Names of one length differ in their first letter.
    assert("TRACE"@.len() == 5 && "DEBUG"@.len() == 5 && "ERROR"@.len() == 5);
    assert("INFO"@.len() == 4 && "WARN"@.len() == 4);
    assert("TRACE"@[0] == 'T' && "DEBUG"@[0] == 'D' && "ERROR"@[0] == 'E');
    assert("INFO"@[0] == 'I' && "WARN"@[0] == 'W');
}

impl LogLevel {
    /// The level a log line names.
    pub fn from_name(name: &str) -> (level: LogLevel)
        ensures
            level == level_named(name@),
    {
        let n = name.to_owned();
        if n == "DEBUG".to_owned() {
            LogLevel::Debug
        } else if n == "INFO".to_owned() {
            LogLevel::Info
        } else if n == "WARN".to_owned() {
            LogLevel::Warn
        } else if n == "ERROR".to_owned() {
            LogLevel::Error
        } else {
            LogLevel::Trace
        }
    }

    /// The name the level is shown by, in capitals.
    pub fn name(&self) -> (s: String)
        ensures
            s@ == level_text(*self),
    {
        match self {
            LogLevel::Trace => "TRACE".to_owned(),
            LogLevel::Debug => "DEBUG".to_owned(),
            LogLevel::Info => "INFO".to_owned(),
            LogLevel::Warn => "WARN".to_owned(),
            LogLevel::Error => "ERROR".to_owned(),
        }
    }
}

/// A calendar date and time of day, in UTC.
#[derive(Debug, Clone, Copy, PartialEq, Eq, Hash)]
pub struct Timestamp {
    pub year: i32,
    pub month: u32,
    pub day: u32,
    pub hour: u32,
    pub minute: u32,
    pub second: u32,
    pub nanosecond: u32,
}

/// The date and time that `chrono::NaiveDateTime::parse_from_str` reads from the text in
/// the given format, if it reads one.
pub uninterp spec fn parsed_timestamp(text: Seq<char>, format: Seq<char>) -> Option<Timestamp>;

/// The texts of the named groups, in the order of `groups`, of the first match of the
/// regular expression `pattern` in `text`, as the `regex` crate finds it (`None` for a
/// group that takes no part in the match); `None` when the pattern does not compile or
/// does not match.
pub uninterp spec fn regex_captures(pattern: Seq<char>, text: Seq<char>, groups: Seq<Seq<char>>) -> Option<Seq<Option<Seq<char>>>>;

/// The views of optional strings.
pub open spec fn optional_views(v: Seq<Option<String>>) -> Seq<Option<Seq<char>>> {
    v.map_values(|o: Option<String>| match o {
        Some(t) => Some(t@),
        None => None,
    })
}

/// Calls `chrono::NaiveDateTime::parse_from_str` and takes the date and time fields of what
/// it reads (through `Datelike` and `Timelike`); `None` where it reports an error. The
/// contract only names the result.
#[verifier::external_body]
fn parse_timestamp(text: &str, format: &str) -> (t: Option<Timestamp>)
    ensures
        t == parsed_timestamp(text@, format@),
{
    let dt = NaiveDateTime::parse_from_str(text, format).ok()?;
    Some(Timestamp {
        year: dt.year(),
        month: dt.month(),
        day: dt.day(),
        hour: dt.hour(),
        minute: dt.minute(),
        second: dt.second(),
        nanosecond: dt.nanosecond(),
    })
}

/// Calls `regex::Regex::new` on the pattern and `Regex::captures` on the text, and takes
/// the text of each named group of the match (through `Captures::name`), in the order of
/// `groups`. `None` where the pattern does not compile or does not match. Beyond naming the
/// result, the contract states only that one entry comes per group.
#[verifier::external_body]
fn capture_groups(pattern: &str, text: &str, groups: &Vec<String>) -> (r: Option<Vec<Option<String>>>)
    ensures
        r matches Some(v) ==> v@.len() == groups@.len(),
        match r {
            Some(v) => regex_captures(pattern@, text@, string_views(groups@)) == Some(optional_views(v@)),
            None => regex_captures(pattern@, text@, string_views(groups@)) is None,
        },
{
    let caps = regex::Regex::new(pattern).ok()?.captures(text)?;
    Some(groups.iter().map(|g| caps.name(g).map(|m| m.as_str().to_owned())).collect())
}

/// One line of a log file.
#[derive(Debug, Clone)]
pub struct LogEntry {
    pub timestamp: Timestamp,
    pub level: LogLevel,
    pub target: String,
    pub message: String,
    pub module: String,
    pub file: String,
}

/// The pattern of a log line: a timestamp with milliseconds, a level in capitals, the
/// module, then `file:line: message`.
pub open spec fn log_pattern() -> Seq<char> {
    "(?P<timestamp>\\d{4}-\\d{2}-\\d{2} \\d{2}:\\d{2}:\\d{2}\\.\\d{3}) (?P<level>[A-Z]+) (?P<module>[^\\s]+): (?P<file>[^:]+):(?P<line>\\d+): (?P<message>.+)"@
}

/// The groups of the log line pattern that an entry is made of.
pub open spec fn log_groups() -> Seq<Seq<char>> {
    seq!["timestamp"@, "level"@, "module"@, "file"@, "line"@, "message"@]
}

/// The format of a log line's timestamp.
pub open spec fn timestamp_format() -> Seq<char> {
    "%Y-%m-%d %H:%M:%S%.3f"@
}

/// The entry a log line holds, if the line matches the pattern and its timestamp reads:
/// the groups give the fields, the file is shown with its line number after a colon, and
/// the module is also the entry's target.
pub open spec fn log_entry_of(line: Seq<char>) -> Option<(Timestamp, LogLevel, Seq<char>, Seq<char>, Seq<char>)> {
    match regex_captures(log_pattern(), line, log_groups()) {
        Some(g) => entry_of_captures(g),
        None => None,
    }
}

/// The entry that the captured groups of a log line (timestamp, level, module, file, line
/// number, message) make, when all six are present and the timestamp reads.
pub open spec fn entry_of_captures(g: Seq<Option<Seq<char>>>) -> Option<(Timestamp, LogLevel, Seq<char>, Seq<char>, Seq<char>)> {
    if g.len() == 6 && g[0] is Some && g[1] is Some && g[2] is Some && g[3] is Some && g[4] is Some && g[5] is Some {
        match parsed_timestamp(g[0]->0, timestamp_format()) {
            Some(t) => Some(entry_of_parts(t, g[1]->0, g[2]->0, g[3]->0, g[4]->0, g[5]->0)),
            None => None,
        }
    } else {
        None
    }
}

/// The fields of the entry made of a read timestamp and the other captured texts: the
/// level named, the module, the file with its line number after a colon, the message.
pub open spec fn entry_of_parts(t: Timestamp, level: Seq<char>, module: Seq<char>, file: Seq<char>, line: Seq<char>, message: Seq<char>) -> (Timestamp, LogLevel, Seq<char>, Seq<char>, Seq<char>) {
    (t, level_named(level), module, file + ":"@ + line, message)
}

/// The fields of an entry: timestamp, level, module, file and message.
pub open spec fn entry_fields(e: LogEntry) -> (Timestamp, LogLevel, Seq<char>, Seq<char>, Seq<char>) {
    (e.timestamp, e.level, e.module@, e.file@, e.message@)
}

/// The entry of a log line, when the line is one; `None` otherwise. This is where the
/// pattern and the timestamp format are handed to their parsers.
pub fn try_log_entry(line: &str) -> (e: Option<LogEntry>)
    ensures
        match log_entry_of(line@) {
            Some(f) => e matches Some(e) && entry_fields(e) == f && e.target@ == e.module@,
            None => e is None,
        },
{
    let pattern = "(?P<timestamp>\\d{4}-\\d{2}-\\d{2} \\d{2}:\\d{2}:\\d{2}\\.\\d{3}) (?P<level>[A-Z]+) (?P<module>[^\\s]+): (?P<file>[^:]+):(?P<line>\\d+): (?P<message>.+)";
    let mut groups: Vec<String> = Vec::new();
    groups.push("timestamp".to_owned());
    groups.push("level".to_owned());
    groups.push("module".to_owned());
    groups.push("file".to_owned());
    groups.push("line".to_owned());
    groups.push("message".to_owned());
    proof {
        assert(string_views(groups@) =~= log_groups());
    }
    let caps = match capture_groups(pattern, line, &groups) {
        Some(c) => c,
        None => return None,
    };
    log_entry_from_captures(&caps)
}

/// The entry made of the captured groups of a log line (in the order of `log_groups`):
/// the timestamp is read in the log format, and `None` comes when a group is missing or
/// the timestamp does not read.
pub fn log_entry_from_captures(caps: &Vec<Option<String>>) -> (e: Option<LogEntry>)
    ensures
        match entry_of_captures(optional_views(caps@)) {
            Some(f) => e matches Some(e) && entry_fields(e) == f && e.target@ == e.module@,
            None => e is None,
        },
{
    let ghost g = optional_views(caps@);
    if caps.len() != 6 {
        return None;
    }
    let (ts, lv, md, fl, ln, msg) = match (&caps[0], &caps[1], &caps[2], &caps[3], &caps[4], &caps[5]) {
        (Some(ts), Some(lv), Some(md), Some(fl), Some(ln), Some(msg)) => (ts, lv, md, fl, ln, msg),
        _ => {
            assert(!(g[0] is Some && g[1] is Some && g[2] is Some && g[3] is Some && g[4] is Some && g[5] is Some));
            return None;
        },
    };
    assert(g[0] == Some(ts@) && g[1] == Some(lv@) && g[2] == Some(md@));
    assert(g[3] == Some(fl@) && g[4] == Some(ln@) && g[5] == Some(msg@));
    let timestamp = match parse_timestamp(ts.as_str(), "%Y-%m-%d %H:%M:%S%.3f") {
        Some(t) => t,
        None => return None,
    };
    Some(log_entry_from_parts(timestamp, lv.as_str(), md.as_str(), fl.as_str(), ln.as_str(), msg.as_str()))
}

/// The entry made of a read timestamp and the other texts of a log line.
pub fn log_entry_from_parts(timestamp: Timestamp, level: &str, module: &str, file: &str, line: &str, message: &str) -> (e: LogEntry)
    ensures
        entry_fields(e) == entry_of_parts(timestamp, level@, module@, file@, line@, message@),
        e.target@ == e.module@,
{
    let level = LogLevel::from_name(level);
    let mut f = file.to_owned();
    push_str(&mut f, ":");
    push_str(&mut f, line);
    LogEntry { timestamp, level, target: module.to_owned(), message: message.to_owned(), module: module.to_owned(), file: f }
}

impl LogEntry {
    /// The entry of a log line that matches the pattern and whose timestamp reads.
    pub fn from_string(s: &str) -> (e: LogEntry)
        requires
            log_entry_of(s@) is Some,
        ensures
            entry_fields(e) == log_entry_of(s@)->0,
            e.target@ == e.module@,
    {
        try_log_entry(s).unwrap()
    }
}

/// The selection after a click on a row: a selected row leaves it, another row joins it;
/// without a click it stays as it was.
pub open spec fn toggled(selection: Set<usize>, row: usize, clicked: bool) -> Set<usize> {
    if !clicked {
        selection
    } else if selection.contains(row) {
        selection.remove(row)
    } else {
        selection.insert(row)
    }
}

/// The selection after clicks on each of `rows`, in order.
pub open spec fn toggle_rows(selection: Set<usize>, rows: Seq<usize>) -> Set<usize>
    decreases rows.len(),
{
    if rows.len() == 0 {
        selection
    } else {
        toggled(toggle_rows(selection, rows.drop_last()), rows.last(), true)
    }
}

/// Clicking a row twice leaves the selection as it was.
pub proof fn lemma_toggle_twice(selection: Set<usize>, row: usize)
    ensures
        toggled(toggled(selection, row, true), row, true) == selection,
{
    if selection.contains(row) {
        assert(selection.remove(row).insert(row) =~= selection);
    } else {
        assert(selection.insert(row).remove(row) =~= selection);
    }
}

/// A click on a row flips whether it is selected and leaves every other row as it was;
/// without a click nothing changes.
pub proof fn lemma_click_flips_row(selection: Set<usize>, row: usize, other: usize)
    ensures
        toggled(selection, row, true).contains(row) == !selection.contains(row),
        other != row ==> toggled(selection, row, true).contains(other) == selection.contains(other),
        toggled(selection, row, false) == selection,
{
}

/// The entry made of a line's parts keeps its timestamp, module and message as they are,
/// has the level the level's name reads as, and names the file followed by a colon and
/// the line number.
pub proof fn lemma_entry_parts(t: Timestamp, level: LogLevel, module: Seq<char>, file: Seq<char>, line: Seq<char>, message: Seq<char>)
    ensures
        entry_of_parts(t, level_text(level), module, file, line, message).0 == t,
        entry_of_parts(t, level_text(level), module, file, line, message).1 == level,
        entry_of_parts(t, level_text(level), module, file, line, message).2 == module,
        entry_of_parts(t, level_text(level), module, file, line, message).4 == message,
        entry_of_parts(t, level_text(level), module, file, line, message).3.len() == file.len() + 1 + line.len(),
        entry_of_parts(t, level_text(level), module, file, line, message).3.take(file.len() as int) == file,
        entry_of_parts(t, level_text(level), module, file, line, message).3[file.len() as int] == ':',
        entry_of_parts(t, level_text(level), module, file, line, message).3.skip(file.len() + 1int) == line,
{
    lemma_level_name_round_trip(level);
    reveal_strlit(":");
    let f = entry_of_parts(t, level_text(level), module, file, line, message).3;
    assert(f.take(file.len() as int) =~= file);
    assert(f.skip(file.len() + 1int) =~= line);
}

/// The state of the table that shows log entries: its display options, the row to
/// scroll to, and the selected rows.
pub struct LogsTable {
    striped: bool,
    resizable: bool,
    clickable: bool,
    scroll_to_row_slider: usize,
    scroll_to_row: Option<usize>,
    selection: HashSet<usize>,
    checked: bool,
    reversed: bool,
}

impl Default for LogsTable {
    /// A striped, resizable, clickable table in file order, with no row selected.
    fn default() -> (t: Self)
        ensures
            t.is_striped() && t.is_resizable() && t.is_clickable() && !t.is_reversed(),
            t.selected() == Set::<usize>::empty(),
            !t.is_checked(),
            t.scroll_request() is None,
    {
        Self {
            striped: true,
            resizable: true,
            clickable: true,
            scroll_to_row_slider: 0,
            scroll_to_row: None,
            selection: HashSet::new(),
            checked: false,
            reversed: false,
        }
    }
}

impl LogsTable {
    /// The selected rows.
    pub closed spec fn selected(&self) -> Set<usize> {
        self.selection@
    }

    /// Whether the rows are shown striped.
    pub closed spec fn is_striped(&self) -> bool {
        self.striped
    }

    /// Whether the columns can be resized.
    pub closed spec fn is_resizable(&self) -> bool {
        self.resizable
    }

    /// Whether rows can be clicked to select them.
    pub closed spec fn is_clickable(&self) -> bool {
        self.clickable
    }

    /// Whether the last entry is shown first.
    pub closed spec fn is_reversed(&self) -> bool {
        self.reversed
    }

    /// Whether the checkbox option of the table is set.
    pub closed spec fn is_checked(&self) -> bool {
        self.checked
    }

    /// The row the table is asked to scroll to when it is next drawn, if any.
    pub closed spec fn scroll_request(&self) -> Option<usize> {
        self.scroll_to_row
    }

    /// One frame of the table: the pending request to scroll (if any) is taken and
    /// returned, a click on the header's arrow flips the order, and each clicked row (by
    /// entry index, in the order of the clicks) is toggled in the selection; the display
    /// options stay as they were.
    pub fn frame_step(&mut self, header_clicked: bool, clicked_rows: &Vec<usize>) -> (scroll: Option<usize>)
        ensures
            scroll == old(self).scroll_request(),
            final(self).scroll_request() is None,
            final(self).is_reversed() == (old(self).is_reversed() != header_clicked),
            final(self).selected() == toggle_rows(old(self).selected(), clicked_rows@),
            final(self).is_striped() == old(self).is_striped(),
            final(self).is_resizable() == old(self).is_resizable(),
            final(self).is_clickable() == old(self).is_clickable(),
            final(self).is_checked() == old(self).is_checked(),
    {
        let scroll = self.scroll_to_row.take();
        if header_clicked {
            self.reversed = !self.reversed;
        }
        let mut i: usize = 0;
        assert(clicked_rows@.take(0) =~= Seq::<usize>::empty());
        while i < clicked_rows.len()
            invariant
                i <= clicked_rows@.len(),
                self.selected() == toggle_rows(old(self).selected(), clicked_rows@.take(i as int)),
                self.scroll_request() is None,
                self.is_reversed() == (old(self).is_reversed() != header_clicked),
                self.is_striped() == old(self).is_striped(),
                self.is_resizable() == old(self).is_resizable(),
                self.is_clickable() == old(self).is_clickable(),
                self.is_checked() == old(self).is_checked(),
            decreases clicked_rows@.len() - i,
        {
            self.toggle_row_selection(clicked_rows[i], true);
            assert(clicked_rows@.take(i + 1).drop_last() =~= clicked_rows@.take(i as int));
            i = i + 1;
        }
        assert(clicked_rows@.take(clicked_rows@.len() as int) =~= clicked_rows@);
        scroll
    }

    /// Whether the row is selected.
    pub fn is_selected(&self, row_index: usize) -> (b: bool)
        ensures
            b == self.selected().contains(row_index),
    {
        broadcast use vstd::std_specs::hash::group_hash_axioms;

        self.selection.contains(&row_index)
    }

    /// Selects the row when it was clicked and not selected, unselects it when it was
    /// clicked and selected; nothing else changes.
    pub fn toggle_row_selection(&mut self, row_index: usize, clicked: bool)
        ensures
            final(self).selected() == toggled(old(self).selected(), row_index, clicked),
            final(self).is_reversed() == old(self).is_reversed(),
            final(self).is_striped() == old(self).is_striped(),
            final(self).is_resizable() == old(self).is_resizable(),
            final(self).is_clickable() == old(self).is_clickable(),
            final(self).is_checked() == old(self).is_checked(),
            final(self).scroll_request() == old(self).scroll_request(),
    {
        broadcast use vstd::std_specs::hash::group_hash_axioms;

        if clicked {
            if self.selection.contains(&row_index) {
                self.selection.remove(&row_index);
            } else {
                self.selection.insert(row_index);
            }
        }
    }

    /// Shows the last entry first, or the first entry first again.
    pub fn flip_order(&mut self)
        ensures
            final(self).is_reversed() == !old(self).is_reversed(),
            final(self).selected() == old(self).selected(),
    {
        self.reversed = !self.reversed;
    }

    /// The entry shown in row `index` of a table of `rows` entries: the same index in file
    /// order, counted from the end when the order is reversed.
    pub fn row_index(&self, rows: usize, index: usize) -> (r: usize)
        requires
            index < rows,
        ensures
            r == (if self.is_reversed() { rows - 1 - index } else { index as int }),
    {
        if self.reversed {
            rows - 1 - index
        } else {
            index
        }
    }
}

} // verus!
