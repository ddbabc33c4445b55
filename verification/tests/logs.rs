use roan::logs::{log_entry_from_captures, log_entry_from_parts, try_log_entry, LogEntry, LogLevel, LogsTable, Timestamp};

const LINE: &str = "2024-03-05 14:07:09.123 INFO roan_engine::module: src/module.rs:42: Loaded module";

#[test]
fn log_line_is_parsed() {
    let e = try_log_entry(LINE).unwrap();
    assert_eq!(e.timestamp.year, 2024);
    assert_eq!(e.timestamp.month, 3);
    assert_eq!(e.timestamp.day, 5);
    assert_eq!(e.timestamp.hour, 14);
    assert_eq!(e.timestamp.minute, 7);
    assert_eq!(e.timestamp.second, 9);
    assert_eq!(e.timestamp.nanosecond, 123_000_000);
    assert_eq!(e.level, LogLevel::Info);
    assert_eq!(e.module, "roan_engine::module");
    assert_eq!(e.target, "roan_engine::module");
    assert_eq!(e.file, "src/module.rs:42");
    assert_eq!(e.message, "Loaded module");
}

#[test]
fn from_string_agrees_with_try() {
    let e = LogEntry::from_string(LINE);
    assert_eq!(e.message, try_log_entry(LINE).unwrap().message);
    assert_eq!(e.timestamp, try_log_entry(LINE).unwrap().timestamp);
}

#[test]
fn lines_that_are_no_entries() {
    assert!(try_log_entry("not a log line").is_none());
    assert!(try_log_entry("2024-13-05 14:07:09.123 INFO m: f.rs:1: month thirteen").is_none());
}

#[test]
fn unknown_levels_are_trace() {
    let e = try_log_entry("2024-03-05 14:07:09.123 FATAL m: f.rs:1: x").unwrap();
    assert_eq!(e.level, LogLevel::Trace);
    assert_eq!(LogLevel::from_name("WARN"), LogLevel::Warn);
    assert_eq!(LogLevel::from_name("error"), LogLevel::Trace);
    assert_eq!(LogLevel::Error.name(), "ERROR");
}

#[test]
fn toggling_a_row_twice_restores_the_selection() {
    let mut table = LogsTable::default();
    assert!(!table.is_selected(3));
    table.toggle_row_selection(3, true);
    assert!(table.is_selected(3));
    table.toggle_row_selection(5, false);
    assert!(!table.is_selected(5));
    table.toggle_row_selection(3, true);
    assert!(!table.is_selected(3));
}

#[test]
fn row_order() {
    let mut table = LogsTable::default();
    assert_eq!(table.row_index(10, 0), 0);
    table.flip_order();
    assert_eq!(table.row_index(10, 0), 9);
    assert_eq!(table.row_index(10, 9), 0);
}

#[test]
fn frame_step_flips_and_toggles() {
    let mut table = LogsTable::default();
    assert_eq!(table.frame_step(true, &vec![1, 4, 1, 7]), None);
    assert_eq!(table.row_index(10, 0), 9);
    assert!(!table.is_selected(1));
    assert!(table.is_selected(4));
    assert!(table.is_selected(7));
    assert_eq!(table.frame_step(true, &vec![4]), None);
    assert_eq!(table.row_index(10, 0), 0);
    assert!(!table.is_selected(4));
    assert!(table.is_selected(7));
}

fn captures(parts: [Option<&str>; 6]) -> Vec<Option<String>> {
    parts.iter().map(|p| p.map(|t| t.to_string())).collect()
}

#[test]
fn entry_from_captured_groups() {
    let caps = captures([
        Some("2023-12-31 23:59:58.007"),
        Some("WARN"),
        Some("roan::vm"),
        Some("vm.rs"),
        Some("7"),
        Some("stack low"),
    ]);
    let e = log_entry_from_captures(&caps).unwrap();
    assert_eq!(e.timestamp.year, 2023);
    assert_eq!(e.timestamp.second, 58);
    assert_eq!(e.timestamp.nanosecond, 7_000_000);
    assert_eq!(e.level, LogLevel::Warn);
    assert_eq!(e.module, "roan::vm");
    assert_eq!(e.target, "roan::vm");
    assert_eq!(e.file, "vm.rs:7");
    assert_eq!(e.message, "stack low");
}

#[test]
fn captures_with_a_missing_group_or_a_bad_timestamp_give_nothing() {
    let missing = captures([Some("2023-12-31 23:59:58.007"), Some("WARN"), None, Some("vm.rs"), Some("7"), Some("m")]);
    assert!(log_entry_from_captures(&missing).is_none());
    let bad_time = captures([Some("2023-13-31 23:59:58.007"), Some("WARN"), Some("a"), Some("vm.rs"), Some("7"), Some("m")]);
    assert!(log_entry_from_captures(&bad_time).is_none());
    assert!(log_entry_from_captures(&vec![]).is_none());
}

#[test]
fn entry_from_parts_joins_file_and_line() {
    let t = Timestamp { year: 2024, month: 1, day: 2, hour: 3, minute: 4, second: 5, nanosecond: 0 };
    let e = log_entry_from_parts(t, "ERROR", "m", "f.rs", "12", "boom");
    assert_eq!(e.timestamp, t);
    assert_eq!(e.level, LogLevel::Error);
    assert_eq!(e.file, "f.rs:12");
    assert_eq!(e.module, "m");
    assert_eq!(e.target, "m");
    assert_eq!(e.message, "boom");
    let unknown = log_entry_from_parts(t, "LOUD", "m", "f.rs", "1", "x");
    assert_eq!(unknown.level, LogLevel::Trace);
}
