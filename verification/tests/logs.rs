//! Showing the end of a log.
use codex_switch::logs::{
    follow_step, latest_log_path_in_dir, split_full_lines, tail_lines, TailRing,
};
use codex_switch::runtime_log::LogEntry;

#[test]
fn latest_log_path_in_dir_errors_when_no_logs_exist() {
    let entries: Vec<LogEntry> = Vec::new();

    let err =
        latest_log_path_in_dir("/logs", Some(&entries)).expect_err("missing log should error");

    assert!(err.contains("No runtime logs found in /logs"));
}

#[test]
fn latest_log_path_in_dir_uses_runtime_log_naming() {
    let entries = vec![
        file("codex-switch-run-20260101-000000-host-1-a.log"),
        file("codex-switch-run-20260102-000000-host-1-b.log"),
        file("other.log"),
    ];

    let latest = latest_log_path_in_dir("/logs", Some(&entries)).expect("latest log should be found");

    assert_eq!(
        latest,
        "/logs/codex-switch-run-20260102-000000-host-1-b.log"
    );
}

#[test]
fn tail_lines_from_empty_file_is_empty() {
    assert_eq!(tail_lines("", 100), "");
}

#[test]
fn tail_lines_keeps_fewer_than_requested_lines() {
    assert_eq!(tail_lines("one\ntwo\n", 100), "one\ntwo\n");
}

#[test]
fn tail_lines_keeps_exact_requested_lines() {
    assert_eq!(tail_lines("one\ntwo\n", 2), "one\ntwo\n");
}

#[test]
fn tail_lines_returns_only_last_requested_lines() {
    assert_eq!(tail_lines("one\ntwo\nthree\n", 2), "two\nthree\n");
}

#[test]
fn tail_lines_zero_reads_no_initial_lines() {
    assert_eq!(tail_lines("one\ntwo\n", 0), "");
}

#[test]
fn tail_lines_preserves_final_line_without_newline() {
    assert_eq!(tail_lines("one\ntwo", 1), "two");
}

#[test]
fn lines_make_up_the_text() {
    let lines = split_full_lines("one\r\n\ntwo");
    assert_eq!(lines, vec!["one\r\n", "\n", "two"]);
    assert_eq!(lines.concat(), "one\r\n\ntwo");
}

#[test]
fn a_ring_keeps_the_last_lines() {
    let mut ring = TailRing::new(2);
    for line in ["one\n", "two\n", "three\n"] {
        ring.push(line.to_string());
    }
    assert_eq!(ring.finish(), "two\nthree\n");
}

#[test]
fn following_reads_what_is_new() {
    let mut position: u64 = 10;
    let step = follow_step(&mut position, 10);
    assert!(!step.reopen);
    assert_eq!(step.read_from, None);

    let step = follow_step(&mut position, 15);
    assert_eq!(step.read_from, Some(10));

    let step = follow_step(&mut position, 4);
    assert!(step.reopen);
    assert_eq!(step.read_from, Some(0));
    assert_eq!(position, 0);
}

fn file(name: &str) -> LogEntry {
    LogEntry {
        name: Some(name.to_string()),
        is_file: true,
    }
}
