//! The logs of runs: their names, the newest of them, and the old ones.
use chrono::TimeZone;
use codex_switch::accounts::Timestamp;
use codex_switch::runtime_log::{
    create_step, host_component, latest_runtime_log, latest_runtime_log_path_in_dir,
    new_run_log_file_name, plan_prune,
    record_removal, run_log_file_name, runtime_log_dir, runtime_log_timestamp_from_file_name,
    runtime_tracing_filter_spec, sanitize_log_component, CreateOutcome, CreateStep, LogEntry,
    PrunePlan, Removal,
};

#[test]
fn runtime_log_component_sanitizes_path_separators_and_control_characters() {
    assert_eq!(sanitize_log_component("../host\nname"), "..-host-name");
}

#[test]
fn runtime_log_component_falls_back_when_empty_after_sanitizing() {
    assert_eq!(sanitize_log_component("\n\t"), "unknown");
}

#[test]
fn runtime_log_file_name_contains_host_pid_and_uuid() {
    let timestamp = test_time("2026-05-19T12:34:56Z");

    assert_eq!(
        run_log_file_name(
            timestamp,
            "dev/container",
            123,
            "aaaaaaaa-bbbb-cccc-dddd-eeeeeeeeeeee"
        ),
        "codex-switch-run-20260519-123456-dev-container-123-aaaaaaaabbbbccccddddeeeeeeeeeeee.log"
    );
}

#[test]
fn latest_runtime_log_path_picks_newest_named_log() {
    let entries = vec![
        file("codex-switch-run-20260101-000000-host-1-a.log"),
        file("codex-switch-run-20260102-000000-host-1-b.log"),
        file("other.log"),
    ];

    let latest = latest_runtime_log_path_in_dir("/logs", Some(&entries));

    assert_eq!(
        latest.as_deref(),
        Some("/logs/codex-switch-run-20260102-000000-host-1-b.log")
    );
}

#[test]
fn runtime_log_timestamp_parser_accepts_current_log_pattern() {
    let timestamp = runtime_log_timestamp_from_file_name(
        "codex-switch-run-20260102-030405-dev-host-123-aaaaaaaaaaaaaaaaaaaaaaaaaaaaaaaa.log",
    )
    .expect("timestamp should parse");

    let timestamp = chrono::Utc
        .timestamp_opt(timestamp.seconds, timestamp.nanos)
        .single()
        .expect("timestamp should be in the calendar");
    assert_eq!(timestamp.to_rfc3339(), "2026-01-02T03:04:05+00:00");
}

#[test]
fn runtime_log_timestamp_parser_rejects_malformed_names() {
    assert!(runtime_log_timestamp_from_file_name(
        "codex-switch-run-20260102-030405-dev-host-123-short.log"
    )
    .is_none());
    assert!(runtime_log_timestamp_from_file_name("other.log").is_none());
    assert!(runtime_log_timestamp_from_file_name(
        "codex-switch-run-20260102-030405-dev-host-abc-aaaaaaaaaaaaaaaaaaaaaaaaaaaaaaaa.log"
    )
    .is_none());
    assert!(runtime_log_timestamp_from_file_name(
        "codex-switch-run-é-é-é-aaaaaaaaaaaaaaaaaaaaaaaaaaaaaaaa.log"
    )
    .is_none());
}

#[test]
fn prune_runtime_logs_deletes_only_matching_logs_older_than_retention() {
    let old = test_log("20251231-235959", "old");
    let entries = vec![
        file(&old),
        file(&test_log("20260101-000000", "boundary")),
        file(&test_log("20260107-000000", "recent")),
        file("notes.log"),
    ];
    let now = test_time("2026-01-08T00:00:00Z");

    let plan = planned(&entries, now, None);
    assert_eq!(plan.candidates, vec![old]);
    let mut summary = plan.summary;
    for candidate in &plan.candidates {
        assert!(record_removal(&mut summary, candidate, Removal::Removed).is_ok());
    }

    assert_eq!(summary.scanned, 4);
    assert_eq!(summary.matched, 3);
    assert_eq!(summary.candidates, 1);
    assert_eq!(summary.removed, 1);
}

#[test]
fn prune_runtime_logs_keeps_current_log_even_when_old() {
    let current = test_log("20251231-235959", "current");
    let old = test_log("20251230-235959", "old");
    let entries = vec![file(&current), file(&old)];
    let now = test_time("2026-01-08T00:00:00Z");

    let plan = planned(&entries, now, Some(&current));

    assert_eq!(plan.summary.candidates, 1);
    assert_eq!(plan.candidates, vec![old]);
}

#[test]
fn prune_runtime_logs_dry_run_does_not_delete_candidates() {
    let entries = vec![file(&test_log("20251231-235959", "old"))];
    let now = test_time("2026-01-08T00:00:00Z");

    let plan = planned(&entries, now, None);

    assert_eq!(plan.summary.candidates, 1);
    assert_eq!(plan.summary.removed, 0);
}

#[test]
fn prune_runtime_logs_ignores_not_found_delete_races() {
    let entries = vec![file(&test_log("20251231-235959", "old"))];
    let now = test_time("2026-01-08T00:00:00Z");

    let plan = planned(&entries, now, None);
    let mut summary = plan.summary;
    assert!(record_removal(&mut summary, &plan.candidates[0], Removal::Missing).is_ok());

    assert_eq!(summary.candidates, 1);
    assert_eq!(summary.removed, 0);
    assert_eq!(summary.ignored_missing, 1);
}

#[test]
fn default_runtime_log_filter_is_codex_switch_info() {
    assert_eq!(runtime_tracing_filter_spec(None), "codex_switch=info");
    assert_eq!(runtime_tracing_filter_spec(Some("")), "codex_switch=info");
}

#[test]
fn plain_runtime_log_level_maps_to_codex_switch_target() {
    assert_eq!(
        runtime_tracing_filter_spec(Some("debug")),
        "codex_switch=debug"
    );
    assert_eq!(
        runtime_tracing_filter_spec(Some("WARN")),
        "codex_switch=warn"
    );
}

#[test]
fn full_runtime_log_filter_is_preserved() {
    assert_eq!(
        runtime_tracing_filter_spec(Some("codex_switch=debug,tokio=warn")),
        "codex_switch=debug,tokio=warn"
    );
}

#[test]
fn a_log_that_cannot_be_removed_ends_the_pruning() {
    let entries = vec![file(&test_log("20251231-235959", "old"))];
    let plan = planned(&entries, test_time("2026-01-08T00:00:00Z"), None);
    let mut summary = plan.summary;
    assert!(record_removal(&mut summary, "old.log", Removal::Failed).is_err());
    assert_eq!(summary.removed, 0);
}

#[test]
fn retention_has_to_make_sense() {
    let now = test_time("2026-01-08T00:00:00Z");
    let entries: Vec<LogEntry> = Vec::new();
    assert_eq!(
        plan_prune(Some(&entries), now, 0, None).err(),
        Some("Runtime log retention days must be greater than 0".to_string())
    );
    assert_eq!(
        plan_prune(Some(&entries), now, u64::MAX, None).err(),
        Some("Runtime log retention days are too large".to_string())
    );
    assert_eq!(
        plan_prune(Some(&entries), now, 106_751_991_168, None).err(),
        Some("Runtime log retention duration is too large".to_string())
    );
    let none = plan_prune(None, now, 7, None).unwrap_or_else(|e| panic!("{e}"));
    assert_eq!(none.summary.scanned, 0);
}

#[test]
fn a_name_tells_its_moment() {
    let name = run_log_file_name(
        test_time("1999-12-31T23:59:58Z"),
        "a-b",
        4_000_000_000,
        "01234567-89ab-cdef-0123-456789abcdef",
    );
    let moment = runtime_log_timestamp_from_file_name(&name).expect("the name should be read");
    assert_eq!((moment.seconds, moment.nanos), (946_684_798, 0));
}

#[test]
fn directories_are_no_logs() {
    let entries = vec![
        LogEntry {
            name: Some("codex-switch-run-20260102-000000-host-1-b.log".to_string()),
            is_file: false,
        },
        LogEntry {
            name: None,
            is_file: true,
        },
    ];
    assert_eq!(latest_runtime_log(&entries), None);
    assert_eq!(latest_runtime_log_path_in_dir("/logs", None), None);
}

#[test]
fn a_name_that_is_taken_is_tried_again() {
    assert!(matches!(
        create_step(CreateOutcome::Created, 1, "/logs", "/logs/a"),
        CreateStep::Done
    ));
    assert!(matches!(
        create_step(CreateOutcome::AlreadyExists, 1, "/logs", "/logs/a"),
        CreateStep::Again
    ));
    assert!(matches!(
        create_step(CreateOutcome::AlreadyExists, 16, "/logs", "/logs/a"),
        CreateStep::Stop(m) if m == "Failed to create a unique runtime log file in /logs"
    ));
    assert!(matches!(
        create_step(CreateOutcome::Failed, 1, "/logs", "/logs/a"),
        CreateStep::Stop(_)
    ));
}

#[test]
fn the_host_is_named_by_what_is_known() {
    assert_eq!(host_component(Some(" box \n"), Some("file")), "box");
    assert_eq!(host_component(Some("  "), Some(" file\n")), "file");
    assert_eq!(host_component(None, None), "unknown-host");
    assert_eq!(runtime_log_dir("/home/me/.codex-switch"), "/home/me/.codex-switch/logs");
}

fn planned(entries: &Vec<LogEntry>, now: Timestamp, current: Option<&str>) -> PrunePlan {
    plan_prune(Some(entries), now, 7, current).unwrap_or_else(|e| panic!("{e}"))
}

fn file(name: &str) -> LogEntry {
    LogEntry {
        name: Some(name.to_string()),
        is_file: true,
    }
}

fn test_log(timestamp: &str, tag: &str) -> String {
    let uuid = match tag {
        "old" => "aaaaaaaaaaaaaaaaaaaaaaaaaaaaaaaa",
        "boundary" => "bbbbbbbbbbbbbbbbbbbbbbbbbbbbbbbb",
        "recent" => "cccccccccccccccccccccccccccccccc",
        "current" => "dddddddddddddddddddddddddddddddd",
        _ => "eeeeeeeeeeeeeeeeeeeeeeeeeeeeeeee",
    };
    format!("codex-switch-run-{timestamp}-test-host-123-{uuid}.log")
}

fn test_time(value: &str) -> Timestamp {
    let moment = chrono::DateTime::parse_from_rfc3339(value).expect("test timestamp should parse");
    Timestamp {
        millis: moment.timestamp_millis(),
        nanos: 0,
    }
}

#[test]
fn new_names_differ_and_tell_their_moment() {
    let now = test_time("2026-01-02T03:04:05Z");
    let one = new_run_log_file_name(now, "my host", 7);
    let two = new_run_log_file_name(now, "my host", 7);
    assert_ne!(one, two);
    assert!(one.starts_with("codex-switch-run-20260102-030405-my-host-7-"));
    let moment = runtime_log_timestamp_from_file_name(&one).expect("the name should be read");
    assert_eq!((moment.seconds, moment.nanos), (1_767_323_045, 0));
}
