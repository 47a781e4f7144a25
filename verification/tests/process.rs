//! Which Codex processes run, and whether they stand in the way of a switch.
use codex_switch::process::{
    check_codex_processes, check_windows_codex_processes, ensure_can_switch,
    ensure_can_switch_info, find_codex_processes, find_windows_codex_processes,
    is_codex_switch_run_process, parse_windows_codex_processes, CodexProcessInfo, QueryOutput,
};

#[test]
fn managed_run_process_is_detected_by_remote_token_env() {
    assert!(is_codex_switch_run_process(
        "codex resume --remote ws://127.0.0.1:1234 --remote-auth-token-env codex_switch_remote_token"
    ));
    assert!(is_codex_switch_run_process(
        "codex --remote=ws://127.0.0.1:1234 --remote-auth-token-env=codex_switch_remote_token"
    ));
    assert!(!is_codex_switch_run_process(
        "codex resume --remote ws://127.0.0.1:1234 --remote-auth-token-env other_token"
    ));
}

#[test]
fn managed_run_processes_do_not_block_switching_by_themselves() {
    let info = CodexProcessInfo {
        count: 0,
        background_count: 1,
        managed_run_count: 2,
        can_switch: true,
        pids: Vec::new(),
    };

    assert!(ensure_can_switch_info(&info).is_ok());
}

const LISTING: &str = "  901 ttys002 /usr/local/bin/codex resume
   77 ttys001 codex
   77 ttys001 codex
   12 ?? codex exec
   13 ttys003 codex --remote ws://127.0.0.1:9 --remote-auth-token-env codex_switch_remote_token
   14 ?? /Applications/Codex.app/Contents/MacOS/Codex
   15 ?? /Applications/Codex.app/Contents/MacOS/Codex Helper
   16 ttys004 codex-switch run
   17 ttys005 /home/me/.vscode/extensions/codex app-server
   18 ttys006 vim codex
   99 ttys007 codex
";

#[test]
fn a_listing_is_sorted_into_active_background_and_managed() {
    let (pids, background, managed) = find_codex_processes(Some(LISTING), 99);
    assert_eq!(pids, vec![14, 77, 901]);
    assert_eq!(background, 2);
    assert_eq!(managed, 1);
}

#[test]
fn no_listing_means_nothing_runs() {
    assert_eq!(find_codex_processes(None, 1), (Vec::new(), 0, 0));
    assert!(ensure_can_switch(None, 1).is_ok());
}

#[test]
fn active_processes_refuse_the_switch() {
    let info = check_codex_processes(Some(&LISTING.as_bytes().to_vec()), 99);
    assert_eq!(info.count, 3);
    assert!(!info.can_switch);
    assert_eq!(
        ensure_can_switch(Some(&LISTING.as_bytes().to_vec()), 99),
        Err("Detected 3 active Codex process(es) (pid: 14, 77, 901). Close Codex before switching accounts. Ignored 2 background process(es). Ignored 1 codex-switch run process(es).".to_string())
    );
}

#[test]
fn windows_processes_are_read_alone_or_in_a_list() {
    let one = parse_windows_codex_processes(
        r#"{"Name":"Codex.exe","ProcessId":5,"ParentProcessId":1,"CommandLine":"codex.exe","MainWindowTitle":"Codex"}"#,
    )
    .unwrap_or_else(|e| panic!("{e}"));
    assert_eq!(one.len(), 1);
    assert_eq!(find_windows_codex_processes(&one), (vec![5], 0, 0));

    assert_eq!(
        parse_windows_codex_processes("  \n").map(|found| found.len()),
        Ok(0)
    );
    assert!(parse_windows_codex_processes("not json").is_err());
    assert!(parse_windows_codex_processes(r#"[{"Name":"Codex.exe"}]"#).is_err());
}

#[test]
fn a_windows_process_with_a_renderer_is_active() {
    let found = parse_windows_codex_processes(
        r#"[{"Name":"Codex.exe","ProcessId":5,"ParentProcessId":1,"CommandLine":"codex.exe","MainWindowTitle":""},
            {"Name":"Codex.exe","ProcessId":6,"ParentProcessId":5,"CommandLine":"codex.exe --type=utility"},
            {"Name":"Codex.exe","ProcessId":7,"ParentProcessId":6,"CommandLine":"codex.exe --type=renderer"},
            {"Name":"codex.exe","ProcessId":8,"ParentProcessId":1,"CommandLine":"codex.exe exec"},
            {"Name":"codex.exe","ProcessId":9,"ParentProcessId":1,"CommandLine":"codex.exe --remote-auth-token-env codex_switch_remote_token"}]"#,
    )
    .unwrap_or_else(|e| panic!("{e}"));
    assert_eq!(find_windows_codex_processes(&found), (vec![5], 1, 1));
}

#[test]
fn bytes_that_are_no_text_hide_no_process() {
    let mut printed = b"   12 ttys001 codex \xff\xfe\n".to_vec();
    printed.extend_from_slice(b"   13 ttys002 \xff\n");
    let info = check_codex_processes(Some(&printed), 99);
    assert_eq!(info.pids, vec![12]);
}

#[test]
fn the_windows_query_fails_with_what_it_said() {
    let failed = QueryOutput {
        success: false,
        stdout: b"[]".to_vec(),
        stderr: b" access denied \r\n".to_vec(),
    };
    assert_eq!(
        check_windows_codex_processes(&failed).map(|info| info.count),
        Err("PowerShell process query failed: access denied".to_string())
    );
    let garbled = QueryOutput {
        success: true,
        stdout: b"garbled".to_vec(),
        stderr: Vec::new(),
    };
    assert!(check_windows_codex_processes(&garbled).is_err());
    let one = QueryOutput {
        success: true,
        stdout: br#"{"Name":"Codex.exe","ProcessId":5,"ParentProcessId":1,"CommandLine":"codex.exe","MainWindowTitle":"Codex"}"#
            .to_vec(),
        stderr: Vec::new(),
    };
    assert_eq!(
        check_windows_codex_processes(&one).map(|info| (info.pids, info.can_switch)),
        Ok((vec![5], false))
    );
}

#[test]
fn windows_entries_may_be_lists() {
    let found = parse_windows_codex_processes(r#"[["Codex.exe",5,1,"codex.exe"],["Codex.exe",6,1]]"#)
        .unwrap_or_else(|e| panic!("{e}"));
    assert_eq!(found.len(), 2);
    assert_eq!((found[0].process_id, found[0].command_line.as_str()), (5, "codex.exe"));
    assert_eq!(found[1].command_line, "");
    assert!(parse_windows_codex_processes(r#"[["Codex.exe",5]]"#).is_err());
    assert!(parse_windows_codex_processes(r#"[["Codex.exe",5,1,"","",0]]"#).is_err());
}

#[test]
fn of_windows_entries_with_one_id_the_first_met_counts() {
    let listed = |first: &str, second: &str| {
        parse_windows_codex_processes(&format!(
            r#"[["Codex.exe",5,1,"codex.exe"],["a",7,5,"{first}"],["b",7,5,"{second}"]]"#
        ))
        .unwrap_or_else(|e| panic!("{e}"))
    };
    let shown = listed("codex.exe --type=renderer", "codex.exe --type=utility");
    assert_eq!(find_windows_codex_processes(&shown), (vec![5], 0, 0));
    let hidden = listed("codex.exe --type=utility", "codex.exe --type=renderer");
    assert_eq!(find_windows_codex_processes(&hidden), (Vec::new(), 1, 0));
}
