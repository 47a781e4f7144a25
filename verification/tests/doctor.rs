//! What the installation is checked for, and how the findings are told.
use codex_switch::accounts::{
    short_id, AccountsStore, AuthData, AuthMode, StoredAccount, Timestamp,
};
use codex_switch::doctor::{
    account_store_summary, add_codex_checks, add_current_auth_match_check, add_current_token_check,
    add_duplicate_account_checks, add_install_checks, add_process_checks, add_token_end_check,
    command_output_excerpt,
    help_output_supports_remote, private_mode_is_safe, private_permission_check, CommandOutput,
    CommandProbe, DoctorCheck, DoctorReport, DoctorSeverity, PermissionProbe, PermissionTarget,
};
use codex_switch::process::CodexProcessInfo;

#[test]
fn doctor_report_formats_hints_and_detects_errors() {
    let mut report = DoctorReport::new();
    report.push(DoctorCheck::ok("install", "ok message".to_string()));
    report.push(DoctorCheck::warn("auth", "warn message".to_string()).with_hint("fix it"));
    assert!(!report.has_errors());

    report.push(DoctorCheck::error("store", "error message".to_string()));

    assert!(report.has_errors());
    assert_eq!(
        report.format_human(),
        "[ok] install: ok message\n[warn] auth: warn message\n  hint: fix it\n[error] store: error message\n"
    );
}

#[test]
fn account_store_summary_counts_auth_modes() {
    let store = store_of(vec![
        api_key_account("api", "sk-one"),
        chatgpt_account("oauth", "acct-1"),
    ]);

    assert_eq!(
        account_store_summary(&store),
        "2 account(s): 1 ChatGPT OAuth, 1 API key"
    );
}

#[test]
fn duplicate_account_identity_reports_without_secrets() {
    let mut report = DoctorReport::new();
    let store = store_of(vec![
        api_key_account("first", "sk-secret-value"),
        api_key_account("second", "sk-secret-value"),
    ]);

    add_duplicate_account_checks(&mut report, &store);

    let output = report.format_human();
    assert!(output.contains("duplicate account auth identity"));
    assert!(!output.contains("sk-secret-value"));
    assert!(report.has_errors());
}

#[test]
fn duplicate_account_name_reports_error() {
    let mut report = DoctorReport::new();
    let store = store_of(vec![
        api_key_account("same", "sk-one"),
        api_key_account("same", "sk-two"),
    ]);

    add_duplicate_account_checks(&mut report, &store);

    assert!(report.format_human().contains("duplicate account name"));
    assert!(report.has_errors());
}

#[test]
fn current_auth_match_reports_stored_account() {
    let mut report = DoctorReport::new();
    let account = api_key_account("personal", "sk-match");
    let current_auth = api_key_account("current", "sk-match");
    let store = store_of(vec![account.clone()]);

    add_current_auth_match_check(&mut report, &store, &current_auth);

    assert_eq!(
        report.format_human(),
        format!(
            "[ok] auth: current auth.json matches stored account personal ({})\n",
            short_id(&account.id)
        )
    );
}

#[test]
fn remote_help_support_requires_both_flags() {
    assert!(help_output_supports_remote(
        "Usage: codex --remote <ADDR> --remote-auth-token-env <ENV>"
    ));
    assert!(help_output_supports_remote(
        "Usage: codex [--remote=<ADDR>] [--remote-auth-token-env <ENV>]"
    ));
    assert!(!help_output_supports_remote(
        "Usage: codex --remote-auth-token-env <ENV>"
    ));
    assert!(!help_output_supports_remote("Usage: codex --remote <ADDR>"));
    assert!(!help_output_supports_remote("Usage: codex"));
}

#[test]
fn private_mode_rejects_group_or_other_permissions() {
    assert!(private_mode_is_safe(0o600));
    assert!(private_mode_is_safe(0o700));
    assert!(!private_mode_is_safe(0o640));
    assert!(!private_mode_is_safe(0o604));
}

#[test]
fn permission_check_warns_for_public_file() {
    let check = private_permission_check(
        "store",
        "accounts.json",
        "/home/me/accounts.json",
        PermissionTarget::File,
        &PermissionProbe::Mode(0o644),
    );

    assert_eq!(check.severity, DoctorSeverity::Warn);
    assert!(check.message.contains("0644") || check.message.contains("644"));
}

#[test]
fn private_files_and_directories_are_told_apart() {
    let fine = private_permission_check(
        "store",
        "accounts.json",
        "/a",
        PermissionTarget::File,
        &PermissionProbe::Mode(0o600),
    );
    assert_eq!(fine.severity, DoctorSeverity::Fine);
    assert_eq!(fine.message, "accounts.json permissions are 600");
    assert!(fine.hints.is_empty());

    let open = private_permission_check(
        "logs",
        "runtime log directory",
        "/logs",
        PermissionTarget::Directory,
        &PermissionProbe::Mode(0o755),
    );
    assert_eq!(open.severity, DoctorSeverity::Warn);
    assert_eq!(open.hints, vec!["run chmod 700 /logs".to_string()]);

    let skipped = private_permission_check(
        "logs",
        "runtime log directory",
        "/logs",
        PermissionTarget::Directory,
        &PermissionProbe::Skipped,
    );
    assert_eq!(skipped.severity, DoctorSeverity::Fine);

    let failed = private_permission_check(
        "logs",
        "runtime log directory",
        "/logs",
        PermissionTarget::Directory,
        &PermissionProbe::Failed("denied".to_string()),
    );
    assert_eq!(
        failed.message,
        "failed to inspect runtime log directory permissions at /logs: denied"
    );
}

#[test]
fn a_codex_that_answers_is_reported_with_its_version() {
    let mut report = DoctorReport::new();
    add_codex_checks(
        &mut report,
        "codex",
        &completed(true, "codex-cli 0.129.0\n", ""),
        &Some(completed(
            true,
            "--remote <ADDR> --remote-auth-token-env <ENV>",
            "",
        )),
    );
    assert_eq!(
        report.format_human(),
        "[ok] codex: codex reports Codex version 0.129.0\n[ok] codex: Codex help advertises --remote and --remote-auth-token-env\n"
    );
}

#[test]
fn a_codex_that_is_missing_is_an_error() {
    let mut report = DoctorReport::new();
    add_codex_checks(
        &mut report,
        "/opt/codex",
        &CommandProbe::NotFound("no such file".to_string()),
        &None,
    );
    assert_eq!(
        report.format_human(),
        "[error] codex: Codex executable not found: /opt/codex\n  hint: install Codex or pass --codex-bin <path>\n"
    );
}

#[test]
fn long_output_is_cut() {
    let long = "x".repeat(300);
    let output = CommandOutput {
        success: false,
        status: "exit status: 1".to_string(),
        stdout: long.into_bytes(),
        stderr: Vec::new(),
    };
    assert_eq!(
        command_output_excerpt(&output),
        format!("{}...", "x".repeat(240))
    );
    let silent = CommandOutput {
        success: false,
        status: "exit status: 1".to_string(),
        stdout: b" \n".to_vec(),
        stderr: Vec::new(),
    };
    assert_eq!(
        command_output_excerpt(&silent),
        "exit status exit status: 1"
    );
}

#[test]
fn errors_stay_in_the_report() {
    let mut report = DoctorReport::new();
    report.push(DoctorCheck::error("store", "broken".to_string()));
    add_install_checks(&mut report, "1.2.3", &Ok("/usr/bin/codex-switch".to_string()));
    add_process_checks(
        &mut report,
        &Ok(CodexProcessInfo {
            count: 0,
            background_count: 0,
            managed_run_count: 0,
            can_switch: true,
            pids: Vec::new(),
        }),
    );
    assert!(report.has_errors());
    assert!(report
        .format_human()
        .contains("[ok] install: codex-switch 1.2.3 at /usr/bin/codex-switch\n"));
}

fn completed(success: bool, stdout: &str, stderr: &str) -> CommandProbe {
    CommandProbe::Completed(CommandOutput {
        success,
        status: "exit status: 0".to_string(),
        stdout: stdout.as_bytes().to_vec(),
        stderr: stderr.as_bytes().to_vec(),
    })
}

fn store_of(accounts: Vec<StoredAccount>) -> AccountsStore {
    AccountsStore {
        version: 1,
        accounts,
        masked_account_ids: Vec::new(),
    }
}

#[test]
fn the_end_of_the_current_token_is_checked() {
    let mut report = DoctorReport::new();
    add_current_token_check(&mut report, &api_key_account("api", "sk-one"), now());
    assert_eq!(report.format_human(), "");

    let mut account = chatgpt_account("oauth", "acct-1");
    add_current_token_check(&mut report, &account, now());
    if let AuthData::ChatGPT { access_token, .. } = &mut account.auth_data {
        *access_token = "h.eyJleHAiOjE3MDAwMDAwMDB9.s".to_string();
    }
    add_current_token_check(&mut report, &account, now());
    let earlier = Timestamp {
        millis: 1_699_999_999_999,
        nanos: 0,
    };
    add_current_token_check(&mut report, &account, earlier);
    add_token_end_check(&mut report, &account, Some(earlier), now());
    assert_eq!(
        report.format_human(),
        "[warn] auth: current ChatGPT access token expiry could not be parsed\n  \
         hint: run codex-switch login <name> --replace if this account stops refreshing\n\
         [warn] auth: current ChatGPT access token expired at 2023-11-14T22:13:20+00:00\n  \
         hint: run codex-switch usage or codex-switch login <name> --replace if refresh fails\n\
         [ok] auth: current ChatGPT access token expires at 2023-11-14T22:13:20+00:00\n\
         [warn] auth: current ChatGPT access token expired at 2023-11-14T22:13:19.999+00:00\n  \
         hint: run codex-switch usage or codex-switch login <name> --replace if refresh fails\n"
    );
}

fn now() -> Timestamp {
    Timestamp {
        millis: 1_700_000_000_000,
        nanos: 0,
    }
}

fn api_key_account(name: &str, key: &str) -> StoredAccount {
    StoredAccount::new_api_key(
        format!("{name}-0123456789abcdef"),
        name.to_string(),
        key.to_string(),
        now(),
    )
}

fn chatgpt_account(name: &str, account_id: &str) -> StoredAccount {
    StoredAccount {
        id: format!("{name}-0123456789abcdef"),
        name: name.to_string(),
        email: Some(format!("{name}@example.com")),
        plan_type: Some("pro".to_string()),
        chatgpt_user_id: Some(format!("user-{name}")),
        chatgpt_account_is_fedramp: false,
        token_last_refresh_at: Some(now()),
        subscription_expires_at: None,
        auth_mode: AuthMode::ChatGPT,
        auth_data: AuthData::ChatGPT {
            id_token: "id-token".to_string(),
            access_token: "access-token".to_string(),
            refresh_token: "refresh-token".to_string(),
            account_id: Some(account_id.to_string()),
        },
        auto_switch_disabled: false,
        created_at: now(),
        last_used_at: None,
    }
}
