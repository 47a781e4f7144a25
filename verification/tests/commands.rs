//! What the commands decide and say.
use codex_switch::accounts::{
    account_label, account_secret_values, chatgpt_account_id, resolve_account_id, AccountsStore,
    NewChatGptAccount, SelectorError, StoredAccount, Timestamp,
};
use codex_switch::auto_switch::AutoSwitchResult;
use codex_switch::cli::{Cli, Command, LogsCommand, DEFAULT_LOG_TAIL_LINES};
use codex_switch::commands::{
    auto_switch_message, confirmed, delete_message, exit_code, export_message, find_report,
    format_accounts, format_datetime_option, import_message, login_message, login_plan,
    rename_message, reset_message, reset_start, switch_message, update_message, usage_current_id,
    ConsumeRateLimitResetCreditCode, NameCheck, ResetStart, UpdateOutcome,
};
use codex_switch::oauth::LoginFlow;
use codex_switch::time::{parts, read_moment, show_moment, write_moment};
use codex_switch::usage::UsageInfo;

#[test]
fn a_login_is_planned_by_its_options() {
    assert_eq!(
        login_plan(false, false),
        (NameCheck::Available, LoginFlow::Browser)
    );
    assert_eq!(
        login_plan(true, true),
        (NameCheck::Replaceable, LoginFlow::DeviceAuth)
    );
}

#[test]
fn messages_name_the_account() {
    let account = api_key_account("0123456789", "work");
    assert_eq!(account_label(&account), "work (01234567)");
    assert_eq!(login_message(false, &account), "Logged in work (01234567)");
    assert_eq!(
        login_message(true, &account),
        "Replaced login for work (01234567)"
    );
    assert_eq!(
        import_message(&account, "/a"),
        "Imported work (01234567) from /a"
    );
    assert_eq!(
        export_message(&account, "/a"),
        "Exported work (01234567) to /a"
    );
    assert_eq!(switch_message(&account), "Switched to work (01234567)");
    assert_eq!(delete_message(&account), "Deleted work (01234567)");
    assert_eq!(
        rename_message(&account),
        "Renamed account to work (01234567)"
    );
}

#[test]
fn switches_are_told_with_their_reason() {
    let account = || Box::new(api_key_account("0123456789", "work"));
    assert_eq!(
        auto_switch_message(&AutoSwitchResult::CurrentKept {
            account: account(),
            reason: "fine".to_string()
        }),
        "Current account is usable: work (01234567) - fine"
    );
    assert_eq!(
        auto_switch_message(&AutoSwitchResult::CurrentUnsupported {
            account: account(),
            reason: "no".to_string()
        }),
        "Current account was not switched: work (01234567) - no"
    );
    assert_eq!(
        auto_switch_message(&AutoSwitchResult::Switched {
            from: Some(account()),
            to: account(),
            reason: "r".to_string()
        }),
        "Switched from work (01234567) to work (01234567) - r"
    );
    assert_eq!(
        auto_switch_message(&AutoSwitchResult::Switched {
            from: None,
            to: account(),
            reason: "r".to_string()
        }),
        "Switched to work (01234567) - r"
    );
}

#[test]
fn the_exit_code_of_codex_is_handed_on() {
    assert_eq!(exit_code(true, Some(0)), 0);
    assert_eq!(exit_code(false, Some(3)), 3);
    assert_eq!(exit_code(false, None), 1);
}

#[test]
fn updates_are_told() {
    assert_eq!(
        update_message(&UpdateOutcome::UpToDate {
            current_version: "1".to_string(),
            release_version: "1".to_string()
        }),
        "codex-switch is up to date (current 1, release 1)."
    );
    assert_eq!(
        update_message(&UpdateOutcome::UpdateAvailable {
            current_version: "1".to_string(),
            release_version: "2".to_string()
        }),
        "Update available: 1 -> 2"
    );
    assert_eq!(
        update_message(&UpdateOutcome::CurrentNewer {
            current_version: "3".to_string(),
            release_version: "2".to_string()
        }),
        "Current codex-switch version 3 is newer than release 2."
    );
    assert_eq!(
        update_message(&UpdateOutcome::Updated {
            previous_version: "1".to_string(),
            installed_version: "2".to_string(),
            executable_path: "/bin/x".to_string()
        }),
        "Updated codex-switch 1 -> 2 at /bin/x"
    );
    assert_eq!(
        update_message(&UpdateOutcome::Updated {
            previous_version: "2".to_string(),
            installed_version: "2".to_string(),
            executable_path: "/bin/x".to_string()
        }),
        "Installed codex-switch 2 at /bin/x"
    );
}

#[test]
fn a_reset_has_to_be_confirmed() {
    let oauth = chatgpt_account("0123456789", "work");
    assert!(matches!(reset_start(&oauth, true, false), Ok(ResetStart::Go)));
    assert!(matches!(
        reset_start(&oauth, false, true),
        Ok(ResetStart::Ask(q)) if q == "Use one rate-limit reset for work (01234567)? [y/N] "
    ));
    assert!(matches!(
        reset_start(&oauth, false, false),
        Err(m) if m.starts_with("Refusing to consume a rate-limit reset")
    ));
    assert!(matches!(
        reset_start(&api_key_account("0123456789", "work"), true, true),
        Err(m) if m == "Rate-limit resets are only supported for ChatGPT OAuth accounts"
    ));
    assert!(confirmed(" YES\n"));
    assert!(confirmed("y"));
    assert!(!confirmed(""));
    assert!(!confirmed("yep"));
    assert_eq!(
        reset_message(ConsumeRateLimitResetCreditCode::Reset, &oauth).0,
        "Usage reset for work (01234567)."
    );
    assert!(!reset_message(ConsumeRateLimitResetCreditCode::NoCredit, &oauth).1);
}

#[test]
fn accounts_are_listed_in_columns() {
    let store = store_of(vec![
        api_key_account("0123456789", "work"),
        chatgpt_account("9876543210", "home"),
    ]);
    let shown = format_accounts(
        &store,
        Some("9876543210"),
        &vec!["-".to_string(), "2026-01-01".to_string()],
    );
    let lines: Vec<&str> = shown.lines().collect();
    assert_eq!(lines.len(), 3);
    assert!(lines[0].contains("NAME") && lines[0].ends_with("LAST USED"));
    assert!(lines[1].contains("01234567 work") && lines[1].contains("api_key"));
    assert!(lines[2].starts_with("*   98765432 home"));
    assert!(lines[2].ends_with("2026-01-01"));
    assert_eq!(
        format_accounts(&store_of(Vec::new()), None, &Vec::new()),
        "No accounts stored."
    );
}

#[test]
fn selectors_are_ids_names_or_beginnings() {
    let store = store_of(vec![
        api_key_account("abc1", "work"),
        api_key_account("abc2", "home"),
    ]);
    assert_eq!(resolve_account_id(&store, "abc2"), Ok("abc2".to_string()));
    assert_eq!(resolve_account_id(&store, "work"), Ok("abc1".to_string()));
    assert_eq!(
        resolve_account_id(&store, "abc"),
        Err(SelectorError::Ambiguous)
    );
    assert_eq!(
        resolve_account_id(&store, "zzz"),
        Err(SelectorError::NotFound)
    );
    let unknown = usage_current_id(Some("work"), &store, &Err("unreadable".to_string()));
    assert_eq!(unknown, Ok(None));
    assert!(usage_current_id(None, &store, &Err("unreadable".to_string())).is_err());
}

#[test]
fn reports_are_found_by_their_account() {
    let reports = vec![
        UsageInfo::failed("a".to_string(), "x".to_string()),
        UsageInfo::failed("b".to_string(), "x".to_string()),
    ];
    assert_eq!(find_report(&reports, "b"), Some(1));
    assert_eq!(find_report(&reports, "c"), None);
}

#[test]
fn secrets_are_known() {
    assert_eq!(
        account_secret_values(&api_key_account("a", "a")),
        vec!["sk-test".to_string()]
    );
    assert_eq!(
        account_secret_values(&chatgpt_account("a", "a")),
        vec![
            "id-token".to_string(),
            "access-token".to_string(),
            "refresh-token".to_string()
        ]
    );
    assert_eq!(
        chatgpt_account_id(&chatgpt_account("a", "a")).as_deref(),
        Some("chatgpt-a")
    );
    assert_eq!(chatgpt_account_id(&api_key_account("a", "a")), None);
}

#[test]
fn moments_are_written_and_read_back() {
    let moment = Timestamp {
        millis: 1_778_673_600_123,
        nanos: 456_789,
    };
    let written = write_moment(moment).expect("the moment is in the calendar");
    assert_eq!(written, "2026-05-13T12:00:00.123456789Z");
    assert_eq!(read_moment(&written), Some(moment));
    assert_eq!(read_moment("2026-05-13T14:00:00+02:00"), read_moment("2026-05-13T12:00:00Z"));
    assert_eq!(read_moment("yesterday"), None);
    assert_eq!(
        parts(Timestamp {
            millis: -1,
            nanos: 0
        }),
        (-1, 999_000_000)
    );
    assert_eq!(
        show_moment(Timestamp {
            millis: 0,
            nanos: 0
        }),
        "1970-01-01T00:00:00+00:00"
    );
    assert_eq!(write_moment(far()), None);
    assert_eq!(show_moment(far()), "9223372036854775");
}

#[test]
fn local_times_have_the_shape_of_times() {
    assert_eq!(format_datetime_option(None), "-");
    let shown = format_datetime_option(Some(Timestamp {
        millis: 1_778_673_600_000,
        nanos: 0,
    }));
    assert_eq!(shown.len(), "2026-05-13 12:00:00 +00:00".len());
    assert!(shown.starts_with("2026-05-1"));
}

#[test]
fn commands_hold_what_was_given() {
    let cli = Cli {
        command: Command::Logs {
            command: LogsCommand::Tail {
                lines: DEFAULT_LOG_TAIL_LINES,
                follow: true,
            },
        },
    };
    assert!(matches!(
        cli.command,
        Command::Logs {
            command: LogsCommand::Tail {
                lines: 100,
                follow: true
            }
        }
    ));
}

fn far() -> Timestamp {
    Timestamp {
        millis: i64::MAX,
        nanos: 0,
    }
}

fn moment(seconds: i64) -> Timestamp {
    Timestamp {
        millis: seconds * 1000,
        nanos: 0,
    }
}

fn store_of(accounts: Vec<StoredAccount>) -> AccountsStore {
    AccountsStore {
        version: 1,
        accounts,
        masked_account_ids: Vec::new(),
    }
}

fn api_key_account(id: &str, name: &str) -> StoredAccount {
    StoredAccount::new_api_key(
        id.to_string(),
        name.to_string(),
        "sk-test".to_string(),
        moment(1_700_000_000),
    )
}

fn chatgpt_account(id: &str, name: &str) -> StoredAccount {
    StoredAccount::new_chatgpt(
        id.to_string(),
        NewChatGptAccount {
            name: name.to_string(),
            email: Some("me@example.com".to_string()),
            plan_type: Some("pro".to_string()),
            chatgpt_user_id: None,
            chatgpt_account_is_fedramp: false,
            token_last_refresh_at: moment(1_700_000_000),
            subscription_expires_at: None,
            id_token: "id-token".to_string(),
            access_token: "access-token".to_string(),
            refresh_token: "refresh-token".to_string(),
            account_id: Some("chatgpt-a".to_string()),
        },
        moment(1_700_000_000),
    )
}
