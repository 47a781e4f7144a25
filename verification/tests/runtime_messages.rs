//! Messages between Codex and its app-server, arguments, and lines of the log.
use codex_switch::accounts::{
    AccountsStore, AuthData, NewChatGptAccount, StoredAccount, Timestamp,
};
use codex_switch::auto_switch::{
    initial_auto_switch_nonfatal_reason, AutoSwitchError, AutoSwitchResult, NoUsableReplacement,
};
use codex_switch::codex_http::CODEX_APP_SERVER_DAEMON_CLIENT_NAME;
use codex_switch::json::Json;
use codex_switch::runtime::args::{
    app_server_args, codex_args_with_default_cwd, format_codex_args_summary_for_log, has_cwd_arg,
    reject_remote_args, remote_codex_args, validate_remote_capable_codex_args,
};
use codex_switch::runtime::chance::{
    new_id, new_request_prefix, random_auto_switch_maintenance_interval,
    random_duration_between, random_token_prewarm_window, runtime_token_file_name, websocket_token,
};
use codex_switch::runtime::login::{
    classify_runtime_login_error, external_auth_payload_from_fresh_account,
    runtime_auth_json_switch_notification, runtime_auto_switch_success_notification,
    runtime_login_success_client_notification, ExternalAuthPayload, RuntimeClientNotification,
    RuntimeLoginResult,
};
use codex_switch::runtime::messages::{
    asks_for_refresh, classify_rate_limit_notification, enable_experimental_api_capability,
    enable_experimental_api_capability_for_message, error_response, find_refresh_account,
    initialize_app_server_request, is_jsonrpc_request, login_request_from_payload, message_json,
    previous_account_id, probe_step, rate_limit_params, refresh_response, response_to_result,
    runtime_client_notification_value, usage_limit_error_requires_switch,
    AppServerRateLimitSnapshot, AppServerRateLimitWindow, Frame, ProbeStep,
    RateLimitAutoSwitchTrigger,
};
use codex_switch::runtime::shown::{
    format_auto_switch_result_for_log, format_elapsed, redact_runtime_log_message,
    sanitize_startup_log_message, Elapsed,
};
use codex_switch::usage::{find_window, UsageInfo, UsageWindowKind, UsedPercent};
use serde_json::Value;

#[test]
fn app_server_probe_uses_codex_daemon_identity_and_experimental_api() {
    let request = to_value(&initialize_app_server_request(
        Json::Number("1".to_string()),
        "1.2.3",
    ));

    assert_eq!(request.get("id"), Some(&Value::from(1)));
    assert_eq!(
        request.get("method").and_then(|value| value.as_str()),
        Some("initialize")
    );
    assert_eq!(
        request
            .pointer("/params/clientInfo/name")
            .and_then(|value| value.as_str()),
        Some(CODEX_APP_SERVER_DAEMON_CLIENT_NAME)
    );
    assert_eq!(
        request
            .pointer("/params/clientInfo/title")
            .and_then(|value| value.as_str()),
        Some("Codex App Server Daemon")
    );
    assert!(request
        .pointer("/params/clientInfo/version")
        .and_then(|value| value.as_str())
        .is_some_and(|value| !value.is_empty()));
    assert_eq!(
        request
            .pointer("/params/capabilities/experimentalApi")
            .and_then(|value| value.as_bool()),
        Some(true)
    );
}

#[test]
fn proxy_initialize_enables_experimental_api_and_preserves_capabilities() {
    let request = json(
        r#"{
            "id": 1,
            "method": "initialize",
            "params": {
                "clientInfo": {
                    "name": "codex-tui",
                    "version": "1.0.0"
                },
                "capabilities": {
                    "experimentalApi": false,
                    "requestAttestation": true
                }
            }
        }"#,
    );

    let request = enabled(request);
    assert_eq!(
        request.pointer("/params/capabilities/experimentalApi"),
        Some(&Value::from(true))
    );
    assert_eq!(
        request.pointer("/params/capabilities/requestAttestation"),
        Some(&Value::from(true))
    );
}

#[test]
fn proxy_initialize_adds_missing_capabilities() {
    let request = json(
        r#"{
            "id": 1,
            "method": "initialize",
            "params": {
                "clientInfo": {
                    "name": "codex-tui",
                    "version": "1.0.0"
                }
            }
        }"#,
    );

    let request = enabled(request);
    assert_eq!(
        request.pointer("/params/capabilities/experimentalApi"),
        Some(&Value::from(true))
    );
}

#[test]
fn proxy_non_initialize_message_is_unchanged() {
    let request = json(r#"{"id": 1, "method": "thread/start", "params": {}}"#);
    let original = to_value(&request);

    match enable_experimental_api_capability(request) {
        Ok(_) => panic!("nothing should be enabled"),
        Err(request) => assert_eq!(to_value(&request), original),
    }
}

#[test]
fn proxy_only_inspects_client_messages_until_initialize_is_enabled() {
    let mut capability_pending = true;
    let non_initialize = r#"{"id":1,"method":"thread/start","params":{}}"#;

    let changed = enable_experimental_api_capability_for_message(
        &Frame::Text(non_initialize),
        &mut capability_pending,
    );

    assert!(capability_pending);
    assert!(changed.is_none());

    let initialize = r#"{"id":2,"method":"initialize","params":{"clientInfo":{"name":"codex-tui","version":"1.0.0"}}}"#;

    let changed = enable_experimental_api_capability_for_message(
        &Frame::Text(initialize),
        &mut capability_pending,
    );

    assert!(!capability_pending);
    let initialize: Value =
        serde_json::from_str(&changed.expect("initialize should remain a text message"))
            .expect("initialize should remain valid JSON");
    assert_eq!(
        initialize.pointer("/params/capabilities/experimentalApi"),
        Some(&Value::from(true))
    );

    let changed = enable_experimental_api_capability_for_message(
        &Frame::Text("not-json"),
        &mut capability_pending,
    );
    assert!(changed.is_none());
}

#[test]
fn startup_log_message_sanitizes_control_characters() {
    assert_eq!(
        sanitize_startup_log_message("before\n\u{1b}[31mafter\tend"),
        "before??[31mafter?end"
    );
}

#[test]
fn initial_auto_switch_no_usable_replacement_is_nonfatal() {
    let err = AutoSwitchError::NoUsableReplacement(NoUsableReplacement::new(
        "rate limit reached".to_string(),
    ));

    assert_eq!(
        initial_auto_switch_nonfatal_reason(&err),
        Some("rate limit reached")
    );
}

#[test]
fn initial_auto_switch_other_errors_remain_fatal() {
    let err = AutoSwitchError::Other("network failed".to_string());

    assert_eq!(initial_auto_switch_nonfatal_reason(&err), None);
}

#[test]
fn runtime_log_redaction_sanitizes_known_secrets() {
    let secret = "secret value/with-symbols".to_string();
    let encoded = urlencoding::encode(&secret);
    let message = format!("before\nraw={secret} encoded={encoded}");

    let redacted = redact_runtime_log_message(&message, &vec![secret]);

    assert_eq!(redacted, "before?raw=<redacted> encoded=<redacted>");
}

#[test]
fn codex_args_summary_does_not_log_argument_values() {
    assert_eq!(
        format_codex_args_summary_for_log(&args(&[])),
        "default (0 args)"
    );
    assert_eq!(
        format_codex_args_summary_for_log(&args(&["resume", "session-id"])),
        "resume (2 args)"
    );
    assert_eq!(
        format_codex_args_summary_for_log(&args(&["--model", "gpt-test"])),
        "default (2 args)"
    );
}

#[test]
fn auto_switch_log_result_sanitizes_account_names_and_reasons() {
    let mut from = chatgpt_account("from-account-id");
    from.name = "from\naccount".to_string();
    let mut to = chatgpt_account("to-account-id");
    to.name = "to\taccount".to_string();
    let result = AutoSwitchResult::Switched {
        from: Some(Box::new(from)),
        to: Box::new(to),
        reason: "weekly\nusage is 100.0%".to_string(),
    };

    assert_eq!(
        format_auto_switch_result_for_log(&result),
        "switched from?account (from-acc) -> to?account (to-accou) - weekly?usage is 100.0%"
    );
}

#[test]
fn rate_limit_notification_classifies_hard_limit() {
    assert_eq!(
        trigger(Some(100.0), None, None),
        RateLimitAutoSwitchTrigger::Hard
    );
    assert_eq!(
        trigger(Some(94.0), None, None),
        RateLimitAutoSwitchTrigger::Nothing
    );
}

#[test]
fn rate_limit_notification_classifies_limit_type_as_hard() {
    assert_eq!(
        trigger(None, None, Some("workspace_owner_usage_limit_reached")),
        RateLimitAutoSwitchTrigger::Hard
    );
}

#[test]
fn rate_limit_notification_classifies_near_five_hour_bottleneck_as_soft() {
    assert_eq!(
        trigger(Some(95.0), Some(20.0), None),
        RateLimitAutoSwitchTrigger::Soft
    );
}

#[test]
fn rate_limit_notification_classifies_near_weekly_bottleneck_as_soft() {
    assert_eq!(
        trigger(Some(50.0), Some(99.0), None),
        RateLimitAutoSwitchTrigger::Soft
    );
}

#[test]
fn rate_limit_notification_soft_triggers_with_only_near_primary_window() {
    assert_eq!(
        trigger(Some(95.0), None, None),
        RateLimitAutoSwitchTrigger::Soft
    );
}

#[test]
fn rate_limit_notification_soft_triggers_with_only_near_secondary_window() {
    assert_eq!(
        trigger(None, Some(99.0), None),
        RateLimitAutoSwitchTrigger::Soft
    );
}

#[test]
fn rate_limit_notification_scales_swapped_windows_by_duration() {
    assert_eq!(
        trigger_with_windows(Some((98.0, Some(10_080))), Some((94.0, Some(300))), None),
        RateLimitAutoSwitchTrigger::Nothing
    );
}

#[test]
fn secondary_five_hour_window_can_trigger_soft_switch() {
    assert_eq!(
        trigger_with_windows(None, Some((95.0, Some(300))), None),
        RateLimitAutoSwitchTrigger::Soft
    );
}

#[test]
fn missing_duration_window_only_triggers_at_hard_limit() {
    assert_eq!(
        trigger_with_windows(Some((99.0, None)), None, None),
        RateLimitAutoSwitchTrigger::Nothing
    );
    assert_eq!(
        trigger_with_windows(Some((100.0, None)), None, None),
        RateLimitAutoSwitchTrigger::Hard
    );
}

#[test]
fn rate_limit_notification_does_not_soft_trigger_with_safe_headroom() {
    assert_eq!(
        trigger(Some(94.0), Some(90.0), None),
        RateLimitAutoSwitchTrigger::Nothing
    );
}

#[test]
fn usage_limit_error_triggers_switch() {
    assert!(usage_limit_error_requires_switch(&json(
        r#"{
            "method": "error",
            "params": {
                "error": {
                    "message": "You've hit your usage limit. Try again later.",
                    "codexErrorInfo": null,
                    "additionalDetails": null
                },
                "willRetry": false,
                "threadId": "thread",
                "turnId": "turn"
            }
        }"#
    )));
    assert!(usage_limit_error_requires_switch(&json(
        r#"{
            "method": "error",
            "params": {
                "error": {
                    "message": "rate limited",
                    "codexErrorInfo": "usageLimitExceeded",
                    "additionalDetails": null
                },
                "willRetry": false,
                "threadId": "thread",
                "turnId": "turn"
            }
        }"#
    )));
    assert!(!usage_limit_error_requires_switch(&json(
        r#"{
            "method": "error",
            "params": {
                "error": {
                    "message": "context window exceeded",
                    "codexErrorInfo": "contextWindowExceeded",
                    "additionalDetails": null
                },
                "willRetry": false,
                "threadId": "thread",
                "turnId": "turn"
            }
        }"#
    )));
}

#[test]
fn random_duration_between_stays_within_bounds() {
    for _ in 0..100 {
        let duration = random_duration_between(10_000_000_000, 20_000_000_000);
        assert!(duration >= 10_000_000_000);
        assert!(duration <= 20_000_000_000);
    }

    assert_eq!(
        random_duration_between(30_000_000_000, 30_000_000_000),
        30_000_000_000
    );
}

#[test]
fn runtime_login_error_classification_separates_terminal_and_transient() {
    assert!(matches!(
        classify_runtime_login_error("invalid_grant"),
        RuntimeLoginResult::Terminal(_)
    ));
    assert!(matches!(
        classify_runtime_login_error("token endpoint timed out"),
        RuntimeLoginResult::Transient(_)
    ));
}

#[test]
fn runtime_auth_payload_rejects_api_key_accounts() {
    let account = StoredAccount::new_api_key(
        "id".to_string(),
        "api-key".to_string(),
        "sk-test".to_string(),
        moment(1_700_000_000),
    );
    match external_auth_payload_from_fresh_account(&account) {
        Ok(_) => panic!("API key accounts cannot be loaded as ChatGPT runtime auth"),
        Err(err) => {
            assert!(err.contains("API key accounts do not support runtime switching"))
        }
    }
}

#[test]
fn runtime_auto_switch_success_notification_formats_display_safe_warning() {
    let mut from = chatgpt_account("from-account-id");
    from.name = "from\naccount".to_string();
    let mut to = chatgpt_account("to-account-id");
    to.name = "to\taccount".to_string();

    let notification =
        runtime_auto_switch_success_notification(Some(&from), &to, "weekly\nusage is 100.0%");

    assert_eq!(
        notification.as_ref().map(warning),
        Some("codex-switch switched account from from?account (from-acc) to to?account (to-accou) because weekly?usage is 100.0%")
    );
}

#[test]
fn runtime_auto_switch_success_notification_skips_same_account() {
    let account = chatgpt_account("account-a");

    assert!(
        runtime_auto_switch_success_notification(Some(&account), &account, "usage changed")
            .is_none()
    );
}

#[test]
fn runtime_auth_json_switch_notification_formats_warning() {
    let mut account = chatgpt_account("account-a");
    account.name = "work\naccount".to_string();

    assert_eq!(
        warning(&runtime_login_success_client_notification(
            runtime_auth_json_switch_notification(&account),
            Some("personal (a6bf89b9)")
        )),
        "codex-switch switched account from personal (a6bf89b9) to work?account (account-) because current auth.json changed"
    );
}

#[test]
fn runtime_client_warning_notification_uses_codex_warning_shape() {
    let expected: Value = serde_json::from_str(
        r#"{
            "method": "warning",
            "params": {
                "threadId": null,
                "message": "codex-switch switched account from a to b"
            }
        }"#,
    )
    .expect("expected value should parse");
    assert_eq!(
        to_value(&runtime_client_notification_value(
            &RuntimeClientNotification::Warning {
                message: "codex-switch switched account from a to b".to_string()
            }
        )),
        expected
    );
}

#[test]
fn run_rejects_non_remote_codex_subcommands() {
    assert!(validate_remote_capable_codex_args(&args(&[])).is_ok());
    assert!(validate_remote_capable_codex_args(&args(&["resume"])).is_ok());
    assert!(validate_remote_capable_codex_args(&args(&["fork"])).is_ok());
    assert!(validate_remote_capable_codex_args(&args(&["--model"])).is_ok());
    assert!(validate_remote_capable_codex_args(&args(&["exec"])).is_err());
}

#[test]
fn run_injects_cwd_for_default_tui() {
    assert_eq!(
        codex_args_with_default_cwd(&args(&[]), "/repo"),
        args(&["-C", "/repo"])
    );
}

#[test]
fn run_injects_cwd_after_interactive_subcommand() {
    assert_eq!(
        codex_args_with_default_cwd(&args(&["resume"]), "/repo"),
        args(&["resume", "-C", "/repo"])
    );
    assert_eq!(
        codex_args_with_default_cwd(&args(&["fork", "session-id"]), "/repo"),
        args(&["fork", "-C", "/repo", "session-id"])
    );
}

#[test]
fn run_does_not_override_explicit_cwd() {
    assert!(has_cwd_arg(&args(&["-C", "/other"])));
    assert!(has_cwd_arg(&args(&["--cd", "/other"])));
    assert!(has_cwd_arg(&args(&["--cd=/other"])));

    assert_eq!(
        codex_args_with_default_cwd(&args(&["resume", "--cd=/other"]), "/repo"),
        args(&["resume", "--cd=/other"])
    );
}

#[test]
fn remote_options_are_left_to_the_program() {
    assert!(reject_remote_args(&args(&["resume"])).is_ok());
    assert_eq!(
        reject_remote_args(&args(&["--remote=ws://x"])),
        Err("do not pass --remote to codex-switch run".to_string())
    );
    assert_eq!(
        reject_remote_args(&args(&["--remote-auth-token-env", "X"])),
        Err("do not pass --remote-auth-token-env to codex-switch run".to_string())
    );
    let given = args(&["resume", "--last"]);
    let whole = remote_codex_args(given, "ws://127.0.0.1:9");
    assert!(whole.contains(&"ws://127.0.0.1:9".to_string()));
    assert!(whole.contains(&"--last".to_string()));
    assert!(app_server_args("ws://127.0.0.1:9", "/tmp/token").contains(&"app-server".to_string()));
}

#[test]
fn chance_stays_in_its_bounds() {
    for _ in 0..20 {
        assert!((900_000_000_000..=2_700_000_000_000).contains(&random_auto_switch_maintenance_interval()));
        assert!((300_000_000_000..=480_000_000_000).contains(&random_token_prewarm_window()));
    }
    assert_ne!(websocket_token(), websocket_token());
    assert_ne!(new_id(), new_id());
    assert_eq!(new_id().len(), 36);
    assert_ne!(runtime_token_file_name(), runtime_token_file_name());
    let prefix = new_request_prefix();
    assert!(prefix.starts_with("codex-switch/"));
    assert_ne!(prefix, new_request_prefix());
}

#[test]
fn answers_are_told_from_requests() {
    assert!(is_jsonrpc_request(&json(r#"{"id":1,"method":"m"}"#)));
    assert!(!is_jsonrpc_request(&json(r#"{"id":1,"result":null}"#)));
    assert!(response_to_result(&json(r#"{"id":1,"result":null}"#)).is_ok());
    assert_eq!(
        response_to_result(&json(r#"{"id":1,"error":{"message":"no"}}"#)),
        Err("no".to_string())
    );
    assert_eq!(
        response_to_result(&json(r#"{"id":1,"error":{}}"#)),
        Err("Codex app-server request failed".to_string())
    );
    assert_eq!(
        response_to_result(&json(r#"{"id":1}"#)),
        Err("Codex app-server response did not include result".to_string())
    );
    assert!(message_json(&Frame::Text("{")).is_err());
    assert!(matches!(message_json(&Frame::Close), Ok(None)));
}

#[test]
fn a_probe_waits_for_its_answer() {
    assert!(matches!(
        probe_step(&json(r#"{"id":1,"result":{}}"#)),
        ProbeStep::Ready
    ));
    assert!(matches!(
        probe_step(&json(r#"{"id":1,"error":{"message":"no"}}"#)),
        ProbeStep::Failed(m) if m == "no"
    ));
    assert!(matches!(
        probe_step(&json(r#"{"id":2,"method":"ask"}"#)),
        ProbeStep::TurnDown(Some(_))
    ));
    assert!(matches!(
        probe_step(&json(r#"{"method":"tell"}"#)),
        ProbeStep::Ignore
    ));
}

#[test]
fn a_refresh_is_asked_for_and_answered() {
    let request = json(
        r#"{"id":5,"method":"account/chatgptAuthTokens/refresh","params":{"previousAccountId":"b"}}"#,
    );
    assert!(asks_for_refresh(&request));
    assert_eq!(previous_account_id(&request).as_deref(), Some("b"));
    let store = AccountsStore {
        version: 1,
        accounts: vec![chatgpt_account("a"), chatgpt_account("b")],
        masked_account_ids: Vec::new(),
    };
    let found = find_refresh_account(&store, None, Some("b")).unwrap_or_else(|e| panic!("{e}"));
    assert_eq!(found.id, "b");
    assert!(find_refresh_account(&store, None, Some("c")).is_err());

    let answer = to_value(&refresh_response(
        Some(Json::Number("5".to_string())),
        &payload(),
    ));
    assert_eq!(answer["id"], Value::from(5));
    assert_eq!(answer["result"]["accessToken"], Value::from("access-token"));
    let refusal = to_value(&error_response(None, "no"));
    assert_eq!(refusal["error"]["message"], Value::from("no"));
}

#[test]
fn a_login_carries_the_tokens() {
    let request = to_value(&login_request_from_payload(
        Json::Text("r".to_string()),
        &payload(),
    ));
    assert_eq!(request["id"], Value::from("r"));
    assert_eq!(request["params"]["accessToken"], Value::from("access-token"));
}

#[test]
fn reports_on_rate_limits_are_found() {
    assert!(rate_limit_params(&json(
        r#"{"method":"account/rateLimits/updated","params":{"rateLimits":{}}}"#
    ))
    .is_some());
    assert!(rate_limit_params(&json(r#"{"method":"other","params":{}}"#)).is_none());
    assert_eq!(
        classify_rate_limit_notification(None, 0),
        RateLimitAutoSwitchTrigger::Nothing
    );
}

#[test]
fn times_are_shown_in_few_signs() {
    assert_eq!(
        format_elapsed(&Elapsed {
            millis: 12,
            seconds_shown: "0.0".to_string()
        }),
        "12ms"
    );
    assert_eq!(
        format_elapsed(&Elapsed {
            millis: 1500,
            seconds_shown: "1.5".to_string()
        }),
        "1.5s"
    );
}

fn args(values: &[&str]) -> Vec<String> {
    values.iter().map(|value| value.to_string()).collect()
}

fn json(text: &str) -> Json {
    match message_json(&Frame::Text(text)) {
        Ok(Some(value)) => value,
        _ => panic!("test JSON should parse"),
    }
}

fn to_value(json: &Json) -> Value {
    serde_json::from_str(&json.render()).expect("rendered JSON should parse")
}

fn enabled(request: Json) -> Value {
    match enable_experimental_api_capability(request) {
        Ok(changed) => to_value(&changed),
        Err(_) => panic!("the capability should be enabled"),
    }
}

fn warning(notification: &RuntimeClientNotification) -> &str {
    match notification {
        RuntimeClientNotification::Warning { message } => message,
    }
}

fn payload() -> ExternalAuthPayload {
    ExternalAuthPayload {
        access_token: "access-token".to_string(),
        chatgpt_account_id: "account-a".to_string(),
        chatgpt_plan_type: Some("pro".to_string()),
    }
}

fn moment(seconds: i64) -> Timestamp {
    Timestamp {
        millis: seconds * 1000,
        nanos: 0,
    }
}

fn chatgpt_account(account_id: &str) -> StoredAccount {
    let account = StoredAccount::new_chatgpt(
        account_id.to_string(),
        NewChatGptAccount {
            name: account_id.to_string(),
            email: None,
            plan_type: Some("pro".to_string()),
            chatgpt_user_id: None,
            chatgpt_account_is_fedramp: false,
            token_last_refresh_at: moment(1_700_000_000),
            subscription_expires_at: None,
            id_token: "id-token".to_string(),
            access_token: "access-token".to_string(),
            refresh_token: "refresh-token".to_string(),
            account_id: Some(account_id.to_string()),
        },
        moment(1_700_000_000),
    );
    assert!(matches!(account.auth_data, AuthData::ChatGPT { .. }));
    account
}

fn used(percent: f64) -> UsedPercent {
    let left = (100.0 - percent).clamp(0.0, 100.0);
    UsedPercent {
        bits: percent.to_bits(),
        headroom: left.to_bits(),
        shown: format!("{percent:.1}"),
        left_shown: format!("{left:.1}"),
        left_cells: (left / 100.0 * 20.0).round() as u64,
        number: format!("{percent:?}"),
        left_number: format!("{left:?}"),
    }
}

fn weekly_units(info: &UsageInfo) -> u64 {
    match find_window(&info.primary, &info.secondary, UsageWindowKind::Weekly) {
        Some(window) => match &window.used_percent {
            Some(used) => (f64::from_bits(used.headroom) * 4.0).to_bits(),
            None => 0,
        },
        None => 0,
    }
}

fn trigger(
    primary: Option<f64>,
    secondary: Option<f64>,
    reached: Option<&str>,
) -> RateLimitAutoSwitchTrigger {
    trigger_with_windows(
        primary.map(|percent| (percent, Some(300))),
        secondary.map(|percent| (percent, Some(10_080))),
        reached,
    )
}

fn trigger_with_windows(
    primary: Option<(f64, Option<i64>)>,
    secondary: Option<(f64, Option<i64>)>,
    reached: Option<&str>,
) -> RateLimitAutoSwitchTrigger {
    let window = |(percent, minutes): (f64, Option<i64>)| AppServerRateLimitWindow {
        used_percent: used(percent),
        window_duration_mins: minutes,
        resets_at: None,
    };
    let info = AppServerRateLimitSnapshot {
        limit_id: None,
        limit_name: None,
        primary: primary.map(window),
        secondary: secondary.map(window),
        credits: None,
        plan_type: None,
        rate_limit_reached_type: reached.map(str::to_string),
    }
    .into_usage_info();
    classify_rate_limit_notification(Some(&info), weekly_units(&info))
}
