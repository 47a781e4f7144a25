//! Reports in JSON.
use codex_switch::accounts::{AccountsStore, NewChatGptAccount, StoredAccount, Timestamp};
use codex_switch::doctor::{DoctorCheck, DoctorReport};
use codex_switch::forecast::{
    ForecastLimit, ForecastRate, ForecastUnavailableReason, UsageForecast, UsageForecastOutcome,
    UsageForecastRates,
};
use codex_switch::json::Json;
use codex_switch::json_output::{
    doctor_report, forecast_json, list_report, usage_info_json, usage_report, usage_window_json,
    UsageJsonEntry,
};
use codex_switch::usage::{
    CreditsBalance, UsageInfo, UsageLimitInfo, UsageWindowData, UsedPercent, UNSUPPORTED,
};
use serde_json::Value;

#[test]
fn list_json_omits_secret_fields_and_values() {
    let api = StoredAccount::new_api_key(
        "api-account-id".to_string(),
        "api".to_string(),
        "sk-secret-json-output".to_string(),
        moment(1_700_000_000),
    );
    let oauth = StoredAccount::new_chatgpt(
        "oauth-account-id".to_string(),
        NewChatGptAccount {
            name: "oauth".to_string(),
            email: Some("user@example.com".to_string()),
            plan_type: Some("pro".to_string()),
            chatgpt_user_id: Some("user-id".to_string()),
            chatgpt_account_is_fedramp: false,
            token_last_refresh_at: moment(1_700_000_010),
            subscription_expires_at: Some(moment(1_800_000_000)),
            id_token: "id-token-secret-json-output".to_string(),
            access_token: "access-token-secret-json-output".to_string(),
            refresh_token: "refresh-token-secret-json-output".to_string(),
            account_id: Some("chatgpt-account".to_string()),
        },
        moment(1_700_000_000),
    );
    let store = store_of(vec![api, oauth]);

    let json = list_report(&store, Some("api-account-id")).render();

    assert!(json.contains("\"schema_version\":1"));
    assert!(json.contains("\"current\":true"));
    assert!(!json.contains("auth_data"));
    assert!(!json.contains("OPENAI_API_KEY"));
    assert!(!json.contains("sk-secret-json-output"));
    assert!(!json.contains("id-token-secret-json-output"));
    assert!(!json.contains("access-token-secret-json-output"));
    assert!(!json.contains("refresh-token-secret-json-output"));

    let value: Value = serde_json::from_str(&json).expect("list JSON should parse");
    assert_eq!(
        value["accounts"][0]["created_at"],
        Value::from(1_700_000_000)
    );
    assert_eq!(
        value["accounts"][1]["token_last_refresh_at"],
        Value::from(1_700_000_010)
    );
}

#[test]
fn list_json_handles_empty_store() {
    let value = to_value(&list_report(&store_of(Vec::new()), None));

    assert_eq!(value["schema_version"], Value::from(1));
    assert_eq!(value["command"], Value::from("list"));
    assert_eq!(value["accounts"], Value::Array(Vec::new()));
}

#[test]
fn usage_json_reports_statuses_and_hides_additional_limits_by_default() {
    let now = 1_800_000_000;
    let mut account = work_account();
    account.auto_switch_disabled = true;
    account.created_at = moment(now - 60);
    let info = usage_info_with_additional_limit("account-id", now);

    let report = usage_report(
        &vec![UsageJsonEntry {
            account: &account,
            usage: &info,
        }],
        Some("account-id"),
        false,
        false,
        now,
        None,
    );
    let value = to_value(&report);

    assert_eq!(value["schema_version"], Value::from(1));
    assert_eq!(value["command"], Value::from("usage"));
    assert_eq!(
        value["accounts"][0]["account"]["current"],
        Value::from(true)
    );
    assert_eq!(
        value["accounts"][0]["account"]["auto_switch_disabled"],
        Value::from(true)
    );
    assert_eq!(value["accounts"][0]["usage"]["status"], Value::from("ok"));
    assert_eq!(
        value["accounts"][0]["usage"]["five_hour"]["left_percent"],
        Value::from(90.0)
    );
    assert!(value["accounts"][0]["usage"]["additional_limits"].is_null());
}

#[test]
fn usage_json_maps_canonical_windows_by_duration() {
    let now = 1_800_000_000;
    let mut info = usage_info_with_additional_limit("account-id", now);
    std::mem::swap(&mut info.primary, &mut info.secondary);

    let value = to_value(&usage_info_json(&info, false));

    assert_eq!(value["five_hour"]["used_percent"], Value::from(10.0));
    assert_eq!(value["five_hour"]["window_minutes"], Value::from(300));
    assert_eq!(value["weekly"]["used_percent"], Value::from(20.0));
    assert_eq!(value["weekly"]["window_minutes"], Value::from(10_080));
}

#[test]
fn usage_json_keeps_missing_canonical_window_objects_compatible() {
    let now = 1_800_000_000;
    let mut info = usage_info_with_additional_limit("account-id", now);
    info.primary.window_minutes = Some(120);
    info.secondary = UsageWindowData {
        used_percent: None,
        window_minutes: None,
        resets_at: None,
    };

    let value = to_value(&usage_info_json(&info, false));

    assert!(value["five_hour"].is_object());
    assert!(value["five_hour"]["used_percent"].is_null());
    assert!(value["weekly"].is_object());
    assert!(value["weekly"]["used_percent"].is_null());
}

#[test]
fn usage_json_handles_empty_account_set() {
    let report = usage_report(&Vec::new(), None, true, false, 1_800_000_000, None);
    let value = to_value(&report);

    assert_eq!(value["schema_version"], Value::from(1));
    assert_eq!(value["command"], Value::from("usage"));
    assert_eq!(value["all"], Value::from(true));
    assert_eq!(value["generated_at"], Value::from(1_800_000_000));
    assert_eq!(value["current_account_id"], Value::Null);
    assert_eq!(value["accounts"], Value::Array(Vec::new()));
    assert!(value["forecast"].is_null());
}

#[test]
fn usage_json_includes_additional_limits_when_requested() {
    let now = 1_800_000_000;
    let account = work_account();
    let info = usage_info_with_additional_limit("account-id", now);
    let forecast = UsageForecast {
        rates: None,
        outcome: UsageForecastOutcome::NotEnoughData {
            reason: ForecastUnavailableReason::IncompleteUsageData,
        },
    };

    let report = usage_report(
        &vec![UsageJsonEntry {
            account: &account,
            usage: &info,
        }],
        Some("account-id"),
        true,
        true,
        now,
        Some(&forecast),
    );
    let value = to_value(&report);

    assert_eq!(
        value["accounts"][0]["usage"]["additional_limits"][0]["limit_name"],
        Value::from("GPT-5.3-Codex-Spark")
    );
    assert_eq!(value["forecast"]["status"], Value::from("not_enough_data"));
    assert_eq!(
        value["forecast"]["reason"],
        Value::from("incomplete usage data")
    );
}

#[test]
fn usage_json_reports_unsupported_and_error_accounts() {
    let account = work_account();
    let unsupported = UsageInfo::failed(account.id.clone(), UNSUPPORTED.to_string());
    let error = UsageInfo::failed(account.id.clone(), "refresh failed".to_string());

    assert_eq!(
        to_value(&usage_info_json(&unsupported, false))["status"],
        Value::from("unsupported")
    );
    assert_eq!(
        to_value(&usage_info_json(&error, false))["status"],
        Value::from("error")
    );
}

#[test]
fn usage_json_reports_forecast_outcome() {
    let forecast = UsageForecast {
        rates: Some(UsageForecastRates {
            five_hour_percent_per_hour: Some(rate(12.5)),
            weekly_percent_per_hour: Some(rate(0.8)),
        }),
        outcome: UsageForecastOutcome::Unavailable {
            at: 1_800_000_000,
            limited_by: ForecastLimit::Weekly,
            recovery_at: Some(1_800_003_600),
        },
    };

    let value = to_value(&forecast_json(&forecast));

    assert_eq!(value["status"], Value::from("unavailable"));
    assert_eq!(value["limited_by"], Value::from("weekly"));
    assert_eq!(value["recovery_at"], Value::from(1_800_003_600));
    assert_eq!(
        value["rates"]["five_hour_percent_per_hour"],
        Value::from(12.5)
    );
}

#[test]
fn usage_json_preserves_rate_keys_for_a_single_active_window() {
    let forecast = UsageForecast {
        rates: Some(UsageForecastRates {
            five_hour_percent_per_hour: None,
            weekly_percent_per_hour: Some(rate(0.8)),
        }),
        outcome: UsageForecastOutcome::NotExpected {
            horizon_seconds: 14 * 24 * 60 * 60,
        },
    };

    let value = to_value(&forecast_json(&forecast));

    assert!(value["rates"]["five_hour_percent_per_hour"].is_null());
    assert_eq!(value["rates"]["weekly_percent_per_hour"], Value::from(0.8));
}

#[test]
fn doctor_json_preserves_check_status_without_human_formatting() {
    let mut report = DoctorReport::new();
    report.push(DoctorCheck::ok("install", "ok".to_string()));
    report.push(DoctorCheck::warn("auth", "warn".to_string()).with_hint("fix"));
    report.push(DoctorCheck::error("store", "error".to_string()));

    let value = to_value(&doctor_report(&report));

    assert_eq!(value["schema_version"], Value::from(1));
    assert_eq!(value["command"], Value::from("doctor"));
    assert_eq!(value["has_errors"], Value::from(true));
    assert_eq!(value["checks"][1]["severity"], Value::from("warn"));
    assert_eq!(value["checks"][1]["hints"], Value::from(vec!["fix"]));
}

#[test]
fn non_finite_usage_percent_is_omitted() {
    let window = usage_window_json(&Some(used(f64::NAN)), Some(300), Some(1_800_000_000));
    let value = to_value(&window);

    assert!(value["used_percent"].is_null());
    assert!(value["left_percent"].is_null());
}

#[test]
fn text_is_quoted() {
    let shown = Json::Text("a\"b\\c\n\u{1}é".to_string()).render();
    assert_eq!(shown, "\"a\\\"b\\\\c\\n\\u0001é\"");
    assert_eq!(to_value(&Json::Text("a\"b".to_string())), Value::from("a\"b"));
}

#[test]
fn reports_are_laid_out_over_lines() {
    let report = list_report(&store_of(Vec::new()), None).render_pretty("");
    assert_eq!(
        report,
        "{\n  \"schema_version\": 1,\n  \"command\": \"list\",\n  \"accounts\": []\n}"
    );
}

fn to_value(json: &Json) -> Value {
    serde_json::from_str(&json.render()).expect("rendered JSON should parse")
}

fn moment(seconds: i64) -> Timestamp {
    Timestamp {
        millis: seconds * 1000,
        nanos: 0,
    }
}

fn store_of(accounts: Vec<StoredAccount>) -> AccountsStore {
    AccountsStore {
        version: 1,
        accounts,
        masked_account_ids: Vec::new(),
    }
}

fn work_account() -> StoredAccount {
    StoredAccount::new_api_key(
        "account-id".to_string(),
        "work".to_string(),
        "sk-test".to_string(),
        moment(1_700_000_000),
    )
}

fn rate(value: f64) -> ForecastRate {
    ForecastRate {
        bits: value.to_bits(),
        shown: format!("{value:.1}"),
        number: format!("{value:?}"),
    }
}

fn used(percent: f64) -> UsedPercent {
    let left = (100.0 - percent).clamp(0.0, 100.0);
    UsedPercent {
        bits: percent.to_bits(),
        headroom: left.to_bits(),
        shown: format!("{percent:.1}"),
        left_shown: format!("{left:.1}"),
        left_cells: (left / 100.0 * 20.0).round() as u64,
        number: format!("{percent:?}"),
        left_number: format!("{left:?}"),
    }
}

fn window(percent: f64, minutes: i64, resets_at: i64) -> UsageWindowData {
    UsageWindowData {
        used_percent: Some(used(percent)),
        window_minutes: Some(minutes),
        resets_at: Some(resets_at),
    }
}

fn usage_info_with_additional_limit(account_id: &str, now: i64) -> UsageInfo {
    UsageInfo {
        account_id: account_id.to_string(),
        limit_id: Some("default".to_string()),
        limit_name: Some("Default".to_string()),
        plan_type: Some("pro".to_string()),
        primary: window(10.0, 300, now + 60 * 60),
        secondary: window(20.0, 10_080, now + 2 * 24 * 60 * 60),
        has_credits: Some(true),
        unlimited_credits: Some(false),
        credits_balance: Some(CreditsBalance {
            text: "42".to_string(),
            is_spent: false,
        }),
        rate_limit_reset_credits_available: Some(2),
        rate_limit_reached_type: None,
        additional_limits: vec![UsageLimitInfo {
            limit_id: Some("gpt-5.3-codex-spark".to_string()),
            limit_name: Some("GPT-5.3-Codex-Spark".to_string()),
            primary: window(0.0, 300, now + 2 * 60 * 60),
            secondary: window(0.0, 10_080, now + 3 * 24 * 60 * 60),
        }],
        error: None,
    }
}
