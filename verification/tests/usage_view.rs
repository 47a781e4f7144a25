//! Usage as it is shown.
use chrono::{Datelike, TimeZone};
use codex_switch::accounts::{
    has_forecastable_usage_account, short_id, usage_account_from_store, AccountsStore, AuthData,
    NewChatGptAccount, StoredAccount, Timestamp, UsageAccountError,
};
use codex_switch::forecast::{
    ForecastLimit, ForecastRate, ForecastUnavailableReason, UsageForecast, UsageForecastOutcome,
    UsageForecastRates,
};
use codex_switch::usage::{
    CreditsBalance, UsageInfo, UsageLimitInfo, UsageWindowData, UsedPercent,
};
use codex_switch::usage_view::{
    format_limit_status, format_limit_window, format_rate_limit_reset_credits,
    format_reset_detail, format_reset_duration, format_reset_remaining_bar,
    format_reset_remaining_percent, format_reset_timestamp_option, format_short_reset_datetime,
    format_usage, format_usage_account_header, format_usage_forecast, format_usage_left_bar,
    format_usage_left_percent, remaining_windows, reset_window_remaining, show_windows,
    LocalMoment, ResetShare, WindowShown,
};

const NOW: i64 = 1_800_000_000;

fn left(percent: f64) -> f64 {
    if percent.is_finite() {
        (100.0 - percent).clamp(0.0, 100.0)
    } else {
        0.0
    }
}

fn used(percent: f64) -> UsedPercent {
    let left = left(percent);
    UsedPercent {
        bits: percent.to_bits(),
        headroom: (100.0 - percent).clamp(0.0, 100.0).to_bits(),
        shown: format!("{percent:.1}"),
        left_shown: format!("{left:.1}"),
        left_cells: (left / 100.0 * 20.0).round() as u64,
        number: format!("{percent:?}"),
        left_number: format!("{left:?}"),
    }
}

fn share_of(remaining: Option<(i64, i64)>) -> Option<ResetShare> {
    remaining.map(|(seconds, window)| {
        let ratio = (seconds as f64 / window as f64).clamp(0.0, 1.0);
        ResetShare {
            percent_shown: format!("{:.0}", ratio * 100.0),
            cells: (ratio * 20.0).round() as u64,
        }
    })
}

fn share(resets_at: Option<i64>, window_minutes: Option<i64>, now: i64) -> Option<ResetShare> {
    share_of(reset_window_remaining(resets_at, window_minutes, now))
}

fn window_shown(resets_at: i64, window_minutes: i64) -> WindowShown {
    WindowShown {
        share: share(Some(resets_at), Some(window_minutes), NOW),
        reset: format_reset_timestamp_option(Some(resets_at), NOW),
    }
}

fn shown(
    account: &StoredAccount,
    info: &UsageInfo,
    is_current: bool,
    show_additional: bool,
) -> String {
    let shares = remaining_windows(info, NOW).into_iter().map(share_of).collect();
    let windows = show_windows(info, shares, NOW);
    format_usage(account, info, is_current, show_additional, &windows)
}

/// A moment in few words, as the clock of the machine has it.
fn short(timestamp: i64, now: i64) -> String {
    let now = chrono::Local.timestamp_opt(now, 0).unwrap();
    let dt = chrono::Local.timestamp_opt(timestamp, 0).unwrap();
    let days = dt
        .date_naive()
        .signed_duration_since(now.date_naive())
        .num_days();
    if days == 0 {
        format!("today {}", dt.format("%H:%M"))
    } else if days == 1 {
        format!("tomorrow {}", dt.format("%H:%M"))
    } else if (2..7).contains(&days) {
        dt.format("%a %H:%M").to_string()
    } else if dt.year() == now.year() {
        dt.format("%H:%M on %-d %b").to_string()
    } else {
        dt.format("%H:%M on %-d %b %Y").to_string()
    }
}

fn expected_reset_timestamp(timestamp: i64, relative: &str) -> String {
    format!("{relative} ({})", short(timestamp, NOW))
}

fn moment(seconds: i64) -> Timestamp {
    Timestamp {
        millis: seconds * 1000,
        nanos: 0,
    }
}

fn work_account() -> StoredAccount {
    StoredAccount::new_api_key(
        "9f0c4f4e-account".to_string(),
        "work".to_string(),
        "sk-test".to_string(),
        moment(NOW),
    )
}

fn store_of(account: StoredAccount) -> AccountsStore {
    AccountsStore {
        version: 1,
        accounts: vec![account],
        masked_account_ids: Vec::new(),
    }
}

fn window(percent: f64, minutes: i64, resets_at: i64) -> UsageWindowData {
    UsageWindowData {
        used_percent: Some(used(percent)),
        window_minutes: Some(minutes),
        resets_at: Some(resets_at),
    }
}

fn usage_info_with_additional_limit(account_id: &str, now: i64) -> UsageInfo {
    UsageInfo {
        account_id: account_id.to_string(),
        limit_id: None,
        limit_name: None,
        plan_type: Some("pro".to_string()),
        primary: window(10.0, 300, now + 60 * 60),
        secondary: window(20.0, 10_080, now + 2 * 24 * 60 * 60),
        has_credits: Some(true),
        unlimited_credits: None,
        credits_balance: Some(CreditsBalance {
            text: "42".to_string(),
            is_spent: false,
        }),
        rate_limit_reset_credits_available: None,
        rate_limit_reached_type: None,
        additional_limits: vec![UsageLimitInfo {
            limit_id: Some("gpt-5.3-codex-spark".to_string()),
            limit_name: Some("GPT-5.3-Codex-Spark".to_string()),
            primary: window(0.0, 300, now + 2 * 60 * 60),
            secondary: window(0.0, 10_080, now + 3 * 24 * 60 * 60),
        }],
        error: None,
    }
}

fn rate(percent: f64) -> Option<ForecastRate> {
    Some(ForecastRate {
        bits: percent.to_bits(),
        shown: format!("{percent:.1}"),
        number: format!("{percent:?}"),
    })
}

#[test]
fn reset_timestamp_includes_future_relative_time() {
    let reset = NOW + 2 * 60 * 60 + 15 * 60;

    assert_eq!(
        format_reset_timestamp_option(Some(reset), NOW),
        expected_reset_timestamp(reset, "in 2h 15m")
    );
}

#[test]
fn reset_timestamp_includes_day_relative_time() {
    let reset = NOW + 6 * 24 * 60 * 60 + 16 * 60 * 60 + 30 * 60;

    assert_eq!(
        format_reset_timestamp_option(Some(reset), NOW),
        expected_reset_timestamp(reset, "in 6d 16h")
    );
}

#[test]
fn reset_timestamp_keeps_minutes_when_days_have_no_hours() {
    let reset = NOW + 24 * 60 * 60 + 30 * 60;

    assert_eq!(
        format_reset_timestamp_option(Some(reset), NOW),
        expected_reset_timestamp(reset, "in 1d 30m")
    );
}

#[test]
fn reset_timestamp_uses_now_for_near_current_time() {
    let reset = NOW + 30;

    assert_eq!(
        format_reset_timestamp_option(Some(reset), NOW),
        expected_reset_timestamp(reset, "now")
    );
}

#[test]
fn reset_timestamp_uses_minutes_at_one_minute_boundary() {
    let future_reset = NOW + 60;
    let past_reset = NOW - 60;

    assert_eq!(
        format_reset_timestamp_option(Some(future_reset), NOW),
        expected_reset_timestamp(future_reset, "in 1m")
    );
    assert_eq!(
        format_reset_timestamp_option(Some(past_reset), NOW),
        expected_reset_timestamp(past_reset, "overdue by 1m")
    );
}

#[test]
fn reset_timestamp_includes_past_relative_time() {
    let reset = NOW - 3 * 60;

    assert_eq!(
        format_reset_timestamp_option(Some(reset), NOW),
        expected_reset_timestamp(reset, "overdue by 3m")
    );
}

#[test]
fn reset_timestamp_preserves_missing_value() {
    assert_eq!(format_reset_timestamp_option(None, 1_800_000_000), "-");
}

#[test]
fn reset_timestamp_preserves_invalid_value_without_relative_time() {
    assert_eq!(
        format_reset_timestamp_option(Some(i64::MAX), 1_800_000_000),
        i64::MAX.to_string()
    );
}

#[test]
fn reset_timestamp_uses_short_local_time() {
    let reset = NOW + 2 * 24 * 60 * 60 + 15 * 60;

    assert_eq!(
        format_reset_timestamp_option(Some(reset), NOW),
        format!("in 2d 15m ({})", short(reset, NOW))
    );
}

#[test]
fn usage_left_percent_and_bar_use_remaining_quota() {
    assert_eq!(format_usage_left_percent(&Some(used(92.0))), "8.0% left");
    assert_eq!(
        format_usage_left_bar(&Some(used(92.0))),
        format!("{}{}", "\u{2588}".repeat(2), "\u{2591}".repeat(18))
    );
    assert_eq!(format_usage_left_percent(&Some(used(10.0))), "90.0% left");
    assert_eq!(
        format_usage_left_bar(&Some(used(10.0))),
        format!("{}{}", "\u{2588}".repeat(18), "\u{2591}".repeat(2))
    );
}

#[test]
fn usage_left_percent_clamps_out_of_range_values() {
    assert_eq!(format_usage_left_percent(&Some(used(150.0))), "0.0% left");
    assert_eq!(
        format_usage_left_bar(&Some(used(150.0))),
        "\u{2591}".repeat(20)
    );
    assert_eq!(format_usage_left_percent(&Some(used(-20.0))), "100.0% left");
    assert_eq!(
        format_usage_left_bar(&Some(used(-20.0))),
        "\u{2588}".repeat(20)
    );
    assert_eq!(format_usage_left_percent(&None), "-");
    assert_eq!(format_usage_left_bar(&None), "\u{2591}".repeat(20));
    assert_eq!(
        format_usage_left_percent(&Some(used(f64::NAN))),
        "0.0% left"
    );
    assert_eq!(
        format_usage_left_bar(&Some(used(f64::NAN))),
        "\u{2591}".repeat(20)
    );
}

#[test]
fn reset_remaining_bar_shows_remaining_window() {
    let reset = NOW + 60 * 60;

    assert_eq!(
        format_reset_remaining_bar(&share(Some(reset), Some(300), NOW)),
        format!("{}{}", "\u{2588}".repeat(4), "\u{2500}".repeat(16))
    );
    assert_eq!(
        format_reset_remaining_percent(&share(Some(reset), Some(300), NOW)),
        "20% remaining"
    );
}

#[test]
fn reset_remaining_preserves_missing_or_invalid_window() {
    assert_eq!(
        format_reset_remaining_bar(&share(None, Some(300), NOW)),
        "\u{2500}".repeat(20)
    );
    assert_eq!(
        format_reset_remaining_percent(&share(None, Some(300), NOW)),
        "-"
    );
    assert_eq!(
        format_reset_remaining_bar(&share(Some(NOW + 60), None, NOW)),
        "\u{2500}".repeat(20)
    );
    assert_eq!(
        format_reset_remaining_percent(&share(Some(NOW + 60), Some(0), NOW)),
        "-"
    );
    assert_eq!(
        format_reset_remaining_bar(&share(Some(i64::MAX), Some(300), NOW)),
        "\u{2500}".repeat(20)
    );
    assert_eq!(
        format_reset_remaining_percent(&share(Some(i64::MAX), Some(300), NOW)),
        "-"
    );
}

#[test]
fn reset_detail_omits_duplicate_missing_placeholders() {
    let reset = NOW + 60 * 60;
    let reset_text = format_reset_timestamp_option(Some(reset), NOW);

    assert_eq!(format_reset_detail(&share(None, None, NOW), "-"), "-");
    assert_eq!(
        format_reset_detail(&share(Some(reset), None, NOW), &reset_text),
        reset_text
    );
    assert_eq!(
        format_reset_detail(&share(Some(reset), Some(300), NOW), &reset_text),
        format!("20% remaining, {reset_text}")
    );
}

#[test]
fn limit_window_formats_quota_and_reset_remaining() {
    let reset = NOW + 2 * 60 * 60 + 15 * 60;

    assert_eq!(
        format_limit_window("weekly", &Some(used(92.0)), &window_shown(reset, 10_080)),
        format!(
            "weekly ┬ quota [{}] 8.0% left\n       └ reset [{}] 1% remaining, {}",
            format_usage_left_bar(&Some(used(92.0))),
            format_reset_remaining_bar(&share(Some(reset), Some(10_080), NOW)),
            format_reset_timestamp_option(Some(reset), NOW)
        )
    );
}

#[test]
fn limit_window_aligns_reset_with_indented_labels() {
    let reset = NOW + 60 * 60;

    assert_eq!(
        format_limit_window("  5-hour", &Some(used(20.0)), &window_shown(reset, 300)),
        format!(
            "  5-hour ┬ quota [{}] 80.0% left\n         └ reset [{}] 20% remaining, {}",
            format_usage_left_bar(&Some(used(20.0))),
            format_reset_remaining_bar(&share(Some(reset), Some(300), NOW)),
            format_reset_timestamp_option(Some(reset), NOW)
        )
    );
}

#[test]
fn usage_header_marks_current_account() {
    let account = work_account();

    assert_eq!(
        format_usage_account_header(&account, true, false),
        format!("* work ({})", short_id(&account.id))
    );
}

#[test]
fn usage_header_leaves_non_current_account_unmarked() {
    let account = work_account();

    assert_eq!(
        format_usage_account_header(&account, false, false),
        format!("work ({})", short_id(&account.id))
    );
}

#[test]
fn usage_output_marks_limited_accounts() {
    let account = work_account();
    let mut info = usage_info_with_additional_limit(&account.id, NOW);
    info.rate_limit_reached_type = Some("workspace_member_usage_limit_reached".to_string());

    let output = shown(&account, &info, true, false);

    assert!(output.starts_with(&format!(
        "* work ({}) [UNAVAILABLE]",
        short_id(&account.id)
    )));
    let plan_index = output.find("plan: pro").expect("plan line");
    let status_index = output
        .find("status: usage limit reached (workspace_member_usage_limit_reached)")
        .expect("status line");
    let quota_index = output.find("5-hour").expect("quota line");
    assert!(plan_index < status_index);
    assert!(status_index < quota_index);
}

#[test]
fn usage_output_marks_depleted_credits_unavailable() {
    let account = work_account();
    let mut info = usage_info_with_additional_limit(&account.id, NOW);
    info.unlimited_credits = Some(false);
    info.credits_balance = Some(CreditsBalance {
        text: "0".to_string(),
        is_spent: true,
    });

    let output = shown(&account, &info, true, false);

    assert!(output.starts_with(&format!(
        "* work ({}) [UNAVAILABLE]",
        short_id(&account.id)
    )));
    assert!(output.contains("status: credits balance is 0"));
}

#[test]
fn usage_output_marks_hard_limits_unavailable() {
    let account = work_account();
    let mut info = usage_info_with_additional_limit(&account.id, NOW);
    info.primary.used_percent = Some(used(100.0));

    let output = shown(&account, &info, true, false);

    assert!(output.starts_with(&format!(
        "* work ({}) [UNAVAILABLE]",
        short_id(&account.id)
    )));
    assert!(output.contains("status: 5-hour usage is 100.0%"));
}

#[test]
fn usage_output_shows_rate_limit_reset_credits_when_present() {
    let account = work_account();
    let mut info = usage_info_with_additional_limit(&account.id, NOW);
    info.rate_limit_reset_credits_available = Some(2);

    let output = shown(&account, &info, true, false);

    assert!(output.contains("credits: 42\nrate-limit resets: 2 available"));
}

#[test]
fn rate_limit_reset_credits_are_hidden_when_missing() {
    let info = usage_info_with_additional_limit("account-id", 1_800_000_000);

    assert_eq!(format_rate_limit_reset_credits(&info), None);
}

#[test]
fn rate_limit_reset_credits_clamp_negative_values() {
    let mut info = usage_info_with_additional_limit("account-id", 1_800_000_000);
    info.rate_limit_reset_credits_available = Some(-1);

    assert_eq!(
        format_rate_limit_reset_credits(&info).as_deref(),
        Some("rate-limit resets: 0 available")
    );
}

#[test]
fn usage_output_classifies_limited_status_reasons() {
    assert_eq!(
        format_limit_status("rate_limit_reached"),
        "status: rate limited (rate_limit_reached)"
    );
    assert_eq!(
        format_limit_status("workspace_owner_credits_depleted"),
        "status: credits depleted (workspace_owner_credits_depleted)"
    );
    assert_eq!(
        format_limit_status("workspace_member_usage_limit_reached"),
        "status: usage limit reached (workspace_member_usage_limit_reached)"
    );
    assert_eq!(
        format_limit_status("custom_limit"),
        "status: limited (custom_limit)"
    );
}

#[test]
fn usage_forecast_output_shows_pool_estimate() {
    let forecast = UsageForecast {
        rates: Some(UsageForecastRates {
            five_hour_percent_per_hour: rate(18.0),
            weekly_percent_per_hour: rate(0.7),
        }),
        outcome: UsageForecastOutcome::Unavailable {
            at: NOW + 3 * 60 * 60,
            limited_by: ForecastLimit::FiveHourAndWeekly,
            recovery_at: Some(NOW + 4 * 60 * 60),
        },
    };

    let output = format_usage_forecast(&forecast, NOW);

    assert!(output.contains("overall estimate:"));
    assert!(output.contains("unavailable: in 3h"));
    assert!(output.contains("limited by: 5-hour and weekly"));
    assert!(output.contains("recovery: in 4h"));
    assert!(output.contains("expected outage: 1h"));
    assert!(output.contains("estimated rate: 5-hour 18.0%/h, weekly 0.7%/h"));
}

#[test]
fn usage_forecast_output_shows_sustainable_estimate() {
    let forecast = UsageForecast {
        rates: Some(UsageForecastRates {
            five_hour_percent_per_hour: rate(4.0),
            weekly_percent_per_hour: rate(0.2),
        }),
        outcome: UsageForecastOutcome::NotExpected {
            horizon_seconds: 14 * 24 * 60 * 60,
        },
    };

    let output = format_usage_forecast(&forecast, 1_800_000_000);

    assert!(output.contains("unavailable: not expected within 14d at current pace"));
    assert!(output.contains("estimated rate: 5-hour 4.0%/h, weekly 0.2%/h"));
}

#[test]
fn usage_forecast_output_omits_rate_when_missing() {
    let forecast = UsageForecast {
        rates: None,
        outcome: UsageForecastOutcome::Unavailable {
            at: NOW,
            limited_by: ForecastLimit::FiveHour,
            recovery_at: Some(NOW + 60 * 60),
        },
    };

    let output = format_usage_forecast(&forecast, NOW);

    assert!(output.contains("unavailable: now"));
    assert!(!output.contains("estimated rate:"));
}

#[test]
fn usage_forecast_requires_chatgpt_account() {
    let api_key_store = store_of(work_account());

    assert!(!has_forecastable_usage_account(&api_key_store));

    let chatgpt_store = store_of(StoredAccount::new_chatgpt(
        "chatgpt-id".to_string(),
        NewChatGptAccount {
            name: "work".to_string(),
            email: None,
            plan_type: Some("pro".to_string()),
            chatgpt_user_id: None,
            chatgpt_account_is_fedramp: false,
            token_last_refresh_at: moment(NOW),
            subscription_expires_at: None,
            id_token: "id-token".to_string(),
            access_token: "access-token".to_string(),
            refresh_token: "refresh-token".to_string(),
            account_id: Some("account".to_string()),
        },
        moment(NOW),
    ));

    assert!(has_forecastable_usage_account(&chatgpt_store));
}

#[test]
fn usage_output_hides_additional_limits_by_default() {
    let account = work_account();
    let info = usage_info_with_additional_limit(&account.id, NOW);

    let output = shown(&account, &info, true, false);

    assert!(!output.contains("additional GPT-5.3-Codex-Spark"));
    assert!(output.contains("5-hour ┬ quota"));
    assert!(output.contains("weekly ┬ quota"));
}

#[test]
fn usage_output_shows_additional_limits_when_requested() {
    let account = work_account();
    let info = usage_info_with_additional_limit(&account.id, NOW);

    let output = shown(&account, &info, true, true);

    assert!(output.contains("additional GPT-5.3-Codex-Spark:"));
    assert!(output.contains("  5-hour ┬ quota"));
    assert!(output.contains("  weekly ┬ quota"));
}

#[test]
fn usage_account_from_store_uses_current_auth_account() {
    let account = work_account();
    let accounts_store = store_of(account.clone());

    let selected = usage_account_from_store(&accounts_store, None, Some(&account.id))
        .ok()
        .expect("current account");

    assert_eq!(selected.id, account.id);
}

#[test]
fn usage_account_from_store_requires_current_auth_account() {
    let accounts_store = store_of(work_account());

    let err = match usage_account_from_store(&accounts_store, None, None) {
        Ok(_) => panic!("usage without current auth should fail"),
        Err(err) => err,
    };

    assert!(err.message().contains("current Codex auth.json"));
}

#[test]
fn usage_account_from_store_resolves_explicit_selector() {
    let account = work_account();
    let accounts_store = store_of(account.clone());

    let selected = usage_account_from_store(&accounts_store, Some("work"), None)
        .ok()
        .expect("selected account");

    assert_eq!(selected.id, account.id);
}

#[test]
fn an_account_that_is_not_there_is_refused() {
    let accounts_store = store_of(work_account());

    assert!(matches!(
        usage_account_from_store(&accounts_store, Some("home"), None),
        Err(UsageAccountError::Selector(_))
    ));
    assert!(matches!(
        usage_account_from_store(&accounts_store, None, Some("gone")),
        Err(UsageAccountError::NoCurrent)
    ));
}

#[test]
fn api_keys_have_their_data() {
    let account = work_account();

    assert!(matches!(account.auth_data, AuthData::ApiKey { .. }));
}

#[test]
fn durations_show_their_two_largest_units() {
    assert_eq!(format_reset_duration(0), "1m");
    assert_eq!(format_reset_duration(59 * 60 + 59), "59m");
    assert_eq!(format_reset_duration(60 * 60), "1h");
    assert_eq!(format_reset_duration(25 * 60 * 60), "1d 1h");
    assert_eq!(format_reset_duration(7 * 24 * 60 * 60), "7d");
}

#[test]
fn moments_are_shown_by_how_near_they_are() {
    let local = |day: i32, year: i32| LocalMoment {
        day,
        year,
        clock: "12:30".to_string(),
        weekday_clock: "Fri 12:30".to_string(),
        clock_date: "12:30 on 1 Jan".to_string(),
        clock_full_date: "12:30 on 1 Jan 2027".to_string(),
    };
    let now = local(100, 2026);

    assert_eq!(
        format_short_reset_datetime(&local(100, 2026), &now),
        "today 12:30"
    );
    assert_eq!(
        format_short_reset_datetime(&local(101, 2026), &now),
        "tomorrow 12:30"
    );
    assert_eq!(
        format_short_reset_datetime(&local(106, 2026), &now),
        "Fri 12:30"
    );
    assert_eq!(
        format_short_reset_datetime(&local(107, 2026), &now),
        "12:30 on 1 Jan"
    );
    assert_eq!(
        format_short_reset_datetime(&local(99, 2027), &now),
        "12:30 on 1 Jan 2027"
    );
}

#[test]
fn a_report_with_an_error_shows_the_error_alone() {
    let account = work_account();
    let failed = UsageInfo::failed(account.id.clone(), "refresh failed".to_string());
    let unsupported = UsageInfo::failed(account.id.clone(), "usage unsupported".to_string());

    assert_eq!(
        shown(&account, &failed, false, false),
        "work (9f0c4f4e)\nusage error: refresh failed"
    );
    assert_eq!(
        shown(&account, &unsupported, false, false),
        "work (9f0c4f4e)\nusage: unsupported"
    );
}

#[test]
fn a_forecast_without_data_says_so() {
    let forecast = UsageForecast {
        rates: None,
        outcome: UsageForecastOutcome::NotEnoughData {
            reason: ForecastUnavailableReason::IncompleteUsageData,
        },
    };

    assert_eq!(
        format_usage_forecast(&forecast, NOW),
        "overall estimate:\n  unavailable: not enough complete usage data"
    );
}
