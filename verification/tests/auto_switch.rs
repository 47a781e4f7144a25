//! Deciding whether to switch, and to which account.
use codex_switch::accounts::{AuthData, AuthMode, StoredAccount, Timestamp};
use codex_switch::assessment::{
    assess_usage, usage_requires_switch, usage_unavailable_reason, UsageDecision,
};
use codex_switch::auto_switch::{
    apply_current_usage_result, apply_replacement_usage_results, commit_auto_switch_plan,
    current_disabled_usable_plan, disabled_replacement_skips, empty_evaluation_slots, finish_plan,
    no_selectable_account_error, ordered_evaluations, select_usable_account_by_policy, switched,
    AccountUsageEvaluation, AccountUsageFetch, AutoSwitchError, AutoSwitchPlan, AutoSwitchPlanner,
    AutoSwitchResult, CommitStep, CurrentUsageOutcome, PlannerStep,
};
use codex_switch::selector::AccountSelection;
use codex_switch::usage::{
    find_window, CreditsBalance, UsageInfo, UsageWindowData, UsageWindowKind, UsedPercent,
};

#[test]
fn usage_is_unavailable_when_credits_are_depleted() {
    let info = UsageInfo {
        has_credits: Some(true),
        unlimited_credits: Some(false),
        credits_balance: Some(CreditsBalance {
            text: "0".to_string(),
            is_spent: true,
        }),
        ..usage_info()
    };

    assert!(matches!(
        assess_usage(&info),
        UsageDecision::Unavailable(reason) if reason == "credits balance is 0"
    ));
}

#[test]
fn usage_is_unavailable_when_limit_reached_type_is_set() {
    let info = UsageInfo {
        rate_limit_reached_type: Some("workspace_member_usage_limit_reached".to_string()),
        ..usage_info()
    };

    assert!(matches!(
        assess_usage(&info),
        UsageDecision::Unavailable(reason) if reason == "usage limit reached"
    ));
}

#[test]
fn usage_is_unavailable_when_hard_limit_is_reached() {
    let info = UsageInfo {
        primary: only_used(100.0, 300),
        ..usage_info()
    };

    assert!(matches!(
        assess_usage(&info),
        UsageDecision::Unavailable(reason) if reason == "5-hour usage is 100.0%"
    ));
}

#[test]
fn usage_is_usable_below_hard_limit() {
    let info = UsageInfo {
        primary: only_used(50.0, 300),
        secondary: only_used(80.0, 10_080),
        ..usage_info()
    };

    assert!(matches!(
        assess_usage(&info),
        UsageDecision::Usable(reason) if reason == "usage is available"
    ));
}

#[test]
fn no_selectable_account_error_is_typed_for_unavailable_current() {
    let err = no_selectable_account_error(
        Some(UsageDecision::Unavailable(
            "weekly usage is 100.0%".to_string(),
        )),
        &vec!["two332: weekly usage is 100.0%".to_string()],
    );

    let no_replacement = match &err {
        AutoSwitchError::NoUsableReplacement(inner) => inner,
        AutoSwitchError::Other(_) => {
            panic!("unavailable current account should produce a typed replacement error")
        }
    };
    assert_eq!(
        no_replacement.reason(),
        "weekly usage is 100.0%; no usable replacement found (two332: weekly usage is 100.0%)"
    );
    assert_eq!(err.message(), no_replacement.reason());
}

#[test]
fn no_selectable_account_error_is_plain_for_missing_current() {
    let err = no_selectable_account_error(None, &Vec::new());

    assert!(matches!(err, AutoSwitchError::Other(_)));
    assert_eq!(
        err.message(),
        "no current account; no replacement account found"
    );
}

#[test]
fn policy_selection_prefers_deadline_aware_candidate_over_active_order() {
    let active = chatgpt_account("active");
    let soon_reset = chatgpt_account("soon-reset");
    let evaluations = vec![
        AccountUsageEvaluation {
            account: active,
            usage: usage_info_with_limits("active", 20.0, 20.0, 500, 1_000),
            decision: UsageDecision::Usable("usage is available".to_string()),
        },
        AccountUsageEvaluation {
            account: soon_reset,
            usage: usage_info_with_limits("soon-reset", 95.0, 20.0, 10, 1_000),
            decision: UsageDecision::Usable("usage is available".to_string()),
        },
    ];

    let selected = select(&evaluations, Some("active"))
        .expect("policy should select a usable account");

    assert_eq!(selected.account.id, "soon-reset");
}

#[test]
fn policy_selection_waits_to_activate_cold_replacement_until_stagger_interval() {
    let active = chatgpt_account("active");
    let cold = chatgpt_account("cold");
    let now = chrono::Utc::now().timestamp();
    let five_hour_window_seconds = 300 * 60;
    let weekly_window_seconds = 10_080 * 60;
    let stagger_interval_seconds = five_hour_window_seconds / 2;
    let active_first_usage_at = now - stagger_interval_seconds + 60;
    let evaluations = vec![
        AccountUsageEvaluation {
            account: active,
            usage: usage_info_with_limits(
                "active",
                20.0,
                20.0,
                active_first_usage_at + five_hour_window_seconds,
                active_first_usage_at + weekly_window_seconds,
            ),
            decision: UsageDecision::Usable("usage is available".to_string()),
        },
        AccountUsageEvaluation {
            account: cold,
            usage: usage_info_with_limits(
                "cold",
                0.0,
                0.0,
                now + five_hour_window_seconds,
                now + weekly_window_seconds,
            ),
            decision: UsageDecision::Usable("usage is available".to_string()),
        },
    ];

    let selected = select(&evaluations, Some("active"))
        .expect("policy should select a usable account");

    assert_eq!(selected.account.id, "active");
}

#[test]
fn policy_selection_activates_cold_replacement_after_stagger_interval() {
    let active = chatgpt_account("active");
    let cold = chatgpt_account("cold");
    let now = chrono::Utc::now().timestamp();
    let five_hour_window_seconds = 300 * 60;
    let weekly_window_seconds = 10_080 * 60;
    let stagger_interval_seconds = five_hour_window_seconds / 2;
    let active_first_usage_at = now - stagger_interval_seconds - 60;
    let evaluations = vec![
        AccountUsageEvaluation {
            account: active,
            usage: usage_info_with_limits(
                "active",
                20.0,
                20.0,
                active_first_usage_at + five_hour_window_seconds,
                active_first_usage_at + weekly_window_seconds,
            ),
            decision: UsageDecision::Usable("usage is available".to_string()),
        },
        AccountUsageEvaluation {
            account: cold,
            usage: usage_info_with_limits(
                "cold",
                0.0,
                0.0,
                now + five_hour_window_seconds,
                now + weekly_window_seconds,
            ),
            decision: UsageDecision::Usable("usage is available".to_string()),
        },
    ];

    let selected = select(&evaluations, Some("active"))
        .expect("policy should select a usable account");

    assert_eq!(selected.account.id, "cold");
}

#[test]
fn policy_selection_ignores_missing_current_account_context() {
    let first = chatgpt_account("first");
    let second = chatgpt_account("second");
    let evaluations = vec![
        AccountUsageEvaluation {
            account: first,
            usage: usage_info_with_limits("first", 50.0, 50.0, 500, 1_000),
            decision: UsageDecision::Usable("usage is available".to_string()),
        },
        AccountUsageEvaluation {
            account: second,
            usage: usage_info_with_limits("second", 50.0, 50.0, 500, 1_000),
            decision: UsageDecision::Usable("usage is available".to_string()),
        },
    ];

    let selected = select(&evaluations, Some("missing"))
        .expect("policy should select a usable account");

    assert_eq!(selected.account.id, "first");
}

#[test]
fn policy_selection_ignores_hard_unavailable_candidates() {
    let active = chatgpt_account("active");
    let over_limit = chatgpt_account("over-limit");
    let evaluations = vec![
        AccountUsageEvaluation {
            account: active,
            usage: usage_info_with_limits("active", 20.0, 20.0, 500, 1_000),
            decision: UsageDecision::Usable("usage is available".to_string()),
        },
        AccountUsageEvaluation {
            account: over_limit,
            usage: usage_info_with_limits("over-limit", 100.0, 20.0, 10, 1_000),
            decision: UsageDecision::Unavailable("5-hour usage is 100.0%".to_string()),
        },
    ];

    let selected = select(&evaluations, Some("active"))
        .expect("policy should select the remaining usable account");

    assert_eq!(selected.account.id, "active");
}

#[test]
fn policy_selection_ignores_disabled_replacements() {
    let active = chatgpt_account("active");
    let mut disabled = chatgpt_account("disabled");
    disabled.auto_switch_disabled = true;
    let evaluations = vec![
        AccountUsageEvaluation {
            account: active,
            usage: usage_info_with_limits("active", 95.0, 20.0, 10, 1_000),
            decision: UsageDecision::Usable("usage is available".to_string()),
        },
        AccountUsageEvaluation {
            account: disabled,
            usage: usage_info_with_limits("disabled", 10.0, 10.0, 500, 1_000),
            decision: UsageDecision::Usable("usage is available".to_string()),
        },
    ];

    let selected = select(&evaluations, Some("active"))
        .expect("policy should select the enabled account");

    assert_eq!(selected.account.id, "active");
}

#[test]
fn policy_selection_replaces_disabled_unavailable_current() {
    let mut current = chatgpt_account("current");
    current.auto_switch_disabled = true;
    let replacement = chatgpt_account("replacement");
    let evaluations = vec![
        AccountUsageEvaluation {
            account: current,
            usage: usage_info_with_limits("current", 100.0, 20.0, 10, 1_000),
            decision: UsageDecision::Unavailable("5-hour usage is 100.0%".to_string()),
        },
        AccountUsageEvaluation {
            account: replacement,
            usage: usage_info_with_limits("replacement", 10.0, 10.0, 500, 1_000),
            decision: UsageDecision::Usable("usage is available".to_string()),
        },
    ];

    let selected = select(&evaluations, Some("current"))
        .expect("policy should select an enabled replacement");

    assert_eq!(selected.account.id, "replacement");
}

#[test]
fn current_disabled_usable_account_is_kept() {
    let mut current = chatgpt_account("current");
    current.auto_switch_disabled = true;

    let plan = current_disabled_usable_plan(
        &current,
        &UsageDecision::Usable("usage is available".to_string()),
    )
    .expect("disabled usable current should be kept");

    match plan {
        AutoSwitchPlan::CurrentKept { account, reason } => {
            assert_eq!(account.id, "current");
            assert_eq!(
                reason,
                "current account is disabled for auto-switch; usage is available"
            );
        }
        _ => panic!("disabled usable current should be kept"),
    }
}

#[test]
fn disabled_replacements_are_reported_as_skipped() {
    let current = chatgpt_account("current");
    let mut disabled = chatgpt_account("disabled");
    disabled.auto_switch_disabled = true;
    let accounts = vec![current, disabled];

    assert_eq!(
        disabled_replacement_skips(&accounts, Some("current")),
        vec!["disabled: disabled"]
    );
}

#[test]
fn current_unsupported_usage_short_circuits_without_recording_candidate() {
    let current = chatgpt_account("current");
    let mut evaluations = empty_evaluation_slots(1);

    let outcome = apply_current_usage_result(
        &current,
        0,
        UsageInfo::failed(current.id.clone(), "usage unsupported".to_string()),
        &mut evaluations,
    )
    .ok()
    .expect("current unsupported usage should be handled");

    match outcome {
        CurrentUsageOutcome::Terminal(AutoSwitchPlan::CurrentUnsupported {
            account,
            reason,
        }) => {
            assert_eq!(account.id, "current");
            assert_eq!(reason, "usage unsupported");
        }
        _ => panic!("current unsupported usage should short-circuit"),
    }
    assert!(evaluations[0].is_none());
}

#[test]
fn current_usage_error_is_fatal() {
    let current = chatgpt_account("current");
    let mut evaluations = empty_evaluation_slots(1);

    let err = apply_current_usage_result(
        &current,
        0,
        UsageInfo::failed(current.id.clone(), "parse failed".to_string()),
        &mut evaluations,
    )
    .err()
    .expect("current usage error should be fatal");

    assert_eq!(
        err,
        "Could not evaluate current account current: parse failed"
    );
    assert!(evaluations[0].is_none());
}

#[test]
fn current_usable_usage_is_recorded_for_policy() {
    let current = chatgpt_account("current");
    let mut evaluations = empty_evaluation_slots(1);

    let outcome = apply_current_usage_result(
        &current,
        0,
        usage_info_with_limits("current", 20.0, 20.0, 500, 1_000),
        &mut evaluations,
    )
    .ok()
    .expect("current usable usage should continue");

    match outcome {
        CurrentUsageOutcome::Continue(UsageDecision::Usable(reason)) => {
            assert_eq!(reason, "usage is available");
        }
        _ => panic!("current usable usage should continue"),
    }
    let evaluation = evaluations[0]
        .as_ref()
        .expect("current evaluation should be stored");
    assert_eq!(evaluation.account.id, "current");
    assert!(matches!(evaluation.decision, UsageDecision::Usable(_)));
}

#[test]
fn replacement_usage_results_preserve_account_order() {
    let first = chatgpt_account("first");
    let second = chatgpt_account("second");
    let accounts = vec![first, second];
    let mut evaluations = empty_evaluation_slots(accounts.len());
    let mut skipped = Vec::new();
    let results = vec![
        usage_fetch(
            1,
            "second",
            Ok(usage_info_with_limits("second", 20.0, 20.0, 500, 1_000)),
        ),
        usage_fetch(
            0,
            "first",
            Ok(usage_info_with_limits("first", 20.0, 20.0, 500, 1_000)),
        ),
    ];

    apply_replacement_usage_results(&accounts, results, &mut evaluations, &mut skipped);

    assert!(skipped.is_empty());
    assert_eq!(
        ordered_evaluations(evaluations)
            .iter()
            .map(|evaluation| evaluation.account.id.as_str())
            .collect::<Vec<_>>(),
        vec!["first", "second"]
    );
}

#[test]
fn replacement_fetch_errors_are_skipped_without_hiding_usable_candidates() {
    let failed = chatgpt_account("failed");
    let usable = chatgpt_account("usable");
    let accounts = vec![failed, usable];
    let mut evaluations = empty_evaluation_slots(accounts.len());
    let mut skipped = Vec::new();
    let results = vec![
        usage_fetch(0, "failed", Err("network failed".to_string())),
        usage_fetch(
            1,
            "usable",
            Ok(usage_info_with_limits("usable", 20.0, 20.0, 500, 1_000)),
        ),
    ];

    apply_replacement_usage_results(&accounts, results, &mut evaluations, &mut skipped);
    let evaluations = ordered_evaluations(evaluations);
    let selected = select(&evaluations, None)
        .expect("policy should select the successful replacement");

    assert_eq!(skipped, vec!["failed: network failed"]);
    assert_eq!(selected.account.id, "usable");
}

fn used(percent: f64) -> UsedPercent {
    let left = (100.0 - percent).clamp(0.0, 100.0);
    UsedPercent {
        bits: percent.to_bits(),
        headroom: left.to_bits(),
        shown: format!("{percent:.1}"),
        left_shown: format!("{left:.1}"),
        left_cells: (left / 5.0).round() as u64,
        number: format!("{percent:?}"),
        left_number: format!("{left:?}"),
    }
}

fn only_used(percent: f64, minutes: i64) -> UsageWindowData {
    UsageWindowData {
        used_percent: Some(used(percent)),
        window_minutes: Some(minutes),
        resets_at: None,
    }
}

fn nothing() -> UsageWindowData {
    UsageWindowData {
        used_percent: None,
        window_minutes: None,
        resets_at: None,
    }
}

fn usage_info() -> UsageInfo {
    UsageInfo {
        account_id: "account-id".to_string(),
        limit_id: Some("codex".to_string()),
        limit_name: None,
        plan_type: Some("plus".to_string()),
        primary: nothing(),
        secondary: nothing(),
        has_credits: None,
        unlimited_credits: None,
        credits_balance: None,
        rate_limit_reset_credits_available: None,
        rate_limit_reached_type: None,
        additional_limits: Vec::new(),
        error: None,
    }
}

fn usage_info_with_limits(
    account_id: &str,
    five_hour_used_percent: f64,
    weekly_used_percent: f64,
    five_hour_resets_at: i64,
    weekly_resets_at: i64,
) -> UsageInfo {
    UsageInfo {
        account_id: account_id.to_string(),
        primary: UsageWindowData {
            used_percent: Some(used(five_hour_used_percent)),
            window_minutes: Some(300),
            resets_at: Some(five_hour_resets_at),
        },
        secondary: UsageWindowData {
            used_percent: Some(used(weekly_used_percent)),
            window_minutes: Some(10_080),
            resets_at: Some(weekly_resets_at),
        },
        ..usage_info()
    }
}

fn chatgpt_account(id: &str) -> StoredAccount {
    StoredAccount {
        id: id.to_string(),
        name: id.to_string(),
        email: None,
        plan_type: Some("pro".to_string()),
        chatgpt_user_id: None,
        chatgpt_account_is_fedramp: false,
        token_last_refresh_at: None,
        subscription_expires_at: None,
        auth_mode: AuthMode::ChatGPT,
        auth_data: AuthData::ChatGPT {
            id_token: "id-token".to_string(),
            access_token: "access-token".to_string(),
            refresh_token: "refresh-token".to_string(),
            account_id: Some(id.to_string()),
        },
        auto_switch_disabled: false,
        created_at: Timestamp {
            millis: 1_780_000_000_000,
            nanos: 0,
        },
        last_used_at: None,
    }
}

fn usage_fetch(
    index: usize,
    account_id: &str,
    result: Result<UsageInfo, String>,
) -> AccountUsageFetch {
    AccountUsageFetch {
        index,
        account_id: account_id.to_string(),
        result,
    }
}

fn select<'a>(
    evaluations: &'a Vec<AccountUsageEvaluation>,
    current_id: Option<&str>,
) -> Option<AccountSelection<'a>> {
    let units = evaluations
        .iter()
        .map(|evaluation| {
            find_window(
                &evaluation.usage.primary,
                &evaluation.usage.secondary,
                UsageWindowKind::Weekly,
            )
            .and_then(|window| window.used_percent.as_ref())
            .map_or(0, |used| (f64::from_bits(used.headroom) * 4.0).to_bits())
        })
        .collect();
    select_usable_account_by_policy(evaluations, &units, current_id)
}

#[test]
fn a_switch_is_required_only_where_usage_is_out() {
    let spent = usage_info_with_limits("spent", 100.0, 20.0, 500, 1_000);
    let usable = usage_info_with_limits("usable", 99.9, 20.0, 500, 1_000);

    assert!(usage_requires_switch(&spent));
    assert_eq!(
        usage_unavailable_reason(&spent).as_deref(),
        Some("5-hour usage is 100.0%")
    );
    assert!(!usage_requires_switch(&usable));
    assert_eq!(usage_unavailable_reason(&usable), None);
}

#[test]
fn a_plan_is_made_from_the_usage_of_all_accounts() {
    let accounts = vec![chatgpt_account("current"), chatgpt_account("other")];
    let mut planner = AutoSwitchPlanner::start(accounts, Some(chatgpt_account("current")))
        .ok()
        .expect("there are accounts");

    let step = planner.current_usage(Ok(usage_info_with_limits("current", 100.0, 20.0, 10, 20)));
    assert!(matches!(step, Ok(PlannerStep::FetchReplacements)));

    planner.replacement_usage(vec![usage_fetch(
        1,
        "other",
        Ok(usage_info_with_limits("other", 20.0, 20.0, 500, 1_000)),
    )]);
    let (units, shown) = headrooms(&planner);
    match planner.finish(&units, &shown) {
        Ok(AutoSwitchPlan::Switch { from, to, reason }) => {
            assert_eq!(from.map(|account| account.id), Some("current".to_string()));
            assert_eq!(to.id, "other");
            assert!(reason.starts_with("5-hour usage is 100.0%"), "{reason}");
        }
        _ => panic!("an account that is out of usage should be replaced"),
    }
}

#[test]
fn a_better_account_is_told_with_its_headroom() {
    let accounts = vec![chatgpt_account("current"), chatgpt_account("other")];
    let mut planner = AutoSwitchPlanner::start(accounts, Some(chatgpt_account("current")))
        .ok()
        .expect("there are accounts");

    let step = planner.current_usage(Ok(usage_info_with_limits("current", 97.0, 20.0, 500, 1_000)));
    assert!(matches!(step, Ok(PlannerStep::FetchReplacements)));
    planner.replacement_usage(vec![usage_fetch(
        1,
        "other",
        Ok(usage_info_with_limits("other", 20.0, 90.0, 500, 1_000)),
    )]);
    let (units, shown) = headrooms(&planner);
    match planner.finish_at(&units, &shown, 100) {
        Ok(AutoSwitchPlan::Switch { to, reason, .. }) => {
            assert_eq!(to.id, "other");
            assert_eq!(
                reason,
                "usage policy selected an account with better quota headroom (40.0 bottleneck score)"
            );
        }
        _ => panic!("the account with more headroom should be chosen"),
    }
}

#[test]
fn a_plan_fails_where_nothing_can_be_chosen() {
    let accounts = vec![chatgpt_account("current"), chatgpt_account("other")];
    let mut planner = AutoSwitchPlanner::start(accounts, Some(chatgpt_account("current")))
        .ok()
        .expect("there are accounts");
    let step = planner.current_usage(Ok(usage_info_with_limits("current", 100.0, 20.0, 10, 20)));
    assert!(matches!(step, Ok(PlannerStep::FetchReplacements)));
    planner.replacement_usage(vec![usage_fetch(1, "other", Err("timed out".to_string()))]);
    let (units, shown) = headrooms(&planner);
    match planner.finish(&units, &shown) {
        Err(AutoSwitchError::NoUsableReplacement(err)) => {
            assert!(err.reason().starts_with("5-hour usage is 100.0%; no usable replacement found"));
        }
        _ => panic!("there is no account to switch to"),
    }
}

/// What the weekly windows have left, and how headrooms are shown.
fn headrooms(planner: &AutoSwitchPlanner) -> (Vec<u64>, Vec<(u64, String)>) {
    let mut units = Vec::new();
    let mut shown = Vec::new();
    for evaluation in planner.evaluations.iter().flatten() {
        let info = &evaluation.usage;
        for window in [&info.primary, &info.secondary] {
            if let Some(used) = &window.used_percent {
                let left = f64::from_bits(used.headroom);
                shown.push((left.to_bits(), format!("{left:.1}")));
            }
        }
        let weekly = find_window(&info.primary, &info.secondary, UsageWindowKind::Weekly)
            .and_then(|window| window.used_percent.as_ref())
            .map_or(0.0, |used| f64::from_bits(used.headroom) * 4.0);
        units.push(weekly.to_bits());
        shown.push((weekly.to_bits(), format!("{weekly:.1}")));
    }
    (units, shown)
}

#[test]
fn a_plan_needs_accounts() {
    let err = AutoSwitchPlanner::start(Vec::new(), None)
        .err()
        .expect("there are no accounts");

    assert_eq!(err.message(), "No accounts stored.");
}

#[test]
fn a_usable_current_account_is_kept() {
    let current = chatgpt_account("current");
    let plan = finish_plan(
        Some(&current),
        Some(UsageDecision::Usable("usage is available".to_string())),
        Some(&current),
        "80.0",
        &Vec::new(),
    );

    assert!(matches!(
        plan,
        Ok(AutoSwitchPlan::CurrentKept { account, .. }) if account.id == "current"
    ));
}

#[test]
fn a_switch_is_committed_and_told() {
    let plan = AutoSwitchPlan::Switch {
        from: None,
        to: Box::new(chatgpt_account("other")),
        reason: "better".to_string(),
    };

    let (from, id, reason) = match commit_auto_switch_plan(plan, true) {
        CommitStep::SwitchTo {
            id,
            checked,
            from,
            reason,
        } => {
            assert!(!checked);
            (from, id, reason)
        }
        CommitStep::Done(_) => panic!("a switch has to be made"),
    };
    match switched(from, chatgpt_account(&id), reason) {
        AutoSwitchResult::Switched { from, to, reason } => {
            assert!(from.is_none());
            assert_eq!(to.id, "other");
            assert_eq!(reason, "better");
        }
        _ => panic!("the switch was made"),
    }
}

#[test]
fn a_switch_leaves_the_account_that_was_matched_by_its_login() {
    let mut first = chatgpt_account("current");
    first.name = "first".to_string();
    let mut second = chatgpt_account("current");
    second.name = "second".to_string();
    let accounts = vec![first, second.clone(), chatgpt_account("other")];
    let mut planner = AutoSwitchPlanner::start(accounts, Some(second))
        .ok()
        .expect("there are accounts");
    assert_eq!(planner.current_index, Some(0));

    let step = planner.current_usage(Ok(usage_info_with_limits("current", 100.0, 20.0, 10, 20)));
    assert!(matches!(step, Ok(PlannerStep::FetchReplacements)));
    planner.replacement_usage(vec![usage_fetch(
        2,
        "other",
        Ok(usage_info_with_limits("other", 20.0, 20.0, 500, 1_000)),
    )]);
    let (units, shown) = headrooms(&planner);
    match planner.finish(&units, &shown) {
        Ok(AutoSwitchPlan::Switch { from, to, .. }) => {
            assert_eq!(from.map(|account| account.name), Some("second".to_string()));
            assert_eq!(to.id, "other");
        }
        _ => panic!("an account that is out of usage should be replaced"),
    }
}
