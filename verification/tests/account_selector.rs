//! Choosing accounts, alone and over simulated weeks.
use std::collections::VecDeque;

use chrono::Utc;
use codex_switch::accounts::{AuthData, AuthMode, StoredAccount, Timestamp};
use codex_switch::policies::{
    AccountSelectionPolicy, DeadlineAwarePolicy, DemandAwareHysteresisPolicy,
    ResetWeightedMinimaxPolicy, ShadowPricePolicy,
};
use codex_switch::selector::{
    evaluated_candidates, normalized_min_safe_headroom, normalized_weekly_to_five_hour_ratio,
    reset_delay, select_account, select_account_with_context, AccountSelection,
    AccountUsageCandidate, EvaluatedCandidate, Score, SelectionConfig, SelectionContext,
    SelectionPolicyKind, UsageWindow,
};
use codex_switch::usage::{
    find_window, UsageInfo, UsageWindowData, UsageWindowKind, UsedPercent,
};

#[test]
fn account_selector_excludes_hard_unavailable_accounts() {
    let api_key = api_key_account("api-key");
    let usage_error = chatgpt_account("usage-error", None);
    let rate_limited = chatgpt_account("rate-limited", None);
    let five_hour_exhausted = chatgpt_account("five-hour-exhausted", None);
    let weekly_exhausted = chatgpt_account("weekly-exhausted", None);
    let usable = chatgpt_account("usable", None);
    let usage_error_info = UsageInfo {
        error: Some("failed".to_string()),
        ..usage_info("usage-error", 10.0, 10.0, 100, 200)
    };
    let rate_limited_info = UsageInfo {
        rate_limit_reached_type: Some("rate_limit_reached".to_string()),
        ..usage_info("rate-limited", 10.0, 10.0, 100, 200)
    };
    let five_hour_exhausted_info = usage_info("five-hour-exhausted", 100.0, 10.0, 100, 200);
    let weekly_exhausted_info = usage_info("weekly-exhausted", 10.0, 100.0, 100, 200);
    let usable_info = usage_info("usable", 30.0, 30.0, 100, 200);
    let api_key_info = usage_info("api-key", 0.0, 0.0, 100, 200);
    let candidates = [
        candidate(&api_key, &api_key_info),
        candidate(&usage_error, &usage_error_info),
        candidate(&rate_limited, &rate_limited_info),
        candidate(&five_hour_exhausted, &five_hour_exhausted_info),
        candidate(&weekly_exhausted, &weekly_exhausted_info),
        candidate(&usable, &usable_info),
    ];

    let selection = pick(&candidates, SelectionConfig::default())
        .expect("usable account should be selected");

    assert_eq!(selection.account.id, "usable");
}

#[test]
fn account_selector_weekly_exhaustion_blocks_selection_even_with_high_five_hour_headroom() {
    let weekly_exhausted = chatgpt_account("weekly-exhausted", None);
    let usable = chatgpt_account("usable", None);
    let weekly_exhausted_info = usage_info("weekly-exhausted", 20.0, 100.0, 100, 200);
    let usable_info = usage_info("usable", 70.0, 70.0, 100, 200);
    let candidates = [
        candidate(&weekly_exhausted, &weekly_exhausted_info),
        candidate(&usable, &usable_info),
    ];

    let selection = pick(&candidates, SelectionConfig::default())
        .expect("usable account should be selected");

    assert_eq!(selection.account.id, "usable");
    assert_eq!(selection.metrics.bottleneck, UsageWindow::FiveHour);
}

#[test]
fn account_selector_weekly_near_exhaustion_lowers_bottleneck_score() {
    let weekly_bottleneck = chatgpt_account("weekly-bottleneck", None);
    let balanced = chatgpt_account("balanced", None);
    let weekly_bottleneck_info = usage_info("weekly-bottleneck", 20.0, 98.0, 100, 200);
    let balanced_info = usage_info("balanced", 70.0, 70.0, 100, 200);
    let candidates = [
        candidate(&weekly_bottleneck, &weekly_bottleneck_info),
        candidate(&balanced, &balanced_info),
    ];

    let selection = pick(&candidates, SelectionConfig::default())
        .expect("usable account should be selected");

    assert_eq!(selection.account.id, "balanced");
    assert_eq!(f64::from_bits(selection.metrics.bottleneck_headroom), 30.0);
}

#[test]
fn account_selector_weekly_headroom_is_scaled_to_five_hour_units() {
    let account = chatgpt_account("account", None);
    let info = usage_info("account", 70.0, 90.0, 100, 200);
    let candidates = [candidate(&account, &info)];

    let selection = pick(&candidates, SelectionConfig::default())
        .expect("usable account should be selected");

    assert_eq!(selection.metrics.five_hour_headroom.map(f64::from_bits), Some(30.0));
    assert_eq!(selection.metrics.weekly_headroom.map(f64::from_bits), Some(10.0));
    assert_eq!(selection.metrics.five_hour_headroom_units.map(f64::from_bits), Some(30.0));
    assert_eq!(selection.metrics.weekly_headroom_units.map(f64::from_bits), Some(40.0));
    assert_eq!(selection.metrics.bottleneck, UsageWindow::FiveHour);
    assert_eq!(f64::from_bits(selection.metrics.bottleneck_headroom), 30.0);
}

#[test]
fn account_selector_all_accounts_over_soft_threshold_still_selects_least_risky_account() {
    let first = chatgpt_account("first", None);
    let second = chatgpt_account("second", None);
    let first_info = usage_info("first", 96.0, 96.0, 100, 200);
    let second_info = usage_info("second", 97.0, 97.0, 100, 200);
    let candidates = [
        candidate(&first, &first_info),
        candidate(&second, &second_info),
    ];

    let selection = pick(&candidates, SelectionConfig::default())
        .expect("risky account should still be selected");

    assert_eq!(selection.account.id, "first");
    assert_eq!(f64::from_bits(selection.metrics.bottleneck_headroom), 4.0);
    assert!(!selection.metrics.safe_for_reset_priority);
}

#[test]
fn account_selector_soon_resetting_account_does_not_win_below_safe_headroom() {
    let soon = chatgpt_account("soon", None);
    let safer = chatgpt_account("safer", None);
    let soon_info = usage_info("soon", 98.0, 20.0, 10, 1_000);
    let safer_info = usage_info("safer", 80.0, 20.0, 500, 1_000);
    let candidates = [candidate(&soon, &soon_info), candidate(&safer, &safer_info)];

    let selection = pick(&candidates, SelectionConfig::default())
        .expect("usable account should be selected");

    assert_eq!(selection.account.id, "safer");
}

#[test]
fn account_selector_soon_resetting_account_wins_at_safe_headroom() {
    let soon = chatgpt_account("soon", None);
    let later = chatgpt_account("later", None);
    let soon_info = usage_info("soon", 95.0, 20.0, 10, 1_000);
    let later_info = usage_info("later", 80.0, 20.0, 500, 1_000);
    let candidates = [candidate(&soon, &soon_info), candidate(&later, &later_info)];

    let selection = pick(&candidates, SelectionConfig::default())
        .expect("usable account should be selected");

    assert_eq!(selection.account.id, "soon");
    assert_eq!(selection.metrics.bottleneck_resets_at, Some(10));
}

#[test]
fn account_selector_account_specific_reset_time_breaks_safe_headroom_ties() {
    let earlier = chatgpt_account("earlier", None);
    let later = chatgpt_account("later", None);
    let earlier_info = usage_info("earlier", 80.0, 20.0, 10, 1_000);
    let later_info = usage_info("later", 80.0, 20.0, 500, 1_000);
    let candidates = [
        candidate(&later, &later_info),
        candidate(&earlier, &earlier_info),
    ];

    let selection = pick(&candidates, SelectionConfig::default())
        .expect("usable account should be selected");

    assert_eq!(selection.account.id, "earlier");
    assert_eq!(selection.metrics.bottleneck_resets_at, Some(10));
}

#[test]
fn account_selector_older_last_used_breaks_ties() {
    let older = chatgpt_account(
        "older",
        noon(10),
    );
    let newer = chatgpt_account(
        "newer",
        noon(11),
    );
    let older_info = usage_info("older", 50.0, 50.0, 100, 200);
    let newer_info = usage_info("newer", 50.0, 50.0, 100, 200);
    let candidates = [
        candidate(&newer, &newer_info),
        candidate(&older, &older_info),
    ];

    let selection = pick(&candidates, SelectionConfig::default())
        .expect("usable account should be selected");

    assert_eq!(selection.account.id, "older");
}

#[test]
fn account_selector_stable_order_breaks_remaining_ties() {
    let first = chatgpt_account("first", None);
    let second = chatgpt_account("second", None);
    let first_info = usage_info("first", 50.0, 50.0, 100, 200);
    let second_info = usage_info("second", 50.0, 50.0, 100, 200);
    let candidates = [
        candidate(&first, &first_info),
        candidate(&second, &second_info),
    ];

    let selection = pick(&candidates, SelectionConfig::default())
        .expect("usable account should be selected");

    assert_eq!(selection.account.id, "first");
}

#[test]
fn simulator_finds_deadline_aware_policy_sustainable_burn_near_weekly_capacity() {
    let max_burn = max_sustainable_burn_for_policy(2, || {
        Runtime::new(SelectionPolicyKind::DeadlineAware)
    });
    let theoretical_weekly_max =
        2.0 * PRO_200_WEEKLY_LIMIT_CREDITS / f64::from(ACTIVE_MINUTES_PER_ROLLING_WEEK);

    assert!(
        max_burn >= 4.35,
        "selector should sustain near the 2-account weekly limit, got {max_burn:.3}"
    );
    assert!(
        max_burn <= theoretical_weekly_max + 0.01,
        "selector exceeded theoretical weekly capacity: {max_burn:.3} > {theoretical_weekly_max:.3}"
    );

    let just_over_the_limit = theoretical_weekly_max + 0.1;
    let stats =
        simulate_policy_work_week(&mut Runtime::new(SelectionPolicyKind::DeadlineAware), 2, just_over_the_limit);
    assert!(stats.failed_credits > 0.0);
    assert!(stats.unavailable_minutes > 0);
}

#[test]
fn simulator_compares_deadline_aware_against_drain_first_baseline() {
    let deadline_aware_max = max_sustainable_burn_for_policy(2, || {
        Runtime::new(SelectionPolicyKind::DeadlineAware)
    });
    let drain_first_max =
        max_sustainable_burn_for_policy(
            2,
            || DrainFirst::new(SelectionConfig::default()),
        );
    let theoretical_weekly_max =
        2.0 * PRO_200_WEEKLY_LIMIT_CREDITS / f64::from(ACTIVE_MINUTES_PER_ROLLING_WEEK);

    assert!(deadline_aware_max <= theoretical_weekly_max + 0.01);
    assert!(drain_first_max <= theoretical_weekly_max + 0.01);
    assert!(
        deadline_aware_max + 0.01 >= drain_first_max,
        "deadline-aware max burn {deadline_aware_max:.3} should not be worse than drain-first {drain_first_max:.3}"
    );

    let mut deadline_aware = Runtime::new(SelectionPolicyKind::DeadlineAware);
    let mut drain_first = DrainFirst::new(SelectionConfig::default());
    let deadline_aware_stats = simulate_policy_work_week(&mut deadline_aware, 2, 4.0);
    let drain_first_stats = simulate_policy_work_week(&mut drain_first, 2, 4.0);

    assert_eq!(deadline_aware_stats.unavailable_minutes, 0);
    assert_eq!(drain_first_stats.unavailable_minutes, 0);
    assert!(drain_first.current_account_id.is_some());
}

#[test]
fn deadline_aware_reduces_unavailable_time_for_constant_burn_near_capacity() {
    let mut saw_improvement = false;

    for credits_per_minute in [4.1, 4.2, 4.3, 4.35, 4.4] {
        let mut deadline_aware = Runtime::new(SelectionPolicyKind::DeadlineAware);
        let mut drain_first = DrainFirst::new(SelectionConfig::default());
        let deadline_aware_stats =
            simulate_policy_work_week(&mut deadline_aware, 2, credits_per_minute);
        let drain_first_stats =
            simulate_policy_work_week(&mut drain_first, 2, credits_per_minute);

        assert!(
            deadline_aware_stats.user_unavailable_minutes()
                <= drain_first_stats.user_unavailable_minutes(),
            "deadline-aware should not be worse at {credits_per_minute:.2} credits/min: {deadline_aware_stats:?} vs {drain_first_stats:?}"
        );

        saw_improvement |= deadline_aware_stats.user_unavailable_minutes()
            < drain_first_stats.user_unavailable_minutes();
    }

    assert!(
        saw_improvement,
        "deadline-aware should improve at least one steady burn rate near capacity"
    );
}

#[test]
fn account_selector_simulator_staggers_initial_reset_times_across_five_hour_and_weekly_windows() {
    let first = SimAccount::new("account-0", 0, 2);
    let second = SimAccount::new("account-1", 1, 2);
    let first_usage = first.usage_info(0);
    let second_usage = second.usage_info(0);

    assert_eq!(first_usage.primary.resets_at, Some(0));
    assert_eq!(
        second_usage.primary.resets_at,
        Some(FIVE_HOUR_WINDOW_MINUTES / 2)
    );
    assert_eq!(first_usage.secondary.resets_at, Some(0));
    assert_eq!(
        second_usage.secondary.resets_at,
        Some(WEEKLY_WINDOW_MINUTES / 2)
    );
}

const FIVE_HOUR_WINDOW_MINUTES: i64 = 300;
const WEEKLY_WINDOW_MINUTES: i64 = 10_080;
const SIMULATION_WEEKS: i64 = 2;
const SIMULATION_MINUTES: i64 = WEEKLY_WINDOW_MINUTES * SIMULATION_WEEKS;
const PRO_200_FIVE_HOUR_LIMIT_CREDITS: f64 = 1_250.0;
const PRO_200_WEEKLY_LIMIT_CREDITS: f64 = 5_000.0;
const ACTIVE_MINUTES_PER_ROLLING_WEEK: i32 = 2_250;

#[derive(Debug, Clone, Copy)]
struct UsageEvent {
    at_minute: i64,
    credits: f64,
}

#[derive(Debug, Clone, Copy)]
struct Demand {
    minute: i64,
    credits: f64,
}

struct SimAccount {
    account: StoredAccount,
    five_hour_events: VecDeque<UsageEvent>,
    weekly_events: VecDeque<UsageEvent>,
}

#[derive(Debug)]
struct SimStats {
    served_credits: f64,
    failed_credits: f64,
    preventable_failures: u32,
    unavailable_minutes: u32,
    max_contiguous_unavailable_minutes: u32,
    account_switches: u32,
    min_five_hour_remaining: f64,
    min_weekly_remaining: f64,
}

impl SimStats {
    fn user_unavailable_minutes(&self) -> u32 {
        self.unavailable_minutes
    }
}

fn max_sustainable_burn_for_policy<P, F>(account_count: usize, mut policy_factory: F) -> f64
where
    P: SimPolicy,
    F: FnMut() -> P,
{
    let mut low = 0.0;
    let mut high = 10.0;

    for _ in 0..24 {
        let mid = (low + high) / 2.0;
        let mut policy = policy_factory();
        let stats = simulate_policy_work_week(&mut policy, account_count, mid);
        if stats.user_unavailable_minutes() == 0 {
            low = mid;
        } else {
            high = mid;
        }
    }

    low
}

fn simulate_policy_work_week<P: SimPolicy>(
    policy: &mut P,
    account_count: usize,
    credits_per_minute: f64,
) -> SimStats {
    let mut accounts = (0..account_count)
        .map(|index| SimAccount::new(&format!("account-{index}"), index, account_count))
        .collect::<Vec<_>>();
    let mut stats = SimStats {
        served_credits: 0.0,
        failed_credits: 0.0,
        preventable_failures: 0,
        unavailable_minutes: 0,
        max_contiguous_unavailable_minutes: 0,
        account_switches: 0,
        min_five_hour_remaining: f64::INFINITY,
        min_weekly_remaining: f64::INFINITY,
    };
    let mut last_account_index = None;
    let mut contiguous_unavailable_minutes = 0;

    for minute in 0..SIMULATION_MINUTES {
        for account in &mut accounts {
            account.expire(minute);
        }

        if !is_work_minute(minute) {
            continue;
        }

        serve_demand(
            policy,
            &mut accounts,
            Demand {
                minute,
                credits: credits_per_minute,
            },
            &mut stats,
            &mut last_account_index,
            &mut contiguous_unavailable_minutes,
        );
    }

    stats
}

fn serve_demand<P: SimPolicy>(
    policy: &mut P,
    accounts: &mut [SimAccount],
    demand: Demand,
    stats: &mut SimStats,
    last_account_index: &mut Option<usize>,
    contiguous_unavailable_minutes: &mut u32,
) {
    let any_account_can_serve = accounts
        .iter()
        .any(|account| account.can_serve(demand.credits));
    if any_account_can_serve {
        *contiguous_unavailable_minutes = 0;
    } else {
        stats.unavailable_minutes += 1;
        *contiguous_unavailable_minutes += 1;
        stats.max_contiguous_unavailable_minutes = stats
            .max_contiguous_unavailable_minutes
            .max(*contiguous_unavailable_minutes);
    }

    let selected_index = select_sim_account(policy, accounts, demand.minute);
    let serving_index = selected_index
        .filter(|index| accounts[*index].can_serve(demand.credits))
        .or_else(|| {
            let fallback_index = accounts
                .iter()
                .position(|account| account.can_serve(demand.credits));
            if fallback_index.is_some() && selected_index != fallback_index {
                stats.preventable_failures += 1;
            }
            fallback_index
        });

    if let Some(index) = serving_index {
        accounts[index].consume(demand.minute, demand.credits);
        stats.served_credits += demand.credits;
        if last_account_index.is_some_and(|previous| previous != index) {
            stats.account_switches += 1;
        }
        *last_account_index = Some(index);
    } else {
        stats.failed_credits += demand.credits;
    }

    for account in accounts {
        stats.min_five_hour_remaining = stats
            .min_five_hour_remaining
            .min(account.five_hour_remaining());
        stats.min_weekly_remaining = stats.min_weekly_remaining.min(account.weekly_remaining());
    }
}

fn select_sim_account<P: SimPolicy>(
    policy: &mut P,
    accounts: &[SimAccount],
    minute: i64,
) -> Option<usize> {
    let usages = accounts
        .iter()
        .map(|account| account.usage_info(minute))
        .collect::<Vec<_>>();
    let candidates = accounts
        .iter()
        .zip(usages.iter())
        .map(|(account, usage)| candidate(&account.account, usage))
        .collect::<Vec<_>>();

    policy.select_at(&candidates, 0).and_then(|selection| {
        accounts
            .iter()
            .position(|account| account.account.id == selection.account.id)
    })
}

fn is_work_minute(minute: i64) -> bool {
    let day_of_week = (minute / 1_440) % 7;
    if day_of_week >= 5 {
        return false;
    }

    let minute_of_day = minute % 1_440;
    (570..720).contains(&minute_of_day) || (810..1_110).contains(&minute_of_day)
}

impl SimAccount {
    fn new(id: &str, index: usize, account_count: usize) -> Self {
        let five_hour_seed =
            staggered_seed_event(index, account_count, FIVE_HOUR_WINDOW_MINUTES);
        let weekly_seed = staggered_seed_event(index, account_count, WEEKLY_WINDOW_MINUTES);

        Self {
            account: chatgpt_account(id, None),
            five_hour_events: VecDeque::from([five_hour_seed]),
            weekly_events: VecDeque::from([weekly_seed]),
        }
    }

    fn expire(&mut self, minute: i64) {
        expire_events(&mut self.five_hour_events, minute, FIVE_HOUR_WINDOW_MINUTES);
        expire_events(&mut self.weekly_events, minute, WEEKLY_WINDOW_MINUTES);
    }

    fn consume(&mut self, minute: i64, credits: f64) {
        let event = UsageEvent {
            at_minute: minute,
            credits,
        };
        self.five_hour_events.push_back(event);
        self.weekly_events.push_back(event);
    }

    fn can_serve(&self, credits: f64) -> bool {
        self.five_hour_remaining() + f64::EPSILON >= credits
            && self.weekly_remaining() + f64::EPSILON >= credits
    }

    fn usage_info(&self, minute: i64) -> UsageInfo {
        let five_hour_used = self.five_hour_used();
        let weekly_used = self.weekly_used();
        usage_info(
            &self.account.id,
            used_percent(five_hour_used, PRO_200_FIVE_HOUR_LIMIT_CREDITS),
            used_percent(weekly_used, PRO_200_WEEKLY_LIMIT_CREDITS),
            reset_at(&self.five_hour_events, minute, FIVE_HOUR_WINDOW_MINUTES),
            reset_at(&self.weekly_events, minute, WEEKLY_WINDOW_MINUTES),
        )
    }

    fn five_hour_used(&self) -> f64 {
        total_credits(&self.five_hour_events)
    }

    fn weekly_used(&self) -> f64 {
        total_credits(&self.weekly_events)
    }

    fn five_hour_remaining(&self) -> f64 {
        (PRO_200_FIVE_HOUR_LIMIT_CREDITS - self.five_hour_used()).max(0.0)
    }

    fn weekly_remaining(&self) -> f64 {
        (PRO_200_WEEKLY_LIMIT_CREDITS - self.weekly_used()).max(0.0)
    }
}

fn expire_events(events: &mut VecDeque<UsageEvent>, minute: i64, window_minutes: i64) {
    while events
        .front()
        .is_some_and(|event| event.at_minute + window_minutes <= minute)
    {
        events.pop_front();
    }
}

fn staggered_seed_event(index: usize, account_count: usize, window_minutes: i64) -> UsageEvent {
    let offset = staggered_reset_offset(index, account_count, window_minutes);
    UsageEvent {
        at_minute: offset - window_minutes,
        credits: 0.0,
    }
}

fn staggered_reset_offset(index: usize, account_count: usize, window_minutes: i64) -> i64 {
    if account_count == 0 {
        return 0;
    }

    window_minutes * i64::try_from(index).expect("account index should fit in i64")
        / i64::try_from(account_count).expect("account count should fit in i64")
}

fn reset_at(events: &VecDeque<UsageEvent>, minute: i64, window_minutes: i64) -> i64 {
    events
        .front()
        .map_or(minute, |event| event.at_minute + window_minutes)
}

fn total_credits(events: &VecDeque<UsageEvent>) -> f64 {
    events.iter().map(|event| event.credits).sum()
}

fn used_percent(used: f64, limit: f64) -> f64 {
    (used / limit * 100.0).clamp(0.0, 100.0)
}

fn used(percent: f64) -> UsedPercent {
    UsedPercent {
        bits: percent.to_bits(),
        headroom: (100.0 - percent).clamp(0.0, 100.0).to_bits(),
        shown: String::new(),
        left_shown: String::new(),
        left_cells: 0,
        number: String::new(),
        left_number: String::new(),
    }
}

fn weekly_units(candidates: &[AccountUsageCandidate<'_>], config: SelectionConfig) -> Vec<u64> {
    let ratio = f64::from_bits(normalized_weekly_to_five_hour_ratio(
        config.weekly_to_five_hour_ratio,
    ));
    candidates
        .iter()
        .map(|candidate| {
            match find_window(
                &candidate.usage.primary,
                &candidate.usage.secondary,
                UsageWindowKind::Weekly,
            ) {
                Some(window) => match &window.used_percent {
                    Some(used) => (f64::from_bits(used.headroom) * ratio).to_bits(),
                    None => 0,
                },
                None => 0,
            }
        })
        .collect()
}

fn reset_delay_ratio(resets_at: Option<i64>, window_minutes: Option<i64>, now: i64) -> f64 {
    match reset_delay(resets_at, window_minutes, now) {
        Some((delay, window)) => (delay as f64 / window as f64).clamp(0.0, 1.0),
        None => 1.0,
    }
}

fn shadow_window_price(window: &UsageWindowData, capacity_weight: f64, now: i64) -> f64 {
    let used = match &window.used_percent {
        Some(used) => (f64::from_bits(used.bits) / 100.0).clamp(0.0, 1.0),
        None => return f64::INFINITY,
    };
    let headroom = (1.0 - used).clamp(0.0, 1.0);
    let remaining_units = (headroom * capacity_weight).max(0.01);
    let reset_factor = reset_delay_ratio(window.resets_at, window.window_minutes, now)
        .powf(1.5)
        .clamp(0.02, 1.0);
    used / remaining_units * (0.15 + 0.85 * reset_factor)
}

fn score(
    kind: SelectionPolicyKind,
    candidate: &EvaluatedCandidate<'_>,
    usage: &UsageInfo,
    config: SelectionConfig,
    now: i64,
) -> f64 {
    let headroom = f64::from_bits(candidate.metrics.bottleneck_headroom);
    let risk = (1.0 - headroom / 100.0).clamp(0.0, 1.0);
    let reset_factor = reset_delay_ratio(
        candidate.metrics.bottleneck_resets_at,
        candidate.bottleneck_window_minutes(),
        now,
    )
    .powf(1.25)
    .clamp(0.1, 1.0);
    match kind {
        SelectionPolicyKind::DeadlineAware => 0.0,
        SelectionPolicyKind::ShadowPrice => {
            let ratio = f64::from_bits(normalized_weekly_to_five_hour_ratio(
                config.weekly_to_five_hour_ratio,
            ));
            shadow_window_price(&usage.primary, 1.0, now)
                + shadow_window_price(&usage.secondary, ratio, now)
        }
        SelectionPolicyKind::ResetWeightedMinimax => risk * reset_factor,
        SelectionPolicyKind::DemandAwareHysteresis => {
            let safe = f64::from_bits(normalized_min_safe_headroom(config.min_safe_headroom));
            let low_margin = if safe <= 0.0 || headroom >= safe {
                0.0
            } else {
                ((safe - headroom) / safe).clamp(0.0, 1.0) * 10.0
            };
            let weekly = if candidate.metrics.bottleneck == UsageWindow::Weekly {
                0.15 * reset_factor
            } else {
                0.0
            };
            risk * reset_factor + low_margin + weekly
        }
    }
}

fn scores(
    candidates: &Vec<AccountUsageCandidate<'_>>,
    units: &Vec<u64>,
    config: SelectionConfig,
    now: i64,
) -> Vec<Score> {
    let mut all = vec![
        Score {
            value: 0,
            with_margin: 0
        };
        candidates.len()
    ];
    if config.policy == SelectionPolicyKind::DeadlineAware {
        return all;
    }
    for candidate in evaluated_candidates(candidates, units, config) {
        let value = score(
            config.policy,
            &candidate,
            candidates[candidate.order].usage,
            config,
            now,
        );
        all[candidate.order] = Score {
            value: value.to_bits(),
            with_margin: (value + 0.08).to_bits(),
        };
    }
    all
}

fn select<'a>(
    candidates: &[AccountUsageCandidate<'a>],
    config: SelectionConfig,
    context: SelectionContext<'_>,
) -> Option<AccountSelection<'a>> {
    let candidates = candidates.to_vec();
    let units = weekly_units(&candidates, config);
    let scores = scores(&candidates, &units, config, context.now);
    select_account_with_context(&candidates, &units, &scores, config, context)
}

fn pick<'a>(
    candidates: &[AccountUsageCandidate<'a>],
    config: SelectionConfig,
) -> Option<AccountSelection<'a>> {
    let candidates = candidates.to_vec();
    let units = weekly_units(&candidates, config);
    let now = chrono::Utc::now().timestamp();
    let scores = scores(&candidates, &units, config, now);
    select_account(&candidates, &units, &scores, config)
}

fn candidate<'a>(account: &'a StoredAccount, usage: &'a UsageInfo) -> AccountUsageCandidate<'a> {
    AccountUsageCandidate { account, usage }
}

fn account(id: &str, auth_mode: AuthMode, auth_data: AuthData) -> StoredAccount {
    StoredAccount {
        id: id.to_string(),
        name: id.to_string(),
        email: None,
        plan_type: Some("pro".to_string()),
        chatgpt_user_id: None,
        chatgpt_account_is_fedramp: false,
        token_last_refresh_at: None,
        subscription_expires_at: None,
        auth_mode,
        auth_data,
        created_at: Timestamp {
            millis: 1_780_000_000_000,
            nanos: 0,
        },
        last_used_at: None,
        auto_switch_disabled: false,
    }
}

fn chatgpt_account(id: &str, last_used_at: Option<Timestamp>) -> StoredAccount {
    let mut account = account(
        id,
        AuthMode::ChatGPT,
        AuthData::ChatGPT {
            id_token: "id-token".to_string(),
            access_token: "access-token".to_string(),
            refresh_token: "refresh-token".to_string(),
            account_id: Some(id.to_string()),
        },
    );
    account.last_used_at = last_used_at;
    account
}

fn api_key_account(id: &str) -> StoredAccount {
    account(
        id,
        AuthMode::ApiKey,
        AuthData::ApiKey {
            key: "api-key".to_string(),
        },
    )
}

fn window(percent: f64, resets_at: i64, minutes: i64) -> UsageWindowData {
    UsageWindowData {
        used_percent: Some(used(percent)),
        window_minutes: Some(minutes),
        resets_at: Some(resets_at),
    }
}

fn usage_info_with_windows(
    account_id: &str,
    five_hour_used_percent: f64,
    weekly_used_percent: f64,
    five_hour_resets_at: i64,
    weekly_resets_at: i64,
    five_hour_window_minutes: i64,
    weekly_window_minutes: i64,
) -> UsageInfo {
    UsageInfo {
        account_id: account_id.to_string(),
        limit_id: Some("codex".to_string()),
        limit_name: None,
        plan_type: Some("pro".to_string()),
        primary: window(
            five_hour_used_percent,
            five_hour_resets_at,
            five_hour_window_minutes,
        ),
        secondary: window(weekly_used_percent, weekly_resets_at, weekly_window_minutes),
        has_credits: None,
        unlimited_credits: None,
        credits_balance: None,
        rate_limit_reset_credits_available: None,
        rate_limit_reached_type: None,
        additional_limits: Vec::new(),
        error: None,
    }
}

fn usage_info(
    account_id: &str,
    five_hour_used_percent: f64,
    weekly_used_percent: f64,
    five_hour_resets_at: i64,
    weekly_resets_at: i64,
) -> UsageInfo {
    usage_info_with_windows(
        account_id,
        five_hour_used_percent,
        weekly_used_percent,
        five_hour_resets_at,
        weekly_resets_at,
        300,
        10_080,
    )
}

fn noon(day: u32) -> Option<Timestamp> {
    let seconds = chrono::TimeZone::with_ymd_and_hms(&chrono::Utc, 2026, 5, day, 12, 0, 0)
        .unwrap()
        .timestamp();
    Some(Timestamp {
        millis: seconds * 1000,
        nanos: 0,
    })
}

trait SimPolicy {
    fn select_at<'a>(
        &mut self,
        candidates: &[AccountUsageCandidate<'a>],
        now: i64,
    ) -> Option<AccountSelection<'a>>;
}

struct Runtime {
    config: SelectionConfig,
}

impl Runtime {
    fn new(policy: SelectionPolicyKind) -> Self {
        Runtime {
            config: SelectionConfig {
                policy,
                ..SelectionConfig::default()
            },
        }
    }
}

impl SimPolicy for Runtime {
    fn select_at<'a>(
        &mut self,
        candidates: &[AccountUsageCandidate<'a>],
        now: i64,
    ) -> Option<AccountSelection<'a>> {
        let candidates = candidates.to_vec();
        let units = weekly_units(&candidates, self.config);
        let scores = scores(&candidates, &units, self.config, now);
        let context = SelectionContext::at(now);
        match self.config.policy {
            SelectionPolicyKind::DeadlineAware => DeadlineAwarePolicy::new(self.config)
                .select_account_at(&candidates, &units, &scores, context),
            SelectionPolicyKind::ShadowPrice => ShadowPricePolicy::new(self.config)
                .select_account_at(&candidates, &units, &scores, context),
            SelectionPolicyKind::ResetWeightedMinimax => {
                ResetWeightedMinimaxPolicy::new(self.config).select_account_at(
                    &candidates,
                    &units,
                    &scores,
                    context,
                )
            }
            SelectionPolicyKind::DemandAwareHysteresis => {
                DemandAwareHysteresisPolicy::new(self.config).select_account_at(
                    &candidates,
                    &units,
                    &scores,
                    context,
                )
            }
        }
    }
}

struct DrainFirst {
    config: SelectionConfig,
    current_account_id: Option<String>,
}

impl DrainFirst {
    fn new(config: SelectionConfig) -> Self {
        DrainFirst {
            config,
            current_account_id: None,
        }
    }
}

impl SimPolicy for DrainFirst {
    fn select_at<'a>(
        &mut self,
        candidates: &[AccountUsageCandidate<'a>],
        _now: i64,
    ) -> Option<AccountSelection<'a>> {
        let candidates = candidates.to_vec();
        let units = weekly_units(&candidates, self.config);
        let evaluated = evaluated_candidates(&candidates, &units, self.config);
        let selected = self
            .current_account_id
            .as_deref()
            .and_then(|account_id| {
                evaluated
                    .iter()
                    .find(|candidate| candidate.account.id == account_id)
            })
            .or_else(|| evaluated.first())?;

        self.current_account_id = Some(selected.account.id.clone());
        Some(AccountSelection {
            account: selected.account,
            metrics: selected.metrics,
        })
    }
}

#[test]
fn the_context_of_this_moment_is_that_of_the_clock() {
    let before = Utc::now().timestamp();
    let context = SelectionContext::now();
    assert!(before <= context.now && context.now <= Utc::now().timestamp());
    assert!(context.current_account_id.is_none());
    let named = context.with_current_account_id(Some("one"));
    assert_eq!((named.now, named.current_account_id), (context.now, Some("one")));
}
