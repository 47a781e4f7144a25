//! Keeping the app-server in step with the account in auth.json.
use codex_switch::runtime::login::{
    same_snapshot, CurrentAccountSnapshot, RuntimeLoginResult,
};
use codex_switch::runtime::reconcile::{
    account_to_log_in, check_expected, offered, runtime_login_result_to_reconcile_outcome,
    timed_out, wait_time, woken, ActiveAccountReconcileAction, ActiveAccountReconcileAttemptResult,
    ActiveAccountReconcileOutcome, ActiveAccountReconcileState, WaitEvent,
    ACTIVE_ACCOUNT_MAX_ATTEMPTS, ACTIVE_ACCOUNT_WATCH_INTERVAL,
};
use codex_switch::runtime::schedule::QueueRoom;

const SECOND: u128 = 1_000_000_000;

const NOW: u128 = 1_000_000 * SECOND;

const RETRY_DELAYS: [u128; 4] = [SECOND, 2 * SECOND, 5 * SECOND, 10 * SECOND];

#[test]
fn active_account_reconciler_retries_transient_failure_then_settles_success() {
    let now = NOW;
    let initial_snapshot = current_snapshot("account-a");
    let changed_snapshot = current_snapshot("account-b");
    let mut state = ActiveAccountReconcileState::new(Some(initial_snapshot), now);

    assert_attempt(state.next_action(changed_snapshot.clone(), now), &changed_snapshot, true);
    state.finish_attempt(
        &changed_snapshot,
        ActiveAccountReconcileOutcome::Transient("temporary failure".to_string()),
        now,
    );
    assert!(matches!(
        state.next_action(changed_snapshot.clone(), now),
        ActiveAccountReconcileAction::Wait
    ));

    let retry_at = now + RETRY_DELAYS[0];
    assert_attempt(state.next_action(changed_snapshot.clone(), retry_at), &changed_snapshot, true);
    state.finish_attempt(
        &changed_snapshot,
        ActiveAccountReconcileOutcome::Success,
        retry_at,
    );
    assert!(matches!(
        state.next_action(changed_snapshot, retry_at + 60 * SECOND),
        ActiveAccountReconcileAction::Wait
    ));
}

#[test]
fn active_account_reconciler_attempts_initial_snapshot() {
    let now = NOW;
    let initial_snapshot = current_snapshot("account-a");
    let mut state = ActiveAccountReconcileState::new(Some(initial_snapshot.clone()), now);

    assert_attempt(state.next_action(initial_snapshot.clone(), now), &initial_snapshot, false);
}

#[test]
fn active_account_reconciler_does_not_notify_after_initial_snapshot_error() {
    let now = NOW;
    let initial_snapshot = current_snapshot("account-a");
    let mut state = ActiveAccountReconcileState::new(None, now);

    assert_attempt(state.next_action(initial_snapshot.clone(), now), &initial_snapshot, false);
}

#[test]
fn active_account_reconciler_notifies_for_runtime_same_account_snapshot_change() {
    let now = NOW;
    let initial_snapshot = current_snapshot("account-a");
    let mut refreshed_snapshot = current_snapshot("account-a");
    refreshed_snapshot.auth_marker = Some("chatgpt:account-a:2:pro".to_string());
    let mut state = ActiveAccountReconcileState::new(Some(initial_snapshot), now);

    assert_attempt(state.next_action(refreshed_snapshot.clone(), now), &refreshed_snapshot, true);
}

#[test]
fn active_account_reconciler_preserves_notification_across_stale_token_refresh() {
    let now = NOW;
    let initial_snapshot = current_snapshot("account-a");
    let changed_snapshot = current_snapshot("account-b");
    let mut refreshed_snapshot = current_snapshot("account-b");
    refreshed_snapshot.auth_marker = Some("chatgpt:account-b:2:pro".to_string());
    let mut state = ActiveAccountReconcileState::new(Some(initial_snapshot), now);

    assert_attempt(state.next_action(changed_snapshot.clone(), now), &changed_snapshot, true);
    state.finish_attempt(&changed_snapshot, ActiveAccountReconcileOutcome::Stale, now);

    assert_attempt(state.next_action(refreshed_snapshot.clone(), now), &refreshed_snapshot, true);
    state.finish_attempt(
        &refreshed_snapshot,
        ActiveAccountReconcileOutcome::Success,
        now,
    );

    let mut second_refresh = current_snapshot("account-b");
    second_refresh.auth_marker = Some("chatgpt:account-b:3:pro".to_string());
    assert_attempt(state.next_action(second_refresh.clone(), now), &second_refresh, true);
}

#[test]
fn active_account_reconciler_notifies_after_terminal_then_same_account_relogin() {
    let now = NOW;
    let initial_snapshot = current_snapshot("account-a");
    let first_snapshot = current_snapshot("account-b");
    let mut relogin_snapshot = current_snapshot("account-b");
    relogin_snapshot.auth_marker = Some("chatgpt:account-b:replacement:pro".to_string());
    let mut state = ActiveAccountReconcileState::new(Some(initial_snapshot), now);

    assert_attempt(state.next_action(first_snapshot.clone(), now), &first_snapshot, true);
    state.finish_attempt(
        &first_snapshot,
        ActiveAccountReconcileOutcome::Terminal("Token refresh failed".to_string()),
        now,
    );

    assert_attempt(state.next_action(relogin_snapshot.clone(), now), &relogin_snapshot, true);
}

#[test]
fn active_account_reconciler_keeps_polling_during_retry_backoff() {
    let now = NOW;
    let initial_snapshot = current_snapshot("account-a");
    let changed_snapshot = current_snapshot("account-b");
    let mut state = ActiveAccountReconcileState::new(Some(initial_snapshot), now);

    assert!(matches!(
        state.next_action(changed_snapshot.clone(), now),
        ActiveAccountReconcileAction::Attempt { .. }
    ));
    state.finish_attempt(
        &changed_snapshot,
        ActiveAccountReconcileOutcome::Transient("temporary failure".to_string()),
        now,
    );

    let first_retry_at = now + RETRY_DELAYS[0];
    assert!(matches!(
        state.next_action(changed_snapshot.clone(), first_retry_at),
        ActiveAccountReconcileAction::Attempt { .. }
    ));
    state.finish_attempt(
        &changed_snapshot,
        ActiveAccountReconcileOutcome::Transient("temporary failure".to_string()),
        first_retry_at,
    );

    assert_eq!(
        state.next_poll_delay(first_retry_at),
        ACTIVE_ACCOUNT_WATCH_INTERVAL
    );
}

#[test]
fn active_account_reconciler_stops_after_bounded_transient_failures() {
    let mut now = NOW;
    let initial_snapshot = current_snapshot("account-a");
    let changed_snapshot = current_snapshot("account-b");
    let mut state = ActiveAccountReconcileState::new(Some(initial_snapshot), now);

    for delay in RETRY_DELAYS {
        assert_attempt(state.next_action(changed_snapshot.clone(), now), &changed_snapshot, true);
        state.finish_attempt(
            &changed_snapshot,
            ActiveAccountReconcileOutcome::Transient("temporary failure".to_string()),
            now,
        );
        now += delay;
    }

    assert_eq!(
        ACTIVE_ACCOUNT_MAX_ATTEMPTS,
        RETRY_DELAYS.len() + 1
    );
    assert_attempt(state.next_action(changed_snapshot.clone(), now), &changed_snapshot, true);
    state.finish_attempt(
        &changed_snapshot,
        ActiveAccountReconcileOutcome::Transient("temporary failure".to_string()),
        now,
    );

    assert!(matches!(
        state.next_action(changed_snapshot, now + 3600 * SECOND),
        ActiveAccountReconcileAction::Wait
    ));
}

#[test]
fn active_account_reconciler_does_not_exhaust_attempts_for_deferred_work() {
    let mut now = NOW;
    let initial_snapshot = current_snapshot("account-a");
    let changed_snapshot = current_snapshot("account-b");
    let mut state = ActiveAccountReconcileState::new(Some(initial_snapshot), now);

    for _ in 0..(ACTIVE_ACCOUNT_MAX_ATTEMPTS + 2) {
        assert_attempt(state.next_action(changed_snapshot.clone(), now), &changed_snapshot, true);
        state.finish_attempt(
            &changed_snapshot,
            ActiveAccountReconcileOutcome::Deferred(
                "Another login request is already pending".to_string(),
            ),
            now,
        );
        assert!(matches!(
        state.next_action(changed_snapshot.clone(), now),
        ActiveAccountReconcileAction::Wait
    ));
        now += ACTIVE_ACCOUNT_WATCH_INTERVAL;
    }

    assert_attempt(state.next_action(changed_snapshot.clone(), now), &changed_snapshot, true);
}

#[test]
fn active_account_reconciler_treats_terminal_failure_as_settled() {
    let now = NOW;
    let initial_snapshot = current_snapshot("account-a");
    let changed_snapshot = current_snapshot("account-b");
    let mut state = ActiveAccountReconcileState::new(Some(initial_snapshot), now);

    assert!(matches!(
        state.next_action(changed_snapshot.clone(), now),
        ActiveAccountReconcileAction::Attempt { .. }
    ));
    state.finish_attempt(
        &changed_snapshot,
        ActiveAccountReconcileOutcome::Terminal(
            "API key accounts do not support runtime switching".to_string(),
        ),
        now,
    );

    assert!(matches!(
        state.next_action(changed_snapshot, now + 3600 * SECOND),
        ActiveAccountReconcileAction::Wait
    ));
}

#[test]
fn active_account_reconciler_ignores_stale_result_and_handles_new_snapshot() {
    let now = NOW;
    let initial_snapshot = current_snapshot("account-a");
    let first_snapshot = current_snapshot("account-b");
    let second_snapshot = current_snapshot("account-c");
    let mut state = ActiveAccountReconcileState::new(Some(initial_snapshot), now);

    assert!(matches!(
        state.next_action(first_snapshot.clone(), now),
        ActiveAccountReconcileAction::Attempt { .. }
    ));
    state.finish_attempt(&first_snapshot, ActiveAccountReconcileOutcome::Stale, now);

    assert_attempt(state.next_action(second_snapshot.clone(), now), &second_snapshot, true);
}

#[test]
fn results_of_logins_decide_what_follows() {
    assert!(matches!(
        runtime_login_result_to_reconcile_outcome(RuntimeLoginResult::Success),
        ActiveAccountReconcileOutcome::Success
    ));
    assert!(matches!(
        runtime_login_result_to_reconcile_outcome(RuntimeLoginResult::Deferred("d".to_string())),
        ActiveAccountReconcileOutcome::Deferred(m) if m == "d"
    ));
    assert!(matches!(
        runtime_login_result_to_reconcile_outcome(RuntimeLoginResult::Terminal("t".to_string())),
        ActiveAccountReconcileOutcome::Terminal(m) if m == "t"
    ));
}

#[test]
fn an_attempt_looks_before_it_acts() {
    assert!(check_expected(Ok(true)).is_none());
    assert!(matches!(
        check_expected(Ok(false)),
        Some(ActiveAccountReconcileOutcome::Stale)
    ));
    assert!(matches!(
        check_expected(Err("unreadable".to_string())),
        Some(ActiveAccountReconcileOutcome::Transient(_))
    ));
    assert!(matches!(
        account_to_log_in(Ok(None), true),
        Err(ActiveAccountReconcileOutcome::Terminal(m)) if m == "No active account"
    ));
}

#[test]
fn an_attempt_ends_with_its_login_or_its_time() {
    assert!(offered(QueueRoom::Free).is_none());
    assert!(matches!(
        offered(QueueRoom::Full),
        Some(ActiveAccountReconcileAttemptResult::Completed(
            ActiveAccountReconcileOutcome::Deferred(_)
        ))
    ));
    assert!(matches!(
        offered(QueueRoom::Closed),
        Some(ActiveAccountReconcileAttemptResult::Shutdown)
    ));
    assert!(matches!(
        timed_out(),
        ActiveAccountReconcileAttemptResult::Completed(ActiveAccountReconcileOutcome::Transient(_))
    ));
    assert_eq!(wait_time(NOW, NOW), None);
    assert!(wait_time(NOW + 20 * SECOND, NOW).is_some_and(|pause| pause <= SECOND));
    assert!(matches!(
        woken(WaitEvent::Shutdown(true)),
        Some(ActiveAccountReconcileAttemptResult::Shutdown)
    ));
    assert!(woken(WaitEvent::Shutdown(false)).is_none());
    assert!(woken(WaitEvent::Tick(Ok(true))).is_none());
    assert!(matches!(
        woken(WaitEvent::Tick(Ok(false))),
        Some(ActiveAccountReconcileAttemptResult::Completed(
            ActiveAccountReconcileOutcome::Stale
        ))
    ));
}

fn assert_attempt(
    action: ActiveAccountReconcileAction,
    expected: &CurrentAccountSnapshot,
    notify: bool,
) {
    match action {
        ActiveAccountReconcileAction::Attempt {
            snapshot,
            notify_on_success,
        } => {
            assert!(same_snapshot(&snapshot, expected));
            assert_eq!(notify_on_success, notify);
        }
        ActiveAccountReconcileAction::Wait => panic!("an attempt should be made"),
    }
}

fn current_snapshot(account_id: &str) -> CurrentAccountSnapshot {
    CurrentAccountSnapshot {
        current_account_id: Some(account_id.to_string()),
        auth_marker: Some(format!("chatgpt:{account_id}:1:pro")),
    }
}
