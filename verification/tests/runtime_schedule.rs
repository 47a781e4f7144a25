//! When searches for a better account are started, and what becomes of them.
use codex_switch::accounts::{AccountsStore, NewChatGptAccount, StoredAccount, Timestamp};
use codex_switch::auto_switch::{AutoSwitchPlan, AutoSwitchResult};
use codex_switch::runtime::login::{
    current_account_auth_marker, current_account_snapshot, current_account_snapshot_for_account,
    merge_runtime_login_success_notification, prepare_login_from_fresh_account, same_snapshot,
    same_snapshots, select_current_kept_login_account, sync_current_account_auth, AuthSync,
    CurrentAccountSnapshot, ExternalAuthPayload, PreparedAccountLogin, RuntimeClientNotification,
    RuntimeLoginCommand, RuntimeLoginSuccessNotification,
};
use codex_switch::runtime::schedule::{
    after_commit, after_prepare, auto_switch_plan_work, handle_runtime_auto_switch_request,
    plan_needs_store, queue_background_auto_switch, queue_hard_auto_switch, start_command,
    take_result, try_send_background_runtime_command, AutoSwitchLoginMode,
    BackgroundAutoSwitchQueueStatus, BackgroundRuntimeRequest, CommandStep, QueueRoom, RequestStep,
    RuntimeAutoSwitchPriority, RuntimeAutoSwitchSchedule, RuntimeAutoSwitchWork,
    RuntimeCommandSendStatus, AUTO_SWITCH_SOFT_COOLDOWN,
};

const SECOND: u128 = 1_000_000_000;

const NOW: u128 = 1_000_000 * SECOND;

#[test]
fn hard_auto_switch_queue_supersedes_soft_generation() {
    let mut schedule = schedule();

    let (status, soft) = queue_background_auto_switch(&mut schedule, QueueRoom::Free, NOW);
    assert_eq!(status, BackgroundAutoSwitchQueueStatus::Queued);
    let soft = soft.expect("soft request should be queued");

    let (status, hard) = queue_hard_auto_switch(
        &mut schedule,
        QueueRoom::Free,
        AutoSwitchLoginMode::SwitchedOnly,
    );
    assert_eq!(status, BackgroundAutoSwitchQueueStatus::Queued);
    let hard = hard.expect("hard request should be queued");

    assert_eq!(soft.priority, RuntimeAutoSwitchPriority::Soft);
    assert_eq!(hard.priority, RuntimeAutoSwitchPriority::Hard);
    assert!(hard.generation > soft.generation);
    assert!(!schedule.is_current_generation(soft.generation));
    assert!(schedule.is_current_generation(hard.generation));
}

#[test]
fn background_auto_switch_queue_allows_after_cooldown() {
    let mut schedule = schedule();

    let (status, request) = queue_background_auto_switch(&mut schedule, QueueRoom::Free, NOW);
    assert_eq!(status, BackgroundAutoSwitchQueueStatus::Queued);
    assert!(request.is_some());
    schedule.finish();

    assert_eq!(
        queue_background_auto_switch(&mut schedule, QueueRoom::Free, NOW + 14 * 60 * SECOND).0,
        BackgroundAutoSwitchQueueStatus::Cooldown
    );
    assert_eq!(
        queue_background_auto_switch(&mut schedule, QueueRoom::Free, NOW + 15 * 60 * SECOND).0,
        BackgroundAutoSwitchQueueStatus::Queued
    );
}

#[test]
fn background_auto_switch_queue_rejects_while_in_flight() {
    let mut schedule = schedule();

    let (status, request) = queue_background_auto_switch(&mut schedule, QueueRoom::Free, NOW);
    assert_eq!(status, BackgroundAutoSwitchQueueStatus::Queued);
    assert!(request.is_some());

    assert_eq!(
        queue_background_auto_switch(&mut schedule, QueueRoom::Free, NOW + 15 * 60 * SECOND).0,
        BackgroundAutoSwitchQueueStatus::InFlight
    );
}

#[test]
fn background_auto_switch_queue_reports_full_without_blocking() {
    let mut schedule = schedule();

    assert_eq!(
        queue_background_auto_switch(&mut schedule, QueueRoom::Full, NOW).0,
        BackgroundAutoSwitchQueueStatus::Full
    );
    assert_eq!(
        queue_background_auto_switch(&mut schedule, QueueRoom::Free, NOW).0,
        BackgroundAutoSwitchQueueStatus::Queued
    );
}

#[test]
fn hard_auto_switch_queue_keeps_generation_when_full() {
    let mut schedule = schedule();

    let (status, queued) = queue_hard_auto_switch(
        &mut schedule,
        QueueRoom::Free,
        AutoSwitchLoginMode::SwitchedOnly,
    );
    assert_eq!(status, BackgroundAutoSwitchQueueStatus::Queued);
    let queued_generation = schedule.generation;
    assert_eq!(
        queue_hard_auto_switch(
            &mut schedule,
            QueueRoom::Full,
            AutoSwitchLoginMode::SwitchedOnly
        )
        .0,
        BackgroundAutoSwitchQueueStatus::Full
    );
    assert_eq!(schedule.generation, queued_generation);

    let queued = queued.expect("queued hard request should remain runnable");
    assert_eq!(queued.generation, queued_generation);
}

#[test]
fn background_runtime_command_send_drops_when_queue_is_full() {
    assert_eq!(
        try_send_background_runtime_command(QueueRoom::Free),
        RuntimeCommandSendStatus::Sent
    );
    assert_eq!(
        try_send_background_runtime_command(QueueRoom::Full),
        RuntimeCommandSendStatus::Full
    );
    assert_eq!(
        try_send_background_runtime_command(QueueRoom::Closed),
        RuntimeCommandSendStatus::Closed
    );
}

#[test]
fn ensure_current_logged_requires_snapshot_match_for_current_account() {
    let account = chatgpt_account("account-a");
    let matching_snapshot = current_account_snapshot_for_account(&account);
    let mut stale_snapshot = matching_snapshot.clone();
    stale_snapshot.auth_marker = Some("chatgpt:account-a:0:free".to_string());

    let stale_selection = select_current_kept_login_account(
        account.clone(),
        &matching_snapshot,
        Some(&account.id),
        &Some(stale_snapshot),
    );
    assert_eq!(
        stale_selection.as_ref().map(|account| account.id.as_str()),
        Some("account-a")
    );

    let matching_selection = select_current_kept_login_account(
        account.clone(),
        &matching_snapshot,
        Some(&account.id),
        &Some(matching_snapshot.clone()),
    );
    assert!(matching_selection.is_none());
}

#[test]
fn fire_and_forget_login_tracks_prepared_current_snapshot() {
    let snapshot = current_snapshot("account-a");
    let command =
        RuntimeLoginCommand::fire_and_forget(prepared_login("account-a", Some(snapshot.clone())));

    assert!(same_snapshots(&command.expected_snapshot, &Some(snapshot)));
}

#[test]
fn reconciled_login_command_preserves_success_notification() {
    let snapshot = current_snapshot("account-a");
    let notification = RuntimeClientNotification::Warning {
        message: "codex-switch switched account to account-a".to_string(),
    };
    let command = RuntimeLoginCommand::reconciled(
        prepared_login("account-a", Some(snapshot.clone())),
        snapshot.clone(),
        7,
        Some(RuntimeLoginSuccessNotification::Client(notification)),
    );

    assert!(same_snapshots(&command.expected_snapshot, &Some(snapshot)));
    assert!(matches!(
        command.success_notification,
        Some(RuntimeLoginSuccessNotification::Client(n))
            if n.message() == "codex-switch switched account to account-a"
    ));
}

#[test]
fn prewarm_login_command_targets_refreshed_snapshot() {
    let snapshot = current_snapshot("account-a");
    let command = RuntimeLoginCommand::prewarm(
        prepared_login("account-a", Some(snapshot.clone())),
        snapshot.clone(),
    );

    assert!(same_snapshots(&command.expected_snapshot, &Some(snapshot)));
    assert_eq!(command.generation, None);
    assert!(command.completion.is_none());
}

#[test]
fn a_closed_queue_changes_nothing() {
    let mut schedule = schedule();
    let before = schedule;
    assert_eq!(
        queue_background_auto_switch(&mut schedule, QueueRoom::Closed, NOW).0,
        BackgroundAutoSwitchQueueStatus::Closed
    );
    assert_eq!(schedule, before);
}

#[test]
fn hard_requests_take_over() {
    let mut schedule = schedule();
    let (_, soft) = queue_background_auto_switch(&mut schedule, QueueRoom::Free, NOW);
    let soft = soft.expect("soft request should be queued");
    assert_eq!(
        handle_runtime_auto_switch_request(&soft, None, &mut schedule),
        RequestStep::Start {
            abort_current: false
        }
    );
    let (_, hard) = queue_hard_auto_switch(
        &mut schedule,
        QueueRoom::Free,
        AutoSwitchLoginMode::SwitchedOnly,
    );
    let hard = hard.expect("hard request should be queued");
    assert_eq!(
        handle_runtime_auto_switch_request(
            &hard,
            Some(RuntimeAutoSwitchPriority::Soft),
            &mut schedule
        ),
        RequestStep::Start {
            abort_current: true
        }
    );
    assert_eq!(
        handle_runtime_auto_switch_request(&soft, None, &mut schedule),
        RequestStep::Drop
    );
}

#[test]
fn late_results_are_dropped() {
    let mut schedule = schedule();
    let snapshot = Some(current_snapshot("account-a"));
    assert!(take_result(
        RuntimeAutoSwitchPriority::Hard,
        schedule.generation,
        &snapshot,
        &snapshot,
        &mut schedule
    ));
    assert!(!take_result(
        RuntimeAutoSwitchPriority::Hard,
        schedule.generation,
        &snapshot,
        &Some(current_snapshot("account-b")),
        &mut schedule
    ));
    let other = schedule.generation + 1;
    assert!(!take_result(
        RuntimeAutoSwitchPriority::Hard,
        other,
        &snapshot,
        &snapshot,
        &mut schedule
    ));
}

#[test]
fn a_switch_goes_from_plan_to_login() {
    let schedule = schedule();
    let store = store_of(vec![chatgpt_account("a"), chatgpt_account("b")]);
    let plan = AutoSwitchPlan::Switch {
        from: Some(Box::new(chatgpt_account("a"))),
        to: Box::new(chatgpt_account("b")),
        reason: "weekly usage is 100.0%".to_string(),
    };
    let mode = AutoSwitchLoginMode::SwitchedOnly;
    assert!(!plan_needs_store(&plan, &mode));
    let work = auto_switch_plan_work(plan, &mode, &store);
    assert!(matches!(work, Some(RuntimeAutoSwitchWork::Switch(_))));
    assert!(matches!(
        start_command(work, schedule.generation, &schedule),
        CommandStep::Commit(_)
    ));

    let result = AutoSwitchResult::Switched {
        from: Some(Box::new(chatgpt_account("a"))),
        to: Box::new(chatgpt_account("b")),
        reason: "weekly usage is 100.0%".to_string(),
    };
    match after_commit(result, schedule.generation, &schedule) {
        CommandStep::Prepare {
            account,
            notification,
        } => {
            assert_eq!(account.id, "b");
            assert!(notification.is_some());
        }
        _ => panic!("a login has to be prepared"),
    }
    assert!(after_prepare(
        prepared_login("b", None),
        None,
        schedule.generation + 1,
        &schedule
    )
    .is_none());
    assert!(after_prepare(prepared_login("b", None), None, schedule.generation, &schedule).is_some());
}

#[test]
fn credentials_are_written_where_they_differ() {
    let account = chatgpt_account("a");
    let store = store_of(vec![account.clone()]);
    assert!(matches!(
        sync_current_account_auth(&store, Some(&account), account.clone()),
        AuthSync::InStep(_)
    ));
    let mut older = account.clone();
    if let codex_switch::accounts::AuthData::ChatGPT { access_token, .. } = &mut older.auth_data {
        *access_token = "older".to_string();
    }
    assert!(matches!(
        sync_current_account_auth(&store, Some(&older), account.clone()),
        AuthSync::Write(_)
    ));
    assert!(matches!(
        sync_current_account_auth(&store, None, account),
        AuthSync::NotCurrent
    ));
}

#[test]
fn snapshots_tell_accounts_and_credentials_apart() {
    let account = chatgpt_account("a");
    let store = store_of(vec![account.clone()]);
    let snapshot = current_account_snapshot(&store, Some(&account));
    assert!(same_snapshot(
        &snapshot,
        &current_account_snapshot_for_account(&account)
    ));
    let mut renewed = account.clone();
    renewed.token_last_refresh_at = Some(moment(1_700_000_001));
    assert_ne!(
        current_account_auth_marker(&renewed),
        current_account_auth_marker(&account)
    );
    let none = current_account_snapshot(&store, None);
    assert_eq!(none.current_account_id, None);
    let prepared = prepare_login_from_fresh_account(&account, &snapshot)
        .unwrap_or_else(|e| panic!("{e}"));
    assert_eq!(prepared.payload.chatgpt_account_id, "a");
}

#[test]
fn a_notice_for_the_client_outweighs_the_other() {
    let client = || {
        Some(RuntimeLoginSuccessNotification::Client(
            RuntimeClientNotification::Warning {
                message: "m".to_string(),
            },
        ))
    };
    let file = || {
        Some(RuntimeLoginSuccessNotification::AuthJsonSwitch {
            to_label: "a".to_string(),
        })
    };
    assert!(matches!(
        merge_runtime_login_success_notification(file(), client()),
        Some(RuntimeLoginSuccessNotification::Client(_))
    ));
    assert!(matches!(
        merge_runtime_login_success_notification(client(), file()),
        Some(RuntimeLoginSuccessNotification::Client(_))
    ));
    assert!(matches!(
        merge_runtime_login_success_notification(file(), None),
        Some(RuntimeLoginSuccessNotification::AuthJsonSwitch { .. })
    ));
}

#[test]
fn requests_carry_their_mode() {
    let request = BackgroundRuntimeRequest {
        priority: RuntimeAutoSwitchPriority::Soft,
        generation: 3,
        mode: AutoSwitchLoginMode::EnsureCurrentLogged {
            app_server_account_id: None,
            app_server_snapshot: None,
        },
    };
    let mut schedule = RuntimeAutoSwitchSchedule::new(0);
    assert_eq!(
        handle_runtime_auto_switch_request(&request, None, &mut schedule),
        RequestStep::Drop
    );
}

fn schedule() -> RuntimeAutoSwitchSchedule {
    RuntimeAutoSwitchSchedule::new(AUTO_SWITCH_SOFT_COOLDOWN)
}

fn store_of(accounts: Vec<StoredAccount>) -> AccountsStore {
    AccountsStore {
        version: 1,
        accounts,
        masked_account_ids: Vec::new(),
    }
}

fn current_snapshot(account_id: &str) -> CurrentAccountSnapshot {
    CurrentAccountSnapshot {
        current_account_id: Some(account_id.to_string()),
        auth_marker: Some(format!("chatgpt:{account_id}:1:pro")),
    }
}

fn prepared_login(
    account_id: &str,
    current_snapshot: Option<CurrentAccountSnapshot>,
) -> PreparedAccountLogin {
    PreparedAccountLogin {
        account_id: account_id.to_string(),
        account_label: format!("{account_id} ({account_id})"),
        payload: ExternalAuthPayload {
            access_token: "access-token".to_string(),
            chatgpt_account_id: account_id.to_string(),
            chatgpt_plan_type: Some("pro".to_string()),
        },
        current_snapshot,
    }
}

fn moment(seconds: i64) -> Timestamp {
    Timestamp {
        millis: seconds * 1000,
        nanos: 0,
    }
}

fn chatgpt_account(account_id: &str) -> StoredAccount {
    StoredAccount::new_chatgpt(
        account_id.to_string(),
        NewChatGptAccount {
            name: account_id.to_string(),
            email: None,
            plan_type: Some("pro".to_string()),
            chatgpt_user_id: None,
            chatgpt_account_is_fedramp: false,
            token_last_refresh_at: moment(1_700_000_000),
            subscription_expires_at: None,
            id_token: "id-token".to_string(),
            access_token: "access-token".to_string(),
            refresh_token: "refresh-token".to_string(),
            account_id: Some(account_id.to_string()),
        },
        moment(1_700_000_000),
    )
}
