//! The proxy between Codex and its app-server, and the session around it.
use codex_switch::auto_switch::{AutoSwitchError, NoUsableReplacement};
use codex_switch::json::Json;
use codex_switch::runtime::login::{
    same_snapshots, CurrentAccountSnapshot, ExternalAuthPayload, PreparedAccountLogin,
    RuntimeClientNotification, RuntimeLoadedAuth, RuntimeLoginCommand, RuntimeLoginResult,
    RuntimeLoginSuccessNotification,
};
use codex_switch::runtime::messages::{message_json, Frame, RateLimitAutoSwitchTrigger};
use codex_switch::runtime::prewarm::RuntimeAuthState;
use codex_switch::runtime::proxy::{
    login_not_sent, route, trigger_for, Completions, InternalResponseOutcome, LoginStep,
    PendingInternalRequest, PendingLoginStatus, ProxyState, Route,
};
use codex_switch::runtime::reconcile::APP_SERVER_REQUEST_TIMEOUT;
use codex_switch::runtime::schedule::{
    queue_hard_auto_switch, AutoSwitchLoginMode, BackgroundAutoSwitchQueueStatus, QueueRoom,
    RuntimeAutoSwitchSchedule, AUTO_SWITCH_SOFT_COOLDOWN,
};
use codex_switch::runtime::shown::{Elapsed, Failure};
use codex_switch::runtime::startup::{
    is_authorized, plan_run, readiness_step, run_codex_step, ReadinessStep, RunAction, RunEvent,
    RunPhase,
};

const SECOND: u128 = 1_000_000_000;

const NOW: u128 = 1_000_000 * SECOND;

#[test]
fn proxy_reconciled_login_matches_snapshot_not_only_account_id() {
    let mut state = proxy_state();
    let older_snapshot = current_snapshot("account-a");
    let mut refreshed_snapshot = current_snapshot("account-a");
    refreshed_snapshot.auth_marker = Some("chatgpt:account-a:2:pro".to_string());
    state.app_server_account_id = Some("account-a".to_string());
    state.app_server_snapshot = Some(older_snapshot);

    assert!(!state.runtime_login_already_matches("account-a", &Some(refreshed_snapshot)));
    assert!(state.runtime_login_already_matches("account-a", &None));
}

#[test]
fn proxy_reconciled_login_requires_matching_account_and_snapshot() {
    let mut state = proxy_state();
    let snapshot = current_snapshot("account-a");
    state.app_server_account_id = Some("account-b".to_string());
    state.app_server_snapshot = Some(snapshot.clone());

    assert!(!state.runtime_login_already_matches("account-a", &Some(snapshot)));
}

#[test]
fn proxy_pending_login_status_matches_snapshot_not_only_account_id() {
    let mut state = proxy_state();
    let older_snapshot = current_snapshot("account-a");
    let mut refreshed_snapshot = current_snapshot("account-a");
    refreshed_snapshot.auth_marker = Some("chatgpt:account-a:2:pro".to_string());
    state.pending_internal.push((
        "request-id".to_string(),
        pending_login("account-a", Some(older_snapshot.clone()), None, None),
    ));

    assert_eq!(
        pending_login_status(&mut state, "account-a", Some(older_snapshot.clone())),
        PendingLoginStatus::Matching
    );
    assert_eq!(
        pending_login_status(&mut state, "account-a", Some(refreshed_snapshot)),
        PendingLoginStatus::Other
    );
    assert_eq!(
        pending_login_status(&mut state, "account-a", None),
        PendingLoginStatus::Other
    );
    assert_eq!(
        pending_login_status(&mut state, "account-b", Some(older_snapshot)),
        PendingLoginStatus::Other
    );
}

#[test]
fn proxy_internal_login_success_marks_runtime_account() {
    let mut state = proxy_state();
    state.pending_login_account_id = Some("account-a".to_string());
    state.pending_internal.push((
        "request-id".to_string(),
        pending_login("account-a", None, None, Some(1)),
    ));

    let outcome = answered(&mut state, "request-id");
    assert!(outcome.handled);

    assert!(matches!(
        only(&outcome.completions),
        (1, RuntimeLoginResult::Success)
    ));
    assert_eq!(state.app_server_account_id.as_deref(), Some("account-a"));
    assert!(state.app_server_snapshot.is_none());
    assert_eq!(state.pending_login_account_id, None);
}

#[test]
fn proxy_internal_login_success_returns_runtime_switch_warning() {
    let mut state = proxy_state();
    state.app_server_account_id = Some("account-b".to_string());
    state.pending_login_account_id = Some("account-a".to_string());
    state.pending_internal.push((
        "request-id".to_string(),
        pending_login_with_success_notification(
            "account-a",
            client("codex-switch switched account from a to b"),
        ),
    ));

    let outcome = answered(&mut state, "request-id");

    assert!(outcome.handled);
    assert_eq!(
        warned(&outcome.client_notification),
        Some("codex-switch switched account from a to b")
    );
    assert_eq!(state.app_server_account_id.as_deref(), Some("account-a"));
    assert_eq!(state.pending_login_account_id, None);
}

#[test]
fn proxy_internal_login_success_returns_client_warning_without_previous_account() {
    let mut state = proxy_state();
    state.pending_login_account_id = Some("account-a".to_string());
    state.pending_internal.push((
        "request-id".to_string(),
        pending_login_with_success_notification(
            "account-a",
            client("codex-switch switched account from a to b"),
        ),
    ));

    let outcome = answered(&mut state, "request-id");

    assert!(outcome.handled);
    assert_eq!(
        warned(&outcome.client_notification),
        Some("codex-switch switched account from a to b")
    );
    assert_eq!(state.app_server_account_id.as_deref(), Some("account-a"));
    assert_eq!(state.pending_login_account_id, None);
}

#[test]
fn proxy_internal_login_success_suppresses_auth_json_warning_when_account_did_not_change() {
    let mut state = proxy_state();
    state.app_server_account_id = Some("account-a".to_string());
    state.pending_login_account_id = Some("account-a".to_string());
    state.pending_internal.push((
        "request-id".to_string(),
        pending_login_with_success_notification("account-a", auth_json("account-a")),
    ));

    let outcome = answered(&mut state, "request-id");

    assert!(outcome.handled);
    assert!(outcome.client_notification.is_none());
    assert_eq!(state.app_server_account_id.as_deref(), Some("account-a"));
    assert_eq!(state.pending_login_account_id, None);
}

#[test]
fn proxy_internal_login_success_suppresses_auth_json_warning_without_previous_account() {
    let mut state = proxy_state();
    state.pending_login_account_id = Some("account-a".to_string());
    state.pending_internal.push((
        "request-id".to_string(),
        pending_login_with_success_notification("account-a", auth_json("account-a")),
    ));

    let outcome = answered(&mut state, "request-id");

    assert!(outcome.handled);
    assert!(outcome.client_notification.is_none());
    assert_eq!(state.app_server_account_id.as_deref(), Some("account-a"));
    assert_eq!(state.pending_login_account_id, None);
}

#[test]
fn proxy_matching_pending_login_upgrades_auth_json_warning_to_client_warning() {
    let mut state = proxy_state();
    state.app_server_account_id = Some("account-b".to_string());
    state.pending_login_account_id = Some("account-a".to_string());
    state.pending_internal.push((
        "request-id".to_string(),
        pending_login_with_success_notification("account-a", auth_json("account-a")),
    ));
    let message = "codex-switch switched account from account-b to account-a because weekly usage is 100.0%";

    assert_eq!(
        state.pending_login_status_and_merge_notification(
            "account-a",
            &None,
            Some(client(message))
        ),
        PendingLoginStatus::Matching
    );
    let outcome = answered(&mut state, "request-id");

    assert!(outcome.handled);
    assert_eq!(warned(&outcome.client_notification), Some(message));
    assert_eq!(state.app_server_account_id.as_deref(), Some("account-a"));
    assert_eq!(state.pending_login_account_id, None);
}

#[test]
fn proxy_set_runtime_loaded_auth_updates_account_label() {
    let mut state = proxy_state();
    state.app_server_account_id = Some("account-a".to_string());
    state.app_server_account_label = Some("account-a label".to_string());

    state.set_runtime_loaded_auth(runtime_loaded_auth("account-a"), NOW);
    assert_eq!(
        state.app_server_account_label.as_deref(),
        Some("account-a (account-a)")
    );

    state.set_runtime_loaded_auth(runtime_loaded_auth("account-b"), NOW);
    assert_eq!(
        state.app_server_account_label.as_deref(),
        Some("account-b (account-b)")
    );
}

#[test]
fn proxy_mark_runtime_login_already_matched_updates_account_label() {
    let mut state = proxy_state();
    let prepared = prepared_login("account-a", None);
    state.runtime_auth_state.loaded = Some(RuntimeLoadedAuth {
        account_label: "old label".to_string(),
        ..runtime_loaded_auth("account-a")
    });

    state.mark_runtime_login_already_matched(&prepared);

    assert_eq!(
        state.app_server_account_label.as_deref(),
        Some("account-a (account-a)")
    );
    assert_eq!(
        state
            .runtime_auth_state
            .loaded
            .as_ref()
            .map(|loaded| loaded.account_label.as_str()),
        Some("account-a (account-a)")
    );
}

#[test]
fn proxy_mark_runtime_login_already_matched_only_notifies_runtime_auth_on_label_change() {
    let mut state = proxy_state();
    let prepared = prepared_login("account-a", None);
    state.runtime_auth_state.loaded = Some(runtime_loaded_auth("account-a"));

    assert!(!state.mark_runtime_login_already_matched(&prepared));

    state.runtime_auth_state.loaded = Some(RuntimeLoadedAuth {
        account_label: "old label".to_string(),
        ..runtime_loaded_auth("account-a")
    });
    assert!(state.mark_runtime_login_already_matched(&prepared));
}

#[test]
fn proxy_already_matched_runtime_login_returns_client_warning() {
    let mut state = proxy_state();
    state.app_server_account_id = Some("account-a".to_string());
    state.app_server_account_label = Some("account-a (account-a)".to_string());
    let prepared = prepared_login("account-a", None);
    let message = "codex-switch switched account from account-b to account-a because weekly usage is 100.0%";

    let (_, notification, _) =
        state.complete_already_matched_runtime_login(&prepared, None, Some(client(message)));
    assert_eq!(warned(&notification), Some(message));
}

#[test]
fn proxy_already_matched_runtime_login_suppresses_auth_json_warning() {
    let mut state = proxy_state();
    state.app_server_account_id = Some("account-a".to_string());
    state.app_server_account_label = Some("account-a (account-a)".to_string());
    let prepared = prepared_login("account-a", None);

    let (_, notification, _) = state.complete_already_matched_runtime_login(
        &prepared,
        None,
        Some(auth_json("account-a")),
    );
    assert!(notification.is_none());
}

#[test]
fn proxy_internal_login_success_with_stale_generation_is_ignored() {
    let mut schedule = schedule();
    assert_eq!(
        queue_hard_auto_switch(
            &mut schedule,
            QueueRoom::Free,
            AutoSwitchLoginMode::SwitchedOnly
        )
        .0,
        BackgroundAutoSwitchQueueStatus::Queued
    );
    let stale_generation = schedule.generation;
    assert_eq!(
        queue_hard_auto_switch(
            &mut schedule,
            QueueRoom::Free,
            AutoSwitchLoginMode::SwitchedOnly
        )
        .0,
        BackgroundAutoSwitchQueueStatus::Queued
    );

    let mut state = proxy_state();
    state.pending_login_account_id = Some("account-a".to_string());
    state.pending_internal.push((
        "request-id".to_string(),
        pending_login("account-a", None, Some(stale_generation), Some(1)),
    ));

    let outcome = state.handle_internal_response(
        &json(r#"{"id": "request-id", "result": null}"#),
        NOW,
        &schedule,
        &Ok(current_snapshot("account-a")),
    );
    assert!(outcome.handled);
    assert!(outcome.client_notification.is_none());

    assert!(matches!(
        only(&outcome.completions),
        (1, RuntimeLoginResult::Stale)
    ));
    assert_eq!(state.app_server_account_id, None);
    assert!(state.app_server_snapshot.is_none());
    assert_eq!(state.pending_login_account_id, None);
}

#[test]
fn proxy_internal_login_rejection_does_not_mark_runtime_account() {
    let mut state = proxy_state();
    state.pending_login_account_id = Some("account-a".to_string());
    state.pending_internal.push((
        "request-id".to_string(),
        pending_login("account-a", None, None, Some(1)),
    ));

    let outcome = state.handle_internal_response(
        &json(r#"{"id": "request-id", "error": {"message": "invalid_grant"}}"#),
        NOW,
        &schedule(),
        &Ok(current_snapshot("account-a")),
    );
    assert!(outcome.handled);
    assert!(outcome.client_notification.is_none());

    assert!(matches!(
        only(&outcome.completions),
        (1, RuntimeLoginResult::Terminal(m)) if m == "invalid_grant"
    ));
    assert_eq!(state.app_server_account_id, None);
    assert_eq!(state.pending_login_account_id, None);
}

#[test]
fn proxy_expired_internal_login_clears_pending_and_swallows_late_response() {
    let mut state = proxy_state();
    let request_id = state.next_internal_request_id();
    state.pending_login_account_id = Some("account-a".to_string());
    state.pending_internal.push((
        request_id.clone(),
        pending_login_started(
            "account-a",
            NOW - APP_SERVER_REQUEST_TIMEOUT - SECOND,
            None,
            None,
            Some(1),
        ),
    ));

    let completions = state.clear_expired_pending_logins(NOW);

    assert!(matches!(
        only(&completions),
        (1, RuntimeLoginResult::Transient(_))
    ));
    assert_eq!(state.pending_login_account_id, None);
    assert!(state.pending_internal.is_empty());
    assert!(answered(&mut state, &request_id).handled);
    assert_eq!(state.app_server_account_id, None);
}

#[test]
fn proxy_cancels_connection_pending_login_and_swallows_late_response() {
    let mut state = proxy_state();
    let request_id = state.next_internal_request_id();
    state.pending_login_account_id = Some("account-a".to_string());
    state.pending_internal.push((
        request_id.clone(),
        pending_login("account-a", None, None, Some(1)),
    ));

    let completions = state.cancel_pending_logins(RuntimeLoginResult::Stale);

    assert!(matches!(
        only(&completions),
        (1, RuntimeLoginResult::Stale)
    ));
    assert_eq!(state.pending_login_account_id, None);
    assert!(state.pending_internal.is_empty());
    assert!(answered(&mut state, &request_id).handled);
    assert_eq!(state.app_server_account_id, None);
}

#[test]
fn a_login_is_sent_once() {
    let mut state = proxy_state();
    let schedule = schedule();
    let command = RuntimeLoginCommand::fire_and_forget(prepared_login("account-a", None))
        .with_completion(1);
    let (completions, command) = state.begin_login(command, NOW, &schedule);
    assert!(completions.is_empty());
    let command = command.expect("the login should go on");
    match state.check_login(command, Ok(true)) {
        LoginStep::Send {
            request_id,
            request,
            pending,
        } => {
            assert!(request_id.starts_with("prefix/"));
            assert!(request.render().contains("access-token"));
            state.login_sent(request_id, pending, NOW);
        }
        _ => panic!("the login should be sent"),
    }
    assert_eq!(
        state.pending_login_account_id.as_deref(),
        Some("account-a")
    );

    let other = RuntimeLoginCommand::fire_and_forget(prepared_login("account-b", None))
        .with_completion(2);
    let (completions, other) = state.begin_login(other, NOW, &schedule);
    assert!(completions.is_empty());
    match state.check_login(other.expect("the login should go on"), Ok(true)) {
        LoginStep::Done { completions, .. } => assert!(matches!(
            only(&completions),
            (2, RuntimeLoginResult::Deferred(m)) if m == "Another login request is already pending"
        )),
        _ => panic!("only one login can be under way"),
    }

    let completions = state.clear_connection_pending();
    assert!(matches!(
        only(&completions),
        (1, RuntimeLoginResult::Transient(_))
    ));
    assert!(matches!(
        only(&login_not_sent(Some(3), "closed")),
        (3, RuntimeLoginResult::Transient(_))
    ));
}

#[test]
fn a_login_for_another_account_is_stale() {
    let mut state = proxy_state();
    let snapshot = current_snapshot("account-a");
    let command = RuntimeLoginCommand::reconciled(
        prepared_login("account-a", Some(snapshot.clone())),
        snapshot,
        1,
        None,
    );
    match state.check_login(command, Ok(false)) {
        LoginStep::Done { completions, .. } => assert!(matches!(
            only(&completions),
            (1, RuntimeLoginResult::Stale)
        )),
        _ => panic!("nothing should be sent"),
    }
}

#[test]
fn messages_find_their_way() {
    let request = json(r#"{"id":1,"method":"account/chatgptAuthTokens/refresh"}"#);
    assert_eq!(route(&request, false), Route::Refresh);
    assert_eq!(route(&request, true), Route::Swallow);
    let limit = json(
        r#"{"method":"error","params":{"error":{"message":"m","codexErrorInfo":"usageLimitExceeded"}}}"#,
    );
    assert_eq!(route(&limit, false), Route::ForwardHard);
    assert_eq!(
        trigger_for(Route::ForwardHard, RateLimitAutoSwitchTrigger::Nothing),
        RateLimitAutoSwitchTrigger::Hard
    );
    assert_eq!(
        trigger_for(Route::Forward, RateLimitAutoSwitchTrigger::Soft),
        RateLimitAutoSwitchTrigger::Soft
    );
}

#[test]
fn activity_is_told_now_and_then() {
    let mut state = proxy_state();
    assert!(!state.mark_activity(NOW + SECOND));
    assert!(state.mark_activity(NOW + 31 * SECOND));
    assert!(matches!(
        state.hard_login_mode(),
        AutoSwitchLoginMode::EnsureCurrentLogged {
            app_server_account_id: None,
            ..
        }
    ));
}

#[test]
fn the_proxy_lets_in_who_has_the_token() {
    assert!(is_authorized(Some("Bearer secret"), "secret"));
    assert!(!is_authorized(Some("Bearer other"), "secret"));
    assert!(!is_authorized(Some("secret"), "secret"));
    assert!(!is_authorized(None, "secret"));
}

#[test]
fn a_session_starts_step_by_step() {
    let plan = plan_run(&vec!["resume".to_string()], "/repo").unwrap_or_else(|e| panic!("{e}"));
    assert_eq!(plan.codex_args, vec!["resume", "-C", "/repo"]);
    assert_eq!(plan.summary, "resume (1 args)");
    assert!(plan_run(&vec!["exec".to_string()], "/repo").is_err());

    let (phase, _) = run_codex_step(
        RunPhase::InitialSwitch,
        RunEvent::SwitchFailed {
            error: AutoSwitchError::NoUsableReplacement(NoUsableReplacement::new(
                "rate limit reached".to_string(),
            )),
            detail: "rate limit reached".to_string(),
        },
        &elapsed(),
    );
    assert_eq!(phase, RunPhase::Endpoint);

    let (phase, actions) = run_codex_step(
        RunPhase::InitialSwitch,
        RunEvent::SwitchFailed {
            error: AutoSwitchError::Other("network failed".to_string()),
            detail: "network failed".to_string(),
        },
        &elapsed(),
    );
    assert_eq!(phase, RunPhase::Over);
    assert!(actions
        .iter()
        .any(|action| matches!(action, RunAction::Fail(_))));
}

#[test]
fn a_session_that_fails_leaves_nothing_behind() {
    let (phase, actions) = run_codex_step(
        RunPhase::CodexStart,
        RunEvent::CodexNotSpawned(Failure {
            message: "no such file".to_string(),
            detail: "no such file".to_string(),
        }),
        &elapsed(),
    );
    assert_eq!(phase, RunPhase::Over);
    for wanted in [
        |action: &RunAction| matches!(action, RunAction::ShutdownAppServer),
        |action: &RunAction| matches!(action, RunAction::RemoveToken),
        |action: &RunAction| matches!(action, RunAction::StopTasks),
        |action: &RunAction| matches!(action, RunAction::Fail(_)),
    ] {
        assert!(actions.iter().any(wanted));
    }
}

#[test]
fn the_app_server_has_some_time_to_come_up() {
    assert!(matches!(
        readiness_step(NOW + SECOND, NOW, None, None),
        ReadinessStep::Probe
    ));
    assert!(matches!(
        readiness_step(NOW, NOW, Some("refused"), None),
        ReadinessStep::GiveUp(_)
    ));
    assert!(matches!(
        readiness_step(NOW + SECOND, NOW, None, Some("exit status: 1")),
        ReadinessStep::GiveUp(_)
    ));
}

fn elapsed() -> Elapsed {
    Elapsed {
        millis: 5,
        seconds_shown: "0.0".to_string(),
    }
}

fn json(text: &str) -> Json {
    match message_json(&Frame::Text(text)) {
        Ok(Some(value)) => value,
        _ => panic!("test JSON should parse"),
    }
}

fn answered(state: &mut ProxyState, request_id: &str) -> InternalResponseOutcome {
    state.handle_internal_response(
        &json(&format!(r#"{{"id": "{request_id}", "result": null}}"#)),
        NOW,
        &schedule(),
        &Ok(current_snapshot("account-a")),
    )
}

fn only(completions: &Completions) -> &(u64, RuntimeLoginResult) {
    assert_eq!(completions.len(), 1);
    &completions[0]
}

fn warned(notification: &Option<RuntimeClientNotification>) -> Option<&str> {
    notification.as_ref().map(|notification| match notification {
        RuntimeClientNotification::Warning { message } => message.as_str(),
    })
}

fn client(message: &str) -> RuntimeLoginSuccessNotification {
    RuntimeLoginSuccessNotification::Client(RuntimeClientNotification::Warning {
        message: message.to_string(),
    })
}

fn auth_json(account_id: &str) -> RuntimeLoginSuccessNotification {
    RuntimeLoginSuccessNotification::AuthJsonSwitch {
        to_label: format!("{account_id} ({account_id})"),
    }
}

fn pending_login_status(
    state: &mut ProxyState,
    account_id: &str,
    expected_snapshot: Option<CurrentAccountSnapshot>,
) -> PendingLoginStatus {
    let before = state.pending_internal.len();
    let status =
        state.pending_login_status_and_merge_notification(account_id, &expected_snapshot, None);
    assert_eq!(state.pending_internal.len(), before);
    status
}

fn schedule() -> RuntimeAutoSwitchSchedule {
    RuntimeAutoSwitchSchedule::new(AUTO_SWITCH_SOFT_COOLDOWN)
}

fn proxy_state() -> ProxyState {
    let state = ProxyState::new("prefix/".to_string(), RuntimeAuthState::new(NOW));
    assert!(same_snapshots(&state.app_server_snapshot, &None));
    state
}

fn current_snapshot(account_id: &str) -> CurrentAccountSnapshot {
    CurrentAccountSnapshot {
        current_account_id: Some(account_id.to_string()),
        auth_marker: Some(format!("chatgpt:{account_id}:1:pro")),
    }
}

fn prepared_login(
    account_id: &str,
    current_snapshot: Option<CurrentAccountSnapshot>,
) -> PreparedAccountLogin {
    PreparedAccountLogin {
        account_id: account_id.to_string(),
        account_label: format!("{account_id} ({account_id})"),
        payload: ExternalAuthPayload {
            access_token: "access-token".to_string(),
            chatgpt_account_id: account_id.to_string(),
            chatgpt_plan_type: Some("pro".to_string()),
        },
        current_snapshot,
    }
}

fn runtime_loaded_auth(account_id: &str) -> RuntimeLoadedAuth {
    RuntimeLoadedAuth {
        account_id: account_id.to_string(),
        account_label: format!("{account_id} ({account_id})"),
        chatgpt_account_id: account_id.to_string(),
        access_token_expires_at: None,
        current_snapshot: None,
    }
}

fn pending_login(
    account_id: &str,
    expected_snapshot: Option<CurrentAccountSnapshot>,
    generation: Option<u64>,
    completion: Option<u64>,
) -> PendingInternalRequest {
    pending_login_started(account_id, NOW, expected_snapshot, generation, completion)
}

fn pending_login_with_success_notification(
    account_id: &str,
    success_notification: RuntimeLoginSuccessNotification,
) -> PendingInternalRequest {
    PendingInternalRequest {
        success_notification: Some(success_notification),
        ..pending_login(account_id, None, None, None)
    }
}

fn pending_login_started(
    account_id: &str,
    started_at: u128,
    expected_snapshot: Option<CurrentAccountSnapshot>,
    generation: Option<u64>,
    completion: Option<u64>,
) -> PendingInternalRequest {
    PendingInternalRequest {
        account_id: account_id.to_string(),
        started_at,
        expected_snapshot,
        generation,
        loaded_auth: runtime_loaded_auth(account_id),
        completion,
        success_notification: None,
    }
}

#[test]
fn an_answer_leaves_the_login_of_another_account() {
    let mut state = proxy_state();
    state.pending_internal.push((
        "prefix/1".to_string(),
        pending_login("account-a", None, None, None),
    ));
    state.pending_login_account_id = Some("account-b".to_string());
    let outcome = answered(&mut state, "prefix/1");
    assert!(outcome.handled);
    assert_eq!(
        state.pending_login_account_id.as_deref(),
        Some("account-b")
    );
}

#[test]
fn request_numbers_start_again() {
    let mut state = proxy_state();
    state.next_request_id = u64::MAX;
    let prefix = state.request_prefix.clone();
    assert_eq!(
        state.next_internal_request_id(),
        format!("{prefix}/{}", u64::MAX)
    );
    assert_eq!(state.next_internal_request_id(), format!("{prefix}/0"));
}
