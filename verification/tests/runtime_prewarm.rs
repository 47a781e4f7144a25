//! Renewing access tokens before they end.
use base64::Engine;
use codex_switch::accounts::{
    AccountsStore, AuthData, NewChatGptAccount, StoredAccount, Timestamp,
};
use codex_switch::auth_json::account_token_expires_at;
use codex_switch::runtime::login::{
    current_account_auth_marker, current_account_snapshot_for_account, loaded_auth_until,
    loaded_payload_until, prepare_login_from_fresh_account, runtime_chatgpt_account_matches,
    runtime_loaded_auth_from_account_and_payload, runtime_loaded_auth_from_prepared,
    CurrentAccountSnapshot, ExternalAuthPayload, RuntimeLoadedAuth, RuntimeLoginResult,
};
use codex_switch::runtime::prewarm::{
    current_account_has_newer_access_token, duration_until_utc, ends_later, loop_ends,
    prewarm_completed, prewarm_offered, prewarm_prepared, prewarm_snapshot_for_matching_auth,
    prewarm_source, prewarm_source_until, prewarm_started_line, prewarm_woken,
    runtime_loaded_auth_matches_for_suppression,
    token_prewarm_attempt_result_for_login_result, token_prewarm_decision,
    token_prewarm_is_suppressed, token_prewarm_login_command, LoopEvent, PrewarmLoop,
    PrewarmSource, PrewarmStep, PrewarmWait, RuntimeAuthState, TokenPrewarmAttemptResult,
    TokenPrewarmDecision, TOKEN_PREWARM_IDLE_AFTER,
};
use codex_switch::runtime::schedule::QueueRoom;
use codex_switch::runtime::shown::{Elapsed, Failure};

const SECOND: u128 = 1_000_000_000;

const NOW: u128 = 1_000_000 * SECOND;

const UTC_NOW: i64 = 1_700_000_000;

#[test]
fn token_prewarm_waits_without_runtime_auth_or_expiry() {
    let state = RuntimeAuthState::new(NOW);
    assert!(matches!(
        token_prewarm_decision(&state, NOW, moment(UTC_NOW), 300 * SECOND),
        TokenPrewarmDecision::WaitForRuntimeAuth
    ));

    let state = RuntimeAuthState {
        loaded: Some(runtime_loaded_auth("account-a")),
        last_activity_at: NOW,
    };
    assert!(matches!(
        token_prewarm_decision(&state, NOW, moment(UTC_NOW), 300 * SECOND),
        TokenPrewarmDecision::WaitForRuntimeAuth
    ));
}

#[test]
fn token_prewarm_waits_until_expiry_window() {
    let state = RuntimeAuthState {
        loaded: Some(runtime_loaded_auth_expires_in("account-a", 30 * 60)),
        last_activity_at: NOW,
    };

    match token_prewarm_decision(&state, NOW, moment(UTC_NOW), 5 * 60 * SECOND) {
        TokenPrewarmDecision::Wait(pause) => assert_eq!(pause, 25 * 60 * SECOND),
        other => panic!("unexpected decision: {other:?}"),
    }
}

#[test]
fn token_prewarm_refreshes_near_expiry_when_active() {
    let loaded = runtime_loaded_auth_expires_in("account-a", 4 * 60);
    let state = RuntimeAuthState {
        loaded: Some(loaded.clone()),
        last_activity_at: NOW - 60 * SECOND,
    };

    match token_prewarm_decision(&state, NOW, moment(UTC_NOW), 5 * 60 * SECOND) {
        TokenPrewarmDecision::Refresh(found) => {
            assert!(runtime_loaded_auth_matches_for_suppression(&found, &loaded));
            assert_eq!(found.account_label, loaded.account_label);
        }
        other => panic!("unexpected decision: {other:?}"),
    }
}

#[test]
fn token_prewarm_skips_idle_runtime() {
    let state = RuntimeAuthState {
        loaded: Some(runtime_loaded_auth_expires_in("account-a", 4 * 60)),
        last_activity_at: NOW - TOKEN_PREWARM_IDLE_AFTER - SECOND,
    };

    assert!(matches!(
        token_prewarm_decision(&state, NOW, moment(UTC_NOW), 5 * 60 * SECOND),
        TokenPrewarmDecision::SkipIdle
    ));
}

#[test]
fn token_prewarm_suppression_only_matches_same_loaded_auth() {
    let loaded = runtime_loaded_auth_expires_in("account-a", 4 * 60);
    let same_state = RuntimeAuthState {
        loaded: Some(loaded.clone()),
        last_activity_at: NOW,
    };
    let changed_state = RuntimeAuthState {
        loaded: Some(RuntimeLoadedAuth {
            access_token_expires_at: Some(moment(UTC_NOW + 30 * 60)),
            ..loaded.clone()
        }),
        last_activity_at: NOW,
    };

    assert!(token_prewarm_is_suppressed(
        &same_state,
        &Some(loaded.clone())
    ));
    assert!(!token_prewarm_is_suppressed(&changed_state, &Some(loaded)));
    assert!(!token_prewarm_is_suppressed(&same_state, &None));
}

#[test]
fn token_prewarm_suppression_ignores_display_label_changes() {
    let loaded = runtime_loaded_auth_expires_in("account-a", 4 * 60);
    let renamed_state = RuntimeAuthState {
        loaded: Some(RuntimeLoadedAuth {
            account_label: "renamed account".to_string(),
            ..loaded.clone()
        }),
        last_activity_at: NOW,
    };

    assert!(token_prewarm_is_suppressed(&renamed_state, &Some(loaded)));
}

#[test]
fn token_prewarm_terminal_result_suppresses_retries() {
    assert_eq!(
        token_prewarm_attempt_result_for_login_result(&RuntimeLoginResult::Terminal(
            "invalid_grant".to_string()
        )),
        TokenPrewarmAttemptResult::SuppressUntilRuntimeAuthChanges
    );
    assert_eq!(
        token_prewarm_attempt_result_for_login_result(&RuntimeLoginResult::Stale),
        TokenPrewarmAttemptResult::RetryLater
    );
    assert_eq!(
        token_prewarm_attempt_result_for_login_result(&RuntimeLoginResult::Transient(
            "temporary failure".to_string()
        )),
        TokenPrewarmAttemptResult::RetryLater
    );
    assert_eq!(
        token_prewarm_attempt_result_for_login_result(&RuntimeLoginResult::Success),
        TokenPrewarmAttemptResult::RetryLater
    );
}

#[test]
fn duration_until_utc_clamps_past_time_to_zero() {
    assert_eq!(duration_until_utc(moment(UTC_NOW), moment(UTC_NOW - 10)), 0);
}

#[test]
fn current_account_newer_access_token_ignores_snapshot_change_without_later_expiry() {
    let mut account = chatgpt_account("account-a");
    let loaded = RuntimeLoadedAuth {
        current_snapshot: Some(current_account_snapshot_for_account(&account)),
        ..runtime_loaded_auth("account-a")
    };
    account.token_last_refresh_at = Some(moment(UTC_NOW + 1));

    assert!(!current_account_has_newer_access_token(&account, &loaded));
}

#[test]
fn current_account_newer_access_token_detects_later_access_token_expiry() {
    let exp = UTC_NOW + 30 * 60;
    let mut account = chatgpt_account("account-a");
    set_account_access_token(&mut account, test_jwt_with_exp(exp));
    let loaded = RuntimeLoadedAuth {
        access_token_expires_at: Some(moment(exp - 10 * 60)),
        current_snapshot: Some(current_account_snapshot_for_account(&account)),
        ..runtime_loaded_auth("account-a")
    };

    assert!(current_account_has_newer_access_token(&account, &loaded));
}

#[test]
fn current_account_newer_access_token_rejects_same_snapshot_and_expiry() {
    let exp = UTC_NOW + 30 * 60;
    let mut account = chatgpt_account("account-a");
    set_account_access_token(&mut account, test_jwt_with_exp(exp));
    let loaded = RuntimeLoadedAuth {
        access_token_expires_at: Some(moment(exp)),
        current_snapshot: Some(current_account_snapshot_for_account(&account)),
        ..runtime_loaded_auth("account-a")
    };

    assert!(!current_account_has_newer_access_token(&account, &loaded));
}

#[test]
fn prewarm_snapshot_preserves_current_auth_marker_for_matching_credentials() {
    let mut account = chatgpt_account("account-a");
    account.plan_type = Some("new-plan".to_string());
    let mut current_auth_account = account.clone();
    current_auth_account.plan_type = Some("old-plan".to_string());

    let snapshot =
        prewarm_snapshot_for_matching_auth(&account, &current_auth_account, "account-a")
            .expect("the credentials match");
    assert_eq!(snapshot.current_account_id.as_deref(), Some("account-a"));
    assert_eq!(
        snapshot.auth_marker,
        Some(current_account_auth_marker(&current_auth_account))
    );
}

#[test]
fn prewarm_snapshot_rejects_other_current_account() {
    let account = chatgpt_account("account-a");
    let current_auth_account = account.clone();

    assert!(
        prewarm_snapshot_for_matching_auth(&account, &current_auth_account, "account-b").is_none()
    );
}

#[test]
fn prewarm_snapshot_rejects_credential_mismatch_for_same_account() {
    let account = chatgpt_account("account-a");
    let mut current_auth_account = account.clone();
    set_account_access_token(&mut current_auth_account, "older-access-token".to_string());

    assert!(
        prewarm_snapshot_for_matching_auth(&account, &current_auth_account, "account-a").is_none()
    );
}

#[test]
fn runtime_chatgpt_account_match_rejects_replaced_local_account() {
    let account = chatgpt_account("account-a");
    let loaded = RuntimeLoadedAuth {
        chatgpt_account_id: "account-b".to_string(),
        ..runtime_loaded_auth("account-a")
    };

    assert!(!runtime_chatgpt_account_matches(&account, &loaded));
}

#[test]
fn a_failed_attempt_rests_for_a_minute() {
    let loaded = runtime_loaded_auth_expires_in("account-a", 60);
    let state = RuntimeAuthState {
        loaded: Some(loaded.clone()),
        last_activity_at: NOW,
    };
    let mut prewarm = PrewarmLoop::new();
    assert!(matches!(
        prewarm.next_step(&state, NOW, moment(UTC_NOW), 300 * SECOND),
        PrewarmStep::Attempt(_)
    ));
    prewarm.attempt_finished(TokenPrewarmAttemptResult::RetryLater, loaded.clone(), NOW);
    assert!(matches!(
        prewarm.next_step(&state, NOW, moment(UTC_NOW), 300 * SECOND),
        PrewarmStep::Sleep(pause) if pause == 60 * SECOND
    ));
    let mut prewarm = PrewarmLoop::new();
    prewarm.attempt_finished(
        TokenPrewarmAttemptResult::SuppressUntilRuntimeAuthChanges,
        loaded,
        NOW,
    );
    assert!(matches!(
        prewarm.next_step(&state, NOW, moment(UTC_NOW), 300 * SECOND),
        PrewarmStep::WaitForChange { idle: false }
    ));
    assert!(loop_ends(LoopEvent::Shutdown(true)));
    assert!(loop_ends(LoopEvent::AuthChanged { open: false }));
    assert!(!loop_ends(LoopEvent::Slept));
}

#[test]
fn the_source_of_a_token_is_looked_at_first() {
    let account = chatgpt_account("account-a");
    let loaded = runtime_loaded_auth_expires_in("account-a", 60);
    assert!(matches!(prewarm_source(None, &loaded), PrewarmSource::Stale));
    assert!(matches!(
        prewarm_source(Some(account.clone()), &loaded),
        PrewarmSource::Refresh(_)
    ));
    let mut newer = account.clone();
    set_account_access_token(&mut newer, test_jwt_with_exp(UTC_NOW + 600));
    assert!(matches!(
        prewarm_source(Some(newer.clone()), &loaded),
        PrewarmSource::Sync(_)
    ));
    set_account_access_token(&mut newer, test_jwt_with_exp(UTC_NOW + 60));
    assert!(matches!(
        prewarm_source(Some(newer), &loaded),
        PrewarmSource::Refresh(_)
    ));
    assert!(matches!(
        prewarm_source_until(Some(account.clone()), Some(moment(UTC_NOW + 600)), &loaded),
        PrewarmSource::Sync(_)
    ));

    let store = AccountsStore {
        version: 1,
        accounts: vec![account.clone()],
        masked_account_ids: Vec::new(),
    };
    let command = token_prewarm_login_command(
        &account,
        &loaded,
        Some("account-a"),
        &store,
        Some(&account),
    )
    .unwrap_or_else(|e| panic!("{e}"))
    .expect("a login should follow");
    assert_eq!(command.prepared.account_id, "account-a");
    let other = token_prewarm_login_command(
        &account,
        &loaded,
        Some("account-b"),
        &store,
        Some(&account),
    )
    .unwrap_or_else(|e| panic!("{e}"));
    assert!(other.is_none());
}

#[test]
fn an_attempt_is_told_in_the_log() {
    let elapsed = Elapsed {
        millis: 5,
        seconds_shown: "0.0".to_string(),
    };
    let secrets = vec!["sk-secret".to_string()];
    assert!(prewarm_started_line("a (a)", &None).contains("a (a)"));
    match prewarm_prepared(
        Err(Failure {
            message: "failed".to_string(),
            detail: "failed with sk-secret".to_string(),
        }),
        "a (a)",
        &elapsed,
        &secrets,
    ) {
        Ok(_) => panic!("there is nothing to send"),
        Err(end) => {
            assert!(end.log.is_some_and(|line| !line.contains("sk-secret")));
        }
    }
    assert!(prewarm_offered(QueueRoom::Free, "a", &elapsed, &secrets).is_none());
    assert!(prewarm_offered(QueueRoom::Full, "a", &elapsed, &secrets).is_some());
    assert!(prewarm_woken(PrewarmWait::Tick).is_none());
    assert!(matches!(
        prewarm_woken(PrewarmWait::DeadlineReached),
        Some(Some(RuntimeLoginResult::Transient(_)))
    ));
    assert!(matches!(
        prewarm_woken(PrewarmWait::Shutdown(true)),
        Some(None)
    ));
    let end = prewarm_completed(
        Some(RuntimeLoginResult::Terminal("invalid_grant".to_string())),
        "a",
        &elapsed,
        &secrets,
    );
    assert_eq!(
        end.result,
        TokenPrewarmAttemptResult::SuppressUntilRuntimeAuthChanges
    );
}

#[test]
fn what_is_loaded_ends_with_its_token() {
    let exp = UTC_NOW + 30 * 60;
    let mut account = chatgpt_account("account-a");
    set_account_access_token(&mut account, test_jwt_with_exp(exp));
    assert_eq!(account_token_expires_at(&account), Some(moment(exp)));

    let snapshot = current_account_snapshot_for_account(&account);
    let prepared =
        prepare_login_from_fresh_account(&account, &snapshot).unwrap_or_else(|e| panic!("{e}"));
    let loaded = runtime_loaded_auth_from_prepared(&prepared, None);
    assert_eq!(loaded.access_token_expires_at, Some(moment(exp)));
    assert_eq!(loaded.account_id, "account-a");

    let loaded =
        runtime_loaded_auth_from_account_and_payload(&account, &prepared.payload, Some(true));
    assert_eq!(loaded.access_token_expires_at, Some(moment(exp)));
    assert!(loaded.current_snapshot.is_some());
    let loaded = runtime_loaded_auth_from_account_and_payload(
        &account,
        &ExternalAuthPayload {
            access_token: "no-token".to_string(),
            chatgpt_account_id: "account-a".to_string(),
            chatgpt_plan_type: None,
        },
        None,
    );
    assert_eq!(loaded.access_token_expires_at, None);
    assert!(loaded.current_snapshot.is_none());

    let other = Some(moment(UTC_NOW + 5));
    let loaded = loaded_auth_until(&prepared, Some(snapshot), other);
    assert_eq!(loaded.access_token_expires_at, other);
    assert!(loaded.current_snapshot.is_some());
    let loaded = loaded_payload_until(&account, &prepared.payload, other, Some(false));
    assert_eq!(loaded.access_token_expires_at, other);
    assert!(loaded.current_snapshot.is_none());
    assert!(!ends_later(&account, other, &loaded));
    assert!(ends_later(&account, Some(moment(UTC_NOW + 6)), &loaded));
    assert!(!ends_later(&account, None, &loaded));
}

fn runtime_loaded_auth(account_id: &str) -> RuntimeLoadedAuth {
    RuntimeLoadedAuth {
        account_id: account_id.to_string(),
        account_label: format!("{account_id} ({account_id})"),
        chatgpt_account_id: account_id.to_string(),
        access_token_expires_at: None,
        current_snapshot: None::<CurrentAccountSnapshot>,
    }
}

fn runtime_loaded_auth_expires_in(account_id: &str, seconds: i64) -> RuntimeLoadedAuth {
    RuntimeLoadedAuth {
        access_token_expires_at: Some(moment(UTC_NOW + seconds)),
        ..runtime_loaded_auth(account_id)
    }
}

fn set_account_access_token(account: &mut StoredAccount, token: String) {
    match &mut account.auth_data {
        AuthData::ChatGPT { access_token, .. } => *access_token = token,
        AuthData::ApiKey { .. } => panic!("test account should use ChatGPT auth"),
    }
}

fn test_jwt_with_exp(exp: i64) -> String {
    let header = base64::engine::general_purpose::URL_SAFE_NO_PAD.encode(r#"{"alg":"none"}"#);
    let payload =
        base64::engine::general_purpose::URL_SAFE_NO_PAD.encode(format!(r#"{{"exp":{exp}}}"#));
    format!("{header}.{payload}.")
}

fn moment(seconds: i64) -> Timestamp {
    Timestamp {
        millis: seconds * 1000,
        nanos: 0,
    }
}

fn chatgpt_account(account_id: &str) -> StoredAccount {
    StoredAccount::new_chatgpt(
        account_id.to_string(),
        NewChatGptAccount {
            name: account_id.to_string(),
            email: None,
            plan_type: Some("pro".to_string()),
            chatgpt_user_id: None,
            chatgpt_account_is_fedramp: false,
            token_last_refresh_at: moment(UTC_NOW),
            subscription_expires_at: None,
            id_token: "id-token".to_string(),
            access_token: "access-token".to_string(),
            refresh_token: "refresh-token".to_string(),
            account_id: Some(account_id.to_string()),
        },
        moment(UTC_NOW),
    )
}
