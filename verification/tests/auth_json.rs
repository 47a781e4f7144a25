//! Reading and writing the credentials file of Codex.
use base64::Engine;
use codex_switch::accounts::{
    AccountsStore, AuthData, AuthMode, NewChatGptAccount, StoredAccount, Timestamp,
};
use codex_switch::auth_json::{
    account_auth_json_content, codex_auth_file, codex_home, current_auth_account,
    current_stored_account_id, current_stored_account_id_best_effort, export_account_auth,
    import_from_auth_json, import_from_auth_json_contents, parse_chatgpt_id_token_claims,
    read_auth, try_parse_chatgpt_id_token_claims, write_account_auth,
};
use codex_switch::runtime::shown::Failure;
use serde_json::Value;

#[test]
fn oauth_export_uses_codex_auth_json_shape() {
    let account = chatgpt_account();
    let expected_id_token = test_id_token();
    let content = exported(&account);

    assert!(content.ends_with('\n'));
    let value: Value =
        serde_json::from_str(&content).expect("exported auth.json should be valid JSON");
    let tokens = value
        .get("tokens")
        .expect("OAuth export should include tokens");

    assert!(value.get("OPENAI_API_KEY").is_some_and(Value::is_null));
    assert_eq!(value["auth_mode"], Value::from("chatgpt"));
    assert_eq!(value["last_refresh"], Value::from("2026-05-13T12:00:00Z"));
    assert!(value.get("agent_identity").is_none());
    assert_eq!(tokens["id_token"], Value::from(expected_id_token));
    assert_eq!(tokens["access_token"], Value::from("access-token"));
    assert_eq!(tokens["refresh_token"], Value::from("refresh-token"));
    assert_eq!(tokens["account_id"], Value::from("account-id"));

    let again = imported(&content);
    assert_eq!(again.token_last_refresh_at, account.token_last_refresh_at);
}

#[test]
fn oauth_export_rejects_invalid_stored_id_token() {
    let mut account = chatgpt_account();
    account.auth_data = AuthData::ChatGPT {
        id_token: "not-a-jwt".to_string(),
        access_token: "access-token".to_string(),
        refresh_token: "refresh-token".to_string(),
        account_id: Some("account-id".to_string()),
    };

    match account_auth_json_content(&account) {
        Ok(_) => panic!("invalid stored id_token should not export"),
        Err(e) => assert!(
            whole(&e).contains("Stored ChatGPT account contains an invalid id_token"),
            "{}",
            whole(&e)
        ),
    }
}

#[test]
fn api_key_export_uses_codex_auth_json_shape() {
    let account = api_key_account();
    let content = exported(&account);

    assert!(content.ends_with('\n'));
    let value: Value =
        serde_json::from_str(&content).expect("exported auth.json should be valid JSON");

    assert_eq!(value["auth_mode"], Value::from("apikey"));
    assert_eq!(
        value.get("OPENAI_API_KEY").and_then(|value| value.as_str()),
        Some("sk-test")
    );
    assert!(value.get("tokens").is_none());
    assert!(value.get("last_refresh").is_none());
    assert!(value.get("agent_identity").is_none());
}

#[test]
fn auth_json_deserializes_missing_or_null_api_key_as_none() {
    for content in [
        chatgpt_auth_json(Some("chatgpt"), None, None),
        chatgpt_auth_json(Some("chatgpt"), Some(Value::Null), None),
    ] {
        let auth = read_auth(&content).expect("auth.json should deserialize");

        assert_eq!(auth.openai_api_key, None);
        assert!(auth.tokens.is_some());
    }
}

#[test]
fn import_accepts_api_key_auth_json() {
    let account = import(
        r#"{
                "auth_mode": "apikey",
                "OPENAI_API_KEY": "sk-test"
            }"#,
        "api",
    );
    let account = account.unwrap_or_else(|e| panic!("{}", whole(&e)));

    assert_eq!(account.name, "api");
    assert_eq!(account.auth_mode, AuthMode::ApiKey);
    assert_eq!(key_of(&account), "sk-test");
}

#[test]
fn import_accepts_regular_chatgpt_auth_json() {
    let expected_id_token = test_id_token();
    let content = chatgpt_auth_json(
        Some("chatgpt"),
        Some(Value::Null),
        Some("2026-05-13T12:00:00Z"),
    );
    let account = import(&content, "chatgpt").unwrap_or_else(|e| panic!("{}", whole(&e)));

    assert_eq!(account.name, "chatgpt");
    assert_eq!(account.auth_mode, AuthMode::ChatGPT);
    assert_eq!(account.token_last_refresh_at, Some(refreshed()));
    assert_eq!(account.email.as_deref(), Some("user@example.com"));
    assert_eq!(account.plan_type.as_deref(), Some("pro"));
    assert_eq!(account.chatgpt_user_id.as_deref(), Some("user-id"));
    let (id_token, access_token, refresh_token, account_id) = tokens_of(&account);
    assert_eq!(id_token, expected_id_token);
    assert_eq!(access_token, "access-token");
    assert_eq!(refresh_token, "refresh-token");
    assert_eq!(account_id.as_deref(), Some("account-id"));
}

#[test]
fn import_preserves_token_data_account_id_over_id_token_claim() {
    let mut content: Value = serde_json::from_str(&chatgpt_auth_json(Some("chatgpt"), None, None))
        .expect("test auth.json should parse");
    content["tokens"]["account_id"] = Value::from("token-data-account-id");

    let account = imported(&content.to_string());

    assert_eq!(
        tokens_of(&account).3.as_deref(),
        Some("token-data-account-id")
    );
}

#[test]
fn import_defaults_missing_auth_mode_with_api_key_to_api_key() {
    let account = imported(
        r#"{
                "OPENAI_API_KEY": "sk-test"
            }"#,
    );

    assert_eq!(account.auth_mode, AuthMode::ApiKey);
    assert_eq!(key_of(&account), "sk-test");
}

#[test]
fn import_defaults_missing_auth_mode_without_api_key_to_chatgpt() {
    let account = imported(&chatgpt_auth_json(None, None, None));

    assert_eq!(account.auth_mode, AuthMode::ChatGPT);
    assert_eq!(tokens_of(&account).3.as_deref(), Some("account-id"));
}

#[test]
fn import_respects_explicit_chatgpt_auth_mode_over_api_key() {
    let account = imported(&chatgpt_auth_json(
        Some("chatgpt"),
        Some(Value::from("sk-test")),
        None,
    ));

    assert_eq!(account.auth_mode, AuthMode::ChatGPT);
    assert_eq!(tokens_of(&account).2, "refresh-token");
}

#[test]
fn import_rejects_invalid_chatgpt_id_token() {
    let failure = refused(
        r#"{
                "auth_mode": "chatgpt",
                "OPENAI_API_KEY": null,
                "tokens": {
                    "id_token": "not-a-jwt",
                    "access_token": "access-token",
                    "refresh_token": "refresh-token",
                    "account_id": "account-id"
                }
            }"#,
    );

    assert!(
        whole(&failure).contains("invalid ID token"),
        "{}",
        whole(&failure)
    );
}

#[test]
fn import_respects_explicit_api_key_auth_mode_over_tokens() {
    let failure = refused(&chatgpt_auth_json(Some("apikey"), None, None));

    assert!(
        failure.message.contains("missing OPENAI_API_KEY"),
        "{}",
        failure.message
    );
}

#[test]
fn import_rejects_agent_identity_auth_json() {
    let failure = refused(
        r#"{
                "auth_mode": "agentIdentity",
                "OPENAI_API_KEY": null,
                "agent_identity": "agent-identity-jwt"
            }"#,
    );

    assert!(
        failure.message.contains("agent identity auth.json files"),
        "{}",
        failure.message
    );
}

#[test]
fn import_rejects_external_chatgpt_auth_tokens_auth_json() {
    let failure = refused(&chatgpt_auth_json(
        Some("chatgptAuthTokens"),
        Some(Value::Null),
        None,
    ));

    assert!(
        failure
            .message
            .contains("externally managed ChatGPT auth token"),
        "{}",
        failure.message
    );
}

#[test]
fn import_rejects_what_is_no_auth_json() {
    for content in [
        "no json",
        "5",
        r#"{"auth_mode": "unheard of"}"#,
        r#"{"OPENAI_API_KEY": 5}"#,
        r#"{"tokens": {"id_token": "a"}}"#,
        r#"{"OPENAI_API_KEY": "k", "last_refresh": "yesterday"}"#,
    ] {
        assert_eq!(
            refused(content).message,
            "Failed to parse auth.json contents"
        );
    }
    assert_eq!(
        refused("{}").message,
        "ChatGPT auth.json is missing tokens"
    );
}

#[test]
fn exports_read_back() {
    let account = chatgpt_account();
    let again = imported(&exported(&account));
    assert_eq!(tokens_of(&again), tokens_of(&account));
    assert_eq!(again.token_last_refresh_at, account.token_last_refresh_at);

    let account = api_key_account();
    assert_eq!(key_of(&imported(&exported(&account))), "sk-test");
}

#[test]
fn export_replaces_only_where_it_is_told_to() {
    let account = api_key_account();
    let kept = export_account_auth(&account, "/tmp/auth.json", false)
        .unwrap_or_else(|e| panic!("{}", whole(&e)));
    assert!(!kept.replace);
    assert_eq!(kept.path, "/tmp/auth.json");
    assert_eq!(kept.content, exported(&account));
    let forced = export_account_auth(&account, "/tmp/auth.json", true)
        .unwrap_or_else(|e| panic!("{}", whole(&e)));
    assert!(forced.replace);
}

#[test]
fn credentials_go_to_the_home_of_codex() {
    assert_eq!(
        codex_home(Some("/opt/codex"), Some("/home/me")),
        Ok("/opt/codex".to_string())
    );
    assert_eq!(
        codex_auth_file(None, Some("/home/me")),
        Ok("/home/me/.codex/auth.json".to_string())
    );
    assert_eq!(
        codex_home(None, None),
        Err("Could not find home directory".to_string())
    );
    let write = write_account_auth(&api_key_account(), None, Some("/home/me"))
        .unwrap_or_else(|e| panic!("{}", whole(&e)));
    assert_eq!(write.path, "/home/me/.codex/auth.json");
    assert!(write.replace);
}

#[test]
fn claims_are_read_leniently_or_not_at_all() {
    let claims = parse_chatgpt_id_token_claims(&test_id_token());
    assert_eq!(claims.email.as_deref(), Some("user@example.com"));
    assert_eq!(claims.account_id.as_deref(), Some("account-id"));
    assert!(!claims.account_is_fedramp);

    assert!(parse_chatgpt_id_token_claims("not-a-jwt").email.is_none());
    assert!(try_parse_chatgpt_id_token_claims("not-a-jwt").is_err());
    assert!(try_parse_chatgpt_id_token_claims("a.!!!.c").is_err());
}

#[test]
fn the_current_account_is_found_by_its_credentials() {
    let account = chatgpt_account();
    let content = exported(&account);
    let current = current_auth_account(
        "/auth.json",
        Some(&content),
        "other-id".to_string(),
        refreshed(),
    )
    .map_err(|e| whole(&e));
    let store = AccountsStore {
        version: 1,
        accounts: vec![account],
        masked_account_ids: Vec::new(),
    };
    assert_eq!(
        current_stored_account_id(&store, &current),
        Ok(Some("account-1".to_string()))
    );

    let missing = current_auth_account("/auth.json", None, "id".to_string(), refreshed())
        .map_err(|e| whole(&e));
    assert_eq!(current_stored_account_id(&store, &missing), Ok(None));

    let broken = Err("unreadable".to_string());
    assert_eq!(
        current_stored_account_id(&store, &broken),
        Err("unreadable".to_string())
    );
    assert_eq!(current_stored_account_id_best_effort(&store, &broken), None);
}

#[test]
fn a_refused_file_is_named() {
    match import_from_auth_json(
        "/auth.json",
        "{}",
        "name".to_string(),
        "id".to_string(),
        refreshed(),
    ) {
        Ok(_) => panic!("there is nothing to import"),
        Err(e) => assert!(whole(&e).contains("/auth.json"), "{}", whole(&e)),
    }
}

fn whole(failure: &Failure) -> String {
    format!("{}: {}", failure.message, failure.detail)
}

fn import(content: &str, name: &str) -> Result<StoredAccount, Failure> {
    import_from_auth_json_contents(
        content,
        name.to_string(),
        "imported-id".to_string(),
        refreshed(),
    )
}

fn imported(content: &str) -> StoredAccount {
    import(content, "chatgpt").unwrap_or_else(|e| panic!("{}", whole(&e)))
}

fn refused(content: &str) -> Failure {
    match import(content, "refused") {
        Ok(_) => panic!("this should be refused: {content}"),
        Err(e) => e,
    }
}

fn exported(account: &StoredAccount) -> String {
    account_auth_json_content(account).unwrap_or_else(|e| panic!("{}", whole(&e)))
}

fn key_of(account: &StoredAccount) -> &str {
    match &account.auth_data {
        AuthData::ApiKey { key } => key,
        AuthData::ChatGPT { .. } => panic!("expected API key auth data"),
    }
}

fn tokens_of(account: &StoredAccount) -> (String, String, String, Option<String>) {
    match &account.auth_data {
        AuthData::ChatGPT {
            id_token,
            access_token,
            refresh_token,
            account_id,
        } => (
            id_token.clone(),
            access_token.clone(),
            refresh_token.clone(),
            account_id.clone(),
        ),
        AuthData::ApiKey { .. } => panic!("expected ChatGPT auth data"),
    }
}

/// 2026-05-13T12:00:00Z
fn refreshed() -> Timestamp {
    Timestamp {
        millis: 1_778_673_600_000,
        nanos: 0,
    }
}

fn api_key_account() -> StoredAccount {
    StoredAccount::new_api_key(
        "account-2".to_string(),
        "api".to_string(),
        "sk-test".to_string(),
        refreshed(),
    )
}

fn chatgpt_account() -> StoredAccount {
    StoredAccount::new_chatgpt(
        "account-1".to_string(),
        NewChatGptAccount {
            name: "oauth".to_string(),
            email: Some("user@example.com".to_string()),
            plan_type: Some("plus".to_string()),
            chatgpt_user_id: Some("user-id".to_string()),
            chatgpt_account_is_fedramp: false,
            token_last_refresh_at: refreshed(),
            subscription_expires_at: None,
            id_token: test_id_token(),
            access_token: "access-token".to_string(),
            refresh_token: "refresh-token".to_string(),
            account_id: Some("account-id".to_string()),
        },
        refreshed(),
    )
}

fn chatgpt_auth_json(
    auth_mode: Option<&str>,
    openai_api_key: Option<Value>,
    last_refresh: Option<&str>,
) -> String {
    let mut tokens = serde_json::Map::new();
    tokens.insert("id_token".to_string(), Value::from(test_id_token()));
    tokens.insert("access_token".to_string(), Value::from("access-token"));
    tokens.insert("refresh_token".to_string(), Value::from("refresh-token"));
    tokens.insert("account_id".to_string(), Value::from("account-id"));
    let mut value = serde_json::Map::new();
    value.insert("tokens".to_string(), Value::Object(tokens));
    if let Some(auth_mode) = auth_mode {
        value.insert("auth_mode".to_string(), Value::from(auth_mode));
    }
    if let Some(openai_api_key) = openai_api_key {
        value.insert("OPENAI_API_KEY".to_string(), openai_api_key);
    }
    if let Some(last_refresh) = last_refresh {
        value.insert("last_refresh".to_string(), Value::from(last_refresh));
    }
    Value::Object(value).to_string()
}

fn test_id_token() -> String {
    let encode = |bytes: &[u8]| base64::engine::general_purpose::URL_SAFE_NO_PAD.encode(bytes);
    let payload = r#"{"email":"user@example.com","https://api.openai.com/auth":{"chatgpt_account_id":"account-id","chatgpt_plan_type":"pro","chatgpt_user_id":"user-id","chatgpt_account_is_fedramp":false}}"#;

    format!(
        "{}.{}.{}",
        encode(br#"{"alg":"none","typ":"JWT"}"#),
        encode(payload.as_bytes()),
        encode(b"sig")
    )
}

#[test]
fn no_key_of_an_auth_json_may_stand_twice() {
    for content in [
        r#"{"OPENAI_API_KEY": "a", "OPENAI_API_KEY": "b"}"#,
        r#"{"OPENAI_API_KEY": "a", "\u004fPENAI_API_KEY": "a"}"#,
        r#"{"auth_mode": "apikey", "OPENAI_API_KEY": "a", "auth_mode": "apikey"}"#,
        r#"{"OPENAI_API_KEY": "a", "tokens": null, "tokens": null}"#,
        r#"{"OPENAI_API_KEY": "a", "agent_identity": "x", "agent_identity": "y"}"#,
        r#"{"OPENAI_API_KEY": "a", "tokens": {"id_token": "i", "access_token": "a", "refresh_token": "r", "id_token": "j"}}"#,
    ] {
        assert!(read_auth(content).is_none(), "{content}");
        assert_eq!(
            refused(content).message,
            "Failed to parse auth.json contents"
        );
    }
}

#[test]
fn other_keys_of_an_auth_json_do_not_matter() {
    let content = r#" { "other" : [1, {"OPENAI_API_KEY": "deeper"}], "other": "}{\"", "big": 1e999,
        "OPENAI_API_KEY" : "a, b: {c}" } "#;
    assert_eq!(
        read_auth(content).and_then(|auth| auth.openai_api_key),
        Some("a, b: {c}".to_string())
    );
}

#[test]
fn a_login_returns_whenever_it_was_refreshed() {
    let mut account = chatgpt_account();
    for (millis, nanos) in [
        (-62_167_219_200_001, 0),
        (253_402_300_800_000, 1),
        (-8_334_601_228_800_000, 0),
        (8_210_266_876_799_999, 999_999),
        // The leap second at the end of the year 2016.
        (1_483_228_799_999, 1_500_000),
    ] {
        let refreshed = Some(Timestamp { millis, nanos });
        account.token_last_refresh_at = refreshed;
        let again = imported(&exported(&account));
        assert_eq!(again.token_last_refresh_at, refreshed);
        assert_eq!(tokens_of(&again), tokens_of(&account));
    }
}

#[test]
fn a_leap_second_stays_one() {
    let account = imported(&chatgpt_auth_json(
        Some("chatgpt"),
        None,
        Some("2016-12-31T23:59:60.25Z"),
    ));
    let refreshed = account.token_last_refresh_at.expect("the time was given");
    assert_eq!(refreshed.millis, 1_483_228_799_999);
    assert_eq!(refreshed.nanos, 251_000_000);
    assert!(exported(&account).contains(r#""last_refresh": "2016-12-31T23:59:60.250Z""#));
}
