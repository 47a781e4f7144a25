//! Logging in with a browser or with another device.
use codex_switch::accounts::{AuthData, Timestamp};
use codex_switch::codex_http::originator_value;
use codex_switch::json::Json;
use codex_switch::oauth::tokens::{
    deserialize_interval, device_code_prompt, device_code_reply, exchange_body, exchange_reply,
    normalize_poll_interval, poll_step, stored_account_from_tokens, token_poll_request,
    user_code_request, DeviceCode, PollStep, Reply, TokenResponse,
};
use codex_switch::oauth::{
    bind_step, browser_redirect_uri, browser_wait, build_authorize_url, device_redirect_uri,
    error_page, escape_html, generate_pkce, generate_state, handle_browser_callback,
    pkce_from_bytes, read_step, success_page, BindOutcome, BindStep, CallbackStep, PkceCodes,
    ReadStep, CLIENT_ID,
};
use codex_switch::query::{parse_query, write_query};

#[test]
fn normalize_poll_interval_uses_default_for_zero() {
    assert_eq!(normalize_poll_interval(0), 5);
}

#[test]
fn normalize_poll_interval_preserves_server_value() {
    assert_eq!(normalize_poll_interval(2), 2);
}

#[test]
fn authorize_url_uses_codex_oauth_parameters() {
    let pkce = PkceCodes {
        code_verifier: "verifier".to_string(),
        code_challenge: "challenge".to_string(),
    };
    let url = build_authorize_url(
        "https://auth.openai.com",
        "http://localhost:1455/auth/callback",
        &pkce,
        "state",
        &originator_value(None),
    );
    let query = url.split_once('?').expect("query").1;
    let params = parse_query(query);

    assert_eq!(params.get("response_type"), Some("code"));
    assert_eq!(params.get("client_id"), Some(CLIENT_ID));
    assert_eq!(
        params.get("redirect_uri"),
        Some("http://localhost:1455/auth/callback")
    );
    assert_eq!(params.get("code_challenge_method"), Some("S256"));
    assert_eq!(
        params.get("originator"),
        Some(originator_value(None).as_str())
    );
    assert_eq!(params.get("state"), Some("state"));
}

#[test]
fn the_verifier_and_the_challenge_go_together() {
    let bytes = vec![
        116, 24, 223, 180, 151, 153, 224, 37, 79, 250, 96, 125, 216, 173, 187, 186, 22, 212, 37,
        77, 105, 214, 191, 240, 91, 88, 5, 88, 83, 132, 141, 121,
    ];
    let pkce = pkce_from_bytes(&bytes);
    assert_eq!(
        pkce.code_verifier,
        "dBjftJeZ4CVP-mB92K27uhbUJU1p1r_wW1gFWFOEjXk"
    );
    assert_eq!(
        pkce.code_challenge,
        "E9Melhoa2OwvFrEMTJguCHaoeK1t8URWbuGJSstw-cM"
    );
}

#[test]
fn fresh_secrets_differ() {
    let a = generate_pkce();
    let b = generate_pkce();
    assert_eq!(a.code_verifier.len(), 86);
    assert_eq!(a.code_challenge.len(), 43);
    assert_ne!(a.code_verifier, b.code_verifier);
    assert_eq!(generate_state().len(), 43);
    assert_ne!(generate_state(), generate_state());
}

#[test]
fn queries_read_back_what_was_written() {
    let query = write_query(&vec![("a b", "1&2=3"), ("c", "ü+ ")]);
    let params = parse_query(&query);
    assert_eq!(params.get("a b"), Some("1&2=3"));
    assert_eq!(params.get("c"), Some("ü+ "));
    assert_eq!(params.get("d"), None);

    let params = parse_query("a=1+2&a=3&b&%zz=%41");
    assert_eq!(params.get("a"), Some("3"));
    assert_eq!(params.get("b"), Some(""));
    assert_eq!(params.get("%zz"), Some("A"));
}

#[test]
fn a_callback_has_to_show_the_state() {
    match handle_browser_callback(
        "GET /auth/callback?code=abc&state=right HTTP/1.1\r\nHost: localhost\r\n\r\n",
        "right",
    ) {
        CallbackStep::Exchange { code } => assert_eq!(code, "abc"),
        CallbackStep::Answer { .. } => panic!("the code should be exchanged"),
    }
    let (response, error) = answered("GET /auth/callback?code=abc&state=wrong HTTP/1.1\r\n\r\n");
    assert!(response.starts_with("HTTP/1.1 400 Bad Request\r\n"));
    assert_eq!(error.as_deref(), Some("OAuth state mismatch"));
}

#[test]
fn other_requests_are_turned_away() {
    let (response, error) = answered("POST /auth/callback HTTP/1.1\r\n\r\n");
    assert!(response.starts_with("HTTP/1.1 405 Method Not Allowed\r\n"));
    assert_eq!(error, None);

    let (response, error) = answered("GET /favicon.ico HTTP/1.1\r\n\r\n");
    assert!(response.starts_with("HTTP/1.1 404 Not Found\r\n"));
    assert_eq!(error, None);

    let (_, error) = answered("GET");
    assert_eq!(error.as_deref(), Some("Invalid browser callback request"));

    let (response, error) =
        answered("GET /auth/callback?state=right&error=access_denied&error_description=%3Cno%3E HTTP/1.1");
    assert!(response.contains("&lt;no&gt;"));
    assert!(error.is_some_and(|e| e.contains("<no>")));

    let (_, error) = answered("GET /auth/callback?state=right&code=%20 HTTP/1.1");
    assert_eq!(
        error.as_deref(),
        Some("OAuth callback did not include an authorization code")
    );
}

#[test]
fn pages_hold_no_markup_of_others() {
    assert_eq!(
        escape_html("<a href='x'>\"&"),
        "&lt;a href=&#39;x&#39;&gt;&quot;&amp;"
    );
    assert!(!error_page("<script>").contains("<script>"));
    assert!(success_page().starts_with("HTTP/1.1 200 OK\r\n"));
    assert!(success_page().contains(&format!(
        "Content-Length: {}\r\n",
        success_page()
            .split_once("\r\n\r\n")
            .map_or(0, |(_, body)| body.len())
    )));
}

#[test]
fn a_request_is_read_to_the_end_of_its_headers() {
    let mut request: Vec<u8> = Vec::new();
    assert!(matches!(
        read_step(&mut request, &b"GET / HTTP/1.1\r\n".to_vec()),
        ReadStep::More
    ));
    match read_step(&mut request, &b"\r\n\xff".to_vec()) {
        ReadStep::Complete(text) => assert_eq!(text, "GET / HTTP/1.1\r\n\r\n\u{fffd}"),
        _ => panic!("the request is complete"),
    }
    let mut empty: Vec<u8> = Vec::new();
    assert!(matches!(
        read_step(&mut empty, &Vec::new()),
        ReadStep::Stop(_)
    ));
    let mut large: Vec<u8> = vec![b'a'; 16_383];
    assert!(matches!(
        read_step(&mut large, &vec![b'a']),
        ReadStep::Stop(m) if m == "Browser callback request was too large"
    ));
}

#[test]
fn a_port_in_use_leads_to_the_other() {
    assert!(matches!(
        bind_step(false, BindOutcome::InUse),
        BindStep::Fallback(_)
    ));
    assert!(matches!(
        bind_step(true, BindOutcome::InUse),
        BindStep::Stop(_)
    ));
    assert!(matches!(
        bind_step(false, BindOutcome::Bound),
        BindStep::Listening
    ));
    assert!(matches!(
        bind_step(false, BindOutcome::Failed),
        BindStep::Stop(m) if m == "Failed to bind browser callback server"
    ));
    assert_eq!(
        browser_redirect_uri(1455),
        "http://localhost:1455/auth/callback"
    );
    assert_eq!(device_redirect_uri("https://a"), "https://a/deviceauth/callback");
}

#[test]
fn the_browser_is_waited_for_a_quarter_of_an_hour() {
    assert_eq!(browser_wait(0), Ok(900_000_000_000));
    assert_eq!(
        browser_wait(900_000_000_000),
        Err("browser auth timed out after 15 minutes".to_string())
    );
}

#[test]
fn device_codes_are_read_under_either_name() {
    assert_eq!(user_code_request(), format!("{{\"client_id\":\"{CLIENT_ID}\"}}"));
    for name in ["user_code", "usercode"] {
        let code = device_code_reply(
            &reply(
                200,
                &format!(r#"{{"device_auth_id":"d","{name}":"U-1","interval":" 7 "}}"#),
            ),
            "https://a",
        )
        .unwrap_or_else(|e| panic!("{e}"));
        assert_eq!(code.verification_url, "https://a/codex/device");
        assert_eq!(code.user_code, "U-1");
        assert_eq!(code.interval, 7);
        assert!(device_code_prompt(&code).contains("U-1"));
        assert_eq!(
            token_poll_request(&code),
            r#"{"device_auth_id":"d","user_code":"U-1"}"#
        );
    }
    let both = r#"{"device_auth_id":"d","user_code":"a","usercode":"b"}"#;
    assert_eq!(
        refused(device_code_reply(&reply(200, both), "https://a")),
        "Failed to parse device code response"
    );
    assert!(
        refused(device_code_reply(&reply(404, ""), "https://a"))
            .starts_with("device code login is not enabled")
    );
    assert_eq!(
        refused(device_code_reply(&reply(500, "oops"), "https://a")),
        "device code request failed with status 500 Status: oops"
    );
}

#[test]
fn intervals_are_numbers_in_any_form() {
    assert_eq!(
        deserialize_interval(Some(&Json::Number("3".to_string()))),
        Some(3)
    );
    assert_eq!(
        deserialize_interval(Some(&Json::Text(" 0 ".to_string()))),
        Some(5)
    );
    assert_eq!(deserialize_interval(Some(&Json::Bool(true))), None);
    assert_eq!(
        deserialize_interval(Some(&Json::Text("soon".to_string()))),
        None
    );
}

#[test]
fn the_server_is_asked_until_it_answers() {
    assert!(matches!(
        poll_step(&reply(403, ""), 5, 0, 0),
        PollStep::Wait(5_000_000_000)
    ));
    assert!(matches!(
        poll_step(&reply(404, ""), 5, 0, 899_000_000_000),
        PollStep::Wait(1_000_000_000)
    ));
    assert!(matches!(
        poll_step(&reply(404, ""), 5, 900_000_000_000, 900_000_000_000),
        PollStep::Stop(m) if m == "device auth timed out after 15 minutes"
    ));
    assert!(matches!(
        poll_step(&reply(500, "x"), 5, 0, 0),
        PollStep::Stop(m) if m == "device auth failed with status 500 Status: x"
    ));
    assert!(matches!(
        poll_step(&reply(200, "x"), 5, 0, 0),
        PollStep::Stop(m) if m == "Failed to parse device authorization response"
    ));
    match poll_step(
        &reply(
            200,
            r#"{"authorization_code":"c","code_verifier":"v","code_challenge":"h"}"#,
        ),
        5,
        0,
        0,
    ) {
        PollStep::Authorized(code) => {
            assert_eq!(code.authorization_code, "c");
            assert_eq!(code.code_verifier, "v");
        }
        _ => panic!("the code should be handed out"),
    }
}

#[test]
fn codes_are_exchanged_for_tokens() {
    assert_eq!(
        exchange_body("a b", "http://x/", "v~"),
        format!("grant_type=authorization_code&code=a%20b&redirect_uri=http%3A%2F%2Fx%2F&client_id={CLIENT_ID}&code_verifier=v~")
    );
    let tokens = exchange_reply(&reply(
        200,
        r#"{"id_token":"i","access_token":"a","refresh_token":"r"}"#,
    ))
    .unwrap_or_else(|e| panic!("{e}"));
    let account = stored_account_from_tokens(
        "work".to_string(),
        tokens,
        "id".to_string(),
        Timestamp {
            millis: 5,
            nanos: 6,
        },
    );
    assert_eq!(account.name, "work");
    assert_eq!(account.email, None);
    assert!(matches!(
        account.auth_data,
        AuthData::ChatGPT { refresh_token, .. } if refresh_token == "r"
    ));

    let refusal: Result<TokenResponse, String> = exchange_reply(&reply(400, "bad"));
    assert_eq!(
        refused(refusal),
        "token endpoint returned status 400 Status: bad"
    );
    assert_eq!(
        refused(exchange_reply(&reply(200, "{}"))),
        "Failed to parse token response"
    );
}

#[test]
fn a_device_code_is_shown_with_its_address() {
    let shown = device_code_prompt(&DeviceCode {
        verification_url: "https://a/codex/device".to_string(),
        user_code: "U-1".to_string(),
        device_auth_id: "d".to_string(),
        interval: 5,
    });
    assert!(shown.contains("https://a/codex/device"));
    assert!(!shown.contains("\"d\""));
}

fn answered(request: &str) -> (String, Option<String>) {
    match handle_browser_callback(request, "right") {
        CallbackStep::Answer { response, error } => (response, error),
        CallbackStep::Exchange { .. } => panic!("nothing should be exchanged"),
    }
}

fn refused<T>(result: Result<T, String>) -> String {
    match result {
        Ok(_) => panic!("this should be refused"),
        Err(e) => e,
    }
}

fn reply(status: u16, body: &str) -> Reply {
    Reply {
        status,
        status_shown: format!("{status} Status"),
        body: body.to_string(),
    }
}

#[test]
fn replies_may_be_lists() {
    let code = device_code_reply(&reply(200, r#"["d", "U-1", 7]"#), "https://a")
        .unwrap_or_else(|e| panic!("{e}"));
    assert_eq!((code.device_auth_id.as_str(), code.user_code.as_str()), ("d", "U-1"));
    assert_eq!(code.interval, 7);
    let code = device_code_reply(&reply(200, r#" [ "d" , "U-1" ] "#), "https://a")
        .unwrap_or_else(|e| panic!("{e}"));
    assert_eq!(code.interval, 5);
    assert!(device_code_reply(&reply(200, r#"["d", "U-1", 7, 8]"#), "https://a").is_err());
    assert!(device_code_reply(&reply(200, r#"["d"]"#), "https://a").is_err());

    assert!(matches!(
        poll_step(&reply(200, r#"["c", "v", "h"]"#), 5, 0, 0),
        PollStep::Authorized(code) if code.authorization_code == "c" && code.code_verifier == "v"
    ));
    let tokens = exchange_reply(&reply(200, r#"["i", "a", "r"]"#)).unwrap_or_else(|e| panic!("{e}"));
    assert_eq!(tokens.id_token, "i");
    assert_eq!(tokens.access_token, "a");
    assert_eq!(tokens.refresh_token, "r");
    assert!(exchange_reply(&reply(200, "[]")).is_err());
}

#[test]
fn no_key_of_a_reply_may_stand_twice() {
    let twice = r#"{"id_token":"i","access_token":"a","refresh_token":"r","id_token":"i"}"#;
    assert_eq!(
        exchange_reply(&reply(200, twice)).err(),
        Some("Failed to parse token response".to_string())
    );
    let twice = r#"{"device_auth_id":"d","user_code":"a","interval":1,"interval":1}"#;
    assert!(device_code_reply(&reply(200, twice), "https://a").is_err());
    let twice = r#"{"authorization_code":"c","code_verifier":"v","code_challenge":"h","code_verifier":"v"}"#;
    assert!(matches!(
        poll_step(&reply(200, twice), 5, 0, 0),
        PollStep::Stop(m) if m == "Failed to parse device authorization response"
    ));
    let others = r#"{"x":1,"id_token":"i","x":{"id_token":[]},"access_token":"a","refresh_token":"r"}"#;
    assert!(exchange_reply(&reply(200, others)).is_ok());
}
