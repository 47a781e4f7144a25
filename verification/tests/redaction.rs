//! Error bodies lose their secrets and their length before they are shown.
use codex_switch::redaction::{redact_known_secrets, MAX_REDACTED_ERROR_BODY_CHARS};

#[test]
fn redacts_raw_and_url_encoded_secret_values() {
    let secret = "secret value/with-symbols";
    let body = format!("raw={secret} encoded={}", urlencoding::encode(secret));

    let redacted = redact_known_secrets(body, &vec![secret.to_string()]);

    assert!(!redacted.contains(secret));
    assert!(!redacted.contains(urlencoding::encode(secret).as_ref()));
    assert_eq!(redacted, "raw=<redacted> encoded=<redacted>");
}

#[test]
fn truncates_large_error_bodies_after_redaction() {
    let redacted = redact_known_secrets(
        "x".repeat(MAX_REDACTED_ERROR_BODY_CHARS + 10),
        &Vec::new(),
    );

    assert_eq!(redacted.chars().count(), MAX_REDACTED_ERROR_BODY_CHARS + 3);
    assert!(redacted.ends_with("..."));
}

#[test]
fn empty_secrets_and_harmless_bodies_change_nothing() {
    let kept = redact_known_secrets(
        "nothing to hide".to_string(),
        &vec![String::new(), "token".to_string()],
    );
    assert_eq!(kept, "nothing to hide");
}
