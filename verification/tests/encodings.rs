//! Base64 in its URL-safe form, and JSON as text.
use codex_switch::auth_json::access_token_expires_at;
use codex_switch::encoding::decode_base64url_text;
use codex_switch::json::{parse_json, Json};
use codex_switch::oauth::pkce_from_bytes;

#[test]
fn base64url_has_its_own_digits_and_no_padding() {
    assert_eq!(pkce_from_bytes(&Vec::new()).code_verifier, "");
    assert_eq!(pkce_from_bytes(&vec![0xfb]).code_verifier, "-w");
    assert_eq!(pkce_from_bytes(&vec![0xff, 0xef]).code_verifier, "_-8");
    assert_eq!(pkce_from_bytes(&vec![0, 16, 131]).code_verifier, "ABCD");
    assert_eq!(
        pkce_from_bytes(&b"foobar".to_vec()).code_verifier,
        "Zm9vYmFy"
    );
}

#[test]
fn base64url_reads_back_what_it_wrote() {
    for text in ["", "f", "fo", "foo", "foob", "fooba", "foobar", "Grüße"] {
        let written = pkce_from_bytes(&text.as_bytes().to_vec()).code_verifier;
        assert_eq!(decode_base64url_text(&written), Some(text.to_string()));
    }
}

#[test]
fn base64url_keeps_different_bytes_apart() {
    let mut seen: Vec<String> = Vec::new();
    for byte in 0..=255u8 {
        let written = pkce_from_bytes(&vec![byte]).code_verifier;
        assert!(!seen.contains(&written));
        seen.push(written);
    }
}

#[test]
fn base64url_refuses_what_it_never_writes() {
    assert_eq!(decode_base64url_text("Zg=="), None);
    assert_eq!(decode_base64url_text("Zh"), None);
    assert_eq!(decode_base64url_text("Z"), None);
    assert_eq!(decode_base64url_text("Zm9+"), None);
    assert_eq!(decode_base64url_text("Zm9/"), None);
    assert_eq!(decode_base64url_text("Zm 9"), None);
    // These bytes are no text.
    assert_eq!(decode_base64url_text("_w"), None);
}

#[test]
fn every_special_character_has_its_escape() {
    let shown = |s: &str| Json::Text(s.to_string()).render();
    assert_eq!(shown("\""), r#""\"""#);
    assert_eq!(shown("\\"), r#""\\""#);
    assert_eq!(shown("\n\r\t"), r#""\n\r\t""#);
    assert_eq!(shown("\u{8}\u{c}"), r#""\b\f""#);
    assert_eq!(shown("\u{0}\u{1f}\u{1b}"), r#""\u0000\u001f\u001b""#);
    assert_eq!(shown("/\u{7f}é漢😀"), "\"/\u{7f}é漢😀\"");
}

#[test]
fn what_is_written_reads_back() {
    let texts = ["", "a\"b", "\\n", "\n", "\u{0}", "é😀", "</script>"];
    for text in texts {
        let rendered = Json::Text(text.to_string()).render();
        match parse_json(&rendered) {
            Some(Json::Text(back)) => assert_eq!(back, text),
            _ => panic!("text should read back as text"),
        }
    }
}

#[test]
fn nested_values_keep_their_shape() {
    let given = r#"{"a":[1,-2,true,null,"x"],"b":{"c":{"d":[]}}}"#;
    let value = parse_json(given).expect("this is JSON");
    assert_eq!(value.render(), given);
    assert!(value.get3("b", "c", "d").is_some());
    assert!(value.get2("b", "x").is_none());
    assert!(value.get("c").is_none());
}

#[test]
fn the_last_of_two_equal_keys_stays() {
    let value = parse_json(r#"{"a":1,"a":"two"}"#).expect("this is JSON");
    assert_eq!(value.render(), r#"{"a":"two"}"#);
}

#[test]
fn what_is_no_json_is_refused() {
    for text in ["", "{", "{\"a\":}", "[1,]", "nul", "'a'", "1 2"] {
        assert!(parse_json(text).is_none());
    }
}

#[test]
fn a_token_tells_its_end() {
    let token = |claims: &str| {
        let payload = pkce_from_bytes(&claims.as_bytes().to_vec()).code_verifier;
        format!("head.{payload}.signature")
    };
    let end = access_token_expires_at(&token(r#"{"exp":1800000000}"#)).expect("it has an end");
    assert_eq!((end.millis, end.nanos), (1_800_000_000_000, 0));
    assert!(access_token_expires_at(&token("{}")).is_none());
    assert!(access_token_expires_at(&token(r#"{"exp":"soon"}"#)).is_none());
    assert!(access_token_expires_at("head.payload").is_none());
}
