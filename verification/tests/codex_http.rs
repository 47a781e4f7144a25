//! How requests name the program that makes them.
use codex_switch::codex_http::{
    codex_default_headers, codex_version, get_codex_user_agent, is_semver_like, originator_value,
    parse_codex_version_output, sanitize_user_agent, set_codex_bin_for_user_agent, CodexIdentity,
    UserAgentParts, VersionProbe,
};
use codex_switch::terminal::{
    detect_terminal_info_from_env, needs_tmux_client_info, tmux_display_message, Environment,
    TmuxClientInfo,
};

#[test]
fn codex_default_headers_include_originator_and_user_agent() {
    let expected_originator = originator_value(None);
    let user_agent = get_codex_user_agent(&UserAgentParts {
        originator: originator_value(None),
        version: "1.2.3".to_string(),
        os_type: "Linux".to_string(),
        os_version: "6.1".to_string(),
        architecture: Some("x86_64".to_string()),
        terminal: "WezTerm/20240203".to_string(),
    });
    let headers = codex_default_headers(originator_value(None), user_agent);

    assert_eq!(
        headers
            .iter()
            .find(|(name, _)| *name == "originator")
            .map(|(_, value)| value.as_str()),
        Some(expected_originator.as_str())
    );
    assert!(headers
        .iter()
        .find(|(name, _)| *name == "user-agent")
        .is_some_and(|(_, value)| value.starts_with(&format!("{expected_originator}/"))));
    assert_eq!(
        headers[1].1,
        "codex_cli_rs/1.2.3 (Linux 6.1; x86_64) WezTerm/20240203"
    );
}

#[test]
fn parse_codex_version_output_uses_codex_version_line() {
    let output = "WARNING: PATH update failed\ncodex-cli 0.129.0\n";
    assert_eq!(
        parse_codex_version_output(output),
        Some("0.129.0".to_string())
    );
}

#[test]
fn parse_codex_version_output_accepts_prerelease() {
    assert_eq!(
        parse_codex_version_output("codex-cli v1.2.3-alpha.1+build.4"),
        Some("1.2.3-alpha.1+build.4".to_string())
    );
}

#[test]
fn semver_like_rejects_non_versions() {
    assert!(is_semver_like("1.2.3"));
    assert!(is_semver_like("1.2.3-alpha.1"));
    assert!(!is_semver_like("1.2"));
    assert!(!is_semver_like("codex-cli"));
}

#[test]
fn sanitize_user_agent_replaces_invalid_header_chars() {
    assert_eq!(
        sanitize_user_agent("codex_cli_rs/1.2.3\nbad".to_string(), "fallback"),
        "codex_cli_rs/1.2.3_bad"
    );
}

#[test]
fn terminal_info_prefers_term_program() {
    let env = environment(&[
        ("TERM_PROGRAM", "WezTerm"),
        ("TERM_PROGRAM_VERSION", "20240203"),
        ("TERM", "xterm-256color"),
    ]);

    assert_eq!(
        detect_terminal_info_from_env(&env).user_agent_token(),
        "WezTerm/20240203"
    );
}

#[test]
fn terminal_info_uses_tmux_client_terminal() {
    let mut env = environment(&[("TMUX", "/tmp/tmux"), ("TERM_PROGRAM", "tmux")]);
    env.tmux = TmuxClientInfo {
        termtype: Some("ghostty 1.1.3".to_string()),
        termname: Some("xterm-ghostty".to_string()),
    };

    assert!(needs_tmux_client_info(&env));
    assert_eq!(
        detect_terminal_info_from_env(&env).user_agent_token(),
        "ghostty/1.1.3"
    );
}

#[test]
fn an_originator_that_no_header_can_hold_is_not_used() {
    assert_eq!(originator_value(Some("my_client")), "my_client");
    assert_eq!(originator_value(Some("bad\nclient")), "codex_cli_rs");
    assert_eq!(originator_value(None), "codex_cli_rs");
}

#[test]
fn an_agent_that_no_header_can_hold_is_left_out() {
    let headers = codex_default_headers("codex_cli_rs".to_string(), "two\nlines".to_string());
    assert_eq!(headers.len(), 1);
    assert_eq!(
        headers[0],
        ("originator", "codex_cli_rs".to_string())
    );
}

#[test]
fn an_unknown_architecture_is_called_so() {
    let agent = get_codex_user_agent(&UserAgentParts {
        originator: "codex_cli_rs".to_string(),
        version: "0.1.0".to_string(),
        os_type: "Linux".to_string(),
        os_version: "6.1".to_string(),
        architecture: None,
        terminal: "unknown".to_string(),
    });
    assert_eq!(agent, "codex_cli_rs/0.1.0 (Linux 6.1; unknown) unknown");
}

#[test]
fn the_version_is_asked_for_once() {
    let mut identity = CodexIdentity::new();
    assert_eq!(identity.configured_bin(), "codex");
    set_codex_bin_for_user_agent(&mut identity, "/opt/codex".to_string());
    assert_eq!(identity.configured_bin(), "/opt/codex");
    assert!(identity.needs_probe());

    let answered = Some(VersionProbe {
        success: true,
        stdout: b"codex-cli 0.129.0".to_vec(),
        stderr: Vec::new(),
    });
    assert_eq!(codex_version(&mut identity, &answered, "9.9.9"), "0.129.0");
    assert!(!identity.needs_probe());
    assert_eq!(codex_version(&mut identity, &None, "9.9.9"), "0.129.0");
}

#[test]
fn without_an_answer_the_own_version_is_given() {
    let mut identity = CodexIdentity::new();
    assert_eq!(codex_version(&mut identity, &None, "9.9.9"), "9.9.9");
}

#[test]
fn terminals_are_known_by_their_variables() {
    let cases = [
        ("WEZTERM_VERSION", "2", "WezTerm/2"),
        ("ITERM_SESSION_ID", "x", "iTerm.app"),
        ("TERM_SESSION_ID", "x", "Apple_Terminal"),
        ("KITTY_WINDOW_ID", "1", "kitty"),
        ("ALACRITTY_SOCKET", "s", "Alacritty"),
        ("KONSOLE_VERSION", "230", "Konsole/230"),
        ("GNOME_TERMINAL_SCREEN", "s", "gnome-terminal"),
        ("VTE_VERSION", "7", "VTE/7"),
        ("WT_SESSION", "s", "WindowsTerminal"),
        ("TERM", "xterm 256", "xterm_256"),
    ];
    for (name, value, token) in cases {
        assert_eq!(
            detect_terminal_info_from_env(&environment(&[(name, value)])).user_agent_token(),
            token
        );
    }
    assert_eq!(
        detect_terminal_info_from_env(&environment(&[])).user_agent_token(),
        "unknown"
    );
}

fn environment(vars: &[(&str, &str)]) -> Environment {
    Environment {
        vars: vars
            .iter()
            .map(|(name, value)| (name.to_string(), value.to_string()))
            .collect(),
        tmux: TmuxClientInfo {
            termtype: None,
            termname: None,
        },
    }
}

#[test]
fn what_tmux_said_is_trimmed() {
    assert_eq!(
        tmux_display_message(true, b" xterm-256color \n".to_vec()),
        Some("xterm-256color".to_string())
    );
    assert_eq!(tmux_display_message(true, b" \n".to_vec()), None);
    assert_eq!(tmux_display_message(true, vec![0xff]), None);
    assert_eq!(tmux_display_message(false, b"xterm".to_vec()), None);
}

#[test]
fn a_version_is_found_beside_bytes_that_are_no_text() {
    let mut identity = CodexIdentity::new();
    let answered = Some(VersionProbe {
        success: true,
        stdout: b"\xff\xfe\n".to_vec(),
        stderr: b"codex-cli v0.130.1\n".to_vec(),
    });
    assert_eq!(codex_version(&mut identity, &answered, "9.9.9"), "0.130.1");
}
