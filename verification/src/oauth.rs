//! Logging in with ChatGPT: through a browser, or with a code for another device.
pub mod tokens;

use crate::accounts;
use crate::encoding;
use crate::query;
use crate::runtime::chance;
use crate::text;
use vstd::prelude::*;
use vstd::string::StrSliceExecFns;

verus! {

pub const DEFAULT_ISSUER: &'static str = "https://auth.openai.com";

pub const CLIENT_ID: &'static str = "app_EMoamEEZ73f0CkXaXp7hrann";

pub const DEFAULT_BROWSER_CALLBACK_PORT: u16 = 1455;

pub const FALLBACK_BROWSER_CALLBACK_PORT: u16 = 1457;

/// How long a login may take, in nanoseconds.
pub const DEVICE_AUTH_TIMEOUT_NANOS: u128 = 900_000_000_000;

pub const CALLBACK_READ_TIMEOUT_SECS: u64 = 5;

pub const OAUTH_REQUEST_TIMEOUT_SECS: u64 = 30;

pub const DEFAULT_DEVICE_AUTH_POLL_INTERVAL_SECS: u64 = 5;

/// How many bytes a request of a browser may have before its headers end.
pub const MAX_REQUEST_LEN: usize = 16_384;

pub const OAUTH_SCOPE: &'static str = "openid profile email offline_access api.connectors.read api.connectors.invoke";

#[derive(Debug, Clone, Copy, PartialEq, Eq, Structural)]
pub enum LoginFlow {
    Browser,
    DeviceAuth,
}

// ---------------------------------------------------------------------------
// Secrets of a login
// ---------------------------------------------------------------------------

pub struct PkceCodes {
    pub code_verifier: String,
    pub code_challenge: String,
}

/// The codes are those that the bytes give: the bytes in Base64, and the digest
/// of that text in Base64.
pub open spec fn is_pkce(codes: PkceCodes, bytes: Seq<u8>) -> bool {
    &&& codes.code_verifier@ == encoding::base64url(bytes)
    &&& codes.code_challenge@ == challenge_of(codes.code_verifier@)
}

/// What is shown of a verifier before it is needed.
pub open spec fn challenge_of(verifier: Seq<char>) -> Seq<char> {
    encoding::base64url(encoding::sha256(vstd::utf8::encode_utf8(verifier)))
}

pub fn pkce_from_bytes(bytes: &Vec<u8>) -> (r: PkceCodes)
    ensures
        is_pkce(r, bytes@),
        encoding::is_base64url_text(r.code_verifier@),
        r.code_verifier@.len() == encoding::base64url_len(bytes@.len()),
        encoding::is_base64url_text(r.code_challenge@),
        r.code_challenge@.len() == 43,
{
    let code_verifier = encoding::encode_base64url(bytes);
    let verifier_bytes = code_verifier.as_str().as_bytes_vec();
    let digest = encoding::digest_sha256(&verifier_bytes);
    let code_challenge = encoding::encode_base64url(&digest);
    proof {
        encoding::base64url_is_plain(bytes@);
        encoding::base64url_is_plain(digest@);
    }
    PkceCodes { code_verifier, code_challenge }
}

/// Codes for one login, from 64 random bytes.
pub fn generate_pkce() -> (r: PkceCodes)
    ensures
        exists|bytes: Seq<u8>|
            #![trigger is_pkce(r, bytes)]
            bytes.len() == 64 && chance::are_drawn(bytes, 64) && is_pkce(r, bytes),
        encoding::is_base64url_text(r.code_verifier@),
        r.code_verifier@.len() == 86,
        encoding::is_base64url_text(r.code_challenge@),
        r.code_challenge@.len() == 43,
{
    let bytes = chance::drawn_bytes(64);
    pkce_from_bytes(&bytes)
}

/// What a callback has to show, from 32 random bytes.
pub fn generate_state() -> (r: String)
    ensures
        exists|bytes: Seq<u8>|
            #![trigger encoding::base64url(bytes)]
            bytes.len() == 32 && chance::are_drawn(bytes, 32) && r@ == encoding::base64url(bytes),
        encoding::is_base64url_text(r@),
        r@.len() == 43,
{
    let bytes = chance::drawn_bytes(32);
    proof {
        encoding::base64url_is_plain(bytes@);
    }
    encoding::encode_base64url(&bytes)
}

// ---------------------------------------------------------------------------
// The address of the login
// ---------------------------------------------------------------------------

pub open spec fn authorize_pairs(
    redirect_uri: Seq<char>,
    challenge: Seq<char>,
    state: Seq<char>,
    originator: Seq<char>,
) -> Seq<(Seq<char>, Seq<char>)> {
    seq![
        ("response_type"@, "code"@),
        ("client_id"@, CLIENT_ID@),
        ("redirect_uri"@, redirect_uri),
        ("scope"@, OAUTH_SCOPE@),
        ("code_challenge"@, challenge),
        ("code_challenge_method"@, "S256"@),
        ("id_token_add_organizations"@, "true"@),
        ("codex_cli_simplified_flow"@, "true"@),
        ("state"@, state),
        ("originator"@, originator),
    ]
}

pub open spec fn authorize_url(
    issuer: Seq<char>,
    redirect_uri: Seq<char>,
    challenge: Seq<char>,
    state: Seq<char>,
    originator: Seq<char>,
) -> Seq<char> {
    issuer + "/oauth/authorize?"@ + query::query_of(
        authorize_pairs(redirect_uri, challenge, state, originator),
    )
}

pub fn build_authorize_url(
    issuer: &str,
    redirect_uri: &str,
    pkce: &PkceCodes,
    state: &str,
    originator: &str,
) -> (r: String)
    ensures
        r@ == authorize_url(
            issuer@,
            redirect_uri@,
            pkce.code_challenge@,
            state@,
            originator@,
        ),
{
    let mut pairs: Vec<(&str, &str)> = Vec::new();
    pairs.push(("response_type", "code"));
    pairs.push(("client_id", CLIENT_ID));
    pairs.push(("redirect_uri", redirect_uri));
    pairs.push(("scope", OAUTH_SCOPE));
    pairs.push(("code_challenge", pkce.code_challenge.as_str()));
    pairs.push(("code_challenge_method", "S256"));
    pairs.push(("id_token_add_organizations", "true"));
    pairs.push(("codex_cli_simplified_flow", "true"));
    pairs.push(("state", state));
    pairs.push(("originator", originator));
    let written = query::write_query(&pairs);
    assert(query::pairs_view(pairs@) =~= authorize_pairs(
        redirect_uri@,
        pkce.code_challenge@,
        state@,
        originator@,
    ));
    text::cat3(issuer, "/oauth/authorize?", written.as_str())
}

proof fn plain_name(s: Seq<char>)
    requires
        s.len() > 0,
        forall|i: int| 0 <= i < s.len() ==> 'a' <= #[trigger] s[i] <= 'z' || s[i] == '_',
    ensures
        query::is_plain_name(s),
{
    assert forall|i: int| 0 <= i < s.len() implies query::is_plain_char(#[trigger] s[i]) by {
        assert('a' <= s[i] <= 'z' || s[i] == '_');
    }
}

/// Whoever reads the address of the login gets what it was made of.
pub proof fn the_login_address_reads_back(
    redirect_uri: Seq<char>,
    challenge: Seq<char>,
    state: Seq<char>,
    originator: Seq<char>,
)
    ensures
        query::query_pairs(
            query::query_of(authorize_pairs(redirect_uri, challenge, state, originator)),
        ) == authorize_pairs(redirect_uri, challenge, state, originator),
{
    let pairs = authorize_pairs(redirect_uri, challenge, state, originator);
    reveal_strlit("response_type");
    reveal_strlit("client_id");
    reveal_strlit("redirect_uri");
    reveal_strlit("scope");
    reveal_strlit("code_challenge");
    reveal_strlit("code_challenge_method");
    reveal_strlit("id_token_add_organizations");
    reveal_strlit("codex_cli_simplified_flow");
    reveal_strlit("state");
    reveal_strlit("originator");
    plain_name("response_type"@);
    plain_name("client_id"@);
    plain_name("redirect_uri"@);
    plain_name("scope"@);
    plain_name("code_challenge"@);
    plain_name("code_challenge_method"@);
    plain_name("id_token_add_organizations"@);
    plain_name("codex_cli_simplified_flow"@);
    plain_name("state"@);
    plain_name("originator"@);
    query::queries_read_back(pairs);
}

/// Where the browser comes back to.
pub fn browser_redirect_uri(port: u16) -> (r: String)
    ensures
        r@ == "http://localhost:"@ + text::decimal(port as nat) + "/auth/callback"@,
{
    let shown = text::number(port as u64);
    text::cat3("http://localhost:", shown.as_str(), "/auth/callback")
}

pub fn device_redirect_uri(issuer: &str) -> (r: String)
    ensures
        r@ == issuer@ + "/deviceauth/callback"@,
{
    text::cat2(issuer, "/deviceauth/callback")
}

// ---------------------------------------------------------------------------
// The server that the browser comes back to
// ---------------------------------------------------------------------------

/// What came of listening on a port.
pub enum BindOutcome {
    Bound,
    InUse,
    Failed,
}

pub enum BindStep {
    Listening,
    /// The other port is to be tried, and this is to be said.
    Fallback(String),
    Stop(String),
}

pub open spec fn is_bind_step(r: BindStep, is_fallback: bool, outcome: BindOutcome) -> bool {
    match outcome {
        BindOutcome::Bound => r is Listening,
        _ => if is_fallback {
            r matches BindStep::Stop(m) && m@ == "Failed to bind fallback browser callback port "@
                + text::decimal(FALLBACK_BROWSER_CALLBACK_PORT as nat)
        } else if outcome is InUse {
            r matches BindStep::Fallback(m) && m@ == "Port "@ + text::decimal(
                DEFAULT_BROWSER_CALLBACK_PORT as nat,
            ) + " is in use; using callback port "@ + text::decimal(
                FALLBACK_BROWSER_CALLBACK_PORT as nat,
            ) + "."@
        } else {
            r matches BindStep::Stop(m) && m@ == "Failed to bind browser callback server"@
        },
    }
}

pub fn bind_step(is_fallback: bool, outcome: BindOutcome) -> (r: BindStep)
    ensures
        is_bind_step(r, is_fallback, outcome),
{
    let second = text::number(FALLBACK_BROWSER_CALLBACK_PORT as u64);
    match outcome {
        BindOutcome::Bound => BindStep::Listening,
        BindOutcome::InUse => if is_fallback {
            BindStep::Stop(
                text::cat2("Failed to bind fallback browser callback port ", second.as_str()),
            )
        } else {
            let first = text::number(DEFAULT_BROWSER_CALLBACK_PORT as u64);
            BindStep::Fallback(
                text::cat5(
                    "Port ",
                    first.as_str(),
                    " is in use; using callback port ",
                    second.as_str(),
                    ".",
                ),
            )
        },
        BindOutcome::Failed => if is_fallback {
            BindStep::Stop(
                text::cat2("Failed to bind fallback browser callback port ", second.as_str()),
            )
        } else {
            BindStep::Stop("Failed to bind browser callback server".to_owned())
        },
    }
}

pub const BROWSER_TIMED_OUT: &'static str = "browser auth timed out after 15 minutes";

/// How much longer to wait for a browser, after so many nanoseconds.
pub fn browser_wait(elapsed: u128) -> (r: Result<u128, String>)
    ensures
        match r {
            Ok(left) => elapsed < DEVICE_AUTH_TIMEOUT_NANOS && left + elapsed
                == DEVICE_AUTH_TIMEOUT_NANOS,
            Err(m) => elapsed >= DEVICE_AUTH_TIMEOUT_NANOS && m@ == BROWSER_TIMED_OUT@,
        },
{
    if elapsed >= DEVICE_AUTH_TIMEOUT_NANOS {
        Err(BROWSER_TIMED_OUT.to_owned())
    } else {
        Ok(DEVICE_AUTH_TIMEOUT_NANOS - elapsed)
    }
}

/// Where a request has the empty line that ends its headers.
pub open spec fn headers_end_at(request: Seq<u8>, i: int) -> bool {
    0 <= i && i + 4 <= request.len() && request[i] == 13 && request[i + 1] == 10 && request[i + 2]
        == 13 && request[i + 3] == 10
}

pub open spec fn headers_end(request: Seq<u8>) -> bool {
    exists|i: int| #[trigger] headers_end_at(request, i)
}

pub fn has_headers_end(request: &Vec<u8>) -> (r: bool)
    ensures
        r == headers_end(request@),
{
    if request.len() < 4 {
        assert forall|i: int| !#[trigger] headers_end_at(request@, i) by {}
        return false;
    }
    let mut i: usize = 0;
    while i <= request.len() - 4
        invariant
            4 <= request@.len(),
            i <= request@.len() - 3,
            forall|k: int| 0 <= k < i ==> !#[trigger] headers_end_at(request@, k),
        decreases request@.len() - i,
    {
        if request[i] == 13 && request[i + 1] == 10 && request[i + 2] == 13 && request[i + 3]
            == 10 {
            assert(headers_end_at(request@, i as int));
            return true;
        }
        i = i + 1;
    }
    assert forall|k: int| !#[trigger] headers_end_at(request@, k) by {}
    false
}

pub enum ReadStep {
    /// There is more to come.
    More,
    /// The request is complete.
    Complete(String),
    Stop(String),
}

/// What follows a chunk of a request; `request` is all that came so far.
pub open spec fn is_read_step(r: ReadStep, request: Seq<u8>, ended: bool) -> bool {
    if ended || headers_end(request) {
        if request.len() == 0 {
            r matches ReadStep::Stop(m) && m@ == "Browser callback request was empty"@
        } else {
            r matches ReadStep::Complete(s) && s@ == encoding::text_of(request)
        }
    } else if request.len() >= MAX_REQUEST_LEN {
        r matches ReadStep::Stop(m) && m@ == "Browser callback request was too large"@
    } else {
        r is More
    }
}

/// Takes in a chunk; an empty one is the end of what the browser sends.
pub fn read_step(request: &mut Vec<u8>, chunk: &Vec<u8>) -> (r: ReadStep)
    requires
        old(request)@.len() + chunk@.len() <= usize::MAX,
    ensures
        final(request)@ == old(request)@ + chunk@,
        is_read_step(r, final(request)@, chunk@.len() == 0),
{
    let mut i: usize = 0;
    let ghost before = request@;
    assert(request@ =~= before + chunk@.take(0));
    while i < chunk.len()
        invariant
            i <= chunk@.len(),
            request@ == before + chunk@.take(i as int),
            before.len() + chunk@.len() <= usize::MAX,
        decreases chunk@.len() - i,
    {
        request.push(chunk[i]);
        i = i + 1;
        assert(request@ =~= before + chunk@.take(i as int));
    }
    assert(chunk@.take(i as int) =~= chunk@);
    if chunk.len() == 0 || has_headers_end(request) {
        if request.len() == 0 {
            ReadStep::Stop("Browser callback request was empty".to_owned())
        } else {
            ReadStep::Complete(encoding::decode_lossy(request))
        }
    } else if request.len() >= MAX_REQUEST_LEN {
        ReadStep::Stop("Browser callback request was too large".to_owned())
    } else {
        ReadStep::More
    }
}

/// The method and the target of a request.
pub open spec fn request_line(request: Seq<char>) -> Option<(Seq<char>, Seq<char>)> {
    let lines = text::lines_of(request);
    if lines.len() == 0 {
        None
    } else {
        let words = text::words_of(lines[0]);
        if words.len() < 2 {
            None
        } else {
            Some((words[0], words[1]))
        }
    }
}

pub fn parse_request_line(request: &str) -> (r: Option<(String, String)>)
    ensures
        match r {
            Some(p) => request_line(request@) == Some((p.0@, p.1@)),
            None => request_line(request@) is None,
        },
{
    let lines = text::lines(request);
    assert(text::views(lines@).len() == lines@.len());
    if lines.len() == 0 {
        return None;
    }
    assert(text::views(lines@)[0] == lines@[0]@);
    let words = text::words(lines[0].as_str());
    assert(text::views(words@).len() == words@.len());
    if words.len() < 2 {
        return None;
    }
    assert(text::views(words@)[0] == words@[0]@);
    assert(text::views(words@)[1] == words@[1]@);
    Some((words[0].clone(), words[1].clone()))
}

/// The path and the query of a target.
pub open spec fn target_parts(target: Seq<char>) -> (Seq<char>, Option<Seq<char>>) {
    match text::cut_at(target, '?') {
        Some((path, query)) => (path, Some(query)),
        None => (target, None),
    }
}

pub fn split_target(target: &str) -> (r: (String, Option<String>))
    ensures
        (r.0@, text::opt_view(r.1)) == target_parts(target@),
{
    match text::split_once(target, '?') {
        Some((path, query)) => (path, Some(query)),
        None => (target.to_owned(), None),
    }
}

// ---------------------------------------------------------------------------
// Answers
// ---------------------------------------------------------------------------

pub open spec fn escaped_char(c: char) -> Seq<char> {
    if c == '&' {
        "&amp;"@
    } else if c == '<' {
        "&lt;"@
    } else if c == '>' {
        "&gt;"@
    } else if c == '"' {
        "&quot;"@
    } else if c == '\'' {
        "&#39;"@
    } else {
        seq![c]
    }
}

/// A text as it can stand in a page.
pub open spec fn escaped(s: Seq<char>) -> Seq<char>
    decreases s.len(),
{
    if s.len() == 0 {
        Seq::empty()
    } else {
        escaped(s.drop_last()) + escaped_char(s.last())
    }
}

pub fn escape_html(value: &str) -> (r: String)
    ensures
        r@ == escaped(value@),
{
    let v = text::to_chars(value);
    let mut r = String::new();
    let mut i: usize = 0;
    assert(v@.take(0) =~= Seq::empty());
    while i < v.len()
        invariant
            i <= v@.len(),
            v@ == value@,
            r@ == escaped(v@.take(i as int)),
        decreases v@.len() - i,
    {
        assert(v@.take(i as int + 1).drop_last() =~= v@.take(i as int));
        let c = v[i];
        if c == '&' {
            r.append("&amp;");
        } else if c == '<' {
            r.append("&lt;");
        } else if c == '>' {
            r.append("&gt;");
        } else if c == '"' {
            r.append("&quot;");
        } else if c == '\'' {
            r.append("&#39;");
        } else {
            let ghost before = r@;
            r.push(c);
            assert(r@ =~= before + seq![c]);
        }
        i = i + 1;
    }
    assert(v@.take(i as int) =~= v@);
    r
}

/// A text in a page brings no markup with it.
pub proof fn escaped_text_is_harmless(s: Seq<char>)
    ensures
        forall|i: int|
            0 <= i < escaped(s).len() ==> {
                let c = #[trigger] escaped(s)[i];
                c != '<' && c != '>' && c != '"' && c != '\''
            },
    decreases s.len(),
{
    if s.len() > 0 {
        escaped_text_is_harmless(s.drop_last());
        let before = escaped(s.drop_last());
        let last = escaped_char(s.last());
        reveal_strlit("&amp;");
        reveal_strlit("&lt;");
        reveal_strlit("&gt;");
        reveal_strlit("&quot;");
        reveal_strlit("&#39;");
        assert forall|i: int| 0 <= i < escaped(s).len() implies {
            let c = #[trigger] escaped(s)[i];
            c != '<' && c != '>' && c != '"' && c != '\''
        } by {
            if i < before.len() {
                assert(escaped(s)[i] == before[i]);
            } else {
                assert(escaped(s)[i] == last[i - before.len()]);
            }
        }
    }
}

pub open spec fn response_text(
    status: nat,
    reason: Seq<char>,
    content_type: Seq<char>,
    body: Seq<char>,
) -> Seq<char> {
    "HTTP/1.1 "@ + text::decimal(status) + " "@ + reason + "\r\nContent-Type: "@ + content_type + (
    "\r\nContent-Length: "@ + text::decimal(
        vstd::utf8::encode_utf8(body).len() as usize as nat,
    ) + "\r\nConnection: close\r\n\r\n"@ + body)
}

pub fn response(status: u16, reason: &str, content_type: &str, body: &str) -> (r: String)
    ensures
        r@ == response_text(status as nat, reason@, content_type@, body@),
{
    let shown = text::number(status as u64);
    let length = text::number(body.len() as u64);
    let head = text::cat6(
        "HTTP/1.1 ",
        shown.as_str(),
        " ",
        reason,
        "\r\nContent-Type: ",
        content_type,
    );
    let rest = text::cat4(
        "\r\nContent-Length: ",
        length.as_str(),
        "\r\nConnection: close\r\n\r\n",
        body,
    );
    text::cat2(head.as_str(), rest.as_str())
}

pub const PLAIN_TEXT: &'static str = "text/plain; charset=utf-8";

pub const HTML: &'static str = "text/html; charset=utf-8";

pub const SUCCESS_PAGE: &'static str = "<!doctype html><html><head><meta charset=\"utf-8\"><title>codex-switch login</title></head><body><h1>Login complete</h1><p>You can close this window and return to codex-switch.</p></body></html>";

pub const ERROR_PAGE_START: &'static str = "<!doctype html><html><head><meta charset=\"utf-8\"><title>codex-switch login</title></head><body><h1>Login failed</h1><p>";

pub const ERROR_PAGE_END: &'static str = "</p></body></html>";

pub open spec fn text_answer(status: nat, reason: Seq<char>) -> Seq<char> {
    response_text(status, reason, PLAIN_TEXT@, reason)
}

pub open spec fn success_answer() -> Seq<char> {
    response_text(200, "OK"@, HTML@, SUCCESS_PAGE@)
}

pub open spec fn error_answer(message: Seq<char>) -> Seq<char> {
    response_text(
        400,
        "Bad Request"@,
        HTML@,
        ERROR_PAGE_START@ + escaped(message) + ERROR_PAGE_END@,
    )
}

pub fn success_page() -> (r: String)
    ensures
        r@ == success_answer(),
{
    response(200, "OK", HTML, SUCCESS_PAGE)
}

pub fn error_page(message: &str) -> (r: String)
    ensures
        r@ == error_answer(message@),
{
    let shown = escape_html(message);
    let body = text::cat3(ERROR_PAGE_START, shown.as_str(), ERROR_PAGE_END);
    response(400, "Bad Request", HTML, body.as_str())
}

// ---------------------------------------------------------------------------
// Callbacks
// ---------------------------------------------------------------------------

/// What is said of a failed login.
pub open spec fn callback_error(code: Seq<char>, description: Option<Seq<char>>) -> Seq<char> {
    if description is Some && !text::is_blank(description->Some_0) {
        code + ": "@ + description->Some_0
    } else {
        code
    }
}

pub fn oauth_callback_error_message(error_code: &str, error_description: Option<&str>) -> (r: String)
    ensures
        r@ == callback_error(error_code@, accounts::str_view(error_description)),
{
    match error_description {
        Some(d) => if !text::blank(d) {
            text::cat3(error_code, ": ", d)
        } else {
            error_code.to_owned()
        },
        None => error_code.to_owned(),
    }
}

pub const STATE_MISMATCH: &'static str = "OAuth state mismatch";

pub const NO_CODE: &'static str = "OAuth callback did not include an authorization code";

pub enum CallbackStep {
    /// The answer to send; then the login fails with the error, or goes on
    /// waiting where there is none.
    Answer { response: String, error: Option<String> },
    /// The code to exchange for tokens.
    Exchange { code: String },
}

pub enum CallbackView {
    Answer { response: Seq<char>, error: Option<Seq<char>> },
    Exchange { code: Seq<char> },
}

impl View for CallbackStep {
    type V = CallbackView;

    open spec fn view(&self) -> CallbackView {
        match *self {
            CallbackStep::Answer { response, error } => CallbackView::Answer {
                response: response@,
                error: text::opt_view(error),
            },
            CallbackStep::Exchange { code } => CallbackView::Exchange { code: code@ },
        }
    }
}

/// What follows from the parameters of a callback.
pub open spec fn decided(params: Map<Seq<char>, Seq<char>>, state: Seq<char>) -> CallbackView {
    if query::lookup(params, "state"@) != Some(state) {
        CallbackView::Answer {
            response: error_answer("OAuth state mismatch. Sign-in was rejected."@),
            error: Some(STATE_MISMATCH@),
        }
    } else {
        match query::lookup(params, "error"@) {
            Some(code) => {
                let message = callback_error(code, query::lookup(params, "error_description"@));
                CallbackView::Answer { response: error_answer(message), error: Some(message) }
            },
            None => match query::lookup(params, "code"@) {
                Some(code) => if !text::is_blank(code) {
                    CallbackView::Exchange { code }
                } else {
                    CallbackView::Answer {
                        response: error_answer(NO_CODE@ + "."@),
                        error: Some(NO_CODE@),
                    }
                },
                None => CallbackView::Answer {
                    response: error_answer(NO_CODE@ + "."@),
                    error: Some(NO_CODE@),
                },
            },
        }
    }
}

/// What follows from a request of the browser.
pub open spec fn callback(request: Seq<char>, state: Seq<char>) -> CallbackView {
    match request_line(request) {
        None => CallbackView::Answer {
            response: text_answer(400, "Bad Request"@),
            error: Some("Invalid browser callback request"@),
        },
        Some((method, target)) => if method != "GET"@ {
            CallbackView::Answer {
                response: text_answer(405, "Method Not Allowed"@),
                error: None,
            }
        } else {
            let (path, query) = target_parts(target);
            if path != "/auth/callback"@ {
                CallbackView::Answer { response: text_answer(404, "Not Found"@), error: None }
            } else {
                decided(
                    query::map_of(
                        query::query_pairs(
                            match query {
                                Some(q) => q,
                                None => Seq::empty(),
                            },
                        ),
                    ),
                    state,
                )
            }
        },
    }
}

fn failed(message: &str) -> (r: CallbackStep)
    ensures
        r@ == (CallbackView::Answer { response: error_answer(message@), error: Some(message@) }),
{
    CallbackStep::Answer { response: error_page(message), error: Some(message.to_owned()) }
}

fn without_code() -> (r: CallbackStep)
    ensures
        r@ == (CallbackView::Answer {
            response: error_answer(NO_CODE@ + "."@),
            error: Some(NO_CODE@),
        }),
{
    let shown = text::cat2(NO_CODE, ".");
    CallbackStep::Answer { response: error_page(shown.as_str()), error: Some(NO_CODE.to_owned()) }
}

fn decide(params: &query::QueryParams, expected_state: &str) -> (r: CallbackStep)
    ensures
        r@ == decided(params@, expected_state@),
{
    let matches = match params.get("state") {
        Some(s) => text::same(s, expected_state),
        None => false,
    };
    if !matches {
        return CallbackStep::Answer {
            response: error_page("OAuth state mismatch. Sign-in was rejected."),
            error: Some(STATE_MISMATCH.to_owned()),
        };
    }
    if let Some(code) = params.get("error") {
        let message = oauth_callback_error_message(code, params.get("error_description"));
        return failed(message.as_str());
    }
    match params.get("code") {
        Some(code) => if !text::blank(code) {
            CallbackStep::Exchange { code: code.to_owned() }
        } else {
            without_code()
        },
        None => without_code(),
    }
}

/// Decides on a request of the browser.
pub fn handle_browser_callback(request: &str, expected_state: &str) -> (r: CallbackStep)
    ensures
        r@ == callback(request@, expected_state@),
{
    let (method, target) = match parse_request_line(request) {
        Some(p) => p,
        None => {
            return CallbackStep::Answer {
                response: response(400, "Bad Request", PLAIN_TEXT, "Bad Request"),
                error: Some("Invalid browser callback request".to_owned()),
            };
        },
    };
    if !text::same(method.as_str(), "GET") {
        return CallbackStep::Answer {
            response: response(405, "Method Not Allowed", PLAIN_TEXT, "Method Not Allowed"),
            error: None,
        };
    }
    let (path, found) = split_target(target.as_str());
    if !text::same(path.as_str(), "/auth/callback") {
        return CallbackStep::Answer {
            response: response(404, "Not Found", PLAIN_TEXT, "Not Found"),
            error: None,
        };
    }
    let params = match &found {
        Some(q) => query::parse_query(q.as_str()),
        None => {
            let r = query::parse_query("");
            proof {
                reveal_strlit("");
                assert(""@ =~= Seq::empty());
            }
            r
        },
    };
    decide(&params, expected_state)
}

/// A code is exchanged only where the callback shows the state that was sent and
/// reports no error.
pub proof fn the_state_is_checked(request: Seq<char>, state: Seq<char>)
    requires
        callback(request, state) is Exchange,
    ensures
        ({
            let target = request_line(request)->Some_0.1;
            let query = target_parts(target).1;
            let params = query::map_of(
                query::query_pairs(
                    match query {
                        Some(q) => q,
                        None => Seq::empty(),
                    },
                ),
            );
            &&& request_line(request) is Some
            &&& request_line(request)->Some_0.0 == "GET"@
            &&& target_parts(target).0 == "/auth/callback"@
            &&& query::lookup(params, "state"@) == Some(state)
            &&& query::lookup(params, "error"@) is None
            &&& query::lookup(params, "code"@) == Some(callback(request, state)->code)
            &&& !text::is_blank(callback(request, state)->code)
        }),
{
}

/// The answer to the browser once the code was exchanged, or the exchange failed.
pub fn exchange_answer(error: Option<&str>) -> (r: String)
    ensures
        match error {
            None => r@ == success_answer(),
            Some(e) => r@ == error_answer("Token exchange failed: "@ + e@),
        },
{
    match error {
        None => success_page(),
        Some(e) => {
            let message = text::cat2("Token exchange failed: ", e);
            error_page(message.as_str())
        },
    }
}

/// Whoever reads the address of the login finds each part of it under its own name:
/// where to come back to, what the verifier is held against, the state, and who
/// asks.
pub proof fn the_login_address_holds_each_part(
    issuer: Seq<char>,
    redirect_uri: Seq<char>,
    challenge: Seq<char>,
    state: Seq<char>,
    originator: Seq<char>,
)
    ensures
        ({
            let url = authorize_url(issuer, redirect_uri, challenge, state, originator);
            let front = issuer + "/oauth/authorize?"@;
            let params = query::map_of(query::query_pairs(url.skip(front.len() as int)));
            &&& text::begins_with(url, front)
            &&& query::lookup(params, "response_type"@) == Some("code"@)
            &&& query::lookup(params, "client_id"@) == Some(CLIENT_ID@)
            &&& query::lookup(params, "redirect_uri"@) == Some(redirect_uri)
            &&& query::lookup(params, "scope"@) == Some(OAUTH_SCOPE@)
            &&& query::lookup(params, "code_challenge"@) == Some(challenge)
            &&& query::lookup(params, "code_challenge_method"@) == Some("S256"@)
            &&& query::lookup(params, "id_token_add_organizations"@) == Some("true"@)
            &&& query::lookup(params, "codex_cli_simplified_flow"@) == Some("true"@)
            &&& query::lookup(params, "state"@) == Some(state)
            &&& query::lookup(params, "originator"@) == Some(originator)
        }),
{
    let pairs = authorize_pairs(redirect_uri, challenge, state, originator);
    let url = authorize_url(issuer, redirect_uri, challenge, state, originator);
    let front = issuer + "/oauth/authorize?"@;
    assert(url.subrange(0, front.len() as int) =~= front);
    assert(url.skip(front.len() as int) =~= query::query_of(pairs));
    the_login_address_reads_back(redirect_uri, challenge, state, originator);
    reveal_strlit("response_type");
    reveal_strlit("client_id");
    reveal_strlit("redirect_uri");
    reveal_strlit("scope");
    reveal_strlit("code_challenge");
    reveal_strlit("code_challenge_method");
    reveal_strlit("id_token_add_organizations");
    reveal_strlit("codex_cli_simplified_flow");
    reveal_strlit("state");
    reveal_strlit("originator");
    assert("response_type"@.len() == 13);
    assert("client_id"@.len() == 9);
    assert("redirect_uri"@.len() == 12);
    assert("scope"@.len() == 5);
    assert("code_challenge"@.len() == 14);
    assert("code_challenge_method"@.len() == 21);
    assert("id_token_add_organizations"@.len() == 26);
    assert("codex_cli_simplified_flow"@.len() == 25);
    assert("state"@.len() == 5);
    assert("originator"@.len() == 10);
    assert("scope"@[1] != "state"@[1]);
    query::the_last_value_counts(pairs, "response_type"@, 0);
    query::the_last_value_counts(pairs, "client_id"@, 1);
    query::the_last_value_counts(pairs, "redirect_uri"@, 2);
    query::the_last_value_counts(pairs, "scope"@, 3);
    query::the_last_value_counts(pairs, "code_challenge"@, 4);
    query::the_last_value_counts(pairs, "code_challenge_method"@, 5);
    query::the_last_value_counts(pairs, "id_token_add_organizations"@, 6);
    query::the_last_value_counts(pairs, "codex_cli_simplified_flow"@, 7);
    query::the_last_value_counts(pairs, "state"@, 8);
    query::the_last_value_counts(pairs, "originator"@, 9);
}

/// The codes of a login go together: the verifier is the bytes in Base64, and the
/// challenge is what is held against it, so that other bytes make another verifier.
pub proof fn codes_go_together(a: PkceCodes, b: PkceCodes, x: Seq<u8>, y: Seq<u8>)
    requires
        is_pkce(a, x),
        is_pkce(b, y),
    ensures
        a.code_challenge@ == challenge_of(a.code_verifier@),
        a.code_verifier@ == b.code_verifier@ ==> x == y,
        x == y ==> a.code_verifier@ == b.code_verifier@ && a.code_challenge@ == b.code_challenge@,
{
    if a.code_verifier@ == b.code_verifier@ {
        encoding::base64url_keeps_apart(x, y);
    }
}

/// A callback that shows the state and a code, and no error, leads to the exchange
/// of that very code.
pub proof fn good_callbacks_are_exchanged(
    params: Map<Seq<char>, Seq<char>>,
    state: Seq<char>,
    code: Seq<char>,
)
    requires
        query::lookup(params, "state"@) == Some(state),
        query::lookup(params, "error"@) is None,
        query::lookup(params, "code"@) == Some(code),
        !text::is_blank(code),
    ensures
        decided(params, state) == (CallbackView::Exchange { code }),
{
}

/// A callback without the state is turned down, whatever else it shows; one that
/// reports an error ends the login with that error and what it says of it.
pub proof fn bad_callbacks_end_the_login(params: Map<Seq<char>, Seq<char>>, state: Seq<char>)
    ensures
        query::lookup(params, "state"@) != Some(state) ==> (decided(params, state)
            matches CallbackView::Answer { error: Some(m), .. } && m == "OAuth state mismatch"@),
        query::lookup(params, "state"@) == Some(state) && query::lookup(params, "error"@) is Some
            ==> (decided(params, state) matches CallbackView::Answer { error: Some(m), .. }
            && text::begins_with(m, query::lookup(params, "error"@)->Some_0)),
        query::lookup(params, "state"@) == Some(state) && query::lookup(params, "error"@) is None && (
        query::lookup(params, "code"@) is None || text::is_blank(
            query::lookup(params, "code"@)->Some_0,
        )) ==> (decided(params, state) matches CallbackView::Answer { error: Some(_), .. }),
{
    if query::lookup(params, "error"@) is Some {
        let code = query::lookup(params, "error"@)->Some_0;
        let m = callback_error(code, query::lookup(params, "error_description"@));
        assert(m.subrange(0, code.len() as int) =~= code);
    }
}

/// An error is told with its description, where there is one that says something.
pub proof fn errors_are_told_with_their_description(code: Seq<char>, said: Seq<char>)
    ensures
        !text::is_blank(said) ==> callback_error(code, Some(said)) == code + ": "@ + said,
        text::is_blank(said) ==> callback_error(code, Some(said)) == code,
        callback_error(code, None) == code,
{
}

/// Requests for anything else than the callback are answered, and the login goes on
/// waiting.
pub proof fn other_requests_do_not_end_the_login(request: Seq<char>, state: Seq<char>)
    ensures
        request_line(request) matches Some(line) ==> (line.0 != "GET"@ || target_parts(line.1).0
            != "/auth/callback"@) ==> (callback(request, state) matches CallbackView::Answer {
            error: None,
            ..
        }),
        request_line(request) matches Some(line) ==> line.0 == "GET"@ && target_parts(line.1).0
            == "/auth/callback"@ && target_parts(line.1).1 is Some ==> callback(request, state)
            == decided(
            query::map_of(query::query_pairs(target_parts(line.1).1->Some_0)),
            state,
        ),
        request_line(request) is None ==> (callback(request, state) matches CallbackView::Answer {
            error: Some(_),
            ..
        }),
{
}

/// The path of a target is what stands before the first question mark, the query what
/// follows it.
pub proof fn targets_are_cut_at_the_query(target: Seq<char>)
    ensures
        ({
            let parts = target_parts(target);
            &&& !parts.0.contains('?')
            &&& parts.1 is None ==> parts.0 == target
            &&& parts.1 matches Some(q) ==> target == parts.0 + seq!['?'] + q
        }),
{
    text::cuts_are_at_the_first(target, '?');
}

/// An answer to the browser tells its status first, then the length of its body in
/// bytes, and ends with the body, behind an empty line.
pub proof fn answers_are_complete(
    status: nat,
    reason: Seq<char>,
    content_type: Seq<char>,
    body: Seq<char>,
)
    ensures
        ({
            let r = response_text(status, reason, content_type, body);
            &&& text::begins_with(r, "HTTP/1.1 "@ + text::decimal(status) + " "@ + reason)
            &&& text::finishes_with(r, body)
            &&& text::has_text(
                r,
                "\r\nContent-Length: "@ + text::decimal(
                    vstd::utf8::encode_utf8(body).len() as usize as nat,
                ) + "\r\nConnection: close\r\n\r\n"@,
            )
            &&& text::has_text(r, "\r\nContent-Type: "@ + content_type)
        }),
{
    let r = response_text(status, reason, content_type, body);
    let head = "HTTP/1.1 "@ + text::decimal(status) + " "@ + reason;
    let kind = "\r\nContent-Type: "@ + content_type;
    let length = "\r\nContent-Length: "@ + text::decimal(
        vstd::utf8::encode_utf8(body).len() as usize as nat,
    ) + "\r\nConnection: close\r\n\r\n"@;
    assert(r =~= head + kind + length + body);
    assert(r.subrange(0, head.len() as int) =~= head);
    assert(r.subrange(r.len() - body.len(), r.len() as int) =~= body);
    let a = head.len() as int;
    assert(r.subrange(a, a + kind.len()) =~= kind);
    assert(text::occurs_at(r, kind, a));
    let b = a + kind.len();
    assert(r.subrange(b, b + length.len()) =~= length);
    assert(text::occurs_at(r, length, b));
}

/// The browser is told of success with 200 and of a failure with 400.
pub proof fn statuses_tell_the_outcome(message: Seq<char>)
    ensures
        success_answer() == response_text(200, "OK"@, HTML@, SUCCESS_PAGE@),
        exists|body: Seq<char>| error_answer(message) == #[trigger] response_text(
            400,
            "Bad Request"@,
            HTML@,
            body,
        ) && text::has_text(body, escaped(message)),
{
    let body = ERROR_PAGE_START@ + escaped(message) + ERROR_PAGE_END@;
    let n = ERROR_PAGE_START@.len() as int;
    assert(body.subrange(n, n + escaped(message).len()) =~= escaped(message));
    assert(text::occurs_at(body, escaped(message), n));
    assert(error_answer(message) == response_text(400, "Bad Request"@, HTML@, body));
}

/// A text without markup stands in a page as it is.
pub proof fn plain_text_is_not_escaped(s: Seq<char>)
    requires
        forall|i: int|
            0 <= i < s.len() ==> (#[trigger] s[i]) != '&' && s[i] != '<' && s[i] != '>' && s[i] != '"'
                && s[i] != '\'',
    ensures
        escaped(s) == s,
    decreases s.len(),
{
    if s.len() > 0 {
        plain_text_is_not_escaped(s.drop_last());
        assert(s =~= s.drop_last() + seq![s.last()]);
        assert(s[s.len() - 1] == s.last());
    } else {
        assert(escaped(s) =~= s);
    }
}

/// A request is complete once its headers end, or the browser sends no more; one that
/// grows too long before that is given up.
pub proof fn requests_are_read_to_the_end_of_headers(r: ReadStep, request: Seq<u8>, ended: bool)
    requires
        is_read_step(r, request, ended),
    ensures
        r is Complete <==> request.len() > 0 && (ended || headers_end(request)),
        r is More <==> !ended && !headers_end(request) && request.len() < 16_384,
        r matches ReadStep::Complete(s) ==> s@ == encoding::text_of(request),
{
}

/// A port that is in use leads to the other one, once; what fails on that, or fails
/// otherwise, ends the login.
pub proof fn the_other_port_is_tried_once(r: BindStep, is_fallback: bool, outcome: BindOutcome)
    requires
        is_bind_step(r, is_fallback, outcome),
    ensures
        r is Listening <==> outcome is Bound,
        r is Fallback <==> outcome is InUse && !is_fallback,
        r is Stop <==> outcome is Failed || (outcome is InUse && is_fallback),
{
}

/// The browser comes back to the path that the callback is awaited at.
pub proof fn the_browser_comes_back(port: u16, r: String)
    requires
        call_ensures(browser_redirect_uri, (port,), r),
    ensures
        text::begins_with(r@, "http://localhost:"@ + text::decimal(port as nat)),
        text::finishes_with(r@, "/auth/callback"@),
{
    let head = "http://localhost:"@ + text::decimal(port as nat);
    let path = "/auth/callback"@;
    assert(r@.subrange(0, head.len() as int) =~= head);
    assert(r@.subrange(r@.len() - path.len(), r@.len() as int) =~= path);
}

/// The headers end with an empty line: two line ends, each of a carriage return and a
/// line feed.
pub proof fn headers_end_with_an_empty_line(before: Seq<u8>, behind: Seq<u8>, request: Seq<u8>)
    ensures
        headers_end(before + seq![13u8, 10u8, 13u8, 10u8] + behind),
        headers_end(request) ==> exists|i: int|
            0 <= i && i + 4 <= request.len() && #[trigger] request.subrange(i, i + 4) == seq![
                13u8,
                10u8,
                13u8,
                10u8,
            ],
{
    let all = before + seq![13u8, 10u8, 13u8, 10u8] + behind;
    assert(headers_end_at(all, before.len() as int));
    if headers_end(request) {
        let i = choose|i: int| #[trigger] headers_end_at(request, i);
        assert(request.subrange(i, i + 4) =~= seq![13u8, 10u8, 13u8, 10u8]);
    }
}

/// No character that has a meaning in a page is left in a text that stands there, and
/// each has its own name.
pub proof fn marks_are_escaped(c: char, i: int)
    requires
        0 <= i < escaped_char(c).len(),
    ensures
        escaped_char(c)[i] != '<' && escaped_char(c)[i] != '>' && escaped_char(c)[i] != '"'
            && escaped_char(c)[i] != '\'',
        escaped_char('&') == "&amp;"@,
        escaped_char('<') == "&lt;"@,
        escaped_char('>') == "&gt;"@,
        escaped_char('"') == "&quot;"@,
        escaped_char('\'') == "&#39;"@,
{
    reveal_strlit("&amp;");
    reveal_strlit("&lt;");
    reveal_strlit("&gt;");
    reveal_strlit("&quot;");
    reveal_strlit("&#39;");
}

/// The method and the target of a request are the first two words of its first line;
/// without both it has neither.
pub proof fn the_first_line_has_the_target(request: Seq<char>)
    ensures
        text::lines_of(request).len() > 0 && text::words_of(text::lines_of(request)[0]).len() >= 2
            ==> request_line(request) == Some(
            (
                text::words_of(text::lines_of(request)[0])[0],
                text::words_of(text::lines_of(request)[0])[1],
            ),
        ),
        text::lines_of(request).len() == 0 ==> request_line(request) is None,
        text::lines_of(request).len() > 0 && text::words_of(text::lines_of(request)[0]).len() < 2
            ==> request_line(request) is None,
{
}

} // verus!
