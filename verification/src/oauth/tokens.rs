//! Codes for other devices, and exchanging codes for tokens.
use crate::accounts::{AuthData, AuthMode, NewChatGptAccount, StoredAccount, Timestamp};
use crate::auth_json;
use crate::json;
use crate::json::{Json, JsonModel};
use crate::oauth::{
    CLIENT_ID, DEFAULT_DEVICE_AUTH_POLL_INTERVAL_SECS, DEVICE_AUTH_TIMEOUT_NANOS,
};
use crate::query;
use crate::record;
use crate::record::RecordView;
use crate::text;
use crate::url;
use vstd::prelude::*;

verus! {

pub struct TokenResponse {
    pub id_token: String,
    pub access_token: String,
    pub refresh_token: String,
}

pub struct DeviceCode {
    pub verification_url: String,
    pub user_code: String,
    pub device_auth_id: String,
    /// The pause between two questions, in seconds.
    pub interval: u64,
}

pub struct CodeSuccessResponse {
    pub authorization_code: String,
    pub code_verifier: String,
}

// ---------------------------------------------------------------------------
// Asking for a code
// ---------------------------------------------------------------------------

pub open spec fn normalized(seconds: int) -> int {
    if seconds == 0 {
        DEFAULT_DEVICE_AUTH_POLL_INTERVAL_SECS as int
    } else {
        seconds
    }
}

pub fn normalize_poll_interval(seconds: u64) -> (r: u64)
    ensures
        r as int == normalized(seconds as int),
{
    if seconds == 0 {
        DEFAULT_DEVICE_AUTH_POLL_INTERVAL_SECS
    } else {
        seconds
    }
}

/// What a text or a number says as an interval.
pub open spec fn seconds_in(s: Seq<char>) -> Option<int> {
    match text::unsigned_value(s) {
        Some(n) => if n <= u64::MAX {
            Some(n)
        } else {
            None
        },
        None => None,
    }
}

/// The interval that a server asks for: a number, or a text that is one. The
/// outer `None` is for anything else.
pub open spec fn interval_of(m: Option<JsonModel>) -> Option<int> {
    match m {
        None => Some(0),
        Some(JsonModel::Null) => Some(0),
        Some(JsonModel::Text(s)) => match seconds_in(text::trimmed(s)) {
            Some(n) => Some(normalized(n)),
            None => None,
        },
        Some(JsonModel::Number(s)) => match seconds_in(s) {
            Some(n) => Some(normalized(n)),
            None => None,
        },
        Some(_) => None,
    }
}

pub open spec fn is_interval(r: Option<u64>, m: Option<JsonModel>) -> bool {
    match r {
        Some(n) => interval_of(m) == Some(n as int),
        None => interval_of(m) is None,
    }
}

pub fn deserialize_interval(value: Option<&Json>) -> (r: Option<u64>)
    ensures
        forall|m: Option<JsonModel>| #[trigger] json::is_value(value, m) ==> is_interval(r, m),
{
    match value {
        None => Some(0),
        Some(Json::Null) => Some(0),
        Some(Json::Text(s)) => {
            let t = text::trim(s.as_str());
            match text::parse_u64(t.as_str()) {
                Some(n) => Some(normalize_poll_interval(n)),
                None => None,
            }
        },
        Some(Json::Number(s)) => match text::parse_u64(s.as_str()) {
            Some(n) => Some(normalize_poll_interval(n)),
            None => None,
        },
        Some(_) => None,
    }
}

pub struct DeviceCodeView {
    pub verification_url: Seq<char>,
    pub user_code: Seq<char>,
    pub device_auth_id: Seq<char>,
    pub interval: int,
}

impl View for DeviceCode {
    type V = DeviceCodeView;

    open spec fn view(&self) -> DeviceCodeView {
        DeviceCodeView {
            verification_url: self.verification_url@,
            user_code: self.user_code@,
            device_auth_id: self.device_auth_id@,
            interval: self.interval as int,
        }
    }
}

/// The code that a server hands out. The code for the user has two names.
pub open spec fn device_code_of(r: RecordView, issuer: Seq<char>) -> Option<DeviceCodeView> {
    let interval = match record::value_of(
        record::slot_of(r, "interval"@, "interval"@, 2),
    ) {
        Some(m) => interval_of(m),
        None => None,
    };
    match (
        record::text_at(record::slot_of(r, "device_auth_id"@, "device_auth_id"@, 0)),
        record::text_at(record::slot_of(r, "user_code"@, "usercode"@, 1)),
        interval,
    ) {
        (Some(device_auth_id), Some(user_code), Some(interval)) => Some(
            DeviceCodeView {
                verification_url: issuer + "/codex/device"@,
                user_code,
                device_auth_id,
                interval: normalized(interval),
            },
        ),
        _ => None,
    }
}

pub const NO_DEVICE_LOGIN: &'static str = "device code login is not enabled for this Codex server. Use a newer Codex-compatible auth server.";

pub const UNREADABLE_DEVICE_CODE: &'static str = "Failed to parse device code response";

/// What a server answered: its status, as a number and as a text, and the body.
pub struct Reply {
    pub status: u16,
    pub status_shown: String,
    pub body: String,
}

impl Reply {
    pub open spec fn is_success(&self) -> bool {
        200 <= self.status < 300
    }

    pub fn success(&self) -> (r: bool)
        ensures
            r == self.is_success(),
    {
        200 <= self.status && self.status < 300
    }
}

/// `what` with the status and the body of a reply.
pub open spec fn refusal(what: Seq<char>, reply: Reply) -> Seq<char> {
    what + reply.status_shown@ + ": "@ + reply.body@
}

/// The body of the request for a code.
pub fn user_code_request() -> (r: String)
    ensures
        r@ == json::rendered(
            JsonModel::Object(seq![("client_id"@, JsonModel::Text(CLIENT_ID@))]),
        ),
{
    json::object1("client_id", json::text_value(CLIENT_ID)).render()
}

pub open spec fn device_code_result(reply: Reply, issuer: Seq<char>) -> Result<
    DeviceCodeView,
    Seq<char>,
> {
    if reply.is_success() {
        match record::read_as(reply.body@, 3) {
            Some(r) => match device_code_of(r, issuer) {
                Some(c) => Ok(c),
                None => Err(UNREADABLE_DEVICE_CODE@),
            },
            None => Err(UNREADABLE_DEVICE_CODE@),
        }
    } else if reply.status == 404 {
        Err(NO_DEVICE_LOGIN@)
    } else {
        Err(refusal("device code request failed with status "@, reply))
    }
}

pub fn device_code_reply(reply: &Reply, issuer: &str) -> (r: Result<DeviceCode, String>)
    ensures
        match r {
            Ok(c) => device_code_result(*reply, issuer@) == Ok::<DeviceCodeView, Seq<char>>(c@),
            Err(m) => device_code_result(*reply, issuer@) == Err::<DeviceCodeView, Seq<char>>(m@),
        },
{
    if !reply.success() {
        if reply.status == 404 {
            return Err(NO_DEVICE_LOGIN.to_owned());
        }
        return Err(
            text::cat4(
                "device code request failed with status ",
                reply.status_shown.as_str(),
                ": ",
                reply.body.as_str(),
            ),
        );
    }
    match record::read_record(reply.body.as_str(), 3) {
        Some(found) => {
            let id = found.text("device_auth_id", "device_auth_id", 0);
            let code = found.text("user_code", "usercode", 1);
            let value = found.value("interval", "interval", 2);
            let interval = match &value {
                Some(v) => deserialize_interval(v.as_ref()),
                None => None,
            };
            proof {
                let expected = record::value_of(
                    record::slot_of(found@, "interval"@, "interval"@, 2),
                );
                if let Some(v) = &value {
                    let given = match v {
                        Some(j) => Some(j),
                        None => None,
                    };
                    assert(json::is_value(given, expected->Some_0));
                }
            }
            match (id, code, interval) {
                (Some(id), Some(user_code), Some(interval)) => Ok(
                    DeviceCode {
                        verification_url: text::cat2(issuer, "/codex/device"),
                        user_code,
                        device_auth_id: id,
                        interval: normalize_poll_interval(interval),
                    },
                ),
                _ => Err(UNREADABLE_DEVICE_CODE.to_owned()),
            }
        },
        None => Err(UNREADABLE_DEVICE_CODE.to_owned()),
    }
}

/// A server is never asked without a pause.
pub proof fn questions_keep_apart(reply: Reply, issuer: Seq<char>)
    ensures
        device_code_result(reply, issuer) matches Ok(c) ==> c.interval > 0,
{
    if reply.is_success() && record::read_as(reply.body@, 3) is Some {
        let slot = record::slot_of(
            record::read_as(reply.body@, 3)->Some_0,
            "interval"@,
            "interval"@,
            2,
        );
        if let Some(Some(m)) = record::value_of(slot) {
            match m {
                JsonModel::Text(s) => {
                    text::unsigned_value_is_not_negative(text::trimmed(s));
                },
                JsonModel::Number(s) => {
                    text::unsigned_value_is_not_negative(s);
                },
                _ => {},
            }
        }
    }
}

// ---------------------------------------------------------------------------
// Waiting for the user
// ---------------------------------------------------------------------------

/// The body of the question whether the user has entered the code.
pub fn token_poll_request(code: &DeviceCode) -> (r: String)
    ensures
        r@ == json::rendered(
            JsonModel::Object(
                seq![
                    ("device_auth_id"@, JsonModel::Text(code.device_auth_id@)),
                    ("user_code"@, JsonModel::Text(code.user_code@)),
                ],
            ),
        ),
{
    json::object2(
        "device_auth_id",
        json::text_value(code.device_auth_id.as_str()),
        "user_code",
        json::text_value(code.user_code.as_str()),
    ).render()
}

pub enum PollStep {
    /// The user has entered the code.
    Authorized(CodeSuccessResponse),
    /// Ask again after so many nanoseconds.
    Wait(u128),
    Stop(String),
}

pub const DEVICE_TIMED_OUT: &'static str = "device auth timed out after 15 minutes";

pub const UNREADABLE_AUTHORIZATION: &'static str = "Failed to parse device authorization response";

/// The code and the verifier that a server hands out.
pub open spec fn authorization_of(body: Seq<char>) -> Option<(Seq<char>, Seq<char>)> {
    match record::read_as(body, 3) {
        Some(r) => match (
            record::text_at(record::slot_of(r, "authorization_code"@, "authorization_code"@, 0)),
            record::text_at(record::slot_of(r, "code_verifier"@, "code_verifier"@, 1)),
            record::text_at(record::slot_of(r, "code_challenge"@, "code_challenge"@, 2)),
        ) {
            (Some(code), Some(verifier), Some(_)) => Some((code, verifier)),
            _ => None,
        },
        None => None,
    }
}

pub open spec fn smaller(a: int, b: int) -> int {
    if a <= b {
        a
    } else {
        b
    }
}

/// How long to wait: the interval, but not beyond the end.
pub open spec fn pause(interval: int, elapsed: int) -> int {
    smaller(
        interval * 1_000_000_000,
        if elapsed >= DEVICE_AUTH_TIMEOUT_NANOS {
            0
        } else {
            DEVICE_AUTH_TIMEOUT_NANOS - elapsed
        },
    )
}

pub open spec fn is_poll_step(
    r: PollStep,
    reply: Reply,
    interval: int,
    checked: int,
    elapsed: int,
) -> bool {
    if reply.is_success() {
        match authorization_of(reply.body@) {
            Some((code, verifier)) => r matches PollStep::Authorized(a) && a.authorization_code@
                == code && a.code_verifier@ == verifier,
            None => r matches PollStep::Stop(m) && m@ == UNREADABLE_AUTHORIZATION@,
        }
    } else if reply.status == 403 || reply.status == 404 {
        if checked >= DEVICE_AUTH_TIMEOUT_NANOS {
            r matches PollStep::Stop(m) && m@ == DEVICE_TIMED_OUT@
        } else {
            r matches PollStep::Wait(n) && n as int == pause(interval, elapsed)
        }
    } else {
        r matches PollStep::Stop(m) && m@ == refusal("device auth failed with status "@, reply)
    }
}

fn read_authorization(body: &str) -> (r: Option<CodeSuccessResponse>)
    ensures
        match r {
            Some(a) => authorization_of(body@) == Some((a.authorization_code@, a.code_verifier@)),
            None => authorization_of(body@) is None,
        },
{
    match record::read_record(body, 3) {
        Some(found) => {
            let code = found.text("authorization_code", "authorization_code", 0);
            let verifier = found.text("code_verifier", "code_verifier", 1);
            let challenge = found.text("code_challenge", "code_challenge", 2);
            match (code, verifier, challenge) {
                (Some(authorization_code), Some(code_verifier), Some(_)) => Some(
                    CodeSuccessResponse { authorization_code, code_verifier },
                ),
                _ => None,
            }
        },
        None => None,
    }
}

/// What follows the answer to a question. `checked` and `elapsed` are how long the
/// login has taken, in nanoseconds, when the end is tested and when the pause is
/// computed.
pub fn poll_step(reply: &Reply, interval: u64, checked: u128, elapsed: u128) -> (r: PollStep)
    ensures
        is_poll_step(r, *reply, interval as int, checked as int, elapsed as int),
{
    if reply.success() {
        return match read_authorization(reply.body.as_str()) {
            Some(a) => PollStep::Authorized(a),
            None => PollStep::Stop(UNREADABLE_AUTHORIZATION.to_owned()),
        };
    }
    if reply.status == 403 || reply.status == 404 {
        if checked >= DEVICE_AUTH_TIMEOUT_NANOS {
            return PollStep::Stop(DEVICE_TIMED_OUT.to_owned());
        }
        let left: u128 = if elapsed >= DEVICE_AUTH_TIMEOUT_NANOS {
            0
        } else {
            DEVICE_AUTH_TIMEOUT_NANOS - elapsed
        };
        let wanted: u128 = interval as u128 * 1_000_000_000;
        return PollStep::Wait(
            if wanted <= left {
                wanted
            } else {
                left
            },
        );
    }
    PollStep::Stop(
        text::cat4(
            "device auth failed with status ",
            reply.status_shown.as_str(),
            ": ",
            reply.body.as_str(),
        ),
    )
}

// ---------------------------------------------------------------------------
// Tokens
// ---------------------------------------------------------------------------

pub open spec fn exchange_form(code: Seq<char>, redirect_uri: Seq<char>, verifier: Seq<char>) -> Seq<
    char,
> {
    "grant_type=authorization_code&code="@ + url::encoded(code) + "&redirect_uri="@ + url::encoded(
        redirect_uri,
    ) + ("&client_id="@ + url::encoded(CLIENT_ID@) + "&code_verifier="@ + url::encoded(verifier))
}

/// The form that is sent to exchange a code for tokens.
pub fn exchange_body(authorization_code: &str, redirect_uri: &str, code_verifier: &str) -> (r:
    String)
    ensures
        r@ == exchange_form(authorization_code@, redirect_uri@, code_verifier@),
{
    let code = url::encode(authorization_code);
    let uri = url::encode(redirect_uri);
    let client = url::encode(CLIENT_ID);
    let verifier = url::encode(code_verifier);
    let first = text::cat4(
        "grant_type=authorization_code&code=",
        code.as_str(),
        "&redirect_uri=",
        uri.as_str(),
    );
    let second = text::cat4(
        "&client_id=",
        client.as_str(),
        "&code_verifier=",
        verifier.as_str(),
    );
    text::cat2(first.as_str(), second.as_str())
}

pub struct TokenView {
    pub id_token: Seq<char>,
    pub access_token: Seq<char>,
    pub refresh_token: Seq<char>,
}

impl View for TokenResponse {
    type V = TokenView;

    open spec fn view(&self) -> TokenView {
        TokenView {
            id_token: self.id_token@,
            access_token: self.access_token@,
            refresh_token: self.refresh_token@,
        }
    }
}

pub const UNREADABLE_TOKENS: &'static str = "Failed to parse token response";

pub open spec fn tokens_in(body: Seq<char>) -> Option<TokenView> {
    match record::read_as(body, 3) {
        Some(r) => match (
            record::text_at(record::slot_of(r, "id_token"@, "id_token"@, 0)),
            record::text_at(record::slot_of(r, "access_token"@, "access_token"@, 1)),
            record::text_at(record::slot_of(r, "refresh_token"@, "refresh_token"@, 2)),
        ) {
            (Some(id_token), Some(access_token), Some(refresh_token)) => Some(
                TokenView { id_token, access_token, refresh_token },
            ),
            _ => None,
        },
        None => None,
    }
}

fn read_tokens(body: &str) -> (r: Option<TokenResponse>)
    ensures
        match r {
            Some(t) => tokens_in(body@) == Some(t@),
            None => tokens_in(body@) is None,
        },
{
    match record::read_record(body, 3) {
        Some(found) => {
            let id = found.text("id_token", "id_token", 0);
            let access = found.text("access_token", "access_token", 1);
            let refresh = found.text("refresh_token", "refresh_token", 2);
            match (id, access, refresh) {
                (Some(id_token), Some(access_token), Some(refresh_token)) => Some(
                    TokenResponse { id_token, access_token, refresh_token },
                ),
                _ => None,
            }
        },
        None => None,
    }
}

/// The tokens in the answer to an exchange.
pub fn exchange_reply(reply: &Reply) -> (r: Result<TokenResponse, String>)
    ensures
        match r {
            Ok(t) => reply.is_success() && tokens_in(reply.body@) == Some(t@),
            Err(m) => if reply.is_success() {
                tokens_in(reply.body@) is None && m@ == UNREADABLE_TOKENS@
            } else {
                m@ == refusal("token endpoint returned status "@, *reply)
            },
        },
{
    if !reply.success() {
        return Err(
            text::cat4(
                "token endpoint returned status ",
                reply.status_shown.as_str(),
                ": ",
                reply.body.as_str(),
            ),
        );
    }
    match read_tokens(reply.body.as_str()) {
        Some(t) => Ok(t),
        None => Err(UNREADABLE_TOKENS.to_owned()),
    }
}

/// The account is the one that the tokens describe.
pub open spec fn is_logged_in(
    account: StoredAccount,
    name: Seq<char>,
    tokens: TokenView,
    id: Seq<char>,
    now: Timestamp,
) -> bool {
    let c = auth_json::claims_or_none(tokens.id_token);
    &&& account.id@ == id
    &&& account.name@ == name
    &&& account.created_at == now
    &&& account.last_used_at is None
    &&& !account.auto_switch_disabled
    &&& account.auth_mode == AuthMode::ChatGPT
    &&& account.auth_data matches AuthData::ChatGPT {
        id_token,
        access_token,
        refresh_token,
        account_id,
    } && id_token@ == tokens.id_token && access_token@ == tokens.access_token && refresh_token@
        == tokens.refresh_token && text::opt_view(account_id) == c.account_id
    &&& account.token_last_refresh_at == Some(now)
    &&& text::opt_view(account.email) == c.email
    &&& text::opt_view(account.plan_type) == c.plan_type
    &&& text::opt_view(account.chatgpt_user_id) == c.user_id
    &&& account.chatgpt_account_is_fedramp == c.account_is_fedramp
    &&& account.subscription_expires_at == c.subscription_expires_at
}

pub fn stored_account_from_tokens(
    account_name: String,
    tokens: TokenResponse,
    id: String,
    now: Timestamp,
) -> (r: StoredAccount)
    ensures
        is_logged_in(r, account_name@, tokens@, id@, now),
{
    let claims = auth_json::parse_chatgpt_id_token_claims(tokens.id_token.as_str());
    StoredAccount::new_chatgpt(
        id,
        NewChatGptAccount {
            name: account_name,
            email: claims.email,
            plan_type: claims.plan_type,
            chatgpt_user_id: claims.user_id,
            chatgpt_account_is_fedramp: claims.account_is_fedramp,
            token_last_refresh_at: now,
            subscription_expires_at: claims.subscription_expires_at,
            id_token: tokens.id_token,
            access_token: tokens.access_token,
            refresh_token: tokens.refresh_token,
            account_id: claims.account_id,
        },
        now,
    )
}

// ---------------------------------------------------------------------------
// What the user is told
// ---------------------------------------------------------------------------

/// What is printed for a login with another device.
pub fn device_code_prompt(code: &DeviceCode) -> (r: String)
    ensures
        r@
            == "ChatGPT device authorization\n\n1. Open this link in your browser:\n   "@
            + code.verification_url@
            + "\n\n2. Enter this one-time code, expires in 15 minutes:\n   "@ + code.user_code@
            + "\n\nWaiting for authorization...\n"@,
{
    text::cat5(
        "ChatGPT device authorization\n\n1. Open this link in your browser:\n   ",
        code.verification_url.as_str(),
        "\n\n2. Enter this one-time code, expires in 15 minutes:\n   ",
        code.user_code.as_str(),
        "\n\nWaiting for authorization...\n",
    )
}

/// What is printed for a login through a browser.
pub fn browser_login_prompt(port: u16, auth_url: &str) -> (r: String)
    ensures
        r@ == "Starting local login server on http://localhost:"@ + text::decimal(port as nat)
            + ".\nIf your browser did not open, open this URL:\n\n"@ + auth_url@
            + "\n\nWaiting for authorization...\n"@,
{
    let shown = text::number(port as u64);
    text::cat5(
        "Starting local login server on http://localhost:",
        shown.as_str(),
        ".\nIf your browser did not open, open this URL:\n\n",
        auth_url,
        "\n\nWaiting for authorization...\n",
    )
}

// ---------------------------------------------------------------------------
// Laws
// ---------------------------------------------------------------------------

/// Whoever reads the form of an exchange finds the code, the verifier, and where the
/// browser came back to, each under its own name.
pub proof fn the_exchange_holds_each_part(
    code: Seq<char>,
    redirect_uri: Seq<char>,
    verifier: Seq<char>,
)
    ensures
        ({
            let params = query::map_of(
                query::query_pairs(exchange_form(code, redirect_uri, verifier)),
            );
            &&& query::lookup(params, "grant_type"@) == Some("authorization_code"@)
            &&& query::lookup(params, "code"@) == Some(code)
            &&& query::lookup(params, "redirect_uri"@) == Some(redirect_uri)
            &&& query::lookup(params, "client_id"@) == Some(CLIENT_ID@)
            &&& query::lookup(params, "code_verifier"@) == Some(verifier)
        }),
{
    let pairs = seq![
        ("grant_type"@, "authorization_code"@),
        ("code"@, code),
        ("redirect_uri"@, redirect_uri),
        ("client_id"@, CLIENT_ID@),
        ("code_verifier"@, verifier),
    ];
    reveal_strlit("grant_type");
    reveal_strlit("code");
    reveal_strlit("redirect_uri");
    reveal_strlit("client_id");
    reveal_strlit("code_verifier");
    assert("grant_type"@.len() == 10);
    assert("code"@.len() == 4);
    assert("redirect_uri"@.len() == 12);
    assert("client_id"@.len() == 9);
    assert("code_verifier"@.len() == 13);
    reveal_strlit("authorization_code");
    reveal_strlit("grant_type=authorization_code&code=");
    reveal_strlit("&redirect_uri=");
    reveal_strlit("&client_id=");
    reveal_strlit("&code_verifier=");
    reveal_strlit("=");
    reveal_strlit("&");
    plain_value("authorization_code"@);
    query::plain_texts_stay("authorization_code"@);
    let texts = query::pair_texts(pairs);
    assert(texts[0] =~= "grant_type=authorization_code"@) by {
        reveal_strlit("grant_type=authorization_code");
    }
    let a = "grant_type"@ + "="@ + url::encoded("authorization_code"@);
    let b = "code"@ + "="@ + url::encoded(code);
    let c = "redirect_uri"@ + "="@ + url::encoded(redirect_uri);
    let d = "client_id"@ + "="@ + url::encoded(CLIENT_ID@);
    let e = "code_verifier"@ + "="@ + url::encoded(verifier);
    assert(texts =~= seq![a, b, c, d, e]);
    let t4 = texts.drop_last();
    let t3 = t4.drop_last();
    let t2 = t3.drop_last();
    let t1 = t2.drop_last();
    assert(t4 =~= seq![a, b, c, d] && t3 =~= seq![a, b, c] && t2 =~= seq![a, b] && t1 =~= seq![a]);
    assert(text::joined(t1, "&"@) == a);
    assert(text::joined(t2, "&"@) == a + "&"@ + b);
    assert(text::joined(t3, "&"@) == a + "&"@ + b + "&"@ + c);
    assert(text::joined(t4, "&"@) == a + "&"@ + b + "&"@ + c + "&"@ + d);
    assert(text::joined(texts, "&"@) == a + "&"@ + b + "&"@ + c + "&"@ + d + "&"@ + e);
    assert("grant_type=authorization_code&code="@ =~= a + "&"@ + "code"@ + "="@);
    assert("&redirect_uri="@ =~= "&"@ + "redirect_uri"@ + "="@);
    assert("&client_id="@ =~= "&"@ + "client_id"@ + "="@);
    assert("&code_verifier="@ =~= "&"@ + "code_verifier"@ + "="@);
    assert(exchange_form(code, redirect_uri, verifier) =~= query::query_of(pairs));
    plain_value("grant_type"@);
    plain_value("code"@);
    plain_value("redirect_uri"@);
    plain_value("client_id"@);
    plain_value("code_verifier"@);
    query::queries_read_back(pairs);
    query::the_last_value_counts(pairs, "grant_type"@, 0);
    query::the_last_value_counts(pairs, "code"@, 1);
    query::the_last_value_counts(pairs, "redirect_uri"@, 2);
    query::the_last_value_counts(pairs, "client_id"@, 3);
    query::the_last_value_counts(pairs, "code_verifier"@, 4);
}

proof fn plain_value(s: Seq<char>)
    requires
        s.len() > 0,
        forall|i: int| 0 <= i < s.len() ==> 'a' <= #[trigger] s[i] <= 'z' || s[i] == '_',
    ensures
        query::is_plain_name(s),
{
    assert forall|i: int| 0 <= i < s.len() implies query::is_plain_char(#[trigger] s[i]) by {
        assert('a' <= s[i] <= 'z' || s[i] == '_');
    }
}

/// Tokens are read key by key from an answer, each under its own name.
pub proof fn tokens_are_read_by_key(body: Seq<char>)
    ensures
        tokens_in(body) matches Some(t) ==> {
            let r = record::read_as(body, 3)->Some_0;
            &&& record::read_as(body, 3) is Some
            &&& record::text_at(record::slot_of(r, "id_token"@, "id_token"@, 0)) == Some(t.id_token)
            &&& record::text_at(record::slot_of(r, "access_token"@, "access_token"@, 1)) == Some(
                t.access_token,
            )
            &&& record::text_at(record::slot_of(r, "refresh_token"@, "refresh_token"@, 2)) == Some(
                t.refresh_token,
            )
        },
{
}

/// An account that was logged in holds each token in its own place, and is what the
/// identity token says.
pub proof fn logins_keep_their_tokens(
    account: StoredAccount,
    name: Seq<char>,
    tokens: TokenView,
    id: Seq<char>,
    now: Timestamp,
)
    requires
        is_logged_in(account, name, tokens, id, now),
    ensures
        account.is_chatgpt(),
        account.auth_data->id_token@ == tokens.id_token,
        account.auth_data->access_token@ == tokens.access_token,
        account.auth_data->refresh_token@ == tokens.refresh_token,
        account.id@ == id && account.name@ == name,
        account.token_last_refresh_at == Some(now) && account.created_at == now,
        auth_json::claims_of(tokens.id_token) matches Some(c) ==> text::opt_view(account.email)
            == c.email && text::opt_view(account.plan_type) == c.plan_type && text::opt_view(
            account.chatgpt_user_id,
        ) == c.user_id && text::opt_view(account.auth_data->account_id) == c.account_id,
{
}

/// A code for another device is read key by key; the user's code goes by either of
/// its names, and the page to open is the server's own.
pub proof fn device_codes_are_read_by_key(r: RecordView, issuer: Seq<char>)
    ensures
        device_code_of(r, issuer) matches Some(c) ==> {
            &&& c.verification_url == issuer + "/codex/device"@
            &&& record::text_at(record::slot_of(r, "device_auth_id"@, "device_auth_id"@, 0))
                == Some(c.device_auth_id)
            &&& record::text_at(record::slot_of(r, "user_code"@, "usercode"@, 1)) == Some(c.user_code)
        },
{
}

/// An interval is what the server asks for, in seconds, as a number or as a text; 5
/// where it asks for none.
pub proof fn intervals_are_what_is_asked_for(n: nat)
    requires
        0 < n <= u64::MAX,
    ensures
        interval_of(Some(JsonModel::Number(text::decimal(n)))) == Some(n as int),
        normalized(0) == 5,
        normalized(n as int) == n,
        interval_of(None) == Some(0int),
        interval_of(Some(JsonModel::Bool(true))) is None,
{
    text::numbers_read_back(n);
}

/// The login ends with the code as soon as the user has entered it; until then the
/// server is asked again, after the interval, and no longer than a quarter of an
/// hour. Every other answer ends the login.
pub proof fn the_user_is_waited_for(
    r: PollStep,
    reply: Reply,
    interval: int,
    checked: int,
    elapsed: int,
)
    requires
        is_poll_step(r, reply, interval, checked, elapsed),
        0 <= interval,
        0 <= elapsed,
    ensures
        r is Authorized <==> 200 <= reply.status < 300 && authorization_of(reply.body@) is Some,
        r is Wait <==> (reply.status == 403 || reply.status == 404) && checked < 900_000_000_000,
        r matches PollStep::Wait(n) ==> {
            &&& elapsed + interval * 1_000_000_000 <= 900_000_000_000 ==> n == interval
                * 1_000_000_000
            &&& elapsed + interval * 1_000_000_000 > 900_000_000_000 && elapsed <= 900_000_000_000
                ==> elapsed + n == 900_000_000_000
            &&& elapsed > 900_000_000_000 ==> n == 0
        },
        r matches PollStep::Authorized(a) ==> authorization_of(reply.body@) == Some(
            (a.authorization_code@, a.code_verifier@),
        ),
{
}

/// What the server hands out once the user has entered the code is read key by key.
pub proof fn authorizations_are_read_by_key(body: Seq<char>)
    ensures
        authorization_of(body) matches Some(a) ==> {
            let r = record::read_as(body, 3)->Some_0;
            &&& record::read_as(body, 3) is Some
            &&& record::text_at(
                record::slot_of(r, "authorization_code"@, "authorization_code"@, 0),
            ) == Some(a.0)
            &&& record::text_at(record::slot_of(r, "code_verifier"@, "code_verifier"@, 1)) == Some(
                a.1,
            )
        },
{
}

} // verus!
