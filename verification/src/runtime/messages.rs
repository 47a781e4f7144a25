//! The messages between Codex, the proxy and the app-server.
use crate::accounts;
use crate::accounts::{AccountsStore, StoredAccount};
use crate::assessment;
use crate::codex_http::CODEX_APP_SERVER_DAEMON_CLIENT_NAME;
use crate::json;
use crate::json::{Json, JsonModel};
use crate::quantity;
use crate::runtime::login::{ExternalAuthPayload, RuntimeClientNotification};
use crate::search;
use crate::selector;
use crate::selector::SelectionConfig;
use crate::text;
use crate::usage;
use crate::usage::{CreditsBalance, UsageInfo, UsageWindowData, UsageWindowKind, UsedPercent};
use vstd::prelude::*;

verus! {

// ---------------------------------------------------------------------------
// Kinds of messages
// ---------------------------------------------------------------------------

/// What travels over a websocket, as far as the proxy looks at it.
pub enum Frame<'a> {
    Text(&'a str),
    Close,
    Other,
}

pub const UNREADABLE_MESSAGE: &'static str = "Failed to parse Codex app-server websocket message";

/// The JSON value of a text message; other messages have none.
pub fn message_json(frame: &Frame) -> (r: Result<Option<Json>, String>)
    ensures
        match *frame {
            Frame::Text(t) => match json::parsed(t@) {
                Some(m) => r matches Ok(Some(j)) && j@ == m,
                None => r matches Err(e) && e@ == UNREADABLE_MESSAGE@,
            },
            _ => r matches Ok(None),
        },
{
    match frame {
        Frame::Text(t) => match json::parse_json(t) {
            Some(j) => Ok(Some(j)),
            None => Err(UNREADABLE_MESSAGE.to_owned()),
        },
        _ => Ok(None),
    }
}

/// The method that a message names.
pub open spec fn method_of(m: JsonModel) -> Option<Seq<char>> {
    json::text_at(json::field(m, "method"@))
}

fn has_method(value: &Json, name: &str) -> (r: bool)
    ensures
        r == (method_of(value@) == Some(name@)),
{
    json::is_text(json::text_in(value.get("method")), name)
}

pub open spec fn is_request(m: JsonModel) -> bool {
    json::field(m, "method"@) is Some && json::field(m, "id"@) is Some
}

pub fn is_jsonrpc_request(value: &Json) -> (r: bool)
    ensures
        r == is_request(value@),
{
    value.get("method").is_some() && value.get("id").is_some()
}

pub const REQUEST_FAILED: &'static str = "Codex app-server request failed";

pub const NO_RESULT: &'static str = "Codex app-server response did not include result";

/// What a response says: success, or what went wrong.
pub open spec fn response_result(m: JsonModel) -> Result<(), Seq<char>> {
    match json::field(m, "error"@) {
        Some(error) => match json::text_at(json::field(error, "message"@)) {
            Some(message) => Err(message),
            None => Err(REQUEST_FAILED@),
        },
        None => if json::field(m, "result"@) is Some {
            Ok(())
        } else {
            Err(NO_RESULT@)
        },
    }
}

pub open spec fn result_view(r: Result<(), String>) -> Result<(), Seq<char>> {
    match r {
        Ok(()) => Ok(()),
        Err(m) => Err(m@),
    }
}

pub fn response_to_result(value: &Json) -> (r: Result<(), String>)
    ensures
        result_view(r) == response_result(value@),
{
    match value.get("error") {
        Some(error) => {
            let message: &str = match json::text_in(error.get("message")) {
                Some(s) => s,
                None => REQUEST_FAILED,
            };
            Err(message.to_owned())
        },
        None => if value.get("result").is_some() {
            Ok(())
        } else {
            Err(NO_RESULT.to_owned())
        },
    }
}

/// An error that tells of a usage limit, by its kind or by its wording.
pub open spec fn is_usage_limit_error(m: JsonModel) -> bool {
    method_of(m) == Some("error"@) && (json::text_at(
        json::field3(m, "params"@, "error"@, "codexErrorInfo"@),
    ) == Some("usageLimitExceeded"@) || match json::text_at(
        json::field3(m, "params"@, "error"@, "message"@),
    ) {
        Some(message) => text::has_text(text::lowered(message), "usage limit"@),
        None => false,
    })
}

pub fn usage_limit_error_requires_switch(value: &Json) -> (r: bool)
    ensures
        r == is_usage_limit_error(value@),
{
    if !has_method(value, "error") {
        return false;
    }
    if json::is_text(
        json::text_in(value.get3("params", "error", "codexErrorInfo")),
        "usageLimitExceeded",
    ) {
        return true;
    }
    match json::text_in(value.get3("params", "error", "message")) {
        Some(message) => {
            let lowered = text::to_lower(message);
            text::contains(lowered.as_str(), "usage limit")
        },
        None => false,
    }
}

// ---------------------------------------------------------------------------
// Switching on the experimental interface
// ---------------------------------------------------------------------------

/// The capabilities with the experimental interface switched on, where there is
/// a place for them.
pub open spec fn enabled_capabilities(capabilities: Option<JsonModel>) -> Option<JsonModel> {
    match capabilities {
        None => Some(
            JsonModel::Object(
                json::put(Seq::empty(), "experimentalApi"@, JsonModel::Bool(true)),
            ),
        ),
        Some(JsonModel::Null) => Some(
            JsonModel::Object(
                json::put(Seq::empty(), "experimentalApi"@, JsonModel::Bool(true)),
            ),
        ),
        Some(JsonModel::Object(entries)) => Some(
            JsonModel::Object(json::put(entries, "experimentalApi"@, JsonModel::Bool(true))),
        ),
        Some(_) => None,
    }
}

/// An initialize request with the experimental interface switched on; `None` for
/// anything that is no such request.
pub open spec fn enabled(m: JsonModel) -> Option<JsonModel> {
    if method_of(m) != Some("initialize"@) {
        None
    } else {
        match (m, json::field(m, "params"@)) {
            (JsonModel::Object(entries), Some(JsonModel::Object(params))) => {
                match enabled_capabilities(
                    json::field(JsonModel::Object(params), "capabilities"@),
                ) {
                    Some(capabilities) => Some(
                        JsonModel::Object(
                            json::put(
                                entries,
                                "params"@,
                                JsonModel::Object(json::put(params, "capabilities"@, capabilities)),
                            ),
                        ),
                    ),
                    None => None,
                }
            },
            _ => None,
        }
    }
}

fn with_experimental(entries: Vec<(String, Json)>) -> (r: Json)
    ensures
        r@ == JsonModel::Object(
            json::put(json::entries_view(entries@), "experimentalApi"@, JsonModel::Bool(true)),
        ),
{
    let mut entries = entries;
    json::set_entry(&mut entries, "experimentalApi", Json::Bool(true));
    json::object(entries)
}

fn enable_capabilities(capabilities: Option<Json>) -> (r: Option<Json>)
    ensures
        match r {
            Some(j) => enabled_capabilities(
                match capabilities {
                    Some(c) => Some(c@),
                    None => None,
                },
            ) == Some(j@),
            None => enabled_capabilities(
                match capabilities {
                    Some(c) => Some(c@),
                    None => None,
                },
            ) is None,
        },
{
    match capabilities {
        None => {
            let fresh: Vec<(String, Json)> = Vec::new();
            assert(json::entries_view(fresh@) =~= Seq::empty());
            Some(with_experimental(fresh))
        },
        Some(Json::Null) => {
            let fresh: Vec<(String, Json)> = Vec::new();
            assert(json::entries_view(fresh@) =~= Seq::empty());
            Some(with_experimental(fresh))
        },
        Some(Json::Object(entries)) => {
            proof {
                json::object_view(entries);
            }
            Some(with_experimental(entries))
        },
        Some(_) => None,
    }
}

/// Switches the experimental interface on in an initialize request.
pub fn enable_experimental_api_capability(value: Json) -> (r: Result<Json, Json>)
    ensures
        match r {
            Ok(changed) => enabled(value@) == Some(changed@),
            Err(same) => enabled(value@) is None && same == value,
        },
{
    let asks: bool = has_method(&value, "initialize");
    let there: bool = match value.get("params") {
        Some(Json::Object(params)) => {
            proof {
                json::object_view(*params);
            }
            match json::entry_of(params, "capabilities") {
                None => true,
                Some(Json::Null) => true,
                Some(Json::Object(_)) => true,
                Some(_) => false,
            }
        },
        _ => false,
    };
    if !asks || !there {
        return Err(value);
    }
    match value {
        Json::Object(entries) => {
            proof {
                json::object_view(entries);
            }
            let mut entries = entries;
            match json::take_entry(&mut entries, "params") {
                Some(Json::Object(params)) => {
                    proof {
                        json::object_view(params);
                    }
                    let mut params = params;
                    let capabilities = json::take_entry(&mut params, "capabilities");
                    match enable_capabilities(capabilities) {
                        Some(changed) => {
                            json::set_entry(&mut params, "capabilities", changed);
                            json::set_entry(&mut entries, "params", json::object(params));
                            Ok(json::object(entries))
                        },
                        None => Ok(json::object(entries)),
                    }
                },
                _ => Ok(json::object(entries)),
            }
        },
        other => Err(other),
    }
}

/// What is sent in place of a frame, where the capability is still to be switched on.
pub open spec fn is_switched_on(
    sent: Option<Seq<char>>,
    frame: Frame,
    pending: bool,
    still_pending: bool,
) -> bool {
    let changed = match frame {
        Frame::Text(t) => match json::parsed(t@) {
            Some(m) => enabled(m),
            None => None,
        },
        _ => None,
    };
    if pending && changed is Some {
        sent == Some(json::rendered(changed->Some_0)) && still_pending == false
    } else {
        sent is None && still_pending == pending
    }
}

/// The text that is forwarded in place of a client's message, until one
/// initialize request was changed: `None` forwards the message as it is.
pub fn enable_experimental_api_capability_for_message(
    frame: &Frame,
    capability_pending: &mut bool,
) -> (r: Option<String>)
    ensures
        is_switched_on(
            text::opt_view(r),
            *frame,
            *old(capability_pending),
            *final(capability_pending),
        ),
{
    if !*capability_pending {
        return None;
    }
    match frame {
        Frame::Text(t) => match json::parse_json(t) {
            Some(value) => match enable_experimental_api_capability(value) {
                Ok(changed) => {
                    *capability_pending = false;
                    Some(changed.render())
                },
                Err(_) => None,
            },
            None => None,
        },
        _ => None,
    }
}

// ---------------------------------------------------------------------------
// Requests and answers that the proxy writes
// ---------------------------------------------------------------------------

pub open spec fn login_request(id: JsonModel, payload: ExternalAuthPayload) -> JsonModel {
    JsonModel::Object(
        seq![
            ("id"@, id),
            ("method"@, JsonModel::Text("account/login/start"@)),
            (
                "params"@,
                JsonModel::Object(
                    seq![
                        ("accessToken"@, JsonModel::Text(payload.access_token@)),
                        ("chatgptAccountId"@, JsonModel::Text(payload.chatgpt_account_id@)),
                        (
                            "chatgptPlanType"@,
                            json::optional_text(text::opt_view(payload.chatgpt_plan_type)),
                        ),
                        ("type"@, JsonModel::Text("chatgptAuthTokens"@)),
                    ],
                ),
            ),
        ],
    )
}

pub fn login_request_from_payload(request_id: Json, payload: &ExternalAuthPayload) -> (r: Json)
    ensures
        r@ == login_request(request_id@, *payload),
{
    let params = json::object4(
        "accessToken",
        json::text_value(payload.access_token.as_str()),
        "chatgptAccountId",
        json::text_value(payload.chatgpt_account_id.as_str()),
        "chatgptPlanType",
        json::optional_text_value(&payload.chatgpt_plan_type),
        "type",
        json::text_value("chatgptAuthTokens"),
    );
    json::object3(
        "id",
        request_id,
        "method",
        json::text_value("account/login/start"),
        "params",
        params,
    )
}

pub open spec fn initialize_request(id: JsonModel, version: Seq<char>) -> JsonModel {
    JsonModel::Object(
        seq![
            ("id"@, id),
            ("method"@, JsonModel::Text("initialize"@)),
            (
                "params"@,
                JsonModel::Object(
                    seq![
                        (
                            "capabilities"@,
                            JsonModel::Object(seq![("experimentalApi"@, JsonModel::Bool(true))]),
                        ),
                        (
                            "clientInfo"@,
                            JsonModel::Object(
                                seq![
                                    (
                                        "name"@,
                                        JsonModel::Text(CODEX_APP_SERVER_DAEMON_CLIENT_NAME@),
                                    ),
                                    ("title"@, JsonModel::Text("Codex App Server Daemon"@)),
                                    ("version"@, JsonModel::Text(version)),
                                ],
                            ),
                        ),
                    ],
                ),
            ),
        ],
    )
}

pub fn initialize_app_server_request(request_id: Json, version: &str) -> (r: Json)
    ensures
        r@ == initialize_request(request_id@, version@),
{
    let info = json::object3(
        "name",
        json::text_value(CODEX_APP_SERVER_DAEMON_CLIENT_NAME),
        "title",
        json::text_value("Codex App Server Daemon"),
        "version",
        json::text_value(version),
    );
    let capabilities = json::object1("experimentalApi", Json::Bool(true));
    let params = json::object2("capabilities", capabilities, "clientInfo", info);
    json::object3(
        "id",
        request_id,
        "method",
        json::text_value("initialize"),
        "params",
        params,
    )
}

pub fn initialized_notification() -> (r: Json)
    ensures
        r@ == JsonModel::Object(
            seq![
                ("method"@, JsonModel::Text("initialized"@)),
                ("params"@, JsonModel::Null),
            ],
        ),
{
    json::object2("method", json::text_value("initialized"), "params", Json::Null)
}

pub open spec fn or_null(id: Option<Json>) -> JsonModel {
    match id {
        Some(j) => j@,
        None => JsonModel::Null,
    }
}

fn json_or_null(id: Option<Json>) -> (r: Json)
    ensures
        r@ == or_null(id),
{
    match id {
        Some(j) => j,
        None => Json::Null,
    }
}

pub open spec fn error_answer(id: JsonModel, message: Seq<char>) -> JsonModel {
    JsonModel::Object(
        seq![
            (
                "error"@,
                JsonModel::Object(
                    seq![
                        ("code"@, JsonModel::Number("-32000"@)),
                        ("message"@, JsonModel::Text(message)),
                    ],
                ),
            ),
            ("id"@, id),
        ],
    )
}

pub fn error_response(id: Option<Json>, message: &str) -> (r: Json)
    ensures
        r@ == error_answer(or_null(id), message@),
{
    let error = json::object2(
        "code",
        Json::Number("-32000".to_owned()),
        "message",
        json::text_value(message),
    );
    json::object2("error", error, "id", json_or_null(id))
}

pub open spec fn refresh_answer(id: JsonModel, payload: ExternalAuthPayload) -> JsonModel {
    JsonModel::Object(
        seq![
            ("id"@, id),
            (
                "result"@,
                JsonModel::Object(
                    seq![
                        ("accessToken"@, JsonModel::Text(payload.access_token@)),
                        ("chatgptAccountId"@, JsonModel::Text(payload.chatgpt_account_id@)),
                        (
                            "chatgptPlanType"@,
                            json::optional_text(text::opt_view(payload.chatgpt_plan_type)),
                        ),
                    ],
                ),
            ),
        ],
    )
}

/// The answer to a request for fresh tokens.
pub fn refresh_response(id: Option<Json>, payload: &ExternalAuthPayload) -> (r: Json)
    ensures
        r@ == refresh_answer(or_null(id), *payload),
{
    let result = json::object3(
        "accessToken",
        json::text_value(payload.access_token.as_str()),
        "chatgptAccountId",
        json::text_value(payload.chatgpt_account_id.as_str()),
        "chatgptPlanType",
        json::optional_text_value(&payload.chatgpt_plan_type),
    );
    json::object2("id", json_or_null(id), "result", result)
}

pub open spec fn warning_message(text: Seq<char>) -> JsonModel {
    JsonModel::Object(
        seq![
            ("method"@, JsonModel::Text("warning"@)),
            (
                "params"@,
                JsonModel::Object(
                    seq![("message"@, JsonModel::Text(text)), ("threadId"@, JsonModel::Null)],
                ),
            ),
        ],
    )
}

pub fn runtime_client_notification_value(notification: &RuntimeClientNotification) -> (r: Json)
    ensures
        r@ == warning_message(notification.text()),
{
    let params = json::object2(
        "message",
        json::text_value(notification.message()),
        "threadId",
        Json::Null,
    );
    json::object2("method", json::text_value("warning"), "params", params)
}

// ---------------------------------------------------------------------------
// Waiting for the app-server to be ready
// ---------------------------------------------------------------------------

/// What the probe makes of a message while it waits for the answer to its
/// initialize request, which has the number 1.
pub enum ProbeStep {
    /// The answer came, and it is good: say that the client is initialized.
    Ready,
    /// The answer came, and it is an error.
    Failed(String),
    /// A request that is turned down.
    TurnDown(Option<Json>),
    Ignore,
}

pub open spec fn is_probe_step(step: ProbeStep, m: JsonModel) -> bool {
    if json::field(m, "id"@) == Some(JsonModel::Number("1"@)) {
        match response_result(m) {
            Ok(()) => step is Ready,
            Err(e) => step matches ProbeStep::Failed(s) && s@ == e,
        }
    } else if is_request(m) {
        step matches ProbeStep::TurnDown(Some(id)) && json::field(m, "id"@) == Some(id@)
    } else {
        step is Ignore
    }
}

pub fn probe_step(value: &Json) -> (r: ProbeStep)
    ensures
        is_probe_step(r, value@),
{
    let answered: bool = match value.get("id") {
        Some(Json::Number(n)) => text::same(n.as_str(), "1"),
        _ => false,
    };
    if answered {
        match response_to_result(value) {
            Ok(()) => ProbeStep::Ready,
            Err(e) => ProbeStep::Failed(e),
        }
    } else if is_jsonrpc_request(value) {
        match value.get("id") {
            Some(id) => ProbeStep::TurnDown(Some(id.duplicate())),
            None => ProbeStep::Ignore,
        }
    } else {
        ProbeStep::Ignore
    }
}

// ---------------------------------------------------------------------------
// Fresh tokens for the app-server
// ---------------------------------------------------------------------------

pub const REFRESH_METHOD: &'static str = "account/chatgptAuthTokens/refresh";

pub open spec fn is_refresh_request(m: JsonModel) -> bool {
    is_request(m) && method_of(m) == Some(REFRESH_METHOD@)
}

pub fn asks_for_refresh(value: &Json) -> (r: bool)
    ensures
        r == is_refresh_request(value@),
{
    is_jsonrpc_request(value) && has_method(value, REFRESH_METHOD)
}

/// The ChatGPT account that the app-server ran with before.
pub fn previous_account_id(value: &Json) -> (r: Option<String>)
    ensures
        text::opt_view(r) == json::text_at(
            json::field2(value@, "params"@, "previousAccountId"@),
        ),
{
    match json::text_in(value.get2("params", "previousAccountId")) {
        Some(s) => Some(s.to_owned()),
        None => None,
    }
}

pub open spec fn has_chatgpt_id(id: Seq<char>) -> spec_fn(StoredAccount) -> bool {
    |a: StoredAccount| text::opt_view(accounts::chatgpt_id(a)) == Some(id)
}

pub const NO_REFRESH_ACCOUNT: &'static str = "No current ChatGPT account available for auth refresh";

/// Whose tokens are handed out: those of the ChatGPT account that was asked for,
/// or of the current one.
pub open spec fn refresh_account(
    accounts: Seq<StoredAccount>,
    current: Option<StoredAccount>,
    previous: Option<Seq<char>>,
) -> Result<StoredAccount, Seq<char>> {
    match previous {
        Some(id) => match search::first_of(accounts, has_chatgpt_id(id)) {
            Some(a) => Ok(a),
            None => Err("No stored account matches ChatGPT account id "@ + id),
        },
        None => match current {
            Some(a) => if a.is_chatgpt() {
                Ok(a)
            } else {
                Err(NO_REFRESH_ACCOUNT@)
            },
            None => Err(NO_REFRESH_ACCOUNT@),
        },
    }
}

pub open spec fn account_result(r: Result<StoredAccount, String>) -> Result<
    StoredAccount,
    Seq<char>,
> {
    match r {
        Ok(a) => Ok(a),
        Err(m) => Err(m@),
    }
}

fn find_by_chatgpt_id<'a>(store: &'a AccountsStore, id: &str) -> (r: Option<&'a StoredAccount>)
    ensures
        match r {
            Some(a) => search::first_of(store.accounts@, has_chatgpt_id(id@)) == Some(*a),
            None => search::first_of(store.accounts@, has_chatgpt_id(id@)) is None,
        },
{
    let ghost p = has_chatgpt_id(id@);
    let mut i: usize = 0;
    while i < store.accounts.len()
        invariant
            i <= store.accounts@.len(),
            p == has_chatgpt_id(id@),
            forall|j: int| 0 <= j < i ==> !p(#[trigger] store.accounts@[j]),
        decreases store.accounts@.len() - i,
    {
        let found: bool = match accounts::chatgpt_account_id(&store.accounts[i]) {
            Some(x) => text::same(x.as_str(), id),
            None => false,
        };
        if found {
            proof {
                search::first_index_unique(store.accounts@, p, i as int);
            }
            return Some(&store.accounts[i]);
        }
        i = i + 1;
    }
    proof {
        search::first_index_absent(store.accounts@, p);
    }
    None
}

pub fn find_refresh_account(
    store: &AccountsStore,
    current: Option<StoredAccount>,
    previous_account_id: Option<&str>,
) -> (r: Result<StoredAccount, String>)
    ensures
        account_result(r) == refresh_account(
            store.accounts@,
            current,
            accounts::str_view(previous_account_id),
        ),
{
    match previous_account_id {
        Some(id) => match find_by_chatgpt_id(store, id) {
            Some(a) => Ok(a.clone()),
            None => Err(text::cat2("No stored account matches ChatGPT account id ", id)),
        },
        None => match current {
            Some(a) => if a.uses_chatgpt() {
                Ok(a)
            } else {
                Err(NO_REFRESH_ACCOUNT.to_owned())
            },
            None => Err(NO_REFRESH_ACCOUNT.to_owned()),
        },
    }
}

// ---------------------------------------------------------------------------
// Rate limits
// ---------------------------------------------------------------------------

#[derive(Debug, Clone, Copy, PartialEq, Eq, Structural)]
pub enum RateLimitAutoSwitchTrigger {
    Nothing,
    Soft,
    Hard,
}

/// One window of a limit, as the app-server reports it.
pub struct AppServerRateLimitWindow {
    pub used_percent: UsedPercent,
    pub window_duration_mins: Option<i64>,
    pub resets_at: Option<i64>,
}

pub struct AppServerCreditsSnapshot {
    pub has_credits: bool,
    pub unlimited: bool,
    pub balance: Option<CreditsBalance>,
}

pub struct AppServerRateLimitSnapshot {
    pub limit_id: Option<String>,
    pub limit_name: Option<String>,
    pub primary: Option<AppServerRateLimitWindow>,
    pub secondary: Option<AppServerRateLimitWindow>,
    pub credits: Option<AppServerCreditsSnapshot>,
    pub plan_type: Option<String>,
    pub rate_limit_reached_type: Option<String>,
}

pub open spec fn window_data(w: Option<AppServerRateLimitWindow>) -> UsageWindowData {
    match w {
        Some(w) => UsageWindowData {
            used_percent: Some(w.used_percent),
            window_minutes: w.window_duration_mins,
            resets_at: w.resets_at,
        },
        None => UsageWindowData { used_percent: None, window_minutes: None, resets_at: None },
    }
}

fn to_window_data(w: Option<AppServerRateLimitWindow>) -> (r: UsageWindowData)
    ensures
        r == window_data(w),
{
    match w {
        Some(w) => UsageWindowData {
            used_percent: Some(w.used_percent),
            window_minutes: w.window_duration_mins,
            resets_at: w.resets_at,
        },
        None => UsageWindowData { used_percent: None, window_minutes: None, resets_at: None },
    }
}

impl AppServerRateLimitSnapshot {
    pub fn into_usage_info(self) -> (r: UsageInfo)
        ensures
            r.account_id@ == Seq::<char>::empty(),
            r.limit_id == self.limit_id,
            r.limit_name == self.limit_name,
            r.plan_type == self.plan_type,
            r.primary == window_data(self.primary),
            r.secondary == window_data(self.secondary),
            match self.credits {
                Some(c) => r.has_credits == Some(c.has_credits) && r.unlimited_credits == Some(
                    c.unlimited,
                ) && r.credits_balance == c.balance,
                None => r.has_credits is None && r.unlimited_credits is None
                    && r.credits_balance is None,
            },
            r.rate_limit_reset_credits_available is None,
            r.rate_limit_reached_type == self.rate_limit_reached_type,
            r.additional_limits@.len() == 0,
            r.error is None,
    {
        let (has_credits, unlimited_credits, credits_balance) = match self.credits {
            Some(c) => (Some(c.has_credits), Some(c.unlimited), c.balance),
            None => (None, None, None),
        };
        UsageInfo {
            account_id: String::new(),
            limit_id: self.limit_id,
            limit_name: self.limit_name,
            plan_type: self.plan_type,
            primary: to_window_data(self.primary),
            secondary: to_window_data(self.secondary),
            has_credits,
            unlimited_credits,
            credits_balance,
            rate_limit_reset_credits_available: None,
            rate_limit_reached_type: self.rate_limit_reached_type,
            additional_limits: Vec::new(),
            error: None,
        }
    }
}

pub const RATE_LIMITS_METHOD: &'static str = "account/rateLimits/updated";

/// The parameters of a message about rate limits.
pub fn rate_limit_params(value: &Json) -> (r: Option<&Json>)
    ensures
        json::is_value(
            r,
            if method_of(value@) == Some(RATE_LIMITS_METHOD@) {
                json::field(value@, "params"@)
            } else {
                None
            },
        ),
{
    if has_method(value, RATE_LIMITS_METHOD) {
        value.get("params")
    } else {
        None
    }
}

/// A window of the given kind reports a finite percentage, and what is left of
/// it, as `units` weighs it, is at or under the safe headroom.
pub open spec fn is_low(w: Option<UsageWindowData>, units: Option<u64>) -> bool {
    w matches Some(data) && data.used_percent matches Some(used) && quantity::is_finite(used.bits)
        && quantity::at_least(
        selector::DEFAULT_MIN_SAFE_HEADROOM,
        match units {
            Some(u) => u,
            None => used.headroom,
        },
    )
}

fn low(w: Option<&UsageWindowData>, units: Option<u64>) -> (r: bool)
    ensures
        forall|e: Option<UsageWindowData>| #[trigger] usage::is_window(w, e) ==> r == is_low(
            e,
            units,
        ),
{
    match w {
        Some(data) => match &data.used_percent {
            Some(used) => {
                let left: u64 = match units {
                    Some(u) => u,
                    None => used.headroom,
                };
                quantity::finite(used.bits) && quantity::reaches(
                    selector::DEFAULT_MIN_SAFE_HEADROOM,
                    left,
                )
            },
            None => false,
        },
        None => false,
    }
}

/// Usage runs low: over the windows that all are valid, by the tightest of
/// them; else by any window that can be read. `weekly_units` is what is left of
/// the weekly window, in five-hour units.
pub open spec fn runs_low(info: UsageInfo, weekly_units: u64) -> bool {
    if selector::usage_is_valid(info) {
        let active = selector::available_windows(info);
        quantity::at_least(
            selector::DEFAULT_MIN_SAFE_HEADROOM,
            selector::metrics_of(
                selector::evaluated_five_hour(info, active),
                selector::evaluated_weekly(info, active, weekly_units),
                selector::safe_headroom(selector::DEFAULT_MIN_SAFE_HEADROOM),
            ).bottleneck_headroom,
        )
    } else {
        is_low(selector::five_hour_of(info), None) || is_low(
            selector::weekly_of(info),
            Some(weekly_units),
        )
    }
}

pub fn usage_needs_soft_switch(info: &UsageInfo, weekly_units: u64) -> (r: bool)
    ensures
        r == runs_low(*info, weekly_units),
{
    let config = SelectionConfig::default();
    match selector::usage_selection_metrics(info, weekly_units, config) {
        Some(metrics) => quantity::reaches(
            selector::DEFAULT_MIN_SAFE_HEADROOM,
            metrics.bottleneck_headroom,
        ),
        None => {
            let five = usage::find_window(
                &info.primary,
                &info.secondary,
                UsageWindowKind::FiveHour,
            );
            let week = usage::find_window(&info.primary, &info.secondary, UsageWindowKind::Weekly);
            low(five, None) || low(week, Some(weekly_units))
        },
    }
}

pub open spec fn trigger_of(info: UsageInfo, weekly_units: u64) -> RateLimitAutoSwitchTrigger {
    if assessment::assessed(info) is Unavailable {
        RateLimitAutoSwitchTrigger::Hard
    } else if runs_low(info, weekly_units) {
        RateLimitAutoSwitchTrigger::Soft
    } else {
        RateLimitAutoSwitchTrigger::Nothing
    }
}

/// What a report on rate limits calls for; `None` stands for a message that is
/// none, or that cannot be read.
pub fn classify_rate_limit_notification(
    info: Option<&UsageInfo>,
    weekly_units: u64,
) -> (r: RateLimitAutoSwitchTrigger)
    ensures
        r == match info {
            Some(i) => trigger_of(*i, weekly_units),
            None => RateLimitAutoSwitchTrigger::Nothing,
        },
{
    match info {
        None => RateLimitAutoSwitchTrigger::Nothing,
        Some(i) => if assessment::usage_requires_switch(i) {
            RateLimitAutoSwitchTrigger::Hard
        } else if usage_needs_soft_switch(i, weekly_units) {
            RateLimitAutoSwitchTrigger::Soft
        } else {
            RateLimitAutoSwitchTrigger::Nothing
        },
    }
}

// ---------------------------------------------------------------------------
// Laws
// ---------------------------------------------------------------------------

/// Switching the experimental interface on makes it readable as on, and leaves
/// every other part of the request, and every other capability, as it was.
pub proof fn enabling_keeps_the_rest(m: JsonModel, other: Seq<char>, capability: Seq<char>)
    requires
        enabled(m) is Some,
        other != "params"@,
        capability != "experimentalApi"@,
    ensures
        ({
            let changed = enabled(m)->Some_0;
            &&& json::field3(changed, "params"@, "capabilities"@, "experimentalApi"@) == Some(
                JsonModel::Bool(true),
            )
            &&& json::field(changed, other) == json::field(m, other)
            &&& json::field3(changed, "params"@, "capabilities"@, capability) == json::field3(
                m,
                "params"@,
                "capabilities"@,
                capability,
            )
        }),
{
    let entries = m->Object_0;
    let params = json::field(m, "params"@)->Some_0->Object_0;
    let before = json::field(JsonModel::Object(params), "capabilities"@);
    let after = enabled_capabilities(before)->Some_0;
    let inner = match before {
        Some(JsonModel::Object(e)) => e,
        _ => Seq::empty(),
    };
    json::setting_is_reading(inner, "experimentalApi"@, JsonModel::Bool(true), capability);
    json::setting_is_reading(params, "capabilities"@, after, other);
    json::setting_is_reading(
        entries,
        "params"@,
        JsonModel::Object(json::put(params, "capabilities"@, after)),
        other,
    );
    if before is None || before == Some(JsonModel::Null) {
        search::first_index_absent(
            Seq::<(Seq<char>, JsonModel)>::empty(),
            json::has_key(capability),
        );
    }
}

/// A request in which the interface is on already stays as it is.
pub proof fn enabling_twice_is_enabling_once(m: JsonModel)
    requires
        enabled(m) is Some,
    ensures
        enabled(enabled(m)->Some_0) == enabled(m),
{
    let on = JsonModel::Bool(true);
    let entries = m->Object_0;
    let params = json::field(m, "params"@)->Some_0->Object_0;
    let before = json::field(JsonModel::Object(params), "capabilities"@);
    let inner = match before {
        Some(JsonModel::Object(e)) => e,
        _ => Seq::empty(),
    };
    let inner2 = json::put(inner, "experimentalApi"@, on);
    let params2 = json::put(params, "capabilities"@, JsonModel::Object(inner2));
    let entries2 = json::put(entries, "params"@, JsonModel::Object(params2));
    reveal_strlit("method");
    reveal_strlit("params");
    assert("method"@[0] != "params"@[0]);
    json::setting_is_reading(inner, "experimentalApi"@, on, "method"@);
    json::setting_is_reading(params, "capabilities"@, JsonModel::Object(inner2), "method"@);
    json::setting_is_reading(entries, "params"@, JsonModel::Object(params2), "method"@);
    json::setting_again(inner, "experimentalApi"@, on);
    json::setting_again(params, "capabilities"@, JsonModel::Object(inner2));
    json::setting_again(entries, "params"@, JsonModel::Object(params2));
}

/// A login request is told apart from a response and from every message that
/// calls for a switch.
pub proof fn requests_of_the_proxy_are_requests(id: JsonModel, payload: ExternalAuthPayload)
    ensures
        is_request(login_request(id, payload)),
        method_of(login_request(id, payload)) == Some("account/login/start"@),
        json::field(login_request(id, payload), "id"@) == Some(id),
{
    let m = login_request(id, payload);
    let entries = m->Object_0;
    reveal_strlit("id");
    reveal_strlit("method");
    assert("id"@.len() != "method"@.len());
    search::first_index_unique(entries, json::has_key("id"@), 0);
    search::first_index_unique(entries, json::has_key("method"@), 1);
}

/// Read by key, the parameters of a login request hold each part of the payload
/// under its own name.
pub proof fn login_requests_carry_the_payload(id: JsonModel, payload: ExternalAuthPayload)
    ensures
        ({
            let m = login_request(id, payload);
            &&& json::field2(m, "params"@, "accessToken"@) == Some(
                JsonModel::Text(payload.access_token@),
            )
            &&& json::field2(m, "params"@, "chatgptAccountId"@) == Some(
                JsonModel::Text(payload.chatgpt_account_id@),
            )
            &&& match payload.chatgpt_plan_type {
                Some(plan) => json::field2(m, "params"@, "chatgptPlanType"@) == Some(
                    JsonModel::Text(plan@),
                ),
                None => json::field2(m, "params"@, "chatgptPlanType"@) == Some(JsonModel::Null),
            }
            &&& json::field2(m, "params"@, "type"@) == Some(JsonModel::Text("chatgptAuthTokens"@))
        }),
{
    let entries = login_request(id, payload)->Object_0;
    let params = entries[2].1->Object_0;
    reveal_strlit("id");
    reveal_strlit("method");
    reveal_strlit("params");
    reveal_strlit("accessToken");
    reveal_strlit("chatgptAccountId");
    reveal_strlit("chatgptPlanType");
    reveal_strlit("type");
    assert("id"@.len() == 2);
    assert("method"@.len() == 6);
    assert("params"@.len() == 6);
    assert("accessToken"@.len() == 11);
    assert("chatgptAccountId"@.len() == 16);
    assert("chatgptPlanType"@.len() == 15);
    assert("type"@.len() == 4);
    assert("method"@[0] != "params"@[0]);
    json::the_first_entry_is_read(entries, "params"@, 2);
    json::the_first_entry_is_read(params, "accessToken"@, 0);
    json::the_first_entry_is_read(params, "chatgptAccountId"@, 1);
    json::the_first_entry_is_read(params, "chatgptPlanType"@, 2);
    json::the_first_entry_is_read(params, "type"@, 3);
}

/// Logins that differ in the token, the account or the plan are asked for by
/// different requests, and so are logins under different ids.
pub proof fn login_requests_keep_apart(
    id: JsonModel,
    payload: ExternalAuthPayload,
    other_id: JsonModel,
    other: ExternalAuthPayload,
)
    requires
        login_request(id, payload) == login_request(other_id, other),
    ensures
        id == other_id,
        payload.access_token@ == other.access_token@,
        payload.chatgpt_account_id@ == other.chatgpt_account_id@,
        text::opt_view(payload.chatgpt_plan_type) == text::opt_view(other.chatgpt_plan_type),
{
    requests_of_the_proxy_are_requests(id, payload);
    requests_of_the_proxy_are_requests(other_id, other);
    login_requests_carry_the_payload(id, payload);
    login_requests_carry_the_payload(other_id, other);
}

/// The answer to a request for fresh tokens goes by the request's id, counts as a
/// success, and holds each part of the payload under its own name.
pub proof fn refresh_answers_carry_the_payload(id: JsonModel, payload: ExternalAuthPayload)
    ensures
        ({
            let m = refresh_answer(id, payload);
            &&& json::field(m, "id"@) == Some(id)
            &&& json::field(m, "method"@) is None
            &&& response_result(m) is Ok
            &&& json::field2(m, "result"@, "accessToken"@) == Some(
                JsonModel::Text(payload.access_token@),
            )
            &&& json::field2(m, "result"@, "chatgptAccountId"@) == Some(
                JsonModel::Text(payload.chatgpt_account_id@),
            )
            &&& match payload.chatgpt_plan_type {
                Some(plan) => json::field2(m, "result"@, "chatgptPlanType"@) == Some(
                    JsonModel::Text(plan@),
                ),
                None => json::field2(m, "result"@, "chatgptPlanType"@) == Some(JsonModel::Null),
            }
        }),
{
    let entries = refresh_answer(id, payload)->Object_0;
    let result = entries[1].1->Object_0;
    reveal_strlit("id");
    reveal_strlit("method");
    reveal_strlit("error");
    reveal_strlit("result");
    reveal_strlit("accessToken");
    reveal_strlit("chatgptAccountId");
    reveal_strlit("chatgptPlanType");
    assert("id"@.len() == 2);
    assert("method"@.len() == 6);
    assert("error"@.len() == 5);
    assert("result"@.len() == 6);
    assert("accessToken"@.len() == 11);
    assert("chatgptAccountId"@.len() == 16);
    assert("chatgptPlanType"@.len() == 15);
    assert("method"@[0] != "result"@[0]);
    json::the_first_entry_is_read(entries, "id"@, 0);
    json::the_first_entry_is_read(entries, "result"@, 1);
    json::a_missing_key_is_not_read(entries, "method"@);
    json::a_missing_key_is_not_read(entries, "error"@);
    json::the_first_entry_is_read(result, "accessToken"@, 0);
    json::the_first_entry_is_read(result, "chatgptAccountId"@, 1);
    json::the_first_entry_is_read(result, "chatgptPlanType"@, 2);
}

/// An error that the proxy answers with goes by the request's id and is understood
/// as a failure with that very message.
pub proof fn errors_are_understood(id: JsonModel, message: Seq<char>)
    ensures
        json::field(error_answer(id, message), "id"@) == Some(id),
        json::field(error_answer(id, message), "method"@) is None,
        json::field2(error_answer(id, message), "error"@, "code"@) == Some(
            JsonModel::Number("-32000"@),
        ),
        response_result(error_answer(id, message)) == Err::<(), _>(message),
{
    let entries = error_answer(id, message)->Object_0;
    let error = entries[0].1->Object_0;
    reveal_strlit("id");
    reveal_strlit("method");
    reveal_strlit("error");
    reveal_strlit("code");
    reveal_strlit("message");
    assert("id"@.len() == 2);
    assert("method"@.len() == 6);
    assert("error"@.len() == 5);
    assert("code"@.len() == 4);
    assert("message"@.len() == 7);
    json::the_first_entry_is_read(entries, "error"@, 0);
    json::the_first_entry_is_read(entries, "id"@, 1);
    json::a_missing_key_is_not_read(entries, "method"@);
    json::the_first_entry_is_read(error, "code"@, 0);
    json::the_first_entry_is_read(error, "message"@, 1);
}

/// A warning asks for no answer and tells its text, on no thread.
pub proof fn warnings_tell_their_text(text: Seq<char>)
    ensures
        method_of(warning_message(text)) == Some("warning"@),
        json::field(warning_message(text), "id"@) is None,
        json::field2(warning_message(text), "params"@, "message"@) == Some(JsonModel::Text(text)),
        json::field2(warning_message(text), "params"@, "threadId"@) == Some(JsonModel::Null),
        !is_request(warning_message(text)),
{
    let entries = warning_message(text)->Object_0;
    let params = entries[1].1->Object_0;
    reveal_strlit("id");
    reveal_strlit("method");
    reveal_strlit("params");
    reveal_strlit("message");
    reveal_strlit("threadId");
    assert("id"@.len() == 2);
    assert("method"@.len() == 6);
    assert("params"@.len() == 6);
    assert("message"@.len() == 7);
    assert("threadId"@.len() == 8);
    assert("method"@[0] != "params"@[0]);
    json::the_first_entry_is_read(entries, "method"@, 0);
    json::the_first_entry_is_read(entries, "params"@, 1);
    json::a_missing_key_is_not_read(entries, "id"@);
    json::the_first_entry_is_read(params, "message"@, 0);
    json::the_first_entry_is_read(params, "threadId"@, 1);
}

/// An initialize request of this program is one: it switches the experimental
/// interface on already, and names the daemon and its version.
pub proof fn initialize_requests_switch_it_on(id: JsonModel, version: Seq<char>)
    ensures
        ({
            let m = initialize_request(id, version);
            &&& is_request(m)
            &&& json::field(m, "id"@) == Some(id)
            &&& method_of(m) == Some("initialize"@)
            &&& json::field3(m, "params"@, "capabilities"@, "experimentalApi"@) == Some(
                JsonModel::Bool(true),
            )
            &&& json::field3(m, "params"@, "clientInfo"@, "version"@) == Some(
                JsonModel::Text(version),
            )
            &&& json::field3(m, "params"@, "clientInfo"@, "name"@) == Some(
                JsonModel::Text(CODEX_APP_SERVER_DAEMON_CLIENT_NAME@),
            )
        }),
{
    let entries = initialize_request(id, version)->Object_0;
    let params = entries[2].1->Object_0;
    let capabilities = params[0].1->Object_0;
    let info = params[1].1->Object_0;
    reveal_strlit("id");
    reveal_strlit("method");
    reveal_strlit("params");
    reveal_strlit("capabilities");
    reveal_strlit("clientInfo");
    reveal_strlit("experimentalApi");
    reveal_strlit("name");
    reveal_strlit("title");
    reveal_strlit("version");
    assert("id"@.len() == 2);
    assert("method"@.len() == 6);
    assert("params"@.len() == 6);
    assert("capabilities"@.len() == 12);
    assert("clientInfo"@.len() == 10);
    assert("experimentalApi"@.len() == 15);
    assert("name"@.len() == 4);
    assert("title"@.len() == 5);
    assert("version"@.len() == 7);
    assert("method"@[0] != "params"@[0]);
    json::the_first_entry_is_read(entries, "id"@, 0);
    json::the_first_entry_is_read(entries, "method"@, 1);
    json::the_first_entry_is_read(entries, "params"@, 2);
    json::the_first_entry_is_read(params, "capabilities"@, 0);
    json::the_first_entry_is_read(params, "clientInfo"@, 1);
    json::the_first_entry_is_read(capabilities, "experimentalApi"@, 0);
    json::the_first_entry_is_read(info, "name"@, 0);
    json::the_first_entry_is_read(info, "version"@, 2);
}

/// A message without an id, or without a method, waits for no answer; one with
/// both does.
pub proof fn requests_have_a_method_and_an_id(m: JsonModel)
    ensures
        json::field(m, "method"@) is None ==> !is_request(m),
        json::field(m, "id"@) is None ==> !is_request(m),
        json::field(m, "method"@) is Some && json::field(m, "id"@) is Some ==> is_request(m),
{
}

/// A response with an error fails whatever else it holds; one without succeeds
/// exactly where it holds a result.
pub proof fn an_error_outweighs_a_result(m: JsonModel)
    ensures
        json::field(m, "error"@) is Some ==> response_result(m) is Err,
        json::field(m, "error"@) is None ==> (response_result(m) is Ok <==> json::field(
            m,
            "result"@,
        ) is Some),
        json::text_at(json::field2(m, "error"@, "message"@)) is Some ==> response_result(m) == Err::<
            (),
            _,
        >(json::text_at(json::field2(m, "error"@, "message"@))->Some_0),
{
}

/// Only errors tell of a usage limit: by their kind, whatever they say, or by
/// their words, in whichever case they are written.
pub proof fn usage_limits_are_told_by_errors(m: JsonModel)
    ensures
        method_of(m) != Some("error"@) ==> !is_usage_limit_error(m),
        method_of(m) == Some("error"@) && json::text_at(
            json::field3(m, "params"@, "error"@, "codexErrorInfo"@),
        ) == Some("usageLimitExceeded"@) ==> is_usage_limit_error(m),
        method_of(m) == Some("error"@) && json::text_at(
            json::field3(m, "params"@, "error"@, "codexErrorInfo"@),
        ) != Some("usageLimitExceeded"@) ==> (is_usage_limit_error(m) <==> {
            let said = json::text_at(json::field3(m, "params"@, "error"@, "message"@));
            said is Some && text::has_text(text::lowered(said->Some_0), "usage limit"@)
        }),
{
}

/// Tokens are handed out for the very ChatGPT account that the app-server asked
/// for, and never for an account that logs in otherwise.
pub proof fn fresh_tokens_are_of_the_account_asked_for(
    accounts: Seq<StoredAccount>,
    current: Option<StoredAccount>,
    previous: Option<Seq<char>>,
)
    ensures
        match refresh_account(accounts, current, previous) {
            Ok(a) => match previous {
                Some(id) => accounts.contains(a) && text::opt_view(accounts::chatgpt_id(a)) == Some(
                    id,
                ),
                None => current == Some(a) && a.is_chatgpt(),
            },
            Err(_) => match previous {
                Some(id) => forall|i: int|
                    0 <= i < accounts.len() ==> text::opt_view(
                        accounts::chatgpt_id(#[trigger] accounts[i]),
                    ) != Some(id),
                None => current matches Some(a) ==> !a.is_chatgpt(),
            },
        },
{
    if previous is Some {
        search::first_index_is_first(accounts, has_chatgpt_id(previous->Some_0));
        if refresh_account(accounts, current, previous) is Err {
            assert forall|i: int| 0 <= i < accounts.len() implies text::opt_view(
                accounts::chatgpt_id(#[trigger] accounts[i]),
            ) != previous by {
                assert(!has_chatgpt_id(previous->Some_0)(accounts[i]));
            }
        }
    }
}

/// A report whose windows are all in order runs low exactly where one of them has
/// no more left than what counts as safe: the five-hour window by itself, the
/// weekly one in five-hour units.
pub proof fn usage_runs_low_with_any_window(info: UsageInfo, weekly_units: u64)
    requires
        selector::usage_is_valid(info),
        !quantity::is_nan(weekly_units),
        selector::five_hour_of(info) matches Some(w) ==> !quantity::is_nan(
            w.used_percent->Some_0.headroom,
        ),
    ensures
        runs_low(info, weekly_units) <==> {
            ||| selector::five_hour_of(info) matches Some(w) && quantity::at_least(
                quantity::FIVE,
                w.used_percent->Some_0.headroom,
            )
            ||| selector::weekly_of(info) is Some && quantity::at_least(
                quantity::FIVE,
                weekly_units,
            )
        },
{
    selector::valid_usage_has_a_window(info);
}

/// What a report calls for: a hard switch where the service rules the account out,
/// and nothing at all where every window has more left than what counts as safe.
pub proof fn reports_call_for_switches(info: UsageInfo, weekly_units: u64)
    ensures
        info.error is None && info.rate_limit_reached_type is Some ==> trigger_of(
            info,
            weekly_units,
        ) == RateLimitAutoSwitchTrigger::Hard,
        info.error is None && usage::is_used_to(info.primary.used_percent, quantity::HUNDRED)
            ==> trigger_of(info, weekly_units) == RateLimitAutoSwitchTrigger::Hard,
        info.error is None && usage::is_used_to(info.secondary.used_percent, quantity::HUNDRED)
            ==> trigger_of(info, weekly_units) == RateLimitAutoSwitchTrigger::Hard,
        trigger_of(info, weekly_units) == RateLimitAutoSwitchTrigger::Hard <==> assessment::assessed(
            info,
        ) is Unavailable,
        trigger_of(info, weekly_units) == RateLimitAutoSwitchTrigger::Soft <==> !(
        assessment::assessed(info) is Unavailable) && runs_low(info, weekly_units),
{
    assessment::used_up_windows_rule_out(info);
}

/// Where not all windows are valid, usage runs low by any window that can be read.
pub proof fn broken_reports_run_low_by_any_window(info: UsageInfo, weekly_units: u64)
    requires
        !selector::usage_is_valid(info),
    ensures
        runs_low(info, weekly_units) <==> is_low(selector::five_hour_of(info), None) || is_low(
            selector::weekly_of(info),
            Some(weekly_units),
        ),
        is_low(None, None) == false,
{
}

/// The answer to the first request tells whether the app-server is ready; a request of
/// its own is turned down by its id, and anything else is passed over.
pub proof fn the_first_answer_tells_readiness(step: ProbeStep, m: JsonModel)
    requires
        is_probe_step(step, m),
    ensures
        json::field(m, "id"@) == Some(JsonModel::Number(seq!['1'])) ==> (step is Ready
            <==> response_result(m) is Ok) && (step is Failed <==> response_result(m) is Err),
        json::field(m, "id"@) != Some(JsonModel::Number(seq!['1'])) && is_request(m)
            ==> step is TurnDown && step->TurnDown_0 is Some && Some(step->TurnDown_0->Some_0@)
            == json::field(m, "id"@),
        json::field(m, "id"@) != Some(JsonModel::Number(seq!['1'])) && !is_request(m)
            ==> step is Ignore,
        json::field(m, "id"@) is None ==> !(step is Ready) && !(step is Failed),
{
    reveal_strlit("1");
    assert("1"@ =~= seq!['1']);
}

/// What a message says of the limits goes into a report part by part, each where it
/// belongs.
pub proof fn limits_become_a_report(limits: AppServerRateLimitSnapshot, r: UsageInfo)
    requires
        call_ensures(AppServerRateLimitSnapshot::into_usage_info, (limits,), r),
    ensures
        r.limit_id == limits.limit_id && r.limit_name == limits.limit_name,
        r.plan_type == limits.plan_type,
        r.primary == window_data(limits.primary) && r.secondary == window_data(limits.secondary),
        r.rate_limit_reached_type == limits.rate_limit_reached_type,
        r.error is None && r.additional_limits@.len() == 0,
        limits.credits is None ==> r.has_credits is None && r.unlimited_credits is None
            && r.credits_balance is None,
        limits.credits matches Some(c) ==> r.has_credits == Some(c.has_credits)
            && r.unlimited_credits == Some(c.unlimited) && r.credits_balance == c.balance,
{
}

/// Only the message on limits tells of them.
pub proof fn limits_are_told_by_their_message(value: &Json, r: Option<&Json>)
    requires
        call_ensures(rate_limit_params, (value,), r),
    ensures
        method_of(value@) != Some(RATE_LIMITS_METHOD@) ==> r is None,
        r matches Some(j) ==> json::field(value@, "params"@) == Some(j@),
        method_of(value@) == Some(RATE_LIMITS_METHOD@) && json::field(value@, "params"@) is Some
            ==> r is Some,
{
}

/// The capability is switched on once, in the first message that it can be switched on
/// in; other frames are left alone.
pub proof fn the_capability_is_switched_on_once(
    sent: Option<Seq<char>>,
    frame: Frame,
    pending: bool,
    still_pending: bool,
)
    requires
        is_switched_on(sent, frame, pending, still_pending),
    ensures
        !pending ==> sent is None && !still_pending,
        sent is Some <==> pending && !still_pending,
        !(frame is Text) ==> sent is None && still_pending == pending,
        sent is Some ==> json::parsed(frame->Text_0@) is Some && enabled(
            json::parsed(frame->Text_0@)->Some_0,
        ) is Some && sent->Some_0 == json::rendered(
            enabled(json::parsed(frame->Text_0@)->Some_0)->Some_0,
        ),
{
}

} // verus!
