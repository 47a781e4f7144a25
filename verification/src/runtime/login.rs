//! Logins that are handed to the running app-server: what they carry, whom they
//! are meant for, and how their outcome is told.
use crate::accounts;
use crate::accounts::{AccountsStore, AuthData, StoredAccount, Timestamp};
use crate::auth_json;
use crate::runtime::shown;
use crate::search;
use crate::text;
use vstd::prelude::*;

verus! {

// ---------------------------------------------------------------------------
// Snapshots of the current account
// ---------------------------------------------------------------------------

/// Which account is current, and a mark that changes with its login.
#[derive(Debug)]
pub struct CurrentAccountSnapshot {
    pub current_account_id: Option<String>,
    pub auth_marker: Option<String>,
}

pub struct SnapshotView {
    pub id: Option<Seq<char>>,
    pub marker: Option<Seq<char>>,
}

impl View for CurrentAccountSnapshot {
    type V = SnapshotView;

    open spec fn view(&self) -> SnapshotView {
        SnapshotView {
            id: text::opt_view(self.current_account_id),
            marker: text::opt_view(self.auth_marker),
        }
    }
}

impl Clone for CurrentAccountSnapshot {
    fn clone(&self) -> (r: Self)
        ensures
            r == *self,
    {
        CurrentAccountSnapshot {
            current_account_id: text::clone_option(&self.current_account_id),
            auth_marker: text::clone_option(&self.auth_marker),
        }
    }
}

pub fn same_snapshot(a: &CurrentAccountSnapshot, b: &CurrentAccountSnapshot) -> (r: bool)
    ensures
        r == (a@ == b@),
{
    text::same_option(&a.current_account_id, &b.current_account_id) && text::same_option(
        &a.auth_marker,
        &b.auth_marker,
    )
}

pub open spec fn snapshot_view(s: Option<CurrentAccountSnapshot>) -> Option<SnapshotView> {
    match s {
        Some(x) => Some(x@),
        None => None,
    }
}

pub fn same_snapshots(a: &Option<CurrentAccountSnapshot>, b: &Option<CurrentAccountSnapshot>) -> (r:
    bool)
    ensures
        r == (snapshot_view(*a) == snapshot_view(*b)),
{
    match (a, b) {
        (Some(x), Some(y)) => same_snapshot(x, y),
        (None, None) => true,
        _ => false,
    }
}

pub fn clone_snapshots(a: &Option<CurrentAccountSnapshot>) -> (r: Option<CurrentAccountSnapshot>)
    ensures
        r == *a,
{
    match a {
        Some(x) => Some(x.clone()),
        None => None,
    }
}

pub open spec fn text_or_empty(s: Option<String>) -> Seq<char> {
    match s {
        Some(t) => t@,
        None => Seq::empty(),
    }
}

fn or_empty(s: &Option<String>) -> (r: &str)
    ensures
        r@ == text_or_empty(*s),
{
    match s {
        Some(t) => t.as_str(),
        None => {
            proof {
                reveal_strlit("");
                assert(""@ =~= Seq::<char>::empty());
            }
            ""
        },
    }
}

pub open spec fn refreshed_millis(at: Option<Timestamp>) -> int {
    match at {
        Some(t) => t.millis + t.nanos as int / 1_000_000,
        None => 0,
    }
}

/// The mark of an account's login: its ChatGPT account, when its tokens were
/// last refreshed, and its plan.
pub open spec fn marker_of(account: StoredAccount) -> Seq<char> {
    match account.auth_data {
        AuthData::ChatGPT { account_id, .. } => "chatgpt:"@ + text_or_empty(account_id) + ":"@
            + text::decimal_int(refreshed_millis(account.token_last_refresh_at)) + ":"@
            + text_or_empty(account.plan_type),
        AuthData::ApiKey { .. } => "api_key"@,
    }
}

pub fn current_account_auth_marker(account: &StoredAccount) -> (r: String)
    ensures
        r@ == marker_of(*account),
{
    match &account.auth_data {
        AuthData::ChatGPT { account_id, .. } => {
            let shown = match account.token_last_refresh_at {
                Some(t) => text::signed_sum(t.millis, t.nanos / 1_000_000),
                None => text::signed_number(0),
            };
            text::cat6(
                "chatgpt:",
                or_empty(account_id),
                ":",
                shown.as_str(),
                ":",
                or_empty(&account.plan_type),
            )
        },
        AuthData::ApiKey { .. } => "api_key".to_owned(),
    }
}

pub open spec fn snapshot_of(account: StoredAccount) -> SnapshotView {
    SnapshotView { id: Some(account.id@), marker: Some(marker_of(account)) }
}

pub fn current_account_snapshot_for_account(account: &StoredAccount) -> (r: CurrentAccountSnapshot)
    ensures
        r@ == snapshot_of(*account),
{
    CurrentAccountSnapshot {
        current_account_id: Some(account.id.clone()),
        auth_marker: Some(current_account_auth_marker(account)),
    }
}

pub open spec fn id_of(account: Option<StoredAccount>) -> Option<Seq<char>> {
    match account {
        Some(a) => Some(a.id@),
        None => None,
    }
}

/// The snapshot for what Codex is logged in with: the stored account with the
/// same login, and the mark of the login itself.
pub open spec fn snapshot_for_auth(
    accounts: Seq<StoredAccount>,
    current_auth: Option<StoredAccount>,
) -> SnapshotView {
    match current_auth {
        Some(auth) => SnapshotView {
            id: id_of(search::first_of(accounts, accounts::matches_identity(auth))),
            marker: Some(marker_of(auth)),
        },
        None => SnapshotView { id: None, marker: None },
    }
}

pub fn current_account_snapshot(
    store: &AccountsStore,
    current_auth_account: Option<&StoredAccount>,
) -> (r: CurrentAccountSnapshot)
    ensures
        r@ == snapshot_for_auth(
            store.accounts@,
            match current_auth_account {
                Some(a) => Some(*a),
                None => None,
            },
        ),
{
    match current_auth_account {
        Some(auth) => {
            let current_account_id = match accounts::find_matching_account(store, auth) {
                Some(account) => Some(account.id.clone()),
                None => None,
            };
            CurrentAccountSnapshot {
                current_account_id,
                auth_marker: Some(current_account_auth_marker(auth)),
            }
        },
        None => CurrentAccountSnapshot { current_account_id: None, auth_marker: None },
    }
}

/// The snapshot that goes with a prepared login: that of its account, where it
/// is the current one.
pub fn prepared_current_account_snapshot(
    account: &StoredAccount,
    current: &CurrentAccountSnapshot,
) -> (r: Option<CurrentAccountSnapshot>)
    ensures
        match r {
            Some(s) => s@ == snapshot_of(*account) && current@ == snapshot_of(*account),
            None => current@ != snapshot_of(*account),
        },
{
    let prepared = current_account_snapshot_for_account(account);
    if same_snapshot(current, &prepared) {
        Some(prepared)
    } else {
        None
    }
}

// ---------------------------------------------------------------------------
// Credentials
// ---------------------------------------------------------------------------

/// Two accounts would be written to auth.json alike.
pub open spec fn same_credentials(a: StoredAccount, b: StoredAccount) -> bool {
    a.token_last_refresh_at == b.token_last_refresh_at && match (a.auth_data, b.auth_data) {
        (AuthData::ApiKey { key: x }, AuthData::ApiKey { key: y }) => x@ == y@,
        (
            AuthData::ChatGPT { id_token: i, access_token: a, refresh_token: r, account_id: c },
            AuthData::ChatGPT { id_token: j, access_token: b, refresh_token: s, account_id: d },
        ) => i@ == j@ && a@ == b@ && r@ == s@ && text::opt_view(c) == text::opt_view(d),
        _ => false,
    }
}

fn same_timestamps(a: Option<Timestamp>, b: Option<Timestamp>) -> (r: bool)
    ensures
        r == (a == b),
{
    match (a, b) {
        (Some(x), Some(y)) => x == y,
        (None, None) => true,
        _ => false,
    }
}

pub fn auth_serialized_credentials_match(left: &StoredAccount, right: &StoredAccount) -> (r: bool)
    ensures
        r == same_credentials(*left, *right),
{
    if !same_timestamps(left.token_last_refresh_at, right.token_last_refresh_at) {
        return false;
    }
    match (&left.auth_data, &right.auth_data) {
        (AuthData::ApiKey { key: x }, AuthData::ApiKey { key: y }) => text::same(
            x.as_str(),
            y.as_str(),
        ),
        (
            AuthData::ChatGPT { id_token: i, access_token: a, refresh_token: r, account_id: c },
            AuthData::ChatGPT { id_token: j, access_token: b, refresh_token: s, account_id: d },
        ) => text::same(i.as_str(), j.as_str()) && text::same(a.as_str(), b.as_str()) && text::same(
            r.as_str(),
            s.as_str(),
        ) && text::same_option(c, d),
        _ => false,
    }
}

/// The credentials comparison is an equivalence.
pub proof fn credentials_match_is_an_equivalence(
    a: StoredAccount,
    b: StoredAccount,
    c: StoredAccount,
)
    ensures
        same_credentials(a, a),
        same_credentials(a, b) == same_credentials(b, a),
        same_credentials(a, b) && same_credentials(b, c) ==> same_credentials(a, c),
{
}

/// The stored account with this id, or the given one where it is not stored.
pub open spec fn latest_of(accounts: Seq<StoredAccount>, fallback: StoredAccount) -> StoredAccount {
    match search::first_of(accounts, accounts::has_id(fallback.id@)) {
        Some(a) => a,
        None => fallback,
    }
}

fn latest(store: &AccountsStore, fallback: StoredAccount) -> (r: StoredAccount)
    ensures
        r == latest_of(store.accounts@, fallback),
{
    match accounts::find_by_id(&store.accounts, fallback.id.as_str()) {
        Some(a) => a.clone(),
        None => fallback,
    }
}

pub fn latest_current_account_snapshot(
    store: &AccountsStore,
    fallback_account: StoredAccount,
) -> (r: (StoredAccount, CurrentAccountSnapshot))
    ensures
        r.0 == latest_of(store.accounts@, fallback_account),
        r.1@ == snapshot_of(r.0),
{
    let account = latest(store, fallback_account);
    let snapshot = current_account_snapshot_for_account(&account);
    (account, snapshot)
}

/// How Codex's login is brought in line with an account.
pub enum AuthSync {
    /// Codex is logged in with another account, or with none: leave it alone.
    NotCurrent,
    /// Codex has this account's latest credentials.
    InStep(StoredAccount),
    /// This account's credentials have to be written for Codex.
    Write(StoredAccount),
}

pub open spec fn sync_of(
    accounts: Seq<StoredAccount>,
    current_auth: Option<StoredAccount>,
    account: StoredAccount,
) -> AuthSync {
    let newest = latest_of(accounts, account);
    match current_auth {
        None => AuthSync::NotCurrent,
        Some(auth) => match search::first_of(accounts, accounts::matches_identity(auth)) {
            None => AuthSync::NotCurrent,
            Some(current) => if current.id@ != newest.id@ {
                AuthSync::NotCurrent
            } else if same_credentials(auth, newest) {
                AuthSync::InStep(newest)
            } else {
                AuthSync::Write(newest)
            },
        },
    }
}

pub open spec fn deref(a: Option<&StoredAccount>) -> Option<StoredAccount> {
    match a {
        Some(x) => Some(*x),
        None => None,
    }
}

pub fn sync_current_account_auth(
    store: &AccountsStore,
    current_auth_account: Option<&StoredAccount>,
    account: StoredAccount,
) -> (r: AuthSync)
    ensures
        r == sync_of(store.accounts@, deref(current_auth_account), account),
{
    let newest = latest(store, account);
    match current_auth_account {
        None => AuthSync::NotCurrent,
        Some(auth) => match accounts::find_matching_account(store, auth) {
            None => AuthSync::NotCurrent,
            Some(current) => if !text::same(current.id.as_str(), newest.id.as_str()) {
                AuthSync::NotCurrent
            } else if auth_serialized_credentials_match(auth, &newest) {
                AuthSync::InStep(newest)
            } else {
                AuthSync::Write(newest)
            },
        },
    }
}

/// Once synchronised, an account stays in step: nothing is written twice.
pub proof fn syncing_settles(
    accounts: Seq<StoredAccount>,
    auth: StoredAccount,
    account: StoredAccount,
    written: StoredAccount,
)
    requires
        sync_of(accounts, Some(auth), account) == AuthSync::Write(written),
        search::first_of(accounts, accounts::matches_identity(written)) == search::first_of(
            accounts,
            accounts::matches_identity(auth),
        ),
    ensures
        sync_of(accounts, Some(written), account) == AuthSync::InStep(written),
{
}

pub fn select_current_kept_login_account(
    account: StoredAccount,
    current_snapshot: &CurrentAccountSnapshot,
    app_server_account_id: Option<&str>,
    app_server_snapshot: &Option<CurrentAccountSnapshot>,
) -> (r: Option<StoredAccount>)
    ensures
        r == (if accounts::str_view(app_server_account_id) == Some(account.id@) && snapshot_view(
            *app_server_snapshot,
        ) == Some(current_snapshot@) {
            None
        } else {
            Some(account)
        }),
{
    let same_account: bool = match app_server_account_id {
        Some(id) => text::same(id, account.id.as_str()),
        None => false,
    };
    let same_login: bool = match app_server_snapshot {
        Some(s) => same_snapshot(s, current_snapshot),
        None => false,
    };
    if same_account && same_login {
        None
    } else {
        Some(account)
    }
}

// ---------------------------------------------------------------------------
// What is sent
// ---------------------------------------------------------------------------

/// What the app-server is logged in with. No `Debug`: there is a token in it.
pub struct ExternalAuthPayload {
    pub access_token: String,
    pub chatgpt_account_id: String,
    pub chatgpt_plan_type: Option<String>,
}

pub const NO_CHATGPT_ACCOUNT_ID: &'static str = "ChatGPT account id is required for runtime switching";

pub const NO_API_KEYS: &'static str = "API key accounts do not support runtime switching";

/// What can be sent for an account, or why nothing can.
pub open spec fn payload_of(account: StoredAccount) -> Result<
    (Seq<char>, Seq<char>, Option<Seq<char>>),
    Seq<char>,
> {
    match account.auth_data {
        AuthData::ChatGPT { access_token, account_id, .. } => match account_id {
            Some(id) => if text::is_blank(id@) {
                Err(NO_CHATGPT_ACCOUNT_ID@)
            } else {
                Ok((access_token@, id@, text::opt_view(account.plan_type)))
            },
            None => Err(NO_CHATGPT_ACCOUNT_ID@),
        },
        AuthData::ApiKey { .. } => Err(NO_API_KEYS@),
    }
}

pub fn external_auth_payload_from_fresh_account(account: &StoredAccount) -> (r: Result<
    ExternalAuthPayload,
    String,
>)
    ensures
        match r {
            Ok(p) => payload_of(*account) == Ok::<_, Seq<char>>(
                (p.access_token@, p.chatgpt_account_id@, text::opt_view(p.chatgpt_plan_type)),
            ),
            Err(m) => payload_of(*account) == Err::<(Seq<char>, Seq<char>, Option<Seq<char>>), _>(
                m@,
            ),
        },
{
    match &account.auth_data {
        AuthData::ChatGPT { access_token, account_id, .. } => match account_id {
            Some(id) => if text::blank(id.as_str()) {
                Err(NO_CHATGPT_ACCOUNT_ID.to_owned())
            } else {
                Ok(
                    ExternalAuthPayload {
                        access_token: access_token.clone(),
                        chatgpt_account_id: id.clone(),
                        chatgpt_plan_type: text::clone_option(&account.plan_type),
                    },
                )
            },
            None => Err(NO_CHATGPT_ACCOUNT_ID.to_owned()),
        },
        AuthData::ApiKey { .. } => Err(NO_API_KEYS.to_owned()),
    }
}

pub struct PreparedAccountLogin {
    pub account_id: String,
    pub account_label: String,
    pub payload: ExternalAuthPayload,
    pub current_snapshot: Option<CurrentAccountSnapshot>,
}

/// The login is ready for the account, while `current` is what is current.
pub open spec fn is_prepared(
    p: PreparedAccountLogin,
    account: StoredAccount,
    current: SnapshotView,
) -> bool {
    &&& payload_of(account) == Ok::<_, Seq<char>>(
        (
            p.payload.access_token@,
            p.payload.chatgpt_account_id@,
            text::opt_view(p.payload.chatgpt_plan_type),
        ),
    )
    &&& p.account_id@ == account.id@
    &&& p.account_label@ == shown::safe_label(account)
    &&& snapshot_view(p.current_snapshot) == if current == snapshot_of(account) {
        Some(current)
    } else {
        None
    }
}

/// Gets a login ready for an account whose tokens are fresh.
pub fn prepare_login_from_fresh_account(
    account: &StoredAccount,
    current: &CurrentAccountSnapshot,
) -> (r: Result<PreparedAccountLogin, String>)
    ensures
        match r {
            Ok(p) => is_prepared(p, *account, current@),
            Err(m) => payload_of(*account) == Err::<(Seq<char>, Seq<char>, Option<Seq<char>>), _>(
                m@,
            ),
        },
{
    match external_auth_payload_from_fresh_account(account) {
        Ok(payload) => Ok(
            PreparedAccountLogin {
                account_id: account.id.clone(),
                account_label: shown::display_safe_account_label(account),
                payload,
                current_snapshot: prepared_current_account_snapshot(account, current),
            },
        ),
        Err(m) => Err(m),
    }
}

/// What the app-server is known to run with.
#[derive(Debug)]
pub struct RuntimeLoadedAuth {
    pub account_id: String,
    pub account_label: String,
    pub chatgpt_account_id: String,
    pub access_token_expires_at: Option<Timestamp>,
    pub current_snapshot: Option<CurrentAccountSnapshot>,
}

impl Clone for RuntimeLoadedAuth {
    fn clone(&self) -> (r: Self)
        ensures
            r == *self,
    {
        RuntimeLoadedAuth {
            account_id: self.account_id.clone(),
            account_label: self.account_label.clone(),
            chatgpt_account_id: self.chatgpt_account_id.clone(),
            access_token_expires_at: self.access_token_expires_at,
            current_snapshot: clone_snapshots(&self.current_snapshot),
        }
    }
}

/// What the app-server runs with once it took a login whose token ends then.
pub open spec fn loaded_until(
    prepared: PreparedAccountLogin,
    snapshot: Option<CurrentAccountSnapshot>,
    token_end: Option<Timestamp>,
) -> RuntimeLoadedAuth {
    RuntimeLoadedAuth {
        account_id: prepared.account_id,
        account_label: prepared.account_label,
        chatgpt_account_id: prepared.payload.chatgpt_account_id,
        access_token_expires_at: token_end,
        current_snapshot: snapshot,
    }
}

/// What the app-server runs with once it took a login. The end of its token is what
/// the token in the login says.
pub open spec fn loaded_from(
    prepared: PreparedAccountLogin,
    snapshot: Option<CurrentAccountSnapshot>,
) -> RuntimeLoadedAuth {
    loaded_until(prepared, snapshot, auth_json::token_end(prepared.payload.access_token@))
}

pub fn loaded_auth_until(
    prepared: &PreparedAccountLogin,
    current_snapshot: Option<CurrentAccountSnapshot>,
    token_end: Option<Timestamp>,
) -> (r: RuntimeLoadedAuth)
    ensures
        r == loaded_until(*prepared, current_snapshot, token_end),
{
    RuntimeLoadedAuth {
        account_id: prepared.account_id.clone(),
        account_label: prepared.account_label.clone(),
        chatgpt_account_id: prepared.payload.chatgpt_account_id.clone(),
        access_token_expires_at: token_end,
        current_snapshot,
    }
}

pub fn runtime_loaded_auth_from_prepared(
    prepared: &PreparedAccountLogin,
    current_snapshot: Option<CurrentAccountSnapshot>,
) -> (r: RuntimeLoadedAuth)
    ensures
        r == loaded_from(*prepared, current_snapshot),
{
    let token_end = auth_json::access_token_expires_at(prepared.payload.access_token.as_str());
    loaded_auth_until(prepared, current_snapshot, token_end)
}

/// The app-server runs with the account, and with a payload whose token ends then.
pub open spec fn is_loaded(
    r: RuntimeLoadedAuth,
    account: StoredAccount,
    payload: ExternalAuthPayload,
    token_end: Option<Timestamp>,
    is_current: Option<bool>,
) -> bool {
    &&& r.account_id@ == account.id@
    &&& r.account_label@ == shown::safe_label(account)
    &&& r.chatgpt_account_id == payload.chatgpt_account_id
    &&& r.access_token_expires_at == token_end
    &&& snapshot_view(r.current_snapshot) == if is_current == Some(true) {
        Some(snapshot_of(account))
    } else {
        None
    }
}

/// What the app-server runs with after it asked for fresh tokens. `is_current`
/// says whether the account is the current one, where that could be told.
pub fn runtime_loaded_auth_from_account_and_payload(
    account: &StoredAccount,
    payload: &ExternalAuthPayload,
    is_current: Option<bool>,
) -> (r: RuntimeLoadedAuth)
    ensures
        is_loaded(
            r,
            *account,
            *payload,
            auth_json::token_end(payload.access_token@),
            is_current,
        ),
{
    let token_end = auth_json::access_token_expires_at(payload.access_token.as_str());
    loaded_payload_until(account, payload, token_end, is_current)
}

/// The same, for a token that ends then.
pub fn loaded_payload_until(
    account: &StoredAccount,
    payload: &ExternalAuthPayload,
    token_end: Option<Timestamp>,
    is_current: Option<bool>,
) -> (r: RuntimeLoadedAuth)
    ensures
        is_loaded(r, *account, *payload, token_end, is_current),
{
    let current: bool = match is_current {
        Some(b) => b,
        None => false,
    };
    let current_snapshot = if current {
        Some(current_account_snapshot_for_account(account))
    } else {
        None
    };
    RuntimeLoadedAuth {
        account_id: account.id.clone(),
        account_label: shown::display_safe_account_label(account),
        chatgpt_account_id: payload.chatgpt_account_id.clone(),
        access_token_expires_at: token_end,
        current_snapshot,
    }
}

pub fn runtime_chatgpt_account_matches(
    account: &StoredAccount,
    loaded_auth: &RuntimeLoadedAuth,
) -> (r: bool)
    ensures
        r == (text::opt_view(accounts::chatgpt_id(*account)) == Some(
            loaded_auth.chatgpt_account_id@,
        )),
{
    match accounts::chatgpt_account_id(account) {
        Some(id) => text::same(id.as_str(), loaded_auth.chatgpt_account_id.as_str()),
        None => false,
    }
}

// ---------------------------------------------------------------------------
// Notices to the client
// ---------------------------------------------------------------------------

#[derive(Debug)]
pub enum RuntimeClientNotification {
    Warning { message: String },
}

impl RuntimeClientNotification {
    pub open spec fn text(self) -> Seq<char> {
        match self {
            RuntimeClientNotification::Warning { message } => message@,
        }
    }

    pub fn message(&self) -> (r: &str)
        ensures
            r@ == self.text(),
    {
        match self {
            RuntimeClientNotification::Warning { message } => message.as_str(),
        }
    }
}

impl Clone for RuntimeClientNotification {
    fn clone(&self) -> (r: Self)
        ensures
            r == *self,
    {
        match self {
            RuntimeClientNotification::Warning { message } => RuntimeClientNotification::Warning {
                message: message.clone(),
            },
        }
    }
}

/// What is told once a login has worked.
#[derive(Debug)]
pub enum RuntimeLoginSuccessNotification {
    /// This notice, in any case.
    Client(RuntimeClientNotification),
    /// That auth.json brought another account, if it did.
    AuthJsonSwitch { to_label: String },
}

impl Clone for RuntimeLoginSuccessNotification {
    fn clone(&self) -> (r: Self)
        ensures
            r == *self,
    {
        match self {
            RuntimeLoginSuccessNotification::Client(n) => RuntimeLoginSuccessNotification::Client(
                n.clone(),
            ),
            RuntimeLoginSuccessNotification::AuthJsonSwitch { to_label } => {
                RuntimeLoginSuccessNotification::AuthJsonSwitch { to_label: to_label.clone() }
            },
        }
    }
}

pub fn clone_notification(n: &Option<RuntimeLoginSuccessNotification>) -> (r: Option<
    RuntimeLoginSuccessNotification,
>)
    ensures
        r == *n,
{
    match n {
        Some(x) => Some(x.clone()),
        None => None,
    }
}

/// The notice of a switch.
pub open spec fn switch_notice(
    from: Option<Seq<char>>,
    to: Seq<char>,
    reason: Seq<char>,
) -> Seq<char> {
    match from {
        Some(f) => "codex-switch switched account from "@ + f + " to "@ + to + " because "@
            + reason,
        None => "codex-switch switched account to "@ + to + " because "@ + reason,
    }
}

fn notice(from: Option<&str>, to: &str, reason: &str) -> (r: RuntimeClientNotification)
    ensures
        r.text() == switch_notice(accounts::str_view(from), to@, reason@),
{
    let message = match from {
        Some(f) => text::cat6(
            "codex-switch switched account from ",
            f,
            " to ",
            to,
            " because ",
            reason,
        ),
        None => text::cat4("codex-switch switched account to ", to, " because ", reason),
    };
    RuntimeClientNotification::Warning { message }
}

pub open spec fn label_of(account: Option<StoredAccount>) -> Option<Seq<char>> {
    match account {
        Some(a) => Some(shown::safe_label(a)),
        None => None,
    }
}

pub fn runtime_auto_switch_success_notification(
    from: Option<&StoredAccount>,
    to: &StoredAccount,
    reason: &str,
) -> (r: Option<RuntimeClientNotification>)
    ensures
        match r {
            Some(n) => id_of(deref(from)) != Some(to.id@) && n.text() == switch_notice(
                label_of(deref(from)),
                shown::safe_label(*to),
                shown::sanitized(reason@),
            ),
            None => id_of(deref(from)) == Some(to.id@),
        },
{
    let to_label = shown::display_safe_account_label(to);
    let reason = shown::sanitize_startup_log_message(reason);
    match from {
        Some(f) => if text::same(f.id.as_str(), to.id.as_str()) {
            None
        } else {
            let from_label = shown::display_safe_account_label(f);
            Some(notice(Some(from_label.as_str()), to_label.as_str(), reason.as_str()))
        },
        None => Some(notice(None, to_label.as_str(), reason.as_str())),
    }
}

pub fn runtime_auth_json_switch_notification(to: &StoredAccount) -> (r:
    RuntimeLoginSuccessNotification)
    ensures
        r matches RuntimeLoginSuccessNotification::AuthJsonSwitch { to_label } && to_label@
            == shown::safe_label(*to),
{
    RuntimeLoginSuccessNotification::AuthJsonSwitch {
        to_label: shown::display_safe_account_label(to),
    }
}

pub const AUTH_JSON_CHANGED: &'static str = "current auth.json changed";

/// What a success notice says, where the app-server ran with `from` before.
pub open spec fn success_text(
    notification: RuntimeLoginSuccessNotification,
    from: Option<Seq<char>>,
) -> Seq<char> {
    match notification {
        RuntimeLoginSuccessNotification::Client(n) => n.text(),
        RuntimeLoginSuccessNotification::AuthJsonSwitch { to_label } => switch_notice(
            from,
            to_label@,
            AUTH_JSON_CHANGED@,
        ),
    }
}

pub fn runtime_login_success_client_notification(
    notification: RuntimeLoginSuccessNotification,
    from_label: Option<&str>,
) -> (r: RuntimeClientNotification)
    ensures
        r.text() == success_text(notification, accounts::str_view(from_label)),
{
    match notification {
        RuntimeLoginSuccessNotification::Client(n) => n,
        RuntimeLoginSuccessNotification::AuthJsonSwitch { to_label } => notice(
            from_label,
            to_label.as_str(),
            AUTH_JSON_CHANGED,
        ),
    }
}

/// What the client is told: a notice of the runtime's own in any case, one
/// about auth.json only where the account changed.
pub open spec fn told(
    notification: Option<RuntimeLoginSuccessNotification>,
    from: Option<Seq<char>>,
    account_changed: bool,
) -> Option<Seq<char>> {
    match notification {
        None => None,
        Some(n) => if n is Client || account_changed {
            Some(success_text(n, from))
        } else {
            None
        },
    }
}

pub open spec fn notice_text(n: Option<RuntimeClientNotification>) -> Option<Seq<char>> {
    match n {
        Some(x) => Some(x.text()),
        None => None,
    }
}

pub fn runtime_login_success_client_notification_if_needed(
    notification: Option<RuntimeLoginSuccessNotification>,
    from_label: Option<&str>,
    account_changed: bool,
) -> (r: Option<RuntimeClientNotification>)
    ensures
        notice_text(r) == told(notification, accounts::str_view(from_label), account_changed),
{
    match notification {
        None => None,
        Some(n) => {
            let always: bool = match &n {
                RuntimeLoginSuccessNotification::Client(_) => true,
                RuntimeLoginSuccessNotification::AuthJsonSwitch { .. } => false,
            };
            if always || account_changed {
                Some(runtime_login_success_client_notification(n, from_label))
            } else {
                None
            }
        },
    }
}

/// Two notices for one login: the runtime's own wins over one about auth.json,
/// and the first of a kind stays.
pub open spec fn merged(
    target: Option<RuntimeLoginSuccessNotification>,
    incoming: Option<RuntimeLoginSuccessNotification>,
) -> Option<RuntimeLoginSuccessNotification> {
    match (target, incoming) {
        (_, None) => target,
        (None, Some(i)) => Some(i),
        (Some(t), Some(i)) => if t is Client || i is AuthJsonSwitch {
            Some(t)
        } else {
            Some(i)
        },
    }
}

pub fn merge_runtime_login_success_notification(
    target: Option<RuntimeLoginSuccessNotification>,
    incoming: Option<RuntimeLoginSuccessNotification>,
) -> (r: Option<RuntimeLoginSuccessNotification>)
    ensures
        r == merged(target, incoming),
{
    match (target, incoming) {
        (t, None) => t,
        (None, Some(i)) => Some(i),
        (Some(RuntimeLoginSuccessNotification::Client(n)), Some(_)) => Some(
            RuntimeLoginSuccessNotification::Client(n),
        ),
        (
            Some(RuntimeLoginSuccessNotification::AuthJsonSwitch { to_label }),
            Some(RuntimeLoginSuccessNotification::AuthJsonSwitch { .. }),
        ) => Some(RuntimeLoginSuccessNotification::AuthJsonSwitch { to_label }),
        (
            Some(RuntimeLoginSuccessNotification::AuthJsonSwitch { .. }),
            Some(RuntimeLoginSuccessNotification::Client(n)),
        ) => Some(RuntimeLoginSuccessNotification::Client(n)),
    }
}

/// Merging is associative and never loses a notice of the runtime's own.
pub proof fn merging_notices(
    a: Option<RuntimeLoginSuccessNotification>,
    b: Option<RuntimeLoginSuccessNotification>,
    c: Option<RuntimeLoginSuccessNotification>,
)
    ensures
        merged(merged(a, b), c) == merged(a, merged(b, c)),
        merged(a, b) is None <==> a is None && b is None,
        (a matches Some(n) && n is Client) || (b matches Some(n) && n is Client) ==> (merged(a, b)
            matches Some(m) && m is Client),
{
}

// ---------------------------------------------------------------------------
// Commands and their outcome
// ---------------------------------------------------------------------------

/// A login that the proxy is asked to make. A completion is known by its number.
pub struct RuntimeLoginCommand {
    pub prepared: PreparedAccountLogin,
    pub expected_snapshot: Option<CurrentAccountSnapshot>,
    pub generation: Option<u64>,
    pub completion: Option<u64>,
    pub success_notification: Option<RuntimeLoginSuccessNotification>,
}

impl RuntimeLoginCommand {
    pub fn fire_and_forget(prepared: PreparedAccountLogin) -> (r: Self)
        ensures
            r.prepared == prepared,
            r.expected_snapshot == prepared.current_snapshot,
            r.generation is None,
            r.completion is None,
            r.success_notification is None,
    {
        let expected_snapshot = clone_snapshots(&prepared.current_snapshot);
        RuntimeLoginCommand {
            prepared,
            expected_snapshot,
            generation: None,
            completion: None,
            success_notification: None,
        }
    }

    pub fn auto_switch(
        prepared: PreparedAccountLogin,
        generation: u64,
        success_notification: Option<RuntimeLoginSuccessNotification>,
    ) -> (r: Self)
        ensures
            r.prepared == prepared,
            r.expected_snapshot == prepared.current_snapshot,
            r.generation == Some(generation),
            r.completion is None,
            r.success_notification == success_notification,
    {
        let expected_snapshot = clone_snapshots(&prepared.current_snapshot);
        RuntimeLoginCommand {
            prepared,
            expected_snapshot,
            generation: Some(generation),
            completion: None,
            success_notification,
        }
    }

    pub fn reconciled(
        prepared: PreparedAccountLogin,
        expected_snapshot: CurrentAccountSnapshot,
        completion: u64,
        success_notification: Option<RuntimeLoginSuccessNotification>,
    ) -> (r: Self)
        ensures
            r == (RuntimeLoginCommand {
                prepared,
                expected_snapshot: Some(expected_snapshot),
                generation: None,
                completion: Some(completion),
                success_notification,
            }),
    {
        RuntimeLoginCommand {
            prepared,
            expected_snapshot: Some(expected_snapshot),
            generation: None,
            completion: Some(completion),
            success_notification,
        }
    }

    pub fn prewarm(
        prepared: PreparedAccountLogin,
        expected_snapshot: CurrentAccountSnapshot,
    ) -> (r: Self)
        ensures
            r == (RuntimeLoginCommand {
                prepared,
                expected_snapshot: Some(expected_snapshot),
                generation: None,
                completion: None,
                success_notification: None,
            }),
    {
        RuntimeLoginCommand {
            prepared,
            expected_snapshot: Some(expected_snapshot),
            generation: None,
            completion: None,
            success_notification: None,
        }
    }

    pub fn with_completion(self, completion: u64) -> (r: Self)
        ensures
            r == (RuntimeLoginCommand { completion: Some(completion), ..self }),
    {
        RuntimeLoginCommand {
            prepared: self.prepared,
            expected_snapshot: self.expected_snapshot,
            generation: self.generation,
            completion: Some(completion),
            success_notification: self.success_notification,
        }
    }

    /// The secrets that a log line about this login could hold.
    pub fn secret_values(&self) -> (r: Vec<String>)
        ensures
            r@ == seq![self.prepared.payload.access_token],
    {
        let mut r: Vec<String> = Vec::new();
        r.push(self.prepared.payload.access_token.clone());
        assert(r@ =~= seq![self.prepared.payload.access_token]);
        r
    }
}

#[derive(Debug)]
pub enum RuntimeLoginResult {
    Success,
    Stale,
    Deferred(String),
    Transient(String),
    Terminal(String),
}

pub enum LoginResultView {
    Success,
    Stale,
    Deferred(Seq<char>),
    Transient(Seq<char>),
    Terminal(Seq<char>),
}

impl View for RuntimeLoginResult {
    type V = LoginResultView;

    open spec fn view(&self) -> LoginResultView {
        match self {
            RuntimeLoginResult::Success => LoginResultView::Success,
            RuntimeLoginResult::Stale => LoginResultView::Stale,
            RuntimeLoginResult::Deferred(m) => LoginResultView::Deferred(m@),
            RuntimeLoginResult::Transient(m) => LoginResultView::Transient(m@),
            RuntimeLoginResult::Terminal(m) => LoginResultView::Terminal(m@),
        }
    }
}

impl Clone for RuntimeLoginResult {
    fn clone(&self) -> (r: Self)
        ensures
            r == *self,
    {
        match self {
            RuntimeLoginResult::Success => RuntimeLoginResult::Success,
            RuntimeLoginResult::Stale => RuntimeLoginResult::Stale,
            RuntimeLoginResult::Deferred(m) => RuntimeLoginResult::Deferred(m.clone()),
            RuntimeLoginResult::Transient(m) => RuntimeLoginResult::Transient(m.clone()),
            RuntimeLoginResult::Terminal(m) => RuntimeLoginResult::Terminal(m.clone()),
        }
    }
}

/// What in a message means that trying again is of no use.
pub open spec fn terminal_signs() -> Seq<Seq<char>> {
    seq![
        "api key accounts do not support runtime switching"@,
        "chatgpt account id is required"@,
        "missing refresh token"@,
        "invalid_grant"@,
        "invalid refresh"@,
        "revoked"@,
        "unauthorized"@,
        "forbidden"@,
        "invalid_request"@,
        "400"@,
        "401"@,
        "403"@,
    ]
}

pub open spec fn is_terminal(message: Seq<char>) -> bool {
    exists|i: int|
        0 <= i < terminal_signs().len() && text::has_text(
            text::lowered(message),
            #[trigger] terminal_signs()[i],
        )
}

pub open spec fn classified(message: Seq<char>) -> LoginResultView {
    if is_terminal(message) {
        LoginResultView::Terminal(message)
    } else {
        LoginResultView::Transient(message)
    }
}

pub fn classify_runtime_login_error(message: &str) -> (r: RuntimeLoginResult)
    ensures
        r@ == classified(message@),
{
    let normalized = text::to_lower(message);
    let n = normalized.as_str();
    let ghost all = terminal_signs();
    let ghost low = text::lowered(message@);
    let found: bool = text::contains(n, "api key accounts do not support runtime switching")
        || text::contains(n, "chatgpt account id is required") || text::contains(
        n,
        "missing refresh token",
    ) || text::contains(n, "invalid_grant") || text::contains(n, "invalid refresh")
        || text::contains(n, "revoked") || text::contains(n, "unauthorized") || text::contains(
        n,
        "forbidden",
    ) || text::contains(n, "invalid_request") || text::contains(n, "400") || text::contains(
        n,
        "401",
    ) || text::contains(n, "403");
    proof {
        assert(found == (text::has_text(low, all[0]) || text::has_text(low, all[1])
            || text::has_text(low, all[2]) || text::has_text(low, all[3]) || text::has_text(
            low,
            all[4],
        ) || text::has_text(low, all[5]) || text::has_text(low, all[6]) || text::has_text(
            low,
            all[7],
        ) || text::has_text(low, all[8]) || text::has_text(low, all[9]) || text::has_text(
            low,
            all[10],
        ) || text::has_text(low, all[11])));
        assert(all.len() == 12);
    }
    if found {
        RuntimeLoginResult::Terminal(message.to_owned())
    } else {
        RuntimeLoginResult::Transient(message.to_owned())
    }
}

// ---------------------------------------------------------------------------
// Laws
// ---------------------------------------------------------------------------

/// What is sent for an account is its own access token, its own ChatGPT account and
/// its own plan. Nothing is sent for a key, nor for a login without an account.
pub proof fn payloads_are_of_the_account(account: StoredAccount)
    ensures
        match payload_of(account) {
            Ok(p) => {
                &&& account.is_chatgpt()
                &&& p.0 == account.auth_data->access_token@
                &&& Some(p.1) == text::opt_view(accounts::chatgpt_id(account))
                &&& !text::is_blank(p.1)
                &&& p.2 == text::opt_view(account.plan_type)
            },
            Err(_) => accounts::chatgpt_id(account) is None || text::is_blank(
                accounts::chatgpt_id(account)->Some_0@,
            ),
        },
{
}

/// A login that is ready goes by the id and the label of its account, sends that
/// account's token, and expects the account to be current only where it is.
pub proof fn prepared_logins_are_of_the_account(
    p: PreparedAccountLogin,
    account: StoredAccount,
    current: SnapshotView,
)
    requires
        is_prepared(p, account, current),
    ensures
        account.is_chatgpt(),
        p.account_id@ == account.id@,
        p.payload.access_token@ == account.auth_data->access_token@,
        Some(p.payload.chatgpt_account_id@) == text::opt_view(accounts::chatgpt_id(account)),
        text::opt_view(p.payload.chatgpt_plan_type) == text::opt_view(account.plan_type),
        p.current_snapshot matches Some(s) ==> s@ == current && s@.id == Some(account.id@),
        current.id != Some(account.id@) ==> p.current_snapshot is None,
{
    payloads_are_of_the_account(account);
}

/// The app-server is known to run with what it was logged in with: the account, its
/// label, the ChatGPT account, and a token that ends when it says.
pub proof fn what_is_loaded_is_what_was_sent(
    p: PreparedAccountLogin,
    snapshot: Option<CurrentAccountSnapshot>,
)
    ensures
        ({
            let loaded = loaded_from(p, snapshot);
            &&& loaded.account_id == p.account_id
            &&& loaded.account_label == p.account_label
            &&& loaded.chatgpt_account_id == p.payload.chatgpt_account_id
            &&& loaded.access_token_expires_at == auth_json::token_end(p.payload.access_token@)
            &&& loaded.current_snapshot == snapshot
        }),
{
}

/// A mark changes with the ChatGPT account, with the refresh, to the millisecond,
/// and with the plan, where account ids hold no colon; and it tells a key from a
/// ChatGPT login.
pub proof fn marks_change_with_the_login(a: StoredAccount, b: StoredAccount)
    requires
        marker_of(a) == marker_of(b),
        !text_or_empty(accounts::chatgpt_id(a)).contains(':'),
        !text_or_empty(accounts::chatgpt_id(b)).contains(':'),
    ensures
        a.is_chatgpt() == b.is_chatgpt(),
        a.is_chatgpt() ==> {
            &&& text_or_empty(accounts::chatgpt_id(a)) == text_or_empty(accounts::chatgpt_id(b))
            &&& refreshed_millis(a.token_last_refresh_at) == refreshed_millis(
                b.token_last_refresh_at,
            )
            &&& text_or_empty(a.plan_type) == text_or_empty(b.plan_type)
        },
{
    reveal_strlit("chatgpt:");
    reveal_strlit(":");
    reveal_strlit("api_key");
    if a.is_chatgpt() && !b.is_chatgpt() {
        assert(marker_of(a)[0] == 'c' && marker_of(b)[0] == 'a');
    } else if b.is_chatgpt() && !a.is_chatgpt() {
        assert(marker_of(b)[0] == 'c' && marker_of(a)[0] == 'a');
    } else if a.is_chatgpt() {
        let x = text_or_empty(accounts::chatgpt_id(a));
        let y = text_or_empty(accounts::chatgpt_id(b));
        let m = text::decimal_int(refreshed_millis(a.token_last_refresh_at));
        let n = text::decimal_int(refreshed_millis(b.token_last_refresh_at));
        let p = text_or_empty(a.plan_type);
        let q = text_or_empty(b.plan_type);
        let s = marker_of(a).skip(8);
        assert(s =~= x + ":"@ + m + ":"@ + p);
        assert(s =~= y + ":"@ + n + ":"@ + q);
        assert(s =~= x + seq![':'] + (m + ":"@ + p));
        assert(s =~= y + seq![':'] + (n + ":"@ + q));
        first_parts_agree(x, m + ":"@ + p, y, n + ":"@ + q);
        numbers_hold_no_colon(refreshed_millis(a.token_last_refresh_at));
        numbers_hold_no_colon(refreshed_millis(b.token_last_refresh_at));
        assert(m + ":"@ + p =~= m + seq![':'] + p);
        assert(n + ":"@ + q =~= n + seq![':'] + q);
        first_parts_agree(m, p, n, q);
        numbers_differ(
            refreshed_millis(a.token_last_refresh_at),
            refreshed_millis(b.token_last_refresh_at),
        );
    }
}

proof fn first_parts_agree(a: Seq<char>, x: Seq<char>, b: Seq<char>, y: Seq<char>)
    requires
        a + seq![':'] + x == b + seq![':'] + y,
        !a.contains(':'),
        !b.contains(':'),
    ensures
        a == b,
        x == y,
{
    let s = a + seq![':'] + x;
    let t = b + seq![':'] + y;
    if a.len() < b.len() {
        assert(s[a.len() as int] == ':');
        assert(t[a.len() as int] == b[a.len() as int]);
        assert(b.contains(b[a.len() as int]));
    } else if b.len() < a.len() {
        assert(t[b.len() as int] == ':');
        assert(s[b.len() as int] == a[b.len() as int]);
        assert(a.contains(a[b.len() as int]));
    }
    assert(a =~= s.take(a.len() as int));
    assert(b =~= t.take(b.len() as int));
    assert(x =~= s.skip(a.len() as int + 1));
    assert(y =~= t.skip(b.len() as int + 1));
}

proof fn numbers_hold_no_colon(n: int)
    ensures
        !text::decimal_int(n).contains(':'),
{
    let s = text::decimal_int(n);
    let m = if n < 0 {
        (-n) as nat
    } else {
        n as nat
    };
    text::numbers_read_back(m);
    let d = text::decimal(m);
    assert forall|i: int| 0 <= i < s.len() implies s[i] != ':' by {
        if n < 0 {
            if i > 0 {
                assert(s[i] == d[i - 1]);
                assert(text::is_digit(d[i - 1]));
            }
        } else {
            assert(text::is_digit(d[i]));
        }
    }
}

proof fn numbers_differ(a: int, b: int)
    requires
        text::decimal_int(a) == text::decimal_int(b),
    ensures
        a == b,
{
    let x = text::decimal_int(a);
    let m = if a < 0 {
        (-a) as nat
    } else {
        a as nat
    };
    let n = if b < 0 {
        (-b) as nat
    } else {
        b as nat
    };
    text::numbers_read_back(m);
    text::numbers_read_back(n);
    assert(text::is_digit(text::decimal(m)[0]) && text::is_digit(text::decimal(n)[0]));
    if a < 0 {
        assert(x[0] == '-');
        assert(x.skip(1) =~= text::decimal(m));
        if b < 0 {
            assert(x.skip(1) =~= text::decimal(n));
            text::numbers_keep_apart(m, n);
        }
    } else {
        if b < 0 {
            assert(text::decimal_int(b)[0] == '-');
        }
        text::numbers_keep_apart(m, n);
    }
}

/// What is current is the stored account with the login that Codex has, by its id,
/// and the mark of that login; where Codex has none, nothing is current.
pub proof fn snapshots_show_the_login(
    accounts: Seq<StoredAccount>,
    auth: Option<StoredAccount>,
    i: int,
)
    ensures
        auth is None ==> snapshot_for_auth(accounts, auth).id is None && snapshot_for_auth(
            accounts,
            auth,
        ).marker is None,
        auth is Some ==> snapshot_for_auth(accounts, auth).marker == Some(marker_of(auth->Some_0)),
        auth is Some && 0 <= i < accounts.len() && accounts::same_auth_identity(
            accounts[i],
            auth->Some_0,
        ) && (forall|j: int|
            0 <= j < i ==> !accounts::same_auth_identity(#[trigger] accounts[j], auth->Some_0))
            ==> snapshot_for_auth(accounts, auth).id == Some(accounts[i].id@),
{
    if auth is Some {
        let p = accounts::matches_identity(auth->Some_0);
        if 0 <= i < accounts.len() && accounts::same_auth_identity(accounts[i], auth->Some_0) && (
        forall|j: int|
            0 <= j < i ==> !accounts::same_auth_identity(#[trigger] accounts[j], auth->Some_0)) {
            assert forall|j: int| 0 <= j < i implies !p(#[trigger] accounts[j]) by {
                assert(!accounts::same_auth_identity(accounts[j], auth->Some_0));
            }
            search::first_index_unique(accounts, p, i);
        }
    }
}

/// Codex's login is written only where the account is the current one and Codex
/// does not have its latest credentials; it is never written over another account.
pub proof fn only_the_current_login_is_written(
    accounts: Seq<StoredAccount>,
    current_auth: Option<StoredAccount>,
    account: StoredAccount,
)
    ensures
        match sync_of(accounts, current_auth, account) {
            AuthSync::NotCurrent => true,
            AuthSync::InStep(a) => current_auth is Some && a.id@ == account.id@
                && same_credentials(current_auth->Some_0, a) && accounts::same_auth_identity(
                search::first_of(accounts, accounts::matches_identity(current_auth->Some_0))->Some_0,
                current_auth->Some_0,
            ),
            AuthSync::Write(a) => current_auth is Some && a.id@ == account.id@
                && !same_credentials(current_auth->Some_0, a) && search::first_of(
                accounts,
                accounts::matches_identity(current_auth->Some_0),
            ) is Some && search::first_of(
                accounts,
                accounts::matches_identity(current_auth->Some_0),
            )->Some_0.id@ == account.id@,
        },
        (exists|i: int| 0 <= i < accounts.len() && (#[trigger] accounts[i]).id@ == account.id@)
            ==> accounts.contains(latest_of(accounts, account)),
{
    search::first_index_is_first(accounts, accounts::has_id(account.id@));
    if current_auth is Some {
        search::first_index_is_first(
            accounts,
            accounts::matches_identity(current_auth->Some_0),
        );
    }
    if exists|i: int| 0 <= i < accounts.len() && (#[trigger] accounts[i]).id@ == account.id@ {
        let i = choose|i: int| 0 <= i < accounts.len() && (#[trigger] accounts[i]).id@ == account.id@;
        assert(accounts::has_id(account.id@)(accounts[i]));
    }
}

/// Credentials are the same where each token, the account and the refresh are; a
/// single difference makes them differ.
pub proof fn every_token_counts(a: StoredAccount, b: StoredAccount)
    requires
        a.is_chatgpt(),
        b.is_chatgpt(),
    ensures
        same_credentials(a, b) <==> {
            &&& a.token_last_refresh_at == b.token_last_refresh_at
            &&& a.auth_data->id_token@ == b.auth_data->id_token@
            &&& a.auth_data->access_token@ == b.auth_data->access_token@
            &&& a.auth_data->refresh_token@ == b.auth_data->refresh_token@
            &&& text::opt_view(accounts::chatgpt_id(a)) == text::opt_view(accounts::chatgpt_id(b))
        },
{
}

/// A notice of a switch names the account that is left, the one that is taken and
/// the reason, in that order.
pub proof fn notices_name_both_accounts(from: Seq<char>, to: Seq<char>, reason: Seq<char>)
    ensures
        ({
            let n = switch_notice(Some(from), to, reason);
            let front = "codex-switch switched account from "@;
            &&& text::occurs_at(n, from, front.len() as int)
            &&& text::occurs_at(n, to, front.len() as int + from.len() + " to "@.len())
            &&& text::finishes_with(n, reason)
        }),
        text::finishes_with(switch_notice(None, to, reason), reason),
        text::occurs_at(
            switch_notice(None, to, reason),
            to,
            "codex-switch switched account to "@.len() as int,
        ),
{
    let n = switch_notice(Some(from), to, reason);
    let front = "codex-switch switched account from "@;
    let a = front.len() as int;
    let b = a + from.len() + " to "@.len();
    assert(n.subrange(a, a + from.len()) =~= from);
    assert(n.subrange(b, b + to.len()) =~= to);
    assert(n.subrange(n.len() - reason.len(), n.len() as int) =~= reason);
    let m = switch_notice(None, to, reason);
    let c = "codex-switch switched account to "@.len() as int;
    assert(m.subrange(c, c + to.len()) =~= to);
    assert(m.subrange(m.len() - reason.len(), m.len() as int) =~= reason);
}

/// A notice of the runtime's own is always told; that `auth.json` brought another
/// account is told only where it did, with where the session came from.
pub proof fn what_is_told(
    n: RuntimeLoginSuccessNotification,
    from: Option<Seq<char>>,
    account_changed: bool,
)
    ensures
        n matches RuntimeLoginSuccessNotification::Client(c) ==> told(
            Some(n),
            from,
            account_changed,
        ) == Some(c.text()),
        n matches RuntimeLoginSuccessNotification::AuthJsonSwitch { to_label } ==> told(
            Some(n),
            from,
            account_changed,
        ) == if account_changed {
            Some(switch_notice(from, to_label@, "current auth.json changed"@))
        } else {
            None
        },
        told(None, from, account_changed) is None,
{
}

/// Refused credentials, whatever the case of the message, are not tried again; a
/// message without any of the signs is.
pub proof fn refusals_are_terminal(message: Seq<char>)
    ensures
        text::has_text(text::lowered(message), "invalid_grant"@) || text::has_text(
            text::lowered(message),
            "401"@,
        ) || text::has_text(text::lowered(message), "403"@) || text::has_text(
            text::lowered(message),
            "400"@,
        ) || text::has_text(text::lowered(message), "revoked"@) || text::has_text(
            text::lowered(message),
            "unauthorized"@,
        ) || text::has_text(text::lowered(message), "forbidden"@) || text::has_text(
            text::lowered(message),
            "invalid refresh"@,
        ) || text::has_text(text::lowered(message), "invalid_request"@) || text::has_text(
            text::lowered(message),
            "missing refresh token"@,
        ) || text::has_text(text::lowered(message), "chatgpt account id is required"@)
            || text::has_text(
            text::lowered(message),
            "api key accounts do not support runtime switching"@,
        ) <==> classified(message) == LoginResultView::Terminal(message),
        classified(message) is Terminal || classified(message) == LoginResultView::Transient(message),
{
    let all = terminal_signs();
    let low = text::lowered(message);
    assert(all.len() == 12);
    assert(is_terminal(message) == (text::has_text(low, all[0]) || text::has_text(low, all[1])
        || text::has_text(low, all[2]) || text::has_text(low, all[3]) || text::has_text(low, all[4])
        || text::has_text(low, all[5]) || text::has_text(low, all[6]) || text::has_text(low, all[7])
        || text::has_text(low, all[8]) || text::has_text(low, all[9]) || text::has_text(
        low,
        all[10],
    ) || text::has_text(low, all[11])));
}

/// A login that the app-server already runs with is not made again; any other is.
pub proof fn logins_are_not_repeated(
    account: StoredAccount,
    snapshot: CurrentAccountSnapshot,
    id: Option<&str>,
    loaded: Option<CurrentAccountSnapshot>,
    r: Option<StoredAccount>,
)
    requires
        call_ensures(select_current_kept_login_account, (account, &snapshot, id, &loaded), r),
    ensures
        r is None <==> id is Some && id->Some_0@ == account.id@ && loaded is Some
            && loaded->Some_0@ == snapshot@,
        r matches Some(a) ==> a == account,
{
}

/// Each command carries the login it was made for; only one that reports back has a
/// completion, and only an automatic switch a generation.
pub proof fn commands_carry_their_login(
    prepared: PreparedAccountLogin,
    snapshot: CurrentAccountSnapshot,
    generation: u64,
    completion: u64,
    notice: Option<RuntimeLoginSuccessNotification>,
    plain: RuntimeLoginCommand,
    switch: RuntimeLoginCommand,
    reconciled: RuntimeLoginCommand,
    prewarm: RuntimeLoginCommand,
)
    requires
        call_ensures(RuntimeLoginCommand::fire_and_forget, (prepared,), plain),
        call_ensures(RuntimeLoginCommand::auto_switch, (prepared, generation, notice), switch),
        call_ensures(
            RuntimeLoginCommand::reconciled,
            (prepared, snapshot, completion, notice),
            reconciled,
        ),
        call_ensures(RuntimeLoginCommand::prewarm, (prepared, snapshot), prewarm),
    ensures
        plain.prepared == prepared && switch.prepared == prepared && reconciled.prepared == prepared
            && prewarm.prepared == prepared,
        plain.expected_snapshot == prepared.current_snapshot,
        switch.expected_snapshot == prepared.current_snapshot,
        reconciled.expected_snapshot == Some(snapshot),
        prewarm.expected_snapshot == Some(snapshot),
        switch.generation == Some(generation),
        plain.generation is None && reconciled.generation is None && prewarm.generation is None,
        reconciled.completion == Some(completion),
        plain.completion is None && switch.completion is None && prewarm.completion is None,
        switch.success_notification == notice && reconciled.success_notification == notice,
        plain.success_notification is None && prewarm.success_notification is None,
{
}

/// Logins are told apart by the millisecond in which they were refreshed.
pub proof fn refreshes_are_told_by_the_millisecond(t: Timestamp)
    ensures
        refreshed_millis(None) == 0,
        t.nanos < 1_000_000 ==> refreshed_millis(Some(t)) == t.millis,
        refreshed_millis(Some(t)) * 1_000_000 <= t.millis * 1_000_000 + t.nanos,
        t.millis * 1_000_000 + t.nanos < (refreshed_millis(Some(t)) + 1) * 1_000_000,
{
}

} // verus!
