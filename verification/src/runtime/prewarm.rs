//! Renewing the app-server's token before it ends, while someone is at work.
use crate::accounts;
use crate::accounts::{AccountsStore, StoredAccount, Timestamp};
use crate::auth_json;
use crate::redaction;
use crate::runtime::login;
use crate::runtime::login::{
    CurrentAccountSnapshot,
    LoginResultView,
    RuntimeLoadedAuth,
    RuntimeLoginCommand,
    RuntimeLoginResult,
};
use crate::runtime::reconcile;
use crate::runtime::schedule::QueueRoom;
use crate::runtime::shown;
use crate::runtime::shown::{Elapsed, Failure};
use crate::search;
use crate::text;
use crate::time;
use vstd::prelude::*;

verus! {

/// Ten minutes, in nanoseconds, as are all durations here.
pub const TOKEN_PREWARM_IDLE_AFTER: u128 = 600_000_000_000;

pub const TOKEN_PREWARM_RETRY_DELAY: u128 = 60_000_000_000;

// ---------------------------------------------------------------------------
// Time
// ---------------------------------------------------------------------------

/// Nanoseconds since the Unix epoch.
pub open spec fn nanos_of(t: Timestamp) -> int {
    t.millis * 1_000_000 + t.nanos
}

/// How many seconds into its day a moment is.
pub open spec fn second_of_day(t: Timestamp) -> int {
    time::seconds_of(t) % 86_400
}

/// How much longer it is from one moment to another for a leap second that one of
/// them lies in: what counts is where it stands in its day.
pub open spec fn leap(now: Timestamp, target: Timestamp) -> int {
    if second_of_day(target) > second_of_day(now) && time::subsecond_of(now) >= 1_000_000_000 {
        1_000_000_000
    } else if second_of_day(target) < second_of_day(now) && time::subsecond_of(target)
        >= 1_000_000_000 {
        -1_000_000_000
    } else {
        0
    }
}

pub open spec fn time_left(now: Timestamp, target: Timestamp) -> int {
    let distance = nanos_of(target) - nanos_of(now) + leap(now, target);
    if distance > 0 {
        distance
    } else {
        0
    }
}

fn in_day(seconds: i64) -> (r: i64)
    ensures
        r as int == seconds as int % 86_400,
{
    if seconds >= 0 {
        seconds % 86_400
    } else {
        86_399 - (-(seconds + 1)) % 86_400
    }
}

/// How long it is from `now` to `target`; nothing, where that is past.
pub fn duration_until_utc(now: Timestamp, target: Timestamp) -> (r: u128)
    ensures
        r as int == time_left(now, target),
{
    let a: i128 = now.millis as i128 * 1_000_000 + now.nanos as i128;
    let b: i128 = target.millis as i128 * 1_000_000 + target.nanos as i128;
    let (now_seconds, now_nanos) = time::parts(now);
    let (target_seconds, target_nanos) = time::parts(target);
    let now_in_day = in_day(now_seconds);
    let target_in_day = in_day(target_seconds);
    let more: i128 = if target_in_day > now_in_day && now_nanos >= 1_000_000_000 {
        1_000_000_000
    } else if target_in_day < now_in_day && target_nanos >= 1_000_000_000 {
        -1_000_000_000
    } else {
        0
    };
    let distance: i128 = b - a + more;
    if distance > 0 {
        distance as u128
    } else {
        0
    }
}

// ---------------------------------------------------------------------------
// The decision
// ---------------------------------------------------------------------------

/// What the app-server runs with, and when something last went through the proxy.
#[derive(Debug)]
pub struct RuntimeAuthState {
    pub loaded: Option<RuntimeLoadedAuth>,
    pub last_activity_at: u128,
}

impl RuntimeAuthState {
    pub fn new(now: u128) -> (r: Self)
        ensures
            r.loaded is None,
            r.last_activity_at == now,
    {
        RuntimeAuthState { loaded: None, last_activity_at: now }
    }
}

impl Clone for RuntimeAuthState {
    fn clone(&self) -> (r: Self)
        ensures
            r == *self,
    {
        RuntimeAuthState {
            loaded: match &self.loaded {
                Some(a) => Some(a.clone()),
                None => None,
            },
            last_activity_at: self.last_activity_at,
        }
    }
}

#[derive(Debug)]
pub enum TokenPrewarmDecision {
    WaitForRuntimeAuth,
    Wait(u128),
    SkipIdle,
    Refresh(RuntimeLoadedAuth),
}

/// Nothing went through the proxy for a while.
pub open spec fn is_idle(state: RuntimeAuthState, now: u128) -> bool {
    now - state.last_activity_at >= TOKEN_PREWARM_IDLE_AFTER
}

pub open spec fn prewarm_decision(
    state: RuntimeAuthState,
    now: u128,
    utc_now: Timestamp,
    window: u128,
) -> TokenPrewarmDecision {
    match state.loaded {
        None => TokenPrewarmDecision::WaitForRuntimeAuth,
        Some(loaded) => match loaded.access_token_expires_at {
            None => TokenPrewarmDecision::WaitForRuntimeAuth,
            Some(at) => if time_left(utc_now, at) > window {
                TokenPrewarmDecision::Wait((time_left(utc_now, at) - window) as u128)
            } else if is_idle(state, now) {
                TokenPrewarmDecision::SkipIdle
            } else {
                TokenPrewarmDecision::Refresh(loaded)
            },
        },
    }
}

pub fn token_prewarm_decision(
    state: &RuntimeAuthState,
    now: u128,
    utc_now: Timestamp,
    prewarm_window: u128,
) -> (r: TokenPrewarmDecision)
    ensures
        r == prewarm_decision(*state, now, utc_now, prewarm_window),
{
    match &state.loaded {
        None => TokenPrewarmDecision::WaitForRuntimeAuth,
        Some(loaded) => match loaded.access_token_expires_at {
            None => TokenPrewarmDecision::WaitForRuntimeAuth,
            Some(at) => {
                let left = duration_until_utc(utc_now, at);
                if left > prewarm_window {
                    TokenPrewarmDecision::Wait(left - prewarm_window)
                } else if now >= state.last_activity_at && now - state.last_activity_at
                    >= TOKEN_PREWARM_IDLE_AFTER {
                    TokenPrewarmDecision::SkipIdle
                } else {
                    TokenPrewarmDecision::Refresh(loaded.clone())
                }
            },
        },
    }
}

/// The same login: all but the label, which is only shown.
pub open spec fn same_loaded(a: RuntimeLoadedAuth, b: RuntimeLoadedAuth) -> bool {
    &&& a.account_id@ == b.account_id@
    &&& a.chatgpt_account_id@ == b.chatgpt_account_id@
    &&& a.access_token_expires_at == b.access_token_expires_at
    &&& login::snapshot_view(a.current_snapshot) == login::snapshot_view(b.current_snapshot)
}

pub fn runtime_loaded_auth_matches_for_suppression(
    loaded: &RuntimeLoadedAuth,
    suppressed: &RuntimeLoadedAuth,
) -> (r: bool)
    ensures
        r == same_loaded(*loaded, *suppressed),
{
    let same_end: bool = match (loaded.access_token_expires_at, suppressed.access_token_expires_at) {
        (Some(x), Some(y)) => x == y,
        (None, None) => true,
        _ => false,
    };
    text::same(loaded.account_id.as_str(), suppressed.account_id.as_str()) && text::same(
        loaded.chatgpt_account_id.as_str(),
        suppressed.chatgpt_account_id.as_str(),
    ) && same_end && login::same_snapshots(&loaded.current_snapshot, &suppressed.current_snapshot)
}

pub open spec fn is_suppressed(
    state: RuntimeAuthState,
    suppressed: Option<RuntimeLoadedAuth>,
) -> bool {
    match (suppressed, state.loaded) {
        (Some(s), Some(l)) => same_loaded(l, s),
        _ => false,
    }
}

pub fn token_prewarm_is_suppressed(
    state: &RuntimeAuthState,
    suppressed_loaded_auth: &Option<RuntimeLoadedAuth>,
) -> (r: bool)
    ensures
        r == is_suppressed(*state, *suppressed_loaded_auth),
{
    match (suppressed_loaded_auth, &state.loaded) {
        (Some(s), Some(l)) => runtime_loaded_auth_matches_for_suppression(l, s),
        _ => false,
    }
}

// ---------------------------------------------------------------------------
// The loop
// ---------------------------------------------------------------------------

#[derive(Debug, Clone, Copy, PartialEq, Eq, Structural)]
pub enum TokenPrewarmAttemptResult {
    RetryLater,
    SuppressUntilRuntimeAuthChanges,
}

/// What the loop does next.
#[derive(Debug)]
pub enum PrewarmStep {
    /// Wait so long, or until the login changes.
    Sleep(u128),
    /// Wait until the login changes; `idle` says that this is for want of work.
    WaitForChange { idle: bool },
    /// Renew the token of this login.
    Attempt(RuntimeLoadedAuth),
}

pub struct PrewarmLoop {
    pub retry_after: Option<u128>,
    pub suppressed: Option<RuntimeLoadedAuth>,
}

pub open spec fn is_before_retry(l: PrewarmLoop, now: u128) -> bool {
    l.retry_after matches Some(at) && now < at
}

pub open spec fn step_of(decision: TokenPrewarmDecision) -> PrewarmStep {
    match decision {
        TokenPrewarmDecision::WaitForRuntimeAuth => PrewarmStep::WaitForChange { idle: false },
        TokenPrewarmDecision::Wait(d) => PrewarmStep::Sleep(d),
        TokenPrewarmDecision::SkipIdle => PrewarmStep::WaitForChange { idle: true },
        TokenPrewarmDecision::Refresh(l) => PrewarmStep::Attempt(l),
    }
}

/// What comes next, and the state after it was decided.
pub open spec fn is_next_step(
    r: PrewarmStep,
    before: PrewarmLoop,
    after: PrewarmLoop,
    state: RuntimeAuthState,
    now: u128,
    utc_now: Timestamp,
    prewarm_window: u128,
) -> bool {
    if is_before_retry(before, now) {
        r == PrewarmStep::Sleep((before.retry_after->Some_0 - now) as u128) && after == before
    } else if is_suppressed(state, before.suppressed) {
        r == (PrewarmStep::WaitForChange { idle: false }) && after == (PrewarmLoop {
            retry_after: None,
            ..before
        })
    } else {
        r == step_of(prewarm_decision(state, now, utc_now, prewarm_window))
            && after.retry_after is None && after.suppressed is None
    }
}

/// The state after an attempt.
pub open spec fn after_attempt(
    l: PrewarmLoop,
    result: TokenPrewarmAttemptResult,
    loaded_auth: RuntimeLoadedAuth,
    now: u128,
) -> PrewarmLoop {
    match result {
        TokenPrewarmAttemptResult::RetryLater => PrewarmLoop {
            retry_after: Some((now + TOKEN_PREWARM_RETRY_DELAY) as u128),
            ..l
        },
        TokenPrewarmAttemptResult::SuppressUntilRuntimeAuthChanges => PrewarmLoop {
            suppressed: Some(loaded_auth),
            ..l
        },
    }
}

impl PrewarmLoop {
    pub fn new() -> (r: Self)
        ensures
            r.retry_after is None,
            r.suppressed is None,
    {
        PrewarmLoop { retry_after: None, suppressed: None }
    }

    pub fn next_step(
        &mut self,
        state: &RuntimeAuthState,
        now: u128,
        utc_now: Timestamp,
        prewarm_window: u128,
    ) -> (r: PrewarmStep)
        ensures
            is_next_step(r, *old(self), *final(self), *state, now, utc_now, prewarm_window),
    {
        if let Some(at) = self.retry_after {
            if now < at {
                return PrewarmStep::Sleep(at - now);
            }
        }
        self.retry_after = None;
        if token_prewarm_is_suppressed(state, &self.suppressed) {
            return PrewarmStep::WaitForChange { idle: false };
        }
        self.suppressed = None;
        match token_prewarm_decision(state, now, utc_now, prewarm_window) {
            TokenPrewarmDecision::WaitForRuntimeAuth => PrewarmStep::WaitForChange { idle: false },
            TokenPrewarmDecision::Wait(d) => PrewarmStep::Sleep(d),
            TokenPrewarmDecision::SkipIdle => PrewarmStep::WaitForChange { idle: true },
            TokenPrewarmDecision::Refresh(l) => PrewarmStep::Attempt(l),
        }
    }

    pub fn attempt_finished(
        &mut self,
        result: TokenPrewarmAttemptResult,
        loaded_auth: RuntimeLoadedAuth,
        now: u128,
    )
        requires
            now <= u128::MAX - TOKEN_PREWARM_RETRY_DELAY,
        ensures
            *final(self) == after_attempt(*old(self), result, loaded_auth, now),
    {
        match result {
            TokenPrewarmAttemptResult::RetryLater => {
                self.retry_after = Some(now + TOKEN_PREWARM_RETRY_DELAY);
            },
            TokenPrewarmAttemptResult::SuppressUntilRuntimeAuthChanges => {
                self.suppressed = Some(loaded_auth);
            },
        }
    }
}

pub const IDLE_LINE: &'static str = "token prewarm: skipped idle runtime";

/// What ended a wait of the loop.
#[derive(Debug, Clone, Copy, PartialEq, Eq, Structural)]
pub enum LoopEvent {
    Slept,
    /// The login changed, or can change no more.
    AuthChanged { open: bool },
    /// The runtime's state changed; it shuts down where this says so.
    Shutdown(bool),
}

/// Whether the loop ends after a wait.
pub fn loop_ends(event: LoopEvent) -> (r: bool)
    ensures
        r == match event {
            LoopEvent::Slept => false,
            LoopEvent::AuthChanged { open } => !open,
            LoopEvent::Shutdown(down) => down,
        },
{
    match event {
        LoopEvent::Slept => false,
        LoopEvent::AuthChanged { open } => !open,
        LoopEvent::Shutdown(down) => down,
    }
}

// ---------------------------------------------------------------------------
// One attempt
// ---------------------------------------------------------------------------

pub open spec fn attempt_result(result: LoginResultView) -> TokenPrewarmAttemptResult {
    match result {
        LoginResultView::Terminal(_) => TokenPrewarmAttemptResult::SuppressUntilRuntimeAuthChanges,
        _ => TokenPrewarmAttemptResult::RetryLater,
    }
}

pub fn token_prewarm_attempt_result_for_login_result(result: &RuntimeLoginResult) -> (r:
    TokenPrewarmAttemptResult)
    ensures
        r == attempt_result(result@),
{
    match result {
        RuntimeLoginResult::Terminal(_) => {
            TokenPrewarmAttemptResult::SuppressUntilRuntimeAuthChanges
        },
        _ => TokenPrewarmAttemptResult::RetryLater,
    }
}

/// The current account, where it is the one that the app-server runs with and is
/// logged in with ChatGPT.
pub fn current_runtime_oauth_account(
    current: Option<StoredAccount>,
    account_id: &str,
) -> (r: Option<StoredAccount>)
    ensures
        r == match current {
            Some(a) => if a.id@ == account_id@ && a.is_chatgpt() {
                Some(a)
            } else {
                None
            },
            None => None,
        },
{
    match current {
        Some(a) => if text::same(a.id.as_str(), account_id) && a.uses_chatgpt() {
            Some(a)
        } else {
            None
        },
        None => None,
    }
}

/// The account's token, which ends at `token_end`, ends later than the one that is
/// loaded.
pub open spec fn has_newer_token(
    account: StoredAccount,
    token_end: Option<Timestamp>,
    loaded: RuntimeLoadedAuth,
) -> bool {
    account.is_chatgpt() && match (token_end, loaded.access_token_expires_at) {
        (None, _) => false,
        (Some(_), None) => true,
        (Some(mine), Some(theirs)) => theirs.is_before(mine),
    }
}

/// Whether the account's own access token ends later than the one that is loaded.
pub fn current_account_has_newer_access_token(
    account: &StoredAccount,
    loaded_auth: &RuntimeLoadedAuth,
) -> (r: bool)
    ensures
        r == has_newer_token(*account, auth_json::account_token_end(*account), *loaded_auth),
{
    ends_later(account, auth_json::account_token_expires_at(account), loaded_auth)
}

/// `token_end` is when the account's access token ends, where that can be told.
pub fn ends_later(
    account: &StoredAccount,
    token_end: Option<Timestamp>,
    loaded_auth: &RuntimeLoadedAuth,
) -> (r: bool)
    ensures
        r == has_newer_token(*account, token_end, *loaded_auth),
{
    if !account.uses_chatgpt() {
        return false;
    }
    match token_end {
        None => false,
        Some(mine) => match loaded_auth.access_token_expires_at {
            None => true,
            Some(theirs) => theirs.before(mine),
        },
    }
}

/// Where a fresh token comes from.
pub enum PrewarmSource {
    /// The app-server runs with something else by now.
    Stale,
    /// The account has a newer token already: bring Codex's login in line.
    Sync(StoredAccount),
    /// The token has to be refreshed.
    Refresh(StoredAccount),
}

pub open spec fn is_same_chatgpt_account(a: StoredAccount, loaded: RuntimeLoadedAuth) -> bool {
    text::opt_view(accounts::chatgpt_id(a)) == Some(loaded.chatgpt_account_id@)
}

/// Where a fresh token comes from, where that of the current account ends at
/// `token_end`.
pub open spec fn source_of(
    current: Option<StoredAccount>,
    token_end: Option<Timestamp>,
    loaded: RuntimeLoadedAuth,
) -> PrewarmSource {
    match current {
        Some(a) => if a.id@ != loaded.account_id@ || !a.is_chatgpt() || !is_same_chatgpt_account(
            a,
            loaded,
        ) {
            PrewarmSource::Stale
        } else if has_newer_token(a, token_end, loaded) {
            PrewarmSource::Sync(a)
        } else {
            PrewarmSource::Refresh(a)
        },
        None => PrewarmSource::Stale,
    }
}

/// When the token of the current account ends.
pub open spec fn current_token_end(current: Option<StoredAccount>) -> Option<Timestamp> {
    match current {
        Some(a) => auth_json::account_token_end(a),
        None => None,
    }
}

/// Where a fresh token comes from: the end of the current account's own access token
/// decides.
pub fn prewarm_source(current: Option<StoredAccount>, loaded_auth: &RuntimeLoadedAuth) -> (r:
    PrewarmSource)
    ensures
        r == source_of(current, current_token_end(current), *loaded_auth),
{
    let token_end: Option<Timestamp> = match &current {
        Some(a) => auth_json::account_token_expires_at(a),
        None => None,
    };
    prewarm_source_until(current, token_end, loaded_auth)
}

/// The same, where the token of the current account ends then.
pub fn prewarm_source_until(
    current: Option<StoredAccount>,
    token_end: Option<Timestamp>,
    loaded_auth: &RuntimeLoadedAuth,
) -> (r: PrewarmSource)
    ensures
        r == source_of(current, token_end, *loaded_auth),
{
    match current_runtime_oauth_account(current, loaded_auth.account_id.as_str()) {
        None => PrewarmSource::Stale,
        Some(a) => if !login::runtime_chatgpt_account_matches(&a, loaded_auth) {
            PrewarmSource::Stale
        } else if ends_later(&a, token_end, loaded_auth) {
            PrewarmSource::Sync(a)
        } else {
            PrewarmSource::Refresh(a)
        },
    }
}

pub open spec fn prewarm_snapshot(
    account: StoredAccount,
    current_auth: StoredAccount,
    current_id: Seq<char>,
) -> Option<login::SnapshotView> {
    if current_id == account.id@ && login::same_credentials(current_auth, account) {
        Some(
            login::SnapshotView {
                id: Some(account.id@),
                marker: Some(login::marker_of(current_auth)),
            },
        )
    } else {
        None
    }
}

pub fn prewarm_snapshot_for_matching_auth(
    account: &StoredAccount,
    current_auth_account: &StoredAccount,
    current_account_id: &str,
) -> (r: Option<CurrentAccountSnapshot>)
    ensures
        login::snapshot_view(r) == prewarm_snapshot(
            *account,
            *current_auth_account,
            current_account_id@,
        ),
{
    if !text::same(current_account_id, account.id.as_str()) {
        return None;
    }
    if !login::auth_serialized_credentials_match(current_auth_account, account) {
        return None;
    }
    Some(
        CurrentAccountSnapshot {
            current_account_id: Some(account.id.clone()),
            auth_marker: Some(login::current_account_auth_marker(current_auth_account)),
        },
    )
}

pub open spec fn snapshot_for_prewarm(
    accounts: Seq<StoredAccount>,
    current_auth: Option<StoredAccount>,
    account: StoredAccount,
) -> Option<login::SnapshotView> {
    match current_auth {
        None => None,
        Some(auth) => match search::first_of(accounts, accounts::matches_identity(auth)) {
            None => None,
            Some(current) => prewarm_snapshot(account, auth, current.id@),
        },
    }
}

pub fn current_prewarm_snapshot_for_account(
    store: &AccountsStore,
    current_auth_account: Option<&StoredAccount>,
    account: &StoredAccount,
) -> (r: Option<CurrentAccountSnapshot>)
    ensures
        login::snapshot_view(r) == snapshot_for_prewarm(
            store.accounts@,
            login::deref(current_auth_account),
            *account,
        ),
{
    match current_auth_account {
        None => None,
        Some(auth) => match accounts::find_matching_account(store, auth) {
            None => None,
            Some(current) => prewarm_snapshot_for_matching_auth(
                account,
                auth,
                current.id.as_str(),
            ),
        },
    }
}

/// The login for an account whose token is fresh, or `None` where the app-server
/// runs with something else by now. `current_id` is the current account's id.
pub fn token_prewarm_login_command(
    account: &StoredAccount,
    loaded_auth: &RuntimeLoadedAuth,
    current_id: Option<&str>,
    store: &AccountsStore,
    current_auth_account: Option<&StoredAccount>,
) -> (r: Result<Option<RuntimeLoginCommand>, String>)
    ensures
        ({
            let snapshot = snapshot_for_prewarm(
                store.accounts@,
                login::deref(current_auth_account),
                *account,
            );
            let stale = !is_same_chatgpt_account(*account, *loaded_auth) || accounts::str_view(
                current_id,
            ) != Some(loaded_auth.account_id@) || snapshot is None;
            match r {
                Ok(None) => stale,
                Err(m) => !stale && login::payload_of(*account) == Err::<
                    (Seq<char>, Seq<char>, Option<Seq<char>>),
                    _,
                >(m@),
                Ok(Some(c)) => {
                    &&& !stale
                    &&& login::snapshot_view(c.expected_snapshot) == snapshot
                    &&& c.generation is None
                    &&& c.completion is None
                    &&& c.success_notification is None
                    &&& login::is_prepared(
                        c.prepared,
                        *account,
                        login::snapshot_for_auth(
                            store.accounts@,
                            login::deref(current_auth_account),
                        ),
                    )
                },
            }
        }),
{
    if !login::runtime_chatgpt_account_matches(account, loaded_auth) {
        return Ok(None);
    }
    let is_current: bool = match current_id {
        Some(id) => text::same(id, loaded_auth.account_id.as_str()),
        None => false,
    };
    if !is_current {
        return Ok(None);
    }
    match current_prewarm_snapshot_for_account(store, current_auth_account, account) {
        None => Ok(None),
        Some(expected) => {
            let current = login::current_account_snapshot(store, current_auth_account);
            match login::prepare_login_from_fresh_account(account, &current) {
                Ok(prepared) => Ok(Some(RuntimeLoginCommand::prewarm(prepared, expected))),
                Err(m) => Err(m),
            }
        },
    }
}

// ---------------------------------------------------------------------------
// What an attempt tells
// ---------------------------------------------------------------------------

pub open spec fn started_line(label: Seq<char>, left: Option<Elapsed>) -> Seq<char> {
    "token prewarm: started for "@ + label + " ("@ + shown::expiry_shown(left) + ")"@
}

pub fn prewarm_started_line(account_label: &str, left: &Option<Elapsed>) -> (r: String)
    ensures
        r@ == started_line(account_label@, *left),
{
    let shown = shown::format_token_expiry_distance(left);
    text::cat5("token prewarm: started for ", account_label, " (", shown.as_str(), ")")
}

pub open spec fn line(
    what: Seq<char>,
    label: Seq<char>,
    elapsed: Elapsed,
    detail: Option<Seq<char>>,
) -> Seq<char> {
    let head = "token prewarm: "@ + what + " for "@ + label + " in "@ + elapsed.shown();
    match detail {
        Some(d) => head + ": "@ + d,
        None => head,
    }
}

fn log_line(what: &str, label: &str, elapsed: &Elapsed, detail: Option<&str>) -> (r: String)
    ensures
        r@ == line(what@, label@, *elapsed, accounts::str_view(detail)),
{
    let shown = shown::format_elapsed(elapsed);
    let head = text::cat6("token prewarm: ", what, " for ", label, " in ", shown.as_str());
    match detail {
        Some(d) => text::cat3(head.as_str(), ": ", d),
        None => head,
    }
}

/// What an attempt logs, as it stands in the log: without control characters,
/// and without secrets where the line could hold some.
pub open spec fn logged(text: Seq<char>, secrets: Option<Seq<Seq<char>>>) -> Seq<char> {
    match secrets {
        Some(s) => redaction::redacted(shown::sanitized(text), s),
        None => shown::sanitized(text),
    }
}

/// An attempt that is over: what it logs, and what it means for the loop.
pub struct AttemptEnd {
    pub log: Option<String>,
    pub result: TokenPrewarmAttemptResult,
}

/// What becomes of an attempt once the login was prepared, or could not be: the
/// command, or the attempt's end.
pub fn prewarm_prepared(
    command: Result<Option<RuntimeLoginCommand>, Failure>,
    account_label: &str,
    elapsed: &Elapsed,
    secrets: &Vec<String>,
) -> (r: Result<RuntimeLoginCommand, AttemptEnd>)
    ensures
        match command {
            Ok(Some(c)) => r == Ok::<_, AttemptEnd>(c),
            Ok(None) => r is Err && r->Err_0.result == TokenPrewarmAttemptResult::RetryLater
                && text::opt_view(r->Err_0.log) == Some(
                logged(line("stale"@, account_label@, *elapsed, None), None),
            ),
            Err(f) => r is Err && r->Err_0.result == attempt_result(login::classified(f.message@))
                && text::opt_view(r->Err_0.log) == Some(
                logged(
                    line("failed"@, account_label@, *elapsed, Some(f.detail@)),
                    Some(text::views(secrets@)),
                ),
            ),
        },
{
    match command {
        Ok(Some(c)) => Ok(c),
        Ok(None) => {
            let text = log_line("stale", account_label, elapsed, None);
            Err(
                AttemptEnd {
                    log: Some(shown::sanitize_startup_log_message(text.as_str())),
                    result: TokenPrewarmAttemptResult::RetryLater,
                },
            )
        },
        Err(f) => {
            let result = login::classify_runtime_login_error(f.message.as_str());
            let text = log_line("failed", account_label, elapsed, Some(f.detail.as_str()));
            Err(
                AttemptEnd {
                    log: Some(shown::redact_runtime_log_message(text.as_str(), secrets)),
                    result: token_prewarm_attempt_result_for_login_result(&result),
                },
            )
        },
    }
}

pub const QUEUE_FULL: &'static str = "runtime command queue is full";

/// What becomes of an attempt when its command is offered to the proxy: with
/// room, its completion is waited for.
pub fn prewarm_offered(
    room: QueueRoom,
    account_label: &str,
    elapsed: &Elapsed,
    secrets: &Vec<String>,
) -> (r: Option<AttemptEnd>)
    ensures
        match room {
            QueueRoom::Free => r is None,
            QueueRoom::Full => r is Some && r->Some_0.result
                == TokenPrewarmAttemptResult::RetryLater && text::opt_view(r->Some_0.log) == Some(
                logged(
                    line("deferred"@, account_label@, *elapsed, Some(QUEUE_FULL@)),
                    Some(text::views(secrets@)),
                ),
            ),
            QueueRoom::Closed => r is Some && r->Some_0.result
                == TokenPrewarmAttemptResult::RetryLater && r->Some_0.log is None,
        },
{
    match room {
        QueueRoom::Free => None,
        QueueRoom::Full => {
            let text = log_line("deferred", account_label, elapsed, Some(QUEUE_FULL));
            Some(
                AttemptEnd {
                    log: Some(shown::redact_runtime_log_message(text.as_str(), secrets)),
                    result: TokenPrewarmAttemptResult::RetryLater,
                },
            )
        },
        QueueRoom::Closed => Some(
            AttemptEnd { log: None, result: TokenPrewarmAttemptResult::RetryLater },
        ),
    }
}

/// What ends a wait for a prewarm's completion.
pub enum PrewarmWait {
    Completed(Option<RuntimeLoginResult>),
    Shutdown(bool),
    Tick,
    DeadlineReached,
}

/// What a wait makes of an event: `None` goes on waiting; a result without a
/// login result means that the runtime shuts down.
pub fn prewarm_woken(event: PrewarmWait) -> (r: Option<Option<RuntimeLoginResult>>)
    ensures
        match event {
            PrewarmWait::Completed(Some(result)) => r == Some(Some(result)),
            PrewarmWait::Completed(None) => r matches Some(Some(x)) && x@
                == LoginResultView::Transient(reconcile::LOGIN_DROPPED@),
            PrewarmWait::Shutdown(down) => r == if down {
                Some(None::<RuntimeLoginResult>)
            } else {
                None
            },
            PrewarmWait::Tick => r is None,
            PrewarmWait::DeadlineReached => r matches Some(Some(x)) && x@
                == LoginResultView::Transient(reconcile::LOGIN_TIMED_OUT@),
        },
{
    match event {
        PrewarmWait::Completed(Some(result)) => Some(Some(result)),
        PrewarmWait::Completed(None) => Some(
            Some(RuntimeLoginResult::Transient(reconcile::LOGIN_DROPPED.to_owned())),
        ),
        PrewarmWait::Shutdown(down) => if down {
            Some(None)
        } else {
            None
        },
        PrewarmWait::Tick => None,
        PrewarmWait::DeadlineReached => Some(
            Some(RuntimeLoginResult::Transient(reconcile::LOGIN_TIMED_OUT.to_owned())),
        ),
    }
}

/// The end of an attempt whose login came to its end, or was given up.
pub fn prewarm_completed(
    result: Option<RuntimeLoginResult>,
    account_label: &str,
    elapsed: &Elapsed,
    secrets: &Vec<String>,
) -> (r: AttemptEnd)
    ensures
        match result {
            None => r.result == TokenPrewarmAttemptResult::RetryLater && r.log is None,
            Some(x) => {
                let hidden = Some(text::views(secrets@));
                &&& r.result == attempt_result(x@)
                &&& text::opt_view(r.log) == Some(
                    match x@ {
                        LoginResultView::Success => logged(
                            line("succeeded"@, account_label@, *elapsed, None),
                            None,
                        ),
                        LoginResultView::Stale => logged(
                            line("discarded stale result"@, account_label@, *elapsed, None),
                            None,
                        ),
                        LoginResultView::Deferred(m) => logged(
                            line("deferred"@, account_label@, *elapsed, Some(m)),
                            hidden,
                        ),
                        LoginResultView::Transient(m) => logged(
                            line("failed"@, account_label@, *elapsed, Some(m)),
                            hidden,
                        ),
                        LoginResultView::Terminal(m) => logged(
                            line("failed"@, account_label@, *elapsed, Some(m)),
                            hidden,
                        ),
                    },
                )
            },
        },
{
    match result {
        None => AttemptEnd { log: None, result: TokenPrewarmAttemptResult::RetryLater },
        Some(x) => {
            let log = match &x {
                RuntimeLoginResult::Success => {
                    let text = log_line("succeeded", account_label, elapsed, None);
                    shown::sanitize_startup_log_message(text.as_str())
                },
                RuntimeLoginResult::Stale => {
                    let text = log_line("discarded stale result", account_label, elapsed, None);
                    shown::sanitize_startup_log_message(text.as_str())
                },
                RuntimeLoginResult::Deferred(m) => {
                    let text = log_line("deferred", account_label, elapsed, Some(m.as_str()));
                    shown::redact_runtime_log_message(text.as_str(), secrets)
                },
                RuntimeLoginResult::Transient(m) => {
                    let text = log_line("failed", account_label, elapsed, Some(m.as_str()));
                    shown::redact_runtime_log_message(text.as_str(), secrets)
                },
                RuntimeLoginResult::Terminal(m) => {
                    let text = log_line("failed", account_label, elapsed, Some(m.as_str()));
                    shown::redact_runtime_log_message(text.as_str(), secrets)
                },
            };
            AttemptEnd {
                log: Some(log),
                result: token_prewarm_attempt_result_for_login_result(&x),
            }
        },
    }
}

// ---------------------------------------------------------------------------
// Laws
// ---------------------------------------------------------------------------

/// A token is renewed only inside the window before its end, and only while
/// something goes on.
pub proof fn renewal_is_timely(
    state: RuntimeAuthState,
    now: u128,
    utc_now: Timestamp,
    window: u128,
)
    ensures
        prewarm_decision(state, now, utc_now, window) matches TokenPrewarmDecision::Refresh(l)
            ==> state.loaded == Some(l) && l.access_token_expires_at is Some && time_left(
            utc_now,
            l.access_token_expires_at->Some_0,
        ) <= window && !is_idle(state, now),
{
}

/// A wait ends when the window before the token's end begins, no earlier and no
/// later.
pub proof fn waiting_ends_with_the_window(
    state: RuntimeAuthState,
    now: u128,
    utc_now: Timestamp,
    window: u128,
)
    ensures
        prewarm_decision(state, now, utc_now, window) matches TokenPrewarmDecision::Wait(d)
            ==> state.loaded is Some && state.loaded->Some_0.access_token_expires_at is Some && d
            + window == time_left(utc_now, state.loaded->Some_0.access_token_expires_at->Some_0),
{
    if let Some(l) = state.loaded {
        if let Some(at) = l.access_token_expires_at {
            assert(time_left(utc_now, at) <= 2 * 0x8000_0000_0000_0000 * 1_000_000 + 0x1_0000_0000);
        }
    }
}

/// A login that was refused for good is not tried again before it changes; a
/// change of its label alone is no change.
pub proof fn refused_logins_rest(
    state: RuntimeAuthState,
    refused: RuntimeLoadedAuth,
    relabelled: RuntimeLoadedAuth,
)
    requires
        state.loaded == Some(relabelled),
        relabelled == (RuntimeLoadedAuth {
            account_label: relabelled.account_label,
            ..refused
        }),
    ensures
        is_suppressed(state, Some(refused)),
{
}

/// A token that is about to end is renewed while something goes on, and not once
/// nothing went through the proxy for ten minutes; one whose end is unknown waits
/// for another login.
pub proof fn tokens_about_to_end_are_renewed(
    state: RuntimeAuthState,
    now: u128,
    utc_now: Timestamp,
    window: u128,
)
    ensures
        state.loaded is None || state.loaded->Some_0.access_token_expires_at is None
            ==> prewarm_decision(state, now, utc_now, window) is WaitForRuntimeAuth,
        state.loaded is Some && state.loaded->Some_0.access_token_expires_at is Some ==> {
            let left = time_left(utc_now, state.loaded->Some_0.access_token_expires_at->Some_0);
            let quiet = now - state.last_activity_at;
            &&& left > window ==> prewarm_decision(state, now, utc_now, window) is Wait
            &&& left <= window && quiet < 600_000_000_000 ==> prewarm_decision(
                state,
                now,
                utc_now,
                window,
            ) == TokenPrewarmDecision::Refresh(state.loaded->Some_0)
            &&& left <= window && quiet >= 600_000_000_000 ==> prewarm_decision(
                state,
                now,
                utc_now,
                window,
            ) is SkipIdle
        },
{
}

/// The time that is left and the moment make up the end, apart from leap seconds;
/// nothing is left of what is past.
pub proof fn what_is_left_leads_to_the_end(now: Timestamp, target: Timestamp)
    requires
        now.nanos < 1_000_000,
        target.nanos < 1_000_000,
    ensures
        now.is_before(target) ==> now.millis * 1_000_000 + now.nanos + time_left(now, target)
            == target.millis * 1_000_000 + target.nanos,
        !now.is_before(target) ==> time_left(now, target) == 0,
{
    assert(time::subsecond_of(now) < 1_000_000_000);
    assert(time::subsecond_of(target) < 1_000_000_000);
}

/// Only another label is no other login: another account, another ChatGPT account,
/// another end or another current account makes a refused login worth a try again.
pub proof fn other_logins_are_tried(state: RuntimeAuthState, refused: RuntimeLoadedAuth)
    ensures
        state.loaded is None ==> !is_suppressed(state, Some(refused)),
        !is_suppressed(state, None),
        state.loaded matches Some(l) ==> (l.account_id@ != refused.account_id@
            || l.chatgpt_account_id@ != refused.chatgpt_account_id@ || l.access_token_expires_at
            != refused.access_token_expires_at || login::snapshot_view(l.current_snapshot)
            != login::snapshot_view(refused.current_snapshot)) ==> !is_suppressed(
            state,
            Some(refused),
        ),
{
}

/// Each decision leads to its step: a wait to a pause of that length, a renewal to
/// an attempt with that login.
pub proof fn decisions_lead_to_steps(d: u128, loaded: RuntimeLoadedAuth)
    ensures
        step_of(TokenPrewarmDecision::Wait(d)) == PrewarmStep::Sleep(d),
        step_of(TokenPrewarmDecision::Refresh(loaded)) == PrewarmStep::Attempt(loaded),
        step_of(TokenPrewarmDecision::SkipIdle) == (PrewarmStep::WaitForChange { idle: true }),
        step_of(TokenPrewarmDecision::WaitForRuntimeAuth) == (PrewarmStep::WaitForChange {
            idle: false,
        }),
{
}

/// Only a login that was refused for good rests until the login changes; everything
/// else is tried again.
pub proof fn only_refusals_rest(result: LoginResultView)
    ensures
        attempt_result(result) == TokenPrewarmAttemptResult::SuppressUntilRuntimeAuthChanges
            <==> result is Terminal,
        attempt_result(result) == TokenPrewarmAttemptResult::RetryLater <==> !(result is Terminal),
{
}

/// A fresh token comes from the current account alone, and only where that is the
/// one the app-server runs with, in the same ChatGPT account. It is taken as it is
/// where it ends later than the one in use, and refreshed where it does not.
pub proof fn tokens_come_from_the_account_in_use(
    account: StoredAccount,
    token_end: Option<Timestamp>,
    loaded: RuntimeLoadedAuth,
)
    ensures
        source_of(None, token_end, loaded) is Stale,
        account.id@ != loaded.account_id@ || text::opt_view(accounts::chatgpt_id(account)) != Some(
            loaded.chatgpt_account_id@,
        ) ==> source_of(Some(account), token_end, loaded) is Stale,
        account.id@ == loaded.account_id@ && text::opt_view(accounts::chatgpt_id(account)) == Some(
            loaded.chatgpt_account_id@,
        ) ==> {
            let later = token_end is Some && (loaded.access_token_expires_at is None
                || loaded.access_token_expires_at->Some_0.is_before(token_end->Some_0));
            source_of(Some(account), token_end, loaded) == if later {
                PrewarmSource::Sync(account)
            } else {
                PrewarmSource::Refresh(account)
            }
        },
{
}

/// A login is made only for the account that Codex itself is logged in with, with
/// the very same credentials.
pub proof fn logins_follow_codex(
    accounts: Seq<StoredAccount>,
    current_auth: Option<StoredAccount>,
    account: StoredAccount,
)
    ensures
        snapshot_for_prewarm(accounts, current_auth, account) matches Some(s) ==> {
            &&& current_auth is Some
            &&& login::same_credentials(current_auth->Some_0, account)
            &&& s.id == Some(account.id@)
            &&& s.marker == Some(login::marker_of(current_auth->Some_0))
            &&& exists|i: int|
                0 <= i < accounts.len() && accounts::same_auth_identity(
                    #[trigger] accounts[i],
                    current_auth->Some_0,
                ) && accounts[i].id@ == account.id@
        },
{
    if current_auth is Some {
        let p = accounts::matches_identity(current_auth->Some_0);
        search::first_index_is_first(accounts, p);
        if snapshot_for_prewarm(accounts, current_auth, account) is Some {
            let i = search::first_index(accounts, p)->Some_0;
            assert(p(accounts[i]));
        }
    }
}

/// The command renews the login of the account it was asked for, and there is none
/// where the app-server has gone on to something else.
pub proof fn renewals_are_for_the_loaded_account(
    account: StoredAccount,
    loaded: RuntimeLoadedAuth,
    current_id: Option<&str>,
    store: AccountsStore,
    auth: Option<&StoredAccount>,
    r: Result<Option<RuntimeLoginCommand>, String>,
)
    requires
        call_ensures(
            token_prewarm_login_command,
            (&account, &loaded, current_id, &store, auth),
            r,
        ),
    ensures
        r matches Ok(Some(c)) ==> {
            &&& c.prepared.account_id@ == account.id@
            &&& c.prepared.payload.chatgpt_account_id@ == loaded.chatgpt_account_id@
            &&& c.prepared.payload.access_token@ == account.auth_data->access_token@
            &&& c.expected_snapshot is Some
            &&& c.expected_snapshot->Some_0@.id == Some(account.id@)
        },
        current_id is None || current_id->Some_0@ != loaded.account_id@ ==> (r matches Ok(None)),
{
    if r is Ok && r->Ok_0 is Some {
        login::payloads_are_of_the_account(account);
    }
}

/// A renewal is held against the current login only where that is of the same account
/// and has the same credentials.
pub proof fn snapshots_are_of_the_current_login(
    account: StoredAccount,
    current_auth: StoredAccount,
    current_id: Seq<char>,
)
    ensures
        current_id != account.id@ ==> prewarm_snapshot(account, current_auth, current_id) is None,
        !login::same_credentials(current_auth, account) ==> prewarm_snapshot(
            account,
            current_auth,
            current_id,
        ) is None,
        prewarm_snapshot(account, current_auth, current_id) matches Some(s) ==> s.id == Some(
            account.id@,
        ) && s.marker == Some(login::marker_of(current_auth)),
        current_id == account.id@ && login::same_credentials(current_auth, account)
            ==> prewarm_snapshot(account, current_auth, current_id) is Some,
{
}

/// A retry is waited for up to its moment, and no longer.
pub proof fn retries_are_waited_for(l: PrewarmLoop, at: u128, now: u128)
    requires
        l.retry_after == Some(at),
    ensures
        now < at <==> is_before_retry(l, now),
        !is_before_retry(l, at),
        !is_before_retry(PrewarmLoop { retry_after: None, ..l }, now),
{
}

/// An attempt that is to be made again is made a minute later: up to then the loop
/// sleeps, and not longer than that.
pub proof fn attempts_are_made_again_after_a_minute(
    l: PrewarmLoop,
    loaded: RuntimeLoadedAuth,
    now: u128,
    later: u128,
    r: PrewarmStep,
    after: PrewarmLoop,
    state: RuntimeAuthState,
    utc_now: Timestamp,
    window: u128,
)
    requires
        now <= later,
        now <= u128::MAX - 60_000_000_000,
        is_next_step(
            r,
            after_attempt(l, TokenPrewarmAttemptResult::RetryLater, loaded, now),
            after,
            state,
            later,
            utc_now,
            window,
        ),
    ensures
        later < now + 60_000_000_000 ==> r is Sleep && later + r->Sleep_0 == now + 60_000_000_000,
        later >= now + 60_000_000_000 ==> after.retry_after is None,
        after_attempt(l, TokenPrewarmAttemptResult::RetryLater, loaded, now).suppressed
            == l.suppressed,
{
}

/// A login that was refused rests until Codex runs with another one; after that it is
/// decided anew.
pub proof fn refused_logins_rest_until_they_change(
    l: PrewarmLoop,
    loaded: RuntimeLoadedAuth,
    now: u128,
    r: PrewarmStep,
    after: PrewarmLoop,
    state: RuntimeAuthState,
    utc_now: Timestamp,
    window: u128,
)
    requires
        l.retry_after is None,
        is_next_step(
            r,
            after_attempt(
                l,
                TokenPrewarmAttemptResult::SuppressUntilRuntimeAuthChanges,
                loaded,
                now,
            ),
            after,
            state,
            now,
            utc_now,
            window,
        ),
    ensures
        is_suppressed(state, Some(loaded)) ==> r == (PrewarmStep::WaitForChange { idle: false })
            && after.suppressed == Some(loaded),
        !is_suppressed(state, Some(loaded)) ==> r == step_of(
            prewarm_decision(state, now, utc_now, window),
        ) && after.suppressed is None,
{
}

/// A login that could not be prepared is tried again or rests, by what the failure
/// says; one that was overtaken is tried again.
pub proof fn preparations_end_attempts(
    command: Result<Option<RuntimeLoginCommand>, Failure>,
    account_label: &str,
    elapsed: &Elapsed,
    secrets: &Vec<String>,
    r: Result<RuntimeLoginCommand, AttemptEnd>,
)
    requires
        call_ensures(prewarm_prepared, (command, account_label, elapsed, secrets), r),
    ensures
        r is Ok <==> command is Ok && command->Ok_0 is Some,
        r is Ok ==> Some(r->Ok_0) == command->Ok_0,
        command is Ok && command->Ok_0 is None ==> r->Err_0.result
            == TokenPrewarmAttemptResult::RetryLater,
        command is Err ==> r->Err_0.result == attempt_result(
            login::classified(command->Err_0.message@),
        ),
{
}

/// A command that finds no room is tried again later.
pub proof fn commands_without_room_are_tried_again(
    room: QueueRoom,
    account_label: &str,
    elapsed: &Elapsed,
    secrets: &Vec<String>,
    r: Option<AttemptEnd>,
)
    requires
        call_ensures(prewarm_offered, (room, account_label, elapsed, secrets), r),
    ensures
        room is Free <==> r is None,
        r is Some ==> r->Some_0.result == TokenPrewarmAttemptResult::RetryLater,
        room is Full ==> r->Some_0.log is Some,
        room is Closed ==> r->Some_0.log is None,
{
}

/// Waiting goes on while nothing happens; an answer is what it is, and no answer in
/// time is a reason to try again.
pub proof fn answers_end_the_waiting(event: PrewarmWait, r: Option<Option<RuntimeLoginResult>>)
    requires
        call_ensures(prewarm_woken, (event,), r),
    ensures
        event is Tick ==> r is None,
        event is Shutdown && !event->Shutdown_0 ==> r is None,
        event is Shutdown && event->Shutdown_0 ==> r is Some && r->Some_0 is None,
        event is Completed && event->Completed_0 is Some ==> r == Some(event->Completed_0),
        event is Completed && event->Completed_0 is None ==> r is Some && r->Some_0 is Some
            && r->Some_0->Some_0@ is Transient,
        event is DeadlineReached ==> r is Some && r->Some_0 is Some && r->Some_0->Some_0@
            is Transient,
{
}

/// Only the account that Codex runs with is renewed, and only where it has tokens.
pub proof fn the_account_in_use_is_renewed(
    current: Option<StoredAccount>,
    account_id: &str,
    r: Option<StoredAccount>,
)
    requires
        call_ensures(current_runtime_oauth_account, (current, account_id), r),
    ensures
        r is Some <==> current is Some && current->Some_0.id@ == account_id@
            && current->Some_0.is_chatgpt(),
        r is Some ==> r == current,
{
}

/// A moment is as far into its day as the one a day later is into the next.
pub proof fn days_have_as_many_seconds(t: Timestamp, later: Timestamp)
    requires
        time::seconds_of(later) == time::seconds_of(t) + 24 * 60 * 60,
    ensures
        second_of_day(later) == second_of_day(t),
        0 <= second_of_day(t) < 24 * 60 * 60,
{
}

} // verus!
