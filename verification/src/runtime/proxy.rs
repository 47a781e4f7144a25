//! The proxy between Codex and its app-server: which logins are under way, and
//! what comes of them.
use crate::accounts;
use crate::json;
use crate::json::{Json, JsonModel};
use crate::runtime::login;
use crate::runtime::login::{
    CurrentAccountSnapshot,
    LoginResultView,
    PreparedAccountLogin,
    RuntimeClientNotification,
    RuntimeLoadedAuth,
    RuntimeLoginCommand,
    RuntimeLoginResult,
    RuntimeLoginSuccessNotification,
    SnapshotView,
};
use crate::runtime::messages;
use crate::runtime::messages::RateLimitAutoSwitchTrigger;
use crate::runtime::prewarm::RuntimeAuthState;
use crate::runtime::reconcile;
use crate::runtime::schedule::{AutoSwitchLoginMode, RuntimeAutoSwitchSchedule};
use crate::search;
use crate::text;
use vstd::prelude::*;

verus! {

/// Thirty seconds, in nanoseconds: activity is told no more often.
pub const RUNTIME_ACTIVITY_UPDATE_MIN_INTERVAL: u128 = 30_000_000_000;

/// A login that was sent and not answered yet.
pub struct PendingInternalRequest {
    pub account_id: String,
    pub started_at: u128,
    pub expected_snapshot: Option<CurrentAccountSnapshot>,
    pub generation: Option<u64>,
    pub loaded_auth: RuntimeLoadedAuth,
    pub completion: Option<u64>,
    pub success_notification: Option<RuntimeLoginSuccessNotification>,
}

pub struct ProxyState {
    pub request_prefix: String,
    pub next_request_id: u64,
    pub pending_internal: Vec<(String, PendingInternalRequest)>,
    pub app_server_account_id: Option<String>,
    pub app_server_account_label: Option<String>,
    pub app_server_snapshot: Option<CurrentAccountSnapshot>,
    pub pending_login_account_id: Option<String>,
    pub runtime_auth_state: RuntimeAuthState,
}

/// Completions that have to be sent, with their results.
pub type Completions = Vec<(u64, RuntimeLoginResult)>;

pub open spec fn completion_view(c: (u64, RuntimeLoginResult)) -> (u64, LoginResultView) {
    (c.0, c.1@)
}

pub open spec fn completions_view(c: Seq<(u64, RuntimeLoginResult)>) -> Seq<
    (u64, LoginResultView),
> {
    c.map_values(|x: (u64, RuntimeLoginResult)| completion_view(x))
}

/// A result for a completion, where there is one.
pub open spec fn one(completion: Option<u64>, result: LoginResultView) -> Seq<
    (u64, LoginResultView),
> {
    match completion {
        Some(c) => seq![(c, result)],
        None => Seq::empty(),
    }
}

fn complete_runtime_login(
    completions: &mut Completions,
    completion: Option<u64>,
    result: RuntimeLoginResult,
)
    ensures
        completions_view(final(completions)@) == completions_view(old(completions)@) + one(
            completion,
            result@,
        ),
{
    let ghost before = completions@;
    let ghost given = result@;
    if let Some(c) = completion {
        completions.push((c, result));
        assert(completions_view(completions@) =~= completions_view(before) + seq![(c, given)]);
    } else {
        assert(completions_view(completions@) =~= completions_view(before) + Seq::empty());
    }
}

// ---------------------------------------------------------------------------
// Pending logins
// ---------------------------------------------------------------------------

pub type Pending = Seq<(String, PendingInternalRequest)>;

pub open spec fn is_expired(p: PendingInternalRequest, now: u128) -> bool {
    now - p.started_at >= reconcile::APP_SERVER_REQUEST_TIMEOUT
}

/// The logins that are still waited for.
pub open spec fn alive(pending: Pending, now: u128) -> Pending
    decreases pending.len(),
{
    if pending.len() == 0 {
        Seq::empty()
    } else if is_expired(pending.last().1, now) {
        alive(pending.drop_last(), now)
    } else {
        alive(pending.drop_last(), now).push(pending.last())
    }
}

/// What the logins that were waited for too long are answered.
pub open spec fn expired_answers(pending: Pending, now: u128) -> Seq<(u64, LoginResultView)>
    decreases pending.len(),
{
    if pending.len() == 0 {
        Seq::empty()
    } else if is_expired(pending.last().1, now) {
        expired_answers(pending.drop_last(), now) + one(
            pending.last().1.completion,
            LoginResultView::Transient(reconcile::LOGIN_TIMED_OUT@),
        )
    } else {
        expired_answers(pending.drop_last(), now)
    }
}

/// What all the logins are answered when they are given up.
pub open spec fn cancelled_answers(pending: Pending, result: LoginResultView) -> Seq<
    (u64, LoginResultView),
>
    decreases pending.len(),
{
    if pending.len() == 0 {
        Seq::empty()
    } else {
        cancelled_answers(pending.drop_last(), result) + one(pending.last().1.completion, result)
    }
}

/// The account whose login is under way, once logins that were waited for too
/// long are forgotten.
pub open spec fn login_account_left(
    pending: Pending,
    account: Option<Seq<char>>,
    now: u128,
) -> Option<Seq<char>>
    decreases pending.len(),
{
    if pending.len() == 0 {
        account
    } else {
        let before = login_account_left(pending.drop_last(), account, now);
        if is_expired(pending.last().1, now) && before == Some(pending.last().1.account_id@) {
            None
        } else {
            before
        }
    }
}

pub open spec fn has_request_id(id: Seq<char>) -> spec_fn((String, PendingInternalRequest)) -> bool {
    |e: (String, PendingInternalRequest)| e.0@ == id
}

/// The account whose login is under way, once a message of the app-server was
/// taken: none where the login that was answered is that of the account.
pub open spec fn login_account_after(state: ProxyState, message: JsonModel, now: u128) -> Option<
    Seq<char>,
> {
    let live = alive(state.pending_internal@, now);
    let left = login_account_left(
        state.pending_internal@,
        text::opt_view(state.pending_login_account_id),
        now,
    );
    match json::text_at(json::field(message, "id"@)) {
        Some(id) => match search::first_index(live, has_request_id(id)) {
            Some(i) => if left == Some(live[i].1.account_id@) {
                None
            } else {
                left
            },
            None => left,
        },
        None => left,
    }
}

pub open spec fn is_for(account_id: Seq<char>, snapshot: Option<SnapshotView>) -> spec_fn(
    (String, PendingInternalRequest),
) -> bool {
    |e: (String, PendingInternalRequest)|
        e.1.account_id@ == account_id && login::snapshot_view(e.1.expected_snapshot) == snapshot
}

#[derive(Debug, Clone, Copy, PartialEq, Eq, Structural)]
pub enum PendingLoginStatus {
    NoLogin,
    Matching,
    Other,
}

pub open spec fn status_of(
    pending: Pending,
    account_id: Seq<char>,
    snapshot: Option<SnapshotView>,
) -> PendingLoginStatus {
    if search::first_index(pending, is_for(account_id, snapshot)) is Some {
        PendingLoginStatus::Matching
    } else if pending.len() > 0 {
        PendingLoginStatus::Other
    } else {
        PendingLoginStatus::NoLogin
    }
}

/// The logins with a notice merged into the one that matches.
pub open spec fn with_notice(
    pending: Pending,
    account_id: Seq<char>,
    snapshot: Option<SnapshotView>,
    notice: Option<RuntimeLoginSuccessNotification>,
) -> Pending {
    match search::first_index(pending, is_for(account_id, snapshot)) {
        Some(i) => pending.update(
            i,
            (
                pending[i].0,
                PendingInternalRequest {
                    success_notification: login::merged(
                        pending[i].1.success_notification,
                        notice,
                    ),
                    ..pending[i].1
                },
            ),
        ),
        None => pending,
    }
}

/// What a login comes to when it is answered: nothing counts any more when a
/// newer generation began or the current account changed.
pub open spec fn login_outcome(
    p: PendingInternalRequest,
    value: JsonModel,
    generation: u64,
    current: Result<CurrentAccountSnapshot, String>,
) -> LoginResultView {
    let answer = match messages::response_result(value) {
        Ok(()) => LoginResultView::Success,
        Err(m) => login::classified(m),
    };
    if p.generation is Some && p.generation != Some(generation) {
        LoginResultView::Stale
    } else {
        match p.expected_snapshot {
            None => answer,
            Some(expected) => match current {
                Ok(c) => if c@ == expected@ {
                    answer
                } else {
                    LoginResultView::Stale
                },
                Err(m) => LoginResultView::Transient(m@),
            },
        }
    }
}

fn outcome_of_login(
    p: &PendingInternalRequest,
    value: &Json,
    generation: u64,
    current: &Result<CurrentAccountSnapshot, String>,
) -> (r: RuntimeLoginResult)
    ensures
        r@ == login_outcome(*p, value@, generation, *current),
{
    let stale: bool = match p.generation {
        Some(g) => g != generation,
        None => false,
    };
    if stale {
        return RuntimeLoginResult::Stale;
    }
    if let Some(expected) = &p.expected_snapshot {
        match current {
            Ok(c) => {
                if !login::same_snapshot(c, expected) {
                    return RuntimeLoginResult::Stale;
                }
            },
            Err(m) => {
                return RuntimeLoginResult::Transient(m.clone());
            },
        }
    }
    match messages::response_to_result(value) {
        Ok(()) => RuntimeLoginResult::Success,
        Err(m) => login::classify_runtime_login_error(m.as_str()),
    }
}

/// What the proxy does with an answer.
pub struct InternalResponseOutcome {
    /// The message was meant for the proxy and is not forwarded.
    pub handled: bool,
    pub client_notification: Option<RuntimeClientNotification>,
    pub completions: Completions,
    /// What the app-server runs with has changed and has to be told.
    pub publish: bool,
}

/// What a login command comes to.
pub enum LoginStep {
    /// Nothing is sent.
    Done {
        completions: Completions,
        client_notification: Option<RuntimeClientNotification>,
        publish: bool,
    },
    /// The current account could not be looked at.
    Failed(String),
    /// The request has to be sent.
    Send { request_id: String, request: Json, pending: PendingInternalRequest },
}

pub const LOGIN_PENDING: &'static str = "Login request is already pending";

pub const OTHER_LOGIN_PENDING: &'static str = "Another login request is already pending";

pub const CONNECTION_CLOSED: &'static str = "Codex app-server connection closed before login completed";

/// The app-server runs with this account, and with this login of it where one is
/// expected.
pub open spec fn already_matches(
    state: ProxyState,
    account_id: Seq<char>,
    snapshot: Option<SnapshotView>,
) -> bool {
    text::opt_view(state.app_server_account_id) == Some(account_id) && (snapshot is Some
        ==> login::snapshot_view(state.app_server_snapshot) == snapshot)
}

/// The login that the app-server runs with has another label by now.
pub open spec fn is_renamed(state: ProxyState, prepared: PreparedAccountLogin) -> bool {
    state.runtime_auth_state.loaded matches Some(l) && l.account_id@ == prepared.account_id@
        && l.account_label@ != prepared.account_label@
}

/// The state with the label of a login that the app-server runs with.
pub open spec fn relabelled(state: ProxyState, prepared: PreparedAccountLogin) -> ProxyState {
    ProxyState {
        app_server_account_label: Some(prepared.account_label),
        runtime_auth_state: if is_renamed(state, prepared) {
            RuntimeAuthState {
                loaded: Some(
                    RuntimeLoadedAuth {
                        account_label: prepared.account_label,
                        ..state.runtime_auth_state.loaded->Some_0
                    },
                ),
                ..state.runtime_auth_state
            }
        } else {
            state.runtime_auth_state
        },
        ..state
    }
}

/// What a login command comes to, once it was held against the current account:
/// `s` is the state before, `after` the one after.
pub open spec fn checks(
    r: LoginStep,
    s: ProxyState,
    after: ProxyState,
    command: RuntimeLoginCommand,
    check: Result<bool, String>,
) -> bool {
    let id = command.prepared.account_id@;
    let snapshot = login::snapshot_view(command.expected_snapshot);
    let status = status_of(s.pending_internal@, id, snapshot);
    match check {
        Err(m) => after == s && match command.expected_snapshot {
            Some(_) => r matches LoginStep::Done {
                completions,
                client_notification,
                publish,
            } && completions_view(completions@) == one(
                command.completion,
                LoginResultView::Transient(m@),
            ) && client_notification is None && !publish,
            None => r matches LoginStep::Failed(e) && e@ == m@,
        },
        Ok(false) => after == s && (r matches LoginStep::Done {
            completions,
            client_notification,
            publish,
        } && completions_view(completions@) == one(
            command.completion,
            LoginResultView::Stale,
        ) && client_notification is None && !publish),
        Ok(true) => {
            &&& status == PendingLoginStatus::Matching ==> (r matches LoginStep::Done {
                completions,
                client_notification,
                publish,
            } && completions_view(completions@) == one(
                command.completion,
                LoginResultView::Deferred(LOGIN_PENDING@),
            ) && client_notification is None && !publish) && after.same_session(
                s,
            ) && after.pending_login_account_id == s.pending_login_account_id
                && after.pending_internal@ == with_notice(
                s.pending_internal@,
                id,
                snapshot,
                command.success_notification,
            )
            &&& status == PendingLoginStatus::Other ==> (r matches LoginStep::Done {
                completions,
                client_notification,
                publish,
            } && completions_view(completions@) == one(
                command.completion,
                LoginResultView::Deferred(OTHER_LOGIN_PENDING@),
            ) && client_notification is None && !publish) && after == s
            &&& status == PendingLoginStatus::NoLogin && already_matches(
                s,
                id,
                snapshot,
            ) ==> (r matches LoginStep::Done {
                completions,
                client_notification,
                publish,
            } && completions_view(completions@) == one(
                command.completion,
                LoginResultView::Success,
            ) && login::notice_text(client_notification) == login::told(
                command.success_notification,
                text::opt_view(s.app_server_account_label),
                false,
            ) && publish == is_renamed(s, command.prepared)) && after
                == relabelled(s, command.prepared)
            &&& status == PendingLoginStatus::NoLogin && !already_matches(
                s,
                id,
                snapshot,
            ) ==> (r matches LoginStep::Send { request_id, request, pending }
                && request_id@ == request_id_of(s.request_prefix@, s.next_request_id)
                && request@ == messages::login_request(
                JsonModel::Text(request_id@),
                command.prepared.payload,
            ) && pending.account_id@ == id && pending.expected_snapshot
                == command.expected_snapshot && pending.generation
                == command.generation && pending.completion == command.completion
                && pending.success_notification == command.success_notification
                && pending.loaded_auth == login::loaded_from(
                command.prepared,
                command.expected_snapshot,
            )) && s.pending_internal@.len() == 0 && after == (ProxyState {
                next_request_id: number_after(s.next_request_id),
                ..s
            })
        },
    }
}

/// Whether a login begins: one that was overtaken is answered as stale instead.
pub open spec fn is_begun(
    r: Option<RuntimeLoginCommand>,
    completions: Seq<(u64, LoginResultView)>,
    expired: Seq<(u64, LoginResultView)>,
    command: RuntimeLoginCommand,
    generation: u64,
) -> bool {
    let stale = command.generation matches Some(g) && g != generation;
    &&& completions == expired + if stale {
        one(command.completion, LoginResultView::Stale)
    } else {
        Seq::empty()
    }
    &&& r == if stale {
        None
    } else {
        Some(command)
    }
}

/// Activity is told again once half a minute has passed.
pub open spec fn is_news(s: ProxyState, now: u128) -> bool {
    now - s.runtime_auth_state.last_activity_at >= RUNTIME_ACTIVITY_UPDATE_MIN_INTERVAL
}

/// The state after something went through the proxy.
pub open spec fn after_activity(s: ProxyState, now: u128) -> ProxyState {
    if is_news(s, now) {
        ProxyState {
            runtime_auth_state: RuntimeAuthState { last_activity_at: now, ..s.runtime_auth_state },
            ..s
        }
    } else {
        s
    }
}

/// The state once the app-server runs with a login.
pub open spec fn with_login(s: ProxyState, loaded_auth: RuntimeLoadedAuth, now: u128) -> ProxyState {
    ProxyState {
        app_server_account_id: Some(loaded_auth.account_id),
        app_server_account_label: Some(loaded_auth.account_label),
        app_server_snapshot: loaded_auth.current_snapshot,
        runtime_auth_state: RuntimeAuthState { loaded: Some(loaded_auth), last_activity_at: now },
        ..s
    }
}

/// The number of the request after one: they start again once all were used.
pub open spec fn number_after(n: u64) -> u64 {
    if n == u64::MAX {
        0
    } else {
        (n + 1) as u64
    }
}

/// The app-server ran with another account before.
pub open spec fn is_other(current: Option<String>, account_id: Seq<char>) -> bool {
    current is Some && current->Some_0@ != account_id
}

fn other(current: &Option<String>, account_id: &str) -> (r: bool)
    ensures
        r == is_other(*current, account_id@),
{
    match current {
        Some(c) => !text::same(c.as_str(), account_id),
        None => false,
    }
}

fn as_deref(s: &Option<String>) -> (r: Option<&str>)
    ensures
        accounts::str_view(r) == text::opt_view(*s),
{
    match s {
        Some(t) => Some(t.as_str()),
        None => None,
    }
}

/// The id of the n-th request.
pub open spec fn request_id_of(prefix: Seq<char>, n: u64) -> Seq<char> {
    prefix + "/"@ + text::decimal(n as nat)
}

/// What a message of the app-server comes to: `s` is the state before, `after` the
/// one after. An answer to a request of the proxy is handled, also where it is no
/// longer waited for.
pub open spec fn answers(
    r: InternalResponseOutcome,
    s: ProxyState,
    after: ProxyState,
    message: JsonModel,
    now: u128,
    generation: u64,
    current: Result<CurrentAccountSnapshot, String>,
) -> bool {
    let live = alive(s.pending_internal@, now);
    let expired = expired_answers(s.pending_internal@, now);
    let id = json::text_at(json::field(message, "id"@));
    match id {
        None => {
            &&& !r.handled
            &&& r.client_notification is None
            &&& !r.publish
            &&& completions_view(r.completions@) == expired
            &&& after.same_session(s)
            &&& after.pending_internal@ == live
        },
        Some(id) => match search::first_index(live, has_request_id(id)) {
            None => {
                &&& r.handled == text::begins_with(id, s.request_prefix@)
                &&& r.client_notification is None
                &&& !r.publish
                &&& completions_view(r.completions@) == expired
                &&& after.same_session(s)
                &&& after.pending_internal@ == live
            },
            Some(i) => {
                let p = live[i].1;
                let outcome = login_outcome(
                    p,
                    message,
                    generation,
                    current,
                );
                &&& r.handled
                &&& completions_view(r.completions@) == expired + one(
                    p.completion,
                    outcome,
                )
                &&& after.pending_internal@ == live.remove(i)
                &&& r.publish == (outcome is Success)
                &&& after.request_prefix == s.request_prefix
                &&& after.next_request_id == s.next_request_id
                &&& if outcome is Success {
                    &&& after.app_server_account_id == Some(
                        p.loaded_auth.account_id,
                    )
                    &&& after.app_server_account_label == Some(
                        p.loaded_auth.account_label,
                    )
                    &&& after.app_server_snapshot
                        == p.loaded_auth.current_snapshot
                    &&& after.runtime_auth_state == (RuntimeAuthState {
                        loaded: Some(p.loaded_auth),
                        last_activity_at: now,
                    })
                    &&& login::notice_text(r.client_notification) == login::told(
                        p.success_notification,
                        text::opt_view(s.app_server_account_label),
                        is_other(s.app_server_account_id, p.account_id@),
                    )
                } else {
                    &&& after.same_session(s)
                    &&& r.client_notification is None
                }
            },
        },
    }
}

impl ProxyState {
    /// At most one login is under way, and it is known for which account.
    pub open spec fn wf(self) -> bool {
        &&& self.pending_internal@.len() <= 1
        &&& text::opt_view(self.pending_login_account_id) == if self.pending_internal@.len() == 1 {
            Some(self.pending_internal@[0].1.account_id@)
        } else {
            None
        }
    }

    /// Everything but the logins under way.
    pub open spec fn same_session(self, other: ProxyState) -> bool {
        &&& self.request_prefix == other.request_prefix
        &&& self.next_request_id == other.next_request_id
        &&& self.app_server_account_id == other.app_server_account_id
        &&& self.app_server_account_label == other.app_server_account_label
        &&& self.app_server_snapshot == other.app_server_snapshot
        &&& self.runtime_auth_state == other.runtime_auth_state
    }

    pub fn new(request_prefix: String, runtime_auth_state: RuntimeAuthState) -> (r: Self)
        ensures
            r.wf(),
            r.request_prefix == request_prefix,
            r.next_request_id == 1,
            r.pending_internal@.len() == 0,
            r.app_server_account_id is None,
            r.app_server_account_label is None,
            r.app_server_snapshot is None,
            r.pending_login_account_id is None,
            r.runtime_auth_state == runtime_auth_state,
    {
        ProxyState {
            request_prefix,
            next_request_id: 1,
            pending_internal: Vec::new(),
            app_server_account_id: None,
            app_server_account_label: None,
            app_server_snapshot: None,
            pending_login_account_id: None,
            runtime_auth_state,
        }
    }

    pub fn next_internal_request_id(&mut self) -> (r: String)
        ensures
            r@ == request_id_of(old(self).request_prefix@, old(self).next_request_id),
            *final(self) == (ProxyState {
                next_request_id: number_after(old(self).next_request_id),
                ..*old(self)
            }),
    {
        let n = text::number(self.next_request_id);
        let id = text::cat3(self.request_prefix.as_str(), "/", n.as_str());
        self.next_request_id = self.next_request_id.wrapping_add(1);
        id
    }

    /// Something went through the proxy. Says whether that has to be told.
    pub fn mark_activity(&mut self, now: u128) -> (r: bool)
        ensures
            r == is_news(*old(self), now),
            *final(self) == after_activity(*old(self), now),
    {
        let last: u128 = self.runtime_auth_state.last_activity_at;
        if now < last || now - last < RUNTIME_ACTIVITY_UPDATE_MIN_INTERVAL {
            return false;
        }
        self.runtime_auth_state.last_activity_at = now;
        true
    }

    /// The app-server runs with this login now.
    pub fn set_runtime_loaded_auth(&mut self, loaded_auth: RuntimeLoadedAuth, now: u128)
        ensures
            *final(self) == with_login(*old(self), loaded_auth, now),
    {
        self.app_server_account_id = Some(loaded_auth.account_id.clone());
        self.app_server_account_label = Some(loaded_auth.account_label.clone());
        self.app_server_snapshot = login::clone_snapshots(&loaded_auth.current_snapshot);
        self.runtime_auth_state = RuntimeAuthState {
            loaded: Some(loaded_auth),
            last_activity_at: now,
        };
    }

    /// Gives up the logins that were waited for too long.
    pub fn clear_expired_pending_logins(&mut self, now: u128) -> (r: Completions)
        ensures
            final(self).same_session(*old(self)),
            final(self).pending_internal@ == alive(old(self).pending_internal@, now),
            text::opt_view(final(self).pending_login_account_id) == login_account_left(
                old(self).pending_internal@,
                text::opt_view(old(self).pending_login_account_id),
                now,
            ),
            completions_view(r@) == expired_answers(old(self).pending_internal@, now),
            old(self).wf() ==> final(self).wf(),
    {
        let ghost all = self.pending_internal@;
        let ghost account = text::opt_view(self.pending_login_account_id);
        let ghost start = *self;
        let mut kept: Vec<(String, PendingInternalRequest)> = Vec::new();
        let mut completions: Completions = Vec::new();
        let mut pending: Vec<(String, PendingInternalRequest)> = Vec::new();
        std::mem::swap(&mut pending, &mut self.pending_internal);
        let mut left: Option<String> = text::clone_option(&self.pending_login_account_id);
        assert(completions_view(completions@) =~= Seq::<(u64, LoginResultView)>::empty());
        for entry in it: pending
            invariant
                it.seq() == all,
                kept@ == alive(all.take(it.index() as int), now),
                completions_view(completions@) == expired_answers(
                    all.take(it.index() as int),
                    now,
                ),
                text::opt_view(left) == login_account_left(
                    all.take(it.index() as int),
                    account,
                    now,
                ),
        {
            let ghost k = it.index() as int;
            assert(all.take(k + 1).drop_last() =~= all.take(k));
            assert(entry == all[k]);
            if now >= entry.1.started_at && now - entry.1.started_at
                >= reconcile::APP_SERVER_REQUEST_TIMEOUT {
                let ours: bool = match &left {
                    Some(id) => text::same(id.as_str(), entry.1.account_id.as_str()),
                    None => false,
                };
                if ours {
                    left = None;
                }
                complete_runtime_login(
                    &mut completions,
                    entry.1.completion,
                    RuntimeLoginResult::Transient(reconcile::LOGIN_TIMED_OUT.to_owned()),
                );
            } else {
                kept.push(entry);
            }
        }
        assert(all.take(all.len() as int) =~= all);
        self.pending_internal = kept;
        self.pending_login_account_id = left;
        proof {
            if start.wf() {
                if all.len() == 1 {
                    assert(all.drop_last() =~= Seq::empty());
                    reveal_with_fuel(alive, 2);
                    reveal_with_fuel(login_account_left, 2);
                }
            }
        }
        completions
    }

    /// Gives up all logins.
    pub fn cancel_pending_logins(&mut self, result: RuntimeLoginResult) -> (r: Completions)
        ensures
            final(self).same_session(*old(self)),
            final(self).wf(),
            final(self).pending_internal@.len() == 0,
            final(self).pending_login_account_id is None,
            completions_view(r@) == cancelled_answers(old(self).pending_internal@, result@),
    {
        let ghost all = self.pending_internal@;
        let mut completions: Completions = Vec::new();
        let mut i: usize = 0;
        assert(completions_view(completions@) =~= Seq::<(u64, LoginResultView)>::empty());
        while i < self.pending_internal.len()
            invariant
                i <= self.pending_internal@.len(),
                self.pending_internal@ == all,
                completions_view(completions@) == cancelled_answers(all.take(i as int), result@),
            decreases self.pending_internal@.len() - i,
        {
            assert(all.take(i as int + 1).drop_last() =~= all.take(i as int));
            complete_runtime_login(
                &mut completions,
                self.pending_internal[i].1.completion,
                result.clone(),
            );
            i = i + 1;
        }
        assert(all.take(i as int) =~= all);
        self.pending_internal = Vec::new();
        self.pending_login_account_id = None;
        completions
    }

    /// The connection is gone, and with it every login under way.
    pub fn clear_connection_pending(&mut self) -> (r: Completions)
        ensures
            final(self).same_session(*old(self)),
            final(self).wf(),
            final(self).pending_internal@.len() == 0,
            final(self).pending_login_account_id is None,
            completions_view(r@) == cancelled_answers(
                old(self).pending_internal@,
                LoginResultView::Transient(CONNECTION_CLOSED@),
            ),
    {
        self.cancel_pending_logins(RuntimeLoginResult::Transient(CONNECTION_CLOSED.to_owned()))
    }

    /// How the app-server's account is made sure of in a hard search.
    pub fn hard_login_mode(&self) -> (r: AutoSwitchLoginMode)
        ensures
            r == (AutoSwitchLoginMode::EnsureCurrentLogged {
                app_server_account_id: self.app_server_account_id,
                app_server_snapshot: self.app_server_snapshot,
            }),
    {
        AutoSwitchLoginMode::EnsureCurrentLogged {
            app_server_account_id: text::clone_option(&self.app_server_account_id),
            app_server_snapshot: login::clone_snapshots(&self.app_server_snapshot),
        }
    }

    pub fn runtime_login_already_matches(
        &self,
        account_id: &str,
        expected_snapshot: &Option<CurrentAccountSnapshot>,
    ) -> (r: bool)
        ensures
            r == already_matches(*self, account_id@, login::snapshot_view(*expected_snapshot)),
    {
        let same_account: bool = match &self.app_server_account_id {
            Some(id) => text::same(id.as_str(), account_id),
            None => false,
        };
        same_account && match expected_snapshot {
            Some(_) => login::same_snapshots(&self.app_server_snapshot, expected_snapshot),
            None => true,
        }
    }

    /// The app-server runs with this account already; its label may be new. Says
    /// whether that has to be told.
    pub fn mark_runtime_login_already_matched(&mut self, prepared: &PreparedAccountLogin) -> (r:
        bool)
        ensures
            r == is_renamed(*old(self), *prepared),
            *final(self) == relabelled(*old(self), *prepared),
    {
        self.app_server_account_label = Some(prepared.account_label.clone());
        let renamed: Option<RuntimeLoadedAuth> = match &self.runtime_auth_state.loaded {
            Some(l) => if text::same(l.account_id.as_str(), prepared.account_id.as_str())
                && !text::same(l.account_label.as_str(), prepared.account_label.as_str()) {
                Some(
                    RuntimeLoadedAuth {
                        account_id: l.account_id.clone(),
                        account_label: prepared.account_label.clone(),
                        chatgpt_account_id: l.chatgpt_account_id.clone(),
                        access_token_expires_at: l.access_token_expires_at,
                        current_snapshot: login::clone_snapshots(&l.current_snapshot),
                    },
                )
            } else {
                None
            },
            None => None,
        };
        match renamed {
            Some(l) => {
                self.runtime_auth_state = RuntimeAuthState {
                    loaded: Some(l),
                    last_activity_at: self.runtime_auth_state.last_activity_at,
                };
                true
            },
            None => false,
        }
    }

    /// A login that is not needed, as the app-server runs with it already.
    pub fn complete_already_matched_runtime_login(
        &mut self,
        prepared: &PreparedAccountLogin,
        completion: Option<u64>,
        success_notification: Option<RuntimeLoginSuccessNotification>,
    ) -> (r: (Completions, Option<RuntimeClientNotification>, bool))
        ensures
            completions_view(r.0@) == one(completion, LoginResultView::Success),
            login::notice_text(r.1) == login::told(
                success_notification,
                text::opt_view(old(self).app_server_account_label),
                is_other(old(self).app_server_account_id, prepared.account_id@),
            ),
            *final(self) == relabelled(*old(self), *prepared),
            r.2 == is_renamed(*old(self), *prepared),
    {
        let account_changed: bool = other(
            &self.app_server_account_id,
            prepared.account_id.as_str(),
        );
        let previous_label = text::clone_option(&self.app_server_account_label);
        let publish = self.mark_runtime_login_already_matched(prepared);
        let mut completions: Completions = Vec::new();
        complete_runtime_login(&mut completions, completion, RuntimeLoginResult::Success);
        assert(completions_view(completions@) =~= one(completion, LoginResultView::Success));
        let notice = login::runtime_login_success_client_notification_if_needed(
            success_notification,
            as_deref(&previous_label),
            account_changed,
        );
        (completions, notice, publish)
    }

    /// Whether a login is under way, and whether it is this one; a notice is
    /// merged into it then.
    pub fn pending_login_status_and_merge_notification(
        &mut self,
        account_id: &str,
        expected_snapshot: &Option<CurrentAccountSnapshot>,
        success_notification: Option<RuntimeLoginSuccessNotification>,
    ) -> (r: PendingLoginStatus)
        ensures
            r == status_of(
                old(self).pending_internal@,
                account_id@,
                login::snapshot_view(*expected_snapshot),
            ),
            final(self).pending_internal@ == with_notice(
                old(self).pending_internal@,
                account_id@,
                login::snapshot_view(*expected_snapshot),
                success_notification,
            ),
            final(self).same_session(*old(self)),
            final(self).pending_login_account_id == old(self).pending_login_account_id,
            r != PendingLoginStatus::Matching ==> *final(self) == *old(self),
            old(self).wf() ==> final(self).wf(),
    {
        let ghost all = self.pending_internal@;
        if let Some(i) = self.position_of_login(account_id, expected_snapshot) {
            let (id, found) = self.pending_internal.remove(i);
            let merged = PendingInternalRequest {
                account_id: found.account_id,
                started_at: found.started_at,
                expected_snapshot: found.expected_snapshot,
                generation: found.generation,
                loaded_auth: found.loaded_auth,
                completion: found.completion,
                success_notification: login::merge_runtime_login_success_notification(
                    found.success_notification,
                    success_notification,
                ),
            };
            self.pending_internal.insert(i, (id, merged));
            assert(self.pending_internal@ =~= all.update(i as int, (id, merged)));
            PendingLoginStatus::Matching
        } else {
            if self.pending_internal.len() > 0 {
                PendingLoginStatus::Other
            } else {
                PendingLoginStatus::NoLogin
            }
        }
    }

    // -----------------------------------------------------------------------
    // Sending a login
    // -----------------------------------------------------------------------

    /// Takes a login command: logins that were waited for too long are given up,
    /// and a command of an older generation is stale. What is left has to be
    /// held against the current account.
    pub fn begin_login(
        &mut self,
        command: RuntimeLoginCommand,
        now: u128,
        schedule: &RuntimeAutoSwitchSchedule,
    ) -> (r: (Completions, Option<RuntimeLoginCommand>))
        ensures
            final(self).same_session(*old(self)),
            final(self).pending_internal@ == alive(old(self).pending_internal@, now),
            text::opt_view(final(self).pending_login_account_id) == login_account_left(
                old(self).pending_internal@,
                text::opt_view(old(self).pending_login_account_id),
                now,
            ),
            old(self).wf() ==> final(self).wf(),
            is_begun(
                r.1,
                completions_view(r.0@),
                expired_answers(old(self).pending_internal@, now),
                command,
                schedule.generation,
            ),
    {
        let mut completions = self.clear_expired_pending_logins(now);
        let stale: bool = match command.generation {
            Some(g) => !schedule.is_current_generation(g),
            None => false,
        };
        if stale {
            complete_runtime_login(
                &mut completions,
                command.completion,
                RuntimeLoginResult::Stale,
            );
            (completions, None)
        } else {
            assert(completions_view(completions@) + Seq::empty() =~= completions_view(
                completions@,
            ));
            (completions, Some(command))
        }
    }

    /// Goes on with a login command, once it was held against the current
    /// account: `check` says whether that is the one the login is meant for.
    pub fn check_login(&mut self, command: RuntimeLoginCommand, check: Result<bool, String>) -> (r:
        LoginStep)
        ensures
            checks(r, *old(self), *final(self), command, check),
            old(self).wf() ==> final(self).wf(),
    {
        let RuntimeLoginCommand {
            prepared,
            expected_snapshot,
            generation,
            completion,
            success_notification,
        } = command;
        let mut completions: Completions = Vec::new();
        assert(completions_view(completions@) =~= Seq::<(u64, LoginResultView)>::empty());
        let matches: bool = match check {
            Ok(m) => m,
            Err(e) => {
                if expected_snapshot.is_none() {
                    return LoginStep::Failed(e);
                }
                complete_runtime_login(
                    &mut completions,
                    completion,
                    RuntimeLoginResult::Transient(e),
                );
                return LoginStep::Done { completions, client_notification: None, publish: false };
            },
        };
        if !matches {
            complete_runtime_login(&mut completions, completion, RuntimeLoginResult::Stale);
            return LoginStep::Done { completions, client_notification: None, publish: false };
        }
        let notice = login::clone_notification(&success_notification);
        let status = self.pending_login_status_and_merge_notification(
            prepared.account_id.as_str(),
            &expected_snapshot,
            notice,
        );
        match status {
            PendingLoginStatus::Matching => {
                complete_runtime_login(
                    &mut completions,
                    completion,
                    RuntimeLoginResult::Deferred(LOGIN_PENDING.to_owned()),
                );
                return LoginStep::Done { completions, client_notification: None, publish: false };
            },
            PendingLoginStatus::Other => {
                complete_runtime_login(
                    &mut completions,
                    completion,
                    RuntimeLoginResult::Deferred(OTHER_LOGIN_PENDING.to_owned()),
                );
                return LoginStep::Done { completions, client_notification: None, publish: false };
            },
            PendingLoginStatus::NoLogin => {},
        }
        if self.runtime_login_already_matches(prepared.account_id.as_str(), &expected_snapshot) {
            let (completions, client_notification, publish) =
                self.complete_already_matched_runtime_login(
                &prepared,
                completion,
                success_notification,
            );
            return LoginStep::Done { completions, client_notification, publish };
        }
        let loaded_auth = login::runtime_loaded_auth_from_prepared(
            &prepared,
            login::clone_snapshots(&expected_snapshot),
        );
        let request_id = self.next_internal_request_id();
        let request = messages::login_request_from_payload(
            json::text_value(request_id.as_str()),
            &prepared.payload,
        );
        let pending = PendingInternalRequest {
            account_id: prepared.account_id,
            started_at: 0,
            expected_snapshot,
            generation,
            loaded_auth,
            completion,
            success_notification,
        };
        LoginStep::Send { request_id, request, pending }
    }

    /// The request of a login was sent.
    pub fn login_sent(&mut self, request_id: String, pending: PendingInternalRequest, now: u128)
        requires
            old(self).pending_internal@.len() == 0,
        ensures
            final(self).wf(),
            final(self).same_session(*old(self)),
            final(self).pending_internal@ == seq![
                (request_id, PendingInternalRequest { started_at: now, ..pending }),
            ],
            text::opt_view(final(self).pending_login_account_id) == Some(pending.account_id@),
    {
        let account_id = pending.account_id.clone();
        let started = PendingInternalRequest {
            account_id: pending.account_id,
            started_at: now,
            expected_snapshot: pending.expected_snapshot,
            generation: pending.generation,
            loaded_auth: pending.loaded_auth,
            completion: pending.completion,
            success_notification: pending.success_notification,
        };
        self.pending_internal.push((request_id, started));
        self.pending_login_account_id = Some(account_id);
        assert(self.pending_internal@ =~= seq![(request_id, started)]);
    }

    // -----------------------------------------------------------------------
    // Answers
    // -----------------------------------------------------------------------

    /// Takes a message of the app-server. An answer to a request of the proxy is
    /// handled, also where it is no longer waited for; anything else is
    /// forwarded. `current` is what is current now.
    pub fn handle_internal_response(
        &mut self,
        value: &Json,
        now: u128,
        schedule: &RuntimeAutoSwitchSchedule,
        current: &Result<CurrentAccountSnapshot, String>,
    ) -> (r: InternalResponseOutcome)
        ensures
            answers(
                r,
                *old(self),
                *final(self),
                value@,
                now,
                schedule.generation,
                *current,
            ),
            text::opt_view(final(self).pending_login_account_id) == login_account_after(
                *old(self),
                value@,
                now,
            ),
            old(self).wf() ==> final(self).wf(),
    {
        let mut completions = self.clear_expired_pending_logins(now);
        let id: &str = match json::text_in(value.get("id")) {
            Some(s) => s,
            None => {
                return InternalResponseOutcome {
                    handled: false,
                    client_notification: None,
                    completions,
                    publish: false,
                };
            },
        };
        let at: usize = match self.position_of_request(id) {
            Some(i) => i,
            None => {
                return InternalResponseOutcome {
                    handled: text::starts_with(id, self.request_prefix.as_str()),
                    client_notification: None,
                    completions,
                    publish: false,
                };
            },
        };
        let ghost live = self.pending_internal@;
        let (_, pending) = self.pending_internal.remove(at);
        let ours: bool = match &self.pending_login_account_id {
            Some(a) => text::same(a.as_str(), pending.account_id.as_str()),
            None => false,
        };
        if ours {
            self.pending_login_account_id = None;
        }
        let result = outcome_of_login(&pending, value, schedule.generation, current);
        let success: bool = match &result {
            RuntimeLoginResult::Success => true,
            _ => false,
        };
        let PendingInternalRequest {
            account_id,
            started_at: _,
            expected_snapshot: _,
            generation: _,
            loaded_auth,
            completion,
            success_notification,
        } = pending;
        let mut client_notification: Option<RuntimeClientNotification> = None;
        if success {
            let account_changed: bool = other(&self.app_server_account_id, account_id.as_str());
            let previous_label = text::clone_option(&self.app_server_account_label);
            self.set_runtime_loaded_auth(loaded_auth, now);
            client_notification = login::runtime_login_success_client_notification_if_needed(
                success_notification,
                as_deref(&previous_label),
                account_changed,
            );
        }
        complete_runtime_login(&mut completions, completion, result);
        InternalResponseOutcome {
            handled: true,
            client_notification,
            completions,
            publish: success,
        }
    }

    fn position_of_login(
        &self,
        account_id: &str,
        expected_snapshot: &Option<CurrentAccountSnapshot>,
    ) -> (r: Option<usize>)
        ensures
            match r {
                Some(i) => i < self.pending_internal@.len() && search::first_index(
                    self.pending_internal@,
                    is_for(account_id@, login::snapshot_view(*expected_snapshot)),
                ) == Some(i as int),
                None => search::first_index(
                    self.pending_internal@,
                    is_for(account_id@, login::snapshot_view(*expected_snapshot)),
                ) is None,
            },
    {
        let ghost p = is_for(account_id@, login::snapshot_view(*expected_snapshot));
        let mut i: usize = 0;
        while i < self.pending_internal.len()
            invariant
                i <= self.pending_internal@.len(),
                p == is_for(account_id@, login::snapshot_view(*expected_snapshot)),
                forall|k: int| 0 <= k < i ==> !p(#[trigger] self.pending_internal@[k]),
            decreases self.pending_internal@.len() - i,
        {
            let pending = &self.pending_internal[i].1;
            if text::same(pending.account_id.as_str(), account_id) && login::same_snapshots(
                &pending.expected_snapshot,
                expected_snapshot,
            ) {
                proof {
                    search::first_index_unique(self.pending_internal@, p, i as int);
                }
                return Some(i);
            }
            i = i + 1;
        }
        proof {
            search::first_index_absent(self.pending_internal@, p);
        }
        None
    }

    fn position_of_request(&self, id: &str) -> (r: Option<usize>)
        ensures
            match r {
                Some(i) => i < self.pending_internal@.len() && search::first_index(
                    self.pending_internal@,
                    has_request_id(id@),
                ) == Some(i as int),
                None => search::first_index(
                    self.pending_internal@,
                    has_request_id(id@),
                ) is None,
            },
    {
        let ghost p = has_request_id(id@);
        let mut i: usize = 0;
        while i < self.pending_internal.len()
            invariant
                i <= self.pending_internal@.len(),
                p == has_request_id(id@),
                forall|k: int| 0 <= k < i ==> !p(#[trigger] self.pending_internal@[k]),
            decreases self.pending_internal@.len() - i,
        {
            if text::same(self.pending_internal[i].0.as_str(), id) {
                proof {
                    search::first_index_unique(self.pending_internal@, p, i as int);
                }
                return Some(i);
            }
            i = i + 1;
        }
        proof {
            search::first_index_absent(self.pending_internal@, p);
        }
        None
    }
}

/// The answer to a login whose request could not be sent.
pub fn login_not_sent(completion: Option<u64>, error: &str) -> (r: Completions)
    ensures
        completions_view(r@) == one(
            completion,
            LoginResultView::Transient(
                "Failed to send Codex app-server login request: "@ + error@,
            ),
        ),
{
    let mut completions: Completions = Vec::new();
    complete_runtime_login(
        &mut completions,
        completion,
        RuntimeLoginResult::Transient(
            text::cat2("Failed to send Codex app-server login request: ", error),
        ),
    );
    assert(completions_view(completions@) =~= one(
        completion,
        LoginResultView::Transient(
            "Failed to send Codex app-server login request: "@ + error@,
        ),
    ));
    completions
}

/// Where a message of the app-server goes.
#[derive(Debug, Clone, Copy, PartialEq, Eq, Structural)]
pub enum Route {
    /// It was meant for the proxy.
    Swallow,
    /// It asks the proxy for fresh tokens.
    Refresh,
    /// It is forwarded, and calls for a hard search.
    ForwardHard,
    /// It is forwarded; what it calls for depends on what it says of rate limits.
    Forward,
}

pub fn route(value: &Json, handled: bool) -> (r: Route)
    ensures
        r == (if handled {
            Route::Swallow
        } else if messages::is_refresh_request(value@) {
            Route::Refresh
        } else if messages::is_usage_limit_error(value@) {
            Route::ForwardHard
        } else {
            Route::Forward
        }),
{
    if handled {
        Route::Swallow
    } else if messages::asks_for_refresh(value) {
        Route::Refresh
    } else if messages::usage_limit_error_requires_switch(value) {
        Route::ForwardHard
    } else {
        Route::Forward
    }
}

/// The search that a message calls for.
pub fn trigger_for(route: Route, limits: RateLimitAutoSwitchTrigger) -> (r:
    RateLimitAutoSwitchTrigger)
    ensures
        r == match route {
            Route::ForwardHard => RateLimitAutoSwitchTrigger::Hard,
            Route::Forward => limits,
            _ => RateLimitAutoSwitchTrigger::Nothing,
        },
{
    match route {
        Route::ForwardHard => RateLimitAutoSwitchTrigger::Hard,
        Route::Forward => limits,
        _ => RateLimitAutoSwitchTrigger::Nothing,
    }
}

// ---------------------------------------------------------------------------
// Laws
// ---------------------------------------------------------------------------

/// Every login under way is either still waited for or answered, never both and
/// never neither: what is left and what was given up make up what there was.
pub proof fn expired_logins_are_answered_once(pending: Pending, now: u128)
    ensures
        alive(pending, now).len() + given_up(pending, now).len() == pending.len(),
        expired_answers(pending, now) == cancelled_answers(
            given_up(pending, now),
            LoginResultView::Transient(reconcile::LOGIN_TIMED_OUT@),
        ),
    decreases pending.len(),
{
    if pending.len() > 0 {
        expired_logins_are_answered_once(pending.drop_last(), now);
        if is_expired(pending.last().1, now) {
            assert(given_up(pending, now).drop_last() =~= given_up(pending.drop_last(), now));
        }
    }
}

/// The logins that were waited for too long.
pub open spec fn given_up(pending: Pending, now: u128) -> Pending
    decreases pending.len(),
{
    if pending.len() == 0 {
        Seq::empty()
    } else if is_expired(pending.last().1, now) {
        given_up(pending.drop_last(), now).push(pending.last())
    } else {
        given_up(pending.drop_last(), now)
    }
}

proof fn fewer_are_alive(pending: Pending, now: u128)
    ensures
        alive(pending, now).len() <= pending.len(),
    decreases pending.len(),
{
    if pending.len() > 0 {
        fewer_are_alive(pending.drop_last(), now);
    }
}

/// No two logins are ever under way. `begun` is the state once a command was
/// taken and `checked` the one once it was held against the current account: a
/// request is sent, and is the only one then, where none is pending; where one is
/// pending nothing is sent and the command is put off.
pub proof fn one_login_at_a_time(
    start: ProxyState,
    begun: ProxyState,
    checked: ProxyState,
    r: LoginStep,
    command: RuntimeLoginCommand,
    check: Result<bool, String>,
    now: u128,
)
    requires
        start.pending_internal@.len() <= 1,
        begun.pending_internal@ == alive(start.pending_internal@, now),
        checks(r, begun, checked, command, check),
    ensures
        begun.pending_internal@.len() <= 1,
        checked.pending_internal@.len() == begun.pending_internal@.len(),
        r is Send ==> checked.pending_internal@.len() == 0,
        begun.pending_internal@.len() > 0 && check == Ok::<bool, String>(true) ==> (
        r matches LoginStep::Done { completions, client_notification, publish } && (
        completions_view(completions@) == one(
            command.completion,
            LoginResultView::Deferred(LOGIN_PENDING@),
        ) || completions_view(completions@) == one(
            command.completion,
            LoginResultView::Deferred(OTHER_LOGIN_PENDING@),
        )) && client_notification is None && !publish),
{
    fewer_are_alive(start.pending_internal@, now);
    search::first_index_is_first(
        begun.pending_internal@,
        is_for(
            command.prepared.account_id@,
            login::snapshot_view(command.expected_snapshot),
        ),
    );
}

/// Looking for logins that were waited for too long a second time finds none.
pub proof fn clearing_twice_is_clearing_once(pending: Pending, now: u128)
    ensures
        alive(alive(pending, now), now) == alive(pending, now),
        expired_answers(alive(pending, now), now) == Seq::<(u64, LoginResultView)>::empty(),
    decreases pending.len(),
{
    if pending.len() > 0 {
        clearing_twice_is_clearing_once(pending.drop_last(), now);
        if !is_expired(pending.last().1, now) {
            assert(alive(pending, now).drop_last() =~= alive(pending.drop_last(), now));
        }
    }
}

/// No login of an older generation, and none for an account that is no longer
/// current, ever counts as a success.
pub proof fn stale_logins_never_succeed(
    p: PendingInternalRequest,
    value: JsonModel,
    generation: u64,
    current: Result<CurrentAccountSnapshot, String>,
)
    requires
        (p.generation is Some && p.generation != Some(generation)) || (p.expected_snapshot matches Some(
            e,
        ) && (current is Err || current->Ok_0@ != e@)),
    ensures
        !(login_outcome(p, value, generation, current) is Success),
{
}

/// A login is given up after twenty seconds and not before; what is left are the
/// others, in their order.
pub proof fn logins_are_waited_for(pending: Pending, now: u128, e: (String, PendingInternalRequest))
    ensures
        alive(pending, now).contains(e) <==> pending.contains(e) && now - e.1.started_at
            < 20_000_000_000,
        given_up(pending, now).contains(e) <==> pending.contains(e) && now - e.1.started_at
            >= 20_000_000_000,
    decreases pending.len(),
{
    if pending.len() > 0 {
        let init = pending.drop_last();
        let last = pending.last();
        logins_are_waited_for(init, now, e);
        contains_pushed(init, last, e);
        assert(pending =~= init.push(last));
        contains_pushed(alive(init, now), last, e);
        contains_pushed(given_up(init, now), last, e);
    }
}

proof fn contains_pushed(s: Pending, last: (String, PendingInternalRequest), e: (
    String,
    PendingInternalRequest,
))
    ensures
        s.push(last).contains(e) <==> s.contains(e) || e == last,
{
    let t = s.push(last);
    if s.contains(e) {
        let k = choose|k: int| 0 <= k < s.len() && s[k] == e;
        assert(t[k] == e);
    }
    if e == last {
        assert(t[s.len() as int] == e);
    }
    if t.contains(e) {
        let k = choose|k: int| 0 <= k < t.len() && t[k] == e;
        if k < s.len() {
            assert(s[k] == e);
        }
    }
}

/// A login request is sent exactly where the account is still the expected one, no
/// login is under way, and the app-server does not run with this login already. It
/// asks for the login of the command, under a fresh id, and what is waited for is
/// that of the command, too.
pub proof fn logins_are_sent_where_they_are_needed(
    r: LoginStep,
    s: ProxyState,
    after: ProxyState,
    command: RuntimeLoginCommand,
    check: Result<bool, String>,
)
    requires
        checks(r, s, after, command, check),
    ensures
        r is Send <==> {
            &&& check == Ok::<bool, String>(true)
            &&& s.pending_internal@.len() == 0
            &&& !(s.app_server_account_id is Some && s.app_server_account_id->Some_0@
                == command.prepared.account_id@ && (command.expected_snapshot is None || (
            s.app_server_snapshot is Some && s.app_server_snapshot->Some_0@
                == command.expected_snapshot->Some_0@)))
        },
        r matches LoginStep::Send { request_id, request, pending } ==> {
            &&& json::field(request@, "id"@) == Some(JsonModel::Text(request_id@))
            &&& messages::method_of(request@) == Some("account/login/start"@)
            &&& json::field2(request@, "params"@, "accessToken"@) == Some(
                JsonModel::Text(command.prepared.payload.access_token@),
            )
            &&& json::field2(request@, "params"@, "chatgptAccountId"@) == Some(
                JsonModel::Text(command.prepared.payload.chatgpt_account_id@),
            )
            &&& text::begins_with(request_id@, s.request_prefix@)
            &&& pending.account_id@ == command.prepared.account_id@
            &&& pending.completion == command.completion
            &&& pending.generation == command.generation
            &&& pending.expected_snapshot == command.expected_snapshot
            &&& pending.success_notification == command.success_notification
            &&& pending.loaded_auth.account_id == command.prepared.account_id
            &&& pending.loaded_auth.chatgpt_account_id
                == command.prepared.payload.chatgpt_account_id
        },
{
    let id = command.prepared.account_id@;
    let snapshot = login::snapshot_view(command.expected_snapshot);
    search::first_index_is_first(s.pending_internal@, is_for(id, snapshot));
    if let LoginStep::Send { request_id, request, pending } = r {
        messages::requests_of_the_proxy_are_requests(
            JsonModel::Text(request_id@),
            command.prepared.payload,
        );
        messages::login_requests_carry_the_payload(
            JsonModel::Text(request_id@),
            command.prepared.payload,
        );
        let prefix = s.request_prefix@;
        assert(request_id@.subrange(0, prefix.len() as int) =~= prefix);
    }
}

/// A command that sends nothing is answered: as a success where the app-server runs
/// with the login already, as stale where another account is current by now.
pub proof fn commands_are_answered(
    r: LoginStep,
    s: ProxyState,
    after: ProxyState,
    command: RuntimeLoginCommand,
    check: Result<bool, String>,
)
    requires
        checks(r, s, after, command, check),
        command.completion is Some,
    ensures
        check == Ok::<bool, String>(false) ==> (r matches LoginStep::Done { completions, .. }
            && completions_view(completions@) == seq![
            (command.completion->Some_0, LoginResultView::Stale),
        ]) && after == s,
        check == Ok::<bool, String>(true) && s.pending_internal@.len() == 0 && already_matches(
            s,
            command.prepared.account_id@,
            login::snapshot_view(command.expected_snapshot),
        ) ==> (r matches LoginStep::Done { completions, .. } && completions_view(completions@)
            == seq![(command.completion->Some_0, LoginResultView::Success)])
            && after.app_server_account_id == s.app_server_account_id
            && after.app_server_account_label == Some(command.prepared.account_label),
        check is Err && command.expected_snapshot is Some ==> (r matches LoginStep::Done {
            completions,
            ..
        } && completions_view(completions@) == seq![
            (command.completion->Some_0, LoginResultView::Transient(check->Err_0@)),
        ]) && after == s,
{
    let id = command.prepared.account_id@;
    let snapshot = login::snapshot_view(command.expected_snapshot);
    search::first_index_is_first(s.pending_internal@, is_for(id, snapshot));
}

/// A login under way is the one that is asked for exactly where it is for the same
/// account with the same current account expected.
pub proof fn pending_logins_are_recognised(
    pending: Pending,
    account_id: Seq<char>,
    snapshot: Option<SnapshotView>,
)
    ensures
        status_of(pending, account_id, snapshot) == PendingLoginStatus::NoLogin <==> pending.len()
            == 0,
        status_of(pending, account_id, snapshot) == PendingLoginStatus::Matching <==> exists|i: int|
            0 <= i < pending.len() && (#[trigger] pending[i]).1.account_id@ == account_id
                && login::snapshot_view(pending[i].1.expected_snapshot) == snapshot,
        with_notice(pending, account_id, snapshot, None) == pending,
{
    let p = is_for(account_id, snapshot);
    search::first_index_is_first(pending, p);
    if exists|i: int|
        0 <= i < pending.len() && (#[trigger] pending[i]).1.account_id@ == account_id
            && login::snapshot_view(pending[i].1.expected_snapshot) == snapshot {
        let i = choose|i: int|
            0 <= i < pending.len() && (#[trigger] pending[i]).1.account_id@ == account_id
                && login::snapshot_view(pending[i].1.expected_snapshot) == snapshot;
        assert(p(pending[i]));
    }
    assert(with_notice(pending, account_id, snapshot, None) =~= pending);
}

/// A login that is answered succeeds exactly where the answer is good, its generation
/// is the current one, and the current account is the expected one.
pub proof fn good_answers_succeed(
    p: PendingInternalRequest,
    value: JsonModel,
    generation: u64,
    current: Result<CurrentAccountSnapshot, String>,
)
    ensures
        login_outcome(p, value, generation, current) is Success <==> {
            &&& json::field(value, "error"@) is None
            &&& json::field(value, "result"@) is Some
            &&& p.generation is None || p.generation == Some(generation)
            &&& p.expected_snapshot is None || (current is Ok && current->Ok_0@
                == p.expected_snapshot->Some_0@)
        },
{
}

/// A message that answers no request of the proxy is passed on, and changes nothing
/// of what the app-server is known to run with; an answer that comes too late is not
/// passed on.
pub proof fn other_messages_are_passed_on(
    r: InternalResponseOutcome,
    s: ProxyState,
    after: ProxyState,
    message: JsonModel,
    now: u128,
    generation: u64,
    current: Result<CurrentAccountSnapshot, String>,
)
    requires
        answers(r, s, after, message, now, generation, current),
        json::text_at(json::field(message, "id"@)) matches Some(id) ==> forall|i: int|
            0 <= i < s.pending_internal@.len() ==> (#[trigger] s.pending_internal@[i]).0@ != id,
    ensures
        r.handled <==> json::text_at(json::field(message, "id"@)) is Some && text::begins_with(
            json::text_at(json::field(message, "id"@))->Some_0,
            s.request_prefix@,
        ),
        after.same_session(s),
        !r.publish,
        r.client_notification is None,
{
    let live = alive(s.pending_internal@, now);
    if json::text_at(json::field(message, "id"@)) is Some {
        let id = json::text_at(json::field(message, "id"@))->Some_0;
        assert forall|i: int| 0 <= i < live.len() implies !has_request_id(id)(#[trigger] live[i]) by {
            assert(live.contains(live[i]));
            logins_are_waited_for(s.pending_internal@, now, live[i]);
            let k = choose|k: int|
                0 <= k < s.pending_internal@.len() && s.pending_internal@[k] == live[i];
            assert(s.pending_internal@[k].0@ != id);
        }
        search::first_index_absent(live, has_request_id(id));
    }
}

/// An answer to the login under way is kept from the client, ends the login, answers
/// whoever waits for it, and on success makes the app-server run with the account of
/// that login and no other.
pub proof fn answers_end_the_login(
    r: InternalResponseOutcome,
    s: ProxyState,
    after: ProxyState,
    message: JsonModel,
    now: u128,
    generation: u64,
    current: Result<CurrentAccountSnapshot, String>,
)
    requires
        answers(r, s, after, message, now, generation, current),
        s.pending_internal@.len() == 1,
        json::text_at(json::field(message, "id"@)) == Some(s.pending_internal@[0].0@),
        now - s.pending_internal@[0].1.started_at < 20_000_000_000,
    ensures
        ({
            let p = s.pending_internal@[0].1;
            let outcome = login_outcome(p, message, generation, current);
            &&& r.handled
            &&& after.pending_internal@.len() == 0
            &&& completions_view(r.completions@) == one(p.completion, outcome)
            &&& r.publish <==> outcome is Success
            &&& outcome is Success ==> {
                &&& after.app_server_account_id == Some(p.loaded_auth.account_id)
                &&& after.app_server_account_label == Some(p.loaded_auth.account_label)
                &&& after.app_server_snapshot == p.loaded_auth.current_snapshot
                &&& after.runtime_auth_state.loaded == Some(p.loaded_auth)
            }
            &&& !(outcome is Success) ==> after.same_session(s) && r.client_notification is None
        }),
{
    let pending = s.pending_internal@;
    let init = pending.drop_last();
    assert(init.len() == 0);
    reveal_with_fuel(alive, 2);
    reveal_with_fuel(expired_answers, 2);
    let live = alive(pending, now);
    assert(live =~= pending);
    assert(expired_answers(pending, now) =~= Seq::<(u64, LoginResultView)>::empty());
    search::first_index_unique(live, has_request_id(pending[0].0@), 0);
    assert(live.remove(0).len() == 0);
    let p = pending[0].1;
    let outcome = login_outcome(p, message, generation, current);
    assert(Seq::<(u64, LoginResultView)>::empty() + one(p.completion, outcome) =~= one(
        p.completion,
        outcome,
    ));
}

/// Requests go by different ids as long as their numbers differ, and every id begins
/// with what the proxy is known by.
pub proof fn request_ids_keep_apart(prefix: Seq<char>, a: u64, b: u64)
    ensures
        request_id_of(prefix, a) == request_id_of(prefix, b) ==> a == b,
        text::begins_with(request_id_of(prefix, a), prefix),
        a < u64::MAX ==> number_after(a) == a + 1,
{
    reveal_strlit("/");
    let x = request_id_of(prefix, a);
    let y = request_id_of(prefix, b);
    assert(x.subrange(0, prefix.len() as int) =~= prefix);
    assert(x.skip(prefix.len() as int + 1) =~= text::decimal(a as nat));
    assert(y.skip(prefix.len() as int + 1) =~= text::decimal(b as nat));
    if x == y {
        text::numbers_keep_apart(a as nat, b as nat);
    }
}

/// A new label is all that changes where the app-server runs with the login already.
pub proof fn relabelling_keeps_the_login(s: ProxyState, prepared: PreparedAccountLogin)
    ensures
        ({
            let after = relabelled(s, prepared);
            &&& after.app_server_account_label == Some(prepared.account_label)
            &&& after.app_server_account_id == s.app_server_account_id
            &&& after.app_server_snapshot == s.app_server_snapshot
            &&& after.pending_internal == s.pending_internal
            &&& after.next_request_id == s.next_request_id
            &&& after.runtime_auth_state.last_activity_at == s.runtime_auth_state.last_activity_at
            &&& s.runtime_auth_state.loaded is None ==> after.runtime_auth_state.loaded is None
            &&& s.runtime_auth_state.loaded matches Some(l) ==> {
                let m = after.runtime_auth_state.loaded->Some_0;
                &&& after.runtime_auth_state.loaded is Some
                &&& m.account_id == l.account_id
                &&& m.chatgpt_account_id == l.chatgpt_account_id
                &&& m.access_token_expires_at == l.access_token_expires_at
                &&& m.current_snapshot == l.current_snapshot
                &&& l.account_id@ == prepared.account_id@ ==> m.account_label@
                    == prepared.account_label@
                &&& l.account_id@ != prepared.account_id@ ==> m == l
            }
        }),
{
}

/// Every login that is given up at once is answered in the same way, where someone
/// waits for it.
pub proof fn cancelled_logins_are_answered(pending: Pending, result: LoginResultView, i: int)
    requires
        0 <= i < pending.len(),
        pending[i].1.completion is Some,
    ensures
        cancelled_answers(pending, result).contains((pending[i].1.completion->Some_0, result)),
    decreases pending.len(),
{
    let init = pending.drop_last();
    let before = cancelled_answers(init, result);
    let all = cancelled_answers(pending, result);
    let e = (pending[i].1.completion->Some_0, result);
    if i < init.len() {
        cancelled_logins_are_answered(init, result, i);
        assert(init[i] == pending[i]);
        let k = choose|k: int| 0 <= k < before.len() && before[k] == e;
        assert(all[k] == e);
    } else {
        assert(all[before.len() as int] == e);
    }
}

/// Logins that were not answered in time are told so with whatever message comes next,
/// and are waited for no longer; a message that answers nothing changes nothing else.
pub proof fn late_logins_are_told(
    r: InternalResponseOutcome,
    s: ProxyState,
    after: ProxyState,
    message: JsonModel,
    now: u128,
    generation: u64,
    current: Result<CurrentAccountSnapshot, String>,
)
    requires
        answers(r, s, after, message, now, generation, current),
    ensures
        completions_view(r.completions@).len() >= expired_answers(s.pending_internal@, now).len(),
        forall|i: int|
            0 <= i < expired_answers(s.pending_internal@, now).len() ==> completions_view(
                r.completions@,
            )[i] == #[trigger] expired_answers(s.pending_internal@, now)[i],
        after.pending_internal@.len() <= alive(s.pending_internal@, now).len(),
        !r.handled ==> after.pending_internal@ == alive(s.pending_internal@, now)
            && after.same_session(s) && completions_view(r.completions@) == expired_answers(
            s.pending_internal@,
            now,
        ) && !r.publish && r.client_notification is None,
{
    let live = alive(s.pending_internal@, now);
    let id = json::text_at(json::field(message, "id"@));
    if id is Some {
        search::first_index_is_first(live, has_request_id(id->Some_0));
    }
}

/// A request of the proxy is named by the session and its number.
pub proof fn requests_are_numbered(prefix: Seq<char>, n: u64)
    ensures
        text::begins_with(request_id_of(prefix, n), prefix),
        request_id_of(prefix, n) == prefix + seq!['/'] + text::decimal(n as nat),
{
    reveal_strlit("/");
    assert("/"@ =~= seq!['/']);
    let s = request_id_of(prefix, n);
    assert(s.subrange(0, prefix.len() as int) =~= prefix);
}

/// Activity is told at most once in half a minute, and then as of now.
pub proof fn activity_is_told_now_and_then(s: ProxyState, first: u128, second: u128)
    requires
        is_news(s, first),
        first <= second,
    ensures
        after_activity(s, first).runtime_auth_state.last_activity_at == first,
        is_news(after_activity(s, first), second) <==> second - first >= 30_000_000_000,
        after_activity(s, first).runtime_auth_state.loaded == s.runtime_auth_state.loaded,
        after_activity(s, first).pending_internal == s.pending_internal,
        after_activity(s, first).app_server_account_id == s.app_server_account_id,
{
}

/// Once the app-server runs with a login, that login's account is what it runs with.
pub proof fn the_login_is_what_it_runs_with(s: ProxyState, loaded: RuntimeLoadedAuth, now: u128)
    ensures
        ({
            let t = with_login(s, loaded, now);
            &&& t.app_server_account_id is Some && t.app_server_account_id->Some_0@
                == loaded.account_id@
            &&& t.app_server_account_label is Some && t.app_server_account_label->Some_0@
                == loaded.account_label@
            &&& t.app_server_snapshot == loaded.current_snapshot
            &&& t.runtime_auth_state.loaded == Some(loaded)
            &&& t.runtime_auth_state.last_activity_at == now
            &&& t.pending_internal == s.pending_internal
            &&& t.request_prefix == s.request_prefix && t.next_request_id == s.next_request_id
        }),
{
}

/// Requests are numbered one after the other.
pub proof fn numbers_go_up(n: u64)
    requires
        n < u64::MAX,
    ensures
        number_after(n) == n + 1,
{
}

/// A message that the proxy handled goes nowhere; a request for tokens is answered, and
/// everything else reaches Codex, where a usage limit also calls for a switch.
pub proof fn messages_go_their_way(value: &Json, handled: bool, r: Route)
    requires
        call_ensures(route, (value, handled), r),
    ensures
        handled <==> r is Swallow,
        r is Refresh <==> !handled && messages::is_refresh_request(value@),
        r is ForwardHard <==> !handled && !messages::is_refresh_request(value@)
            && messages::is_usage_limit_error(value@),
        r is Forward <==> !handled && !messages::is_refresh_request(value@)
            && !messages::is_usage_limit_error(value@),
{
}

/// A login that could not be sent is tried again by whoever asked for it.
pub proof fn unsent_logins_are_told(completion: Option<u64>, error: &str, r: Completions)
    requires
        call_ensures(login_not_sent, (completion, error), r),
    ensures
        completion is None ==> completions_view(r@).len() == 0,
        completion is Some ==> completions_view(r@).len() == 1 && completions_view(r@)[0].0
            == completion->Some_0 && completions_view(r@)[0].1 is Transient && text::finishes_with(
            completions_view(r@)[0].1->Transient_0,
            error@,
        ),
{
    if completion is Some {
        let m = completions_view(r@)[0].1->Transient_0;
        let e = error@;
        assert(m.subrange(m.len() - e.len(), m.len() as int) =~= e);
    }
}

/// A login of an older generation does not begin and is answered as stale; any other
/// begins as it is.
pub proof fn overtaken_logins_do_not_begin(
    r: Option<RuntimeLoginCommand>,
    completions: Seq<(u64, LoginResultView)>,
    expired: Seq<(u64, LoginResultView)>,
    command: RuntimeLoginCommand,
    generation: u64,
)
    requires
        is_begun(r, completions, expired, command, generation),
    ensures
        r is None <==> command.generation is Some && command.generation != Some(generation),
        r matches Some(c) ==> c == command && completions == expired,
        r is None && command.completion is Some ==> completions == expired.push(
            (command.completion->Some_0, LoginResultView::Stale),
        ),
        r is None && command.completion is None ==> completions == expired,
{
    if r is Some {
        assert(expired + Seq::<(u64, LoginResultView)>::empty() =~= expired);
    } else if command.completion is Some {
        assert(completions =~= expired.push((command.completion->Some_0, LoginResultView::Stale)));
    } else {
        assert(completions =~= expired);
    }
}

} // verus!
