//! Keeping the app-server logged in with the account that is current on disk.
use crate::accounts::StoredAccount;
use crate::runtime::login;
use crate::runtime::login::{
    CurrentAccountSnapshot,
    LoginResultView,
    PreparedAccountLogin,
    RuntimeLoginCommand,
    RuntimeLoginResult,
    RuntimeLoginSuccessNotification,
    SnapshotView,
};
use crate::runtime::schedule::QueueRoom;
use crate::runtime::shown;
use vstd::prelude::*;

verus! {

/// One second, in nanoseconds, as are all durations here.
pub const ACTIVE_ACCOUNT_WATCH_INTERVAL: u128 = 1_000_000_000;

pub const APP_SERVER_REQUEST_TIMEOUT: u128 = 20_000_000_000;

pub const ACTIVE_ACCOUNT_MAX_ATTEMPTS: usize = 5;

/// The pause after so many failed attempts.
pub open spec fn retry_delay(attempts: int) -> int {
    if attempts <= 1 {
        1_000_000_000
    } else if attempts == 2 {
        2_000_000_000
    } else if attempts == 3 {
        5_000_000_000
    } else {
        10_000_000_000
    }
}

fn delay_after(attempts: usize) -> (r: u128)
    ensures
        r as int == retry_delay(attempts as int),
{
    if attempts <= 1 {
        1_000_000_000
    } else if attempts == 2 {
        2_000_000_000
    } else if attempts == 3 {
        5_000_000_000
    } else {
        10_000_000_000
    }
}

#[derive(Debug)]
pub enum ActiveAccountReconcileOutcome {
    Success,
    Terminal(String),
    Deferred(String),
    Transient(String),
    Stale,
}

pub enum OutcomeView {
    Success,
    Terminal(Seq<char>),
    Deferred(Seq<char>),
    Transient(Seq<char>),
    Stale,
}

impl View for ActiveAccountReconcileOutcome {
    type V = OutcomeView;

    open spec fn view(&self) -> OutcomeView {
        match self {
            ActiveAccountReconcileOutcome::Success => OutcomeView::Success,
            ActiveAccountReconcileOutcome::Terminal(m) => OutcomeView::Terminal(m@),
            ActiveAccountReconcileOutcome::Deferred(m) => OutcomeView::Deferred(m@),
            ActiveAccountReconcileOutcome::Transient(m) => OutcomeView::Transient(m@),
            ActiveAccountReconcileOutcome::Stale => OutcomeView::Stale,
        }
    }
}

pub enum ActiveAccountReconcileAction {
    Wait,
    Attempt { snapshot: CurrentAccountSnapshot, notify_on_success: bool },
}

#[derive(Debug)]
pub struct ActiveAccountReconcileState {
    pub desired_snapshot: Option<CurrentAccountSnapshot>,
    pub notify_on_success: bool,
    pub settled: bool,
    pub attempts_started: usize,
    pub next_attempt_at: u128,
}

/// A state of the reconciler, free of how it is stored.
pub struct ReconcileView {
    pub desired: Option<SnapshotView>,
    pub notify: bool,
    pub settled: bool,
    pub attempts: int,
    pub next_at: int,
}

/// The state once the current account was looked at: another one than before
/// starts the attempts anew.
pub open spec fn observed(s: ReconcileView, current: SnapshotView, now: int) -> ReconcileView {
    if s.desired == Some(current) {
        s
    } else {
        ReconcileView {
            desired: Some(current),
            notify: s.notify || s.desired is Some,
            settled: false,
            attempts: 0,
            next_at: now,
        }
    }
}

/// An attempt is due.
pub open spec fn is_due(s: ReconcileView, now: int) -> bool {
    !s.settled && now >= s.next_at && s.attempts < ACTIVE_ACCOUNT_MAX_ATTEMPTS && s.desired is Some
}

/// The state after it was decided whether to make an attempt.
pub open spec fn decided(s: ReconcileView, now: int) -> ReconcileView {
    if s.settled || now < s.next_at {
        s
    } else if is_due(s, now) {
        ReconcileView { attempts: s.attempts + 1, ..s }
    } else {
        ReconcileView { settled: true, ..s }
    }
}

/// The state after an attempt for `snapshot` came to its end.
pub open spec fn concluded(
    s: ReconcileView,
    snapshot: SnapshotView,
    outcome: OutcomeView,
    now: int,
) -> ReconcileView {
    if s.desired != Some(snapshot) {
        s
    } else {
        match outcome {
            OutcomeView::Success | OutcomeView::Terminal(_) => ReconcileView {
                settled: true,
                notify: false,
                attempts: 0,
                ..s
            },
            OutcomeView::Stale => s,
            OutcomeView::Deferred(_) => ReconcileView {
                attempts: if s.attempts > 0 {
                    s.attempts - 1
                } else {
                    0
                },
                next_at: now + ACTIVE_ACCOUNT_WATCH_INTERVAL,
                ..s
            },
            OutcomeView::Transient(_) => if s.attempts >= ACTIVE_ACCOUNT_MAX_ATTEMPTS {
                ReconcileView { settled: true, ..s }
            } else {
                ReconcileView { next_at: now + retry_delay(s.attempts), ..s }
            },
        }
    }
}

impl View for ActiveAccountReconcileState {
    type V = ReconcileView;

    open spec fn view(&self) -> ReconcileView {
        ReconcileView {
            desired: login::snapshot_view(self.desired_snapshot),
            notify: self.notify_on_success,
            settled: self.settled,
            attempts: self.attempts_started as int,
            next_at: self.next_attempt_at as int,
        }
    }
}

impl ActiveAccountReconcileState {
    /// Never more attempts than are allowed.
    pub open spec fn wf(self) -> bool {
        self.attempts_started <= ACTIVE_ACCOUNT_MAX_ATTEMPTS
    }

    pub fn new(initial_snapshot: Option<CurrentAccountSnapshot>, now: u128) -> (r: Self)
        ensures
            r.wf(),
            r@ == (ReconcileView {
                desired: login::snapshot_view(initial_snapshot),
                notify: false,
                settled: initial_snapshot is None,
                attempts: 0,
                next_at: now as int,
            }),
    {
        let settled: bool = match &initial_snapshot {
            Some(_) => false,
            None => true,
        };
        ActiveAccountReconcileState {
            desired_snapshot: initial_snapshot,
            notify_on_success: false,
            settled,
            attempts_started: 0,
            next_attempt_at: now,
        }
    }

    /// How long to wait before the current account is looked at again: never
    /// longer than the usual interval.
    pub fn next_poll_delay(&self, now: u128) -> (r: u128)
        ensures
            r as int == (if self.settled || now >= self.next_attempt_at || self.next_attempt_at
                - now >= ACTIVE_ACCOUNT_WATCH_INTERVAL {
                ACTIVE_ACCOUNT_WATCH_INTERVAL as int
            } else {
                self.next_attempt_at - now
            }),
    {
        if self.settled || now >= self.next_attempt_at {
            ACTIVE_ACCOUNT_WATCH_INTERVAL
        } else {
            let left: u128 = self.next_attempt_at - now;
            if left < ACTIVE_ACCOUNT_WATCH_INTERVAL {
                left
            } else {
                ACTIVE_ACCOUNT_WATCH_INTERVAL
            }
        }
    }

    pub fn next_action(&mut self, current_snapshot: CurrentAccountSnapshot, now: u128) -> (r:
        ActiveAccountReconcileAction)
        requires
            old(self).wf(),
        ensures
            final(self).wf(),
            ({
                let seen = observed(old(self)@, current_snapshot@, now as int);
                &&& final(self)@ == decided(seen, now as int)
                &&& match r {
                    ActiveAccountReconcileAction::Attempt { snapshot, notify_on_success } => {
                        is_due(seen, now as int) && snapshot@ == current_snapshot@
                            && notify_on_success == seen.notify
                    },
                    ActiveAccountReconcileAction::Wait => !is_due(seen, now as int),
                }
            }),
    {
        let changed: bool = match &self.desired_snapshot {
            Some(s) => !login::same_snapshot(s, &current_snapshot),
            None => true,
        };
        let snapshot = current_snapshot.clone();
        if changed {
            let known: bool = match &self.desired_snapshot {
                Some(_) => true,
                None => false,
            };
            self.notify_on_success = self.notify_on_success || known;
            self.desired_snapshot = Some(current_snapshot);
            self.settled = false;
            self.attempts_started = 0;
            self.next_attempt_at = now;
        }
        if self.settled || now < self.next_attempt_at {
            return ActiveAccountReconcileAction::Wait;
        }
        if self.attempts_started >= ACTIVE_ACCOUNT_MAX_ATTEMPTS {
            self.settled = true;
            return ActiveAccountReconcileAction::Wait;
        }
        self.attempts_started = self.attempts_started + 1;
        ActiveAccountReconcileAction::Attempt {
            snapshot,
            notify_on_success: self.notify_on_success,
        }
    }

    pub fn finish_attempt(
        &mut self,
        snapshot: &CurrentAccountSnapshot,
        outcome: ActiveAccountReconcileOutcome,
        now: u128,
    )
        requires
            old(self).wf(),
            outcome@ is Transient && old(self)@.desired == Some(snapshot@) ==> old(
                self,
            ).attempts_started >= 1,
            now <= u128::MAX - 10_000_000_000,
        ensures
            final(self).wf(),
            final(self)@ == concluded(old(self)@, snapshot@, outcome@, now as int),
    {
        let wanted: bool = match &self.desired_snapshot {
            Some(s) => login::same_snapshot(s, snapshot),
            None => false,
        };
        if !wanted {
            return ;
        }
        match outcome {
            ActiveAccountReconcileOutcome::Success => {
                self.settled = true;
                self.notify_on_success = false;
                self.attempts_started = 0;
            },
            ActiveAccountReconcileOutcome::Terminal(_) => {
                self.settled = true;
                self.notify_on_success = false;
                self.attempts_started = 0;
            },
            ActiveAccountReconcileOutcome::Stale => {},
            ActiveAccountReconcileOutcome::Deferred(_) => {
                if self.attempts_started > 0 {
                    self.attempts_started = self.attempts_started - 1;
                }
                self.next_attempt_at = now + ACTIVE_ACCOUNT_WATCH_INTERVAL;
            },
            ActiveAccountReconcileOutcome::Transient(_) => {
                if self.attempts_started >= ACTIVE_ACCOUNT_MAX_ATTEMPTS {
                    self.settled = true;
                    return ;
                }
                self.next_attempt_at = now + delay_after(self.attempts_started);
            },
        }
    }
}

// ---------------------------------------------------------------------------
// One attempt
// ---------------------------------------------------------------------------

pub enum ActiveAccountReconcileAttemptResult {
    Completed(ActiveAccountReconcileOutcome),
    Shutdown,
}

pub open spec fn outcome_of(result: LoginResultView) -> OutcomeView {
    match result {
        LoginResultView::Success => OutcomeView::Success,
        LoginResultView::Stale => OutcomeView::Stale,
        LoginResultView::Deferred(m) => OutcomeView::Deferred(m),
        LoginResultView::Transient(m) => OutcomeView::Transient(m),
        LoginResultView::Terminal(m) => OutcomeView::Terminal(m),
    }
}

pub fn runtime_login_result_to_reconcile_outcome(result: RuntimeLoginResult) -> (r:
    ActiveAccountReconcileOutcome)
    ensures
        r@ == outcome_of(result@),
{
    match result {
        RuntimeLoginResult::Success => ActiveAccountReconcileOutcome::Success,
        RuntimeLoginResult::Stale => ActiveAccountReconcileOutcome::Stale,
        RuntimeLoginResult::Deferred(m) => ActiveAccountReconcileOutcome::Deferred(m),
        RuntimeLoginResult::Transient(m) => ActiveAccountReconcileOutcome::Transient(m),
        RuntimeLoginResult::Terminal(m) => ActiveAccountReconcileOutcome::Terminal(m),
    }
}

pub open spec fn outcome_view(o: Option<ActiveAccountReconcileOutcome>) -> Option<OutcomeView> {
    match o {
        Some(x) => Some(x@),
        None => None,
    }
}

/// What it means for an attempt whether the current account is still the
/// expected one.
pub open spec fn verdict(check: Result<bool, String>) -> Option<OutcomeView> {
    match check {
        Ok(true) => None,
        Ok(false) => Some(OutcomeView::Stale),
        Err(m) => Some(OutcomeView::Transient(m@)),
    }
}

/// Looks at whether the current account is the expected one: `None` lets the
/// attempt go on, else it is over.
pub fn check_expected(check: Result<bool, String>) -> (r: Option<ActiveAccountReconcileOutcome>)
    ensures
        outcome_view(r) == verdict(check),
{
    match check {
        Ok(matches) => if matches {
            None
        } else {
            Some(ActiveAccountReconcileOutcome::Stale)
        },
        Err(m) => Some(ActiveAccountReconcileOutcome::Transient(m)),
    }
}

pub const NO_ACTIVE_ACCOUNT: &'static str = "No active account";

/// What an attempt makes of the account that was found: whom to log in and what
/// to tell, or why it is over.
pub fn account_to_log_in(
    account: Result<Option<StoredAccount>, String>,
    notify_on_success: bool,
) -> (r: Result<
    (StoredAccount, Option<RuntimeLoginSuccessNotification>),
    ActiveAccountReconcileOutcome,
>)
    ensures
        match account {
            Err(m) => r is Err && r->Err_0@ == OutcomeView::Transient(m@),
            Ok(None) => r is Err && r->Err_0@ == OutcomeView::Terminal(NO_ACTIVE_ACCOUNT@),
            Ok(Some(a)) => if a.is_chatgpt() {
                &&& r is Ok
                &&& r->Ok_0.0 == a
                &&& match r->Ok_0.1 {
                    Some(n) => notify_on_success && n is AuthJsonSwitch
                        && n->AuthJsonSwitch_to_label@ == shown::safe_label(a),
                    None => !notify_on_success,
                }
            } else {
                r is Err && r->Err_0@ == OutcomeView::Terminal(login::NO_API_KEYS@)
            },
        },
{
    match account {
        Err(m) => Err(ActiveAccountReconcileOutcome::Transient(m)),
        Ok(None) => Err(ActiveAccountReconcileOutcome::Terminal(NO_ACTIVE_ACCOUNT.to_owned())),
        Ok(Some(a)) => if a.uses_chatgpt() {
            let notification = if notify_on_success {
                Some(login::runtime_auth_json_switch_notification(&a))
            } else {
                None
            };
            Ok((a, notification))
        } else {
            Err(ActiveAccountReconcileOutcome::Terminal(login::NO_API_KEYS.to_owned()))
        },
    }
}

/// The command to send, once the login was prepared and the current account was
/// looked at again: nothing is sent for an account that is no longer current.
pub fn command_to_send(
    prepared: Result<PreparedAccountLogin, String>,
    check: Result<bool, String>,
    expected_snapshot: CurrentAccountSnapshot,
    completion: u64,
    notification: Option<RuntimeLoginSuccessNotification>,
) -> (r: Result<RuntimeLoginCommand, ActiveAccountReconcileOutcome>)
    ensures
        match prepared {
            Err(m) => r is Err && r->Err_0@ == outcome_of(login::classified(m@)),
            Ok(p) => match verdict(check) {
                Some(o) => r is Err && r->Err_0@ == o,
                None => r == Ok::<_, ActiveAccountReconcileOutcome>(
                    RuntimeLoginCommand {
                        prepared: p,
                        expected_snapshot: Some(expected_snapshot),
                        generation: None,
                        completion: Some(completion),
                        success_notification: notification,
                    },
                ),
            },
        },
{
    match prepared {
        Err(m) => Err(
            runtime_login_result_to_reconcile_outcome(
                login::classify_runtime_login_error(m.as_str()),
            ),
        ),
        Ok(p) => match check_expected(check) {
            Some(o) => Err(o),
            None => Ok(
                RuntimeLoginCommand::reconciled(p, expected_snapshot, completion, notification),
            ),
        },
    }
}

pub const COMMAND_QUEUE_FULL: &'static str = "Runtime command queue is full";

pub enum AttemptView {
    Completed(OutcomeView),
    Shutdown,
}

pub open spec fn attempt_view(r: Option<ActiveAccountReconcileAttemptResult>) -> Option<
    AttemptView,
> {
    match r {
        None => None,
        Some(ActiveAccountReconcileAttemptResult::Completed(o)) => Some(AttemptView::Completed(o@)),
        Some(ActiveAccountReconcileAttemptResult::Shutdown) => Some(AttemptView::Shutdown),
    }
}

/// What becomes of the attempt when its command is offered to the proxy: with
/// room, its completion is waited for.
pub fn offered(room: QueueRoom) -> (r: Option<ActiveAccountReconcileAttemptResult>)
    ensures
        attempt_view(r) == match room {
            QueueRoom::Free => None,
            QueueRoom::Full => Some(
                AttemptView::Completed(OutcomeView::Deferred(COMMAND_QUEUE_FULL@)),
            ),
            QueueRoom::Closed => Some(AttemptView::Shutdown),
        },
{
    match room {
        QueueRoom::Free => None,
        QueueRoom::Full => Some(
            ActiveAccountReconcileAttemptResult::Completed(
                ActiveAccountReconcileOutcome::Deferred(COMMAND_QUEUE_FULL.to_owned()),
            ),
        ),
        QueueRoom::Closed => Some(ActiveAccountReconcileAttemptResult::Shutdown),
    }
}

pub const LOGIN_TIMED_OUT: &'static str = "Timed out waiting for Codex app-server login response";

pub const LOGIN_DROPPED: &'static str = "Codex app-server login response was dropped";

/// What ends a wait for a login's completion.
pub enum WaitEvent {
    /// The login came to its end, or its completion was dropped.
    Completed(Option<RuntimeLoginResult>),
    /// The runtime's state changed; it shuts down where this says so.
    Shutdown(bool),
    /// Nothing happened for a while; the current account was looked at.
    Tick(Result<bool, String>),
}

/// How long to wait before looking again, or `None` once the deadline is there.
pub fn wait_time(deadline: u128, now: u128) -> (r: Option<u128>)
    ensures
        match r {
            None => now >= deadline,
            Some(d) => now < deadline && d as int == (if deadline - now
                < ACTIVE_ACCOUNT_WATCH_INTERVAL {
                deadline - now
            } else {
                ACTIVE_ACCOUNT_WATCH_INTERVAL as int
            }),
        },
{
    if now >= deadline {
        None
    } else {
        let left: u128 = deadline - now;
        if left < ACTIVE_ACCOUNT_WATCH_INTERVAL {
            Some(left)
        } else {
            Some(ACTIVE_ACCOUNT_WATCH_INTERVAL)
        }
    }
}

/// The result of a wait that ran into its deadline.
pub fn timed_out() -> (r: ActiveAccountReconcileAttemptResult)
    ensures
        attempt_view(Some(r)) == Some(
            AttemptView::Completed(OutcomeView::Transient(LOGIN_TIMED_OUT@)),
        ),
{
    ActiveAccountReconcileAttemptResult::Completed(
        ActiveAccountReconcileOutcome::Transient(LOGIN_TIMED_OUT.to_owned()),
    )
}

/// What a wait makes of an event: `None` goes on waiting.
pub fn woken(event: WaitEvent) -> (r: Option<ActiveAccountReconcileAttemptResult>)
    ensures
        attempt_view(r) == match event {
            WaitEvent::Completed(Some(result)) => Some(
                AttemptView::Completed(outcome_of(result@)),
            ),
            WaitEvent::Completed(None) => Some(
                AttemptView::Completed(OutcomeView::Transient(LOGIN_DROPPED@)),
            ),
            WaitEvent::Shutdown(down) => if down {
                Some(AttemptView::Shutdown)
            } else {
                None
            },
            WaitEvent::Tick(check) => match verdict(check) {
                Some(o) => Some(AttemptView::Completed(o)),
                None => None,
            },
        },
{
    match event {
        WaitEvent::Completed(Some(result)) => Some(
            ActiveAccountReconcileAttemptResult::Completed(
                runtime_login_result_to_reconcile_outcome(result),
            ),
        ),
        WaitEvent::Completed(None) => Some(
            ActiveAccountReconcileAttemptResult::Completed(
                ActiveAccountReconcileOutcome::Transient(LOGIN_DROPPED.to_owned()),
            ),
        ),
        WaitEvent::Shutdown(down) => if down {
            Some(ActiveAccountReconcileAttemptResult::Shutdown)
        } else {
            None
        },
        WaitEvent::Tick(check) => match check_expected(check) {
            Some(o) => Some(ActiveAccountReconcileAttemptResult::Completed(o)),
            None => None,
        },
    }
}

// ---------------------------------------------------------------------------
// Laws
// ---------------------------------------------------------------------------

/// A settled state stays settled, and makes no attempt, for as long as the
/// current account does not change.
pub proof fn settled_means_rest(s: ReconcileView, now: int)
    requires
        s.settled,
        s.desired is Some,
    ensures
        ({
            let seen = observed(s, s.desired->Some_0, now);
            !is_due(seen, now) && decided(seen, now) == s
        }),
{
}

/// Each attempt that fails for the moment counts: so many failures in a row
/// settle the state.
pub proof fn transient_failures_are_bounded(
    s: ReconcileView,
    message: Seq<char>,
    now: int,
    later: int,
)
    requires
        is_due(s, now),
        0 <= s.attempts,
    ensures
        ({
            let tried = decided(s, now);
            let after = concluded(tried, s.desired->Some_0, OutcomeView::Transient(message), later);
            &&& after.attempts == s.attempts + 1
            &&& after.settled <==> after.attempts >= ACTIVE_ACCOUNT_MAX_ATTEMPTS
            &&& !after.settled ==> after.next_at == later + retry_delay(after.attempts)
        }),
{
}

/// An attempt that was put off does not count.
pub proof fn deferred_attempts_do_not_count(
    s: ReconcileView,
    message: Seq<char>,
    now: int,
    later: int,
)
    requires
        is_due(s, now),
        0 <= s.attempts,
    ensures
        ({
            let tried = decided(s, now);
            let after = concluded(tried, s.desired->Some_0, OutcomeView::Deferred(message), later);
            after.attempts == s.attempts && !after.settled
        }),
{
}

/// Success settles the state, and the next change is told of.
pub proof fn success_settles(s: ReconcileView, next: SnapshotView, now: int, later: int)
    requires
        is_due(s, now),
        s.desired != Some(next),
    ensures
        ({
            let done = concluded(decided(s, now), s.desired->Some_0, OutcomeView::Success, later);
            let seen = observed(done, next, later);
            &&& done.settled && !done.notify && done.attempts == 0
            &&& seen.notify && is_due(seen, later)
        }),
{
}

/// What comes back for an account that is no longer wanted changes nothing.
pub proof fn late_results_are_ignored(
    s: ReconcileView,
    snapshot: SnapshotView,
    outcome: OutcomeView,
    now: int,
)
    requires
        s.desired != Some(snapshot),
    ensures
        concluded(s, snapshot, outcome, now) == s,
{
}

/// The number of attempts stays within its bound, whatever happens.
pub proof fn attempts_stay_bounded(
    s: ReconcileView,
    current: SnapshotView,
    snapshot: SnapshotView,
    outcome: OutcomeView,
    now: int,
)
    requires
        0 <= s.attempts <= ACTIVE_ACCOUNT_MAX_ATTEMPTS,
    ensures
        0 <= observed(s, current, now).attempts <= ACTIVE_ACCOUNT_MAX_ATTEMPTS,
        0 <= decided(s, now).attempts <= ACTIVE_ACCOUNT_MAX_ATTEMPTS,
        0 <= concluded(s, snapshot, outcome, now).attempts <= ACTIVE_ACCOUNT_MAX_ATTEMPTS,
{
}

/// Another current account is tried at once, with all its attempts, and told of
/// where one was known before; the same one changes nothing.
pub proof fn another_account_starts_anew(s: ReconcileView, current: SnapshotView, now: int)
    ensures
        s.desired == Some(current) ==> observed(s, current, now) == s,
        s.desired != Some(current) ==> {
            let seen = observed(s, current, now);
            &&& seen.desired == Some(current)
            &&& seen.attempts == 0
            &&& is_due(seen, now)
            &&& s.desired is Some ==> seen.notify
            &&& s.desired is None ==> seen.notify == s.notify
        },
{
}

/// An attempt is made only for an account that is wanted, not settled, at its time,
/// and within the five that are allowed; making it uses one of them up.
pub proof fn attempts_are_made_in_time(s: ReconcileView, now: int)
    ensures
        is_due(s, now) <==> !s.settled && s.next_at <= now && s.attempts < 5 && s.desired is Some,
        is_due(s, now) ==> decided(s, now) == (ReconcileView { attempts: s.attempts + 1, ..s }),
        !is_due(s, now) ==> decided(s, now).attempts == s.attempts,
        !s.settled && s.next_at <= now && s.attempts >= 5 ==> decided(s, now).settled,
{
}

/// The pauses between attempts grow: one, two, five and ten seconds.
pub proof fn pauses_grow(
    s: ReconcileView,
    snapshot: SnapshotView,
    message: Seq<char>,
    now: int,
)
    requires
        s.desired == Some(snapshot),
        1 <= s.attempts <= 4,
    ensures
        ({
            let next = concluded(s, snapshot, OutcomeView::Transient(message), now);
            let seconds = (next.next_at - now) / 1_000_000_000;
            &&& next.next_at == now + seconds * 1_000_000_000
            &&& s.attempts == 1 ==> seconds == 1
            &&& s.attempts == 2 ==> seconds == 2
            &&& s.attempts == 3 ==> seconds == 5
            &&& s.attempts == 4 ==> seconds == 10
            &&& !next.settled || s.settled
            &&& next.attempts == s.attempts
        }),
{
}

/// A refusal settles the matter as a success does, and what went stale changes
/// nothing.
pub proof fn refusals_settle(
    s: ReconcileView,
    snapshot: SnapshotView,
    message: Seq<char>,
    now: int,
)
    requires
        s.desired == Some(snapshot),
    ensures
        concluded(s, snapshot, OutcomeView::Terminal(message), now).settled,
        !concluded(s, snapshot, OutcomeView::Terminal(message), now).notify,
        concluded(s, snapshot, OutcomeView::Success, now).settled,
        !concluded(s, snapshot, OutcomeView::Success, now).notify,
        concluded(s, snapshot, OutcomeView::Stale, now) == s,
        concluded(s, snapshot, OutcomeView::Deferred(message), now).next_at == now + 1_000_000_000,
{
}

/// The outcome of an attempt is that of its login, kind by kind, with its message.
pub proof fn outcomes_are_those_of_logins(message: Seq<char>)
    ensures
        outcome_of(LoginResultView::Success) == OutcomeView::Success,
        outcome_of(LoginResultView::Stale) == OutcomeView::Stale,
        outcome_of(LoginResultView::Deferred(message)) == OutcomeView::Deferred(message),
        outcome_of(LoginResultView::Transient(message)) == OutcomeView::Transient(message),
        outcome_of(LoginResultView::Terminal(message)) == OutcomeView::Terminal(message),
{
}

/// An attempt goes on only while the current account is the expected one.
pub proof fn attempts_end_with_the_account(check: Result<bool, String>)
    ensures
        verdict(check) is None <==> check == Ok::<bool, String>(true),
        check == Ok::<bool, String>(false) ==> verdict(check) == Some(OutcomeView::Stale),
        check matches Err(m) ==> verdict(check) == Some(OutcomeView::Transient(m@)),
{
}

/// Only a ChatGPT account is logged in, it is the one that was found, and it is told
/// of exactly where that was asked for.
pub proof fn the_found_account_is_logged_in(
    account: Result<Option<StoredAccount>, String>,
    notify: bool,
    r: Result<
        (StoredAccount, Option<RuntimeLoginSuccessNotification>),
        ActiveAccountReconcileOutcome,
    >,
)
    requires
        call_ensures(account_to_log_in, (account, notify), r),
    ensures
        r matches Ok(x) ==> account == Ok::<_, String>(Some(x.0)) && x.0.is_chatgpt() && (x.1 is Some
            <==> notify),
        account matches Ok(Some(a)) ==> (r is Ok <==> a.is_chatgpt()),
{
}

/// Nothing is sent for an account that is no longer current; what is sent is the
/// login that was prepared, to be answered under its number.
pub proof fn only_current_logins_are_sent(
    prepared: Result<PreparedAccountLogin, String>,
    check: Result<bool, String>,
    expected: CurrentAccountSnapshot,
    completion: u64,
    notice: Option<RuntimeLoginSuccessNotification>,
    r: Result<RuntimeLoginCommand, ActiveAccountReconcileOutcome>,
)
    requires
        call_ensures(command_to_send, (prepared, check, expected, completion, notice), r),
    ensures
        r matches Ok(c) ==> {
            &&& check == Ok::<bool, String>(true)
            &&& prepared == Ok::<_, String>(c.prepared)
            &&& c.expected_snapshot == Some(expected)
            &&& c.completion == Some(completion)
            &&& c.success_notification == notice
        },
        prepared is Ok && check == Ok::<bool, String>(true) ==> r is Ok,
{
}

/// An attempt waits a second at a time, and never past its deadline.
pub proof fn waiting_is_short(deadline: u128, now: u128, r: Option<u128>)
    requires
        call_ensures(wait_time, (deadline, now), r),
    ensures
        r is None <==> now >= deadline,
        r matches Some(d) ==> 0 < d <= 1_000_000_000 && now + d <= deadline && (d < 1_000_000_000
            ==> now + d == deadline),
{
}

/// A command that finds no room is put off, and a closed queue ends the watching.
pub proof fn full_queues_put_attempts_off(
    room: QueueRoom,
    r: Option<ActiveAccountReconcileAttemptResult>,
)
    requires
        call_ensures(offered, (room,), r),
    ensures
        room is Free <==> r is None,
        room is Full ==> attempt_view(r) is Some && attempt_view(r)->Some_0 is Completed
            && attempt_view(r)->Some_0->Completed_0 is Deferred,
        room is Closed ==> attempt_view(r) == Some(AttemptView::Shutdown),
{
}

/// Waiting goes on until there is an answer, the end of the session, or another account.
pub proof fn waiting_ends(event: WaitEvent, r: Option<ActiveAccountReconcileAttemptResult>)
    requires
        call_ensures(woken, (event,), r),
    ensures
        event is Completed && event->Completed_0 is Some ==> attempt_view(r) == Some(
            AttemptView::Completed(outcome_of(event->Completed_0->Some_0@)),
        ),
        event is Completed && event->Completed_0 is None ==> attempt_view(r) is Some
            && attempt_view(r)->Some_0 is Completed && attempt_view(r)->Some_0->Completed_0
            is Transient,
        event is Shutdown ==> (event->Shutdown_0 <==> attempt_view(r) == Some(
            AttemptView::Shutdown,
        )),
        event is Shutdown && !event->Shutdown_0 ==> attempt_view(r) is None,
        event is Tick && verdict(event->Tick_0) is None ==> attempt_view(r) is None,
{
}

} // verus!
