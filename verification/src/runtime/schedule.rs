//! When the runtime looks for a better account, and what becomes of the search.
//!
//! A soft search is made now and then, and when usage runs low; a hard one when
//! a limit was hit. Each hard request starts a new generation, and what an
//! older generation still brings in is dropped.
use crate::accounts;
use crate::accounts::{AccountsStore, StoredAccount};
use crate::auto_switch::{AutoSwitchPlan, AutoSwitchResult};
use crate::runtime::login;
use crate::runtime::login::{
    CurrentAccountSnapshot,
    PreparedAccountLogin,
    RuntimeLoginCommand,
    RuntimeLoginSuccessNotification,
};
use crate::runtime::shown;
use crate::text;
use vstd::prelude::*;

verus! {

/// Fifteen minutes, in nanoseconds.
pub const AUTO_SWITCH_SOFT_COOLDOWN: u128 = 900_000_000_000;

#[derive(Debug, Clone, Copy, PartialEq, Eq, Structural)]
pub enum RuntimeAutoSwitchPriority {
    Soft,
    Hard,
}

/// Whether the current account is logged in again where it is kept.
#[derive(Debug)]
pub enum AutoSwitchLoginMode {
    SwitchedOnly,
    EnsureCurrentLogged {
        app_server_account_id: Option<String>,
        app_server_snapshot: Option<CurrentAccountSnapshot>,
    },
}

#[derive(Debug)]
pub struct BackgroundRuntimeRequest {
    pub priority: RuntimeAutoSwitchPriority,
    pub generation: u64,
    pub mode: AutoSwitchLoginMode,
}

#[derive(Debug, Clone, Copy, PartialEq, Eq, Structural)]
pub enum BackgroundAutoSwitchQueueStatus {
    Queued,
    Cooldown,
    InFlight,
    Full,
    Closed,
}

/// Whether the queue of requests has room.
#[derive(Debug, Clone, Copy, PartialEq, Eq, Structural)]
pub enum QueueRoom {
    Free,
    Full,
    Closed,
}

/// Moments and durations are counted in nanoseconds.
#[derive(Debug, Clone, Copy, PartialEq, Eq, Structural)]
pub struct RuntimeAutoSwitchSchedule {
    pub cooldown: u128,
    pub last_attempt: Option<u128>,
    pub in_flight: bool,
    pub generation: u64,
}

/// A soft search at `now` would come too soon after the last one.
pub open spec fn is_cooling(s: RuntimeAutoSwitchSchedule, now: u128) -> bool {
    s.last_attempt matches Some(at) && now < at + s.cooldown
}

/// What changes a schedule.
pub enum ScheduleEvent {
    Background { room: QueueRoom, now: u128 },
    Hard { room: QueueRoom },
    Finish,
}

pub open spec fn after_event(
    s: RuntimeAutoSwitchSchedule,
    event: ScheduleEvent,
) -> RuntimeAutoSwitchSchedule {
    match event {
        ScheduleEvent::Background { room, now } => if s.in_flight || is_cooling(s, now) || room
            != QueueRoom::Free {
            s
        } else {
            RuntimeAutoSwitchSchedule { last_attempt: Some(now), in_flight: true, ..s }
        },
        ScheduleEvent::Hard { room } => if room == QueueRoom::Free {
            RuntimeAutoSwitchSchedule { generation: next_generation(s.generation), ..s }
        } else {
            s
        },
        ScheduleEvent::Finish => RuntimeAutoSwitchSchedule { in_flight: false, ..s },
    }
}

/// Whether a search in the background begins, and the state after that.
pub open spec fn is_started(
    r: (BackgroundAutoSwitchQueueStatus, u64),
    before: RuntimeAutoSwitchSchedule,
    after: RuntimeAutoSwitchSchedule,
    now: u128,
) -> bool {
    &&& r.1 == before.generation
    &&& if before.in_flight {
        r.0 == BackgroundAutoSwitchQueueStatus::InFlight && after == before
    } else if is_cooling(before, now) {
        r.0 == BackgroundAutoSwitchQueueStatus::Cooldown && after == before
    } else {
        r.0 == BackgroundAutoSwitchQueueStatus::Queued && after == (RuntimeAutoSwitchSchedule {
            last_attempt: Some(now),
            in_flight: true,
            ..before
        })
    }
}

impl RuntimeAutoSwitchSchedule {
    pub fn new(cooldown: u128) -> (r: Self)
        ensures
            r.cooldown == cooldown,
            r.last_attempt is None,
            !r.in_flight,
            r.generation == 0,
    {
        RuntimeAutoSwitchSchedule { cooldown, last_attempt: None, in_flight: false, generation: 0 }
    }

    pub fn is_current_generation(&self, generation: u64) -> (r: bool)
        ensures
            r == (self.generation == generation),
    {
        self.generation == generation
    }

    pub fn try_start_background(&mut self, now: u128) -> (r: (BackgroundAutoSwitchQueueStatus, u64))
        ensures
            is_started(r, *old(self), *final(self), now),
    {
        if self.in_flight {
            return (BackgroundAutoSwitchQueueStatus::InFlight, self.generation);
        }
        if let Some(at) = self.last_attempt {
            if now < at || now - at < self.cooldown {
                return (BackgroundAutoSwitchQueueStatus::Cooldown, self.generation);
            }
        }
        self.last_attempt = Some(now);
        self.in_flight = true;
        (BackgroundAutoSwitchQueueStatus::Queued, self.generation)
    }

    pub fn finish(&mut self)
        ensures
            *final(self) == after_event(*old(self), ScheduleEvent::Finish),
    {
        self.in_flight = false;
    }
}

/// What becomes of a soft search that is asked for: it is queued where none is under
/// way, the last one is long enough ago, and there is room.
pub open spec fn background_answer(
    s: RuntimeAutoSwitchSchedule,
    room: QueueRoom,
    now: u128,
) -> (BackgroundAutoSwitchQueueStatus, Option<BackgroundRuntimeRequest>) {
    if s.in_flight {
        (BackgroundAutoSwitchQueueStatus::InFlight, None)
    } else if is_cooling(s, now) {
        (BackgroundAutoSwitchQueueStatus::Cooldown, None)
    } else {
        match room {
            QueueRoom::Full => (BackgroundAutoSwitchQueueStatus::Full, None),
            QueueRoom::Closed => (BackgroundAutoSwitchQueueStatus::Closed, None),
            QueueRoom::Free => (
                BackgroundAutoSwitchQueueStatus::Queued,
                Some(
                    BackgroundRuntimeRequest {
                        priority: RuntimeAutoSwitchPriority::Soft,
                        generation: s.generation,
                        mode: AutoSwitchLoginMode::SwitchedOnly,
                    },
                ),
            ),
        }
    }
}

/// Asks for a soft search. Where the queue has no room for it, the schedule
/// stays as it was.
pub fn queue_background_auto_switch(
    schedule: &mut RuntimeAutoSwitchSchedule,
    room: QueueRoom,
    now: u128,
) -> (r: (BackgroundAutoSwitchQueueStatus, Option<BackgroundRuntimeRequest>))
    ensures
        *final(schedule) == after_event(*old(schedule), ScheduleEvent::Background { room, now }),
        r == background_answer(*old(schedule), room, now),
{
    let previous_last_attempt: Option<u128> = schedule.last_attempt;
    let (status, generation) = schedule.try_start_background(now);
    match status {
        BackgroundAutoSwitchQueueStatus::Queued => {},
        _ => {
            return (status, None);
        },
    }
    match room {
        QueueRoom::Free => (
            BackgroundAutoSwitchQueueStatus::Queued,
            Some(
                BackgroundRuntimeRequest {
                    priority: RuntimeAutoSwitchPriority::Soft,
                    generation,
                    mode: AutoSwitchLoginMode::SwitchedOnly,
                },
            ),
        ),
        QueueRoom::Full => {
            schedule.last_attempt = previous_last_attempt;
            schedule.finish();
            (BackgroundAutoSwitchQueueStatus::Full, None)
        },
        QueueRoom::Closed => {
            schedule.last_attempt = previous_last_attempt;
            schedule.finish();
            (BackgroundAutoSwitchQueueStatus::Closed, None)
        },
    }
}

pub open spec fn next_generation(generation: u64) -> u64 {
    if generation == u64::MAX {
        generation
    } else {
        (generation + 1) as u64
    }
}

/// Asks for a hard search, in a new generation. Where the queue has no room for
/// it, the generation stays.
pub fn queue_hard_auto_switch(
    schedule: &mut RuntimeAutoSwitchSchedule,
    room: QueueRoom,
    mode: AutoSwitchLoginMode,
) -> (r: (BackgroundAutoSwitchQueueStatus, Option<BackgroundRuntimeRequest>))
    ensures
        *final(schedule) == after_event(*old(schedule), ScheduleEvent::Hard { room }),
        match room {
            QueueRoom::Full => r.0 == BackgroundAutoSwitchQueueStatus::Full && r.1 is None,
            QueueRoom::Closed => r.0 == BackgroundAutoSwitchQueueStatus::Closed && r.1 is None,
            QueueRoom::Free => r.0 == BackgroundAutoSwitchQueueStatus::Queued && r.1 == Some(
                BackgroundRuntimeRequest {
                    priority: RuntimeAutoSwitchPriority::Hard,
                    generation: next_generation(old(schedule).generation),
                    mode,
                },
            ),
        },
{
    match room {
        QueueRoom::Full => (BackgroundAutoSwitchQueueStatus::Full, None),
        QueueRoom::Closed => (BackgroundAutoSwitchQueueStatus::Closed, None),
        QueueRoom::Free => {
            let generation: u64 = if schedule.generation == u64::MAX {
                schedule.generation
            } else {
                schedule.generation + 1
            };
            schedule.generation = generation;
            (
                BackgroundAutoSwitchQueueStatus::Queued,
                Some(
                    BackgroundRuntimeRequest {
                        priority: RuntimeAutoSwitchPriority::Hard,
                        generation,
                        mode,
                    },
                ),
            )
        },
    }
}

// ---------------------------------------------------------------------------
// The worker
// ---------------------------------------------------------------------------

/// What becomes of a request that reaches the worker.
#[derive(Debug, Clone, Copy, PartialEq, Eq, Structural)]
pub enum RequestStep {
    /// Nothing is started.
    Drop,
    /// A search is started, and the one under way is given up where it says so.
    Start { abort_current: bool },
}

/// A request is not followed: it is of another generation, or it is a soft one
/// while a search is under way.
pub open spec fn is_dropped(
    request: BackgroundRuntimeRequest,
    in_flight: Option<RuntimeAutoSwitchPriority>,
    schedule: RuntimeAutoSwitchSchedule,
) -> bool {
    request.generation != schedule.generation || (request.priority
        == RuntimeAutoSwitchPriority::Soft && in_flight is Some)
}

pub open spec fn request_step(
    request: BackgroundRuntimeRequest,
    in_flight: Option<RuntimeAutoSwitchPriority>,
    schedule: RuntimeAutoSwitchSchedule,
) -> RequestStep {
    if is_dropped(request, in_flight, schedule) {
        RequestStep::Drop
    } else {
        RequestStep::Start { abort_current: in_flight is Some }
    }
}

/// The schedule once a request was taken: a soft search that is dropped, or given up
/// for another, leaves it free.
pub open spec fn after_request(
    request: BackgroundRuntimeRequest,
    in_flight: Option<RuntimeAutoSwitchPriority>,
    schedule: RuntimeAutoSwitchSchedule,
) -> RuntimeAutoSwitchSchedule {
    let over = if is_dropped(request, in_flight, schedule) {
        request.priority == RuntimeAutoSwitchPriority::Soft
    } else {
        in_flight == Some(RuntimeAutoSwitchPriority::Soft)
    };
    if over {
        after_event(schedule, ScheduleEvent::Finish)
    } else {
        schedule
    }
}

/// Takes a request, while a search of priority `in_flight` may be under way.
pub fn handle_runtime_auto_switch_request(
    request: &BackgroundRuntimeRequest,
    in_flight: Option<RuntimeAutoSwitchPriority>,
    schedule: &mut RuntimeAutoSwitchSchedule,
) -> (r: RequestStep)
    ensures
        r == request_step(*request, in_flight, *old(schedule)),
        *final(schedule) == after_request(*request, in_flight, *old(schedule)),
{
    if !schedule.is_current_generation(request.generation) {
        if request.priority == RuntimeAutoSwitchPriority::Soft {
            schedule.finish();
        }
        return RequestStep::Drop;
    }
    match in_flight {
        None => RequestStep::Start { abort_current: false },
        Some(current) => match (request.priority, current) {
            (RuntimeAutoSwitchPriority::Hard, RuntimeAutoSwitchPriority::Soft) => {
                schedule.finish();
                RequestStep::Start { abort_current: true }
            },
            (RuntimeAutoSwitchPriority::Hard, RuntimeAutoSwitchPriority::Hard) => {
                RequestStep::Start { abort_current: true }
            },
            (RuntimeAutoSwitchPriority::Soft, _) => {
                schedule.finish();
                RequestStep::Drop
            },
        },
    }
}

/// A search's result still counts: its generation is the current one, and the
/// current account is what it was when the search began. Where no snapshot could
/// be taken then, there must be no current account now.
pub open spec fn counts(
    generation: u64,
    expected: Option<CurrentAccountSnapshot>,
    current: Option<CurrentAccountSnapshot>,
    schedule: RuntimeAutoSwitchSchedule,
) -> bool {
    generation == schedule.generation && match (expected, current) {
        (_, None) => false,
        (Some(e), Some(c)) => e@ == c@,
        (None, Some(c)) => c.current_account_id is None,
    }
}

pub fn runtime_auto_switch_result_is_current(
    generation: u64,
    expected_snapshot: &Option<CurrentAccountSnapshot>,
    current: &Option<CurrentAccountSnapshot>,
    schedule: &RuntimeAutoSwitchSchedule,
) -> (r: bool)
    ensures
        r == counts(generation, *expected_snapshot, *current, *schedule),
{
    if !schedule.is_current_generation(generation) {
        return false;
    }
    match (expected_snapshot, current) {
        (_, None) => false,
        (Some(e), Some(c)) => login::same_snapshot(e, c),
        (None, Some(c)) => match &c.current_account_id {
            Some(_) => false,
            None => true,
        },
    }
}

/// A search came to its end: a soft one leaves the schedule free again. Says
/// whether its result still counts.
pub fn take_result(
    priority: RuntimeAutoSwitchPriority,
    generation: u64,
    expected_snapshot: &Option<CurrentAccountSnapshot>,
    current: &Option<CurrentAccountSnapshot>,
    schedule: &mut RuntimeAutoSwitchSchedule,
) -> (r: bool)
    ensures
        r == counts(generation, *expected_snapshot, *current, *old(schedule)),
        *final(schedule) == (if priority == RuntimeAutoSwitchPriority::Soft {
            after_event(*old(schedule), ScheduleEvent::Finish)
        } else {
            *old(schedule)
        }),
{
    if priority == RuntimeAutoSwitchPriority::Soft {
        schedule.finish();
    }
    runtime_auto_switch_result_is_current(generation, expected_snapshot, current, schedule)
}

#[derive(Debug, Clone, Copy, PartialEq, Eq, Structural)]
pub enum RuntimeCommandSendStatus {
    Sent,
    Full,
    Closed,
}

/// A command is sent where there is room, and dropped where there is none.
pub fn try_send_background_runtime_command(room: QueueRoom) -> (r: RuntimeCommandSendStatus)
    ensures
        r == match room {
            QueueRoom::Free => RuntimeCommandSendStatus::Sent,
            QueueRoom::Full => RuntimeCommandSendStatus::Full,
            QueueRoom::Closed => RuntimeCommandSendStatus::Closed,
        },
{
    match room {
        QueueRoom::Free => RuntimeCommandSendStatus::Sent,
        QueueRoom::Full => RuntimeCommandSendStatus::Full,
        QueueRoom::Closed => RuntimeCommandSendStatus::Closed,
    }
}

// ---------------------------------------------------------------------------
// From a plan to a login
// ---------------------------------------------------------------------------

pub enum RuntimeAutoSwitchWork {
    Switch(AutoSwitchPlan),
    KeepCurrent(Box<StoredAccount>),
    LoginCurrent(Box<StoredAccount>),
}

/// Whether the work for a plan depends on what is stored now.
pub fn plan_needs_store(plan: &AutoSwitchPlan, mode: &AutoSwitchLoginMode) -> (r: bool)
    ensures
        r == (plan is CurrentKept && mode is EnsureCurrentLogged),
{
    match (plan, mode) {
        (AutoSwitchPlan::CurrentKept { .. }, AutoSwitchLoginMode::EnsureCurrentLogged { .. }) => {
            true
        },
        _ => false,
    }
}

/// The app-server runs with this account, and with this login of it.
pub open spec fn is_logged_in(
    account: StoredAccount,
    id: Option<String>,
    snapshot: Option<CurrentAccountSnapshot>,
) -> bool {
    text::opt_view(id) == Some(account.id@) && login::snapshot_view(snapshot) == Some(
        login::snapshot_of(account),
    )
}

pub open spec fn work_of(
    plan: AutoSwitchPlan,
    mode: AutoSwitchLoginMode,
    accounts: Seq<StoredAccount>,
) -> Option<RuntimeAutoSwitchWork> {
    match plan {
        AutoSwitchPlan::Switch { .. } => Some(RuntimeAutoSwitchWork::Switch(plan)),
        AutoSwitchPlan::CurrentUnsupported { .. } => None,
        AutoSwitchPlan::CurrentKept { account, .. } => match mode {
            AutoSwitchLoginMode::SwitchedOnly => Some(RuntimeAutoSwitchWork::KeepCurrent(account)),
            AutoSwitchLoginMode::EnsureCurrentLogged {
                app_server_account_id,
                app_server_snapshot,
            } => {
                let newest = login::latest_of(accounts, *account);
                if is_logged_in(newest, app_server_account_id, app_server_snapshot) {
                    Some(RuntimeAutoSwitchWork::KeepCurrent(Box::new(newest)))
                } else {
                    Some(RuntimeAutoSwitchWork::LoginCurrent(Box::new(newest)))
                }
            },
        },
    }
}

pub fn auto_switch_plan_work(
    plan: AutoSwitchPlan,
    mode: &AutoSwitchLoginMode,
    store: &AccountsStore,
) -> (r: Option<RuntimeAutoSwitchWork>)
    ensures
        r == work_of(plan, *mode, store.accounts@),
{
    match plan {
        AutoSwitchPlan::Switch { from, to, reason } => Some(
            RuntimeAutoSwitchWork::Switch(AutoSwitchPlan::Switch { from, to, reason }),
        ),
        AutoSwitchPlan::CurrentUnsupported { .. } => None,
        AutoSwitchPlan::CurrentKept { account, .. } => match mode {
            AutoSwitchLoginMode::SwitchedOnly => Some(RuntimeAutoSwitchWork::KeepCurrent(account)),
            AutoSwitchLoginMode::EnsureCurrentLogged {
                app_server_account_id,
                app_server_snapshot,
            } => {
                let (newest, snapshot) = login::latest_current_account_snapshot(store, *account);
                let id: Option<&str> = match app_server_account_id {
                    Some(s) => Some(s.as_str()),
                    None => None,
                };
                let wanted = login::select_current_kept_login_account(
                    newest.clone(),
                    &snapshot,
                    id,
                    app_server_snapshot,
                );
                match wanted {
                    Some(a) => Some(RuntimeAutoSwitchWork::LoginCurrent(Box::new(a))),
                    None => Some(RuntimeAutoSwitchWork::KeepCurrent(Box::new(newest))),
                }
            },
        },
    }
}

/// The next step from work to a login.
pub enum CommandStep {
    /// Nothing is sent.
    Drop,
    /// The plan has to be committed.
    Commit(AutoSwitchPlan),
    /// Codex's login has to be brought in line with the account; a login of the
    /// app-server follows where `login` says so.
    Sync { account: StoredAccount, login: bool },
    /// A login for this account has to be prepared.
    Prepare { account: StoredAccount, notification: Option<RuntimeLoginSuccessNotification> },
}

pub fn start_command(
    work: Option<RuntimeAutoSwitchWork>,
    generation: u64,
    schedule: &RuntimeAutoSwitchSchedule,
) -> (r: CommandStep)
    ensures
        r == (if generation != schedule.generation {
            CommandStep::Drop
        } else {
            match work {
                None => CommandStep::Drop,
                Some(RuntimeAutoSwitchWork::Switch(plan)) => CommandStep::Commit(plan),
                Some(RuntimeAutoSwitchWork::KeepCurrent(a)) => CommandStep::Sync {
                    account: *a,
                    login: false,
                },
                Some(RuntimeAutoSwitchWork::LoginCurrent(a)) => CommandStep::Sync {
                    account: *a,
                    login: true,
                },
            }
        }),
{
    if !schedule.is_current_generation(generation) {
        return CommandStep::Drop;
    }
    match work {
        None => CommandStep::Drop,
        Some(RuntimeAutoSwitchWork::Switch(plan)) => CommandStep::Commit(plan),
        Some(RuntimeAutoSwitchWork::KeepCurrent(a)) => CommandStep::Sync {
            account: *a,
            login: false,
        },
        Some(RuntimeAutoSwitchWork::LoginCurrent(a)) => CommandStep::Sync {
            account: *a,
            login: true,
        },
    }
}

/// What is to be prepared once a plan is committed.
pub open spec fn is_step_after_commit(
    step: CommandStep,
    result: AutoSwitchResult,
    is_current: bool,
) -> bool {
    match result {
        AutoSwitchResult::CurrentUnsupported { .. } => step is Drop,
        AutoSwitchResult::CurrentKept { account, .. } => if is_current {
            step == (CommandStep::Prepare { account: *account, notification: None })
        } else {
            step is Drop
        },
        AutoSwitchResult::Switched { from, to, reason } => if is_current {
            let from = match from {
                Some(f) => Some(*f),
                None => None,
            };
            &&& step matches CommandStep::Prepare { account, notification }
            &&& account == *to
            &&& match notification {
                Some(n) => login::id_of(from) != Some(to.id@) && n is Client
                    && login::success_text(n, None) == login::switch_notice(
                    login::label_of(from),
                    shown::safe_label(*to),
                    shown::sanitized(reason@),
                ),
                None => login::id_of(from) == Some(to.id@),
            }
        } else {
            step is Drop
        },
    }
}

pub fn after_commit(
    result: AutoSwitchResult,
    generation: u64,
    schedule: &RuntimeAutoSwitchSchedule,
) -> (r: CommandStep)
    ensures
        is_step_after_commit(r, result, generation == schedule.generation),
{
    let current: bool = schedule.is_current_generation(generation);
    match result {
        AutoSwitchResult::CurrentUnsupported { .. } => CommandStep::Drop,
        AutoSwitchResult::CurrentKept { account, .. } => if current {
            CommandStep::Prepare { account: *account, notification: None }
        } else {
            CommandStep::Drop
        },
        AutoSwitchResult::Switched { from, to, reason } => if current {
            let from_account: Option<&StoredAccount> = match &from {
                Some(f) => Some(&**f),
                None => None,
            };
            let notice = login::runtime_auto_switch_success_notification(
                from_account,
                &to,
                reason.as_str(),
            );
            let notification = match notice {
                Some(n) => Some(RuntimeLoginSuccessNotification::Client(n)),
                None => None,
            };
            CommandStep::Prepare { account: *to, notification }
        } else {
            CommandStep::Drop
        },
    }
}

/// After Codex's login was brought in line: `synced` is the account, where it is
/// still the current one.
pub fn after_sync(
    synced: Option<StoredAccount>,
    login: bool,
    generation: u64,
    schedule: &RuntimeAutoSwitchSchedule,
) -> (r: CommandStep)
    ensures
        r == match synced {
            Some(account) => if login && generation == schedule.generation {
                CommandStep::Prepare { account, notification: None }
            } else {
                CommandStep::Drop
            },
            None => CommandStep::Drop,
        },
{
    match synced {
        Some(account) => if login && schedule.is_current_generation(generation) {
            CommandStep::Prepare { account, notification: None }
        } else {
            CommandStep::Drop
        },
        None => CommandStep::Drop,
    }
}

/// The command, unless a newer generation began while the login was prepared.
pub fn after_prepare(
    prepared: PreparedAccountLogin,
    notification: Option<RuntimeLoginSuccessNotification>,
    generation: u64,
    schedule: &RuntimeAutoSwitchSchedule,
) -> (r: Option<RuntimeLoginCommand>)
    ensures
        match r {
            Some(c) => generation == schedule.generation && c == (RuntimeLoginCommand {
                prepared,
                expected_snapshot: prepared.current_snapshot,
                generation: Some(generation),
                completion: None,
                success_notification: notification,
            }),
            None => generation != schedule.generation,
        },
{
    if schedule.is_current_generation(generation) {
        Some(RuntimeLoginCommand::auto_switch(prepared, generation, notification))
    } else {
        None
    }
}

// ---------------------------------------------------------------------------
// Laws
// ---------------------------------------------------------------------------

/// The generation never goes back; a hard request that is queued makes every
/// older generation stale; nothing but a queued hard request changes it.
pub proof fn generations_only_grow(s: RuntimeAutoSwitchSchedule, event: ScheduleEvent)
    ensures
        after_event(s, event).generation >= s.generation,
        s.generation < u64::MAX && event == (ScheduleEvent::Hard { room: QueueRoom::Free })
            ==> after_event(s, event).generation == s.generation + 1,
        event != (ScheduleEvent::Hard { room: QueueRoom::Free }) ==> after_event(
            s,
            event,
        ).generation == s.generation,
{
}

/// A request that finds no room changes nothing.
pub proof fn no_room_changes_nothing(s: RuntimeAutoSwitchSchedule, room: QueueRoom, now: u128)
    requires
        room != QueueRoom::Free,
    ensures
        after_event(s, ScheduleEvent::Background { room, now }) == s,
        after_event(s, ScheduleEvent::Hard { room }) == s,
{
}

/// Two soft searches that are queued one after the other are at least the
/// cooldown apart.
pub proof fn soft_searches_keep_apart(s: RuntimeAutoSwitchSchedule, first: u128, second: u128)
    requires
        !s.in_flight,
        !is_cooling(s, first),
        ({
            let begun = after_event(
                s,
                ScheduleEvent::Background { room: QueueRoom::Free, now: first },
            );
            let done = after_event(begun, ScheduleEvent::Finish);
            after_event(done, ScheduleEvent::Background { room: QueueRoom::Free, now: second })
                != done
        }),
    ensures
        second >= first + s.cooldown,
{
}

/// A login of an older generation is never sent.
pub proof fn stale_work_is_dropped(
    step: CommandStep,
    result: AutoSwitchResult,
)
    requires
        is_step_after_commit(step, result, false),
    ensures
        step is Drop,
{
}

/// A soft search begins where none is under way, the last one is long enough ago and
/// there is room; then the schedule is taken from that moment on. Otherwise none
/// begins.
pub proof fn searches_begin_in_turn(s: RuntimeAutoSwitchSchedule, room: QueueRoom, now: u128)
    ensures
        ({
            let free = !s.in_flight && room == QueueRoom::Free && (s.last_attempt is None
                || s.last_attempt->Some_0 + s.cooldown <= now);
            let next = after_event(s, ScheduleEvent::Background { room, now });
            &&& background_answer(s, room, now).1 is Some <==> free
            &&& background_answer(s, room, now).0 == BackgroundAutoSwitchQueueStatus::Queued
                <==> free
            &&& free ==> next.in_flight && next.last_attempt == Some(now)
            &&& !free ==> next == s
            &&& next.generation == s.generation && next.cooldown == s.cooldown
            &&& background_answer(s, room, now).1 matches Some(request) ==> request.priority
                == RuntimeAutoSwitchPriority::Soft && request.generation == s.generation
        }),
{
}

/// A hard search makes a new generation where there is room for it, so that what was
/// begun before no longer counts; a search that ends leaves the schedule free.
pub proof fn hard_searches_outdate_others(s: RuntimeAutoSwitchSchedule)
    ensures
        s.generation < u64::MAX ==> after_event(
            s,
            ScheduleEvent::Hard { room: QueueRoom::Free },
        ).generation == s.generation + 1,
        after_event(s, ScheduleEvent::Hard { room: QueueRoom::Full }) == s,
        after_event(s, ScheduleEvent::Hard { room: QueueRoom::Closed }) == s,
        !after_event(s, ScheduleEvent::Finish).in_flight,
        after_event(s, ScheduleEvent::Finish).generation == s.generation,
        after_event(s, ScheduleEvent::Finish).last_attempt == s.last_attempt,
{
}

/// A hard search is started at once and takes the place of one under way; a soft one
/// gives way to any. A request of another generation is never followed.
pub proof fn hard_searches_go_first(
    request: BackgroundRuntimeRequest,
    in_flight: Option<RuntimeAutoSwitchPriority>,
    s: RuntimeAutoSwitchSchedule,
)
    ensures
        request.generation != s.generation ==> request_step(request, in_flight, s)
            == RequestStep::Drop,
        request.generation == s.generation && in_flight is None ==> request_step(
            request,
            in_flight,
            s,
        ) == (RequestStep::Start { abort_current: false }),
        request.generation == s.generation && in_flight is Some && request.priority
            == RuntimeAutoSwitchPriority::Hard ==> request_step(request, in_flight, s) == (
        RequestStep::Start { abort_current: true }),
        in_flight is Some && request.priority == RuntimeAutoSwitchPriority::Soft ==> request_step(
            request,
            in_flight,
            s,
        ) == RequestStep::Drop,
        request_step(request, in_flight, s) == RequestStep::Drop && request.priority
            == RuntimeAutoSwitchPriority::Soft ==> !after_request(request, in_flight, s).in_flight,
        in_flight == Some(RuntimeAutoSwitchPriority::Soft) && request_step(request, in_flight, s)
            is Start ==> !after_request(request, in_flight, s).in_flight,
        after_request(request, in_flight, s).generation == s.generation,
{
}

/// A result counts only in the generation it was searched in, and only where the
/// current account is the same as when the search began.
pub proof fn results_count_while_nothing_changed(
    generation: u64,
    expected: CurrentAccountSnapshot,
    current: CurrentAccountSnapshot,
    s: RuntimeAutoSwitchSchedule,
)
    ensures
        counts(generation, Some(expected), Some(current), s) <==> generation == s.generation
            && expected@ == current@,
        !counts(generation, Some(expected), None, s),
        counts(generation, None, Some(current), s) <==> generation == s.generation
            && current.current_account_id is None,
{
}

/// A plan to switch is carried out; an account that is kept is logged in again only
/// where that is asked for and the app-server does not run with its latest login.
pub proof fn plans_become_work(
    plan: AutoSwitchPlan,
    mode: AutoSwitchLoginMode,
    accounts: Seq<StoredAccount>,
)
    ensures
        plan is Switch ==> work_of(plan, mode, accounts) == Some(RuntimeAutoSwitchWork::Switch(plan)),
        plan is CurrentUnsupported ==> work_of(plan, mode, accounts) is None,
        plan matches AutoSwitchPlan::CurrentKept { account, .. } ==> {
            let newest = login::latest_of(accounts, *account);
            match mode {
                AutoSwitchLoginMode::SwitchedOnly => work_of(plan, mode, accounts) == Some(
                    RuntimeAutoSwitchWork::KeepCurrent(account),
                ),
                AutoSwitchLoginMode::EnsureCurrentLogged {
                    app_server_account_id,
                    app_server_snapshot,
                } => {
                    let there = app_server_account_id is Some && app_server_account_id->Some_0@
                        == newest.id@ && app_server_snapshot is Some
                        && app_server_snapshot->Some_0@ == login::snapshot_of(newest);
                    &&& there ==> work_of(plan, mode, accounts) == Some(
                        RuntimeAutoSwitchWork::KeepCurrent(Box::new(newest)),
                    )
                    &&& !there ==> work_of(plan, mode, accounts) == Some(
                        RuntimeAutoSwitchWork::LoginCurrent(Box::new(newest)),
                    )
                },
            }
        },
{
}

/// After a switch the login that is prepared is that of the account switched to, with
/// a notice where the account is another; nothing is prepared in another generation.
pub proof fn switches_lead_to_their_login(
    step: CommandStep,
    from: Option<Box<StoredAccount>>,
    to: Box<StoredAccount>,
    reason: String,
    is_current: bool,
)
    requires
        is_step_after_commit(step, AutoSwitchResult::Switched { from, to, reason }, is_current),
    ensures
        !is_current ==> step is Drop,
        is_current ==> (step matches CommandStep::Prepare { account, .. } && account == *to),
        is_current && from is Some && from->Some_0.id@ != to.id@ ==> (step
            matches CommandStep::Prepare { notification: Some(_), .. }),
{
}

/// The steps from work to a login: a switch is committed, an account that is kept is
/// brought in line, and everything of another generation is dropped.
pub proof fn work_leads_to_steps(
    work: Option<RuntimeAutoSwitchWork>,
    generation: u64,
    s: RuntimeAutoSwitchSchedule,
    r: CommandStep,
)
    requires
        call_ensures(start_command, (work, generation, &s), r),
    ensures
        generation != s.generation ==> r is Drop,
        generation == s.generation ==> match work {
            None => r is Drop,
            Some(RuntimeAutoSwitchWork::Switch(plan)) => r == CommandStep::Commit(plan),
            Some(RuntimeAutoSwitchWork::KeepCurrent(a)) => r matches CommandStep::Sync {
                account,
                login: false,
            } && account == *a,
            Some(RuntimeAutoSwitchWork::LoginCurrent(a)) => r matches CommandStep::Sync {
                account,
                login: true,
            } && account == *a,
        },
{
}

/// An account that was switched to is logged in where that is asked for and nothing
/// newer has begun.
pub proof fn switched_accounts_are_logged_in(
    synced: Option<StoredAccount>,
    login: bool,
    generation: u64,
    s: RuntimeAutoSwitchSchedule,
    r: CommandStep,
)
    requires
        call_ensures(after_sync, (synced, login, generation, &s), r),
    ensures
        r is Prepare <==> synced is Some && login && generation == s.generation,
        r is Prepare ==> Some(r->Prepare_account) == synced,
        !(r is Prepare) ==> r is Drop,
{
}

/// A login that was prepared is sent unless something newer has begun, and with what it
/// was prepared for.
pub proof fn prepared_logins_are_sent(
    prepared: PreparedAccountLogin,
    notification: Option<RuntimeLoginSuccessNotification>,
    generation: u64,
    s: RuntimeAutoSwitchSchedule,
    r: Option<RuntimeLoginCommand>,
)
    requires
        call_ensures(after_prepare, (prepared, notification, generation, &s), r),
    ensures
        r is Some <==> generation == s.generation,
        r matches Some(c) ==> c.prepared == prepared && c.generation == Some(generation)
            && c.expected_snapshot == prepared.current_snapshot && c.success_notification
            == notification && c.completion is None,
{
}

/// A search in the background begins where none is under way and the last is long
/// enough ago; a second one then has to wait for it.
pub proof fn one_search_at_a_time(
    r: (BackgroundAutoSwitchQueueStatus, u64),
    again: (BackgroundAutoSwitchQueueStatus, u64),
    s: RuntimeAutoSwitchSchedule,
    then: RuntimeAutoSwitchSchedule,
    last: RuntimeAutoSwitchSchedule,
    now: u128,
    later: u128,
)
    requires
        is_started(r, s, then, now),
        is_started(again, then, last, later),
    ensures
        r.0 is Queued <==> !s.in_flight && !is_cooling(s, now),
        r.0 is Queued ==> then.in_flight && then.last_attempt == Some(now) && again.0 is InFlight
            && last == then,
        !(r.0 is Queued) ==> then == s,
        r.1 == s.generation && then.generation == s.generation,
{
}

} // verus!
