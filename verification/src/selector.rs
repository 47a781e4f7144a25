//! Choosing the account to work with.
//!
//! Every usable account is evaluated by how much quota it has left. A policy
//! then ranks the accounts and takes the one of the least rank. Quantities are
//! bit patterns of binary64 numbers; what takes floating-point arithmetic (the
//! weekly headroom in five-hour units, the scores of a policy) comes in as a value.
use crate::accounts;
use crate::accounts::{StoredAccount, Timestamp};
use crate::quantity;
use crate::rank;
use crate::search;
use crate::text;
use crate::usage;
use crate::usage::{UsageInfo, UsageWindowData, UsageWindowKind};
use vstd::prelude::*;

verus! {

pub const DEFAULT_MIN_SAFE_HEADROOM: u64 = quantity::FIVE;

pub const DEFAULT_WEEKLY_TO_FIVE_HOUR_RATIO: u64 = quantity::FOUR;

#[derive(Debug, Clone, Copy, PartialEq, Eq, Structural, Default)]
pub enum SelectionPolicyKind {
    #[default]
    DeadlineAware,
    ShadowPrice,
    ResetWeightedMinimax,
    DemandAwareHysteresis,
}

#[derive(Debug, Clone, Copy, PartialEq, Eq, Structural)]
pub struct SelectionConfig {
    pub min_safe_headroom: u64,
    pub weekly_to_five_hour_ratio: u64,
    pub policy: SelectionPolicyKind,
}

impl Default for SelectionConfig {
    fn default() -> (r: Self)
        ensures
            r.min_safe_headroom == DEFAULT_MIN_SAFE_HEADROOM,
            r.weekly_to_five_hour_ratio == DEFAULT_WEEKLY_TO_FIVE_HOUR_RATIO,
            r.policy == SelectionPolicyKind::DeadlineAware,
    {
        SelectionConfig {
            min_safe_headroom: DEFAULT_MIN_SAFE_HEADROOM,
            weekly_to_five_hour_ratio: DEFAULT_WEEKLY_TO_FIVE_HOUR_RATIO,
            policy: SelectionPolicyKind::DeadlineAware,
        }
    }
}

/// The headroom that counts as safe: between 0 and 100, the default where the
/// configured one is no finite number.
pub open spec fn safe_headroom(value: u64) -> u64 {
    if quantity::is_finite(value) {
        quantity::clamped(value, quantity::ZERO, quantity::HUNDRED)
    } else {
        DEFAULT_MIN_SAFE_HEADROOM
    }
}

pub fn normalized_min_safe_headroom(value: u64) -> (r: u64)
    ensures
        r == safe_headroom(value),
{
    if quantity::finite(value) {
        quantity::clamp(value, quantity::ZERO, quantity::HUNDRED)
    } else {
        DEFAULT_MIN_SAFE_HEADROOM
    }
}

/// A positive finite ratio as it is, the default for any other.
pub open spec fn safe_ratio(value: u64) -> u64 {
    if quantity::is_finite(value) && quantity::greater(value, quantity::ZERO) {
        value
    } else {
        DEFAULT_WEEKLY_TO_FIVE_HOUR_RATIO
    }
}

pub fn normalized_weekly_to_five_hour_ratio(value: u64) -> (r: u64)
    ensures
        r == safe_ratio(value),
{
    if quantity::finite(value) && quantity::exceeds(value, quantity::ZERO) {
        value
    } else {
        DEFAULT_WEEKLY_TO_FIVE_HOUR_RATIO
    }
}

#[derive(Clone, Copy)]
pub struct AccountUsageCandidate<'a> {
    pub account: &'a StoredAccount,
    pub usage: &'a UsageInfo,
}

#[derive(Debug, Clone, Copy, PartialEq, Eq, Structural)]
pub enum UsageWindow {
    FiveHour,
    Weekly,
}

/// How much of its quota an account has left.
#[derive(Debug, Clone, Copy, PartialEq, Eq, Structural)]
pub struct UsageSelectionMetrics {
    pub five_hour_headroom: Option<u64>,
    pub weekly_headroom: Option<u64>,
    pub five_hour_headroom_units: Option<u64>,
    pub weekly_headroom_units: Option<u64>,
    pub bottleneck: UsageWindow,
    pub bottleneck_headroom: u64,
    pub bottleneck_resets_at: Option<i64>,
    pub safe_for_reset_priority: bool,
}

pub struct AccountSelection<'a> {
    pub account: &'a StoredAccount,
    pub metrics: UsageSelectionMetrics,
}

#[derive(Clone, Copy)]
pub struct SelectionContext<'a> {
    pub now: i64,
    pub current_account_id: Option<&'a str>,
}

/// `chrono::Utc::now().timestamp()`: the whole seconds since the Unix epoch.
/// The clock decides the result, so nothing is claimed of it.
#[verifier::external_body]
fn clock_seconds() -> (r: i64)
{
    chrono::Utc::now().timestamp()
}

/// The clock shows these seconds at some moment: they are what a reading of it
/// returns.
pub closed spec fn clock_shows(seconds: i64) -> bool {
    call_ensures(clock_seconds, (), seconds)
}

fn read<F: Fn() -> i64>(clock: F) -> (r: i64)
    requires
        call_requires(clock, ()),
    ensures
        call_ensures(clock, (), r),
{
    clock()
}

impl<'a> SelectionContext<'a> {
    /// The context of this moment, with no current account.
    pub fn now() -> (r: Self)
        ensures
            clock_shows(r.now),
            r.current_account_id is None,
    {
        Self::at(read(clock_seconds))
    }

    pub fn with_current_account_id<'b>(
        self,
        current_account_id: Option<&'b str>,
    ) -> (r: SelectionContext<'b>)
        ensures
            r.now == self.now,
            r.current_account_id == current_account_id,
    {
        SelectionContext { now: self.now, current_account_id }
    }

    pub fn at(now: i64) -> (r: Self)
        ensures
            r.now == now,
            r.current_account_id is None,
    {
        SelectionContext { now, current_account_id: None }
    }
}

// ---------------------------------------------------------------------------
// Which windows are looked at
// ---------------------------------------------------------------------------

#[derive(Debug, Clone, Copy, PartialEq, Eq, Structural)]
pub enum ActiveUsageWindows {
    FiveHour,
    Weekly,
    Both,
}

impl ActiveUsageWindows {
    pub open spec fn five(self) -> bool {
        self == ActiveUsageWindows::FiveHour || self == ActiveUsageWindows::Both
    }

    pub open spec fn week(self) -> bool {
        self == ActiveUsageWindows::Weekly || self == ActiveUsageWindows::Both
    }

    pub fn from_presence(has_five_hour: bool, has_weekly: bool) -> (r: Option<Self>)
        ensures
            match r {
                Some(w) => w.five() == has_five_hour && w.week() == has_weekly,
                None => !has_five_hour && !has_weekly,
            },
    {
        match (has_five_hour, has_weekly) {
            (true, false) => Some(ActiveUsageWindows::FiveHour),
            (false, true) => Some(ActiveUsageWindows::Weekly),
            (true, true) => Some(ActiveUsageWindows::Both),
            (false, false) => None,
        }
    }

    /// The windows that both have.
    pub fn intersection(self, other: Self) -> (r: Option<Self>)
        ensures
            match r {
                Some(w) => w.five() == (self.five() && other.five()) && w.week() == (self.week()
                    && other.week()),
                None => !(self.five() && other.five()) && !(self.week() && other.week()),
            },
    {
        Self::from_presence(
            self.has_five_hour() && other.has_five_hour(),
            self.has_weekly() && other.has_weekly(),
        )
    }

    pub fn has_five_hour(self) -> (r: bool)
        ensures
            r == self.five(),
    {
        self == ActiveUsageWindows::FiveHour || self == ActiveUsageWindows::Both
    }

    pub fn has_weekly(self) -> (r: bool)
        ensures
            r == self.week(),
    {
        self == ActiveUsageWindows::Weekly || self == ActiveUsageWindows::Both
    }
}

// ---------------------------------------------------------------------------
// Usable reports
// ---------------------------------------------------------------------------

/// A window that reports a finite percentage below one hundred and is of a
/// known kind, or a window that reports nothing.
pub open spec fn window_is_sound(w: UsageWindowData) -> bool {
    w.is_present() ==> {
        &&& w.used_percent is Some
        &&& quantity::is_finite(w.used_percent->Some_0.bits)
        &&& !quantity::at_least(w.used_percent->Some_0.bits, quantity::HUNDRED)
        &&& w.is_kind() != UsageWindowKind::Other
    }
}

/// A report that an account can be ranked by.
pub open spec fn usage_is_valid(info: UsageInfo) -> bool {
    &&& info.error is None
    &&& info.rate_limit_reached_type is None
    &&& window_is_sound(info.primary)
    &&& window_is_sound(info.secondary)
    &&& info.primary.is_present() || info.secondary.is_present()
    &&& !(info.primary.is_present() && info.secondary.is_present() && info.primary.is_kind()
        == info.secondary.is_kind())
}

pub open spec fn five_hour_of(info: UsageInfo) -> Option<UsageWindowData> {
    usage::window_of(info.primary, info.secondary, UsageWindowKind::FiveHour)
}

pub open spec fn weekly_of(info: UsageInfo) -> Option<UsageWindowData> {
    usage::window_of(info.primary, info.secondary, UsageWindowKind::Weekly)
}

fn sound_window(w: &UsageWindowData) -> (r: bool)
    ensures
        r == window_is_sound(*w),
{
    if !w.present() {
        return true;
    }
    match &w.used_percent {
        Some(used) => quantity::finite(used.bits) && !quantity::reaches(
            used.bits,
            quantity::HUNDRED,
        ) && w.kind() != UsageWindowKind::Other,
        None => false,
    }
}

pub fn validate_usage(info: &UsageInfo) -> (r: bool)
    ensures
        r == usage_is_valid(*info),
{
    info.error.is_none() && info.rate_limit_reached_type.is_none() && sound_window(&info.primary)
        && sound_window(&info.secondary) && (info.primary.present() || info.secondary.present())
        && !(info.primary.present() && info.secondary.present() && info.primary.kind()
        == info.secondary.kind())
}

/// The account may be chosen automatically: enabled, logged in with ChatGPT,
/// and with a valid report.
pub open spec fn is_eligible(account: StoredAccount, info: UsageInfo) -> bool {
    !account.auto_switch_disabled && account.is_chatgpt() && usage_is_valid(info)
}

pub fn validate_candidate(account: &StoredAccount, info: &UsageInfo) -> (r: bool)
    ensures
        r == is_eligible(*account, *info),
{
    account.auto_switch_enabled() && account.uses_chatgpt() && validate_usage(info)
}

/// A valid report has at least one window, of one kind or of both.
pub proof fn valid_usage_has_a_window(info: UsageInfo)
    requires
        usage_is_valid(info),
    ensures
        five_hour_of(info) is Some || weekly_of(info) is Some,
        five_hour_of(info) is Some ==> five_hour_of(info)->Some_0.used_percent is Some,
        weekly_of(info) is Some ==> weekly_of(info)->Some_0.used_percent is Some,
{
}

// ---------------------------------------------------------------------------
// Evaluation
// ---------------------------------------------------------------------------

#[derive(Debug, Clone, Copy, PartialEq, Eq, Structural)]
pub struct EvaluatedWindow {
    pub used: u64,
    pub headroom: u64,
    pub headroom_units: u64,
    pub window_minutes: Option<i64>,
    pub resets_at: Option<i64>,
}

#[derive(Clone, Copy)]
pub struct EvaluatedCandidate<'a> {
    pub account: &'a StoredAccount,
    pub five_hour: Option<EvaluatedWindow>,
    pub weekly: Option<EvaluatedWindow>,
    pub active_windows: ActiveUsageWindows,
    /// Nothing is used in any window that is looked at.
    pub is_zero_usage: bool,
    pub metrics: UsageSelectionMetrics,
    /// The place among the candidates.
    pub order: usize,
}

impl<'a> EvaluatedCandidate<'a> {
    pub fn window(&self, window: UsageWindow) -> (r: Option<EvaluatedWindow>)
        ensures
            r == match window {
                UsageWindow::FiveHour => self.five_hour,
                UsageWindow::Weekly => self.weekly,
            },
    {
        match window {
            UsageWindow::FiveHour => self.five_hour,
            UsageWindow::Weekly => self.weekly,
        }
    }

    /// The length of the window that limits the account.
    pub fn bottleneck_window_minutes(&self) -> (r: Option<i64>)
        ensures
            r == match self.metrics.bottleneck {
                UsageWindow::FiveHour => match self.five_hour {
                    Some(w) => w.window_minutes,
                    None => None,
                },
                UsageWindow::Weekly => match self.weekly {
                    Some(w) => w.window_minutes,
                    None => None,
                },
            },
    {
        match self.window(self.metrics.bottleneck) {
            Some(w) => w.window_minutes,
            None => None,
        }
    }
}

pub open spec fn evaluated_window(w: UsageWindowData, units: u64) -> EvaluatedWindow {
    EvaluatedWindow {
        used: w.used_percent->Some_0.bits,
        headroom: w.used_percent->Some_0.headroom,
        headroom_units: units,
        window_minutes: w.window_minutes,
        resets_at: w.resets_at,
    }
}

pub open spec fn evaluated_five_hour(info: UsageInfo, active: ActiveUsageWindows) -> Option<
    EvaluatedWindow,
> {
    match five_hour_of(info) {
        Some(w) => if active.five() {
            Some(evaluated_window(w, w.used_percent->Some_0.headroom))
        } else {
            None
        },
        None => None,
    }
}

pub open spec fn evaluated_weekly(
    info: UsageInfo,
    active: ActiveUsageWindows,
    weekly_units: u64,
) -> Option<EvaluatedWindow> {
    match weekly_of(info) {
        Some(w) => if active.week() {
            Some(evaluated_window(w, weekly_units))
        } else {
            None
        },
        None => None,
    }
}

/// The window with the smaller headroom in common units; the five-hour one
/// where they are equal.
pub open spec fn bottleneck_of(
    five_hour: Option<EvaluatedWindow>,
    weekly: Option<EvaluatedWindow>,
) -> UsageWindow {
    match (five_hour, weekly) {
        (Some(f), Some(w)) => if quantity::at_least(w.headroom_units, f.headroom_units) {
            UsageWindow::FiveHour
        } else {
            UsageWindow::Weekly
        },
        (Some(_), None) => UsageWindow::FiveHour,
        _ => UsageWindow::Weekly,
    }
}

pub open spec fn metrics_of(
    five_hour: Option<EvaluatedWindow>,
    weekly: Option<EvaluatedWindow>,
    min_safe: u64,
) -> UsageSelectionMetrics {
    let bottleneck = bottleneck_of(five_hour, weekly);
    let window = match bottleneck {
        UsageWindow::FiveHour => five_hour->Some_0,
        UsageWindow::Weekly => weekly->Some_0,
    };
    UsageSelectionMetrics {
        five_hour_headroom: match five_hour {
            Some(w) => Some(w.headroom),
            None => None,
        },
        weekly_headroom: match weekly {
            Some(w) => Some(w.headroom),
            None => None,
        },
        five_hour_headroom_units: match five_hour {
            Some(w) => Some(w.headroom_units),
            None => None,
        },
        weekly_headroom_units: match weekly {
            Some(w) => Some(w.headroom_units),
            None => None,
        },
        bottleneck,
        bottleneck_headroom: window.headroom_units,
        bottleneck_resets_at: window.resets_at,
        safe_for_reset_priority: quantity::at_least(window.headroom_units, min_safe),
    }
}

pub open spec fn nothing_used(w: Option<EvaluatedWindow>) -> bool {
    match w {
        Some(w) => quantity::at_least(quantity::ZERO, w.used),
        None => true,
    }
}

/// What evaluation makes of one candidate.
pub open spec fn evaluation<'a>(
    candidate: AccountUsageCandidate<'a>,
    weekly_units: u64,
    active: ActiveUsageWindows,
    min_safe: u64,
    order: usize,
) -> EvaluatedCandidate<'a> {
    let five_hour = evaluated_five_hour(*candidate.usage, active);
    let weekly = evaluated_weekly(*candidate.usage, active, weekly_units);
    EvaluatedCandidate {
        account: candidate.account,
        five_hour,
        weekly,
        active_windows: active,
        is_zero_usage: nothing_used(five_hour) && nothing_used(weekly),
        metrics: metrics_of(five_hour, weekly, min_safe),
        order,
    }
}

fn evaluate_window(w: &UsageWindowData, units: u64) -> (r: EvaluatedWindow)
    requires
        w.used_percent is Some,
    ensures
        r == evaluated_window(*w, units),
{
    let used: u64 = match &w.used_percent {
        Some(used) => used.bits,
        None => 0,
    };
    let headroom: u64 = match &w.used_percent {
        Some(used) => used.headroom,
        None => 0,
    };
    EvaluatedWindow {
        used,
        headroom,
        headroom_units: units,
        window_minutes: w.window_minutes,
        resets_at: w.resets_at,
    }
}

fn evaluate_five_hour(info: &UsageInfo, active: ActiveUsageWindows) -> (r: Option<EvaluatedWindow>)
    requires
        usage_is_valid(*info),
    ensures
        r == evaluated_five_hour(*info, active),
{
    match usage::find_window(&info.primary, &info.secondary, UsageWindowKind::FiveHour) {
        Some(w) => if active.has_five_hour() {
            let units: u64 = match &w.used_percent {
                Some(used) => used.headroom,
                None => 0,
            };
            Some(evaluate_window(w, units))
        } else {
            None
        },
        None => None,
    }
}

fn evaluate_weekly(
    info: &UsageInfo,
    active: ActiveUsageWindows,
    weekly_units: u64,
) -> (r: Option<EvaluatedWindow>)
    requires
        usage_is_valid(*info),
    ensures
        r == evaluated_weekly(*info, active, weekly_units),
{
    match usage::find_window(&info.primary, &info.secondary, UsageWindowKind::Weekly) {
        Some(w) => if active.has_weekly() {
            Some(evaluate_window(w, weekly_units))
        } else {
            None
        },
        None => None,
    }
}

fn zero_used(w: Option<EvaluatedWindow>) -> (r: bool)
    ensures
        r == nothing_used(w),
{
    match w {
        Some(w) => quantity::reaches(quantity::ZERO, w.used),
        None => true,
    }
}

fn compute_metrics(
    five_hour: Option<EvaluatedWindow>,
    weekly: Option<EvaluatedWindow>,
    min_safe: u64,
) -> (r: UsageSelectionMetrics)
    requires
        five_hour is Some || weekly is Some,
    ensures
        r == metrics_of(five_hour, weekly, min_safe),
{
    let (bottleneck, window) = match (five_hour, weekly) {
        (Some(f), Some(w)) => if quantity::reaches(w.headroom_units, f.headroom_units) {
            (UsageWindow::FiveHour, f)
        } else {
            (UsageWindow::Weekly, w)
        },
        (Some(f), None) => (UsageWindow::FiveHour, f),
        (None, Some(w)) => (UsageWindow::Weekly, w),
        (None, None) => (
            UsageWindow::Weekly,
            EvaluatedWindow {
                used: 0,
                headroom: 0,
                headroom_units: 0,
                window_minutes: None,
                resets_at: None,
            },
        ),
    };
    UsageSelectionMetrics {
        five_hour_headroom: match five_hour {
            Some(w) => Some(w.headroom),
            None => None,
        },
        weekly_headroom: match weekly {
            Some(w) => Some(w.headroom),
            None => None,
        },
        five_hour_headroom_units: match five_hour {
            Some(w) => Some(w.headroom_units),
            None => None,
        },
        weekly_headroom_units: match weekly {
            Some(w) => Some(w.headroom_units),
            None => None,
        },
        bottleneck,
        bottleneck_headroom: window.headroom_units,
        bottleneck_resets_at: window.resets_at,
        safe_for_reset_priority: quantity::reaches(window.headroom_units, min_safe),
    }
}

/// The windows that a valid report has.
pub open spec fn available_windows(info: UsageInfo) -> ActiveUsageWindows {
    if five_hour_of(info) is Some && weekly_of(info) is Some {
        ActiveUsageWindows::Both
    } else if five_hour_of(info) is Some {
        ActiveUsageWindows::FiveHour
    } else {
        ActiveUsageWindows::Weekly
    }
}

fn windows_available(info: &UsageInfo) -> (r: ActiveUsageWindows)
    ensures
        r == available_windows(*info),
{
    let five: bool = usage::find_window(
        &info.primary,
        &info.secondary,
        UsageWindowKind::FiveHour,
    ).is_some();
    let week: bool = usage::find_window(
        &info.primary,
        &info.secondary,
        UsageWindowKind::Weekly,
    ).is_some();
    if five && week {
        ActiveUsageWindows::Both
    } else if five {
        ActiveUsageWindows::FiveHour
    } else {
        ActiveUsageWindows::Weekly
    }
}

/// The metrics of one report, over all the windows that it has.
pub fn usage_selection_metrics(
    info: &UsageInfo,
    weekly_units: u64,
    config: SelectionConfig,
) -> (r: Option<UsageSelectionMetrics>)
    ensures
        r == if usage_is_valid(*info) {
            let active = available_windows(*info);
            Some(
                metrics_of(
                    evaluated_five_hour(*info, active),
                    evaluated_weekly(*info, active, weekly_units),
                    safe_headroom(config.min_safe_headroom),
                ),
            )
        } else {
            None
        },
{
    if !validate_usage(info) {
        return None;
    }
    proof {
        valid_usage_has_a_window(*info);
    }
    let active = windows_available(info);
    let five_hour = evaluate_five_hour(info, active);
    let weekly = evaluate_weekly(info, active, weekly_units);
    Some(
        compute_metrics(
            five_hour,
            weekly,
            normalized_min_safe_headroom(config.min_safe_headroom),
        ),
    )
}

// ---------------------------------------------------------------------------
// All candidates
// ---------------------------------------------------------------------------

pub open spec fn eligible_at(candidates: Seq<AccountUsageCandidate>, i: int) -> bool {
    is_eligible(*candidates[i].account, *candidates[i].usage)
}

/// The places of the eligible candidates among the first `n`, in order.
pub open spec fn eligible_places(candidates: Seq<AccountUsageCandidate>, n: int) -> Seq<int>
    decreases n,
{
    if n <= 0 {
        Seq::empty()
    } else {
        let init = eligible_places(candidates, n - 1);
        if eligible_at(candidates, n - 1) {
            init.push(n - 1)
        } else {
            init
        }
    }
}

/// Every one of the first `n` eligible candidates has a five-hour window.
pub open spec fn all_have_five_hour(candidates: Seq<AccountUsageCandidate>, n: int) -> bool {
    forall|i: int|
        0 <= i < n && #[trigger] eligible_at(candidates, i) ==> five_hour_of(
            *candidates[i].usage,
        ) is Some
}

/// Every one of the first `n` eligible candidates has a weekly window.
pub open spec fn all_have_weekly(candidates: Seq<AccountUsageCandidate>, n: int) -> bool {
    forall|i: int|
        0 <= i < n && #[trigger] eligible_at(candidates, i) ==> weekly_of(
            *candidates[i].usage,
        ) is Some
}

/// The windows that every eligible candidate has.
pub open spec fn common_windows(candidates: Seq<AccountUsageCandidate>) -> Option<
    ActiveUsageWindows,
> {
    let n = candidates.len() as int;
    if eligible_places(candidates, n).len() == 0 {
        None
    } else if all_have_five_hour(candidates, n) && all_have_weekly(candidates, n) {
        Some(ActiveUsageWindows::Both)
    } else if all_have_five_hour(candidates, n) {
        Some(ActiveUsageWindows::FiveHour)
    } else if all_have_weekly(candidates, n) {
        Some(ActiveUsageWindows::Weekly)
    } else {
        None
    }
}

/// The evaluations of all eligible candidates over the windows they share;
/// nothing where they share none.
pub open spec fn evaluations<'a>(
    candidates: Seq<AccountUsageCandidate<'a>>,
    weekly_units: Seq<u64>,
    config: SelectionConfig,
) -> Seq<EvaluatedCandidate<'a>> {
    match common_windows(candidates) {
        Some(active) => eligible_places(candidates, candidates.len() as int).map_values(
            |i: int|
                evaluation(
                    candidates[i],
                    weekly_units[i],
                    active,
                    safe_headroom(config.min_safe_headroom),
                    i as usize,
                ),
        ),
        None => Seq::empty(),
    }
}

proof fn eligible_places_are_eligible(candidates: Seq<AccountUsageCandidate>, n: int)
    requires
        n <= candidates.len(),
    ensures
        forall|k: int|
            #![trigger eligible_places(candidates, n)[k]]
            0 <= k < eligible_places(candidates, n).len() ==> {
                let i = eligible_places(candidates, n)[k];
                0 <= i < n && eligible_at(candidates, i)
            },
    decreases n,
{
    if n > 0 {
        eligible_places_are_eligible(candidates, n - 1);
        let init = eligible_places(candidates, n - 1);
        let all = eligible_places(candidates, n);
        assert forall|k: int| #![trigger all[k]] 0 <= k < all.len() implies 0 <= all[k] < n
            && eligible_at(candidates, all[k]) by {
            if k < init.len() {
                assert(all[k] == init[k]);
            }
        }
    }
}

fn shared_windows(candidates: &Vec<AccountUsageCandidate>) -> (r: Option<ActiveUsageWindows>)
    ensures
        r == common_windows(candidates@),
{
    let mut any: bool = false;
    let mut shared: Option<ActiveUsageWindows> = None;
    let mut i: usize = 0;
    while i < candidates.len()
        invariant
            i <= candidates@.len(),
            any == (eligible_places(candidates@, i as int).len() > 0),
            !any ==> all_have_five_hour(candidates@, i as int) && all_have_weekly(
                candidates@,
                i as int,
            ),
            any ==> match shared {
                Some(w) => w.five() == all_have_five_hour(candidates@, i as int) && w.week()
                    == all_have_weekly(candidates@, i as int),
                None => !all_have_five_hour(candidates@, i as int) && !all_have_weekly(
                    candidates@,
                    i as int,
                ),
            },
        decreases candidates@.len() - i,
    {
        let candidate = &candidates[i];
        if validate_candidate(candidate.account, candidate.usage) {
            assert(eligible_at(candidates@, i as int));
            let available = ActiveUsageWindows::from_presence(
                usage::find_window(
                    &candidate.usage.primary,
                    &candidate.usage.secondary,
                    UsageWindowKind::FiveHour,
                ).is_some(),
                usage::find_window(
                    &candidate.usage.primary,
                    &candidate.usage.secondary,
                    UsageWindowKind::Weekly,
                ).is_some(),
            );
            shared =
            if any {
                match (shared, available) {
                    (Some(w), Some(a)) => w.intersection(a),
                    _ => None,
                }
            } else {
                available
            };
            any = true;
        } else {
            assert(!eligible_at(candidates@, i as int));
        }
        i = i + 1;
    }
    if any {
        shared
    } else {
        None
    }
}

pub fn evaluated_candidates<'a>(
    candidates: &Vec<AccountUsageCandidate<'a>>,
    weekly_units: &Vec<u64>,
    config: SelectionConfig,
) -> (r: Vec<EvaluatedCandidate<'a>>)
    requires
        weekly_units@.len() == candidates@.len(),
    ensures
        r@ == evaluations(candidates@, weekly_units@, config),
{
    let min_safe: u64 = normalized_min_safe_headroom(config.min_safe_headroom);
    let mut r: Vec<EvaluatedCandidate<'a>> = Vec::new();
    let active = match shared_windows(candidates) {
        Some(active) => active,
        None => {
            assert(r@ =~= evaluations(candidates@, weekly_units@, config));
            return r;
        },
    };
    let ghost f = |i: int|
        evaluation(candidates@[i], weekly_units@[i], active, min_safe, i as usize);
    let mut i: usize = 0;
    while i < candidates.len()
        invariant
            i <= candidates@.len(),
            weekly_units@.len() == candidates@.len(),
            common_windows(candidates@) == Some(active),
            min_safe == safe_headroom(config.min_safe_headroom),
            f == (|i: int|
                evaluation(candidates@[i], weekly_units@[i], active, min_safe, i as usize)),
            r@ == eligible_places(candidates@, i as int).map_values(f),
        decreases candidates@.len() - i,
    {
        let candidate = &candidates[i];
        if validate_candidate(candidate.account, candidate.usage) {
            proof {
                valid_usage_has_a_window(*candidate.usage);
                assert(eligible_at(candidates@, i as int));
            }
            let five_hour = evaluate_five_hour(candidate.usage, active);
            let weekly = evaluate_weekly(candidate.usage, active, weekly_units[i]);
            let ghost before = r@;
            let one = EvaluatedCandidate {
                account: candidate.account,
                five_hour,
                weekly,
                active_windows: active,
                is_zero_usage: zero_used(five_hour) && zero_used(weekly),
                metrics: compute_metrics(five_hour, weekly, min_safe),
                order: i,
            };
            assert(one == f(i as int));
            r.push(one);
            assert(eligible_places(candidates@, i as int + 1).map_values(f) =~= eligible_places(
                candidates@,
                i as int,
            ).map_values(f).push(f(i as int)));
        } else {
            assert(!eligible_at(candidates@, i as int));
        }
        i = i + 1;
    }
    assert(r@ =~= evaluations(candidates@, weekly_units@, config));
    r
}

// ---------------------------------------------------------------------------
// Ranks
// ---------------------------------------------------------------------------

/// A known reset comes before an unknown one, an early one before a late one.
pub open spec fn reset_rank(resets_at: Option<i64>) -> Seq<int> {
    match resets_at {
        Some(at) => seq![0, at as int],
        None => seq![1, 0],
    }
}

/// An account never used comes first, then the one used longest ago.
pub open spec fn last_used_rank(at: Option<Timestamp>) -> Seq<int> {
    match at {
        Some(t) => seq![1, t.millis as int, t.nanos as int],
        None => seq![0, 0, 0],
    }
}

/// More headroom comes first.
pub open spec fn headroom_rank(c: EvaluatedCandidate) -> Seq<int> {
    seq![-quantity::order_key(c.metrics.bottleneck_headroom)]
}

pub open spec fn tail_rank(c: EvaluatedCandidate) -> Seq<int> {
    last_used_rank(c.account.last_used_at) + seq![c.order as int]
}

/// Deadline-aware: an untouched account first where `cold_first` says so; then
/// safe accounts by their reset, so that quota about to come back is spent
/// first; then the others by what they have left.
pub open spec fn deadline_rank(c: EvaluatedCandidate, cold_first: bool) -> Seq<int> {
    if cold_first && c.is_zero_usage {
        seq![0int] + tail_rank(c)
    } else if c.metrics.safe_for_reset_priority {
        seq![1, 0] + reset_rank(c.metrics.bottleneck_resets_at) + headroom_rank(c) + tail_rank(c)
    } else {
        seq![1, 1] + headroom_rank(c) + reset_rank(c.metrics.bottleneck_resets_at) + tail_rank(c)
    }
}

/// By a score: safe accounts by score, then by headroom; the others the other
/// way round. Where `reset_first`, equal scores are told apart by their reset
/// before anything else.
pub open spec fn score_rank(c: EvaluatedCandidate, score: u64, reset_first: bool) -> Seq<int> {
    let scored = if reset_first {
        seq![quantity::order_key(score)] + reset_rank(c.metrics.bottleneck_resets_at)
    } else {
        seq![quantity::order_key(score)]
    };
    if c.metrics.safe_for_reset_priority {
        seq![0int] + scored + headroom_rank(c) + reset_rank(c.metrics.bottleneck_resets_at)
            + tail_rank(c)
    } else {
        seq![1int] + headroom_rank(c) + scored + reset_rank(c.metrics.bottleneck_resets_at)
            + tail_rank(c)
    }
}

fn push_reset(v: &mut Vec<i128>, resets_at: Option<i64>)
    ensures
        rank::ints(final(v)@) == rank::ints(old(v)@) + reset_rank(resets_at),
{
    let ghost before = v@;
    match resets_at {
        Some(at) => {
            v.push(0);
            v.push(at as i128);
        },
        None => {
            v.push(1);
            v.push(0);
        },
    }
    assert(rank::ints(v@) =~= rank::ints(before) + reset_rank(resets_at));
}

fn push_headroom(v: &mut Vec<i128>, c: &EvaluatedCandidate)
    ensures
        rank::ints(final(v)@) == rank::ints(old(v)@) + headroom_rank(*c),
{
    let ghost before = v@;
    v.push(-(quantity::key(c.metrics.bottleneck_headroom) as i128));
    assert(rank::ints(v@) =~= rank::ints(before) + headroom_rank(*c));
}

fn push_one(v: &mut Vec<i128>, x: i128)
    ensures
        rank::ints(final(v)@) == rank::ints(old(v)@) + seq![x as int],
{
    let ghost before = v@;
    v.push(x);
    assert(rank::ints(v@) =~= rank::ints(before) + seq![x as int]);
}

fn push_tail(v: &mut Vec<i128>, c: &EvaluatedCandidate)
    ensures
        rank::ints(final(v)@) == rank::ints(old(v)@) + tail_rank(*c),
{
    let ghost before = v@;
    match c.account.last_used_at {
        Some(t) => {
            v.push(1);
            v.push(t.millis as i128);
            v.push(t.nanos as i128);
        },
        None => {
            v.push(0);
            v.push(0);
            v.push(0);
        },
    }
    v.push(c.order as i128);
    assert(rank::ints(v@) =~= rank::ints(before) + tail_rank(*c));
}

fn rank_by_deadline(c: &EvaluatedCandidate, cold_first: bool) -> (r: Vec<i128>)
    ensures
        rank::ints(r@) == deadline_rank(*c, cold_first),
{
    let mut v: Vec<i128> = Vec::new();
    assert(rank::ints(v@) =~= Seq::<int>::empty());
    if cold_first && c.is_zero_usage {
        push_one(&mut v, 0);
    } else if c.metrics.safe_for_reset_priority {
        push_one(&mut v, 1);
        push_one(&mut v, 0);
        push_reset(&mut v, c.metrics.bottleneck_resets_at);
        push_headroom(&mut v, c);
    } else {
        push_one(&mut v, 1);
        push_one(&mut v, 1);
        push_headroom(&mut v, c);
        push_reset(&mut v, c.metrics.bottleneck_resets_at);
    }
    push_tail(&mut v, c);
    assert(rank::ints(v@) =~= deadline_rank(*c, cold_first));
    v
}

fn rank_by_score(c: &EvaluatedCandidate, score: u64, reset_first: bool) -> (r: Vec<i128>)
    ensures
        rank::ints(r@) == score_rank(*c, score, reset_first),
{
    let mut v: Vec<i128> = Vec::new();
    assert(rank::ints(v@) =~= Seq::<int>::empty());
    if c.metrics.safe_for_reset_priority {
        push_one(&mut v, 0);
        push_one(&mut v, quantity::key(score) as i128);
        if reset_first {
            push_reset(&mut v, c.metrics.bottleneck_resets_at);
        }
        push_headroom(&mut v, c);
    } else {
        push_one(&mut v, 1);
        push_headroom(&mut v, c);
        push_one(&mut v, quantity::key(score) as i128);
        if reset_first {
            push_reset(&mut v, c.metrics.bottleneck_resets_at);
        }
    }
    push_reset(&mut v, c.metrics.bottleneck_resets_at);
    push_tail(&mut v, c);
    assert(rank::ints(v@) =~= score_rank(*c, score, reset_first));
    v
}

// ---------------------------------------------------------------------------
// Starting untouched accounts
// ---------------------------------------------------------------------------

pub open spec fn candidate_has_id<'a>(id: Seq<char>) -> spec_fn(EvaluatedCandidate<'a>) -> bool {
    |c: EvaluatedCandidate<'a>| c.account.id@ == id
}

/// The current account began its five-hour window less than its share of the
/// window ago, the window being shared among `count` accounts.
pub open spec fn started_recently(c: EvaluatedCandidate, count: int, now: int) -> bool {
    match c.five_hour {
        Some(w) => match (w.resets_at, w.window_minutes) {
            (Some(resets_at), Some(minutes)) => {
                let length = minutes * 60;
                now - (resets_at - length) < length / count
            },
            _ => false,
        },
        None => false,
    }
}

/// Untouched accounts are preferred, but not while the current account has been
/// at work for less than its share of the window: that staggers the resets.
pub open spec fn prefers_cold(
    evaluated: Seq<EvaluatedCandidate>,
    current: Option<Seq<char>>,
    now: int,
) -> bool {
    match current {
        Some(id) => match search::first_of(evaluated, candidate_has_id(id)) {
            Some(c) => c.is_zero_usage || !started_recently(c, evaluated.len() as int, now),
            None => true,
        },
        None => true,
    }
}

fn find_candidate(evaluated: &Vec<EvaluatedCandidate>, id: &str) -> (r: Option<usize>)
    ensures
        match r {
            Some(i) => i < evaluated@.len() && search::first_index(
                evaluated@,
                candidate_has_id(id@),
            ) == Some(i as int),
            None => search::first_index(evaluated@, candidate_has_id(id@)) is None,
        },
{
    let ghost p = candidate_has_id(id@);
    let mut i: usize = 0;
    while i < evaluated.len()
        invariant
            i <= evaluated@.len(),
            p == candidate_has_id(id@),
            forall|j: int| 0 <= j < i ==> !p(#[trigger] evaluated@[j]),
        decreases evaluated@.len() - i,
    {
        if text::same(evaluated[i].account.id.as_str(), id) {
            proof {
                search::first_index_unique(evaluated@, p, i as int);
            }
            return Some(i);
        }
        i = i + 1;
    }
    proof {
        search::first_index_absent(evaluated@, p);
    }
    None
}

fn cold_is_preferred(
    evaluated: &Vec<EvaluatedCandidate>,
    context: SelectionContext<'_>,
) -> (r: bool)
    ensures
        r == prefers_cold(
            evaluated@,
            accounts::str_view(context.current_account_id),
            context.now as int,
        ),
{
    let id = match context.current_account_id {
        Some(id) => id,
        None => return true,
    };
    let i: usize = match find_candidate(evaluated, id) {
        Some(i) => i,
        None => return true,
    };
    let c = &evaluated[i];
    if c.is_zero_usage {
        return true;
    }
    match c.five_hour {
        Some(w) => match (w.resets_at, w.window_minutes) {
            (Some(resets_at), Some(minutes)) => {
                let length: i128 = (minutes as i128) * 60;
                let age: i128 = (context.now as i128) - ((resets_at as i128) - length);
                let count: i128 = evaluated.len() as i128;
                if length >= 0 {
                    !(age < length / count)
                } else {
                    let q: i128 = euclid_negative(length, count);
                    !(age < q)
                }
            },
            _ => true,
        },
        None => true,
    }
}

fn euclid_negative(a: i128, b: i128) -> (r: i128)
    requires
        -0x1_0000_0000_0000_0000_0000 <= a < 0,
        0 < b,
    ensures
        r as int == (a as int) / (b as int),
{
    let k: i128 = (-(a + 1)) / b;
    proof {
        let x = a as int;
        let y = b as int;
        let m = (-(x + 1)) / y;
        vstd::arithmetic::div_mod::lemma_fundamental_div_mod(-(x + 1), y);
        let rest = (-(x + 1)) % y;
        assert(x == y * (-m - 1) + (y - 1 - rest)) by (nonlinear_arith)
            requires
                -(x + 1) == y * m + rest,
        ;
        vstd::arithmetic::div_mod::lemma_fundamental_div_mod_converse(x, y, -m - 1, y - 1 - rest);
    }
    -k - 1
}

// ---------------------------------------------------------------------------
// Policies
// ---------------------------------------------------------------------------

/// A policy's floating-point score of a candidate; the smaller is the better.
#[derive(Debug, Clone, Copy, PartialEq, Eq, Structural)]
pub struct Score {
    pub value: u64,
    /// The score plus the margin by which another account must be better.
    pub with_margin: u64,
}

pub open spec fn is_cold_with_id<'a>(id: Seq<char>) -> spec_fn(EvaluatedCandidate<'a>) -> bool {
    |c: EvaluatedCandidate<'a>| c.account.id@ == id && c.is_zero_usage
}

pub open spec fn deadline_ranks(evaluated: Seq<EvaluatedCandidate>, cold_first: bool) -> Seq<
    Seq<int>,
> {
    evaluated.map_values(|c: EvaluatedCandidate| deadline_rank(c, cold_first))
}

pub open spec fn score_ranks(
    evaluated: Seq<EvaluatedCandidate>,
    scores: Seq<Score>,
    reset_first: bool,
) -> Seq<Seq<int>> {
    evaluated.map_values(
        |c: EvaluatedCandidate| score_rank(c, scores[c.order as int].value, reset_first),
    )
}

/// The current account stays while it is untouched; otherwise the least rank wins.
pub open spec fn is_deadline_choice(
    evaluated: Seq<EvaluatedCandidate>,
    current: Option<Seq<char>>,
    now: int,
    i: int,
) -> bool {
    let kept = match current {
        Some(id) => search::first_index(evaluated, is_cold_with_id(id)),
        None => None,
    };
    match kept {
        Some(k) => i == k,
        None => rank::is_first_least(
            deadline_ranks(evaluated, prefers_cold(evaluated, current, now)),
            i,
        ),
    }
}

/// The least score rank wins, but the current account stays where it is the
/// winner, or is safe and less than the margin behind the winner.
pub open spec fn is_hysteresis_choice(
    evaluated: Seq<EvaluatedCandidate>,
    scores: Seq<Score>,
    current: Option<Seq<char>>,
    i: int,
) -> bool {
    exists|best: int|
        {
            &&& #[trigger] rank::is_first_least(score_ranks(evaluated, scores, false), best)
            &&& match current {
                Some(id) => match search::first_index(evaluated, candidate_has_id(id)) {
                    Some(k) => if stays(evaluated[k], evaluated[best], scores) {
                        i == k
                    } else {
                        i == best
                    },
                    None => i == best,
                },
                None => i == best,
            }
        }
}

pub open spec fn stays(
    current: EvaluatedCandidate,
    best: EvaluatedCandidate,
    scores: Seq<Score>,
) -> bool {
    ||| current.account.id@ == best.account.id@
    ||| {
        &&& current.metrics.safe_for_reset_priority
        &&& quantity::at_least(
            scores[best.order as int].with_margin,
            scores[current.order as int].value,
        )
    }
}

/// What the policy of the given kind chooses among the evaluated candidates.
pub open spec fn is_choice(
    evaluated: Seq<EvaluatedCandidate>,
    scores: Seq<Score>,
    kind: SelectionPolicyKind,
    current: Option<Seq<char>>,
    now: int,
    i: int,
) -> bool {
    match kind {
        SelectionPolicyKind::DeadlineAware => is_deadline_choice(evaluated, current, now, i),
        SelectionPolicyKind::ShadowPrice => rank::is_first_least(
            score_ranks(evaluated, scores, true),
            i,
        ),
        SelectionPolicyKind::ResetWeightedMinimax => rank::is_first_least(
            score_ranks(evaluated, scores, true),
            i,
        ),
        SelectionPolicyKind::DemandAwareHysteresis => is_hysteresis_choice(
            evaluated,
            scores,
            current,
            i,
        ),
    }
}

fn choose_by_deadline(
    evaluated: &Vec<EvaluatedCandidate>,
    context: SelectionContext<'_>,
) -> (r: Option<usize>)
    ensures
        match r {
            Some(i) => i < evaluated@.len() && is_deadline_choice(
                evaluated@,
                accounts::str_view(context.current_account_id),
                context.now as int,
                i as int,
            ),
            None => evaluated@.len() == 0,
        },
{
    if let Some(id) = context.current_account_id {
        let ghost p = is_cold_with_id(id@);
        let mut i: usize = 0;
        while i < evaluated.len()
            invariant
                i <= evaluated@.len(),
                p == is_cold_with_id(id@),
                context.current_account_id == Some(id),
                forall|j: int| 0 <= j < i ==> !p(#[trigger] evaluated@[j]),
            decreases evaluated@.len() - i,
        {
            if text::same(evaluated[i].account.id.as_str(), id) && evaluated[i].is_zero_usage {
                proof {
                    search::first_index_unique(evaluated@, p, i as int);
                }
                return Some(i);
            }
            i = i + 1;
        }
        proof {
            search::first_index_absent(evaluated@, p);
        }
    }
    let cold_first: bool = cold_is_preferred(evaluated, context);
    let ghost f = |c: EvaluatedCandidate| deadline_rank(c, cold_first);
    let mut ranks: Vec<Vec<i128>> = Vec::new();
    let mut i: usize = 0;
    assert(rank::all_ints(ranks@) =~= evaluated@.take(0).map_values(f));
    while i < evaluated.len()
        invariant
            i <= evaluated@.len(),
            f == (|c: EvaluatedCandidate| deadline_rank(c, cold_first)),
            rank::all_ints(ranks@) == evaluated@.take(i as int).map_values(f),
        decreases evaluated@.len() - i,
    {
        let ghost before = ranks@;
        let one = rank_by_deadline(&evaluated[i], cold_first);
        let ghost as_ints = rank::ints(one@);
        ranks.push(one);
        assert(rank::all_ints(ranks@) =~= rank::all_ints(before).push(as_ints));
        assert(evaluated@.take(i as int + 1).map_values(f) =~= evaluated@.take(
            i as int,
        ).map_values(f).push(f(evaluated@[i as int])));
        i = i + 1;
    }
    assert(evaluated@.take(i as int) =~= evaluated@);
    assert(evaluated@.map_values(f) =~= deadline_ranks(evaluated@, cold_first));
    let r = rank::first_least(&ranks);
    assert(ranks@.len() == evaluated@.len()) by {
        assert(rank::all_ints(ranks@).len() == ranks@.len());
    }
    r
}

fn choose_by_score(
    evaluated: &Vec<EvaluatedCandidate>,
    scores: &Vec<Score>,
    reset_first: bool,
) -> (r: Option<usize>)
    requires
        forall|i: int| 0 <= i < evaluated@.len() ==> (#[trigger] evaluated@[i]).order < scores@.len(),
    ensures
        match r {
            Some(i) => i < evaluated@.len() && rank::is_first_least(
                score_ranks(evaluated@, scores@, reset_first),
                i as int,
            ),
            None => evaluated@.len() == 0,
        },
{
    let ghost f = |c: EvaluatedCandidate|
        score_rank(c, scores@[c.order as int].value, reset_first);
    let mut ranks: Vec<Vec<i128>> = Vec::new();
    let mut i: usize = 0;
    assert(rank::all_ints(ranks@) =~= evaluated@.take(0).map_values(f));
    while i < evaluated.len()
        invariant
            i <= evaluated@.len(),
            forall|i: int|
                0 <= i < evaluated@.len() ==> (#[trigger] evaluated@[i]).order < scores@.len(),
            f == (|c: EvaluatedCandidate|
                score_rank(c, scores@[c.order as int].value, reset_first)),
            rank::all_ints(ranks@) == evaluated@.take(i as int).map_values(f),
        decreases evaluated@.len() - i,
    {
        let ghost before = ranks@;
        let order: usize = evaluated[i].order;
        let one = rank_by_score(&evaluated[i], scores[order].value, reset_first);
        let ghost as_ints = rank::ints(one@);
        ranks.push(one);
        assert(rank::all_ints(ranks@) =~= rank::all_ints(before).push(as_ints));
        assert(evaluated@.take(i as int + 1).map_values(f) =~= evaluated@.take(
            i as int,
        ).map_values(f).push(f(evaluated@[i as int])));
        i = i + 1;
    }
    assert(evaluated@.take(i as int) =~= evaluated@);
    assert(evaluated@.map_values(f) =~= score_ranks(evaluated@, scores@, reset_first));
    let r = rank::first_least(&ranks);
    assert(ranks@.len() == evaluated@.len()) by {
        assert(rank::all_ints(ranks@).len() == ranks@.len());
    }
    r
}

fn choose_with_hysteresis(
    evaluated: &Vec<EvaluatedCandidate>,
    scores: &Vec<Score>,
    context: SelectionContext<'_>,
) -> (r: Option<usize>)
    requires
        forall|i: int| 0 <= i < evaluated@.len() ==> (#[trigger] evaluated@[i]).order < scores@.len(),
    ensures
        match r {
            Some(i) => i < evaluated@.len() && is_hysteresis_choice(
                evaluated@,
                scores@,
                accounts::str_view(context.current_account_id),
                i as int,
            ),
            None => evaluated@.len() == 0,
        },
{
    let best: usize = match choose_by_score(evaluated, scores, false) {
        Some(best) => best,
        None => return None,
    };
    assert(rank::is_first_least(score_ranks(evaluated@, scores@, false), best as int));
    let id = match context.current_account_id {
        Some(id) => id,
        None => return Some(best),
    };
    let k: usize = match find_candidate(evaluated, id) {
        Some(k) => k,
        None => return Some(best),
    };
    let current = &evaluated[k];
    let winner = &evaluated[best];
    let keep: bool = text::same(current.account.id.as_str(), winner.account.id.as_str()) || (
    current.metrics.safe_for_reset_priority && quantity::reaches(
        scores[winner.order].with_margin,
        scores[current.order].value,
    ));
    if keep {
        Some(k)
    } else {
        Some(best)
    }
}

pub open spec fn is_selection(
    selection: AccountSelection,
    chosen: EvaluatedCandidate,
) -> bool {
    selection.account == chosen.account && selection.metrics == chosen.metrics
}

/// The selection is that of the one candidate which the policy chooses.
pub open spec fn selects(
    evaluated: Seq<EvaluatedCandidate>,
    scores: Seq<Score>,
    kind: SelectionPolicyKind,
    current: Option<Seq<char>>,
    now: int,
    selection: AccountSelection,
) -> bool {
    exists|i: int|
        {
            &&& 0 <= i < evaluated.len()
            &&& #[trigger] is_choice(evaluated, scores, kind, current, now, i)
            &&& is_selection(selection, evaluated[i])
        }
}

/// The account that the configured policy chooses. Scores stand at the places
/// of the candidates; the deadline-aware policy takes none into account.
pub fn select_account_with_context<'a>(
    candidates: &Vec<AccountUsageCandidate<'a>>,
    weekly_units: &Vec<u64>,
    scores: &Vec<Score>,
    config: SelectionConfig,
    context: SelectionContext<'_>,
) -> (r: Option<AccountSelection<'a>>)
    requires
        weekly_units@.len() == candidates@.len(),
        scores@.len() == candidates@.len(),
    ensures
        match r {
            Some(selection) => selects(
                evaluations(candidates@, weekly_units@, config),
                scores@,
                config.policy,
                accounts::str_view(context.current_account_id),
                context.now as int,
                selection,
            ),
            None => evaluations(candidates@, weekly_units@, config).len() == 0,
        },
{
    let count: usize = candidates.len();
    let evaluated = evaluated_candidates(candidates, weekly_units, config);
    proof {
        assert(candidates@.len() == count);
        evaluations_keep_places(candidates@, weekly_units@, config);
    }
    let chosen: Option<usize> = match config.policy {
        SelectionPolicyKind::DeadlineAware => choose_by_deadline(&evaluated, context),
        SelectionPolicyKind::ShadowPrice => choose_by_score(&evaluated, scores, true),
        SelectionPolicyKind::ResetWeightedMinimax => choose_by_score(&evaluated, scores, true),
        SelectionPolicyKind::DemandAwareHysteresis => choose_with_hysteresis(
            &evaluated,
            scores,
            context,
        ),
    };
    match chosen {
        Some(i) => {
            let selection = AccountSelection {
                account: evaluated[i].account,
                metrics: evaluated[i].metrics,
            };
            assert(is_choice(
                evaluated@,
                scores@,
                config.policy,
                accounts::str_view(context.current_account_id),
                context.now as int,
                i as int,
            ));
            Some(selection)
        },
        None => None,
    }
}

/// The account that the default policy chooses at this moment, with no
/// account current.
pub fn select_account<'a>(
    candidates: &Vec<AccountUsageCandidate<'a>>,
    weekly_units: &Vec<u64>,
    scores: &Vec<Score>,
    config: SelectionConfig,
) -> (r: Option<AccountSelection<'a>>)
    requires
        weekly_units@.len() == candidates@.len(),
        scores@.len() == candidates@.len(),
    ensures
        match r {
            Some(selection) => exists|now: i64| #[trigger]
                clock_shows(now) && selects(
                    evaluations(candidates@, weekly_units@, config),
                    scores@,
                    config.policy,
                    None,
                    now as int,
                    selection,
                ),
            None => evaluations(candidates@, weekly_units@, config).len() == 0,
        },
{
    let context = SelectionContext::now();
    select_account_with_context(candidates, weekly_units, scores, config, context)
}

/// Every evaluation is that of an eligible candidate and remembers its place.
pub proof fn evaluations_keep_places(
    candidates: Seq<AccountUsageCandidate>,
    weekly_units: Seq<u64>,
    config: SelectionConfig,
)
    requires
        candidates.len() <= usize::MAX,
    ensures
        forall|k: int|
            #![trigger evaluations(candidates, weekly_units, config)[k]]
            0 <= k < evaluations(candidates, weekly_units, config).len() ==> {
                let e = evaluations(candidates, weekly_units, config)[k];
                &&& e.order < candidates.len()
                &&& e.account == candidates[e.order as int].account
                &&& eligible_at(candidates, e.order as int)
            },
{
    eligible_places_are_eligible(candidates, candidates.len() as int);
}

/// Whatever the policy, the account chosen is one of the candidates, is enabled
/// for automatic switching, is logged in with ChatGPT, and has usage left.
pub proof fn chosen_account_is_eligible(
    candidates: Seq<AccountUsageCandidate>,
    weekly_units: Seq<u64>,
    config: SelectionConfig,
    i: int,
)
    requires
        candidates.len() <= usize::MAX,
        0 <= i < evaluations(candidates, weekly_units, config).len(),
    ensures
        exists|k: int|
            0 <= k < candidates.len() && #[trigger] eligible_at(candidates, k)
                && evaluations(candidates, weekly_units, config)[i].account
                == candidates[k].account,
{
    evaluations_keep_places(candidates, weekly_units, config);
    let e = evaluations(candidates, weekly_units, config)[i];
    assert(eligible_at(candidates, e.order as int));
}

/// An account is chosen exactly where some candidate is eligible and all
/// eligible ones share a window.
pub proof fn something_is_chosen_where_windows_are_shared(
    candidates: Seq<AccountUsageCandidate>,
    weekly_units: Seq<u64>,
    config: SelectionConfig,
)
    ensures
        evaluations(candidates, weekly_units, config).len() > 0 <==> {
            let n = candidates.len() as int;
            &&& exists|i: int| 0 <= i < n && #[trigger] eligible_at(candidates, i)
            &&& all_have_five_hour(candidates, n) || all_have_weekly(candidates, n)
        },
{
    eligible_places_empty(candidates, candidates.len() as int);
}

proof fn eligible_places_empty(candidates: Seq<AccountUsageCandidate>, n: int)
    requires
        0 <= n <= candidates.len(),
    ensures
        eligible_places(candidates, n).len() > 0 <==> exists|i: int|
            0 <= i < n && #[trigger] eligible_at(candidates, i),
    decreases n,
{
    if n > 0 {
        eligible_places_empty(candidates, n - 1);
        if eligible_at(candidates, n - 1) {
        } else if eligible_places(candidates, n - 1).len() > 0 {
            let i = choose|i: int| 0 <= i < n - 1 && #[trigger] eligible_at(candidates, i);
            assert(0 <= i < n && eligible_at(candidates, i));
        }
    }
}

/// A policy's choice is determined: two positions that both count as its
/// choice are the same.
pub proof fn choice_is_unique(
    evaluated: Seq<EvaluatedCandidate>,
    scores: Seq<Score>,
    kind: SelectionPolicyKind,
    current: Option<Seq<char>>,
    now: int,
    i: int,
    j: int,
)
    requires
        is_choice(evaluated, scores, kind, current, now, i),
        is_choice(evaluated, scores, kind, current, now, j),
    ensures
        i == j,
{
    match kind {
        SelectionPolicyKind::DeadlineAware => {
            let ranks = deadline_ranks(evaluated, prefers_cold(evaluated, current, now));
            if rank::is_first_least(ranks, i) && rank::is_first_least(ranks, j) {
                rank::first_least_is_unique(ranks, i, j);
            }
        },
        SelectionPolicyKind::ShadowPrice => {
            rank::first_least_is_unique(score_ranks(evaluated, scores, true), i, j);
        },
        SelectionPolicyKind::ResetWeightedMinimax => {
            rank::first_least_is_unique(score_ranks(evaluated, scores, true), i, j);
        },
        SelectionPolicyKind::DemandAwareHysteresis => {
            let ranks = score_ranks(evaluated, scores, false);
            assert forall|a: int, b: int|
                #[trigger] rank::is_first_least(ranks, a) && #[trigger] rank::is_first_least(
                    ranks,
                    b,
                ) implies a == b by {
                rank::first_least_is_unique(ranks, a, b);
            }
        },
    }
}

// ---------------------------------------------------------------------------
// Reset delays
// ---------------------------------------------------------------------------

/// The seconds until a reset and the length of its window in seconds.
pub open spec fn reset_progress(
    resets_at: Option<i64>,
    window_minutes: Option<i64>,
    now: i64,
) -> Option<(int, int)> {
    match (resets_at, window_minutes) {
        (Some(at), Some(minutes)) => if minutes > 0 && minutes * 60 <= i64::MAX {
            let delay = at - now;
            let bounded = if delay > i64::MAX {
                i64::MAX as int
            } else if delay < 0 {
                0
            } else {
                delay
            };
            Some((bounded, minutes * 60))
        } else {
            None
        },
        _ => None,
    }
}

/// How far a reset is away, and out of how much; nothing where that is unknown.
/// The two numbers divided are the part of the window that is still ahead.
pub fn reset_delay(
    resets_at: Option<i64>,
    window_minutes: Option<i64>,
    now: i64,
) -> (r: Option<(i64, i64)>)
    ensures
        match r {
            Some(p) => reset_progress(resets_at, window_minutes, now) == Some(
                (p.0 as int, p.1 as int),
            ) && p.0 >= 0 && p.1 > 0,
            None => reset_progress(resets_at, window_minutes, now) is None,
        },
{
    match (resets_at, window_minutes) {
        (Some(at), Some(minutes)) => {
            if minutes <= 0 {
                return None;
            }
            match minutes.checked_mul(60) {
                Some(seconds) => {
                    let delay: i128 = (at as i128) - (now as i128);
                    let bounded: i64 = if delay > 0x7FFF_FFFF_FFFF_FFFF {
                        0x7FFF_FFFF_FFFF_FFFF
                    } else if delay < 0 {
                        0
                    } else {
                        delay as i64
                    };
                    Some((bounded, seconds))
                },
                None => None,
            }
        },
        _ => None,
    }
}

// ---------------------------------------------------------------------------
// What the choice goes by
// ---------------------------------------------------------------------------

/// A window is the five-hour one, or the weekly one, by its length alone; the
/// primary window comes before the secondary one.
pub proof fn windows_go_by_length(info: UsageInfo)
    ensures
        five_hour_of(info) == if info.primary.window_minutes == Some(300i64) {
            Some(info.primary)
        } else if info.secondary.window_minutes == Some(300i64) {
            Some(info.secondary)
        } else {
            None
        },
        weekly_of(info) == if info.primary.window_minutes == Some(10_080i64) {
            Some(info.primary)
        } else if info.secondary.window_minutes == Some(10_080i64) {
            Some(info.secondary)
        } else {
            None
        },
{
}

/// The window that has the least left, in common units, is the one that an account
/// is limited by: its headroom and its reset are those of that very window.
pub proof fn the_tightest_window_limits(
    five_hour: Option<EvaluatedWindow>,
    weekly: Option<EvaluatedWindow>,
    min_safe: u64,
)
    ensures
        ({
            let m = metrics_of(five_hour, weekly, min_safe);
            &&& five_hour is Some && weekly is Some && quantity::greater(
                five_hour->Some_0.headroom_units,
                weekly->Some_0.headroom_units,
            ) ==> m.bottleneck == UsageWindow::Weekly && m.bottleneck_headroom
                == weekly->Some_0.headroom_units && m.bottleneck_resets_at
                == weekly->Some_0.resets_at
            &&& five_hour is Some && weekly is Some && quantity::at_least(
                weekly->Some_0.headroom_units,
                five_hour->Some_0.headroom_units,
            ) ==> m.bottleneck == UsageWindow::FiveHour && m.bottleneck_headroom
                == five_hour->Some_0.headroom_units && m.bottleneck_resets_at
                == five_hour->Some_0.resets_at
            &&& five_hour is Some && weekly is None ==> m.bottleneck == UsageWindow::FiveHour
                && m.bottleneck_headroom == five_hour->Some_0.headroom_units
                && m.bottleneck_resets_at == five_hour->Some_0.resets_at
            &&& five_hour is None && weekly is Some ==> m.bottleneck == UsageWindow::Weekly
                && m.bottleneck_headroom == weekly->Some_0.headroom_units
                && m.bottleneck_resets_at == weekly->Some_0.resets_at
            &&& m.safe_for_reset_priority <==> quantity::at_least(m.bottleneck_headroom, min_safe)
            &&& five_hour matches Some(f) ==> m.five_hour_headroom == Some(f.headroom)
                && m.five_hour_headroom_units == Some(f.headroom_units)
            &&& weekly matches Some(w) ==> m.weekly_headroom == Some(w.headroom)
                && m.weekly_headroom_units == Some(w.headroom_units)
        }),
{
}

/// An evaluation shows what the report says: each window that is looked at with
/// what it reports, the weekly one weighed in five-hour units, and whether nothing
/// at all is used.
pub proof fn evaluations_show_the_report<'a>(
    candidate: AccountUsageCandidate<'a>,
    weekly_units: u64,
    active: ActiveUsageWindows,
    min_safe: u64,
    order: usize,
)
    requires
        usage_is_valid(*candidate.usage),
    ensures
        ({
            let e = evaluation(candidate, weekly_units, active, min_safe, order);
            let five = five_hour_of(*candidate.usage);
            let week = weekly_of(*candidate.usage);
            &&& e.account == candidate.account
            &&& e.order == order
            &&& e.five_hour is Some <==> five is Some && active != ActiveUsageWindows::Weekly
            &&& e.weekly is Some <==> week is Some && active != ActiveUsageWindows::FiveHour
            &&& e.five_hour matches Some(w) ==> {
                &&& w.used == five->Some_0.used_percent->Some_0.bits
                &&& w.headroom == five->Some_0.used_percent->Some_0.headroom
                &&& w.headroom_units == w.headroom
                &&& w.window_minutes == Some(300i64)
                &&& w.resets_at == five->Some_0.resets_at
            }
            &&& e.weekly matches Some(w) ==> {
                &&& w.used == week->Some_0.used_percent->Some_0.bits
                &&& w.headroom == week->Some_0.used_percent->Some_0.headroom
                &&& w.headroom_units == weekly_units
                &&& w.window_minutes == Some(10_080i64)
                &&& w.resets_at == week->Some_0.resets_at
            }
            &&& e.is_zero_usage <==> {
                &&& e.five_hour matches Some(w) ==> quantity::at_least(quantity::ZERO, w.used)
                &&& e.weekly matches Some(w) ==> quantity::at_least(quantity::ZERO, w.used)
            }
        }),
{
}

/// Accounts are compared like with like: a window counts for one of them exactly
/// where every eligible account has it.
pub proof fn like_is_compared_with_like(
    candidates: Seq<AccountUsageCandidate>,
    weekly_units: Seq<u64>,
    config: SelectionConfig,
    k: int,
)
    requires
        candidates.len() <= usize::MAX,
        0 <= k < evaluations(candidates, weekly_units, config).len(),
    ensures
        ({
            let e = evaluations(candidates, weekly_units, config)[k];
            let at = e.order as int;
            &&& e.five_hour is Some <==> all_have_five_hour(candidates, candidates.len() as int)
            &&& e.weekly is Some <==> all_have_weekly(candidates, candidates.len() as int)
            &&& e.five_hour matches Some(w) ==> w.resets_at == five_hour_of(
                *candidates[at].usage,
            )->Some_0.resets_at
            &&& e.weekly matches Some(w) ==> w.resets_at == weekly_of(
                *candidates[at].usage,
            )->Some_0.resets_at && w.headroom_units == weekly_units[at]
        }),
{
    evaluations_keep_places(candidates, weekly_units, config);
    eligible_places_are_eligible(candidates, candidates.len() as int);
    let i = eligible_places(candidates, candidates.len() as int)[k];
    assert(eligible_at(candidates, i));
}

/// An account that is eligible is enabled, logs in with ChatGPT, has a report
/// without an error or a reached limit, and stands below one hundred percent in
/// every window that the report has.
pub proof fn eligible_accounts_have_room(account: StoredAccount, info: UsageInfo)
    requires
        is_eligible(account, info),
    ensures
        !account.auto_switch_disabled,
        account.is_chatgpt(),
        info.error is None,
        info.rate_limit_reached_type is None,
        info.primary.used_percent is Some || info.secondary.used_percent is Some,
        info.primary.used_percent matches Some(u) ==> quantity::is_finite(u.bits)
            && quantity::greater(quantity::HUNDRED, u.bits),
        info.secondary.used_percent matches Some(u) ==> quantity::is_finite(u.bits)
            && quantity::greater(quantity::HUNDRED, u.bits),
{
}

/// An enabled ChatGPT account whose report is in order is eligible: each window is
/// a five-hour or a weekly one, no two are of a kind, and each is below one hundred
/// percent.
pub proof fn accounts_with_room_are_eligible(account: StoredAccount, info: UsageInfo)
    requires
        !account.auto_switch_disabled,
        account.is_chatgpt(),
        info.error is None,
        info.rate_limit_reached_type is None,
        info.primary.window_minutes == Some(300i64),
        info.primary.used_percent is Some,
        quantity::is_finite(info.primary.used_percent->Some_0.bits),
        quantity::greater(quantity::HUNDRED, info.primary.used_percent->Some_0.bits),
        info.secondary.window_minutes == Some(10_080i64),
        info.secondary.used_percent is Some,
        quantity::is_finite(info.secondary.used_percent->Some_0.bits),
        quantity::greater(quantity::HUNDRED, info.secondary.used_percent->Some_0.bits),
    ensures
        is_eligible(account, info),
{
}

/// What counts as safe is between 0 and 100: the configured headroom where it lies
/// there, the nearer bound where it does not, and 5 where it is no finite number.
/// A ratio is a positive finite number, 4 where none is configured.
pub proof fn settings_are_made_sound(value: u64)
    ensures
        quantity::at_least(safe_headroom(value), quantity::ZERO),
        quantity::at_least(quantity::HUNDRED, safe_headroom(value)),
        quantity::at_least(value, quantity::ZERO) && quantity::at_least(quantity::HUNDRED, value)
            ==> safe_headroom(value) == value,
        !quantity::is_finite(value) ==> safe_headroom(value) == quantity::FIVE,
        quantity::is_finite(value) && quantity::greater(quantity::ZERO, value) ==> safe_headroom(
            value,
        ) == quantity::ZERO,
        quantity::is_finite(value) && quantity::greater(value, quantity::HUNDRED) ==> safe_headroom(
            value,
        ) == quantity::HUNDRED,
        quantity::is_finite(safe_ratio(value)),
        quantity::greater(safe_ratio(value), quantity::ZERO),
        quantity::is_finite(value) && quantity::greater(value, quantity::ZERO) ==> safe_ratio(value)
            == value,
        !(quantity::is_finite(value) && quantity::greater(value, quantity::ZERO)) ==> safe_ratio(
            value,
        ) == quantity::FOUR,
{
}

/// An untouched account is preferred unless the current one is still within its
/// share of the five-hour window: that began one window's length before the reset,
/// and the share is the length divided among the accounts.
pub proof fn untouched_accounts_wait_for_their_share(
    evaluated: Seq<EvaluatedCandidate>,
    id: Seq<char>,
    now: int,
    k: int,
)
    requires
        0 <= k < evaluated.len(),
        evaluated[k].account.id@ == id,
        forall|j: int| 0 <= j < k ==> (#[trigger] evaluated[j]).account.id@ != id,
        !evaluated[k].is_zero_usage,
        evaluated[k].five_hour is Some,
        evaluated[k].five_hour->Some_0.resets_at is Some,
        evaluated[k].five_hour->Some_0.window_minutes is Some,
    ensures
        ({
            let length = evaluated[k].five_hour->Some_0.window_minutes->Some_0 * 60;
            let began = evaluated[k].five_hour->Some_0.resets_at->Some_0 - length;
            prefers_cold(evaluated, Some(id), now) <==> (now - began + 1) * evaluated.len() > length
        }),
{
    search::first_index_unique(evaluated, candidate_has_id(id), k);
    let length = evaluated[k].five_hour->Some_0.window_minutes->Some_0 * 60;
    let age = now - (evaluated[k].five_hour->Some_0.resets_at->Some_0 - length);
    let count = evaluated.len() as int;
    vstd::arithmetic::div_mod::lemma_fundamental_div_mod(length, count);
    let share = length / count;
    let rest = length % count;
    assert(length == count * share + rest && 0 <= rest < count);
    assert((age < share) == ((age + 1) * count <= length)) by (nonlinear_arith)
        requires
            length == count * share + rest,
            0 <= rest < count,
    ;
}

/// Nothing keeps an untouched account waiting where no account is current, where
/// the current one is none of those compared, where it is untouched itself, or
/// where its reset is unknown.
pub proof fn untouched_accounts_need_not_wait(
    evaluated: Seq<EvaluatedCandidate>,
    current: Option<Seq<char>>,
    now: int,
)
    ensures
        current is None ==> prefers_cold(evaluated, current, now),
        (forall|j: int| 0 <= j < evaluated.len() ==> Some((#[trigger] evaluated[j]).account.id@)
            != current) ==> prefers_cold(evaluated, current, now),
        (forall|j: int|
            0 <= j < evaluated.len() && Some((#[trigger] evaluated[j]).account.id@) == current ==> (
            evaluated[j].is_zero_usage || evaluated[j].five_hour is None
                || evaluated[j].five_hour->Some_0.resets_at is None)) ==> prefers_cold(
            evaluated,
            current,
            now,
        ),
{
    if current is Some {
        search::first_index_is_first(evaluated, candidate_has_id(current->Some_0));
    }
}

proof fn deadline_ranks_at(evaluated: Seq<EvaluatedCandidate>, cold_first: bool, i: int, j: int)
    requires
        rank::is_first_least(deadline_ranks(evaluated, cold_first), i),
        0 <= j < evaluated.len(),
    ensures
        !rank::precedes(
            deadline_rank(evaluated[j], cold_first),
            deadline_rank(evaluated[i], cold_first),
        ),
{
    rank::nothing_precedes_the_least(deadline_ranks(evaluated, cold_first), i, j);
}

/// One reset comes before another: it is known, and earlier or the other is not.
pub open spec fn resets_before(a: Option<i64>, b: Option<i64>) -> bool {
    a matches Some(x) && (b matches Some(y) ==> x < y)
}

/// The current account stays as long as it is untouched.
pub proof fn an_untouched_current_account_stays(
    evaluated: Seq<EvaluatedCandidate>,
    id: Seq<char>,
    now: int,
    i: int,
    k: int,
)
    requires
        is_deadline_choice(evaluated, Some(id), now, i),
        0 <= k < evaluated.len(),
        evaluated[k].account.id@ == id,
        evaluated[k].is_zero_usage,
    ensures
        0 <= i < evaluated.len(),
        evaluated[i].account.id@ == id,
        evaluated[i].is_zero_usage,
{
    search::first_index_is_first(evaluated, is_cold_with_id(id));
    assert(is_cold_with_id(id)(evaluated[k]));
}

/// What the deadline-aware choice `i` has over any other account `j`, where the
/// current account is not an untouched one that stays. An untouched account is
/// taken where they are preferred; otherwise a safe account is, the one whose
/// limiting window resets first, and of those the one with more left; where none
/// is safe, the one with the most left.
pub proof fn the_deadline_aware_choice(
    evaluated: Seq<EvaluatedCandidate>,
    current: Option<Seq<char>>,
    now: int,
    i: int,
    j: int,
)
    requires
        is_deadline_choice(evaluated, current, now, i),
        0 <= j < evaluated.len(),
        forall|k: int|
            0 <= k < evaluated.len() && (#[trigger] evaluated[k]).is_zero_usage ==> Some(
                evaluated[k].account.id@,
            ) != current,
    ensures
        0 <= i < evaluated.len(),
        ({
            let a = evaluated[i];
            let b = evaluated[j];
            let cold = prefers_cold(evaluated, current, now);
            &&& cold && b.is_zero_usage ==> a.is_zero_usage
            &&& !(cold && a.is_zero_usage) ==> {
                &&& b.metrics.safe_for_reset_priority ==> a.metrics.safe_for_reset_priority
                &&& b.metrics.safe_for_reset_priority ==> !resets_before(
                    b.metrics.bottleneck_resets_at,
                    a.metrics.bottleneck_resets_at,
                )
                &&& b.metrics.safe_for_reset_priority && b.metrics.bottleneck_resets_at
                    == a.metrics.bottleneck_resets_at ==> quantity::order_key(
                    a.metrics.bottleneck_headroom,
                ) >= quantity::order_key(b.metrics.bottleneck_headroom)
                &&& !a.metrics.safe_for_reset_priority ==> quantity::order_key(
                    a.metrics.bottleneck_headroom,
                ) >= quantity::order_key(b.metrics.bottleneck_headroom)
                &&& !a.metrics.safe_for_reset_priority && a.metrics.bottleneck_headroom
                    == b.metrics.bottleneck_headroom ==> !resets_before(
                    b.metrics.bottleneck_resets_at,
                    a.metrics.bottleneck_resets_at,
                )
            }
        }),
{
    let cold = prefers_cold(evaluated, current, now);
    if current is Some {
        let p = is_cold_with_id(current->Some_0);
        search::first_index_absent(evaluated, p);
    }
    deadline_ranks_at(evaluated, cold, i, j);
    let a = evaluated[i];
    let b = evaluated[j];
    let x = deadline_rank(b, cold);
    let y = deadline_rank(a, cold);
    if x[0] != y[0] {
        rank::the_first_difference_decides(x, y, 0);
    } else if !(cold && a.is_zero_usage) {
        if x[1] != y[1] {
            rank::the_first_difference_decides(x, y, 1);
        } else if x[2] != y[2] {
            rank::the_first_difference_decides(x, y, 2);
        } else if x[3] != y[3] {
            rank::the_first_difference_decides(x, y, 3);
        } else if x[4] != y[4] {
            rank::the_first_difference_decides(x, y, 4);
        }
    }
}

/// Of two untouched accounts where such are preferred, and of two accounts that are
/// alike in everything else, the one goes first that was used longer ago, one never
/// used before any other.
pub proof fn rest_goes_before_use(
    evaluated: Seq<EvaluatedCandidate>,
    current: Option<Seq<char>>,
    now: int,
    i: int,
    j: int,
)
    requires
        is_deadline_choice(evaluated, current, now, i),
        0 <= j < evaluated.len(),
        forall|k: int|
            0 <= k < evaluated.len() && (#[trigger] evaluated[k]).is_zero_usage ==> Some(
                evaluated[k].account.id@,
            ) != current,
        0 <= i < evaluated.len(),
        evaluated[i].is_zero_usage == evaluated[j].is_zero_usage,
        prefers_cold(evaluated, current, now) && evaluated[i].is_zero_usage || evaluated[i].metrics
            == evaluated[j].metrics,
    ensures
        evaluated[j].account.last_used_at is None ==> evaluated[i].account.last_used_at is None,
        evaluated[i].account.last_used_at is Some && evaluated[j].account.last_used_at is Some
            ==> !evaluated[j].account.last_used_at->Some_0.is_before(
            evaluated[i].account.last_used_at->Some_0,
        ),
{
    let cold = prefers_cold(evaluated, current, now);
    if current is Some {
        search::first_index_absent(evaluated, is_cold_with_id(current->Some_0));
    }
    deadline_ranks_at(evaluated, cold, i, j);
    let x = deadline_rank(evaluated[j], cold);
    let y = deadline_rank(evaluated[i], cold);
    let n = if cold && evaluated[i].is_zero_usage {
        1int
    } else {
        5int
    };
    if x[n] != y[n] {
        rank::the_first_difference_decides(x, y, n);
    } else if x[n + 1] != y[n + 1] {
        rank::the_first_difference_decides(x, y, n + 1);
    } else if x[n + 2] != y[n + 2] {
        rank::the_first_difference_decides(x, y, n + 2);
    }
}

/// What a choice by score has over any other account: it is safe where the other
/// is; of safe ones the smaller score wins, and then the earlier reset or the more
/// that is left; where none is safe, the one with the most left wins.
pub proof fn the_choice_by_score(
    evaluated: Seq<EvaluatedCandidate>,
    scores: Seq<Score>,
    reset_first: bool,
    i: int,
    j: int,
)
    requires
        rank::is_first_least(score_ranks(evaluated, scores, reset_first), i),
        0 <= j < evaluated.len(),
    ensures
        0 <= i < evaluated.len(),
        ({
            let a = evaluated[i];
            let b = evaluated[j];
            let mine = quantity::order_key(scores[a.order as int].value);
            let other = quantity::order_key(scores[b.order as int].value);
            &&& b.metrics.safe_for_reset_priority ==> a.metrics.safe_for_reset_priority
            &&& b.metrics.safe_for_reset_priority ==> mine <= other
            &&& b.metrics.safe_for_reset_priority && mine == other && reset_first ==> !resets_before(
                b.metrics.bottleneck_resets_at,
                a.metrics.bottleneck_resets_at,
            )
            &&& b.metrics.safe_for_reset_priority && mine == other && !reset_first
                ==> quantity::order_key(a.metrics.bottleneck_headroom) >= quantity::order_key(
                b.metrics.bottleneck_headroom,
            )
            &&& !a.metrics.safe_for_reset_priority ==> quantity::order_key(
                a.metrics.bottleneck_headroom,
            ) >= quantity::order_key(b.metrics.bottleneck_headroom)
            &&& !a.metrics.safe_for_reset_priority && a.metrics.bottleneck_headroom
                == b.metrics.bottleneck_headroom ==> mine <= other
        }),
{
    rank::nothing_precedes_the_least(score_ranks(evaluated, scores, reset_first), i, j);
    let a = evaluated[i];
    let b = evaluated[j];
    let x = score_rank(b, scores[b.order as int].value, reset_first);
    let y = score_rank(a, scores[a.order as int].value, reset_first);
    if x[0] != y[0] {
        rank::the_first_difference_decides(x, y, 0);
    } else if x[1] != y[1] {
        rank::the_first_difference_decides(x, y, 1);
    } else if x[2] != y[2] {
        rank::the_first_difference_decides(x, y, 2);
    } else if x[3] != y[3] {
        rank::the_first_difference_decides(x, y, 3);
    }
}

/// With hysteresis the current account stays where it is safe and no other is
/// better by more than the margin; otherwise the choice is at least as good as any
/// other by safety and score.
pub proof fn hysteresis_keeps_the_current_account(
    evaluated: Seq<EvaluatedCandidate>,
    scores: Seq<Score>,
    id: Seq<char>,
    i: int,
    k: int,
)
    requires
        is_hysteresis_choice(evaluated, scores, Some(id), i),
        0 <= k < evaluated.len(),
        evaluated[k].account.id@ == id,
        forall|j: int| 0 <= j < k ==> (#[trigger] evaluated[j]).account.id@ != id,
        evaluated[k].metrics.safe_for_reset_priority,
        forall|j: int|
            0 <= j < evaluated.len() ==> quantity::at_least(
                scores[(#[trigger] evaluated[j]).order as int].with_margin,
                scores[evaluated[k].order as int].value,
            ),
    ensures
        i == k,
{
    search::first_index_unique(evaluated, candidate_has_id(id), k);
}

/// With hysteresis nothing but the current account or the best by score is chosen;
/// an unsafe current account stays only where it is the best itself.
pub proof fn hysteresis_leaves_an_unsafe_account(
    evaluated: Seq<EvaluatedCandidate>,
    scores: Seq<Score>,
    current: Option<Seq<char>>,
    i: int,
)
    requires
        is_hysteresis_choice(evaluated, scores, current, i),
        current is None || (0 <= i < evaluated.len() && Some(evaluated[i].account.id@) != current),
    ensures
        rank::is_first_least(score_ranks(evaluated, scores, false), i),
{
    if current is Some {
        search::first_index_is_first(evaluated, candidate_has_id(current->Some_0));
    }
}

/// Each policy goes by what it is named after: the deadline-aware one by resets, the
/// shadow price and the minimax by their scores with resets to break ties.
pub proof fn policies_go_by_their_names(
    evaluated: Seq<EvaluatedCandidate>,
    scores: Seq<Score>,
    current: Option<Seq<char>>,
    now: int,
    i: int,
)
    ensures
        is_choice(evaluated, scores, SelectionPolicyKind::DeadlineAware, current, now, i)
            <==> is_deadline_choice(evaluated, current, now, i),
        is_choice(evaluated, scores, SelectionPolicyKind::ShadowPrice, current, now, i)
            <==> rank::is_first_least(score_ranks(evaluated, scores, true), i),
        is_choice(evaluated, scores, SelectionPolicyKind::ResetWeightedMinimax, current, now, i)
            <==> rank::is_first_least(score_ranks(evaluated, scores, true), i),
        is_choice(evaluated, scores, SelectionPolicyKind::DemandAwareHysteresis, current, now, i)
            <==> is_hysteresis_choice(evaluated, scores, current, i),
{
}

/// The delay until a reset is what lies between the moment and the reset, nothing
/// once it is past, and it is measured against the window's length in seconds.
pub proof fn resets_draw_nearer(resets_at: i64, minutes: i64, now: i64)
    requires
        0 < minutes,
        minutes * 60 <= i64::MAX,
    ensures
        reset_progress(Some(resets_at), Some(minutes), now) is Some,
        ({
            let p = reset_progress(Some(resets_at), Some(minutes), now)->Some_0;
            &&& p.1 == minutes * 60
            &&& resets_at <= now ==> p.0 == 0
            &&& now < resets_at && resets_at - now <= i64::MAX ==> now + p.0 == resets_at
        }),
{
}

/// The minutes of the limiting window are those of the window that limits.
pub proof fn limiting_windows_have_their_minutes(e: EvaluatedCandidate<'_>, r: Option<i64>)
    requires
        call_ensures(EvaluatedCandidate::bottleneck_window_minutes, (&e,), r),
    ensures
        e.metrics.bottleneck is FiveHour && e.five_hour is Some ==> r
            == e.five_hour->Some_0.window_minutes,
        e.metrics.bottleneck is Weekly && e.weekly is Some ==> r == e.weekly->Some_0.window_minutes,
        e.metrics.bottleneck is FiveHour && e.five_hour is None ==> r is None,
        e.metrics.bottleneck is Weekly && e.weekly is None ==> r is None,
{
}

} // verus!
