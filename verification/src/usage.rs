//! What the service reports about an account's usage.
use crate::quantity;
use crate::text;
use vstd::prelude::*;

verus! {

/// A percentage of a quota that is used up, with what is derived from it by
/// floating-point arithmetic.
pub struct UsedPercent {
    /// The bit pattern of the percentage.
    pub bits: u64,
    /// The bit pattern of what is left, between 0 and 100.
    pub headroom: u64,
    /// The percentage with one decimal.
    pub shown: String,
    /// What is left, with one decimal.
    pub left_shown: String,
    /// What is left, in cells of a bar.
    pub left_cells: u64,
    /// The percentage, written in full.
    pub number: String,
    /// What is left, written in full.
    pub left_number: String,
}

impl Clone for UsedPercent {
    fn clone(&self) -> (r: Self)
        ensures
            r == *self,
    {
        UsedPercent {
            bits: self.bits,
            headroom: self.headroom,
            shown: self.shown.clone(),
            left_shown: self.left_shown.clone(),
            left_cells: self.left_cells,
            number: self.number.clone(),
            left_number: self.left_number.clone(),
        }
    }
}

#[derive(Debug, Clone, Copy, PartialEq, Eq, Structural)]
pub enum UsageWindowKind {
    FiveHour,
    Weekly,
    Other,
}

pub const FIVE_HOUR_MINUTES: i64 = 300;

pub const WEEKLY_MINUTES: i64 = 10_080;

/// One quota window.
pub struct UsageWindowData {
    pub used_percent: Option<UsedPercent>,
    pub window_minutes: Option<i64>,
    pub resets_at: Option<i64>,
}

impl UsageWindowData {
    /// A window that reports anything at all.
    pub open spec fn is_present(self) -> bool {
        self.used_percent is Some || self.window_minutes is Some || self.resets_at is Some
    }

    /// The kind of a window goes by its length alone.
    pub open spec fn is_kind(self) -> UsageWindowKind {
        if self.window_minutes == Some(FIVE_HOUR_MINUTES) {
            UsageWindowKind::FiveHour
        } else if self.window_minutes == Some(WEEKLY_MINUTES) {
            UsageWindowKind::Weekly
        } else {
            UsageWindowKind::Other
        }
    }

    pub fn present(&self) -> (r: bool)
        ensures
            r == self.is_present(),
    {
        self.used_percent.is_some() || self.window_minutes.is_some() || self.resets_at.is_some()
    }

    pub fn kind(&self) -> (r: UsageWindowKind)
        ensures
            r == self.is_kind(),
    {
        match self.window_minutes {
            Some(minutes) => if minutes == FIVE_HOUR_MINUTES {
                UsageWindowKind::FiveHour
            } else if minutes == WEEKLY_MINUTES {
                UsageWindowKind::Weekly
            } else {
                UsageWindowKind::Other
            },
            None => UsageWindowKind::Other,
        }
    }
}

impl Clone for UsageWindowData {
    fn clone(&self) -> (r: Self)
        ensures
            r == *self,
    {
        UsageWindowData {
            used_percent: match &self.used_percent {
                Some(used) => Some(used.clone()),
                None => None,
            },
            window_minutes: self.window_minutes,
            resets_at: self.resets_at,
        }
    }
}

/// A credits balance as the service words it.
pub struct CreditsBalance {
    pub text: String,
    /// The balance reads as a number and that number is zero or less.
    pub is_spent: bool,
}

impl Clone for CreditsBalance {
    fn clone(&self) -> (r: Self)
        ensures
            r == *self,
    {
        CreditsBalance { text: self.text.clone(), is_spent: self.is_spent }
    }
}

/// A limit besides the account's main one.
pub struct UsageLimitInfo {
    pub limit_id: Option<String>,
    pub limit_name: Option<String>,
    pub primary: UsageWindowData,
    pub secondary: UsageWindowData,
}

impl Clone for UsageLimitInfo {
    fn clone(&self) -> (r: Self)
        ensures
            r == *self,
    {
        UsageLimitInfo {
            limit_id: text::clone_option(&self.limit_id),
            limit_name: text::clone_option(&self.limit_name),
            primary: self.primary.clone(),
            secondary: self.secondary.clone(),
        }
    }
}

impl UsageLimitInfo {
    /// What a limit is called: its name, else its id.
    pub open spec fn title(self) -> Seq<char> {
        match self.limit_name {
            Some(name) => name@,
            None => match self.limit_id {
                Some(id) => id@,
                None => "additional"@,
            },
        }
    }

    pub fn label(&self) -> (r: String)
        ensures
            r@ == self.title(),
    {
        match &self.limit_name {
            Some(name) => name.clone(),
            None => match &self.limit_id {
                Some(id) => id.clone(),
                None => "additional".to_owned(),
            },
        }
    }
}

pub struct UsageInfo {
    pub account_id: String,
    pub limit_id: Option<String>,
    pub limit_name: Option<String>,
    pub plan_type: Option<String>,
    pub primary: UsageWindowData,
    pub secondary: UsageWindowData,
    pub has_credits: Option<bool>,
    pub unlimited_credits: Option<bool>,
    pub credits_balance: Option<CreditsBalance>,
    pub rate_limit_reset_credits_available: Option<i64>,
    pub rate_limit_reached_type: Option<String>,
    pub additional_limits: Vec<UsageLimitInfo>,
    pub error: Option<String>,
}

pub const UNSUPPORTED: &'static str = "usage unsupported";

/// The window of the given kind among two, the first of them first.
pub open spec fn window_of(
    primary: UsageWindowData,
    secondary: UsageWindowData,
    kind: UsageWindowKind,
) -> Option<UsageWindowData> {
    if primary.is_present() && primary.is_kind() == kind {
        Some(primary)
    } else if secondary.is_present() && secondary.is_kind() == kind {
        Some(secondary)
    } else {
        None
    }
}

pub open spec fn is_window(found: Option<&UsageWindowData>, expected: Option<UsageWindowData>) -> bool {
    match found {
        Some(window) => expected == Some(*window),
        None => expected is None,
    }
}

pub fn find_window<'a>(
    primary: &'a UsageWindowData,
    secondary: &'a UsageWindowData,
    kind: UsageWindowKind,
) -> (r: Option<&'a UsageWindowData>)
    ensures
        is_window(r, window_of(*primary, *secondary, kind)),
{
    if primary.present() && primary.kind() == kind {
        Some(primary)
    } else if secondary.present() && secondary.kind() == kind {
        Some(secondary)
    } else {
        None
    }
}

impl UsageInfo {
    pub open spec fn is_unsupported(self) -> bool {
        self.error is Some && self.error->Some_0@ == UNSUPPORTED@
    }

    pub fn unsupported(&self) -> (r: bool)
        ensures
            r == self.is_unsupported(),
    {
        match &self.error {
            Some(error) => text::same(error.as_str(), UNSUPPORTED),
            None => false,
        }
    }

    /// A report that holds nothing but an error.
    pub fn failed(account_id: String, error: String) -> (r: Self)
        ensures
            r.account_id == account_id,
            r.error == Some(error),
            r.limit_id is None && r.limit_name is None && r.plan_type is None,
            !r.primary.is_present() && !r.secondary.is_present(),
            r.has_credits is None && r.unlimited_credits is None && r.credits_balance is None,
            r.rate_limit_reset_credits_available is None && r.rate_limit_reached_type is None,
            r.additional_limits@.len() == 0,
    {
        UsageInfo {
            account_id,
            limit_id: None,
            limit_name: None,
            plan_type: None,
            primary: UsageWindowData { used_percent: None, window_minutes: None, resets_at: None },
            secondary: UsageWindowData { used_percent: None, window_minutes: None, resets_at: None },
            has_credits: None,
            unlimited_credits: None,
            credits_balance: None,
            rate_limit_reset_credits_available: None,
            rate_limit_reached_type: None,
            additional_limits: Vec::new(),
            error: Some(error),
        }
    }
}

/// Used up to the given percentage or beyond.
pub open spec fn is_used_to(used: Option<UsedPercent>, percent: u64) -> bool {
    match used {
        Some(used) => quantity::at_least(used.bits, percent),
        None => false,
    }
}

// ---------------------------------------------------------------------------
// Laws
// ---------------------------------------------------------------------------

/// A window is a five-hour one by its 300 minutes and a weekly one by its 10,080,
/// whatever else it says.
pub proof fn windows_are_known_by_their_minutes(w: UsageWindowData)
    ensures
        w.is_kind() == UsageWindowKind::FiveHour <==> w.window_minutes == Some(300i64),
        w.is_kind() == UsageWindowKind::Weekly <==> w.window_minutes == Some(10_080i64),
        w.window_minutes is Some ==> w.is_present(),
        w.used_percent is Some ==> w.is_present(),
        w.resets_at is Some ==> w.is_present(),
        w.used_percent is None && w.window_minutes is None && w.resets_at is None
            ==> !w.is_present(),
{
}

/// The window that is found says something and is of the kind that was asked for; the
/// first of two is taken, and none is found only where neither is of the kind.
pub proof fn windows_are_found_by_kind(
    primary: UsageWindowData,
    secondary: UsageWindowData,
    kind: UsageWindowKind,
)
    ensures
        match window_of(primary, secondary, kind) {
            Some(w) => w.is_present() && w.is_kind() == kind && (w == primary || w == secondary)
                && (primary.is_present() && primary.is_kind() == kind ==> w == primary),
            None => !(primary.is_present() && primary.is_kind() == kind) && !(secondary.is_present()
                && secondary.is_kind() == kind),
        },
{
}

/// A limit goes by its name, then by its id.
pub proof fn limits_go_by_their_name(limit: UsageLimitInfo)
    ensures
        limit.limit_name is Some ==> limit.title() == limit.limit_name->Some_0@,
        limit.limit_name is None && limit.limit_id is Some ==> limit.title()
            == limit.limit_id->Some_0@,
        limit.limit_name is None && limit.limit_id is None ==> limit.title() == "additional"@,
{
}

/// A failed report is of its account, tells its error, and says nothing of usage.
pub proof fn failed_reports_tell_the_error(account_id: String, error: String, r: UsageInfo)
    requires
        call_ensures(UsageInfo::failed, (account_id, error), r),
    ensures
        r.account_id@ == account_id@,
        r.error is Some && r.error->Some_0@ == error@,
        r.primary.used_percent is None && r.secondary.used_percent is None,
        r.credits_balance is None && r.rate_limit_reached_type is None,
        error@ == "usage unsupported"@ <==> r.is_unsupported(),
{
}

} // verus!
