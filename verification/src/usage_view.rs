//! Usage as it is shown.
use crate::accounts;
use crate::accounts::StoredAccount;
use crate::assessment;
use crate::calendar;
use crate::forecast::{UsageForecast, UsageForecastOutcome, UsageForecastRates};
use crate::text;
use crate::usage::{UsageInfo, UsageLimitInfo, UsageWindowData, UsedPercent};
use vstd::prelude::*;

verus! {

pub const USAGE_BAR_WIDTH: usize = 20;

pub const USAGE_LABEL_WIDTH: usize = 6;

pub const QUOTA_BAR_FILLED: &'static str = "\u{2588}";

pub const QUOTA_BAR_EMPTY: &'static str = "\u{2591}";

pub const RESET_BAR_FILLED: &'static str = "\u{2588}";

pub const RESET_BAR_EMPTY: &'static str = "\u{2500}";

// ---------------------------------------------------------------------------
// Spans of time
// ---------------------------------------------------------------------------

/// A span of seconds in days, hours and minutes, the two largest that count, and
/// at least a minute.
pub open spec fn duration_shown(seconds: nat) -> Seq<char> {
    let total = if seconds / 60 >= 1 {
        seconds / 60
    } else {
        1
    };
    let days = total / 1_440;
    let hours = (total % 1_440) / 60;
    let minutes = total % 60;
    if days > 0 {
        if hours > 0 {
            text::decimal(days) + "d "@ + text::decimal(hours) + "h"@
        } else if minutes > 0 {
            text::decimal(days) + "d "@ + text::decimal(minutes) + "m"@
        } else {
            text::decimal(days) + "d"@
        }
    } else if hours > 0 {
        if minutes > 0 {
            text::decimal(hours) + "h "@ + text::decimal(minutes) + "m"@
        } else {
            text::decimal(hours) + "h"@
        }
    } else {
        text::decimal(minutes) + "m"@
    }
}

pub fn format_reset_duration(seconds: u64) -> (r: String)
    ensures
        r@ == duration_shown(seconds as nat),
{
    let total: u64 = if seconds / 60 >= 1 {
        seconds / 60
    } else {
        1
    };
    let days: u64 = total / 1_440;
    let hours: u64 = (total % 1_440) / 60;
    let minutes: u64 = total % 60;
    let d = text::number(days);
    let h = text::number(hours);
    let m = text::number(minutes);
    if days > 0 {
        if hours > 0 {
            text::cat4(d.as_str(), "d ", h.as_str(), "h")
        } else if minutes > 0 {
            text::cat4(d.as_str(), "d ", m.as_str(), "m")
        } else {
            text::cat2(d.as_str(), "d")
        }
    } else if hours > 0 {
        if minutes > 0 {
            text::cat4(h.as_str(), "h ", m.as_str(), "m")
        } else {
            text::cat2(h.as_str(), "h")
        }
    } else {
        text::cat2(m.as_str(), "m")
    }
}

/// A difference, kept within what 64 bits can hold.
pub open spec fn saturated(n: int) -> int {
    if n > i64::MAX {
        i64::MAX as int
    } else if n < i64::MIN {
        i64::MIN as int
    } else {
        n
    }
}

pub open spec fn distance(n: int) -> nat {
    if n < 0 {
        (-n) as nat
    } else {
        n as nat
    }
}

fn saturating_difference(a: i64, b: i64) -> (r: i64)
    ensures
        r as int == saturated(a - b),
{
    let d: i128 = a as i128 - b as i128;
    if d > i64::MAX as i128 {
        i64::MAX
    } else if d < i64::MIN as i128 {
        i64::MIN
    } else {
        d as i64
    }
}

fn absolute(n: i64) -> (r: u64)
    ensures
        r as nat == distance(n as int),
{
    if n == i64::MIN {
        0x8000_0000_0000_0000
    } else if n < 0 {
        (-n) as u64
    } else {
        n as u64
    }
}

/// Where a moment lies, as seen from now.
pub open spec fn relative_shown(timestamp: int, now: int) -> Seq<char> {
    let delta = saturated(timestamp - now);
    if distance(delta) < 60 {
        "now"@
    } else if delta > 0 {
        "in "@ + duration_shown(distance(delta))
    } else {
        "overdue by "@ + duration_shown(distance(delta))
    }
}

pub fn format_reset_relative_time(timestamp: i64, now: i64) -> (r: String)
    ensures
        r@ == relative_shown(timestamp as int, now as int),
{
    let delta = saturating_difference(timestamp, now);
    let size = absolute(delta);
    if size < 60 {
        return "now".to_owned();
    }
    let duration = format_reset_duration(size);
    if delta > 0 {
        text::cat2("in ", duration.as_str())
    } else {
        text::cat2("overdue by ", duration.as_str())
    }
}

// ---------------------------------------------------------------------------
// Moments on the clock
// ---------------------------------------------------------------------------

/// A moment in the time zone of the machine.
pub struct LocalMoment {
    /// The number of its day.
    pub day: i32,
    pub year: i32,
    /// The time of day.
    pub clock: String,
    /// The day of the week and the time of day.
    pub weekday_clock: String,
    /// The time of day, the day and the month.
    pub clock_date: String,
    /// The time of day, the day, the month and the year.
    pub clock_full_date: String,
}

/// A moment that every time zone can hold, or none.
pub open spec fn is_clear(seconds: int) -> bool {
    calendar::in_calendar(seconds) ==> -8_334_601_142_400 <= seconds <= 8_210_266_790_399
}

/// The moment that so many seconds on the clock stand for.
pub open spec fn is_on_clock(m: LocalMoment, local: int) -> bool {
    let clock = calendar::clock(local);
    let date = calendar::date_at(local);
    let clock_date = clock + " on "@ + text::decimal(date.day as nat) + " "@ + calendar::month_name(
        date.month,
    );
    &&& m.day == local / 86_400 + 719_163
    &&& m.year == date.year
    &&& m.clock@ == clock
    &&& m.weekday_clock@ == calendar::weekday_name(local) + " "@ + clock
    &&& m.clock_date@ == clock_date
    &&& m.clock_full_date@ == clock_date + " "@ + calendar::year_text(date.year)
}

/// The moment in some time zone; none is a day or more away.
pub open spec fn is_local(m: LocalMoment, seconds: int) -> bool {
    exists|local: int|
        seconds - 86_400 < local < seconds + 86_400 && #[trigger] is_on_clock(m, local)
}

/// `chrono::DateTime::from_timestamp` and `with_timezone(&Local)`, taken apart with
/// `date_naive`, `year` and `format`. Claimed: there is an outcome for the moments
/// of the calendar and for no others, and it is that of the moment, moved by less
/// than a day. Not stated: by how much, which the time zone of the machine decides.
/// A moment within a day of an end of the calendar is left out: in some time zones
/// `chrono` panics on it.
#[verifier::external_body]
pub(crate) fn local_moment(seconds: i64) -> (r: Option<LocalMoment>)
    requires
        is_clear(seconds as int),
    ensures
        r is Some <==> calendar::in_calendar(seconds as int),
        r matches Some(m) ==> is_local(m, seconds as int),
{
    let d = chrono::DateTime::from_timestamp(seconds, 0)?.with_timezone(&chrono::Local);
    let day = chrono::Datelike::num_days_from_ce(&d.date_naive());
    let year = chrono::Datelike::year(&d);
    let forms = ["%H:%M", "%a %H:%M", "%H:%M on %-d %b", "%H:%M on %-d %b %Y"];
    let [clock, weekday_clock, clock_date, clock_full_date] =
        forms.map(|form| d.format(form).to_string());
    Some(LocalMoment { day, year, clock, weekday_clock, clock_date, clock_full_date })
}

/// A moment in few words: as close to now as it is.
pub open spec fn short_shown(dt: LocalMoment, now: LocalMoment) -> Seq<char> {
    let delta = dt.day - now.day;
    if delta == 0 {
        "today "@ + dt.clock@
    } else if delta == 1 {
        "tomorrow "@ + dt.clock@
    } else if 2 <= delta < 7 {
        dt.weekday_clock@
    } else if dt.year == now.year {
        dt.clock_date@
    } else {
        dt.clock_full_date@
    }
}

pub fn format_short_reset_datetime(dt: &LocalMoment, now: &LocalMoment) -> (r: String)
    ensures
        r@ == short_shown(*dt, *now),
{
    let delta: i64 = dt.day as i64 - now.day as i64;
    if delta == 0 {
        text::cat2("today ", dt.clock.as_str())
    } else if delta == 1 {
        text::cat2("tomorrow ", dt.clock.as_str())
    } else if 2 <= delta && delta < 7 {
        dt.weekday_clock.clone()
    } else if dt.year == now.year {
        dt.clock_date.clone()
    } else {
        dt.clock_full_date.clone()
    }
}

/// What is shown of a moment: where it lies and when that is; its number, where
/// no calendar holds it or now.
pub open spec fn timestamp_shown(
    timestamp: int,
    now: int,
    dt: Option<LocalMoment>,
    now_local: Option<LocalMoment>,
) -> Seq<char> {
    match (dt, now_local) {
        (Some(d), Some(n)) => relative_shown(timestamp, now) + " ("@ + short_shown(d, n) + ")"@,
        _ => text::decimal_int(timestamp),
    }
}

/// As `format_reset_timestamp`, with the two moments on the clock.
pub fn format_moment(
    timestamp: i64,
    now: i64,
    dt: &Option<LocalMoment>,
    now_local: &Option<LocalMoment>,
) -> (r: String)
    ensures
        r@ == timestamp_shown(timestamp as int, now as int, *dt, *now_local),
{
    match (dt, now_local) {
        (Some(d), Some(n)) => {
            let relative = format_reset_relative_time(timestamp, now);
            let short = format_short_reset_datetime(d, n);
            text::cat4(relative.as_str(), " (", short.as_str(), ")")
        },
        _ => text::signed_number(timestamp),
    }
}

/// The text is that of a moment, in some time zone.
pub open spec fn is_timestamp_shown(r: Seq<char>, timestamp: int, now: int) -> bool {
    if calendar::in_calendar(timestamp) && calendar::in_calendar(now) {
        exists|d: LocalMoment, n: LocalMoment|
            is_local(d, timestamp) && is_local(n, now) && r == #[trigger] timestamp_shown(
                timestamp,
                now,
                Some(d),
                Some(n),
            )
    } else {
        r == text::decimal_int(timestamp)
    }
}

pub fn format_reset_timestamp(timestamp: i64, now: i64) -> (r: String)
    requires
        is_clear(timestamp as int),
        is_clear(now as int),
    ensures
        is_timestamp_shown(r@, timestamp as int, now as int),
{
    let dt = local_moment(timestamp);
    let now_local = local_moment(now);
    let r = format_moment(timestamp, now, &dt, &now_local);
    proof {
        if dt is Some && now_local is Some {
            let d = dt->Some_0;
            let n = now_local->Some_0;
            assert(r@ == timestamp_shown(timestamp as int, now as int, Some(d), Some(n)));
        }
    }
    r
}

pub open spec fn is_option_clear(timestamp: Option<i64>) -> bool {
    timestamp matches Some(t) ==> is_clear(t as int)
}

pub open spec fn is_option_shown(r: Seq<char>, timestamp: Option<i64>, now: int) -> bool {
    match timestamp {
        Some(t) => is_timestamp_shown(r, t as int, now),
        None => r == "-"@,
    }
}

pub fn format_reset_timestamp_option(timestamp: Option<i64>, now: i64) -> (r: String)
    requires
        is_option_clear(timestamp),
        is_clear(now as int),
    ensures
        is_option_shown(r@, timestamp, now as int),
{
    match timestamp {
        Some(t) => format_reset_timestamp(t, now),
        None => "-".to_owned(),
    }
}

// ---------------------------------------------------------------------------
// Bars
// ---------------------------------------------------------------------------

/// A bar with so many cells filled.
pub open spec fn bar(cells: Option<u64>, filled: Seq<char>, empty: Seq<char>) -> Seq<char> {
    let n = match cells {
        Some(c) => if c <= USAGE_BAR_WIDTH {
            c as nat
        } else {
            USAGE_BAR_WIDTH as nat
        },
        None => 0,
    };
    text::repeated(filled, n) + text::repeated(empty, (USAGE_BAR_WIDTH - n) as nat)
}

pub fn format_ratio_bar(cells: Option<u64>, filled_char: &str, empty_char: &str) -> (r: String)
    ensures
        r@ == bar(cells, filled_char@, empty_char@),
{
    let n: usize = match cells {
        Some(c) => if c <= USAGE_BAR_WIDTH as u64 {
            c as usize
        } else {
            USAGE_BAR_WIDTH
        },
        None => 0,
    };
    let full = text::repeat(filled_char, n);
    let rest = text::repeat(empty_char, USAGE_BAR_WIDTH - n);
    text::cat2(full.as_str(), rest.as_str())
}

pub open spec fn left_shown(used: Option<UsedPercent>) -> Seq<char> {
    match used {
        Some(u) => u.left_shown@ + "% left"@,
        None => "-"@,
    }
}

pub fn format_usage_left_percent(used: &Option<UsedPercent>) -> (r: String)
    ensures
        r@ == left_shown(*used),
{
    match used {
        Some(u) => text::cat2(u.left_shown.as_str(), "% left"),
        None => "-".to_owned(),
    }
}

pub open spec fn left_bar(used: Option<UsedPercent>) -> Seq<char> {
    bar(
        match used {
            Some(u) => Some(u.left_cells),
            None => None,
        },
        QUOTA_BAR_FILLED@,
        QUOTA_BAR_EMPTY@,
    )
}

pub fn format_usage_left_bar(used: &Option<UsedPercent>) -> (r: String)
    ensures
        r@ == left_bar(*used),
{
    let cells = match used {
        Some(u) => Some(u.left_cells),
        None => None,
    };
    format_ratio_bar(cells, QUOTA_BAR_FILLED, QUOTA_BAR_EMPTY)
}

// ---------------------------------------------------------------------------
// What is left of a window
// ---------------------------------------------------------------------------

/// What is left of a window until it resets: seconds, and the seconds of the
/// whole window.
pub open spec fn remaining_of(
    resets_at: Option<i64>,
    window_minutes: Option<i64>,
    now: int,
) -> Option<(int, int)> {
    match (resets_at, window_minutes) {
        (Some(t), Some(minutes)) => if minutes > 0 && minutes * 60 <= i64::MAX
            && calendar::in_calendar(t as int) {
            let left = saturated(t - now);
            Some(
                (
                    if left < 0 {
                        0
                    } else {
                        left
                    },
                    minutes * 60,
                ),
            )
        } else {
            None
        },
        _ => None,
    }
}

pub open spec fn is_remaining(r: Option<(i64, i64)>, expected: Option<(int, int)>) -> bool {
    match r {
        Some((left, whole)) => expected == Some((left as int, whole as int)),
        None => expected is None,
    }
}

/// The two numbers whose ratio is what is left of a window.
pub fn reset_window_remaining(
    resets_at: Option<i64>,
    window_minutes: Option<i64>,
    now: i64,
) -> (r: Option<(i64, i64)>)
    ensures
        is_remaining(r, remaining_of(resets_at, window_minutes, now as int)),
        r matches Some((left, whole)) ==> 0 <= left && 0 < whole,
{
    match (resets_at, window_minutes) {
        (Some(t), Some(minutes)) => {
            if minutes <= 0 || minutes > i64::MAX / 60 {
                return None;
            }
            let in_calendar = -8_334_601_228_800 <= t && t <= 8_210_266_876_799;
            if !in_calendar {
                return None;
            }
            let left = saturating_difference(t, now);
            Some(
                (
                    if left < 0 {
                        0
                    } else {
                        left
                    },
                    minutes * 60,
                ),
            )
        },
        _ => None,
    }
}

/// The ratio of what is left of a window, as it is shown: in whole percent, and
/// in cells of a bar.
pub struct ResetShare {
    pub percent_shown: String,
    pub cells: u64,
}

pub open spec fn share_shown(share: Option<ResetShare>) -> Seq<char> {
    match share {
        Some(s) => s.percent_shown@ + "% remaining"@,
        None => "-"@,
    }
}

pub fn format_reset_remaining_percent(share: &Option<ResetShare>) -> (r: String)
    ensures
        r@ == share_shown(*share),
{
    match share {
        Some(s) => text::cat2(s.percent_shown.as_str(), "% remaining"),
        None => "-".to_owned(),
    }
}

pub open spec fn share_bar(share: Option<ResetShare>) -> Seq<char> {
    bar(
        match share {
            Some(s) => Some(s.cells),
            None => None,
        },
        RESET_BAR_FILLED@,
        RESET_BAR_EMPTY@,
    )
}

pub fn format_reset_remaining_bar(share: &Option<ResetShare>) -> (r: String)
    ensures
        r@ == share_bar(*share),
{
    let cells = match share {
        Some(s) => Some(s.cells),
        None => None,
    };
    format_ratio_bar(cells, RESET_BAR_FILLED, RESET_BAR_EMPTY)
}

/// Both parts, or the one that there is.
pub open spec fn detail_shown(remaining: Seq<char>, reset: Seq<char>) -> Seq<char> {
    if remaining == "-"@ {
        reset
    } else if reset == "-"@ {
        remaining
    } else {
        remaining + ", "@ + reset
    }
}

pub fn format_reset_detail(share: &Option<ResetShare>, reset: &str) -> (r: String)
    ensures
        r@ == detail_shown(share_shown(*share), reset@),
{
    let remaining = format_reset_remaining_percent(share);
    if text::same(remaining.as_str(), "-") {
        reset.to_owned()
    } else if text::same(reset, "-") {
        remaining
    } else {
        text::cat3(remaining.as_str(), ", ", reset)
    }
}

// ---------------------------------------------------------------------------
// Windows
// ---------------------------------------------------------------------------

/// What is computed of a window besides its report: the ratio of what is left,
/// and the text of the moment at which it resets.
pub struct WindowShown {
    pub share: Option<ResetShare>,
    pub reset: String,
}

pub open spec fn wider(label: Seq<char>) -> nat {
    let n = vstd::utf8::encode_utf8(label).len() as usize;
    if n > USAGE_LABEL_WIDTH {
        n as nat
    } else {
        USAGE_LABEL_WIDTH as nat
    }
}

/// A window in two lines.
pub open spec fn window_shown(label: Seq<char>, used: Option<UsedPercent>, w: WindowShown) -> Seq<
    char,
> {
    text::padded(label, wider(label)) + " ┬ quota ["@ + left_bar(used) + "] "@ + left_shown(used)
        + "\n"@ + (text::padded(""@, wider(label)) + " └ reset ["@ + share_bar(w.share) + "] "@
        + detail_shown(share_shown(w.share), w.reset@))
}

pub fn format_limit_window(label: &str, used: &Option<UsedPercent>, w: &WindowShown) -> (r: String)
    ensures
        r@ == window_shown(label@, *used, *w),
{
    let width: usize = if label.len() > USAGE_LABEL_WIDTH {
        label.len()
    } else {
        USAGE_LABEL_WIDTH
    };
    let first = text::pad(label, width);
    let second = text::pad("", width);
    let quota = format_usage_left_bar(used);
    let left = format_usage_left_percent(used);
    let share = format_reset_remaining_bar(&w.share);
    let detail = format_reset_detail(&w.share, w.reset.as_str());
    let top = text::cat6(first.as_str(), " ┬ quota [", quota.as_str(), "] ", left.as_str(), "\n");
    let bottom = text::cat5(second.as_str(), " └ reset [", share.as_str(), "] ", detail.as_str());
    text::cat2(top.as_str(), bottom.as_str())
}

// ---------------------------------------------------------------------------
// Accounts
// ---------------------------------------------------------------------------

pub open spec fn header_shown(account: StoredAccount, is_current: bool, is_limited: bool) -> Seq<
    char,
> {
    (if is_current {
        "* "@
    } else {
        ""@
    }) + accounts::label(account) + (if is_limited {
        " [UNAVAILABLE]"@
    } else {
        ""@
    })
}

pub fn format_usage_account_header(
    account: &StoredAccount,
    is_current: bool,
    is_limited: bool,
) -> (r: String)
    ensures
        r@ == header_shown(*account, is_current, is_limited),
{
    let marker = if is_current {
        "* "
    } else {
        ""
    };
    let status = if is_limited {
        " [UNAVAILABLE]"
    } else {
        ""
    };
    let label = accounts::account_label(account);
    text::cat3(marker, label.as_str(), status)
}

pub open spec fn limit_reason(kind: Seq<char>) -> Seq<char> {
    if kind == "rate_limit_reached"@ {
        "rate limited"@
    } else if kind == "workspace_owner_credits_depleted"@ || kind
        == "workspace_member_credits_depleted"@ {
        "credits depleted"@
    } else if kind == "workspace_owner_usage_limit_reached"@ || kind
        == "workspace_member_usage_limit_reached"@ {
        "usage limit reached"@
    } else {
        "limited"@
    }
}

pub fn format_limit_status(kind: &str) -> (r: String)
    ensures
        r@ == "status: "@ + limit_reason(kind@) + " ("@ + kind@ + ")"@,
{
    let reason = if text::same(kind, "rate_limit_reached") {
        "rate limited"
    } else if text::same(kind, "workspace_owner_credits_depleted") || text::same(
        kind,
        "workspace_member_credits_depleted",
    ) {
        "credits depleted"
    } else if text::same(kind, "workspace_owner_usage_limit_reached") || text::same(
        kind,
        "workspace_member_usage_limit_reached",
    ) {
        "usage limit reached"
    } else {
        "limited"
    };
    text::cat5("status: ", reason, " (", kind, ")")
}

/// Why an account cannot be used.
pub open spec fn status_shown(info: UsageInfo) -> Option<Seq<char>> {
    if info.error is Some {
        None
    } else {
        match info.rate_limit_reached_type {
            Some(kind) => Some("status: "@ + limit_reason(kind@) + " ("@ + kind@ + ")"@),
            None => match assessment::unavailable_reason(info) {
                Some(reason) => Some("status: "@ + reason),
                None => None,
            },
        }
    }
}

pub fn format_usage_unavailable_status(info: &UsageInfo) -> (r: Option<String>)
    ensures
        text::opt_view(r) == status_shown(*info),
{
    if info.error.is_some() {
        return None;
    }
    if let Some(kind) = &info.rate_limit_reached_type {
        return Some(format_limit_status(kind.as_str()));
    }
    match assessment::usage_unavailable_reason(info) {
        Some(reason) => Some(text::cat2("status: ", reason.as_str())),
        None => None,
    }
}

pub open spec fn credits_shown(info: UsageInfo) -> Option<Seq<char>> {
    if info.has_credits is None && info.unlimited_credits is None && info.credits_balance is None {
        None
    } else {
        Some(
            "credits: "@ + if info.unlimited_credits == Some(true) {
                "unlimited"@
            } else if info.credits_balance is Some {
                info.credits_balance->Some_0.text@
            } else if info.has_credits == Some(false) {
                "none"@
            } else {
                "available"@
            },
        )
    }
}

pub fn format_credits(info: &UsageInfo) -> (r: Option<String>)
    ensures
        text::opt_view(r) == credits_shown(*info),
{
    if info.has_credits.is_none() && info.unlimited_credits.is_none()
        && info.credits_balance.is_none() {
        return None;
    }
    let unlimited = match info.unlimited_credits {
        Some(b) => b,
        None => false,
    };
    let has_none = match info.has_credits {
        Some(b) => !b,
        None => false,
    };
    let credits = if unlimited {
        "unlimited"
    } else {
        match &info.credits_balance {
            Some(b) => b.text.as_str(),
            None => if has_none {
                "none"
            } else {
                "available"
            },
        }
    };
    Some(text::cat2("credits: ", credits))
}

pub open spec fn resets_shown(info: UsageInfo) -> Option<Seq<char>> {
    match info.rate_limit_reset_credits_available {
        Some(n) => Some(
            "rate-limit resets: "@ + text::decimal_int(
                if n < 0 {
                    0
                } else {
                    n as int
                },
            ) + " available"@,
        ),
        None => None,
    }
}

pub fn format_rate_limit_reset_credits(info: &UsageInfo) -> (r: Option<String>)
    ensures
        text::opt_view(r) == resets_shown(*info),
{
    match info.rate_limit_reset_credits_available {
        Some(n) => {
            let shown = text::signed_number(
                if n < 0 {
                    0
                } else {
                    n
                },
            );
            Some(text::cat3("rate-limit resets: ", shown.as_str(), " available"))
        },
        None => None,
    }
}

/// What is computed of the windows of a report, in order: the first and the
/// second of the account, then those of each further limit.
pub open spec fn covers(windows: Seq<WindowShown>, info: UsageInfo) -> bool {
    windows.len() == 2 + 2 * info.additional_limits@.len()
}

/// The windows of a report, in order.
pub open spec fn window_at(info: UsageInfo, i: int) -> UsageWindowData {
    if i == 0 {
        info.primary
    } else if i == 1 {
        info.secondary
    } else if i % 2 == 0 {
        info.additional_limits@[i / 2 - 1].primary
    } else {
        info.additional_limits@[i / 2 - 1].secondary
    }
}

fn window<'a>(info: &'a UsageInfo, i: usize) -> (r: &'a UsageWindowData)
    requires
        i < 2 + 2 * info.additional_limits@.len(),
    ensures
        *r == window_at(*info, i as int),
{
    if i == 0 {
        &info.primary
    } else if i == 1 {
        &info.secondary
    } else if i % 2 == 0 {
        &info.additional_limits[i / 2 - 1].primary
    } else {
        &info.additional_limits[i / 2 - 1].secondary
    }
}

/// For each window of a report, the two numbers whose ratio is what is left of it.
pub fn remaining_windows(info: &UsageInfo, now: i64) -> (r: Vec<Option<(i64, i64)>>)
    requires
        2 + 2 * info.additional_limits@.len() <= usize::MAX,
    ensures
        r@.len() == 2 + 2 * info.additional_limits@.len(),
        forall|i: int|
            0 <= i < r@.len() ==> is_remaining(
                #[trigger] r@[i],
                remaining_of(
                    window_at(*info, i).resets_at,
                    window_at(*info, i).window_minutes,
                    now as int,
                ),
            ),
{
    let count: usize = 2 + 2 * info.additional_limits.len();
    let mut out: Vec<Option<(i64, i64)>> = Vec::new();
    let mut i: usize = 0;
    while i < count
        invariant
            i <= count,
            count == 2 + 2 * info.additional_limits@.len(),
            out@.len() == i,
            forall|k: int|
                0 <= k < i ==> is_remaining(
                    #[trigger] out@[k],
                    remaining_of(
                        window_at(*info, k).resets_at,
                        window_at(*info, k).window_minutes,
                        now as int,
                    ),
                ),
        decreases count - i,
    {
        let w = window(info, i);
        out.push(reset_window_remaining(w.resets_at, w.window_minutes, now));
        i = i + 1;
    }
    out
}

/// Every window resets at a clear moment.
pub open spec fn resets_clearly(info: UsageInfo) -> bool {
    forall|i: int|
        0 <= i < 2 + 2 * info.additional_limits@.len() ==> is_option_clear(
            (#[trigger] window_at(info, i)).resets_at,
        )
}

/// The windows of a report as they are shown, with what is left of each.
pub fn show_windows(info: &UsageInfo, shares: Vec<Option<ResetShare>>, now: i64) -> (r: Vec<
    WindowShown,
>)
    requires
        shares@.len() == 2 + 2 * info.additional_limits@.len(),
        resets_clearly(*info),
        is_clear(now as int),
    ensures
        covers(r@, *info),
        forall|i: int|
            0 <= i < r@.len() ==> (#[trigger] r@[i]).share == shares@[i] && is_option_shown(
                r@[i].reset@,
                window_at(*info, i).resets_at,
                now as int,
            ),
{
    let ghost all = shares@;
    let count = shares.len();
    let mut out: Vec<WindowShown> = Vec::new();
    let mut i: usize = 0;
    for share in it: shares
        invariant
            all == it.seq(),
            all.len() == count,
            i == it.index(),
            count == 2 + 2 * info.additional_limits@.len(),
            resets_clearly(*info),
            is_clear(now as int),
            out@.len() == i,
            forall|k: int|
                0 <= k < i ==> (#[trigger] out@[k]).share == all[k] && is_option_shown(
                    out@[k].reset@,
                    window_at(*info, k).resets_at,
                    now as int,
                ),
    {
        let w = window(info, i);
        assert(is_option_clear(window_at(*info, i as int).resets_at));
        let reset = format_reset_timestamp_option(w.resets_at, now);
        out.push(WindowShown { share, reset });
        i = i + 1;
    }
    out
}

/// The lines for the first `n` further limits.
pub open spec fn limits_shown(
    limits: Seq<UsageLimitInfo>,
    windows: Seq<WindowShown>,
    n: int,
) -> Seq<Seq<char>>
    decreases n,
{
    if n <= 0 {
        Seq::empty()
    } else {
        let l = limits[n - 1];
        limits_shown(limits, windows, n - 1).push("additional "@ + l.title() + ":"@).push(
            window_shown("  5-hour"@, l.primary.used_percent, windows[2 * n]),
        ).push(window_shown("  weekly"@, l.secondary.used_percent, windows[2 * n + 1]))
    }
}

pub fn format_additional_limits(info: &UsageInfo, windows: &Vec<WindowShown>) -> (r: Vec<String>)
    requires
        covers(windows@, *info),
    ensures
        text::views(r@) == limits_shown(
            info.additional_limits@,
            windows@,
            info.additional_limits@.len() as int,
        ),
{
    let mut lines: Vec<String> = Vec::new();
    let mut i: usize = 0;
    let count = windows.len();
    assert(text::views(lines@) =~= Seq::empty());
    while i < info.additional_limits.len()
        invariant
            i <= info.additional_limits@.len(),
            count == windows@.len(),
            covers(windows@, *info),
            text::views(lines@) == limits_shown(info.additional_limits@, windows@, i as int),
        decreases info.additional_limits@.len() - i,
    {
        let l = &info.additional_limits[i];
        let label = l.label();
        let title = text::cat3("additional ", label.as_str(), ":");
        let first = format_limit_window(
            "  5-hour",
            &l.primary.used_percent,
            &windows[2 * i + 2],
        );
        let second = format_limit_window(
            "  weekly",
            &l.secondary.used_percent,
            &windows[2 * i + 3],
        );
        let ghost before = text::views(lines@);
        let ghost shown = (title@, first@, second@);
        lines.push(title);
        lines.push(first);
        lines.push(second);
        assert(text::views(lines@) =~= before.push(shown.0).push(shown.1).push(shown.2));
        i = i + 1;
    }
    lines
}

/// A line, where there is one.
pub open spec fn line_if(line: Option<Seq<char>>) -> Seq<Seq<char>> {
    match line {
        Some(l) => seq![l],
        None => Seq::empty(),
    }
}

fn add_line(lines: &mut Vec<String>, line: String)
    ensures
        text::views(final(lines)@) == text::views(old(lines)@) + seq![line@],
{
    let ghost before = text::views(lines@);
    let ghost shown = line@;
    lines.push(line);
    assert(text::views(lines@) =~= before + seq![shown]);
}

fn add_line_if(lines: &mut Vec<String>, line: Option<String>)
    ensures
        text::views(final(lines)@) == text::views(old(lines)@) + line_if(text::opt_view(line)),
{
    match line {
        Some(l) => add_line(lines, l),
        None => {
            assert(text::views(lines@) =~= text::views(lines@) + Seq::empty());
        },
    }
}

/// The lines of a report.
pub open spec fn usage_lines(
    account: StoredAccount,
    info: UsageInfo,
    is_current: bool,
    show_additional: bool,
    windows: Seq<WindowShown>,
) -> Seq<Seq<char>> {
    let header = seq![header_shown(account, is_current, status_shown(info) is Some)];
    if info.is_unsupported() {
        header + seq!["usage: unsupported"@]
    } else if info.error is Some {
        header + seq!["usage error: "@ + info.error->Some_0@]
    } else {
        header + seq![
            "plan: "@ + match info.plan_type {
                Some(p) => p@,
                None => "-"@,
            },
        ] + line_if(status_shown(info)) + seq![
            window_shown("5-hour"@, info.primary.used_percent, windows[0]),
        ] + seq![window_shown("weekly"@, info.secondary.used_percent, windows[1])] + line_if(
            credits_shown(info),
        ) + line_if(resets_shown(info)) + if show_additional {
            limits_shown(info.additional_limits@, windows, info.additional_limits@.len() as int)
        } else {
            Seq::empty()
        }
    }
}

fn add_lines(lines: &mut Vec<String>, more: Vec<String>)
    ensures
        text::views(final(lines)@) == text::views(old(lines)@) + text::views(more@),
{
    let ghost before = text::views(lines@);
    let ghost all = text::views(more@);
    assert(text::views(lines@) =~= before + all.take(0));
    for line in it: more
        invariant
            all == text::views(it.seq()),
            text::views(lines@) == before + all.take(it.index() as int),
    {
        let ghost k = it.index() as int;
        let ghost so_far = text::views(lines@);
        let ghost shown = line@;
        lines.push(line);
        assert(text::views(lines@) =~= so_far.push(shown));
        assert(all[k] == shown);
        assert(text::views(lines@) =~= before + all.take(k + 1));
    }
    assert(all.take(all.len() as int) =~= all);
}

pub fn format_usage(
    account: &StoredAccount,
    info: &UsageInfo,
    is_current: bool,
    show_additional: bool,
    windows: &Vec<WindowShown>,
) -> (r: String)
    requires
        covers(windows@, *info),
    ensures
        r@ == text::joined(
            usage_lines(*account, *info, is_current, show_additional, windows@),
            "\n"@,
        ),
{
    let status = format_usage_unavailable_status(info);
    let mut lines: Vec<String> = Vec::new();
    assert(text::views(lines@) =~= Seq::empty());
    let header = format_usage_account_header(account, is_current, status.is_some());
    add_line(&mut lines, header);
    assert(text::views(lines@) =~= seq![
        header_shown(*account, is_current, status_shown(*info) is Some),
    ]);
    if info.unsupported() {
        add_line(&mut lines, "usage: unsupported".to_owned());
        return text::join(&lines, "\n");
    }
    if let Some(error) = &info.error {
        add_line(&mut lines, text::cat2("usage error: ", error.as_str()));
        return text::join(&lines, "\n");
    }
    let plan = match &info.plan_type {
        Some(p) => p.as_str(),
        None => "-",
    };
    add_line(&mut lines, text::cat2("plan: ", plan));
    add_line_if(&mut lines, status);
    add_line(
        &mut lines,
        format_limit_window("5-hour", &info.primary.used_percent, &windows[0]),
    );
    add_line(
        &mut lines,
        format_limit_window("weekly", &info.secondary.used_percent, &windows[1]),
    );
    add_line_if(&mut lines, format_credits(info));
    add_line_if(&mut lines, format_rate_limit_reset_credits(info));
    if show_additional {
        add_lines(&mut lines, format_additional_limits(info, windows));
    } else {
        assert(text::views(lines@) =~= text::views(lines@) + Seq::empty());
    }
    text::join(&lines, "\n")
}

/// An account that cannot be used is marked, and the reason is told; the further
/// limits are not shown unless they are asked for.
pub proof fn unavailable_accounts_are_marked(
    account: StoredAccount,
    info: UsageInfo,
    is_current: bool,
    windows: Seq<WindowShown>,
)
    ensures
        status_shown(info) is Some ==> usage_lines(
            account,
            info,
            is_current,
            false,
            windows,
        )[0] == header_shown(account, is_current, true) && usage_lines(
            account,
            info,
            is_current,
            false,
            windows,
        )[2] == status_shown(info)->Some_0,
        usage_lines(account, info, is_current, false, windows).len() <= 7,
{
}

// ---------------------------------------------------------------------------
// Forecasts
// ---------------------------------------------------------------------------

/// What is shown of the rates, where both are known.
pub open spec fn rates_shown(rates: Option<UsageForecastRates>) -> Option<Seq<char>> {
    match rates {
        Some(r) => match (r.five_hour_percent_per_hour, r.weekly_percent_per_hour) {
            (Some(a), Some(b)) => Some(
                "  estimated rate: 5-hour "@ + a.shown@ + "%/h, weekly "@ + b.shown@ + "%/h"@,
            ),
            _ => None,
        },
        None => None,
    }
}

pub fn format_estimated_rate(rates: &Option<UsageForecastRates>) -> (r: Option<String>)
    ensures
        text::opt_view(r) == rates_shown(*rates),
{
    match rates {
        Some(x) => match (&x.five_hour_percent_per_hour, &x.weekly_percent_per_hour) {
            (Some(a), Some(b)) => Some(
                text::cat5(
                    "  estimated rate: 5-hour ",
                    a.shown.as_str(),
                    "%/h, weekly ",
                    b.shown.as_str(),
                    "%/h",
                ),
            ),
            _ => None,
        },
        None => None,
    }
}

/// The span of an outage, where the recovery follows it.
pub open spec fn outage_shown(at: i64, recovery_at: Option<i64>) -> Option<Seq<char>> {
    match recovery_at {
        Some(r) => if r >= at {
            Some("  expected outage: "@ + duration_shown(distance(saturated(r - at))))
        } else {
            None
        },
        None => None,
    }
}

pub open spec fn recovery_shown(recovery_at: Option<i64>, text: Seq<char>) -> Option<Seq<char>> {
    match recovery_at {
        Some(_) => Some("  recovery: "@ + text),
        None => None,
    }
}

/// The lines of a forecast. `at_text` and `recovery_text` are the moments as they
/// are shown.
pub open spec fn forecast_lines(
    f: UsageForecast,
    at_text: Seq<char>,
    recovery_text: Seq<char>,
) -> Seq<Seq<char>> {
    seq!["overall estimate:"@] + match f.outcome {
        UsageForecastOutcome::NotExpected { horizon_seconds } => seq![
            "  unavailable: not expected within "@ + duration_shown(
                horizon_seconds as u64 as nat,
            ) + " at current pace"@,
        ] + line_if(rates_shown(f.rates)),
        UsageForecastOutcome::Unavailable { at, limited_by, recovery_at } => seq![
            "  unavailable: "@ + at_text,
        ] + seq!["  limited by: "@ + limited_by.name()] + line_if(
            recovery_shown(recovery_at, recovery_text),
        ) + line_if(outage_shown(at, recovery_at)) + line_if(rates_shown(f.rates)),
        UsageForecastOutcome::NotEnoughData { .. } => seq![
            "  unavailable: not enough complete usage data"@,
        ],
    }
}

/// A forecast, with its moments as they are shown.
pub fn format_forecast_lines(forecast: &UsageForecast, at_text: &str, recovery_text: &str) -> (r:
    String)
    ensures
        r@ == text::joined(forecast_lines(*forecast, at_text@, recovery_text@), "\n"@),
{
    let mut lines: Vec<String> = Vec::new();
    assert(text::views(lines@) =~= Seq::empty());
    add_line(&mut lines, "overall estimate:".to_owned());
    assert(text::views(lines@) =~= seq!["overall estimate:"@]);
    let ghost start = text::views(lines@);
    match forecast.outcome {
        UsageForecastOutcome::NotExpected { horizon_seconds } => {
            let duration = format_reset_duration(horizon_seconds as u64);
            add_line(
                &mut lines,
                text::cat3(
                    "  unavailable: not expected within ",
                    duration.as_str(),
                    " at current pace",
                ),
            );
            add_line_if(&mut lines, format_estimated_rate(&forecast.rates));
        },
        UsageForecastOutcome::Unavailable { at, limited_by, recovery_at } => {
            add_line(&mut lines, text::cat2("  unavailable: ", at_text));
            add_line(&mut lines, text::cat2("  limited by: ", limited_by.as_str()));
            let mut recovery: Option<String> = None;
            let mut outage: Option<String> = None;
            if let Some(back) = recovery_at {
                recovery = Some(text::cat2("  recovery: ", recovery_text));
                if back >= at {
                    let span = format_reset_duration(absolute(saturating_difference(back, at)));
                    outage = Some(text::cat2("  expected outage: ", span.as_str()));
                }
            }
            add_line_if(&mut lines, recovery);
            add_line_if(&mut lines, outage);
            add_line_if(&mut lines, format_estimated_rate(&forecast.rates));
        },
        UsageForecastOutcome::NotEnoughData { reason: _ } => {
            add_line(&mut lines, "  unavailable: not enough complete usage data".to_owned());
        },
    }
    assert(text::views(lines@) =~= forecast_lines(*forecast, at_text@, recovery_text@));
    text::join(&lines, "\n")
}

/// The moments of a forecast are clear.
pub open spec fn is_clear_forecast(f: UsageForecast) -> bool {
    f.outcome matches UsageForecastOutcome::Unavailable { at, recovery_at, .. } ==> is_clear(
        at as int,
    ) && is_option_clear(recovery_at)
}

/// The text of the moment at which the usage runs out, and of the one at which it
/// is back.
pub open spec fn are_forecast_texts(
    at_text: Seq<char>,
    recovery_text: Seq<char>,
    f: UsageForecast,
    now: int,
) -> bool {
    f.outcome matches UsageForecastOutcome::Unavailable { at, recovery_at, .. }
        ==> is_timestamp_shown(at_text, at as int, now) && is_option_shown(
        recovery_text,
        recovery_at,
        now,
    )
}

pub fn format_usage_forecast(forecast: &UsageForecast, now: i64) -> (r: String)
    requires
        is_clear(now as int),
        is_clear_forecast(*forecast),
    ensures
        exists|at_text: Seq<char>, recovery_text: Seq<char>|
            are_forecast_texts(at_text, recovery_text, *forecast, now as int) && r@ == text::joined(
                #[trigger] forecast_lines(*forecast, at_text, recovery_text),
                "\n"@,
            ),
{
    let (at_text, recovery_text) = match forecast.outcome {
        UsageForecastOutcome::Unavailable { at, limited_by: _, recovery_at } => (
            format_reset_timestamp(at, now),
            format_reset_timestamp_option(recovery_at, now),
        ),
        _ => (String::new(), String::new()),
    };
    let r = format_forecast_lines(forecast, at_text.as_str(), recovery_text.as_str());
    assert(are_forecast_texts(at_text@, recovery_text@, *forecast, now as int));
    assert(r@ == text::joined(forecast_lines(*forecast, at_text@, recovery_text@), "\n"@));
    r
}

// ---------------------------------------------------------------------------
// Laws
// ---------------------------------------------------------------------------

/// A span is shown by its days and hours, its hours and minutes, or its minutes; what
/// is less than a minute counts as one.
pub proof fn spans_are_shown_by_their_largest_units(
    days: nat,
    hours: nat,
    minutes: nat,
    seconds: nat,
)
    requires
        hours < 24,
        minutes < 60,
        seconds < 60,
    ensures
        ({
            let s = duration_shown((((days * 24 + hours) * 60 + minutes) * 60 + seconds) as nat);
            &&& (days > 0 && hours > 0 ==> s == text::decimal(days) + "d "@ + text::decimal(hours)
                + "h"@)
            &&& (days > 0 && hours == 0 && minutes > 0 ==> s == text::decimal(days) + "d "@
                + text::decimal(minutes) + "m"@)
            &&& (days > 0 && hours == 0 && minutes == 0 ==> s == text::decimal(days) + "d"@)
            &&& (days == 0 && hours > 0 && minutes > 0 ==> s == text::decimal(hours) + "h "@
                + text::decimal(minutes) + "m"@)
            &&& (days == 0 && hours > 0 && minutes == 0 ==> s == text::decimal(hours) + "h"@)
            &&& (days == 0 && hours == 0 && minutes > 0 ==> s == text::decimal(minutes) + "m"@)
            &&& (days == 0 && hours == 0 && minutes == 0 ==> s == text::decimal(1) + "m"@)
        }),
{
    let all = (((days * 24 + hours) * 60 + minutes) * 60 + seconds) as nat;
    let total = (days * 24 + hours) * 60 + minutes;
    assert(all == total * 60 + seconds);
    assert(all / 60 == total);
    assert(total / 1_440 == days && (total % 1_440) / 60 == hours && total % 60 == minutes);
}

/// A moment ahead is so far ahead, one that has passed is overdue by as much, and less
/// than a minute either way is now.
pub proof fn moments_are_shown_from_now(now: int, span: int)
    requires
        0 <= span < i64::MAX,
    ensures
        span < 60 ==> relative_shown(now + span, now) == "now"@ && relative_shown(now - span, now)
            == "now"@,
        span >= 60 ==> relative_shown(now + span, now) == "in "@ + duration_shown(span as nat),
        span >= 60 ==> relative_shown(now - span, now) == "overdue by "@ + duration_shown(
            span as nat,
        ),
{
}

/// A moment is shown by the day where it is near, by the weekday within a week, and by
/// the date otherwise, with the year only where it is another one.
pub proof fn near_moments_are_shown_by_the_day(dt: LocalMoment, now: LocalMoment)
    ensures
        dt.day == now.day ==> short_shown(dt, now) == "today "@ + dt.clock@,
        dt.day == now.day + 1 ==> short_shown(dt, now) == "tomorrow "@ + dt.clock@,
        now.day + 2 <= dt.day <= now.day + 6 ==> short_shown(dt, now) == dt.weekday_clock@,
        (dt.day < now.day || dt.day >= now.day + 7) && dt.year == now.year ==> short_shown(dt, now)
            == dt.clock_date@,
        (dt.day < now.day || dt.day >= now.day + 7) && dt.year != now.year ==> short_shown(dt, now)
            == dt.clock_full_date@,
{
}

/// A moment is shown both from now and on the clock; one that has no date is shown as
/// its number.
pub proof fn moments_are_shown_twice(
    timestamp: int,
    now: int,
    dt: Option<LocalMoment>,
    now_local: Option<LocalMoment>,
)
    ensures
        dt is Some && now_local is Some ==> text::begins_with(
            timestamp_shown(timestamp, now, dt, now_local),
            relative_shown(timestamp, now),
        ) && text::finishes_with(
            timestamp_shown(timestamp, now, dt, now_local),
            "("@ + short_shown(dt->Some_0, now_local->Some_0) + ")"@,
        ),
        dt is None || now_local is None ==> timestamp_shown(timestamp, now, dt, now_local)
            == text::decimal_int(timestamp),
{
    if dt is Some && now_local is Some {
        let s = timestamp_shown(timestamp, now, dt, now_local);
        let a = relative_shown(timestamp, now);
        let b = "("@ + short_shown(dt->Some_0, now_local->Some_0) + ")"@;
        reveal_strlit(" (");
        reveal_strlit("(");
        assert(s.subrange(0, a.len() as int) =~= a);
        assert(s.subrange(s.len() - b.len(), s.len() as int) =~= b);
    }
}

proof fn repeated_chars(c: char, n: nat)
    ensures
        text::repeated(seq![c], n).len() == n,
        forall|i: int| 0 <= i < n ==> #[trigger] text::repeated(seq![c], n)[i] == c,
    decreases n,
{
    if n > 0 {
        repeated_chars(c, (n - 1) as nat);
    }
}

/// A bar has twenty cells, and as many of them are filled as there are to fill, from
/// the left.
pub proof fn bars_are_filled_from_the_left(cells: Option<u64>, filled: char, empty: char, i: int)
    requires
        0 <= i < 20,
    ensures
        bar(cells, seq![filled], seq![empty]).len() == 20,
        cells is Some && i < cells->Some_0 ==> bar(cells, seq![filled], seq![empty])[i] == filled,
        cells is Some && i >= cells->Some_0 ==> bar(cells, seq![filled], seq![empty])[i] == empty,
        cells is None ==> bar(cells, seq![filled], seq![empty])[i] == empty,
{
    let n: nat = match cells {
        Some(c) => if c <= 20 {
            c as nat
        } else {
            20
        },
        None => 0,
    };
    repeated_chars(filled, n);
    repeated_chars(empty, (20 - n) as nat);
}

/// The bars show what is left of the quota, and what is left of the time.
pub proof fn bars_show_what_is_left(used: Option<UsedPercent>, share: Option<ResetShare>)
    ensures
        used is Some ==> left_bar(used) == bar(
            Some(used->Some_0.left_cells),
            "\u{2588}"@,
            "\u{2591}"@,
        ) && left_shown(used) == used->Some_0.left_shown@ + "% left"@,
        used is None ==> left_bar(used) == bar(None, "\u{2588}"@, "\u{2591}"@) && left_shown(used)
            == "-"@,
        share is Some ==> share_bar(share) == bar(
            Some(share->Some_0.cells),
            "\u{2588}"@,
            "\u{2500}"@,
        ) && share_shown(share) == share->Some_0.percent_shown@ + "% remaining"@,
        share is None ==> share_shown(share) == "-"@,
{
}

/// What is left of a window is the time up to its reset, never less than nothing, of
/// the window's minutes; and it is not known where either is missing.
pub proof fn windows_run_until_their_reset(resets_at: i64, minutes: i64, now: i64)
    ensures
        remaining_of(None, Some(minutes), now as int) is None,
        remaining_of(Some(resets_at), None, now as int) is None,
        minutes <= 0 ==> remaining_of(Some(resets_at), Some(minutes), now as int) is None,
        !calendar::in_calendar(resets_at as int) ==> remaining_of(
            Some(resets_at),
            Some(minutes),
            now as int,
        ) is None,
        0 < minutes <= 10_080 && calendar::in_calendar(resets_at as int) && now <= resets_at
            && resets_at - now <= i64::MAX ==> remaining_of(
            Some(resets_at),
            Some(minutes),
            now as int,
        ) == Some((resets_at - now, minutes * 60)),
        0 < minutes <= 10_080 && calendar::in_calendar(resets_at as int) && now > resets_at
            ==> remaining_of(Some(resets_at), Some(minutes), now as int) == Some(
            (0int, minutes * 60),
        ),
{
}

/// What is known of a reset is told, the share first.
pub proof fn what_is_known_of_a_reset_is_told(share: Option<ResetShare>, reset: Seq<char>)
    ensures
        share is None ==> detail_shown(share_shown(share), reset) == reset,
        share is Some && reset == "-"@ ==> detail_shown(share_shown(share), reset)
            == share->Some_0.percent_shown@ + "% remaining"@,
        share is Some && reset != "-"@ ==> detail_shown(share_shown(share), reset)
            == share->Some_0.percent_shown@ + "% remaining"@ + ", "@ + reset,
{
    reveal_strlit("-");
    reveal_strlit("% remaining");
    if share is Some {
        let s = share_shown(share);
        assert(s.len() == share->Some_0.percent_shown@.len() + 11);
        assert("-"@.len() == 1);
    }
}

/// A window is shown with its label, its quota on the first line and its reset on the
/// second.
pub proof fn windows_are_shown_on_two_lines(
    label: Seq<char>,
    used: Option<UsedPercent>,
    w: WindowShown,
)
    ensures
        text::begins_with(window_shown(label, used, w), label),
        text::finishes_with(
            window_shown(label, used, w),
            share_bar(w.share) + "] "@ + detail_shown(share_shown(w.share), w.reset@),
        ),
        text::begins_with(
            window_shown(label, used, w),
            text::padded(label, wider(label)) + " ┬ quota ["@ + left_bar(used) + "] "@ + left_shown(
                used,
            ) + "\n"@,
        ),
{
    let s = window_shown(label, used, w);
    text::padding_fills_up(label, wider(label));
    let p = text::padded(label, wider(label));
    assert(s.subrange(0, label.len() as int) =~= p.subrange(0, label.len() as int));
    let e = share_bar(w.share) + "] "@ + detail_shown(share_shown(w.share), w.reset@);
    assert(s.subrange(s.len() - e.len(), s.len() as int) =~= e);
    let h = p + " ┬ quota ["@ + left_bar(used) + "] "@ + left_shown(used) + "\n"@;
    assert(s.subrange(0, h.len() as int) =~= h);
}

/// The current account has a star before its label, and one that cannot be used is
/// marked behind it.
pub proof fn headers_mark_accounts(account: StoredAccount, is_current: bool, is_limited: bool)
    ensures
        is_current ==> text::begins_with(
            header_shown(account, is_current, is_limited),
            "* "@ + accounts::label(account),
        ),
        !is_current ==> text::begins_with(
            header_shown(account, is_current, is_limited),
            accounts::label(account),
        ),
        is_limited ==> text::finishes_with(
            header_shown(account, is_current, is_limited),
            accounts::label(account) + " [UNAVAILABLE]"@,
        ),
        !is_limited ==> text::finishes_with(
            header_shown(account, is_current, is_limited),
            accounts::label(account),
        ),
{
    reveal_strlit("");
    let s = header_shown(account, is_current, is_limited);
    let l = accounts::label(account);
    let h = if is_current {
        "* "@ + l
    } else {
        l
    };
    let e = if is_limited {
        l + " [UNAVAILABLE]"@
    } else {
        l
    };
    assert(s.subrange(0, h.len() as int) =~= h);
    assert(s.subrange(s.len() - e.len(), s.len() as int) =~= e);
}

/// Each kind of limit has its own words: rates, credits and usage are told apart,
/// whether it is the owner's or a member's.
pub proof fn limits_are_told_apart()
    ensures
        limit_reason("rate_limit_reached"@) == "rate limited"@,
        limit_reason("workspace_owner_credits_depleted"@) == limit_reason(
            "workspace_member_credits_depleted"@,
        ),
        limit_reason("workspace_member_credits_depleted"@) == "credits depleted"@,
        limit_reason("workspace_owner_usage_limit_reached"@) == limit_reason(
            "workspace_member_usage_limit_reached"@,
        ),
        limit_reason("workspace_member_usage_limit_reached"@) == "usage limit reached"@,
        forall|kind: Seq<char>|
            kind.len() < 18 || kind.len() > 36 ==> #[trigger] limit_reason(kind) == "limited"@,
{
    reveal_strlit("rate_limit_reached");
    reveal_strlit("workspace_owner_credits_depleted");
    reveal_strlit("workspace_member_credits_depleted");
    reveal_strlit("workspace_owner_usage_limit_reached");
    reveal_strlit("workspace_member_usage_limit_reached");
    assert("rate_limit_reached"@.len() == 18);
    assert("workspace_owner_credits_depleted"@.len() == 32);
    assert("workspace_member_credits_depleted"@.len() == 33);
    assert("workspace_owner_usage_limit_reached"@.len() == 35);
    assert("workspace_member_usage_limit_reached"@.len() == 36);

}

/// A report that failed has no status; a limit that was reached is the status before
/// any other reason, with its kind behind it.
pub proof fn limits_are_the_status(info: UsageInfo)
    ensures
        info.error is Some ==> status_shown(info) is None,
        info.error is None && info.rate_limit_reached_type is Some ==> status_shown(info) is Some
            && text::finishes_with(
            status_shown(info)->Some_0,
            "("@ + info.rate_limit_reached_type->Some_0@ + ")"@,
        ),
        info.error is None && info.rate_limit_reached_type is None ==> (status_shown(info) is Some
            <==> assessment::unavailable_reason(info) is Some),
        info.error is None && info.rate_limit_reached_type is None && assessment::unavailable_reason(
            info,
        ) is Some ==> status_shown(info) == Some(
            "status: "@ + assessment::unavailable_reason(info)->Some_0,
        ),
{
    if info.error is None && info.rate_limit_reached_type is Some {
        let s = status_shown(info)->Some_0;
        let e = "("@ + info.rate_limit_reached_type->Some_0@ + ")"@;
        reveal_strlit(" (");
        reveal_strlit("(");
        assert(s.subrange(s.len() - e.len(), s.len() as int) =~= e);
    }
}

/// Credits are shown where anything is known of them: unlimited before a balance, a
/// balance before whether there are any.
pub proof fn credits_are_told(info: UsageInfo)
    ensures
        info.has_credits is None && info.unlimited_credits is None && info.credits_balance is None
            <==> credits_shown(info) is None,
        info.unlimited_credits == Some(true) ==> credits_shown(info) == Some(
            "credits: "@ + "unlimited"@,
        ),
        info.unlimited_credits != Some(true) && info.credits_balance is Some ==> credits_shown(info)
            == Some("credits: "@ + info.credits_balance->Some_0.text@),
        info.unlimited_credits != Some(true) && info.credits_balance is None && info.has_credits
            == Some(false) ==> credits_shown(info) == Some("credits: "@ + "none"@),
        info.unlimited_credits != Some(true) && info.credits_balance is None && info.has_credits
            == Some(true) ==> credits_shown(info) == Some("credits: "@ + "available"@),
{
}

/// The resets that are left are shown as a number that is not below zero.
pub proof fn resets_are_counted(info: UsageInfo, n: i64)
    requires
        info.rate_limit_reset_credits_available == Some(n),
    ensures
        n >= 0 ==> resets_shown(info) == Some(
            "rate-limit resets: "@ + text::decimal_int(n as int) + " available"@,
        ),
        n < 0 ==> resets_shown(info) == Some(
            "rate-limit resets: "@ + text::decimal_int(0) + " available"@,
        ),
{
}

/// The windows of a report are numbered: its own two first, then two for each further
/// limit, the primary one before the secondary.
pub proof fn windows_are_numbered(info: UsageInfo, k: int)
    requires
        0 <= k < info.additional_limits@.len(),
    ensures
        window_at(info, 0) == info.primary,
        window_at(info, 1) == info.secondary,
        window_at(info, 2 + 2 * k) == info.additional_limits@[k].primary,
        window_at(info, 3 + 2 * k) == info.additional_limits@[k].secondary,
{
}

/// Each further limit is shown with its title and its two windows, the five-hour one
/// first.
pub proof fn further_limits_are_shown(
    limits: Seq<UsageLimitInfo>,
    windows: Seq<WindowShown>,
    n: int,
    k: int,
)
    requires
        0 <= k < n <= limits.len(),
    ensures
        limits_shown(limits, windows, n).len() == 3 * n,
        limits_shown(limits, windows, n)[3 * k] == "additional "@ + limits[k].title() + ":"@,
        limits_shown(limits, windows, n)[3 * k + 1] == window_shown(
            "  5-hour"@,
            limits[k].primary.used_percent,
            windows[2 + 2 * k],
        ),
        limits_shown(limits, windows, n)[3 * k + 2] == window_shown(
            "  weekly"@,
            limits[k].secondary.used_percent,
            windows[3 + 2 * k],
        ),
    decreases n,
{
    if n > 1 {
        if k < n - 1 {
            further_limits_are_shown(limits, windows, n - 1, k);
        } else {
            further_limits_are_shown(limits, windows, n - 1, 0);
        }
    } else {
        assert(limits_shown(limits, windows, 0) =~= Seq::<Seq<char>>::empty());
    }
}

/// Usage is shown below its account: an error alone where there is one, and otherwise
/// the plan and both windows; the further limits come last, where they are asked for.
pub proof fn usage_is_shown_below_its_account(
    account: StoredAccount,
    info: UsageInfo,
    is_current: bool,
    windows: Seq<WindowShown>,
)
    ensures
        ({
            let short = usage_lines(account, info, is_current, false, windows);
            let long = usage_lines(account, info, is_current, true, windows);
            &&& short[0] == header_shown(account, is_current, status_shown(info) is Some)
            &&& (info.is_unsupported() ==> short.len() == 2 && short[1] == "usage: unsupported"@)
            &&& (info.error is Some && !info.is_unsupported() ==> short.len() == 2 && short[1]
                == "usage error: "@ + info.error->Some_0@)
            &&& (info.error is Some ==> long == short)
            &&& (info.error is None ==> long == short + limits_shown(
                info.additional_limits@,
                windows,
                info.additional_limits@.len() as int,
            ))
            &&& (info.error is None ==> short[1] == "plan: "@ + (match info.plan_type {
                Some(p) => p@,
                None => "-"@,
            }))
            &&& (info.error is None ==> short.contains(
                window_shown("5-hour"@, info.primary.used_percent, windows[0]),
            ))
            &&& (info.error is None ==> short.contains(
                window_shown("weekly"@, info.secondary.used_percent, windows[1]),
            ))
            &&& (info.error is None && status_shown(info) is Some ==> short[2] == status_shown(
                info,
            )->Some_0)
            &&& (info.error is None && credits_shown(info) is Some ==> short.contains(
                credits_shown(info)->Some_0,
            ))
            &&& (info.error is None && resets_shown(info) is Some ==> short.last() == resets_shown(
                info,
            )->Some_0)
        }),
{
    let short = usage_lines(account, info, is_current, false, windows);
    let long = usage_lines(account, info, is_current, true, windows);
    if info.error is None {
        let k: int = if status_shown(info) is Some {
            3
        } else {
            2
        };
        assert(long =~= short + limits_shown(
            info.additional_limits@,
            windows,
            info.additional_limits@.len() as int,
        ));
        assert(short[k] == window_shown("5-hour"@, info.primary.used_percent, windows[0]));
        assert(short[k + 1] == window_shown("weekly"@, info.secondary.used_percent, windows[1]));
        if credits_shown(info) is Some {
            assert(short[k + 2] == credits_shown(info)->Some_0);
        }
    }
}

/// Rates are shown where both are known, the five-hour one first.
pub proof fn rates_are_shown_together(
    a: crate::forecast::ForecastRate,
    b: crate::forecast::ForecastRate,
)
    ensures
        rates_shown(None) is None,
        rates_shown(
            Some(
                UsageForecastRates {
                    five_hour_percent_per_hour: Some(a),
                    weekly_percent_per_hour: Some(b),
                },
            ),
        ) == Some("  estimated rate: 5-hour "@ + a.shown@ + "%/h, weekly "@ + b.shown@ + "%/h"@),
        rates_shown(
            Some(
                UsageForecastRates {
                    five_hour_percent_per_hour: Some(a),
                    weekly_percent_per_hour: None,
                },
            ),
        ) is None,
        rates_shown(
            Some(
                UsageForecastRates {
                    five_hour_percent_per_hour: None,
                    weekly_percent_per_hour: Some(b),
                },
            ),
        ) is None,
{
}

/// An outage lasts from its beginning to the recovery, where that comes later.
pub proof fn outages_last_until_the_recovery(at: i64, recovery_at: i64)
    ensures
        outage_shown(at, None) is None,
        recovery_at < at ==> outage_shown(at, Some(recovery_at)) is None,
        recovery_at >= at && recovery_at - at <= i64::MAX ==> outage_shown(at, Some(recovery_at))
            == Some("  expected outage: "@ + duration_shown((recovery_at - at) as nat)),
{
}

/// A forecast tells when usage runs out, by which limit, when it comes back and for how
/// long it is gone; or that it does not run out, or that it cannot be told.
pub proof fn forecasts_are_told(f: UsageForecast, at_text: Seq<char>, recovery_text: Seq<char>)
    ensures
        ({
            let lines = forecast_lines(f, at_text, recovery_text);
            &&& lines[0] == "overall estimate:"@
            &&& (f.outcome is Unavailable ==> lines[1] == "  unavailable: "@ + at_text && lines[2]
                == "  limited by: "@ + f.outcome->limited_by.name())
            &&& (f.outcome is Unavailable && f.outcome->recovery_at is Some ==> lines[3]
                == "  recovery: "@ + recovery_text)
            &&& (f.outcome is Unavailable && f.outcome->recovery_at is Some && outage_shown(
                f.outcome->at,
                f.outcome->recovery_at,
            ) is Some ==> lines[4] == outage_shown(
                f.outcome->at,
                f.outcome->recovery_at,
            )->Some_0)
            &&& (f.outcome is NotExpected && f.outcome->horizon_seconds >= 0 ==> lines[1]
                == "  unavailable: not expected within "@ + duration_shown(
                f.outcome->horizon_seconds as nat,
            ) + " at current pace"@)
            &&& (f.outcome is NotEnoughData ==> lines == seq![
                "overall estimate:"@,
                "  unavailable: not enough complete usage data"@,
            ])
            &&& (!(f.outcome is NotEnoughData) && rates_shown(f.rates) is Some ==> lines.last()
                == rates_shown(f.rates)->Some_0)
        }),
{
    let lines = forecast_lines(f, at_text, recovery_text);
    if f.outcome is NotEnoughData {
        assert(lines =~= seq![
            "overall estimate:"@,
            "  unavailable: not enough complete usage data"@,
        ]);
    }
}

} // verus!
