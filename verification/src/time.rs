//! Moments in time as texts.
use crate::accounts::Timestamp;
use crate::calendar;
use crate::text;
use vstd::prelude::*;

verus! {

/// A moment after RFC 3339, in UTC; `None` for a moment beyond the calendar.
pub open spec fn rfc3339(seconds: int, nanos: int) -> Option<Seq<char>> {
    if calendar::in_calendar(seconds) {
        Some(calendar::rfc3339_text(seconds, nanos, "+00:00"@))
    } else {
        None
    }
}

/// `chrono::DateTime::from_timestamp` and `to_rfc3339`: the moment after RFC 3339,
/// with a sign before a year that is not one of four digits.
#[verifier::external_body]
fn format_rfc3339(seconds: i64, nanos: u32) -> (r: Option<String>)
    requires
        calendar::is_subsecond(seconds as int, nanos as int),
    ensures
        text::opt_view(r) == rfc3339(seconds as int, nanos as int),
{
    chrono::DateTime::<chrono::Utc>::from_timestamp(seconds, nanos).map(|d| d.to_rfc3339())
}

/// The nanoseconds since the Unix epoch.
pub open spec fn total_nanos(t: Timestamp) -> int {
    t.millis * 1_000_000 + t.nanos
}

/// A moment in a leap second.
pub open spec fn is_leap_second(t: Timestamp) -> bool {
    &&& t.millis as int % 1000 == 999
    &&& t.millis as int / 1000 % 60 == 59
    &&& 1_000_000 <= t.nanos < 1_001_000_000
}

/// The whole seconds of a moment. A leap second has those of the second before it.
pub open spec fn seconds_of(t: Timestamp) -> int {
    if is_leap_second(t) {
        t.millis as int / 1000
    } else {
        total_nanos(t) / 1_000_000_000
    }
}

/// The nanoseconds of a moment beyond its whole seconds.
pub open spec fn subsecond_of(t: Timestamp) -> int {
    total_nanos(t) - seconds_of(t) * 1_000_000_000
}

/// The whole seconds of so many milliseconds, and the milliseconds beyond them.
fn split_millis(millis: i64) -> (r: (i64, i64))
    ensures
        r.0 as int == millis as int / 1000,
        r.1 as int == millis as int % 1000,
{
    if millis >= 0 {
        (millis / 1000, millis % 1000)
    } else {
        let k: i64 = (-(millis + 1)) / 1000;
        (-k - 1, 999 - (-(millis + 1)) % 1000)
    }
}

pub fn parts(t: Timestamp) -> (r: (i64, u32))
    ensures
        r.0 as int == seconds_of(t),
        r.1 as int == subsecond_of(t),
        calendar::is_subsecond(r.0 as int, r.1 as int),
{
    if 1_000_000 <= t.nanos && t.nanos < 1_001_000_000 {
        let (seconds, rest) = split_millis(t.millis);
        let minute: i64 = if seconds >= 0 {
            seconds % 60
        } else {
            59 - (-(seconds + 1)) % 60
        };
        assert(minute as int == seconds as int % 60);
        if rest == 999 && minute == 59 {
            return (seconds, 999_000_000 + t.nanos);
        }
    }
    let total: i128 = t.millis as i128 * 1_000_000 + t.nanos as i128;
    let mut seconds: i128 = total / 1_000_000_000;
    let mut rest: i128 = total - seconds * 1_000_000_000;
    if rest < 0 {
        seconds = seconds - 1;
        rest = rest + 1_000_000_000;
    }
    assert(seconds * 1_000_000_000 + rest == total);
    assert(0 <= rest < 1_000_000_000);
    (seconds as i64, rest as u32)
}

/// The whole seconds of a moment since the Unix epoch, rounded down.
pub fn whole_seconds(t: Timestamp) -> (r: i64)
    ensures
        r as int == seconds_of(t),
{
    parts(t).0
}

/// The moment with so many seconds and nanoseconds, where it can be held.
pub open spec fn moment_of(seconds: int, nanos: int) -> Option<Timestamp> {
    let millis = seconds * 1000 + if nanos < 1_000_000_000 {
        nanos / 1_000_000
    } else {
        999
    };
    let beyond = if nanos < 1_000_000_000 {
        nanos % 1_000_000
    } else {
        nanos - 999_000_000
    };
    if i64::MIN <= millis <= i64::MAX {
        Some(Timestamp { millis: millis as i64, nanos: beyond as u32 })
    } else {
        None
    }
}

pub fn from_parts(seconds: i64, nanos: u32) -> (r: Option<Timestamp>)
    ensures
        r == moment_of(seconds as int, nanos as int),
{
    let whole: u32 = if nanos < 1_000_000_000 {
        nanos / 1_000_000
    } else {
        999
    };
    let beyond: u32 = if nanos < 1_000_000_000 {
        nanos % 1_000_000
    } else {
        nanos - 999_000_000
    };
    let millis: i128 = seconds as i128 * 1000 + whole as i128;
    if millis < i64::MIN as i128 || millis > i64::MAX as i128 {
        return None;
    }
    Some(Timestamp { millis: millis as i64, nanos: beyond })
}

/// A moment whose parts are in order: less than a millisecond beyond the whole
/// ones, but for a leap second.
pub open spec fn is_sound(t: Timestamp) -> bool {
    t.nanos < 1_000_000 || is_leap_second(t)
}

/// A moment is the one with its seconds and nanoseconds.
pub proof fn parts_make_the_moment(t: Timestamp)
    requires
        is_sound(t),
    ensures
        moment_of(seconds_of(t), subsecond_of(t)) == Some(t),
{
    let s = seconds_of(t);
    let n = subsecond_of(t);
    if !is_leap_second(t) {
        assert(s * 1_000_000_000 + n == t.millis * 1_000_000 + t.nanos);
        assert(s * 1000 + n / 1_000_000 == t.millis && n % 1_000_000 == t.nanos) by (nonlinear_arith)
            requires
                s * 1_000_000_000 + n == t.millis * 1_000_000 + t.nanos,
                0 <= n < 1_000_000_000,
                0 <= t.nanos < 1_000_000,
        ;
    }
}

/// A moment as it is shown: after RFC 3339 where that is possible, else as the
/// seconds since the Unix epoch.
pub open spec fn shown_moment(t: Timestamp) -> Seq<char> {
    match rfc3339(seconds_of(t), subsecond_of(t)) {
        Some(s) => s,
        None => text::decimal_int(seconds_of(t)),
    }
}

pub fn show_moment(t: Timestamp) -> (r: String)
    ensures
        r@ == shown_moment(t),
{
    let (seconds, nanos) = parts(t);
    match format_rfc3339(seconds, nanos) {
        Some(s) => s,
        None => text::signed_number(seconds),
    }
}

// ---------------------------------------------------------------------------
// Moments in files
// ---------------------------------------------------------------------------

/// A moment after RFC 3339, in UTC with a `Z`; `None` for a moment beyond the
/// calendar.
pub open spec fn rfc3339_z(seconds: int, nanos: int) -> Option<Seq<char>> {
    if calendar::in_calendar(seconds) {
        Some(calendar::rfc3339_text(seconds, nanos, "Z"@))
    } else {
        None
    }
}

/// `chrono::DateTime::from_timestamp` and `to_rfc3339_opts` with
/// `SecondsFormat::AutoSi` and a `Z`: the moment after RFC 3339, with a sign before
/// a year that is not one of four digits.
#[verifier::external_body]
fn format_rfc3339_z(seconds: i64, nanos: u32) -> (r: Option<String>)
    requires
        calendar::is_subsecond(seconds as int, nanos as int),
    ensures
        text::opt_view(r) == rfc3339_z(seconds as int, nanos as int),
{
    chrono::DateTime::<chrono::Utc>::from_timestamp(seconds, nanos).map(
        |d| d.to_rfc3339_opts(chrono::SecondsFormat::AutoSi, true),
    )
}

/// The moment that `chrono` reads from a text, by its seconds and nanoseconds.
pub uninterp spec fn read_rfc3339(s: Seq<char>) -> Option<(int, int)>;

pub open spec fn parts_view(r: Option<(i64, u32)>) -> Option<(int, int)> {
    match r {
        Some((s, n)) => Some((s as int, n as int)),
        None => None,
    }
}

/// Where the text is that of a moment of the calendar, that moment was read.
pub open spec fn reads_moment_back(read: Option<(i64, u32)>, s: Seq<char>) -> bool {
    forall|seconds: int, nanos: int|
        calendar::in_calendar(seconds) && calendar::is_subsecond(seconds, nanos) && #[trigger] rfc3339_z(
            seconds,
            nanos,
        ) == Some(s) ==> parts_view(read) == Some((seconds, nanos))
}

/// Reads a moment with `str::parse` into `chrono::DateTime<chrono::Utc>`. Claimed:
/// the outcome is that of the text alone, and a moment that was written reads
/// back as itself. Not stated: which texts are read.
#[verifier::external_body]
fn parse_rfc3339(s: &str) -> (r: Option<(i64, u32)>)
    ensures
        parts_view(r) == read_rfc3339(s@),
        reads_moment_back(r, s@),
{
    let moment = s.parse::<chrono::DateTime<chrono::Utc>>().ok()?;
    Some((moment.timestamp(), moment.timestamp_subsec_nanos()))
}

/// A moment as it stands in a file.
pub open spec fn written_moment(t: Timestamp) -> Option<Seq<char>> {
    rfc3339_z(seconds_of(t), subsecond_of(t))
}

pub fn write_moment(t: Timestamp) -> (r: Option<String>)
    ensures
        text::opt_view(r) == written_moment(t),
        r is Some <==> calendar::in_calendar(seconds_of(t)),
{
    let (seconds, nanos) = parts(t);
    format_rfc3339_z(seconds, nanos)
}

/// The moment that a text in a file stands for.
pub open spec fn read_moment_of(s: Seq<char>) -> Option<Timestamp> {
    match read_rfc3339(s) {
        Some((seconds, nanos)) => moment_of(seconds, nanos),
        None => None,
    }
}

pub fn read_moment(s: &str) -> (r: Option<Timestamp>)
    ensures
        r == read_moment_of(s@),
        forall|t: Timestamp| #[trigger] written_moment(t) == Some(s@) && is_sound(t) ==> r
            == Some(t),
{
    let found = parse_rfc3339(s);
    proof {
        assert forall|t: Timestamp| #[trigger] written_moment(t) == Some(s@) && is_sound(
            t,
        ) implies read_moment_of(s@) == Some(t) by {
            assert(rfc3339_z(seconds_of(t), subsecond_of(t)) == Some(s@));
            parts_make_the_moment(t);
        }
    }
    match found {
        Some((seconds, nanos)) => from_parts(seconds, nanos),
        None => None,
    }
}

/// The seconds and the nanoseconds of a moment are those it is made of.
pub proof fn moments_are_made_of_their_parts(seconds: int, nanos: int)
    requires
        0 <= nanos < 1_000_000_000,
    ensures
        moment_of(seconds, nanos) matches Some(t) ==> seconds_of(t) == seconds && subsecond_of(t)
            == nanos && is_sound(t),
        i64::MIN <= seconds * 1000 && seconds * 1000 + 999 <= i64::MAX ==> moment_of(seconds, nanos)
            is Some,
{
    if moment_of(seconds, nanos) is Some {
        let t = moment_of(seconds, nanos)->Some_0;
        assert(t.millis * 1_000_000 + t.nanos == seconds * 1_000_000_000 + nanos);
    }
}

/// A later moment has at least as many seconds, and moments of one second are told
/// apart by the nanoseconds.
pub proof fn later_moments_have_later_parts(a: Timestamp, b: Timestamp)
    requires
        is_sound(a),
        is_sound(b),
        a.is_before(b),
    ensures
        seconds_of(a) <= seconds_of(b),
        seconds_of(a) == seconds_of(b) ==> subsecond_of(a) < subsecond_of(b),
{
}

/// A moment is written in UTC: as a report it ends with the offset, in a file with `Z`.
pub proof fn moments_are_written_in_utc(seconds: int, nanos: int)
    ensures
        rfc3339(seconds, nanos) is Some <==> calendar::in_calendar(seconds),
        rfc3339_z(seconds, nanos) is Some <==> calendar::in_calendar(seconds),
        rfc3339(seconds, nanos) matches Some(s) ==> text::finishes_with(s, "+00:00"@),
        rfc3339_z(seconds, nanos) matches Some(s) ==> text::finishes_with(s, "Z"@)
            && text::begins_with(s, calendar::date_text(calendar::date_at(seconds)) + "T"@),
{
    if calendar::in_calendar(seconds) {
        let a = rfc3339(seconds, nanos)->Some_0;
        let e = "+00:00"@;
        assert(a.subrange(a.len() - e.len(), a.len() as int) =~= e);
        let b = rfc3339_z(seconds, nanos)->Some_0;
        let z = "Z"@;
        assert(b.subrange(b.len() - z.len(), b.len() as int) =~= z);
        let d = calendar::date_text(calendar::date_at(seconds)) + "T"@;
        assert(b.subrange(0, d.len() as int) =~= d);
    }
}

/// A leap second lies behind the last second of a minute, and only there.
pub proof fn leap_seconds_end_minutes(t: Timestamp)
    requires
        is_leap_second(t),
    ensures
        seconds_of(t) % 60 == 59,
        1_000_000_000 <= subsecond_of(t) < 2_000_000_000,
{
}

/// What is less than a second counts as a part of it, whether or not it is in the
/// milliseconds.
pub proof fn common_moments_have_a_subsecond(t: Timestamp)
    requires
        !is_leap_second(t),
    ensures
        0 <= subsecond_of(t) < 1_000_000_000,
        seconds_of(t) * 1_000_000_000 + subsecond_of(t) == t.millis * 1_000_000 + t.nanos,
{
}

} // verus!
