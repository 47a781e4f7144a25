//! The Gregorian calendar, and how moments are written after it.
use crate::text;
use vstd::prelude::*;

verus! {

// ---------------------------------------------------------------------------
// Days
// ---------------------------------------------------------------------------

pub open spec fn is_leap(year: int) -> bool {
    year % 4 == 0 && (year % 100 != 0 || year % 400 == 0)
}

pub open spec fn year_len(year: int) -> int {
    if is_leap(year) {
        366
    } else {
        365
    }
}

pub open spec fn month_len(year: int, month: int) -> int {
    if month == 2 {
        if is_leap(year) {
            29
        } else {
            28
        }
    } else if month == 4 || month == 6 || month == 9 || month == 11 {
        30
    } else {
        31
    }
}

/// The days from the beginning of the year 0 to that of the given year.
pub open spec fn days_to_year(year: int) -> int {
    365 * year + (year + 3) / 4 - (year + 99) / 100 + (year + 399) / 400
}

/// The days from the beginning of a year to that of a month.
pub open spec fn days_to_month(year: int, month: int) -> int
    decreases month,
{
    if month <= 1 {
        0
    } else {
        days_to_month(year, month - 1) + month_len(year, month - 1)
    }
}

pub struct Date {
    pub year: int,
    pub month: int,
    pub day: int,
}

pub open spec fn is_date(d: Date) -> bool {
    1 <= d.month <= 12 && 1 <= d.day <= month_len(d.year, d.month)
}

/// The days from the Unix epoch to a date.
pub open spec fn day_number(d: Date) -> int {
    days_to_year(d.year) + days_to_month(d.year, d.month) + d.day - 719_529
}

/// The date of a day that is counted from the Unix epoch.
pub open spec fn date_of(n: int) -> Date {
    choose|d: Date| is_date(d) && #[trigger] day_number(d) == n
}

/// One more of `n` is begun after a year that `n` divides.
proof fn begun(year: int, n: int)
    requires
        n == 4 || n == 100 || n == 400,
    ensures
        (year + n) / n == (year + n - 1) / n + if year % n == 0 {
            1int
        } else {
            0
        },
{
}

proof fn years_add_up(year: int)
    ensures
        days_to_year(year + 1) == days_to_year(year) + year_len(year),
{
    begun(year, 4);
    begun(year, 100);
    begun(year, 400);
    assert(year % 400 == 0 ==> year % 100 == 0);
    assert(year % 100 == 0 ==> year % 4 == 0);
}

proof fn months_add_up(year: int)
    ensures
        days_to_month(year, 13) == year_len(year),
{
    reveal_with_fuel(days_to_month, 13);
}

proof fn months_follow(year: int, a: int, b: int)
    requires
        1 <= a <= b,
    ensures
        days_to_month(year, a) <= days_to_month(year, b),
    decreases b - a,
{
    if a < b {
        months_follow(year, a, b - 1);
    }
}

proof fn years_follow(a: int, b: int)
    requires
        a <= b,
    ensures
        days_to_year(a) <= days_to_year(b),
    decreases b - a,
{
    if a < b {
        years_follow(a, b - 1);
        years_add_up(b - 1);
    }
}

/// A date lies in its year.
proof fn dates_lie_in_their_year(d: Date)
    requires
        is_date(d),
    ensures
        days_to_year(d.year) <= day_number(d) + 719_528 < days_to_year(d.year + 1),
{
    months_follow(d.year, 1, d.month);
    months_follow(d.year, d.month + 1, 13);
    months_add_up(d.year);
    years_add_up(d.year);
}

proof fn find_date(n: int) -> (d: Date)
    ensures
        is_date(d),
        day_number(d) == n,
    decreases if n >= 0 {
        n
    } else {
        -n
    },
{
    if n == 0 {
        Date { year: 1970, month: 1, day: 1 }
    } else if n > 0 {
        let d = find_date(n - 1);
        if d.day < month_len(d.year, d.month) {
            Date { day: d.day + 1, ..d }
        } else if d.month < 12 {
            Date { year: d.year, month: d.month + 1, day: 1 }
        } else {
            months_add_up(d.year);
            years_add_up(d.year);
            Date { year: d.year + 1, month: 1, day: 1 }
        }
    } else {
        let d = find_date(n + 1);
        if d.day > 1 {
            Date { day: d.day - 1, ..d }
        } else if d.month > 1 {
            Date { year: d.year, month: d.month - 1, day: month_len(d.year, d.month - 1) }
        } else {
            months_add_up(d.year - 1);
            years_add_up(d.year - 1);
            Date { year: d.year - 1, month: 12, day: 31 }
        }
    }
}

/// Every day has a date.
pub proof fn every_day_has_a_date(n: int)
    ensures
        is_date(date_of(n)),
        day_number(date_of(n)) == n,
{
    let d = find_date(n);
    assert(is_date(d) && day_number(d) == n);
}

/// No day has two dates: the date of the day with a date's number is that date.
pub proof fn dates_number_the_days(d: Date)
    requires
        is_date(d),
    ensures
        date_of(day_number(d)) == d,
{
    let e = date_of(day_number(d));
    every_day_has_a_date(day_number(d));
    dates_lie_in_their_year(d);
    dates_lie_in_their_year(e);
    if d.year < e.year {
        years_follow(d.year + 1, e.year);
    }
    if e.year < d.year {
        years_follow(e.year + 1, d.year);
    }
    if d.month < e.month {
        months_follow(d.year, d.month + 1, e.month);
    }
    if e.month < d.month {
        months_follow(d.year, e.month + 1, d.month);
    }
}

// ---------------------------------------------------------------------------
// Moments, by the seconds since the Unix epoch
// ---------------------------------------------------------------------------

/// A moment that the calendar of `chrono` reaches.
pub open spec fn in_calendar(seconds: int) -> bool {
    -8_334_601_228_800 <= seconds <= 8_210_266_876_799
}

/// In a year from 0 to 9999.
pub open spec fn in_common_years(seconds: int) -> bool {
    -62_167_219_200 <= seconds <= 253_402_300_799
}

/// So many nanoseconds can stand beyond a second: less than another, but for a
/// leap second, which comes after the last second of a minute.
pub open spec fn is_subsecond(seconds: int, nanos: int) -> bool {
    0 <= nanos < 1_000_000_000 || (seconds % 60 == 59 && 0 <= nanos < 2_000_000_000)
}

pub open spec fn date_at(seconds: int) -> Date {
    date_of(seconds / 86_400)
}

/// A moment lies in the years from `a` to `b` where its day does.
proof fn moments_lie_in_years(seconds: int, a: int, b: int)
    requires
        a <= b,
    ensures
        is_date(date_at(seconds)),
        a <= date_at(seconds).year <= b <==> days_to_year(a) <= seconds / 86_400 + 719_528
            < days_to_year(b + 1),
{
    let d = date_at(seconds);
    every_day_has_a_date(seconds / 86_400);
    dates_lie_in_their_year(d);
    if d.year < a {
        years_follow(d.year + 1, a);
    } else {
        years_follow(a, d.year);
    }
    if d.year > b {
        years_follow(b + 1, d.year);
    } else {
        years_follow(d.year + 1, b + 1);
    }
}

/// The common years are those of four digits.
pub proof fn common_years_have_four_digits(seconds: int)
    ensures
        is_date(date_at(seconds)),
        in_common_years(seconds) <==> 0 <= date_at(seconds).year <= 9999,
{
    moments_lie_in_years(seconds, 0, 9999);
}

/// The calendar goes from the beginning of its first year to the end of its last.
pub proof fn the_calendar_has_whole_years(seconds: int)
    ensures
        in_calendar(seconds) <==> -262_143 <= date_at(seconds).year <= 262_142,
{
    moments_lie_in_years(seconds, -262_143, 262_142);
}

// ---------------------------------------------------------------------------
// Texts
// ---------------------------------------------------------------------------

/// A number in so many digits.
pub open spec fn digits(n: int, count: nat) -> Seq<char>
    decreases count,
{
    if count == 0 {
        Seq::empty()
    } else {
        digits(n / 10, (count - 1) as nat).push(text::digit_char((n % 10) as nat))
    }
}

/// A number below a hundred in two digits.
pub open spec fn two_digits(n: int) -> Seq<char> {
    seq![text::digit_char((n / 10) as nat), text::digit_char((n % 10) as nat)]
}

/// A year: four digits, or a sign and at least four.
pub open spec fn year_text(year: int) -> Seq<char> {
    if 0 <= year <= 9999 {
        digits(year, 4)
    } else if year > 0 {
        seq!['+'] + text::decimal(year as nat)
    } else if year >= -9999 {
        seq!['-'] + digits(-year, 4)
    } else {
        seq!['-'] + text::decimal((-year) as nat)
    }
}

pub open spec fn date_text(d: Date) -> Seq<char> {
    year_text(d.year) + "-"@ + two_digits(d.month) + "-"@ + two_digits(d.day)
}

pub open spec fn month_name(month: int) -> Seq<char> {
    if month == 1 {
        "Jan"@
    } else if month == 2 {
        "Feb"@
    } else if month == 3 {
        "Mar"@
    } else if month == 4 {
        "Apr"@
    } else if month == 5 {
        "May"@
    } else if month == 6 {
        "Jun"@
    } else if month == 7 {
        "Jul"@
    } else if month == 8 {
        "Aug"@
    } else if month == 9 {
        "Sep"@
    } else if month == 10 {
        "Oct"@
    } else if month == 11 {
        "Nov"@
    } else {
        "Dec"@
    }
}

/// The days of the week, from the one that the Unix epoch began with.
pub open spec fn weekday_name(seconds: int) -> Seq<char> {
    let n = seconds / 86_400 % 7;
    if n == 0 {
        "Thu"@
    } else if n == 1 {
        "Fri"@
    } else if n == 2 {
        "Sat"@
    } else if n == 3 {
        "Sun"@
    } else if n == 4 {
        "Mon"@
    } else if n == 5 {
        "Tue"@
    } else {
        "Wed"@
    }
}

pub open spec fn hours(seconds: int) -> Seq<char> {
    two_digits(seconds % 86_400 / 3600)
}

pub open spec fn minutes(seconds: int) -> Seq<char> {
    two_digits(seconds % 3600 / 60)
}

pub open spec fn clock(seconds: int) -> Seq<char> {
    hours(seconds) + ":"@ + minutes(seconds)
}

/// The time of day with its seconds; those of a leap second are one more than
/// those of the second before it.
pub open spec fn clock_with_seconds(seconds: int, nanos: int) -> Seq<char> {
    clock(seconds) + ":"@ + second(seconds, nanos)
}

pub open spec fn second(seconds: int, nanos: int) -> Seq<char> {
    two_digits(seconds % 60 + nanos / 1_000_000_000)
}

/// The nanoseconds beyond a second, in threes of digits as far as it takes.
pub open spec fn fraction(nanos: int) -> Seq<char> {
    if nanos == 0 {
        Seq::empty()
    } else if nanos % 1_000_000 == 0 {
        "."@ + digits(nanos / 1_000_000, 3)
    } else if nanos % 1000 == 0 {
        "."@ + digits(nanos / 1000, 6)
    } else {
        "."@ + digits(nanos, 9)
    }
}

/// A moment after RFC 3339, with how its zone is written.
pub open spec fn rfc3339_text(seconds: int, nanos: int, zone: Seq<char>) -> Seq<char> {
    date_text(date_at(seconds)) + "T"@ + clock_with_seconds(seconds, nanos) + fraction(
        nanos % 1_000_000_000,
    ) + zone
}

/// How far a zone is from UTC, to the nearest minute.
pub open spec fn zone_text(offset: int) -> Seq<char> {
    let minutes = if offset < 0 {
        (-offset + 30) / 60
    } else {
        (offset + 30) / 60
    };
    seq![if offset < 0 {
        '-'
    } else {
        '+'
    }] + two_digits(minutes / 60) + ":"@ + two_digits(minutes % 60)
}

// ---------------------------------------------------------------------------
// Laws
// ---------------------------------------------------------------------------

/// The months have twelve different names.
#[verifier::rlimit(40)]
pub proof fn months_have_names(a: int, b: int)
    requires
        1 <= a <= 12,
        1 <= b <= 12,
        month_name(a) == month_name(b),
    ensures
        a == b,
        month_name(1) == "Jan"@ && month_name(2) == "Feb"@ && month_name(12) == "Dec"@,
{
    reveal_strlit("Jan");
    reveal_strlit("Feb");
    reveal_strlit("Mar");
    reveal_strlit("Apr");
    reveal_strlit("May");
    reveal_strlit("Jun");
    reveal_strlit("Jul");
    reveal_strlit("Aug");
    reveal_strlit("Sep");
    reveal_strlit("Oct");
    reveal_strlit("Nov");
    reveal_strlit("Dec");
    assert("Jan"@.len() == 3);
    assert("Feb"@.len() == 3);
    assert("Mar"@.len() == 3);
    assert("Apr"@.len() == 3);
    assert("May"@.len() == 3);
    assert("Jun"@.len() == 3);
    assert("Jul"@.len() == 3);
    assert("Aug"@.len() == 3);
    assert("Sep"@.len() == 3);
    assert("Oct"@.len() == 3);
    assert("Nov"@.len() == 3);
    assert("Dec"@.len() == 3);
    assert("Jan"@[0] != "Feb"@[0]);
    assert("Jan"@[0] != "Mar"@[0]);
    assert("Jan"@[0] != "Apr"@[0]);
    assert("Jan"@[0] != "May"@[0]);
    assert("Jan"@[1] != "Jun"@[1]);
    assert("Jan"@[1] != "Jul"@[1]);
    assert("Jan"@[0] != "Aug"@[0]);
    assert("Jan"@[0] != "Sep"@[0]);
    assert("Jan"@[0] != "Oct"@[0]);
    assert("Jan"@[0] != "Nov"@[0]);
    assert("Jan"@[0] != "Dec"@[0]);
    assert("Feb"@[0] != "Mar"@[0]);
    assert("Feb"@[0] != "Apr"@[0]);
    assert("Feb"@[0] != "May"@[0]);
    assert("Feb"@[0] != "Jun"@[0]);
    assert("Feb"@[0] != "Jul"@[0]);
    assert("Feb"@[0] != "Aug"@[0]);
    assert("Feb"@[0] != "Sep"@[0]);
    assert("Feb"@[0] != "Oct"@[0]);
    assert("Feb"@[0] != "Nov"@[0]);
    assert("Feb"@[0] != "Dec"@[0]);
    assert("Mar"@[0] != "Apr"@[0]);
    assert("Mar"@[2] != "May"@[2]);
    assert("Mar"@[0] != "Jun"@[0]);
    assert("Mar"@[0] != "Jul"@[0]);
    assert("Mar"@[0] != "Aug"@[0]);
    assert("Mar"@[0] != "Sep"@[0]);
    assert("Mar"@[0] != "Oct"@[0]);
    assert("Mar"@[0] != "Nov"@[0]);
    assert("Mar"@[0] != "Dec"@[0]);
    assert("Apr"@[0] != "May"@[0]);
    assert("Apr"@[0] != "Jun"@[0]);
    assert("Apr"@[0] != "Jul"@[0]);
    assert("Apr"@[1] != "Aug"@[1]);
    assert("Apr"@[0] != "Sep"@[0]);
    assert("Apr"@[0] != "Oct"@[0]);
    assert("Apr"@[0] != "Nov"@[0]);
    assert("Apr"@[0] != "Dec"@[0]);
    assert("May"@[0] != "Jun"@[0]);
    assert("May"@[0] != "Jul"@[0]);
    assert("May"@[0] != "Aug"@[0]);
    assert("May"@[0] != "Sep"@[0]);
    assert("May"@[0] != "Oct"@[0]);
    assert("May"@[0] != "Nov"@[0]);
    assert("May"@[0] != "Dec"@[0]);
    assert("Jun"@[2] != "Jul"@[2]);
    assert("Jun"@[0] != "Aug"@[0]);
    assert("Jun"@[0] != "Sep"@[0]);
    assert("Jun"@[0] != "Oct"@[0]);
    assert("Jun"@[0] != "Nov"@[0]);
    assert("Jun"@[0] != "Dec"@[0]);
    assert("Jul"@[0] != "Aug"@[0]);
    assert("Jul"@[0] != "Sep"@[0]);
    assert("Jul"@[0] != "Oct"@[0]);
    assert("Jul"@[0] != "Nov"@[0]);
    assert("Jul"@[0] != "Dec"@[0]);
    assert("Aug"@[0] != "Sep"@[0]);
    assert("Aug"@[0] != "Oct"@[0]);
    assert("Aug"@[0] != "Nov"@[0]);
    assert("Aug"@[0] != "Dec"@[0]);
    assert("Sep"@[0] != "Oct"@[0]);
    assert("Sep"@[0] != "Nov"@[0]);
    assert("Sep"@[0] != "Dec"@[0]);
    assert("Oct"@[0] != "Nov"@[0]);
    assert("Oct"@[0] != "Dec"@[0]);
    assert("Nov"@[0] != "Dec"@[0]);

}

/// A day has the name that it has a week later, and another on the six days between.
#[verifier::rlimit(40)]
pub proof fn weekdays_come_again(seconds: int, days: int)
    requires
        0 < days < 7,
    ensures
        weekday_name(seconds + 7 * 86_400) == weekday_name(seconds),
        weekday_name(seconds + days * 86_400) != weekday_name(seconds),
{
    reveal_strlit("Thu");
    reveal_strlit("Fri");
    reveal_strlit("Sat");
    reveal_strlit("Sun");
    reveal_strlit("Mon");
    reveal_strlit("Tue");
    reveal_strlit("Wed");
    assert("Thu"@.len() == 3);
    assert("Fri"@.len() == 3);
    assert("Sat"@.len() == 3);
    assert("Sun"@.len() == 3);
    assert("Mon"@.len() == 3);
    assert("Tue"@.len() == 3);
    assert("Wed"@.len() == 3);
    assert("Thu"@[0] != "Fri"@[0]);
    assert("Thu"@[0] != "Sat"@[0]);
    assert("Thu"@[0] != "Sun"@[0]);
    assert("Thu"@[0] != "Mon"@[0]);
    assert("Thu"@[1] != "Tue"@[1]);
    assert("Thu"@[0] != "Wed"@[0]);
    assert("Fri"@[0] != "Sat"@[0]);
    assert("Fri"@[0] != "Sun"@[0]);
    assert("Fri"@[0] != "Mon"@[0]);
    assert("Fri"@[0] != "Tue"@[0]);
    assert("Fri"@[0] != "Wed"@[0]);
    assert("Sat"@[1] != "Sun"@[1]);
    assert("Sat"@[0] != "Mon"@[0]);
    assert("Sat"@[0] != "Tue"@[0]);
    assert("Sat"@[0] != "Wed"@[0]);
    assert("Sun"@[0] != "Mon"@[0]);
    assert("Sun"@[0] != "Tue"@[0]);
    assert("Sun"@[0] != "Wed"@[0]);
    assert("Mon"@[0] != "Tue"@[0]);
    assert("Mon"@[0] != "Wed"@[0]);
    assert("Tue"@[0] != "Wed"@[0]);

    assert((seconds + 7 * 86_400) / 86_400 == seconds / 86_400 + 7);
    assert((seconds + days * 86_400) / 86_400 == seconds / 86_400 + days);
}

/// The clock shows the hours, the minutes and the seconds of the day.
pub proof fn clocks_show_the_time_of_day(day: int, h: int, m: int, s: int)
    requires
        0 <= h < 24,
        0 <= m < 60,
        0 <= s < 60,
    ensures
        ({
            let t = day * 86_400 + h * 3600 + m * 60 + s;
            &&& clock(t) == two_digits(h) + ":"@ + two_digits(m)
            &&& clock_with_seconds(t, 0) == two_digits(h) + ":"@ + two_digits(m) + ":"@
                + two_digits(s)
        }),
{
    let t = day * 86_400 + h * 3600 + m * 60 + s;
    let of_day = h * 3600 + m * 60 + s;
    let of_hour = m * 60 + s;
    vstd::arithmetic::div_mod::lemma_fundamental_div_mod_converse(t, 86_400, day, of_day);
    vstd::arithmetic::div_mod::lemma_fundamental_div_mod_converse(of_day, 3600, h, of_hour);
    vstd::arithmetic::div_mod::lemma_fundamental_div_mod_converse(t, 3600, day * 24 + h, of_hour);
    vstd::arithmetic::div_mod::lemma_fundamental_div_mod_converse(of_hour, 60, m, s);
    vstd::arithmetic::div_mod::lemma_fundamental_div_mod_converse(
        t,
        60,
        day * 1440 + h * 60 + m,
        s,
    );
}

} // verus!
