//! The files that a run logs to: their names, which is the newest, and which are
//! old enough to go.
use crate::accounts;
use crate::accounts::Timestamp;
use crate::auth_json;
use crate::calendar;
use crate::json;
use crate::runtime::chance;
use crate::text;
use crate::time;
use vstd::prelude::*;

verus! {

pub const DEFAULT_RUNTIME_LOG_RETENTION_DAYS: u64 = 7;

pub const RUN_LOG_CREATE_ATTEMPTS: usize = 16;

pub const MAX_LOG_COMPONENT_LEN: usize = 64;

pub const RUN_LOG_PREFIX: &'static str = "codex-switch-run-";

pub const RUN_LOG_SUFFIX: &'static str = ".log";

/// How many bytes the time takes in a name.
pub const RUN_LOG_TIMESTAMP_LEN: usize = 15;

// ---------------------------------------------------------------------------
// What is logged
// ---------------------------------------------------------------------------

pub const DEFAULT_FILTER: &'static str = "codex_switch=info";

pub open spec fn is_level(s: Seq<char>) -> bool {
    s == "trace"@ || s == "debug"@ || s == "info"@ || s == "warn"@ || s == "error"@ || s == "off"@
}

/// The filter that a setting asks for: a bare level counts for this program.
pub open spec fn filter_of(value: Option<Seq<char>>) -> Seq<char> {
    match value {
        None => DEFAULT_FILTER@,
        Some(v) => {
            let s = text::trimmed(v);
            if s.len() == 0 {
                DEFAULT_FILTER@
            } else if is_level(text::lowered(s)) {
                "codex_switch="@ + text::lowered(s)
            } else {
                s
            }
        },
    }
}

pub fn is_plain_tracing_level(value: &str) -> (r: bool)
    ensures
        r == is_level(text::lowered(value@)),
{
    let s = text::to_lower(value);
    let s = s.as_str();
    text::same(s, "trace") || text::same(s, "debug") || text::same(s, "info") || text::same(
        s,
        "warn",
    ) || text::same(s, "error") || text::same(s, "off")
}

pub fn runtime_tracing_filter_spec(value: Option<&str>) -> (r: String)
    ensures
        r@ == filter_of(accounts::str_view(value)),
{
    match value {
        None => DEFAULT_FILTER.to_owned(),
        Some(v) => {
            let s = text::trim(v);
            if s.as_str().is_empty() {
                DEFAULT_FILTER.to_owned()
            } else if is_plain_tracing_level(s.as_str()) {
                let level = text::to_lower(s.as_str());
                text::cat2("codex_switch=", level.as_str())
            } else {
                s
            }
        },
    }
}

// ---------------------------------------------------------------------------
// Parts of a name
// ---------------------------------------------------------------------------

pub open spec fn is_component_char(c: char) -> bool {
    text::is_alphanumeric(c) || c == '.' || c == '-' || c == '_'
}

/// The characters that a name may hold, up to the limit; each run of others is
/// one hyphen.
pub open spec fn component_chars(s: Seq<char>) -> Seq<char>
    decreases s.len(),
{
    if s.len() == 0 {
        Seq::empty()
    } else {
        let before = component_chars(s.drop_last());
        if before.len() >= MAX_LOG_COMPONENT_LEN {
            before
        } else if is_component_char(s.last()) {
            before.push(s.last())
        } else if before.len() > 0 && before.last() == '-' {
            before
        } else {
            before.push('-')
        }
    }
}

pub open spec fn without_hyphens_before(s: Seq<char>) -> Seq<char>
    decreases s.len(),
{
    if s.len() > 0 && s[0] == '-' {
        without_hyphens_before(s.drop_first())
    } else {
        s
    }
}

pub open spec fn without_hyphens_behind(s: Seq<char>) -> Seq<char>
    decreases s.len(),
{
    if s.len() > 0 && s.last() == '-' {
        without_hyphens_behind(s.drop_last())
    } else {
        s
    }
}

/// A text as it can stand in a name.
pub open spec fn component(s: Seq<char>) -> Seq<char> {
    let c = without_hyphens_behind(without_hyphens_before(component_chars(s)));
    if c.len() == 0 {
        "unknown"@
    } else {
        c
    }
}

fn trim_hyphens(v: &Vec<char>) -> (r: String)
    ensures
        r@ == without_hyphens_behind(without_hyphens_before(v@)),
{
    let mut from: usize = 0;
    assert(v@.skip(0) =~= v@);
    while from < v.len() && v[from] == '-'
        invariant
            from <= v@.len(),
            without_hyphens_before(v@) == without_hyphens_before(v@.skip(from as int)),
        decreases v@.len() - from,
    {
        assert(v@.skip(from as int).drop_first() =~= v@.skip(from as int + 1));
        from = from + 1;
    }
    let ghost rest = v@.skip(from as int);
    assert(without_hyphens_before(v@) == rest);
    let mut to: usize = v.len();
    assert(rest.take(to - from) =~= rest);
    while to > from && v[to - 1] == '-'
        invariant
            from <= to <= v@.len(),
            rest == v@.skip(from as int),
            without_hyphens_behind(rest) == without_hyphens_behind(rest.take(to - from)),
        decreases to,
    {
        assert(rest.take(to - from).last() == v@[to - 1]);
        assert(rest.take(to - from).drop_last() =~= rest.take(to - from - 1));
        to = to - 1;
    }
    assert(to > from ==> rest.take(to - from).last() == v@[to - 1]);
    let r = text::from_chars(v, from, to);
    assert(r@ =~= rest.take(to - from));
    r
}

pub fn sanitize_log_component(value: &str) -> (r: String)
    ensures
        r@ == component(value@),
{
    let v = text::to_chars(value);
    let mut out: Vec<char> = Vec::new();
    let mut i: usize = 0;
    assert(v@.take(0) =~= Seq::empty());
    while i < v.len()
        invariant
            i <= v@.len(),
            v@ == value@,
            out@ == component_chars(v@.take(i as int)),
        decreases v@.len() - i,
    {
        let c = v[i];
        assert(v@.take(i as int + 1).drop_last() =~= v@.take(i as int));
        if out.len() < MAX_LOG_COMPONENT_LEN {
            if text::alphanumeric(c) || c == '.' || c == '-' || c == '_' {
                out.push(c);
            } else if out.len() == 0 || out[out.len() - 1] != '-' {
                out.push('-');
            }
        }
        i = i + 1;
    }
    assert(v@.take(i as int) =~= v@);
    let s = trim_hyphens(&out);
    if s.as_str().is_empty() {
        "unknown".to_owned()
    } else {
        s
    }
}

proof fn component_chars_are_plain(s: Seq<char>)
    ensures
        component_chars(s).len() <= MAX_LOG_COMPONENT_LEN,
        forall|i: int|
            0 <= i < component_chars(s).len() ==> is_component_char(#[trigger] component_chars(s)[i]),
    decreases s.len(),
{
    if s.len() > 0 {
        component_chars_are_plain(s.drop_last());
        let before = component_chars(s.drop_last());
        assert forall|i: int| 0 <= i < component_chars(s).len() implies is_component_char(
            #[trigger] component_chars(s)[i],
        ) by {
            if i < before.len() {
                assert(is_component_char(before[i]));
            }
        }
    }
}

proof fn trimming_hyphens(s: Seq<char>)
    ensures
        exists|from: int, to: int|
            0 <= from <= to <= s.len() && #[trigger] s.subrange(from, to) == without_hyphens_behind(
                without_hyphens_before(s),
            ),
        ({
            let r = without_hyphens_behind(without_hyphens_before(s));
            r.len() > 0 ==> r[0] != '-' && r.last() != '-'
        }),
    decreases s.len(),
{
    if s.len() > 0 && s[0] == '-' {
        trimming_hyphens(s.drop_first());
        let t = s.drop_first();
        let (from, to) = choose|from: int, to: int|
            0 <= from <= to <= t.len() && #[trigger] t.subrange(from, to) == without_hyphens_behind(
                without_hyphens_before(t),
            );
        assert(s.subrange(from + 1, to + 1) =~= t.subrange(from, to));
    } else {
        trimming_behind(s);
        let k = choose|k: int|
            0 <= k <= s.len() && #[trigger] s.take(k) == without_hyphens_behind(s);
        assert(s.subrange(0, k) =~= s.take(k));
    }
}

proof fn trimming_behind(s: Seq<char>)
    ensures
        exists|k: int| 0 <= k <= s.len() && #[trigger] s.take(k) == without_hyphens_behind(s),
        without_hyphens_behind(s).len() > 0 ==> without_hyphens_behind(s).last() != '-',
    decreases s.len(),
{
    if s.len() > 0 && s.last() == '-' {
        trimming_behind(s.drop_last());
        let t = s.drop_last();
        let k = choose|k: int|
            0 <= k <= t.len() && #[trigger] t.take(k) == without_hyphens_behind(t);
        assert(s.take(k) =~= t.take(k));
    } else {
        assert(s.take(s.len() as int) =~= s);
    }
}

/// A part of a name is never empty, holds no more than the limit, has no
/// separator of paths or control character in it, and no hyphen at its ends.
pub proof fn components_are_plain(s: Seq<char>)
    ensures
        0 < component(s).len() <= MAX_LOG_COMPONENT_LEN,
        forall|i: int| 0 <= i < component(s).len() ==> is_component_char(#[trigger] component(s)[i]),
        component(s)[0] != '-',
        component(s).last() != '-',
{
    reveal_strlit("unknown");
    let chars = component_chars(s);
    component_chars_are_plain(s);
    trimming_hyphens(chars);
    let (from, to) = choose|from: int, to: int|
        0 <= from <= to <= chars.len() && #[trigger] chars.subrange(from, to)
            == without_hyphens_behind(without_hyphens_before(chars));
    let r = chars.subrange(from, to);
    if r.len() > 0 {
        assert forall|i: int| 0 <= i < r.len() implies is_component_char(#[trigger] r[i]) by {
            assert(r[i] == chars[from + i]);
        }
    }
}

/// The name of the host, where it is known.
pub open spec fn host_of(variable: Option<Seq<char>>, file: Option<Seq<char>>) -> Seq<char> {
    if variable is Some && !text::is_blank(variable->Some_0) {
        text::trimmed(variable->Some_0)
    } else if file is Some && !text::is_blank(file->Some_0) {
        text::trimmed(file->Some_0)
    } else {
        "unknown-host"@
    }
}

pub fn host_component(variable: Option<&str>, file: Option<&str>) -> (r: String)
    ensures
        r@ == host_of(accounts::str_view(variable), accounts::str_view(file)),
{
    if let Some(v) = variable {
        if !text::blank(v) {
            return text::trim(v);
        }
    }
    if let Some(f) = file {
        if !text::blank(f) {
            return text::trim(f);
        }
    }
    "unknown-host".to_owned()
}

// ---------------------------------------------------------------------------
// Times in names
// ---------------------------------------------------------------------------

/// A moment by its seconds since the Unix epoch, and the nanoseconds beyond them;
/// a leap second has a second of nanoseconds or more.
#[derive(Debug, Clone, Copy, PartialEq, Eq, Structural)]
pub struct LogMoment {
    pub seconds: i64,
    pub nanos: u32,
}

impl LogMoment {
    pub open spec fn is_before(self, other: LogMoment) -> bool {
        self.seconds < other.seconds || (self.seconds == other.seconds && self.nanos < other.nanos)
    }

    pub fn before(self, other: LogMoment) -> (r: bool)
        ensures
            r == self.is_before(other),
    {
        self.seconds < other.seconds || (self.seconds == other.seconds && self.nanos < other.nanos)
    }
}

/// A moment as it stands in a name; `None` for a moment beyond the calendar.
pub open spec fn stamp(seconds: int, nanos: int) -> Option<Seq<char>> {
    if calendar::in_calendar(seconds) {
        let d = calendar::date_at(seconds);
        Some(
            calendar::year_text(d.year) + calendar::two_digits(d.month) + calendar::two_digits(d.day)
                + "-"@ + calendar::hours(seconds) + calendar::minutes(seconds)
                + calendar::second(seconds, nanos),
        )
    } else {
        None
    }
}

/// The moment that such a text stands for.
pub uninterp spec fn read_stamp(s: Seq<char>) -> Option<LogMoment>;

pub open spec fn is_plain_stamp(s: Seq<char>) -> bool {
    &&& s.len() == RUN_LOG_TIMESTAMP_LEN
    &&& forall|i: int| 0 <= i < s.len() ==> (#[trigger] s[i] as u32) < 0x80
}

proof fn stamps_are_plain(seconds: int, nanos: int)
    requires
        calendar::is_subsecond(seconds, nanos),
        calendar::in_common_years(seconds),
    ensures
        stamp(seconds, nanos) matches Some(s) && is_plain_stamp(s),
{
    let d = calendar::date_at(seconds);
    let s = stamp(seconds, nanos)->Some_0;
    calendar::common_years_have_four_digits(seconds);
    reveal_strlit("-");
    reveal_with_fuel(calendar::digits, 5);
    assert forall|i: int| 0 <= i < s.len() implies (#[trigger] s[i] as u32) < 0x80 by {}
}

/// The second that a name tells of a moment: a leap second is told as one.
pub open spec fn told_second(seconds: i64, nanos: int) -> LogMoment {
    LogMoment {
        seconds,
        nanos: if nanos < 1_000_000_000 {
            0
        } else {
            1_000_000_000
        },
    }
}

/// The text of a moment in a year from 0 to 9999 reads back as its second.
pub open spec fn stamp_reads_back(r: Option<String>, seconds: i64, nanos: u32) -> bool {
    calendar::in_common_years(seconds as int) ==> (r matches Some(s) && read_stamp(s@) == Some(
        told_second(seconds, nanos as int),
    ))
}

/// `chrono::DateTime::from_timestamp` and `format` with `%Y%m%d-%H%M%S`: the date
/// and the time in digits, with a sign before a year that is not one of four digits.
/// In a year of four digits the text reads back.
#[verifier::external_body]
fn format_stamp(seconds: i64, nanos: u32) -> (r: Option<String>)
    requires
        calendar::is_subsecond(seconds as int, nanos as int),
    ensures
        text::opt_view(r) == stamp(seconds as int, nanos as int),
        stamp_reads_back(r, seconds, nanos),
{
    chrono::DateTime::<chrono::Utc>::from_timestamp(seconds, nanos).map(
        |d| d.format("%Y%m%d-%H%M%S").to_string(),
    )
}

/// `chrono::NaiveDateTime::parse_from_str` with `%Y%m%d-%H%M%S`, taken as UTC.
/// Claimed: the outcome is that of the text alone. Not stated: which texts are
/// read.
#[verifier::external_body]
fn parse_stamp(s: &str) -> (r: Option<LogMoment>)
    ensures
        r == read_stamp(s@),
{
    let moment = chrono::NaiveDateTime::parse_from_str(s, "%Y%m%d-%H%M%S").ok()?.and_utc();
    Some(LogMoment { seconds: moment.timestamp(), nanos: moment.timestamp_subsec_nanos() })
}

// ---------------------------------------------------------------------------
// Names
// ---------------------------------------------------------------------------

pub open spec fn log_name(
    at: Seq<char>,
    host: Seq<char>,
    pid: Seq<char>,
    unique: Seq<char>,
) -> Seq<char> {
    RUN_LOG_PREFIX@ + (at + "-"@ + (host + "-"@ + pid + "-"@ + unique)) + RUN_LOG_SUFFIX@
}

/// How many bytes a character takes in UTF-8.
pub open spec fn width(c: char) -> int {
    if (c as u32) < 0x80 {
        1
    } else if (c as u32) < 0x800 {
        2
    } else if (c as u32) < 0x1_0000 {
        3
    } else {
        4
    }
}

/// How many characters the first `n` bytes of a text are, where they end with one.
pub open spec fn chars_in(s: Seq<char>, n: int) -> Option<int>
    decreases s.len(),
{
    if n == 0 {
        Some(0)
    } else if n < 0 || s.len() == 0 {
        None
    } else {
        match chars_in(s.drop_first(), n - width(s[0])) {
            Some(k) => Some(k + 1),
            None => None,
        }
    }
}

/// Where a character last stands in a text.
pub open spec fn last_index(s: Seq<char>, c: char) -> Option<int>
    decreases s.len(),
{
    if s.len() == 0 {
        None
    } else if s.last() == c {
        Some(s.len() - 1)
    } else {
        last_index(s.drop_last(), c)
    }
}

pub open spec fn all_hex(s: Seq<char>) -> bool {
    forall|i: int| 0 <= i < s.len() ==> text::is_hex_digit(#[trigger] s[i])
}

/// A host, a process and an identifier of thirty-two digits, with hyphens between
/// them.
pub open spec fn is_origin(s: Seq<char>) -> bool {
    match last_index(s, '-') {
        None => false,
        Some(j) => match last_index(s.take(j), '-') {
            None => false,
            Some(i) => {
                let unique = s.skip(j + 1);
                let pid = s.subrange(i + 1, j);
                &&& i > 0
                &&& pid.len() > 0
                &&& text::all_digits(pid)
                &&& unique.len() == 32
                &&& all_hex(unique)
            },
        },
    }
}

/// The moment in what stands between the prefix and the suffix of a name.
pub open spec fn moment_of_body(body: Seq<char>) -> Option<LogMoment> {
    match chars_in(body, RUN_LOG_TIMESTAMP_LEN as int) {
        None => None,
        Some(k) => {
            let rest = body.skip(k);
            if rest.len() > 0 && rest[0] == '-' && is_origin(rest.skip(1)) {
                read_stamp(body.take(k))
            } else {
                None
            }
        },
    }
}

/// The moment in the name of a log; `None` for a file that is none.
pub open spec fn moment_of_name(name: Seq<char>) -> Option<LogMoment> {
    match text::without_prefix(name, RUN_LOG_PREFIX@) {
        None => None,
        Some(rest) => match text::without_suffix(rest, RUN_LOG_SUFFIX@) {
            None => None,
            Some(body) => moment_of_body(body),
        },
    }
}

proof fn chars_in_ascii(s: Seq<char>, n: int)
    requires
        0 <= n <= s.len(),
        forall|i: int| 0 <= i < n ==> (#[trigger] s[i] as u32) < 0x80,
    ensures
        chars_in(s, n) == Some(n),
    decreases n,
{
    if n > 0 {
        assert((s[0] as u32) < 0x80);
        let t = s.drop_first();
        assert forall|i: int| 0 <= i < n - 1 implies (#[trigger] t[i] as u32) < 0x80 by {
            assert(t[i] == s[i + 1]);
        }
        chars_in_ascii(t, n - 1);
    }
}

proof fn last_index_at(s: Seq<char>, c: char, i: int)
    requires
        0 <= i < s.len(),
        s[i] == c,
        forall|k: int| i < k < s.len() ==> #[trigger] s[k] != c,
    ensures
        last_index(s, c) == Some(i),
    decreases s.len(),
{
    if i < s.len() - 1 {
        assert(s[s.len() - 1] != c);
        last_index_at(s.drop_last(), c, i);
    }
}

fn char_width(c: char) -> (r: usize)
    ensures
        r as int == width(c),
{
    let n: u32 = c as u32;
    if n < 0x80 {
        1
    } else if n < 0x800 {
        2
    } else if n < 0x1_0000 {
        3
    } else {
        4
    }
}

fn count_chars(v: &Vec<char>, n: usize) -> (r: Option<usize>)
    ensures
        match r {
            Some(k) => chars_in(v@, n as int) == Some(k as int) && k <= v@.len(),
            None => chars_in(v@, n as int) is None,
        },
{
    let mut i: usize = 0;
    let mut left: usize = n;
    assert(v@.skip(0) =~= v@);
    while i < v.len() && left > 0
        invariant
            i <= v@.len(),
            left <= n,
            chars_in(v@, n as int) == match chars_in(v@.skip(i as int), left as int) {
                Some(k) => Some(k + i),
                None => None,
            },
        decreases v@.len() - i,
    {
        let w = char_width(v[i]);
        assert(v@.skip(i as int).drop_first() =~= v@.skip(i as int + 1));
        if w > left {
            assert(chars_in(v@.skip(i as int + 1), left - w) is None);
            return None;
        }
        left = left - w;
        i = i + 1;
    }
    if left == 0 {
        Some(i)
    } else {
        None
    }
}

fn find_last(v: &Vec<char>, end: usize, c: char) -> (r: Option<usize>)
    requires
        end <= v@.len(),
    ensures
        match r {
            Some(i) => last_index(v@.take(end as int), c) == Some(i as int) && i < end,
            None => last_index(v@.take(end as int), c) is None,
        },
{
    let mut i: usize = end;
    while i > 0
        invariant
            i <= end <= v@.len(),
            last_index(v@.take(end as int), c) == last_index(v@.take(i as int), c),
        decreases i,
    {
        assert(v@.take(i as int).last() == v@[i - 1]);
        if v[i - 1] == c {
            return Some(i - 1);
        }
        assert(v@.take(i as int).drop_last() =~= v@.take(i - 1));
        i = i - 1;
    }
    None
}

fn digits_between(v: &Vec<char>, from: usize, to: usize) -> (r: bool)
    requires
        from <= to <= v@.len(),
    ensures
        r == text::all_digits(v@.subrange(from as int, to as int)),
{
    let mut i: usize = from;
    let ghost s = v@.subrange(from as int, to as int);
    while i < to
        invariant
            from <= i <= to <= v@.len(),
            s == v@.subrange(from as int, to as int),
            forall|k: int| 0 <= k < i - from ==> text::is_digit(#[trigger] s[k]),
        decreases to - i,
    {
        assert(s[i - from] == v@[i as int]);
        if !text::digit(v[i]) {
            return false;
        }
        i = i + 1;
    }
    true
}

fn hex_from(v: &Vec<char>, from: usize) -> (r: bool)
    requires
        from <= v@.len(),
    ensures
        r == all_hex(v@.skip(from as int)),
{
    let mut i: usize = from;
    let ghost s = v@.skip(from as int);
    while i < v.len()
        invariant
            from <= i <= v@.len(),
            s == v@.skip(from as int),
            forall|k: int| 0 <= k < i - from ==> text::is_hex_digit(#[trigger] s[k]),
        decreases v@.len() - i,
    {
        assert(s[i - from] == v@[i as int]);
        if !text::hex_digit(v[i]) {
            return false;
        }
        i = i + 1;
    }
    true
}

fn names_origin(s: &str) -> (r: bool)
    ensures
        r == is_origin(s@),
{
    let v = text::to_chars(s);
    assert(v@.take(v@.len() as int) =~= v@);
    let j = match find_last(&v, v.len(), '-') {
        Some(j) => j,
        None => {
            return false;
        },
    };
    let i = match find_last(&v, j, '-') {
        Some(i) => i,
        None => {
            return false;
        },
    };
    i > 0 && j - i > 1 && digits_between(&v, i + 1, j) && v.len() - j == 33 && hex_from(&v, j + 1)
}

pub fn runtime_log_timestamp_from_file_name(file_name: &str) -> (r: Option<LogMoment>)
    ensures
        r == moment_of_name(file_name@),
{
    let rest = match text::strip_prefix(file_name, RUN_LOG_PREFIX) {
        Some(s) => s,
        None => {
            return None;
        },
    };
    let body = match text::strip_suffix(rest.as_str(), RUN_LOG_SUFFIX) {
        Some(s) => s,
        None => {
            return None;
        },
    };
    let v = text::to_chars(body.as_str());
    let k = match count_chars(&v, RUN_LOG_TIMESTAMP_LEN) {
        Some(k) => k,
        None => {
            return None;
        },
    };
    if k == v.len() || v[k] != '-' {
        return None;
    }
    let at = text::from_chars(&v, 0, k);
    let origin = text::from_chars(&v, k + 1, v.len());
    assert(at@ =~= body@.take(k as int));
    assert(origin@ =~= body@.skip(k as int).skip(1));
    if names_origin(origin.as_str()) {
        parse_stamp(at.as_str())
    } else {
        None
    }
}

proof fn origin_of_parts(host: Seq<char>, pid: Seq<char>, unique: Seq<char>)
    requires
        host.len() > 0,
        pid.len() > 0,
        text::all_digits(pid),
        unique.len() == 32,
        all_hex(unique),
    ensures
        is_origin(host + "-"@ + pid + "-"@ + unique),
{
    reveal_strlit("-");
    let s = host + "-"@ + pid + "-"@ + unique;
    let i = host.len() as int;
    let j = i + 1 + pid.len();
    assert(s[i] == '-' && s[j] == '-');
    assert forall|k: int| j < k < s.len() implies #[trigger] s[k] != '-' by {
        assert(s[k] == unique[k - j - 1]);
        assert(text::is_hex_digit(unique[k - j - 1]));
    }
    last_index_at(s, '-', j);
    let t = s.take(j);
    assert forall|k: int| i < k < t.len() implies #[trigger] t[k] != '-' by {
        assert(t[k] == pid[k - i - 1]);
        assert(text::is_digit(pid[k - i - 1]));
    }
    last_index_at(t, '-', i);
    assert(s.subrange(i + 1, j) =~= pid);
    assert(s.skip(j + 1) =~= unique);
}

proof fn stripped(before: Seq<char>, body: Seq<char>, behind: Seq<char>)
    ensures
        text::without_prefix(before + body + behind, before) == Some(body + behind),
        text::without_suffix(body + behind, behind) == Some(body),
{
    let name = before + body + behind;
    assert(name.subrange(0, before.len() as int) =~= before);
    assert(name.skip(before.len() as int) =~= body + behind);
    let rest = body + behind;
    assert(rest.subrange(rest.len() - behind.len(), rest.len() as int) =~= behind);
    assert(rest.take(rest.len() - behind.len()) =~= body);
}

proof fn moment_of_parts(at: Seq<char>, origin: Seq<char>)
    requires
        is_plain_stamp(at),
        is_origin(origin),
    ensures
        moment_of_body(at + "-"@ + origin) == read_stamp(at),
{
    reveal_strlit("-");
    let body = at + "-"@ + origin;
    let n = RUN_LOG_TIMESTAMP_LEN as int;
    assert forall|i: int| 0 <= i < n implies (#[trigger] body[i] as u32) < 0x80 by {
        assert(body[i] == at[i]);
    }
    chars_in_ascii(body, n);
    assert(body.skip(n)[0] == '-');
    assert(body.skip(n).skip(1) =~= origin);
    assert(body.take(n) =~= at);
}

/// The moment of a name is the one it was made with.
pub proof fn names_tell_their_moment(
    at: Seq<char>,
    host: Seq<char>,
    pid: Seq<char>,
    unique: Seq<char>,
)
    requires
        is_plain_stamp(at),
        host.len() > 0,
        pid.len() > 0,
        text::all_digits(pid),
        unique.len() == 32,
        all_hex(unique),
    ensures
        moment_of_name(log_name(at, host, pid, unique)) == read_stamp(at),
{
    let origin = host + "-"@ + pid + "-"@ + unique;
    origin_of_parts(host, pid, unique);
    moment_of_parts(at, origin);
    stripped(RUN_LOG_PREFIX@, at + "-"@ + origin, RUN_LOG_SUFFIX@);
}

/// The name of the log of a run. The moment can be read back from it.
pub fn run_log_file_name(now: Timestamp, host: &str, pid: u32, unique: &str) -> (r: String)
    requires
        chance::is_uuid(unique@),
        calendar::in_calendar(time::seconds_of(now)),
    ensures
        stamp(time::seconds_of(now), time::subsecond_of(now)) is Some,
        r@ == log_name(
            stamp(time::seconds_of(now), time::subsecond_of(now))->Some_0,
            component(host@),
            text::decimal(pid as nat),
            chance::digits_of(unique@),
        ),
        calendar::in_common_years(time::seconds_of(now)) ==> moment_of_name(r@)
            == Some(told_second(time::seconds_of(now) as i64, time::subsecond_of(now))),
{
    let (seconds, nanos) = time::parts(now);
    let host = sanitize_log_component(host);
    let pid_shown = text::number(pid as u64);
    let digits = chance::uuid_digits(unique);
    match format_stamp(seconds, nanos) {
        Some(at) => {
            let origin = text::cat5(
                host.as_str(),
                "-",
                pid_shown.as_str(),
                "-",
                digits.as_str(),
            );
            let body = text::cat3(at.as_str(), "-", origin.as_str());
            proof {
                components_are_plain(host@);
                text::numbers_read_back(pid as nat);
                if calendar::in_common_years(seconds as int) {
                    stamps_are_plain(seconds as int, nanos as int);
                    names_tell_their_moment(at@, host@, pid_shown@, digits@);
                }
            }
            text::cat3(RUN_LOG_PREFIX, body.as_str(), RUN_LOG_SUFFIX)
        },
        None => {
            assert(false);
            String::new()
        },
    }
}

/// A new name for the log of a run.
pub fn new_run_log_file_name(now: Timestamp, host: &str, pid: u32) -> (r: String)
    requires
        calendar::in_calendar(time::seconds_of(now)),
    ensures
        exists|unique: Seq<char>| #[trigger]
            chance::is_uuid(unique) && chance::is_drawn_id(unique) && r@ == log_name(
                stamp(time::seconds_of(now), time::subsecond_of(now))->Some_0,
                component(host@),
                text::decimal(pid as nat),
                chance::digits_of(unique),
            ),
        calendar::in_common_years(time::seconds_of(now)) ==> moment_of_name(r@)
            == Some(told_second(time::seconds_of(now) as i64, time::subsecond_of(now))),
{
    let unique = chance::new_id();
    run_log_file_name(now, host, pid, unique.as_str())
}

// ---------------------------------------------------------------------------
// Making a log
// ---------------------------------------------------------------------------

pub fn runtime_log_dir(config_dir: &str) -> (r: String)
    ensures
        r@ == auth_json::path_in(config_dir@, "logs"@),
{
    auth_json::join_path(config_dir, "logs")
}

/// What came of an attempt to make a file that was not there.
pub enum CreateOutcome {
    Created,
    AlreadyExists,
    Failed,
}

pub enum CreateStep {
    /// The log is there.
    Done,
    /// Another name has to be tried.
    Again,
    /// There will be no log.
    Stop(String),
}

/// What follows an attempt; `tried` is how many there were with this one.
pub open spec fn is_create_step(
    r: CreateStep,
    outcome: CreateOutcome,
    tried: usize,
    dir: Seq<char>,
    path: Seq<char>,
) -> bool {
    match outcome {
        CreateOutcome::Created => r is Done,
        CreateOutcome::AlreadyExists => if tried < RUN_LOG_CREATE_ATTEMPTS {
            r is Again
        } else {
            r matches CreateStep::Stop(m) && m@
                == "Failed to create a unique runtime log file in "@ + dir
        },
        CreateOutcome::Failed => r matches CreateStep::Stop(m) && m@
            == "Failed to create runtime log file: "@ + path,
    }
}

pub fn create_step(outcome: CreateOutcome, tried: usize, dir: &str, path: &str) -> (r: CreateStep)
    ensures
        is_create_step(r, outcome, tried, dir@, path@),
{
    match outcome {
        CreateOutcome::Created => CreateStep::Done,
        CreateOutcome::AlreadyExists => if tried < RUN_LOG_CREATE_ATTEMPTS {
            CreateStep::Again
        } else {
            CreateStep::Stop(text::cat2("Failed to create a unique runtime log file in ", dir))
        },
        CreateOutcome::Failed => CreateStep::Stop(
            text::cat2("Failed to create runtime log file: ", path),
        ),
    }
}

// ---------------------------------------------------------------------------
// The newest log
// ---------------------------------------------------------------------------

/// An entry of the directory; its name, where it is a text.
pub struct LogEntry {
    pub name: Option<String>,
    pub is_file: bool,
}

pub struct EntryView {
    pub name: Option<Seq<char>>,
    pub is_file: bool,
}

impl View for LogEntry {
    type V = EntryView;

    open spec fn view(&self) -> EntryView {
        EntryView { name: text::opt_view(self.name), is_file: self.is_file }
    }
}

pub open spec fn entry_views(entries: Seq<LogEntry>) -> Seq<EntryView> {
    entries.map_values(|e: LogEntry| e@)
}

pub open spec fn is_log_name(name: Seq<char>) -> bool {
    text::begins_with(name, RUN_LOG_PREFIX@) && text::finishes_with(name, RUN_LOG_SUFFIX@)
}

/// The entry is a file that is named as a log.
pub open spec fn is_log(e: EntryView) -> bool {
    e.is_file && e.name is Some && is_log_name(e.name->Some_0)
}

/// The name that comes last in the order of texts.
pub open spec fn newest(entries: Seq<EntryView>) -> Option<Seq<char>>
    decreases entries.len(),
{
    if entries.len() == 0 {
        None
    } else {
        let before = newest(entries.drop_last());
        let e = entries.last();
        if is_log(e) && (before is None || json::is_less(before->Some_0, e.name->Some_0)) {
            e.name
        } else {
            before
        }
    }
}

fn less(a: &Vec<char>, b: &Vec<char>) -> (r: bool)
    ensures
        r == json::is_less(a@, b@),
{
    let mut i: usize = 0;
    assert(a@.skip(0) =~= a@ && b@.skip(0) =~= b@);
    while i < a.len() && i < b.len()
        invariant
            i <= a@.len(),
            i <= b@.len(),
            json::is_less(a@, b@) == json::is_less(a@.skip(i as int), b@.skip(i as int)),
        decreases a@.len() - i,
    {
        if a[i] != b[i] {
            return (a[i] as u32) < (b[i] as u32);
        }
        assert(a@.skip(i as int).drop_first() =~= a@.skip(i as int + 1));
        assert(b@.skip(i as int).drop_first() =~= b@.skip(i as int + 1));
        i = i + 1;
    }
    i < b.len()
}

/// A text that is not before a first one is before nothing that the first is
/// not before.
proof fn less_is_transitive(a: Seq<char>, b: Seq<char>, c: Seq<char>)
    requires
        json::is_less(a, b),
        !json::is_less(a, c),
    ensures
        !json::is_less(b, c),
    decreases a.len(),
{
    if c.len() > 0 && a.len() > 0 && b.len() > 0 {
        if a[0] == b[0] && a[0] == c[0] {
            less_is_transitive(a.drop_first(), b.drop_first(), c.drop_first());
        }
    }
}

proof fn nothing_is_less_than_itself(a: Seq<char>)
    ensures
        !json::is_less(a, a),
    decreases a.len(),
{
    if a.len() > 0 {
        nothing_is_less_than_itself(a.drop_first());
    }
}

/// The newest log is one of the logs, none of them is newer, and there is one
/// wherever there is a log at all.
pub proof fn newest_is_newest(entries: Seq<EntryView>)
    ensures
        newest(entries) is Some ==> exists|i: int|
            0 <= i < entries.len() && is_log(#[trigger] entries[i]) && entries[i].name == newest(
                entries,
            ),
        forall|i: int|
            0 <= i < entries.len() && is_log(#[trigger] entries[i]) ==> (newest(
                entries,
            ) matches Some(n) && !json::is_less(n, entries[i].name->Some_0)),
    decreases entries.len(),
{
    if entries.len() > 0 {
        let front = entries.drop_last();
        let e = entries.last();
        let before = newest(front);
        newest_is_newest(front);
        if newest(entries) is Some {
            if is_log(e) && (before is None || json::is_less(before->Some_0, e.name->Some_0)) {
                assert(entries[entries.len() - 1] == e);
            } else {
                let i = choose|i: int|
                    0 <= i < front.len() && is_log(#[trigger] front[i]) && front[i].name == newest(
                        front,
                    );
                assert(entries[i] == front[i]);
            }
        }
        assert forall|i: int| 0 <= i < entries.len() && is_log(#[trigger] entries[i]) implies (
        newest(entries) matches Some(n) && !json::is_less(n, entries[i].name->Some_0)) by {
            if i < front.len() {
                assert(front[i] == entries[i]);
                assert(!json::is_less(before->Some_0, front[i].name->Some_0));
                if newest(entries) != before {
                    less_is_transitive(before->Some_0, e.name->Some_0, front[i].name->Some_0);
                }
            } else {
                nothing_is_less_than_itself(e.name->Some_0);
            }
        }
    }
}

pub fn latest_runtime_log(entries: &Vec<LogEntry>) -> (r: Option<String>)
    ensures
        text::opt_view(r) == newest(entry_views(entries@)),
{
    let mut latest: Option<String> = None;
    let mut i: usize = 0;
    let ghost all = entry_views(entries@);
    assert(all.take(0) =~= Seq::empty());
    while i < entries.len()
        invariant
            i <= entries@.len(),
            all == entry_views(entries@),
            text::opt_view(latest) == newest(all.take(i as int)),
        decreases entries@.len() - i,
    {
        assert(all.take(i as int + 1).drop_last() =~= all.take(i as int));
        assert(all.take(i as int + 1).last() == entries@[i as int]@);
        let e = &entries[i];
        if let Some(name) = &e.name {
            if e.is_file && text::starts_with(name.as_str(), RUN_LOG_PREFIX) && text::ends_with(
                name.as_str(),
                RUN_LOG_SUFFIX,
            ) {
                let newer = match &latest {
                    Some(l) => {
                        let a = text::to_chars(l.as_str());
                        let b = text::to_chars(name.as_str());
                        less(&a, &b)
                    },
                    None => true,
                };
                if newer {
                    latest = Some(name.clone());
                }
            }
        }
        i = i + 1;
    }
    assert(all.take(i as int) =~= all);
    latest
}

/// The path of the newest log; `entries` is what the directory holds, where it is
/// there.
pub fn latest_runtime_log_path_in_dir(dir: &str, entries: Option<&Vec<LogEntry>>) -> (r: Option<
    String,
>)
    ensures
        text::opt_view(r) == latest_path(dir@, entries),
{
    match entries {
        Some(list) => match latest_runtime_log(list) {
            Some(name) => Some(auth_json::join_path(dir, name.as_str())),
            None => None,
        },
        None => None,
    }
}

pub open spec fn latest_path(dir: Seq<char>, entries: Option<&Vec<LogEntry>>) -> Option<Seq<char>> {
    match entries {
        Some(list) => match newest(entry_views(list@)) {
            Some(name) => Some(auth_json::path_in(dir, name)),
            None => None,
        },
        None => None,
    }
}

// ---------------------------------------------------------------------------
// Old logs
// ---------------------------------------------------------------------------

#[derive(Debug, Clone, Copy, PartialEq, Eq, Structural)]
pub struct RuntimeLogPruneSummary {
    pub scanned: usize,
    pub matched: usize,
    pub candidates: usize,
    pub removed: usize,
    pub ignored_missing: usize,
}

impl Default for RuntimeLogPruneSummary {
    fn default() -> (r: Self)
        ensures
            r == no_logs(),
    {
        RuntimeLogPruneSummary {
            scanned: 0,
            matched: 0,
            candidates: 0,
            removed: 0,
            ignored_missing: 0,
        }
    }
}

pub open spec fn no_logs() -> RuntimeLogPruneSummary {
    RuntimeLogPruneSummary { scanned: 0, matched: 0, candidates: 0, removed: 0, ignored_missing: 0 }
}

/// What is to be removed, and what was counted on the way.
pub struct PrunePlan {
    pub summary: RuntimeLogPruneSummary,
    pub candidates: Vec<String>,
}

pub const NO_RETENTION: &'static str = "Runtime log retention days must be greater than 0";

pub const RETENTION_TOO_LARGE: &'static str = "Runtime log retention days are too large";

pub const RETENTION_TOO_LONG: &'static str = "Runtime log retention duration is too large";

/// How many days a span of time can have.
pub const MAX_RETENTION_DAYS: u64 = 106_751_991_167;

/// The moment of a log that the entry is.
pub open spec fn entry_moment(e: EntryView) -> Option<LogMoment> {
    if e.is_file && e.name is Some {
        moment_of_name(e.name->Some_0)
    } else {
        None
    }
}

/// The entry is an old log, and not the current one.
pub open spec fn is_outdated(e: EntryView, cutoff: LogMoment, current: Option<Seq<char>>) -> bool {
    &&& entry_moment(e) matches Some(m) && m.is_before(cutoff)
    &&& current != e.name
}

pub open spec fn outdated(
    entries: Seq<EntryView>,
    cutoff: LogMoment,
    current: Option<Seq<char>>,
) -> Seq<Seq<char>>
    decreases entries.len(),
{
    if entries.len() == 0 {
        Seq::empty()
    } else {
        let before = outdated(entries.drop_last(), cutoff, current);
        if is_outdated(entries.last(), cutoff, current) {
            before.push(entries.last().name->Some_0)
        } else {
            before
        }
    }
}

pub open spec fn count_logs(entries: Seq<EntryView>) -> nat
    decreases entries.len(),
{
    if entries.len() == 0 {
        0
    } else {
        count_logs(entries.drop_last()) + if entry_moment(entries.last()) is Some {
            1nat
        } else {
            0nat
        }
    }
}

/// What counts as old: what is from before this moment.
pub open spec fn cutoff_of(now: Timestamp, days: u64) -> LogMoment {
    LogMoment {
        seconds: (time::total_nanos(now) / 1_000_000_000 - days * 86_400) as i64,
        nanos: (time::total_nanos(now) % 1_000_000_000) as u32,
    }
}

/// Why nothing can be removed.
pub open spec fn prune_error(there: bool, days: u64) -> Option<Seq<char>> {
    if days == 0 {
        Some(NO_RETENTION@)
    } else if !there {
        None
    } else if days > i64::MAX {
        Some(RETENTION_TOO_LARGE@)
    } else if days > MAX_RETENTION_DAYS {
        Some(RETENTION_TOO_LONG@)
    } else {
        None
    }
}

pub open spec fn is_prune_plan(
    r: Result<PrunePlan, String>,
    entries: Option<&Vec<LogEntry>>,
    now: Timestamp,
    days: u64,
    current: Option<Seq<char>>,
) -> bool {
    match (r, prune_error(entries is Some, days)) {
        (Err(m), Some(e)) => m@ == e,
        (Ok(plan), None) => match entries {
            None => plan.summary == no_logs() && plan.candidates@.len() == 0,
            Some(list) => {
                let all = entry_views(list@);
                &&& text::views(plan.candidates@) == outdated(all, cutoff_of(now, days), current)
                &&& plan.summary.scanned == all.len()
                &&& plan.summary.matched == count_logs(all)
                &&& plan.summary.candidates == plan.candidates@.len()
                &&& plan.summary.removed == 0
                &&& plan.summary.ignored_missing == 0
            },
        },
        _ => false,
    }
}

/// Which logs are to be removed. `entries` is what the directory holds, where it
/// is there, and `current` the log that is being written.
pub fn plan_prune(
    entries: Option<&Vec<LogEntry>>,
    now: Timestamp,
    retention_days: u64,
    current: Option<&str>,
) -> (r: Result<PrunePlan, String>)
    requires
        calendar::in_calendar(time::seconds_of(now)),
        entries is Some && retention_days <= MAX_RETENTION_DAYS ==> calendar::in_calendar(
            time::seconds_of(now) - retention_days * 86_400,
        ),
    ensures
        is_prune_plan(r, entries, now, retention_days, accounts::str_view(current)),
{
    if retention_days == 0 {
        return Err(NO_RETENTION.to_owned());
    }
    let list = match entries {
        Some(list) => list,
        None => {
            return Ok(
                PrunePlan { summary: RuntimeLogPruneSummary::default(), candidates: Vec::new() },
            );
        },
    };
    if retention_days > i64::MAX as u64 {
        return Err(RETENTION_TOO_LARGE.to_owned());
    }
    if retention_days > MAX_RETENTION_DAYS {
        return Err(RETENTION_TOO_LONG.to_owned());
    }
    let days: i64 = retention_days as i64;
    let (seconds, nanos) = time::parts(now);
    let cutoff = if nanos < 1_000_000_000 {
        LogMoment { seconds: seconds - days * 86_400, nanos }
    } else {
        LogMoment { seconds: seconds + 1 - days * 86_400, nanos: nanos - 1_000_000_000 }
    };
    assert(cutoff == cutoff_of(now, retention_days));
    let ghost shown = accounts::str_view(current);
    let ghost all = entry_views(list@);
    let mut candidates: Vec<String> = Vec::new();
    let mut matched: usize = 0;
    let mut i: usize = 0;
    assert(all.take(0) =~= Seq::empty());
    assert(text::views(candidates@) =~= Seq::empty());
    while i < list.len()
        invariant
            i <= list@.len(),
            all == entry_views(list@),
            shown == accounts::str_view(current),
            matched <= i,
            matched as nat == count_logs(all.take(i as int)),
            text::views(candidates@) == outdated(all.take(i as int), cutoff, shown),
        decreases list@.len() - i,
    {
        assert(all.take(i as int + 1).drop_last() =~= all.take(i as int));
        assert(all.take(i as int + 1).last() == list@[i as int]@);
        let e = &list[i];
        if let Some(name) = &e.name {
            if e.is_file {
                if let Some(m) = runtime_log_timestamp_from_file_name(name.as_str()) {
                    matched = matched + 1;
                    let is_current = match current {
                        Some(c) => text::same(c, name.as_str()),
                        None => false,
                    };
                    if !is_current && m.before(cutoff) {
                        let ghost before = candidates@;
                        candidates.push(name.clone());
                        assert(text::views(candidates@) =~= text::views(before).push(name@));
                    }
                }
            }
        }
        i = i + 1;
    }
    assert(all.take(i as int) =~= all);
    assert(text::views(candidates@).len() == candidates@.len());
    Ok(
        PrunePlan {
            summary: RuntimeLogPruneSummary {
                scanned: list.len(),
                matched,
                candidates: candidates.len(),
                removed: 0,
                ignored_missing: 0,
            },
            candidates,
        },
    )
}

/// Only old logs are removed: each is a file of the directory that is named as a
/// log from before the cutoff, and is not the current one.
pub proof fn only_old_logs_go(
    entries: Seq<EntryView>,
    cutoff: LogMoment,
    current: Option<Seq<char>>,
    k: int,
)
    requires
        0 <= k < outdated(entries, cutoff, current).len(),
    ensures
        exists|i: int|
            0 <= i < entries.len() && is_outdated(#[trigger] entries[i], cutoff, current)
                && entries[i].name == Some(outdated(entries, cutoff, current)[k]),
        current != Some(outdated(entries, cutoff, current)[k]),
    decreases entries.len(),
{
    let front = entries.drop_last();
    let before = outdated(front, cutoff, current);
    if k < before.len() {
        only_old_logs_go(front, cutoff, current, k);
        let i = choose|i: int|
            0 <= i < front.len() && is_outdated(#[trigger] front[i], cutoff, current)
                && front[i].name == Some(before[k]);
        assert(entries[i] == front[i]);
    } else {
        assert(entries[entries.len() - 1] == entries.last());
    }
}

/// What came of removing a file.
pub enum Removal {
    Removed,
    Missing,
    Failed,
}

/// How a removal is counted, and what is told where it failed.
pub open spec fn is_removal(
    r: Result<(), String>,
    before: RuntimeLogPruneSummary,
    after: RuntimeLogPruneSummary,
    path: Seq<char>,
    outcome: Removal,
) -> bool {
    match outcome {
        Removal::Removed => r is Ok && after == (RuntimeLogPruneSummary {
            removed: (before.removed + 1) as usize,
            ..before
        }),
        Removal::Missing => r is Ok && after == (RuntimeLogPruneSummary {
            ignored_missing: (before.ignored_missing + 1) as usize,
            ..before
        }),
        Removal::Failed => after == before && (r matches Err(m) && m@
            == "Failed to remove runtime log: "@ + path),
    }
}

/// Counts a removal. A file that has gone by itself is no failure.
pub fn record_removal(summary: &mut RuntimeLogPruneSummary, path: &str, outcome: Removal) -> (r:
    Result<(), String>)
    requires
        old(summary).removed + old(summary).ignored_missing < old(summary).candidates,
    ensures
        is_removal(r, *old(summary), *final(summary), path@, outcome),
{
    match outcome {
        Removal::Removed => {
            summary.removed = summary.removed + 1;
            Ok(())
        },
        Removal::Missing => {
            summary.ignored_missing = summary.ignored_missing + 1;
            Ok(())
        },
        Removal::Failed => Err(text::cat2("Failed to remove runtime log: ", path)),
    }
}

// ---------------------------------------------------------------------------
// Laws
// ---------------------------------------------------------------------------

/// Every removal is counted once, as what it was, and nothing else changes. Only one
/// that failed is an error, which names the file.
pub proof fn removals_are_counted(
    r: Result<(), String>,
    before: RuntimeLogPruneSummary,
    after: RuntimeLogPruneSummary,
    path: Seq<char>,
    outcome: Removal,
)
    requires
        before.removed + before.ignored_missing < before.candidates,
        is_removal(r, before, after, path, outcome),
    ensures
        after.scanned == before.scanned && after.matched == before.matched && after.candidates
            == before.candidates,
        after.removed + after.ignored_missing <= after.candidates,
        outcome is Removed <==> after.removed == before.removed + 1,
        outcome is Missing <==> after.ignored_missing == before.ignored_missing + 1,
        outcome is Failed <==> r is Err,
        r is Err ==> after == before && text::finishes_with(r->Err_0@, path),
{
    if r is Err {
        let m = r->Err_0@;
        assert(m.subrange(m.len() - path.len(), m.len() as int) =~= path);
    }
}

/// Every log that is older than the cutoff goes, but the current one.
pub proof fn old_logs_go(
    entries: Seq<EntryView>,
    cutoff: LogMoment,
    current: Option<Seq<char>>,
    i: int,
)
    requires
        0 <= i < entries.len(),
        entries[i].is_file,
        entries[i].name is Some,
        moment_of_name(entries[i].name->Some_0) is Some,
        moment_of_name(entries[i].name->Some_0)->Some_0.is_before(cutoff),
        current != entries[i].name,
    ensures
        outdated(entries, cutoff, current).contains(entries[i].name->Some_0),
    decreases entries.len(),
{
    let front = entries.drop_last();
    let before = outdated(front, cutoff, current);
    let all = outdated(entries, cutoff, current);
    if i == entries.len() - 1 {
        assert(all.last() == entries[i].name->Some_0);
    } else {
        old_logs_go(front, cutoff, current, i);
        assert(front[i] == entries[i]);
        let k = choose|k: int| 0 <= k < before.len() && before[k] == entries[i].name->Some_0;
        assert(all[k] == before[k]);
    }
}

/// A log that is younger than the days that it is kept for stays, and so does what is
/// no file or has no log's name.
pub proof fn young_logs_stay(e: EntryView, now: Timestamp, days: u64, current: Option<Seq<char>>)
    requires
        days <= MAX_RETENTION_DAYS,
        calendar::in_calendar(time::seconds_of(now)),
        calendar::in_calendar(time::seconds_of(now) - days * 86_400),
    ensures
        !e.is_file || e.name is None ==> !is_outdated(e, cutoff_of(now, days), current),
        e.name is Some && moment_of_name(e.name->Some_0) is None ==> !is_outdated(
            e,
            cutoff_of(now, days),
            current,
        ),
        !time::is_leap_second(now) && e.name is Some && moment_of_name(e.name->Some_0) is Some
            && moment_of_name(e.name->Some_0)->Some_0.seconds > time::seconds_of(now) - days * 24 * 60 * 60 ==> !is_outdated(
            e,
            cutoff_of(now, days),
            current,
        ),
        e.is_file && e.name is Some && current != e.name && moment_of_name(e.name->Some_0) is Some
            && moment_of_name(e.name->Some_0)->Some_0.seconds < time::seconds_of(now) - days * 24
            * 60 * 60 ==> is_outdated(e, cutoff_of(now, days), current),
{
    calendar_seconds_fit(time::seconds_of(now) - days * 86_400);
    assert(days * 24 * 60 * 60 == days * 86_400);
}

proof fn calendar_seconds_fit(seconds: int)
    requires
        calendar::in_calendar(seconds),
    ensures
        i64::MIN <= seconds <= i64::MAX,
{
}

/// Moments are in order by their seconds, and within one second by what is beyond it.
pub proof fn later_moments_come_later(a: LogMoment, b: LogMoment)
    ensures
        a.seconds < b.seconds ==> a.is_before(b),
        a.seconds == b.seconds ==> (a.is_before(b) <==> a.nanos < b.nanos),
        a.is_before(b) ==> !b.is_before(a),
        !a.is_before(b) && !b.is_before(a) ==> a == b,
{
}

/// At least one day is asked for, even where there are no logs, and any number of
/// days that a time can be counted back by is accepted.
pub proof fn retention_is_checked(there: bool, days: u64)
    ensures
        days == 0 ==> prune_error(there, days) is Some,
        0 < days <= 106_751_991_167 ==> prune_error(there, days) is None,
        there && days > 106_751_991_167 ==> prune_error(there, days) is Some,
        !there && days > 0 ==> prune_error(there, days) is None,
{
}

/// A file whose name is taken is tried again under another, up to sixteen times.
pub proof fn taken_names_are_tried_again(
    outcome: CreateOutcome,
    tried: usize,
    dir: &str,
    path: &str,
    r: CreateStep,
)
    requires
        call_ensures(create_step, (outcome, tried, dir, path), r),
    ensures
        outcome is Created <==> r is Done,
        outcome is AlreadyExists && tried < 16 <==> r is Again,
        outcome is AlreadyExists && tried >= 16 ==> text::finishes_with(r->Stop_0@, dir@),
        outcome is Failed ==> text::finishes_with(r->Stop_0@, path@),
{
    if r is Stop {
        let m = r->Stop_0@;
        if outcome is Failed {
            assert(m.subrange(m.len() - path@.len(), m.len() as int) =~= path@);
        } else {
            assert(m.subrange(m.len() - dir@.len(), m.len() as int) =~= dir@);
        }
    }
}

/// A level alone is one for this program, in whatever case it is written; another
/// setting is taken as it is; and without a setting what is told is information.
pub proof fn settings_make_filters(value: Seq<char>)
    ensures
        filter_of(None) == "codex_switch=info"@,
        text::trimmed(value).len() == 0 ==> filter_of(Some(value)) == "codex_switch=info"@,
        text::lowered(text::trimmed(value)) == "debug"@ ==> filter_of(Some(value))
            == "codex_switch=debug"@,
        text::lowered(text::trimmed(value)) == "trace"@ ==> filter_of(Some(value))
            == "codex_switch=trace"@,
        text::lowered(text::trimmed(value)) == "off"@ ==> filter_of(Some(value))
            == "codex_switch=off"@,
        text::trimmed(value).len() > 5 ==> filter_of(Some(value)) == text::trimmed(value),
        text::trimmed(value).contains('=') ==> filter_of(Some(value)) == text::trimmed(value),
{
    reveal_strlit("codex_switch=");
    reveal_strlit("codex_switch=debug");
    reveal_strlit("codex_switch=trace");
    reveal_strlit("codex_switch=off");
    reveal_strlit("trace");
    reveal_strlit("debug");
    reveal_strlit("info");
    reveal_strlit("warn");
    reveal_strlit("error");
    reveal_strlit("off");
    assert("trace"@.len() == 5 && "debug"@.len() == 5 && "info"@.len() == 4 && "warn"@.len() == 4
        && "error"@.len() == 5 && "off"@.len() == 3);
    assert("codex_switch=debug"@ =~= "codex_switch="@ + "debug"@);
    assert("codex_switch=trace"@ =~= "codex_switch="@ + "trace"@);
    assert("codex_switch=off"@ =~= "codex_switch="@ + "off"@);
    let s = text::trimmed(value);
    assert(text::lowered(s).len() == s.len());
    if s.contains('=') {
        let i = choose|i: int| 0 <= i < s.len() && s[i] == '=';
        assert(text::lowered(s)[i] == '=');
        assert(!is_level(text::lowered(s)));
    }
}

/// The variable names the host before the file does, and blank ones name nothing.
pub proof fn hosts_are_named(variable: Seq<char>, file: Seq<char>)
    ensures
        !text::is_blank(variable) ==> host_of(Some(variable), Some(file)) == text::trimmed(variable)
            && host_of(Some(variable), None) == text::trimmed(variable),
        text::is_blank(variable) && !text::is_blank(file) ==> host_of(Some(variable), Some(file))
            == text::trimmed(file),
        !text::is_blank(file) ==> host_of(None, Some(file)) == text::trimmed(file),
        text::is_blank(variable) && text::is_blank(file) ==> host_of(Some(variable), Some(file))
            == "unknown-host"@,
        host_of(None, None) == "unknown-host"@,
{
}

proof fn plain_chars_are_kept(s: Seq<char>)
    requires
        s.len() <= MAX_LOG_COMPONENT_LEN,
        forall|i: int| 0 <= i < s.len() ==> is_component_char(#[trigger] s[i]),
    ensures
        component_chars(s) == s,
    decreases s.len(),
{
    if s.len() > 0 {
        plain_chars_are_kept(s.drop_last());
        assert(is_component_char(s[s.len() - 1]));
        assert(s.drop_last().push(s.last()) =~= s);
    }
}

/// A text that can stand in a name is kept as it is.
pub proof fn plain_components_are_kept(s: Seq<char>)
    requires
        0 < s.len() <= 64,
        forall|i: int|
            0 <= i < s.len() ==> (text::is_alphanumeric(#[trigger] s[i]) || s[i] == '.' || s[i]
                == '-' || s[i] == '_'),
        s[0] != '-',
        s.last() != '-',
    ensures
        component(s) == s,
{
    assert forall|i: int| 0 <= i < s.len() implies is_component_char(#[trigger] s[i]) by {}
    plain_chars_are_kept(s);
}

proof fn replaced_between(a: Seq<char>, c: char, b: Seq<char>)
    requires
        a.len() + 1 + b.len() <= MAX_LOG_COMPONENT_LEN,
        forall|i: int| 0 <= i < a.len() ==> is_component_char(#[trigger] a[i]),
        forall|i: int| 0 <= i < b.len() ==> is_component_char(#[trigger] b[i]),
        a.len() > 0,
        a.last() != '-',
        !is_component_char(c),
    ensures
        component_chars(a + seq![c] + b) == a + seq!['-'] + b,
    decreases b.len(),
{
    let s = a + seq![c] + b;
    if b.len() == 0 {
        assert(s.drop_last() =~= a);
        plain_chars_are_kept(a);
        assert(s.last() == c);
        assert(a.push('-') =~= a + seq!['-'] + b);
    } else {
        replaced_between(a, c, b.drop_last());
        assert(s.drop_last() =~= a + seq![c] + b.drop_last());
        assert(is_component_char(b[b.len() - 1]));
        assert((a + seq!['-'] + b.drop_last()).push(b.last()) =~= a + seq!['-'] + b);
    }
}

/// What cannot stand in a name becomes a hyphen there.
pub proof fn odd_characters_become_hyphens(a: Seq<char>, c: char, b: Seq<char>)
    requires
        a.len() + 1 + b.len() <= 64,
        a.len() > 0,
        b.len() > 0,
        forall|i: int| 0 <= i < a.len() ==> text::is_alphanumeric(#[trigger] a[i]),
        forall|i: int| 0 <= i < b.len() ==> text::is_alphanumeric(#[trigger] b[i]),
        !text::is_alphanumeric(c) && c != '.' && c != '-' && c != '_',
    ensures
        component(a + seq![c] + b) == a + seq!['-'] + b,
{
    assert forall|i: int| 0 <= i < a.len() implies is_component_char(#[trigger] a[i]) by {}
    assert forall|i: int| 0 <= i < b.len() implies is_component_char(#[trigger] b[i]) by {}
    assert(text::is_alphanumeric(a[0]) && text::is_alphanumeric(a[a.len() - 1])
        && text::is_alphanumeric(b[b.len() - 1]));
    replaced_between(a, c, b);
    let r = a + seq!['-'] + b;
    assert(r[0] == a[0]);
    assert(r.last() == b.last());
}

/// Names are of logs by how they begin and end.
pub proof fn logs_are_known_by_name(middle: Seq<char>, name: Seq<char>)
    ensures
        is_log_name("codex-switch-run-"@ + middle + ".log"@),
        is_log_name(name) ==> text::begins_with(name, "codex-switch-run-"@) && text::finishes_with(
            name,
            ".log"@,
        ),
{
    let n = "codex-switch-run-"@ + middle + ".log"@;
    let p = "codex-switch-run-"@;
    let q = ".log"@;
    assert(n.subrange(0, p.len() as int) =~= p);
    assert(n.subrange(n.len() - q.len(), n.len() as int) =~= q);
}

/// The newest log is in the directory that was looked at.
pub proof fn the_newest_log_is_in_its_directory(dir: Seq<char>, entries: Option<&Vec<LogEntry>>)
    ensures
        entries is None ==> latest_path(dir, entries) is None,
        latest_path(dir, entries) is Some ==> exists|i: int|
            0 <= i < entries->Some_0@.len() && (#[trigger] entries->Some_0@[i]).is_file
                && entries->Some_0@[i].name is Some && latest_path(dir, entries) == Some(
                auth_json::path_in(dir, entries->Some_0@[i].name->Some_0@),
            ),
{
    if latest_path(dir, entries) is Some {
        let all = entry_views(entries->Some_0@);
        newest_is_newest(all);
        let i = choose|i: int|
            0 <= i < all.len() && is_log(#[trigger] all[i]) && all[i].name == newest(all);
        assert(all[i] == entries->Some_0@[i]@);
    }
}

/// The number of logs among the entries is never more than that of the entries, and
/// each file with a log's name adds one.
pub proof fn logs_are_counted(entries: Seq<EntryView>, e: EntryView)
    ensures
        count_logs(entries) <= entries.len(),
        e.is_file && e.name is Some && moment_of_name(e.name->Some_0) is Some ==> count_logs(
            entries.push(e),
        ) == count_logs(entries) + 1,
        !e.is_file || e.name is None || moment_of_name(e.name->Some_0) is None ==> count_logs(
            entries.push(e),
        ) == count_logs(entries),
    decreases entries.len(),
{
    assert(entries.push(e).drop_last() =~= entries);
    if entries.len() > 0 {
        logs_are_counted(entries.drop_last(), e);
    }
}

/// A character is as wide as its encoding has bytes.
pub proof fn widths_are_those_of_the_encoding(c: char)
    ensures
        width(c) == vstd::utf8::encode_utf8(seq![c]).len(),
{
    assert(seq![c].drop_first() =~= Seq::<char>::empty());
    assert(vstd::utf8::encode_utf8(Seq::<char>::empty()) =~= Seq::<u8>::empty());
    vstd::utf8::char_is_scalar(c);
    vstd::utf8::char_u32_cast(c, c as u32);
}

} // verus!
