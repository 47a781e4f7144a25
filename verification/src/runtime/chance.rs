//! What is left to chance: intervals, tokens and request ids.
use crate::text;
use rand::RngExt as _;
use vstd::prelude::*;

verus! {

/// `rand::rng().random_range` over an inclusive range: a number from within the
/// range. Which one is left to chance.
#[verifier::external_body]
fn random_between(min: u64, max: u64) -> (r: u64)
    requires
        min <= max,
    ensures
        min <= r <= max,
{
    rand::rng().random_range(min..=max)
}

/// `fill_bytes` of `rand::rng()`: so many bytes, few enough to be allocated. Which
/// ones is left to chance.
#[verifier::external_body]
pub(crate) fn random_bytes(count: usize) -> (r: Vec<u8>)
    requires
        count <= 64,
    ensures
        r@.len() == count,
{
    let mut bytes = vec![0u8; count];
    rand::Rng::fill_bytes(&mut rand::rng(), &mut bytes);
    bytes
}

/// This number was drawn from the range: it is what chance may bring.
pub closed spec fn is_drawn(r: u64, min: u64, max: u64) -> bool {
    call_ensures(random_between, (min, max), r)
}

/// These bytes were drawn: they are what chance may bring for so many of them.
pub closed spec fn are_drawn(bytes: Seq<u8>, count: usize) -> bool {
    exists|v: Vec<u8>| #[trigger] call_ensures(random_bytes, (count,), v) && v@ == bytes
}

fn draw<F: Fn(u64, u64) -> u64>(chance: F, min: u64, max: u64) -> (r: u64)
    requires
        call_requires(chance, (min, max)),
    ensures
        call_ensures(chance, (min, max), r),
{
    chance(min, max)
}

fn draw_all<F: Fn(usize) -> Vec<u8>>(chance: F, count: usize) -> (r: Vec<u8>)
    requires
        call_requires(chance, (count,)),
    ensures
        call_ensures(chance, (count,), r),
{
    chance(count)
}

fn draw_text<F: Fn() -> String>(chance: F) -> (r: String)
    requires
        call_requires(chance, ()),
    ensures
        call_ensures(chance, (), r),
{
    chance()
}

/// So many bytes, by chance.
pub(crate) fn drawn_bytes(count: usize) -> (r: Vec<u8>)
    requires
        count <= 64,
    ensures
        r@.len() == count,
        are_drawn(r@, count),
{
    draw_all(random_bytes, count)
}

pub const NANOS_PER_SECOND: u128 = 1_000_000_000;

/// A duration in nanoseconds is one between two others: a whole number of seconds,
/// or the lower one where they have the same seconds.
pub open spec fn is_between(r: u128, min: u128, max: u128) -> bool {
    if min / NANOS_PER_SECOND == max / NANOS_PER_SECOND {
        r == min
    } else {
        r % NANOS_PER_SECOND == 0 && min / NANOS_PER_SECOND <= r / NANOS_PER_SECOND <= max
            / NANOS_PER_SECOND
    }
}

/// A duration between two others, by chance.
pub fn random_duration_between(min: u128, max: u128) -> (r: u128)
    requires
        min <= max,
        max / NANOS_PER_SECOND <= u64::MAX,
    ensures
        is_between(r, min, max),
        min / NANOS_PER_SECOND != max / NANOS_PER_SECOND ==> is_drawn(
            (r / NANOS_PER_SECOND) as u64,
            (min / NANOS_PER_SECOND) as u64,
            (max / NANOS_PER_SECOND) as u64,
        ),
{
    let min_secs: u64 = (min / NANOS_PER_SECOND) as u64;
    let max_secs: u64 = (max / NANOS_PER_SECOND) as u64;
    if min_secs == max_secs {
        return min;
    }
    let seconds: u64 = draw(random_between, min_secs, max_secs);
    seconds as u128 * NANOS_PER_SECOND
}

/// A quarter of an hour, in nanoseconds.
pub const AUTO_SWITCH_MAINTENANCE_MIN_INTERVAL: u128 = 900_000_000_000;

/// Three quarters of an hour.
pub const AUTO_SWITCH_MAINTENANCE_MAX_INTERVAL: u128 = 2_700_000_000_000;

/// Five minutes.
pub const TOKEN_PREWARM_MIN_WINDOW: u128 = 300_000_000_000;

/// Eight minutes.
pub const TOKEN_PREWARM_MAX_WINDOW: u128 = 480_000_000_000;

/// The pause before the accounts are looked at again.
pub fn random_auto_switch_maintenance_interval() -> (r: u128)
    ensures
        AUTO_SWITCH_MAINTENANCE_MIN_INTERVAL <= r <= AUTO_SWITCH_MAINTENANCE_MAX_INTERVAL,
        r % NANOS_PER_SECOND == 0,
        is_drawn((r / NANOS_PER_SECOND) as u64, 900, 2_700),
{
    random_duration_between(
        AUTO_SWITCH_MAINTENANCE_MIN_INTERVAL,
        AUTO_SWITCH_MAINTENANCE_MAX_INTERVAL,
    )
}

/// How long before its end a token is renewed.
pub fn random_token_prewarm_window() -> (r: u128)
    ensures
        TOKEN_PREWARM_MIN_WINDOW <= r <= TOKEN_PREWARM_MAX_WINDOW,
        r % NANOS_PER_SECOND == 0,
        is_drawn((r / NANOS_PER_SECOND) as u64, 300, 480),
{
    random_duration_between(TOKEN_PREWARM_MIN_WINDOW, TOKEN_PREWARM_MAX_WINDOW)
}

pub open spec fn is_hex(c: char) -> bool {
    '0' <= c <= '9' || 'a' <= c <= 'f'
}

/// Thirty-two lower-case hexadecimal digits in groups of 8, 4, 4, 4 and 12, with
/// a hyphen between two groups.
pub open spec fn is_uuid(s: Seq<char>) -> bool {
    &&& s.len() == 36
    &&& forall|i: int|
        0 <= i < 36 ==> if i == 8 || i == 13 || i == 18 || i == 23 {
            (#[trigger] s[i]) == '-'
        } else {
            is_hex(s[i])
        }
}

/// `uuid::Uuid::new_v4`, written by its `Display`: a random identifier in the
/// hyphenated form. Which one is left to chance.
#[verifier::external_body]
pub(crate) fn new_uuid() -> (r: String)
    ensures
        is_uuid(r@),
{
    uuid::Uuid::new_v4().to_string()
}

/// This identifier was drawn: it is one that chance may bring.
pub closed spec fn is_drawn_id(id: Seq<char>) -> bool {
    exists|s: String| #[trigger] call_ensures(new_uuid, (), s) && s@ == id
}

/// A new identifier, for an account or for a request.
pub fn new_id() -> (r: String)
    ensures
        is_uuid(r@),
        is_drawn_id(r@),
{
    draw_text(new_uuid)
}

/// The digits of an identifier, without its hyphens.
pub open spec fn digits_of(id: Seq<char>) -> Seq<char> {
    id.subrange(0, 8) + id.subrange(9, 13) + id.subrange(14, 18) + id.subrange(19, 23)
        + id.subrange(24, 36)
}

pub fn uuid_digits(id: &str) -> (r: String)
    requires
        is_uuid(id@),
    ensures
        r@ == digits_of(id@),
        r@.len() == 32,
        forall|i: int| 0 <= i < 32 ==> is_hex(#[trigger] r@[i]),
{
    let v = text::to_chars(id);
    let a = text::from_chars(&v, 0, 8);
    let b = text::from_chars(&v, 9, 13);
    let c = text::from_chars(&v, 14, 18);
    let d = text::from_chars(&v, 19, 23);
    let e = text::from_chars(&v, 24, 36);
    let r = text::cat5(a.as_str(), b.as_str(), c.as_str(), d.as_str(), e.as_str());
    assert forall|i: int| 0 <= i < 32 implies is_hex(#[trigger] r@[i]) by {
        if i < 8 {
            assert(r@[i] == v@[i]);
        } else if i < 12 {
            assert(r@[i] == v@[i + 1]);
        } else if i < 16 {
            assert(r@[i] == v@[i + 2]);
        } else if i < 20 {
            assert(r@[i] == v@[i + 3]);
        } else {
            assert(r@[i] == v@[i + 4]);
        }
    }
    r
}

/// A token is made of the digits of two identifiers.
pub open spec fn is_token(s: Seq<char>, first: Seq<char>, second: Seq<char>) -> bool {
    is_uuid(first) && is_uuid(second) && is_drawn_id(first) && is_drawn_id(second) && s
        == digits_of(first) + digits_of(second)
}

/// The token that a client has to show to the proxy: sixty-four hexadecimal digits.
pub fn websocket_token() -> (r: String)
    ensures
        exists|first: Seq<char>, second: Seq<char>| is_token(r@, first, second),
        r@.len() == 64,
        forall|i: int| 0 <= i < 64 ==> is_hex(#[trigger] r@[i]),
{
    let first = new_id();
    let second = new_id();
    let a = uuid_digits(first.as_str());
    let b = uuid_digits(second.as_str());
    let r = text::cat2(a.as_str(), b.as_str());
    assert(is_token(r@, first@, second@));
    assert forall|i: int| 0 <= i < 64 implies is_hex(#[trigger] r@[i]) by {
        if i < 32 {
            assert(r@[i] == a@[i]);
        } else {
            assert(r@[i] == b@[i - 32]);
        }
    }
    r
}

/// The name of the file that holds the token.
pub fn runtime_token_file_name() -> (r: String)
    ensures
        exists|id: Seq<char>|
            #[trigger] is_uuid(id) && is_drawn_id(id) && r@ == "ws-token-"@ + id,
{
    let id = new_id();
    text::cat2("ws-token-", id.as_str())
}

pub const INTERNAL_REQUEST_ID_PREFIX: &'static str = "codex-switch/";

/// What the ids of all requests of one proxy begin with.
pub fn new_request_prefix() -> (r: String)
    ensures
        exists|id: Seq<char>|
            #[trigger] is_uuid(id) && is_drawn_id(id) && r@ == INTERNAL_REQUEST_ID_PREFIX@ + id,
{
    let id = new_id();
    text::cat2(INTERNAL_REQUEST_ID_PREFIX, id.as_str())
}

// ---------------------------------------------------------------------------
// Laws
// ---------------------------------------------------------------------------

/// A duration between two others lies between them, up to the second that both are
/// cut to.
pub proof fn durations_lie_between(r: u128, min: u128, max: u128)
    requires
        is_between(r, min, max),
        min <= max,
        min % NANOS_PER_SECOND == 0,
    ensures
        min <= r <= max,
{
}

/// A token says which two identifiers it was made of: other identifiers make
/// another token.
pub proof fn tokens_keep_apart(
    s: Seq<char>,
    first: Seq<char>,
    second: Seq<char>,
    other_first: Seq<char>,
    other_second: Seq<char>,
)
    requires
        is_token(s, first, second),
        is_token(s, other_first, other_second),
    ensures
        first == other_first,
        second == other_second,
{
    let a = digits_of(first);
    let b = digits_of(other_first);
    assert(a =~= s.take(32));
    assert(b =~= s.take(32));
    assert(digits_of(second) =~= s.skip(32));
    assert(digits_of(other_second) =~= s.skip(32));
    digits_make_the_id(first, other_first);
    digits_make_the_id(second, other_second);
}

proof fn digits_make_the_id(a: Seq<char>, b: Seq<char>)
    requires
        is_uuid(a),
        is_uuid(b),
        digits_of(a) == digits_of(b),
    ensures
        a == b,
{
    let x = digits_of(a);
    let y = digits_of(b);
    assert forall|i: int| 0 <= i < 36 implies #[trigger] a[i] == b[i] by {
        if i < 8 {
            assert(x[i] == a[i] && y[i] == b[i]);
        } else if 8 < i < 13 {
            assert(x[i - 1] == a[i] && y[i - 1] == b[i]);
        } else if 13 < i < 18 {
            assert(x[i - 2] == a[i] && y[i - 2] == b[i]);
        } else if 18 < i < 23 {
            assert(x[i - 3] == a[i] && y[i - 3] == b[i]);
        } else if 23 < i {
            assert(x[i - 4] == a[i] && y[i - 4] == b[i]);
        }
    }
    assert(a =~= b);
}

} // verus!
