//! What the runtime writes to its log, and how accounts are named there.
use crate::accounts;
use crate::accounts::StoredAccount;
use crate::auto_switch::AutoSwitchResult;
use crate::redaction;
use crate::text;
use vstd::prelude::*;

verus! {

/// A character that may stand in a log line; a control character becomes `?`.
pub open spec fn safe_char(c: char) -> char {
    if text::is_control_char(c) {
        '?'
    } else {
        c
    }
}

pub open spec fn sanitized(s: Seq<char>) -> Seq<char> {
    s.map_values(|c: char| safe_char(c))
}

pub fn sanitize_startup_log_message(message: &str) -> (r: String)
    ensures
        r@ == sanitized(message@),
{
    let v = text::to_chars(message);
    let mut r = String::new();
    let mut i: usize = 0;
    while i < v.len()
        invariant
            i <= v@.len(),
            r@ == sanitized(v@.take(i as int)),
        decreases v@.len() - i,
    {
        let ghost before = r@;
        let c: char = if text::control_char(v[i]) {
            '?'
        } else {
            v[i]
        };
        r.push(c);
        assert(sanitized(v@.take(i as int + 1)) =~= before.push(safe_char(v@[i as int])));
        i = i + 1;
    }
    assert(v@.take(i as int) =~= v@);
    r
}

/// A log line has no control character, and is as long as what was logged.
pub proof fn log_lines_are_printable(s: Seq<char>)
    ensures
        sanitized(s).len() == s.len(),
        forall|i: int| 0 <= i < s.len() ==> !text::is_control_char(#[trigger] sanitized(s)[i]),
        sanitized(sanitized(s)) == sanitized(s),
{
    assert forall|i: int| 0 <= i < s.len() implies !text::is_control_char(
        #[trigger] sanitized(s)[i],
    ) by {
        assert(sanitized(s)[i] == safe_char(s[i]));
    }
    assert(sanitized(sanitized(s)) =~= sanitized(s));
}

pub fn redact_runtime_log_message(message: &str, secrets: &Vec<String>) -> (r: String)
    ensures
        r@ == redaction::redacted(sanitized(message@), text::views(secrets@)),
{
    redaction::redact_known_secrets(sanitize_startup_log_message(message), secrets)
}

/// What went wrong: in short, and with everything that led to it.
pub struct Failure {
    pub message: String,
    pub detail: String,
}

/// A stretch of time: whole milliseconds, and the seconds as they are shown,
/// with one digit behind the point.
pub struct Elapsed {
    pub millis: u64,
    pub seconds_shown: String,
}

impl Elapsed {
    pub open spec fn shown(self) -> Seq<char> {
        if self.millis < 1000 {
            text::decimal(self.millis as nat) + "ms"@
        } else {
            self.seconds_shown@ + "s"@
        }
    }
}

pub fn format_elapsed(elapsed: &Elapsed) -> (r: String)
    ensures
        r@ == elapsed.shown(),
{
    if elapsed.millis < 1000 {
        let n = text::number(elapsed.millis);
        text::cat2(n.as_str(), "ms")
    } else {
        text::cat2(elapsed.seconds_shown.as_str(), "s")
    }
}

pub open spec fn expiry_shown(left: Option<Elapsed>) -> Seq<char> {
    match left {
        Some(e) => "expires in "@ + e.shown(),
        None => "expiry unknown"@,
    }
}

/// How far off the end of a token is, where it is known.
pub fn format_token_expiry_distance(left: &Option<Elapsed>) -> (r: String)
    ensures
        r@ == expiry_shown(*left),
{
    match left {
        Some(e) => {
            let shown = format_elapsed(e);
            text::cat2("expires in ", shown.as_str())
        },
        None => "expiry unknown".to_owned(),
    }
}

pub open spec fn pid_shown(pid: Option<u32>) -> Seq<char> {
    match pid {
        Some(n) => text::decimal(n as nat),
        None => "unknown"@,
    }
}

pub fn child_pid_for_log(pid: Option<u32>) -> (r: String)
    ensures
        r@ == pid_shown(pid),
{
    match pid {
        Some(n) => text::number(n as u64),
        None => "unknown".to_owned(),
    }
}

/// An account's name and short id, fit for a log.
pub open spec fn safe_label(account: StoredAccount) -> Seq<char> {
    sanitized(account.name@) + " ("@ + accounts::short(account.id@) + ")"@
}

pub fn display_safe_account_label(account: &StoredAccount) -> (r: String)
    ensures
        r@ == safe_label(*account),
{
    let name = sanitize_startup_log_message(account.name.as_str());
    let id = accounts::short_id(account.id.as_str());
    text::cat4(name.as_str(), " (", id.as_str(), ")")
}

pub open spec fn result_shown(result: AutoSwitchResult) -> Seq<char> {
    match result {
        AutoSwitchResult::CurrentKept { account, reason } => "kept "@ + safe_label(*account)
            + " - "@ + sanitized(reason@),
        AutoSwitchResult::CurrentUnsupported { account, reason } => "unsupported "@ + safe_label(
            *account,
        ) + " - "@ + sanitized(reason@),
        AutoSwitchResult::Switched { from, to, reason } => match from {
            Some(f) => "switched "@ + safe_label(*f) + " -> "@ + safe_label(*to) + " - "@
                + sanitized(reason@),
            None => "switched to "@ + safe_label(*to) + " - "@ + sanitized(reason@),
        },
    }
}

pub fn format_auto_switch_result_for_log(result: &AutoSwitchResult) -> (r: String)
    ensures
        r@ == result_shown(*result),
{
    match result {
        AutoSwitchResult::CurrentKept { account, reason } => {
            let label = display_safe_account_label(account);
            let reason = sanitize_startup_log_message(reason.as_str());
            text::cat4("kept ", label.as_str(), " - ", reason.as_str())
        },
        AutoSwitchResult::CurrentUnsupported { account, reason } => {
            let label = display_safe_account_label(account);
            let reason = sanitize_startup_log_message(reason.as_str());
            text::cat4("unsupported ", label.as_str(), " - ", reason.as_str())
        },
        AutoSwitchResult::Switched { from, to, reason } => {
            let label = display_safe_account_label(to);
            let reason = sanitize_startup_log_message(reason.as_str());
            match from {
                Some(f) => {
                    let from_label = display_safe_account_label(f);
                    text::cat6(
                        "switched ",
                        from_label.as_str(),
                        " -> ",
                        label.as_str(),
                        " - ",
                        reason.as_str(),
                    )
                },
                None => text::cat4("switched to ", label.as_str(), " - ", reason.as_str()),
            }
        },
    }
}

// ---------------------------------------------------------------------------
// Laws
// ---------------------------------------------------------------------------

/// Printable characters are logged as they are, control characters as `?`.
pub proof fn printable_text_is_logged_as_it_is(s: Seq<char>, i: int)
    requires
        0 <= i < s.len(),
    ensures
        !text::is_control_char(s[i]) ==> sanitized(s)[i] == s[i],
        text::is_control_char(s[i]) ==> sanitized(s)[i] == '?',
{
}

/// A label in the log tells the name, without control characters, and how the id
/// begins.
pub proof fn labels_in_the_log_tell_the_name(account: StoredAccount)
    ensures
        text::begins_with(safe_label(account), sanitized(account.name@)),
        text::finishes_with(safe_label(account), " ("@ + accounts::short(account.id@) + ")"@),
        (forall|i: int| 0 <= i < account.name@.len() ==> !text::is_control_char(
            #[trigger] account.name@[i],
        )) ==> safe_label(account) == accounts::label(account),
{
    let s = safe_label(account);
    let name = sanitized(account.name@);
    let rest = " ("@ + accounts::short(account.id@) + ")"@;
    assert(s =~= name + rest);
    assert(s.subrange(0, name.len() as int) =~= name);
    assert(s.subrange(s.len() - rest.len(), s.len() as int) =~= rest);
    if forall|i: int|
        0 <= i < account.name@.len() ==> !text::is_control_char(#[trigger] account.name@[i]) {
        assert(name =~= account.name@);
    }
}

/// Less than a second is shown in milliseconds, everything else in seconds.
pub proof fn durations_show_their_unit(e: Elapsed)
    ensures
        e.millis < 1_000 ==> e.shown() == text::decimal(e.millis as nat) + "ms"@,
        e.millis >= 1_000 ==> e.shown() == e.seconds_shown@ + "s"@,
{
}

/// The log tells what became of a plan: which account was kept or taken, and why.
pub proof fn results_are_logged_with_their_account(result: AutoSwitchResult)
    ensures
        match result {
            AutoSwitchResult::CurrentKept { account, reason } => text::begins_with(
                result_shown(result),
                "kept "@ + safe_label(*account),
            ) && text::finishes_with(result_shown(result), sanitized(reason@)),
            AutoSwitchResult::CurrentUnsupported { account, reason } => text::begins_with(
                result_shown(result),
                "unsupported "@ + safe_label(*account),
            ) && text::finishes_with(result_shown(result), sanitized(reason@)),
            AutoSwitchResult::Switched { from: Some(from), to, reason } => text::begins_with(
                result_shown(result),
                "switched "@ + safe_label(*from) + " -> "@ + safe_label(*to),
            ) && text::finishes_with(result_shown(result), sanitized(reason@)),
            AutoSwitchResult::Switched { from: None, to, reason } => text::begins_with(
                result_shown(result),
                "switched to "@ + safe_label(*to),
            ) && text::finishes_with(result_shown(result), sanitized(reason@)),
        },
{
    let s = result_shown(result);
    match result {
        AutoSwitchResult::CurrentKept { account, reason } => {
            let head = "kept "@ + safe_label(*account);
            assert(s.subrange(0, head.len() as int) =~= head);
            let why = sanitized(reason@);
            assert(s.subrange(s.len() - why.len(), s.len() as int) =~= why);
        },
        AutoSwitchResult::CurrentUnsupported { account, reason } => {
            let head = "unsupported "@ + safe_label(*account);
            assert(s.subrange(0, head.len() as int) =~= head);
            let why = sanitized(reason@);
            assert(s.subrange(s.len() - why.len(), s.len() as int) =~= why);
        },
        AutoSwitchResult::Switched { from, to, reason } => {
            let head = match from {
                Some(f) => "switched "@ + safe_label(*f) + " -> "@ + safe_label(*to),
                None => "switched to "@ + safe_label(*to),
            };
            assert(s.subrange(0, head.len() as int) =~= head);
            let why = sanitized(reason@);
            assert(s.subrange(s.len() - why.len(), s.len() as int) =~= why);
        },
    }
}

} // verus!
