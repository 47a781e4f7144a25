//! What the commands decide, and what they say.
use crate::accounts;
use crate::accounts::{AccountsStore, AuthData, StoredAccount, Timestamp};
use crate::auth_json;
use crate::auto_switch::AutoSwitchResult;
use crate::calendar;
use crate::json_output;
use crate::oauth::LoginFlow;
use crate::runtime::login;
use crate::text;
use crate::time;
use crate::usage::UsageInfo;
use crate::usage_view;
use vstd::prelude::*;

verus! {

// ---------------------------------------------------------------------------
// Accounts that come and go
// ---------------------------------------------------------------------------

/// What has to hold of the name of a new login.
#[derive(Debug, Clone, Copy, PartialEq, Eq, Structural)]
pub enum NameCheck {
    /// It is the name of a ChatGPT account, which will be replaced.
    Replaceable,
    /// No account has it.
    Available,
}

/// How a login goes.
pub fn login_plan(replace: bool, device_auth: bool) -> (r: (NameCheck, LoginFlow))
    ensures
        r.0 == if replace {
            NameCheck::Replaceable
        } else {
            NameCheck::Available
        },
        r.1 == if device_auth {
            LoginFlow::DeviceAuth
        } else {
            LoginFlow::Browser
        },
{
    let check = if replace {
        NameCheck::Replaceable
    } else {
        NameCheck::Available
    };
    let flow = if device_auth {
        LoginFlow::DeviceAuth
    } else {
        LoginFlow::Browser
    };
    (check, flow)
}

pub fn login_message(replace: bool, stored: &StoredAccount) -> (r: String)
    ensures
        r@ == (if replace {
            "Replaced login for "@
        } else {
            "Logged in "@
        }) + accounts::label(*stored),
{
    let label = accounts::account_label(stored);
    let action = if replace {
        "Replaced login for "
    } else {
        "Logged in "
    };
    text::cat2(action, label.as_str())
}

pub fn import_message(stored: &StoredAccount, file: &str) -> (r: String)
    ensures
        r@ == "Imported "@ + accounts::label(*stored) + " from "@ + file@,
{
    let label = accounts::account_label(stored);
    text::cat4("Imported ", label.as_str(), " from ", file)
}

pub fn export_message(account: &StoredAccount, file: &str) -> (r: String)
    ensures
        r@ == "Exported "@ + accounts::label(*account) + " to "@ + file@,
{
    let label = accounts::account_label(account);
    text::cat4("Exported ", label.as_str(), " to ", file)
}

pub fn switch_message(active: &StoredAccount) -> (r: String)
    ensures
        r@ == "Switched to "@ + accounts::label(*active),
{
    let label = accounts::account_label(active);
    text::cat2("Switched to ", label.as_str())
}

pub fn delete_message(removed: &StoredAccount) -> (r: String)
    ensures
        r@ == "Deleted "@ + accounts::label(*removed),
{
    let label = accounts::account_label(removed);
    text::cat2("Deleted ", label.as_str())
}

pub fn rename_message(updated: &StoredAccount) -> (r: String)
    ensures
        r@ == "Renamed account to "@ + accounts::label(*updated),
{
    let label = accounts::account_label(updated);
    text::cat2("Renamed account to ", label.as_str())
}

pub open spec fn result_shown(result: AutoSwitchResult) -> Seq<char> {
    match result {
        AutoSwitchResult::CurrentKept { account, reason } => "Current account is usable: "@
            + accounts::label(*account) + " - "@ + reason@,
        AutoSwitchResult::CurrentUnsupported { account, reason } =>
            "Current account was not switched: "@ + accounts::label(*account) + " - "@ + reason@,
        AutoSwitchResult::Switched { from, to, reason } => match from {
            Some(f) => "Switched from "@ + accounts::label(*f) + " to "@ + accounts::label(*to)
                + " - "@ + reason@,
            None => "Switched to "@ + accounts::label(*to) + " - "@ + reason@,
        },
    }
}

pub fn auto_switch_message(result: &AutoSwitchResult) -> (r: String)
    ensures
        r@ == result_shown(*result),
{
    match result {
        AutoSwitchResult::CurrentKept { account, reason } => {
            let label = accounts::account_label(account);
            text::cat4("Current account is usable: ", label.as_str(), " - ", reason.as_str())
        },
        AutoSwitchResult::CurrentUnsupported { account, reason } => {
            let label = accounts::account_label(account);
            text::cat4("Current account was not switched: ", label.as_str(), " - ", reason.as_str())
        },
        AutoSwitchResult::Switched { from, to, reason } => {
            let label = accounts::account_label(to);
            match from {
                Some(f) => {
                    let before = accounts::account_label(f);
                    text::cat6(
                        "Switched from ",
                        before.as_str(),
                        " to ",
                        label.as_str(),
                        " - ",
                        reason.as_str(),
                    )
                },
                None => text::cat4("Switched to ", label.as_str(), " - ", reason.as_str()),
            }
        },
    }
}

/// What the program ends with after Codex: its code, or 1 where a signal ended it.
pub fn exit_code(success: bool, code: Option<i32>) -> (r: i32)
    ensures
        r == if success {
            0
        } else {
            match code {
                Some(c) => c,
                None => 1,
            }
        },
{
    if success {
        0
    } else {
        match code {
            Some(c) => c,
            None => 1,
        }
    }
}

// ---------------------------------------------------------------------------
// Updates
// ---------------------------------------------------------------------------

pub enum UpdateOutcome {
    UpToDate { current_version: String, release_version: String },
    UpdateAvailable { current_version: String, release_version: String },
    CurrentNewer { current_version: String, release_version: String },
    Updated { previous_version: String, installed_version: String, executable_path: String },
}

pub open spec fn outcome_shown(outcome: UpdateOutcome) -> Seq<char> {
    match outcome {
        UpdateOutcome::UpToDate { current_version, release_version } =>
            "codex-switch is up to date (current "@ + current_version@ + ", release "@
            + release_version@ + ")."@,
        UpdateOutcome::UpdateAvailable { current_version, release_version } =>
            "Update available: "@ + current_version@ + " -> "@ + release_version@,
        UpdateOutcome::CurrentNewer { current_version, release_version } =>
            "Current codex-switch version "@ + current_version@ + " is newer than release "@
            + release_version@ + "."@,
        UpdateOutcome::Updated { previous_version, installed_version, executable_path } => if previous_version@
            == installed_version@ {
            "Installed codex-switch "@ + installed_version@ + " at "@ + executable_path@
        } else {
            "Updated codex-switch "@ + previous_version@ + " -> "@ + installed_version@ + " at "@
                + executable_path@
        },
    }
}

pub fn update_message(outcome: &UpdateOutcome) -> (r: String)
    ensures
        r@ == outcome_shown(*outcome),
{
    match outcome {
        UpdateOutcome::UpToDate { current_version, release_version } => text::cat5(
            "codex-switch is up to date (current ",
            current_version.as_str(),
            ", release ",
            release_version.as_str(),
            ").",
        ),
        UpdateOutcome::UpdateAvailable { current_version, release_version } => text::cat4(
            "Update available: ",
            current_version.as_str(),
            " -> ",
            release_version.as_str(),
        ),
        UpdateOutcome::CurrentNewer { current_version, release_version } => text::cat5(
            "Current codex-switch version ",
            current_version.as_str(),
            " is newer than release ",
            release_version.as_str(),
            ".",
        ),
        UpdateOutcome::Updated { previous_version, installed_version, executable_path } => {
            if text::same(previous_version.as_str(), installed_version.as_str()) {
                text::cat4(
                    "Installed codex-switch ",
                    installed_version.as_str(),
                    " at ",
                    executable_path.as_str(),
                )
            } else {
                text::cat6(
                    "Updated codex-switch ",
                    previous_version.as_str(),
                    " -> ",
                    installed_version.as_str(),
                    " at ",
                    executable_path.as_str(),
                )
            }
        },
    }
}

// ---------------------------------------------------------------------------
// Usage
// ---------------------------------------------------------------------------

/// Which account is the current one. Codex's file has to be readable only where
/// the account is not named.
pub fn usage_current_id(
    selector: Option<&str>,
    store: &AccountsStore,
    current_auth: &Result<Option<StoredAccount>, String>,
) -> (r: Result<Option<String>, String>)
    ensures
        match (selector, *current_auth) {
            (None, Err(m)) => r matches Err(e) && e@ == m@,
            _ => r is Ok && text::opt_view(r->Ok_0) == login::id_of(
                auth_json::best_effort(store.accounts@, *current_auth),
            ),
        },
{
    match selector {
        Some(_) => Ok(auth_json::current_stored_account_id_best_effort(store, current_auth)),
        None => auth_json::current_stored_account_id(store, current_auth),
    }
}

/// Where the report of an account stands among some: the last one counts.
pub open spec fn last_report(reports: Seq<UsageInfo>, id: Seq<char>) -> Option<int>
    decreases reports.len(),
{
    if reports.len() == 0 {
        None
    } else if reports.last().account_id@ == id {
        Some(reports.len() - 1)
    } else {
        last_report(reports.drop_last(), id)
    }
}

pub fn find_report(reports: &Vec<UsageInfo>, id: &str) -> (r: Option<usize>)
    ensures
        match r {
            Some(i) => last_report(reports@, id@) == Some(i as int) && i < reports@.len(),
            None => last_report(reports@, id@) is None,
        },
{
    let mut i: usize = reports.len();
    assert(reports@.take(i as int) =~= reports@);
    while i > 0
        invariant
            i <= reports@.len(),
            last_report(reports@, id@) == last_report(reports@.take(i as int), id@),
        decreases i,
    {
        assert(reports@.take(i as int).last() == reports@[i - 1]);
        assert(reports@.take(i as int).drop_last() =~= reports@.take(i - 1));
        if text::same(reports[i - 1].account_id.as_str(), id) {
            return Some(i - 1);
        }
        i = i - 1;
    }
    None
}

// ---------------------------------------------------------------------------
// Resets of rate limits
// ---------------------------------------------------------------------------

pub const RESETS_NEED_CHATGPT: &'static str = "Rate-limit resets are only supported for ChatGPT OAuth accounts";

pub const RESETS_NEED_CONFIRMATION: &'static str = "Refusing to consume a rate-limit reset without confirmation. Re-run with --yes to confirm.";

pub enum ResetStart {
    /// The reset can be asked for.
    Go,
    /// The user has to be asked this.
    Ask(String),
}

/// What comes before a reset. `is_terminal` tells whether the user can be asked.
pub fn reset_start(account: &StoredAccount, yes: bool, is_terminal: bool) -> (r: Result<
    ResetStart,
    String,
>)
    ensures
        if account.auth_data is ApiKey {
            r matches Err(m) && m@ == RESETS_NEED_CHATGPT@
        } else if yes {
            r matches Ok(s) && s is Go
        } else if !is_terminal {
            r matches Err(m) && m@ == RESETS_NEED_CONFIRMATION@
        } else {
            r matches Ok(ResetStart::Ask(q)) && q@ == "Use one rate-limit reset for "@
                + accounts::label(*account) + "? [y/N] "@
        },
{
    match &account.auth_data {
        AuthData::ApiKey { key: _ } => {
            return Err(RESETS_NEED_CHATGPT.to_owned());
        },
        AuthData::ChatGPT { id_token: _, access_token: _, refresh_token: _, account_id: _ } => {},
    }
    if yes {
        return Ok(ResetStart::Go);
    }
    if !is_terminal {
        return Err(RESETS_NEED_CONFIRMATION.to_owned());
    }
    let label = accounts::account_label(account);
    Ok(ResetStart::Ask(text::cat3("Use one rate-limit reset for ", label.as_str(), "? [y/N] ")))
}

/// The answer means yes.
pub open spec fn is_yes(answer: Seq<char>) -> bool {
    let a = text::lowered(text::trimmed(answer));
    a == "y"@ || a == "yes"@
}

pub fn confirmed(answer: &str) -> (r: bool)
    ensures
        r == is_yes(answer@),
{
    let t = text::trim(answer);
    let a = text::to_lower(t.as_str());
    text::same(a.as_str(), "y") || text::same(a.as_str(), "yes")
}

#[derive(Debug, Clone, Copy, PartialEq, Eq, Structural)]
pub enum ConsumeRateLimitResetCreditCode {
    Reset,
    AlreadyRedeemed,
    NothingToReset,
    NoCredit,
}

pub open spec fn reset_shown(code: ConsumeRateLimitResetCreditCode, account: StoredAccount) -> Seq<
    char,
> {
    (match code {
        ConsumeRateLimitResetCreditCode::Reset => "Usage reset for "@,
        ConsumeRateLimitResetCreditCode::AlreadyRedeemed =>
            "Usage reset was already redeemed for "@,
        ConsumeRateLimitResetCreditCode::NothingToReset =>
            "Your usage does not need a reset right now for "@,
        ConsumeRateLimitResetCreditCode::NoCredit => "No rate-limit resets are available for "@,
    }) + accounts::label(account) + "."@
}

/// What is said of a reset, and whether the usage is shown again.
pub fn reset_message(code: ConsumeRateLimitResetCreditCode, account: &StoredAccount) -> (r: (
    String,
    bool,
))
    ensures
        r.0@ == reset_shown(code, *account),
        r.1 == (code == ConsumeRateLimitResetCreditCode::Reset || code
            == ConsumeRateLimitResetCreditCode::AlreadyRedeemed),
{
    let label = accounts::account_label(account);
    let (start, refreshed) = match code {
        ConsumeRateLimitResetCreditCode::Reset => ("Usage reset for ", true),
        ConsumeRateLimitResetCreditCode::AlreadyRedeemed => (
            "Usage reset was already redeemed for ",
            true,
        ),
        ConsumeRateLimitResetCreditCode::NothingToReset => (
            "Your usage does not need a reset right now for ",
            false,
        ),
        ConsumeRateLimitResetCreditCode::NoCredit => (
            "No rate-limit resets are available for ",
            false,
        ),
    };
    (text::cat3(start, label.as_str(), "."), refreshed)
}

// ---------------------------------------------------------------------------
// The list of accounts
// ---------------------------------------------------------------------------

/// The text is that of a moment, in some time zone; none is a day or more away.
pub open spec fn is_local_datetime(s: Seq<char>, seconds: int, nanos: int) -> bool {
    exists|local: int|
        seconds - 86_400 < local < seconds + 86_400 && s == #[trigger] datetime(
            local,
            seconds,
            nanos,
        )
}

/// The date and time that a clock shows at a moment, and how far it is ahead.
pub open spec fn datetime(local: int, seconds: int, nanos: int) -> Seq<char> {
    calendar::date_text(calendar::date_at(local)) + " "@ + calendar::clock_with_seconds(
        local,
        nanos,
    ) + " "@ + calendar::zone_text(local - seconds)
}

/// `chrono::DateTime::from_timestamp` and `with_timezone(&Local)`, with
/// `format("%Y-%m-%d %H:%M:%S %:z")`. Claimed: there is an outcome for the moments
/// of the calendar and for no others, and it is that of the moment, moved by less
/// than a day. Not stated: by how much, which the time zone of the machine decides.
/// A moment within a day of an end of the calendar is left out: in some time zones
/// `chrono` panics on it.
#[verifier::external_body]
fn local_datetime(seconds: i64, nanos: u32) -> (r: Option<String>)
    requires
        usage_view::is_clear(seconds as int),
        calendar::is_subsecond(seconds as int, nanos as int),
    ensures
        r is Some <==> calendar::in_calendar(seconds as int),
        r matches Some(s) ==> is_local_datetime(s@, seconds as int, nanos as int),
{
    let moment = chrono::DateTime::from_timestamp(seconds, nanos)?;
    Some(moment.with_timezone(&chrono::Local).format("%Y-%m-%d %H:%M:%S %:z").to_string())
}

/// A moment on the clock of the machine, or a dash.
pub fn format_datetime_option(value: Option<Timestamp>) -> (r: String)
    requires
        value matches Some(t) ==> calendar::in_calendar(time::seconds_of(t))
            && usage_view::is_clear(time::seconds_of(t)),
    ensures
        match value {
            Some(t) => is_local_datetime(r@, time::seconds_of(t), time::subsecond_of(t)),
            None => r@ == "-"@,
        },
{
    match value {
        Some(t) => {
            let (seconds, nanos) = time::parts(t);
            match local_datetime(seconds, nanos) {
                Some(s) => s,
                None => {
                    assert(false);
                    String::new()
                },
            }
        },
        None => "-".to_owned(),
    }
}

pub open spec fn or_dash(s: Option<String>) -> Seq<char> {
    match s {
        Some(t) => t@,
        None => "-"@,
    }
}

fn text_or_dash(s: &Option<String>) -> (r: &str)
    ensures
        r@ == or_dash(*s),
{
    match s {
        Some(t) => t.as_str(),
        None => "-",
    }
}

/// The cells of a row, each but the last with spaces up to its width.
pub open spec fn row(
    marker: Seq<char>,
    id: Seq<char>,
    name: Seq<char>,
    email: Seq<char>,
    plan: Seq<char>,
    auth: Seq<char>,
    last: Seq<char>,
) -> Seq<char> {
    text::padded(marker, 3) + " "@ + text::padded(id, 8) + " "@ + text::padded(name, 22) + " "@ + (
    text::padded(email, 32) + " "@ + text::padded(plan, 10) + " "@ + text::padded(auth, 10) + " "@)
        + last
}

fn show_row(
    marker: &str,
    id: &str,
    name: &str,
    email: &str,
    plan: &str,
    auth: &str,
    last: &str,
) -> (r: String)
    ensures
        r@ == row(marker@, id@, name@, email@, plan@, auth@, last@),
{
    let a = text::pad(marker, 3);
    let b = text::pad(id, 8);
    let c = text::pad(name, 22);
    let d = text::pad(email, 32);
    let e = text::pad(plan, 10);
    let f = text::pad(auth, 10);
    let first = text::cat6(a.as_str(), " ", b.as_str(), " ", c.as_str(), " ");
    let second = text::cat6(d.as_str(), " ", e.as_str(), " ", f.as_str(), " ");
    text::cat3(first.as_str(), second.as_str(), last)
}

pub open spec fn account_row(a: StoredAccount, is_current: bool, last_used: Seq<char>) -> Seq<char> {
    row(
        if is_current {
            "*"@
        } else {
            ""@
        },
        accounts::short(a.id@),
        a.name@,
        or_dash(a.email),
        or_dash(a.plan_type),
        a.auth_mode.name(),
        last_used,
    )
}

pub open spec fn header_row() -> Seq<char> {
    row(""@, "ID"@, "NAME"@, "EMAIL"@, "PLAN"@, "AUTH"@, "LAST USED"@)
}

/// The rows of the list.
pub open spec fn account_rows(
    accounts: Seq<StoredAccount>,
    current: Option<Seq<char>>,
    last_used: Seq<Seq<char>>,
) -> Seq<Seq<char>>
    decreases accounts.len(),
{
    if accounts.len() == 0 {
        seq![header_row()]
    } else {
        let i = accounts.len() - 1;
        account_rows(accounts.drop_last(), current, last_used).push(
            account_row(
                accounts[i],
                json_output::is_current(accounts[i].id@, current),
                last_used[i],
            ),
        )
    }
}

/// The list of accounts; `last_used` holds for each when it was last used.
pub fn format_accounts(
    store: &AccountsStore,
    current_account_id: Option<&str>,
    last_used: &Vec<String>,
) -> (r: String)
    requires
        last_used@.len() == store.accounts@.len(),
    ensures
        r@ == if store.accounts@.len() == 0 {
            "No accounts stored."@
        } else {
            text::joined(
                account_rows(
                    store.accounts@,
                    accounts::str_view(current_account_id),
                    text::views(last_used@),
                ),
                "\n"@,
            )
        },
{
    if store.accounts.len() == 0 {
        return "No accounts stored.".to_owned();
    }
    let ghost all = store.accounts@;
    let ghost shown = accounts::str_view(current_account_id);
    let ghost used = text::views(last_used@);
    let mut rows: Vec<String> = Vec::new();
    rows.push(show_row("", "ID", "NAME", "EMAIL", "PLAN", "AUTH", "LAST USED"));
    assert(text::views(rows@) =~= seq![header_row()]);
    let mut i: usize = 0;
    while i < store.accounts.len()
        invariant
            i <= all.len(),
            all == store.accounts@,
            shown == accounts::str_view(current_account_id),
            used == text::views(last_used@),
            last_used@.len() == all.len(),
            text::views(rows@) == account_rows(all.take(i as int), shown, used),
        decreases all.len() - i,
    {
        let a = &store.accounts[i];
        assert(all.take(i as int + 1).drop_last() =~= all.take(i as int));
        assert(used[i as int] == last_used@[i as int]@);
        let is_current = json_output::current(a.id.as_str(), current_account_id);
        let marker = if is_current {
            "*"
        } else {
            ""
        };
        let id = accounts::short_id(a.id.as_str());
        let line = show_row(
            marker,
            id.as_str(),
            a.name.as_str(),
            text_or_dash(&a.email),
            text_or_dash(&a.plan_type),
            a.auth_mode.as_str(),
            last_used[i].as_str(),
        );
        let ghost before = text::views(rows@);
        let ghost line_shown = line@;
        rows.push(line);
        assert(text::views(rows@) =~= before.push(line_shown));
        i = i + 1;
    }
    assert(all.take(i as int) =~= all);
    text::join(&rows, "\n")
}

// ---------------------------------------------------------------------------
// Laws
// ---------------------------------------------------------------------------

/// A login that replaces needs an account of the name, any other needs the name to be
/// free; the device flow is taken only where it is asked for.
pub proof fn logins_go_as_asked(replace: bool, device_auth: bool, r: (NameCheck, LoginFlow))
    requires
        call_ensures(login_plan, (replace, device_auth), r),
    ensures
        replace <==> r.0 == NameCheck::Replaceable,
        !replace <==> r.0 == NameCheck::Available,
        device_auth <==> r.1 is DeviceAuth,
        !device_auth <==> r.1 is Browser,
{
}

/// What is said of an account names it.
pub proof fn messages_name_the_account(
    account: &StoredAccount,
    replace: bool,
    file: &str,
    logged_in: String,
    imported: String,
    exported: String,
    switched: String,
    deleted: String,
    renamed: String,
)
    requires
        call_ensures(login_message, (replace, account), logged_in),
        call_ensures(import_message, (account, file), imported),
        call_ensures(export_message, (account, file), exported),
        call_ensures(switch_message, (account,), switched),
        call_ensures(delete_message, (account,), deleted),
        call_ensures(rename_message, (account,), renamed),
    ensures
        text::finishes_with(logged_in@, accounts::label(*account)),
        text::begins_with(logged_in@, "Replaced login for "@) || !replace,
        text::begins_with(logged_in@, "Logged in "@) || replace,
        text::begins_with(imported@, "Imported "@ + accounts::label(*account)),
        text::finishes_with(imported@, " from "@ + file@),
        text::begins_with(exported@, "Exported "@ + accounts::label(*account)),
        text::finishes_with(exported@, " to "@ + file@),
        switched@ == "Switched to "@ + accounts::label(*account),
        deleted@ == "Deleted "@ + accounts::label(*account),
        renamed@ == "Renamed account to "@ + accounts::label(*account),
{
    let l = accounts::label(*account);
    let m = logged_in@;
    assert(m.subrange(m.len() - l.len(), m.len() as int) =~= l);
    if replace {
        let p = "Replaced login for "@;
        assert(m.subrange(0, p.len() as int) =~= p);
    } else {
        let p = "Logged in "@;
        assert(m.subrange(0, p.len() as int) =~= p);
    }
    let i = imported@;
    let p = "Imported "@ + l;
    let q = " from "@ + file@;
    assert(i.subrange(0, p.len() as int) =~= p);
    assert(i.subrange(i.len() - q.len(), i.len() as int) =~= q);
    let x = exported@;
    let p = "Exported "@ + l;
    let q = " to "@ + file@;
    assert(x.subrange(0, p.len() as int) =~= p);
    assert(x.subrange(x.len() - q.len(), x.len() as int) =~= q);
}

/// The outcome of a switch is told with the accounts, from the one to the other, and
/// with the reason at the end.
pub proof fn switches_are_told(result: AutoSwitchResult)
    ensures
        match result {
            AutoSwitchResult::CurrentKept { account, reason } => text::begins_with(
                result_shown(result),
                "Current account is usable: "@ + accounts::label(*account),
            ) && text::finishes_with(result_shown(result), reason@),
            AutoSwitchResult::CurrentUnsupported { account, reason } => text::begins_with(
                result_shown(result),
                "Current account was not switched: "@ + accounts::label(*account),
            ) && text::finishes_with(result_shown(result), reason@),
            AutoSwitchResult::Switched { from: Some(from), to, reason } => text::begins_with(
                result_shown(result),
                "Switched from "@ + accounts::label(*from) + " to "@ + accounts::label(*to),
            ) && text::finishes_with(result_shown(result), reason@),
            AutoSwitchResult::Switched { from: None, to, reason } => text::begins_with(
                result_shown(result),
                "Switched to "@ + accounts::label(*to),
            ) && text::finishes_with(result_shown(result), reason@),
        },
{
    let s = result_shown(result);
    let (head, why) = match result {
        AutoSwitchResult::CurrentKept { account, reason } => (
            "Current account is usable: "@ + accounts::label(*account),
            reason@,
        ),
        AutoSwitchResult::CurrentUnsupported { account, reason } => (
            "Current account was not switched: "@ + accounts::label(*account),
            reason@,
        ),
        AutoSwitchResult::Switched { from, to, reason } => (
            match from {
                Some(f) => "Switched from "@ + accounts::label(*f) + " to "@ + accounts::label(*to),
                None => "Switched to "@ + accounts::label(*to),
            },
            reason@,
        ),
    };
    assert(s.subrange(0, head.len() as int) =~= head);
    assert(s.subrange(s.len() - why.len(), s.len() as int) =~= why);
}

/// The program ends as Codex did: with zero only where Codex ended well or said so.
pub proof fn codes_are_passed_on(success: bool, code: Option<i32>, r: i32)
    requires
        call_ensures(exit_code, (success, code), r),
    ensures
        success ==> r == 0,
        !success && code is Some ==> code == Some(r),
        !success && code is None ==> r != 0,
{
}

/// An update is told from the version that was to the one that is.
pub proof fn updates_are_told(outcome: UpdateOutcome)
    ensures
        match outcome {
            UpdateOutcome::UpToDate { current_version, release_version } => outcome_shown(outcome)
                == "codex-switch is up to date (current "@ + current_version@ + ", release "@
                + release_version@ + ")."@,
            UpdateOutcome::UpdateAvailable { current_version, release_version } => text::finishes_with(
                outcome_shown(outcome),
                current_version@ + " -> "@ + release_version@,
            ),
            UpdateOutcome::CurrentNewer { current_version, release_version } => text::finishes_with(
                outcome_shown(outcome),
                current_version@ + " is newer than release "@ + release_version@ + "."@,
            ),
            UpdateOutcome::Updated { previous_version, installed_version, executable_path } => {
                &&& text::finishes_with(outcome_shown(outcome), " at "@ + executable_path@)
                &&& previous_version@ != installed_version@ ==> text::begins_with(
                    outcome_shown(outcome),
                    "Updated codex-switch "@ + previous_version@ + " -> "@ + installed_version@,
                )
                &&& previous_version@ == installed_version@ ==> text::begins_with(
                    outcome_shown(outcome),
                    "Installed codex-switch "@ + installed_version@,
                )
            },
        },
{
    let s = outcome_shown(outcome);
    match outcome {
        UpdateOutcome::UpToDate { .. } => {},
        UpdateOutcome::UpdateAvailable { current_version, release_version } => {
            let e = current_version@ + " -> "@ + release_version@;
            assert(s.subrange(s.len() - e.len(), s.len() as int) =~= e);
        },
        UpdateOutcome::CurrentNewer { current_version, release_version } => {
            let e = current_version@ + " is newer than release "@ + release_version@ + "."@;
            assert(s.subrange(s.len() - e.len(), s.len() as int) =~= e);
        },
        UpdateOutcome::Updated { previous_version, installed_version, executable_path } => {
            let e = " at "@ + executable_path@;
            assert(s.subrange(s.len() - e.len(), s.len() as int) =~= e);
            let h = if previous_version@ != installed_version@ {
                "Updated codex-switch "@ + previous_version@ + " -> "@ + installed_version@
            } else {
                "Installed codex-switch "@ + installed_version@
            };
            assert(s.subrange(0, h.len() as int) =~= h);
        },
    }
}

/// A login that cannot be read is an error only where no account is named: then the
/// current account is what is asked for.
pub proof fn the_login_is_needed_where_nothing_is_named(
    selector: Option<&str>,
    store: &AccountsStore,
    current_auth: &Result<Option<StoredAccount>, String>,
    r: Result<Option<String>, String>,
)
    requires
        call_ensures(usage_current_id, (selector, store, current_auth), r),
    ensures
        r is Err <==> selector is None && *current_auth is Err,
        r is Err ==> r->Err_0@ == current_auth->Err_0@,
        r is Ok && *current_auth is Err ==> text::opt_view(r->Ok_0) == login::id_of(
            auth_json::best_effort(store.accounts@, *current_auth),
        ),
{
}

/// Of several reports of one account the last counts.
pub proof fn the_last_report_counts(reports: Seq<UsageInfo>, id: Seq<char>)
    ensures
        match last_report(reports, id) {
            Some(i) => 0 <= i < reports.len() && reports[i].account_id@ == id && (forall|j: int|
                i < j < reports.len() ==> (#[trigger] reports[j]).account_id@ != id),
            None => forall|j: int|
                0 <= j < reports.len() ==> (#[trigger] reports[j]).account_id@ != id,
        },
    decreases reports.len(),
{
    if reports.len() > 0 && reports.last().account_id@ != id {
        let front = reports.drop_last();
        the_last_report_counts(front, id);
        assert forall|j: int| 0 <= j < front.len() implies front[j] == reports[j] by {}
        match last_report(front, id) {
            Some(i) => {
                assert forall|j: int| i < j < reports.len() implies (
                #[trigger] reports[j]).account_id@ != id by {
                    if j < front.len() {
                        assert(front[j].account_id@ != id);
                    }
                }
            },
            None => {
                assert forall|j: int| 0 <= j < reports.len() implies (
                #[trigger] reports[j]).account_id@ != id by {
                    if j < front.len() {
                        assert(front[j].account_id@ != id);
                    }
                }
            },
        }
    }
}

/// A reset is used only for a ChatGPT account, and only where it is confirmed: on the
/// command line, or by an answer at a terminal.
pub proof fn resets_are_confirmed(
    account: &StoredAccount,
    yes: bool,
    is_terminal: bool,
    r: Result<ResetStart, String>,
)
    requires
        call_ensures(reset_start, (account, yes, is_terminal), r),
    ensures
        account.auth_data is ApiKey ==> r is Err,
        !(account.auth_data is ApiKey) && !yes && !is_terminal ==> r is Err,
        r is Ok && r->Ok_0 is Go <==> !(account.auth_data is ApiKey) && yes,
        r is Ok && r->Ok_0 is Ask <==> !(account.auth_data is ApiKey) && !yes && is_terminal,
        r is Ok && r->Ok_0 is Ask ==> text::finishes_with(
            r->Ok_0->Ask_0@,
            accounts::label(*account) + "? [y/N] "@,
        ),
{
    if r is Ok && r->Ok_0 is Ask {
        let q = r->Ok_0->Ask_0@;
        let e = accounts::label(*account) + "? [y/N] "@;
        assert(q.subrange(q.len() - e.len(), q.len() as int) =~= e);
    }
}

/// Only `y` and `yes` confirm, in whatever case and with whatever space around them;
/// an empty answer does not.
pub proof fn only_yes_confirms(answer: Seq<char>)
    ensures
        is_yes(answer) <==> text::lowered(text::trimmed(answer)) == seq!['y'] || text::lowered(
            text::trimmed(answer),
        ) == seq!['y', 'e', 's'],
        is_yes(answer) ==> text::trimmed(answer)[0] == 'y' || text::trimmed(answer)[0] == 'Y',
        text::trimmed(answer).len() == 0 ==> !is_yes(answer),
{
    reveal_strlit("y");
    reveal_strlit("yes");
    assert("y"@ =~= seq!['y']);
    assert("yes"@ =~= seq!['y', 'e', 's']);
    let t = text::trimmed(answer);
    assert(text::lowered(t).len() == t.len());
    if is_yes(answer) {
        assert(text::lowered(t)[0] == text::lower_char(t[0]));
        let c = t[0];
        assert('A' <= c <= 'Z' ==> c as u8 == c as u32);
    }
}

/// What became of a reset is told with the account, and the usage is shown again only
/// where it may have changed.
pub proof fn resets_are_told(
    code: ConsumeRateLimitResetCreditCode,
    account: &StoredAccount,
    r: (String, bool),
)
    requires
        call_ensures(reset_message, (code, account), r),
    ensures
        text::finishes_with(r.0@, accounts::label(*account) + "."@),
        code == ConsumeRateLimitResetCreditCode::Reset ==> r.1 && text::begins_with(
            r.0@,
            "Usage reset for "@,
        ),
        code == ConsumeRateLimitResetCreditCode::AlreadyRedeemed ==> r.1 && text::begins_with(
            r.0@,
            "Usage reset was already redeemed for "@,
        ),
        code == ConsumeRateLimitResetCreditCode::NothingToReset ==> !r.1 && text::begins_with(
            r.0@,
            "Your usage does not need a reset right now for "@,
        ),
        code == ConsumeRateLimitResetCreditCode::NoCredit ==> !r.1 && text::begins_with(
            r.0@,
            "No rate-limit resets are available for "@,
        ),
{
    let m = r.0@;
    let e = accounts::label(*account) + "."@;
    assert(m.subrange(m.len() - e.len(), m.len() as int) =~= e);
    let h = match code {
        ConsumeRateLimitResetCreditCode::Reset => "Usage reset for "@,
        ConsumeRateLimitResetCreditCode::AlreadyRedeemed =>
            "Usage reset was already redeemed for "@,
        ConsumeRateLimitResetCreditCode::NothingToReset =>
            "Your usage does not need a reset right now for "@,
        ConsumeRateLimitResetCreditCode::NoCredit => "No rate-limit resets are available for "@,
    };
    assert(m.subrange(0, h.len() as int) =~= h);
}

/// Where the parts of a row are not too long they stand in columns, one below the
/// other in all rows.
pub proof fn rows_have_columns(
    marker: Seq<char>,
    id: Seq<char>,
    name: Seq<char>,
    email: Seq<char>,
    plan: Seq<char>,
    auth: Seq<char>,
    last: Seq<char>,
)
    requires
        marker.len() <= 3,
        id.len() <= 8,
        name.len() <= 22,
        email.len() <= 32,
        plan.len() <= 10,
        auth.len() <= 10,
    ensures
        ({
            let r = row(marker, id, name, email, plan, auth, last);
            &&& r.subrange(0, marker.len() as int) == marker
            &&& r.subrange(4, 4 + id.len() as int) == id
            &&& r.subrange(13, 13 + name.len() as int) == name
            &&& r.subrange(36, 36 + email.len() as int) == email
            &&& r.subrange(69, 69 + plan.len() as int) == plan
            &&& r.subrange(80, 80 + auth.len() as int) == auth
            &&& r.skip(91) == last
        }),
{
    reveal_strlit(" ");
    let r = row(marker, id, name, email, plan, auth, last);
    let m = text::padded(marker, 3);
    let i = text::padded(id, 8);
    let n = text::padded(name, 22);
    let e = text::padded(email, 32);
    let p = text::padded(plan, 10);
    let a = text::padded(auth, 10);
    text::padding_fills_up(marker, 3);
    text::padding_fills_up(id, 8);
    text::padding_fills_up(name, 22);
    text::padding_fills_up(email, 32);
    text::padding_fills_up(plan, 10);
    text::padding_fills_up(auth, 10);
    assert(" "@.len() == 1);
    assert(r.subrange(0, 3) =~= m);
    assert(r.subrange(4, 12) =~= i);
    assert(r.subrange(13, 35) =~= n);
    assert(r.subrange(36, 68) =~= e);
    assert(r.subrange(69, 79) =~= p);
    assert(r.subrange(80, 90) =~= a);
    assert(r.skip(91) =~= last);
    assert(r.subrange(0, marker.len() as int) =~= m.subrange(0, marker.len() as int));
    assert(r.subrange(4, 4 + id.len() as int) =~= i.subrange(0, id.len() as int));
    assert(r.subrange(13, 13 + name.len() as int) =~= n.subrange(0, name.len() as int));
    assert(r.subrange(36, 36 + email.len() as int) =~= e.subrange(0, email.len() as int));
    assert(r.subrange(69, 69 + plan.len() as int) =~= p.subrange(0, plan.len() as int));
    assert(r.subrange(80, 80 + auth.len() as int) =~= a.subrange(0, auth.len() as int));
}

/// The list has a header and one row for each account, in their order, with a star at
/// the current one alone.
pub proof fn every_account_is_listed(
    accounts: Seq<StoredAccount>,
    current: Option<Seq<char>>,
    last_used: Seq<Seq<char>>,
    i: int,
)
    requires
        0 <= i < accounts.len(),
    ensures
        account_rows(accounts, current, last_used).len() == accounts.len() + 1,
        account_rows(accounts, current, last_used)[0] == header_row(),
        account_rows(accounts, current, last_used)[i + 1] == account_row(
            accounts[i],
            current == Some(accounts[i].id@),
            last_used[i],
        ),
        current == Some(accounts[i].id@) ==> account_rows(accounts, current, last_used)[i + 1][0]
            == '*',
        current != Some(accounts[i].id@) ==> account_rows(accounts, current, last_used)[i + 1][0]
            == ' ',
    decreases accounts.len(),
{
    let front = accounts.drop_last();
    let n = front.len() as int;
    let rows = account_rows(accounts, current, last_used);
    if front.len() > 0 {
        if i < n {
            every_account_is_listed(front, current, last_used, i);
            assert(front[i] == accounts[i]);
        } else {
            every_account_is_listed(front, current, last_used, 0);
        }
    } else {
        assert(account_rows(front, current, last_used) =~= seq![header_row()]);
    }
    reveal_strlit("*");
    reveal_strlit("");
    reveal_strlit(" ");
    text::padding_fills_up("*"@, 3);
    text::padding_fills_up(""@, 3);
    assert(text::padded("*"@, 3)[0] == '*') by {
        assert(text::padded("*"@, 3).subrange(0, 1)[0] == "*"@[0]);
    }
    assert(text::padded(""@, 3)[0] == ' ');
    let marker = if current == Some(accounts[i].id@) {
        "*"@
    } else {
        ""@
    };
    assert(rows[i + 1][0] == text::padded(marker, 3)[0]);
}

/// The header names the columns.
pub proof fn the_header_names_the_columns()
    ensures
        header_row().subrange(4, 6) == "ID"@,
        header_row().subrange(13, 17) == "NAME"@,
        header_row().subrange(36, 41) == "EMAIL"@,
        header_row().subrange(69, 73) == "PLAN"@,
        header_row().subrange(80, 84) == "AUTH"@,
        header_row().skip(91) == "LAST USED"@,
{
    reveal_strlit("");
    reveal_strlit("ID");
    reveal_strlit("NAME");
    reveal_strlit("EMAIL");
    reveal_strlit("PLAN");
    reveal_strlit("AUTH");
    rows_have_columns(""@, "ID"@, "NAME"@, "EMAIL"@, "PLAN"@, "AUTH"@, "LAST USED"@);
}

} // verus!
