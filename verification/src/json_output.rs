//! What the commands report in JSON.
use crate::accounts;
use crate::accounts::{AccountsStore, StoredAccount, Timestamp};
use crate::assessment;
use crate::doctor;
use crate::doctor::{DoctorCheck, DoctorReport};
use crate::forecast::{ForecastRate, UsageForecast, UsageForecastOutcome, UsageForecastRates};
use crate::json;
use crate::json::{Json, JsonModel};
use crate::quantity;
use crate::text;
use crate::time;
use crate::usage;
use crate::usage::{UsageInfo, UsageLimitInfo, UsageWindowData, UsageWindowKind, UsedPercent};
use vstd::prelude::*;

verus! {

pub const SCHEMA_VERSION: i64 = 1;

// ---------------------------------------------------------------------------
// Accounts
// ---------------------------------------------------------------------------

pub open spec fn moment_model(t: Option<Timestamp>) -> JsonModel {
    match t {
        Some(x) => json::integer(time::seconds_of(x)),
        None => JsonModel::Null,
    }
}

fn moment_json(t: Option<Timestamp>) -> (r: Json)
    ensures
        r@ == moment_model(t),
{
    match t {
        Some(x) => json::integer_value(time::whole_seconds(x)),
        None => Json::Null,
    }
}

pub open spec fn is_current(id: Seq<char>, current: Option<Seq<char>>) -> bool {
    current == Some(id)
}

pub fn current(id: &str, current_account_id: Option<&str>) -> (r: bool)
    ensures
        r == is_current(id@, accounts::str_view(current_account_id)),
{
    match current_account_id {
        Some(c) => text::same(c, id),
        None => false,
    }
}

/// What is told of an account. Nothing of what it logs in with is in it.
pub open spec fn account_model(a: StoredAccount, current: Option<Seq<char>>) -> JsonModel {
    JsonModel::Object(
        seq![
            ("id"@, JsonModel::Text(a.id@)),
            ("short_id"@, JsonModel::Text(accounts::short(a.id@))),
            ("name"@, JsonModel::Text(a.name@)),
            ("email"@, json::optional_text(text::opt_view(a.email))),
            ("plan_type"@, json::optional_text(text::opt_view(a.plan_type))),
            ("auth_mode"@, JsonModel::Text(a.auth_mode.name())),
            ("auto_switch_disabled"@, JsonModel::Bool(a.auto_switch_disabled)),
            ("current"@, JsonModel::Bool(is_current(a.id@, current))),
            ("chatgpt_account_is_fedramp"@, JsonModel::Bool(a.chatgpt_account_is_fedramp)),
            ("created_at"@, json::integer(time::seconds_of(a.created_at))),
            ("last_used_at"@, moment_model(a.last_used_at)),
            ("token_last_refresh_at"@, moment_model(a.token_last_refresh_at)),
            ("subscription_expires_at"@, moment_model(a.subscription_expires_at)),
        ],
    )
}

pub fn account_json(account: &StoredAccount, current_account_id: Option<&str>) -> (r: Json)
    ensures
        r@ == account_model(*account, accounts::str_view(current_account_id)),
{
    let mut e: Vec<(String, Json)> = Vec::new();
    json::add_entry(&mut e, "id", json::text_value(account.id.as_str()));
    let short = accounts::short_id(account.id.as_str());
    json::add_entry(&mut e, "short_id", json::text_value(short.as_str()));
    json::add_entry(&mut e, "name", json::text_value(account.name.as_str()));
    json::add_entry(&mut e, "email", json::optional_text_value(&account.email));
    json::add_entry(&mut e, "plan_type", json::optional_text_value(&account.plan_type));
    json::add_entry(&mut e, "auth_mode", json::text_value(account.auth_mode.as_str()));
    json::add_entry(&mut e, "auto_switch_disabled", Json::Bool(account.auto_switch_disabled));
    let now_current = current(account.id.as_str(), current_account_id);
    json::add_entry(&mut e, "current", Json::Bool(now_current));
    json::add_entry(
        &mut e,
        "chatgpt_account_is_fedramp",
        Json::Bool(account.chatgpt_account_is_fedramp),
    );
    json::add_entry(
        &mut e,
        "created_at",
        json::integer_value(time::whole_seconds(account.created_at)),
    );
    json::add_entry(&mut e, "last_used_at", moment_json(account.last_used_at));
    json::add_entry(&mut e, "token_last_refresh_at", moment_json(account.token_last_refresh_at));
    json::add_entry(
        &mut e,
        "subscription_expires_at",
        moment_json(account.subscription_expires_at),
    );
    assert(json::entries_view(e@) =~= account_model(
        *account,
        accounts::str_view(current_account_id),
    )->Object_0);
    json::object(e)
}

pub open spec fn account_models(accounts: Seq<StoredAccount>, current: Option<Seq<char>>) -> Seq<
    JsonModel,
> {
    accounts.map_values(|a: StoredAccount| account_model(a, current))
}

pub open spec fn list_model(accounts: Seq<StoredAccount>, current: Option<Seq<char>>) -> JsonModel {
    JsonModel::Object(
        seq![
            ("schema_version"@, json::integer(SCHEMA_VERSION as int)),
            ("command"@, JsonModel::Text("list"@)),
            ("accounts"@, JsonModel::List(account_models(accounts, current))),
        ],
    )
}

pub fn list_report(store: &AccountsStore, current_account_id: Option<&str>) -> (r: Json)
    ensures
        r@ == list_model(store.accounts@, accounts::str_view(current_account_id)),
{
    let ghost shown = accounts::str_view(current_account_id);
    let mut items: Vec<Json> = Vec::new();
    let mut i: usize = 0;
    while i < store.accounts.len()
        invariant
            i <= store.accounts@.len(),
            shown == accounts::str_view(current_account_id),
            json::list_view(items@) == account_models(store.accounts@, shown).take(i as int),
        decreases store.accounts@.len() - i,
    {
        let item = account_json(&store.accounts[i], current_account_id);
        let ghost before = items@;
        let ghost m = item@;
        items.push(item);
        i = i + 1;
        assert(json::list_view(items@) =~= json::list_view(before).push(m));
        assert(json::list_view(items@) =~= account_models(store.accounts@, shown).take(i as int));
    }
    assert(json::list_view(items@) =~= account_models(store.accounts@, shown));
    json::object3(
        "schema_version",
        json::integer_value(SCHEMA_VERSION),
        "command",
        json::text_value("list"),
        "accounts",
        json::list(items),
    )
}

/// Two accounts that differ only in what they log in with.
pub open spec fn same_but_for_secrets(a: StoredAccount, b: StoredAccount) -> bool {
    &&& a.id@ == b.id@
    &&& a.name@ == b.name@
    &&& text::opt_view(a.email) == text::opt_view(b.email)
    &&& text::opt_view(a.plan_type) == text::opt_view(b.plan_type)
    &&& a.auth_mode == b.auth_mode
    &&& a.auto_switch_disabled == b.auto_switch_disabled
    &&& a.chatgpt_account_is_fedramp == b.chatgpt_account_is_fedramp
    &&& a.created_at == b.created_at
    &&& a.last_used_at == b.last_used_at
    &&& a.token_last_refresh_at == b.token_last_refresh_at
    &&& a.subscription_expires_at == b.subscription_expires_at
}

/// No report tells anything of keys and tokens: accounts that differ in those
/// alone are reported alike.
pub proof fn reports_keep_secrets(
    a: Seq<StoredAccount>,
    b: Seq<StoredAccount>,
    current: Option<Seq<char>>,
)
    requires
        a.len() == b.len(),
        forall|i: int| 0 <= i < a.len() ==> same_but_for_secrets(#[trigger] a[i], b[i]),
    ensures
        list_model(a, current) == list_model(b, current),
        forall|i: int|
            0 <= i < a.len() ==> account_model(#[trigger] a[i], current) == account_model(
                b[i],
                current,
            ),
{
    assert forall|i: int| 0 <= i < a.len() implies account_model(#[trigger] a[i], current)
        == account_model(b[i], current) by {
        assert(same_but_for_secrets(a[i], b[i]));
    }
    assert(account_models(a, current) =~= account_models(b, current));
}

// ---------------------------------------------------------------------------
// Diagnoses
// ---------------------------------------------------------------------------

pub open spec fn text_models(texts: Seq<Seq<char>>) -> Seq<JsonModel> {
    texts.map_values(|t: Seq<char>| JsonModel::Text(t))
}

fn texts_json(texts: &Vec<String>) -> (r: Json)
    ensures
        r@ == JsonModel::List(text_models(text::views(texts@))),
{
    let ghost all = text_models(text::views(texts@));
    let mut items: Vec<Json> = Vec::new();
    let mut i: usize = 0;
    while i < texts.len()
        invariant
            i <= texts@.len(),
            all == text_models(text::views(texts@)),
            json::list_view(items@) == all.take(i as int),
        decreases texts@.len() - i,
    {
        let item = json::text_value(texts[i].as_str());
        let ghost before = items@;
        let ghost m = item@;
        items.push(item);
        i = i + 1;
        assert(json::list_view(items@) =~= json::list_view(before).push(m));
        assert(json::list_view(items@) =~= all.take(i as int));
    }
    assert(json::list_view(items@) =~= all);
    json::list(items)
}

pub open spec fn check_model(c: doctor::CheckView) -> JsonModel {
    JsonModel::Object(
        seq![
            ("severity"@, JsonModel::Text(c.severity.name())),
            ("category"@, JsonModel::Text(c.category)),
            ("message"@, JsonModel::Text(c.message)),
            ("hints"@, JsonModel::List(text_models(c.hints))),
        ],
    )
}

pub fn doctor_check_json(check: &DoctorCheck) -> (r: Json)
    ensures
        r@ == check_model(check@),
{
    json::object4(
        "severity",
        json::text_value(check.severity.as_str()),
        "category",
        json::text_value(check.category),
        "message",
        json::text_value(check.message.as_str()),
        "hints",
        texts_json(&check.hints),
    )
}

pub open spec fn check_models(checks: Seq<doctor::CheckView>) -> Seq<JsonModel> {
    checks.map_values(|c: doctor::CheckView| check_model(c))
}

pub open spec fn doctor_model(checks: Seq<doctor::CheckView>) -> JsonModel {
    JsonModel::Object(
        seq![
            ("schema_version"@, json::integer(SCHEMA_VERSION as int)),
            ("command"@, JsonModel::Text("doctor"@)),
            ("has_errors"@, JsonModel::Bool(doctor::has_error(checks))),
            ("checks"@, JsonModel::List(check_models(checks))),
        ],
    )
}

pub fn doctor_report(report: &DoctorReport) -> (r: Json)
    ensures
        r@ == doctor_model(report@),
{
    let ghost all = check_models(report@);
    let mut items: Vec<Json> = Vec::new();
    let mut i: usize = 0;
    while i < report.checks.len()
        invariant
            i <= report.checks@.len(),
            all == check_models(report@),
            json::list_view(items@) == all.take(i as int),
        decreases report.checks@.len() - i,
    {
        let item = doctor_check_json(&report.checks[i]);
        let ghost before = items@;
        let ghost m = item@;
        items.push(item);
        assert(report@[i as int] == report.checks@[i as int]@);
        i = i + 1;
        assert(json::list_view(items@) =~= json::list_view(before).push(m));
        assert(json::list_view(items@) =~= all.take(i as int));
    }
    assert(json::list_view(items@) =~= all);
    json::object4(
        "schema_version",
        json::integer_value(SCHEMA_VERSION),
        "command",
        json::text_value("doctor"),
        "has_errors",
        Json::Bool(report.has_errors()),
        "checks",
        json::list(items),
    )
}

// ---------------------------------------------------------------------------
// Usage
// ---------------------------------------------------------------------------

pub open spec fn usage_status_of(info: UsageInfo) -> Seq<char> {
    if info.is_unsupported() {
        "unsupported"@
    } else if info.error is Some {
        "error"@
    } else if assessment::unavailable_reason(info) is Some {
        "unavailable"@
    } else {
        "ok"@
    }
}

pub fn usage_status(info: &UsageInfo) -> (r: &'static str)
    ensures
        r@ == usage_status_of(*info),
{
    if info.unsupported() {
        return "unsupported";
    }
    if info.error.is_some() {
        return "error";
    }
    if assessment::usage_unavailable_reason(info).is_some() {
        return "unavailable";
    }
    "ok"
}

/// A percentage, where it is a number that JSON can hold.
pub open spec fn used_model(used: Option<UsedPercent>) -> JsonModel {
    match used {
        Some(u) => if quantity::is_finite(u.bits) {
            JsonModel::Number(u.number@)
        } else {
            JsonModel::Null
        },
        None => JsonModel::Null,
    }
}

pub open spec fn left_model(used: Option<UsedPercent>) -> JsonModel {
    match used {
        Some(u) => if quantity::is_finite(u.bits) {
            JsonModel::Number(u.left_number@)
        } else {
            JsonModel::Null
        },
        None => JsonModel::Null,
    }
}

pub open spec fn window_parts_model(
    used: Option<UsedPercent>,
    window_minutes: Option<i64>,
    resets_at: Option<i64>,
) -> JsonModel {
    JsonModel::Object(
        seq![
            ("used_percent"@, used_model(used)),
            ("left_percent"@, left_model(used)),
            ("window_minutes"@, json::optional_integer(window_minutes)),
            ("resets_at"@, json::optional_integer(resets_at)),
        ],
    )
}

pub fn usage_window_json(
    used_percent: &Option<UsedPercent>,
    window_minutes: Option<i64>,
    resets_at: Option<i64>,
) -> (r: Json)
    ensures
        r@ == window_parts_model(*used_percent, window_minutes, resets_at),
{
    let (used, left) = match used_percent {
        Some(u) => if quantity::finite(u.bits) {
            (Json::Number(u.number.clone()), Json::Number(u.left_number.clone()))
        } else {
            (Json::Null, Json::Null)
        },
        None => (Json::Null, Json::Null),
    };
    json::object4(
        "used_percent",
        used,
        "left_percent",
        left,
        "window_minutes",
        json::optional_integer_value(window_minutes),
        "resets_at",
        json::optional_integer_value(resets_at),
    )
}

pub open spec fn window_model(w: Option<UsageWindowData>) -> JsonModel {
    match w {
        Some(x) => window_parts_model(x.used_percent, x.window_minutes, x.resets_at),
        None => window_parts_model(None, None, None),
    }
}

fn usage_window_data_json(window: Option<&UsageWindowData>) -> (r: Json)
    ensures
        forall|w: Option<UsageWindowData>| #[trigger] usage::is_window(window, w) ==> r@
            == window_model(w),
{
    match window {
        Some(w) => usage_window_json(&w.used_percent, w.window_minutes, w.resets_at),
        None => usage_window_json(&None, None, None),
    }
}

pub open spec fn five_hour_of(primary: UsageWindowData, secondary: UsageWindowData) -> JsonModel {
    window_model(usage::window_of(primary, secondary, UsageWindowKind::FiveHour))
}

pub open spec fn weekly_of(primary: UsageWindowData, secondary: UsageWindowData) -> JsonModel {
    window_model(usage::window_of(primary, secondary, UsageWindowKind::Weekly))
}

fn five_hour_json(primary: &UsageWindowData, secondary: &UsageWindowData) -> (r: Json)
    ensures
        r@ == five_hour_of(*primary, *secondary),
{
    usage_window_data_json(usage::find_window(primary, secondary, UsageWindowKind::FiveHour))
}

fn weekly_json(primary: &UsageWindowData, secondary: &UsageWindowData) -> (r: Json)
    ensures
        r@ == weekly_of(*primary, *secondary),
{
    usage_window_data_json(usage::find_window(primary, secondary, UsageWindowKind::Weekly))
}

pub open spec fn balance_of(info: UsageInfo) -> Option<Seq<char>> {
    match info.credits_balance {
        Some(b) => Some(b.text@),
        None => None,
    }
}

pub open spec fn credits_model(info: UsageInfo) -> Option<JsonModel> {
    if info.has_credits is None && info.unlimited_credits is None && info.credits_balance is None {
        None
    } else {
        Some(
            JsonModel::Object(
                seq![
                    ("has_credits"@, json::optional_bool(info.has_credits)),
                    ("unlimited"@, json::optional_bool(info.unlimited_credits)),
                    ("balance"@, json::optional_text(balance_of(info))),
                ],
            ),
        )
    }
}

pub fn credits_json(info: &UsageInfo) -> (r: Option<Json>)
    ensures
        json::option_view(r) == credits_model(*info),
{
    if info.has_credits.is_none() && info.unlimited_credits.is_none()
        && info.credits_balance.is_none() {
        return None;
    }
    let balance = match &info.credits_balance {
        Some(b) => json::text_value(b.text.as_str()),
        None => Json::Null,
    };
    Some(
        json::object3(
            "has_credits",
            json::optional_bool_value(info.has_credits),
            "unlimited",
            json::optional_bool_value(info.unlimited_credits),
            "balance",
            balance,
        ),
    )
}

pub open spec fn limit_model(l: UsageLimitInfo) -> JsonModel {
    JsonModel::Object(
        seq![
            ("limit_id"@, json::optional_text(text::opt_view(l.limit_id))),
            ("limit_name"@, json::optional_text(text::opt_view(l.limit_name))),
            ("five_hour"@, five_hour_of(l.primary, l.secondary)),
            ("weekly"@, weekly_of(l.primary, l.secondary)),
        ],
    )
}

pub fn additional_limit_json(limit: &UsageLimitInfo) -> (r: Json)
    ensures
        r@ == limit_model(*limit),
{
    json::object4(
        "limit_id",
        json::optional_text_value(&limit.limit_id),
        "limit_name",
        json::optional_text_value(&limit.limit_name),
        "five_hour",
        five_hour_json(&limit.primary, &limit.secondary),
        "weekly",
        weekly_json(&limit.primary, &limit.secondary),
    )
}

pub open spec fn limit_models(limits: Seq<UsageLimitInfo>) -> Seq<JsonModel> {
    limits.map_values(|l: UsageLimitInfo| limit_model(l))
}

/// The further limits, where they are asked for and there are any.
pub open spec fn limits_model(info: UsageInfo, show_additional: bool) -> Option<JsonModel> {
    if show_additional && info.additional_limits@.len() > 0 {
        Some(JsonModel::List(limit_models(info.additional_limits@)))
    } else {
        None
    }
}

fn limits_json(info: &UsageInfo, show_additional: bool) -> (r: Option<Json>)
    ensures
        json::option_view(r) == limits_model(*info, show_additional),
{
    if !show_additional || info.additional_limits.len() == 0 {
        return None;
    }
    let ghost all = limit_models(info.additional_limits@);
    let mut items: Vec<Json> = Vec::new();
    let mut i: usize = 0;
    while i < info.additional_limits.len()
        invariant
            i <= info.additional_limits@.len(),
            all == limit_models(info.additional_limits@),
            json::list_view(items@) == all.take(i as int),
        decreases info.additional_limits@.len() - i,
    {
        let item = additional_limit_json(&info.additional_limits[i]);
        let ghost before = items@;
        let ghost m = item@;
        items.push(item);
        i = i + 1;
        assert(json::list_view(items@) =~= json::list_view(before).push(m));
        assert(json::list_view(items@) =~= all.take(i as int));
    }
    assert(json::list_view(items@) =~= all);
    Some(json::list(items))
}

pub open spec fn not_negative(n: i64) -> int {
    if n < 0 {
        0
    } else {
        n as int
    }
}

pub open spec fn resets_model(info: UsageInfo) -> Option<JsonModel> {
    match info.rate_limit_reset_credits_available {
        Some(n) => Some(json::integer(not_negative(n))),
        None => None,
    }
}

pub open spec fn usage_model(info: UsageInfo, show_additional: bool) -> JsonModel {
    JsonModel::Object(
        seq![
            ("status"@, JsonModel::Text(usage_status_of(info))),
            ("supported"@, JsonModel::Bool(!info.is_unsupported())),
            ("plan_type"@, json::optional_text(text::opt_view(info.plan_type))),
            ("limit_id"@, json::optional_text(text::opt_view(info.limit_id))),
            ("limit_name"@, json::optional_text(text::opt_view(info.limit_name))),
        ] + json::entry_if("error"@, json::text_option(text::opt_view(info.error)))
            + json::entry_if(
            "unavailable_reason"@,
            json::text_option(assessment::unavailable_reason(info)),
        ) + json::entry_if(
            "rate_limit_reached_type"@,
            json::text_option(text::opt_view(info.rate_limit_reached_type)),
        ) + seq![
            ("five_hour"@, five_hour_of(info.primary, info.secondary)),
            ("weekly"@, weekly_of(info.primary, info.secondary)),
        ] + json::entry_if("credits"@, credits_model(info)) + json::entry_if(
            "rate_limit_reset_credits_available"@,
            resets_model(info),
        ) + json::entry_if("additional_limits"@, limits_model(info, show_additional)),
    )
}

pub fn usage_info_json(info: &UsageInfo, show_additional: bool) -> (r: Json)
    ensures
        r@ == usage_model(*info, show_additional),
{
    let mut e: Vec<(String, Json)> = Vec::new();
    json::add_entry(&mut e, "status", json::text_value(usage_status(info)));
    json::add_entry(&mut e, "supported", Json::Bool(!info.unsupported()));
    json::add_entry(&mut e, "plan_type", json::optional_text_value(&info.plan_type));
    json::add_entry(&mut e, "limit_id", json::optional_text_value(&info.limit_id));
    json::add_entry(&mut e, "limit_name", json::optional_text_value(&info.limit_name));
    assert(json::entries_view(e@) =~= seq![
        ("status"@, JsonModel::Text(usage_status_of(*info))),
        ("supported"@, JsonModel::Bool(!info.is_unsupported())),
        ("plan_type"@, json::optional_text(text::opt_view(info.plan_type))),
        ("limit_id"@, json::optional_text(text::opt_view(info.limit_id))),
        ("limit_name"@, json::optional_text(text::opt_view(info.limit_name))),
    ]);
    json::add_if(&mut e, "error", json::text_if(&info.error));
    let reason = assessment::usage_unavailable_reason(info);
    json::add_if(&mut e, "unavailable_reason", json::text_if(&reason));
    json::add_if(&mut e, "rate_limit_reached_type", json::text_if(&info.rate_limit_reached_type));
    let ghost before = json::entries_view(e@);
    json::add_entry(&mut e, "five_hour", five_hour_json(&info.primary, &info.secondary));
    json::add_entry(&mut e, "weekly", weekly_json(&info.primary, &info.secondary));
    assert(json::entries_view(e@) =~= before + seq![
        ("five_hour"@, five_hour_of(info.primary, info.secondary)),
        ("weekly"@, weekly_of(info.primary, info.secondary)),
    ]);
    json::add_if(&mut e, "credits", credits_json(info));
    let resets = match info.rate_limit_reset_credits_available {
        Some(n) => Some(
            json::integer_value(
                if n < 0 {
                    0
                } else {
                    n
                },
            ),
        ),
        None => None,
    };
    json::add_if(&mut e, "rate_limit_reset_credits_available", resets);
    json::add_if(&mut e, "additional_limits", limits_json(info, show_additional));
    json::object(e)
}

// ---------------------------------------------------------------------------
// Forecasts
// ---------------------------------------------------------------------------

pub open spec fn rate_model(r: Option<ForecastRate>) -> JsonModel {
    match r {
        Some(x) => if quantity::is_finite(x.bits) {
            JsonModel::Number(x.number@)
        } else {
            JsonModel::Null
        },
        None => JsonModel::Null,
    }
}

fn rate_json(r: &Option<ForecastRate>) -> (j: Json)
    ensures
        j@ == rate_model(*r),
{
    match r {
        Some(x) => if quantity::finite(x.bits) {
            Json::Number(x.number.clone())
        } else {
            Json::Null
        },
        None => Json::Null,
    }
}

pub open spec fn rates_model(r: Option<UsageForecastRates>) -> Option<JsonModel> {
    match r {
        Some(x) => Some(
            JsonModel::Object(
                seq![
                    ("five_hour_percent_per_hour"@, rate_model(x.five_hour_percent_per_hour)),
                    ("weekly_percent_per_hour"@, rate_model(x.weekly_percent_per_hour)),
                ],
            ),
        ),
        None => None,
    }
}

pub fn forecast_rates_json(rates: &Option<UsageForecastRates>) -> (r: Option<Json>)
    ensures
        json::option_view(r) == rates_model(*rates),
{
    match rates {
        Some(x) => Some(
            json::object2(
                "five_hour_percent_per_hour",
                rate_json(&x.five_hour_percent_per_hour),
                "weekly_percent_per_hour",
                rate_json(&x.weekly_percent_per_hour),
            ),
        ),
        None => None,
    }
}

pub open spec fn integer_option(n: Option<i64>) -> Option<JsonModel> {
    match n {
        Some(x) => Some(json::integer(x as int)),
        None => None,
    }
}

pub open spec fn forecast_model(f: UsageForecast) -> JsonModel {
    JsonModel::Object(
        match f.outcome {
            UsageForecastOutcome::NotExpected { horizon_seconds } => seq![
                ("status"@, JsonModel::Text("not_expected"@)),
                ("horizon_seconds"@, json::integer(horizon_seconds as int)),
            ] + json::entry_if("rates"@, rates_model(f.rates)),
            UsageForecastOutcome::Unavailable { at, limited_by, recovery_at } => seq![
                ("status"@, JsonModel::Text("unavailable"@)),
                ("unavailable_at"@, json::integer(at as int)),
                ("limited_by"@, JsonModel::Text(limited_by.name())),
            ] + json::entry_if("recovery_at"@, integer_option(recovery_at)) + json::entry_if(
                "rates"@,
                rates_model(f.rates),
            ),
            UsageForecastOutcome::NotEnoughData { reason } => seq![
                ("status"@, JsonModel::Text("not_enough_data"@)),
                ("reason"@, JsonModel::Text(reason.name())),
            ],
        },
    )
}

pub fn forecast_json(forecast: &UsageForecast) -> (r: Json)
    ensures
        r@ == forecast_model(*forecast),
{
    let mut e: Vec<(String, Json)> = Vec::new();
    match forecast.outcome {
        UsageForecastOutcome::NotExpected { horizon_seconds } => {
            json::add_entry(&mut e, "status", json::text_value("not_expected"));
            json::add_entry(&mut e, "horizon_seconds", json::integer_value(horizon_seconds));
            assert(json::entries_view(e@) =~= seq![
                ("status"@, JsonModel::Text("not_expected"@)),
                ("horizon_seconds"@, json::integer(horizon_seconds as int)),
            ]);
            json::add_if(&mut e, "rates", forecast_rates_json(&forecast.rates));
        },
        UsageForecastOutcome::Unavailable { at, limited_by, recovery_at } => {
            json::add_entry(&mut e, "status", json::text_value("unavailable"));
            json::add_entry(&mut e, "unavailable_at", json::integer_value(at));
            json::add_entry(&mut e, "limited_by", json::text_value(limited_by.as_str()));
            assert(json::entries_view(e@) =~= seq![
                ("status"@, JsonModel::Text("unavailable"@)),
                ("unavailable_at"@, json::integer(at as int)),
                ("limited_by"@, JsonModel::Text(limited_by.name())),
            ]);
            let recovery = match recovery_at {
                Some(n) => Some(json::integer_value(n)),
                None => None,
            };
            json::add_if(&mut e, "recovery_at", recovery);
            json::add_if(&mut e, "rates", forecast_rates_json(&forecast.rates));
        },
        UsageForecastOutcome::NotEnoughData { reason } => {
            json::add_entry(&mut e, "status", json::text_value("not_enough_data"));
            json::add_entry(&mut e, "reason", json::text_value(reason.as_str()));
            assert(json::entries_view(e@) =~= seq![
                ("status"@, JsonModel::Text("not_enough_data"@)),
                ("reason"@, JsonModel::Text(reason.name())),
            ]);
        },
    }
    json::object(e)
}

// ---------------------------------------------------------------------------
// Usage of accounts
// ---------------------------------------------------------------------------

/// An account with what is reported of its usage.
pub struct UsageJsonEntry<'a> {
    pub account: &'a StoredAccount,
    pub usage: &'a UsageInfo,
}

pub open spec fn entry_model(
    e: UsageJsonEntry<'_>,
    current: Option<Seq<char>>,
    show_additional: bool,
) -> JsonModel {
    JsonModel::Object(
        seq![
            ("account"@, account_model(*e.account, current)),
            ("usage"@, usage_model(*e.usage, show_additional)),
        ],
    )
}

pub open spec fn entry_models(
    entries: Seq<UsageJsonEntry<'_>>,
    current: Option<Seq<char>>,
    show_additional: bool,
) -> Seq<JsonModel> {
    entries.map_values(|e: UsageJsonEntry<'_>| entry_model(e, current, show_additional))
}

pub open spec fn forecast_option(f: Option<&UsageForecast>) -> Option<JsonModel> {
    match f {
        Some(x) => Some(forecast_model(*x)),
        None => None,
    }
}

pub open spec fn usage_report_model(
    entries: Seq<UsageJsonEntry<'_>>,
    current: Option<Seq<char>>,
    all: bool,
    show_additional: bool,
    generated_at: i64,
    forecast: Option<&UsageForecast>,
) -> JsonModel {
    JsonModel::Object(
        seq![
            ("schema_version"@, json::integer(SCHEMA_VERSION as int)),
            ("command"@, JsonModel::Text("usage"@)),
            ("all"@, JsonModel::Bool(all)),
            ("show_additional"@, JsonModel::Bool(show_additional)),
            ("generated_at"@, json::integer(generated_at as int)),
            ("current_account_id"@, json::optional_text(current)),
            ("accounts"@, JsonModel::List(entry_models(entries, current, show_additional))),
        ] + json::entry_if("forecast"@, forecast_option(forecast)),
    )
}

fn entries_json(
    entries: &Vec<UsageJsonEntry<'_>>,
    current_account_id: Option<&str>,
    show_additional: bool,
) -> (r: Json)
    ensures
        r@ == JsonModel::List(
            entry_models(entries@, accounts::str_view(current_account_id), show_additional),
        ),
{
    let ghost all = entry_models(
        entries@,
        accounts::str_view(current_account_id),
        show_additional,
    );
    let mut items: Vec<Json> = Vec::new();
    let mut i: usize = 0;
    while i < entries.len()
        invariant
            i <= entries@.len(),
            all == entry_models(
                entries@,
                accounts::str_view(current_account_id),
                show_additional,
            ),
            json::list_view(items@) == all.take(i as int),
        decreases entries@.len() - i,
    {
        let item = json::object2(
            "account",
            account_json(entries[i].account, current_account_id),
            "usage",
            usage_info_json(entries[i].usage, show_additional),
        );
        let ghost before = items@;
        let ghost m = item@;
        items.push(item);
        i = i + 1;
        assert(json::list_view(items@) =~= json::list_view(before).push(m));
        assert(json::list_view(items@) =~= all.take(i as int));
    }
    assert(json::list_view(items@) =~= all);
    json::list(items)
}

pub fn usage_report(
    entries: &Vec<UsageJsonEntry<'_>>,
    current_account_id: Option<&str>,
    all: bool,
    show_additional: bool,
    generated_at: i64,
    forecast: Option<&UsageForecast>,
) -> (r: Json)
    ensures
        r@ == usage_report_model(
            entries@,
            accounts::str_view(current_account_id),
            all,
            show_additional,
            generated_at,
            forecast,
        ),
{
    let ghost shown = accounts::str_view(current_account_id);
    let mut e: Vec<(String, Json)> = Vec::new();
    json::add_entry(&mut e, "schema_version", json::integer_value(SCHEMA_VERSION));
    json::add_entry(&mut e, "command", json::text_value("usage"));
    json::add_entry(&mut e, "all", Json::Bool(all));
    json::add_entry(&mut e, "show_additional", Json::Bool(show_additional));
    json::add_entry(&mut e, "generated_at", json::integer_value(generated_at));
    let id = match current_account_id {
        Some(c) => json::text_value(c),
        None => Json::Null,
    };
    json::add_entry(&mut e, "current_account_id", id);
    json::add_entry(
        &mut e,
        "accounts",
        entries_json(entries, current_account_id, show_additional),
    );
    assert(json::entries_view(e@) =~= seq![
        ("schema_version"@, json::integer(SCHEMA_VERSION as int)),
        ("command"@, JsonModel::Text("usage"@)),
        ("all"@, JsonModel::Bool(all)),
        ("show_additional"@, JsonModel::Bool(show_additional)),
        ("generated_at"@, json::integer(generated_at as int)),
        ("current_account_id"@, json::optional_text(shown)),
        ("accounts"@, JsonModel::List(entry_models(entries@, shown, show_additional))),
    ]);
    let shown_forecast = match forecast {
        Some(f) => Some(forecast_json(f)),
        None => None,
    };
    json::add_if(&mut e, "forecast", shown_forecast);
    json::object(e)
}

// ---------------------------------------------------------------------------
// Laws
// ---------------------------------------------------------------------------

/// An account is reported with each of its parts under the part's own name, and as the
/// current one only where it is.
#[verifier::rlimit(40)]
pub proof fn accounts_are_reported_by_key(a: StoredAccount, current: Option<Seq<char>>)
    ensures
        ({
            let m = account_model(a, current);
            &&& json::field(m, "id"@) == Some(JsonModel::Text(a.id@))
            &&& json::field(m, "short_id"@) == Some(JsonModel::Text(accounts::short(a.id@)))
            &&& json::field(m, "name"@) == Some(JsonModel::Text(a.name@))
            &&& json::field(m, "email"@) == Some(json::optional_text(text::opt_view(a.email)))
            &&& json::field(m, "plan_type"@) == Some(
                json::optional_text(text::opt_view(a.plan_type)),
            )
            &&& json::field(m, "auth_mode"@) == Some(JsonModel::Text(a.auth_mode.name()))
            &&& json::field(m, "auto_switch_disabled"@) == Some(
                JsonModel::Bool(a.auto_switch_disabled),
            )
            &&& json::field(m, "current"@) == Some(JsonModel::Bool(current == Some(a.id@)))
            &&& json::field(m, "chatgpt_account_is_fedramp"@) == Some(
                JsonModel::Bool(a.chatgpt_account_is_fedramp),
            )
            &&& json::field(m, "created_at"@) == Some(
                JsonModel::Number(text::decimal_int(time::seconds_of(a.created_at))),
            )
            &&& json::field(m, "last_used_at"@) == Some(moment_model(a.last_used_at))
            &&& json::field(m, "token_last_refresh_at"@) == Some(
                moment_model(a.token_last_refresh_at),
            )
            &&& json::field(m, "subscription_expires_at"@) == Some(
                moment_model(a.subscription_expires_at),
            )
        }),
{
    reveal_strlit("id");
    reveal_strlit("short_id");
    reveal_strlit("name");
    reveal_strlit("email");
    reveal_strlit("plan_type");
    reveal_strlit("auth_mode");
    reveal_strlit("auto_switch_disabled");
    reveal_strlit("current");
    reveal_strlit("chatgpt_account_is_fedramp");
    reveal_strlit("created_at");
    reveal_strlit("last_used_at");
    reveal_strlit("token_last_refresh_at");
    reveal_strlit("subscription_expires_at");
    assert("id"@.len() == 2);
    assert("short_id"@.len() == 8);
    assert("name"@.len() == 4);
    assert("email"@.len() == 5);
    assert("plan_type"@.len() == 9);
    assert("auth_mode"@.len() == 9);
    assert("auto_switch_disabled"@.len() == 20);
    assert("current"@.len() == 7);
    assert("chatgpt_account_is_fedramp"@.len() == 26);
    assert("created_at"@.len() == 10);
    assert("last_used_at"@.len() == 12);
    assert("token_last_refresh_at"@.len() == 21);
    assert("subscription_expires_at"@.len() == 23);
    assert("plan_type"@[0] != "auth_mode"@[0]);

    let e = account_model(a, current)->Object_0;
    json::the_first_entry_is_read(e, "id"@, 0);
    json::the_first_entry_is_read(e, "short_id"@, 1);
    json::the_first_entry_is_read(e, "name"@, 2);
    json::the_first_entry_is_read(e, "email"@, 3);
    json::the_first_entry_is_read(e, "plan_type"@, 4);
    json::the_first_entry_is_read(e, "auth_mode"@, 5);
    json::the_first_entry_is_read(e, "auto_switch_disabled"@, 6);
    json::the_first_entry_is_read(e, "current"@, 7);
    json::the_first_entry_is_read(e, "chatgpt_account_is_fedramp"@, 8);
    json::the_first_entry_is_read(e, "created_at"@, 9);
    json::the_first_entry_is_read(e, "last_used_at"@, 10);
    json::the_first_entry_is_read(e, "token_last_refresh_at"@, 11);
    json::the_first_entry_is_read(e, "subscription_expires_at"@, 12);
}

/// A moment is reported by its whole seconds, and one that is not known as null.
pub proof fn moments_are_reported_in_seconds(t: Timestamp)
    ensures
        moment_model(Some(t)) == JsonModel::Number(text::decimal_int(time::seconds_of(t))),
        moment_model(None) == JsonModel::Null,
{
}

/// The list has every account in its order, and says what it is.
pub proof fn lists_have_every_account(
    accounts: Seq<StoredAccount>,
    current: Option<Seq<char>>,
    i: int,
)
    requires
        0 <= i < accounts.len(),
    ensures
        ({
            let m = list_model(accounts, current);
            &&& json::field(m, "command"@) == Some(JsonModel::Text("list"@))
            &&& json::field(m, "schema_version"@) == Some(JsonModel::Number(text::decimal_int(1)))
            &&& json::field(m, "accounts"@) is Some
            &&& json::field(m, "accounts"@)->Some_0 is List
            &&& json::field(m, "accounts"@)->Some_0->List_0.len() == accounts.len()
            &&& json::field(m, "accounts"@)->Some_0->List_0[i] == account_model(
                accounts[i],
                current,
            )
        }),
{
    reveal_strlit("schema_version");
    reveal_strlit("command");
    reveal_strlit("accounts");
    assert("schema_version"@.len() == 14);
    assert("command"@.len() == 7);
    assert("accounts"@.len() == 8);

    let e = list_model(accounts, current)->Object_0;
    json::the_first_entry_is_read(e, "schema_version"@, 0);
    json::the_first_entry_is_read(e, "command"@, 1);
    json::the_first_entry_is_read(e, "accounts"@, 2);
}

/// A diagnosis has every check in its order with each part under its name, and tells
/// whether there is an error among them.
pub proof fn diagnoses_have_every_check(checks: Seq<doctor::CheckView>, i: int, k: int)
    requires
        0 <= i < checks.len(),
        0 <= k < checks[i].hints.len(),
    ensures
        ({
            let m = doctor_model(checks);
            let c = json::field(m, "checks"@)->Some_0->List_0[i];
            &&& json::field(m, "command"@) == Some(JsonModel::Text("doctor"@))
            &&& json::field(m, "schema_version"@) == Some(JsonModel::Number(text::decimal_int(1)))
            &&& json::field(m, "has_errors"@) == Some(JsonModel::Bool(doctor::has_error(checks)))
            &&& json::field(m, "checks"@) is Some
            &&& json::field(m, "checks"@)->Some_0 is List
            &&& json::field(m, "checks"@)->Some_0->List_0.len() == checks.len()
            &&& json::field(c, "severity"@) == Some(JsonModel::Text(checks[i].severity.name()))
            &&& json::field(c, "category"@) == Some(JsonModel::Text(checks[i].category))
            &&& json::field(c, "message"@) == Some(JsonModel::Text(checks[i].message))
            &&& json::field(c, "hints"@) is Some
            &&& json::field(c, "hints"@)->Some_0->List_0.len() == checks[i].hints.len()
            &&& json::field(c, "hints"@)->Some_0->List_0[k] == JsonModel::Text(checks[i].hints[k])
        }),
{
    reveal_strlit("schema_version");
    reveal_strlit("command");
    reveal_strlit("has_errors");
    reveal_strlit("checks");
    reveal_strlit("severity");
    reveal_strlit("category");
    reveal_strlit("message");
    reveal_strlit("hints");
    assert("schema_version"@.len() == 14);
    assert("command"@.len() == 7);
    assert("has_errors"@.len() == 10);
    assert("checks"@.len() == 6);
    assert("severity"@.len() == 8);
    assert("category"@.len() == 8);
    assert("message"@.len() == 7);
    assert("hints"@.len() == 5);
    assert("command"@[0] != "message"@[0]);
    assert("severity"@[0] != "category"@[0]);

    let e = doctor_model(checks)->Object_0;
    json::the_first_entry_is_read(e, "schema_version"@, 0);
    json::the_first_entry_is_read(e, "command"@, 1);
    json::the_first_entry_is_read(e, "has_errors"@, 2);
    json::the_first_entry_is_read(e, "checks"@, 3);
    let c = check_model(checks[i])->Object_0;
    assert(check_models(checks)[i] == check_model(checks[i]));
    json::the_first_entry_is_read(c, "severity"@, 0);
    json::the_first_entry_is_read(c, "category"@, 1);
    json::the_first_entry_is_read(c, "message"@, 2);
    json::the_first_entry_is_read(c, "hints"@, 3);
}

/// Usage that is not supported, failed or cannot be used is told as such, in that
/// order; only what is none of it is fine.
pub proof fn usage_has_a_status(info: UsageInfo)
    ensures
        info.is_unsupported() ==> usage_status_of(info) == "unsupported"@,
        info.error is Some && !info.is_unsupported() ==> usage_status_of(info) == "error"@,
        info.error is None && assessment::unavailable_reason(info) is Some ==> usage_status_of(info)
            == "unavailable"@,
        usage_status_of(info) == "ok"@ <==> info.error is None && assessment::unavailable_reason(
            info,
        ) is None,
{
    reveal_strlit("unsupported");
    reveal_strlit("error");
    reveal_strlit("unavailable");
    reveal_strlit("ok");
    assert("unsupported"@.len() == 11);
    assert("error"@.len() == 5);
    assert("unavailable"@.len() == 11);
    assert("ok"@.len() == 2);
    assert("unsupported"@[2] != "unavailable"@[2]);

}

/// A window is reported with what is used and what is left of it, its minutes and its
/// reset; a number that is none is null.
pub proof fn windows_are_reported_by_key(w: UsageWindowData)
    ensures
        ({
            let m = window_model(Some(w));
            &&& json::field(m, "window_minutes"@) == Some(json::optional_integer(w.window_minutes))
            &&& json::field(m, "resets_at"@) == Some(json::optional_integer(w.resets_at))
            &&& w.used_percent is None ==> json::field(m, "used_percent"@) == Some(JsonModel::Null)
                && json::field(m, "left_percent"@) == Some(JsonModel::Null)
            &&& w.used_percent is Some && quantity::is_finite(w.used_percent->Some_0.bits)
                ==> json::field(m, "used_percent"@) == Some(
                JsonModel::Number(w.used_percent->Some_0.number@),
            ) && json::field(m, "left_percent"@) == Some(
                JsonModel::Number(w.used_percent->Some_0.left_number@),
            )
            &&& w.used_percent is Some && !quantity::is_finite(w.used_percent->Some_0.bits)
                ==> json::field(m, "used_percent"@) == Some(JsonModel::Null) && json::field(
                m,
                "left_percent"@,
            ) == Some(JsonModel::Null)
        }),
        json::field(window_model(None), "resets_at"@) == Some(JsonModel::Null),
{
    reveal_strlit("used_percent");
    reveal_strlit("left_percent");
    reveal_strlit("window_minutes");
    reveal_strlit("resets_at");
    assert("used_percent"@.len() == 12);
    assert("left_percent"@.len() == 12);
    assert("window_minutes"@.len() == 14);
    assert("resets_at"@.len() == 9);
    assert("used_percent"@[0] != "left_percent"@[0]);

    let e = window_model(Some(w))->Object_0;
    json::the_first_entry_is_read(e, "used_percent"@, 0);
    json::the_first_entry_is_read(e, "left_percent"@, 1);
    json::the_first_entry_is_read(e, "window_minutes"@, 2);
    json::the_first_entry_is_read(e, "resets_at"@, 3);
    let n = window_model(None)->Object_0;
    json::the_first_entry_is_read(n, "resets_at"@, 3);
}

/// The two windows are told apart by their length, in whichever place they come.
pub proof fn windows_are_reported_by_length(a: UsageWindowData, b: UsageWindowData)
    requires
        a.window_minutes == Some(300i64),
        b.window_minutes == Some(10_080i64),
    ensures
        five_hour_of(a, b) == window_model(Some(a)) && five_hour_of(b, a) == window_model(Some(a)),
        weekly_of(a, b) == window_model(Some(b)) && weekly_of(b, a) == window_model(Some(b)),
{
}

/// Usage is reported with each part under its name, and what is not known is left out.
#[verifier::rlimit(80)]
pub proof fn usage_is_reported_by_key(info: UsageInfo, show_additional: bool)
    ensures
        ({
            let m = usage_model(info, show_additional);
            &&& json::field(m, "status"@) == Some(JsonModel::Text(usage_status_of(info)))
            &&& json::field(m, "supported"@) == Some(JsonModel::Bool(!info.is_unsupported()))
            &&& json::field(m, "plan_type"@) == Some(
                json::optional_text(text::opt_view(info.plan_type)),
            )
            &&& json::field(m, "limit_id"@) == Some(
                json::optional_text(text::opt_view(info.limit_id)),
            )
            &&& json::field(m, "limit_name"@) == Some(
                json::optional_text(text::opt_view(info.limit_name)),
            )
            &&& json::field(m, "error"@) == json::text_option(text::opt_view(info.error))
            &&& json::field(m, "unavailable_reason"@) == json::text_option(
                assessment::unavailable_reason(info),
            )
            &&& json::field(m, "rate_limit_reached_type"@) == json::text_option(
                text::opt_view(info.rate_limit_reached_type),
            )
            &&& json::field(m, "five_hour"@) == Some(five_hour_of(info.primary, info.secondary))
            &&& json::field(m, "weekly"@) == Some(weekly_of(info.primary, info.secondary))
            &&& json::field(m, "credits"@) == credits_model(info)
            &&& json::field(m, "rate_limit_reset_credits_available"@) == resets_model(info)
            &&& json::field(m, "additional_limits"@) == limits_model(info, show_additional)
        }),
{
    reveal_strlit("status");
    reveal_strlit("supported");
    reveal_strlit("plan_type");
    reveal_strlit("limit_id");
    reveal_strlit("limit_name");
    reveal_strlit("error");
    reveal_strlit("unavailable_reason");
    reveal_strlit("rate_limit_reached_type");
    reveal_strlit("five_hour");
    reveal_strlit("weekly");
    reveal_strlit("credits");
    reveal_strlit("rate_limit_reset_credits_available");
    reveal_strlit("additional_limits");
    assert("status"@.len() == 6);
    assert("supported"@.len() == 9);
    assert("plan_type"@.len() == 9);
    assert("limit_id"@.len() == 8);
    assert("limit_name"@.len() == 10);
    assert("error"@.len() == 5);
    assert("unavailable_reason"@.len() == 18);
    assert("rate_limit_reached_type"@.len() == 23);
    assert("five_hour"@.len() == 9);
    assert("weekly"@.len() == 6);
    assert("credits"@.len() == 7);
    assert("rate_limit_reset_credits_available"@.len() == 34);
    assert("additional_limits"@.len() == 17);
    assert("status"@[0] != "weekly"@[0]);
    assert("supported"@[0] != "plan_type"@[0]);
    assert("supported"@[0] != "five_hour"@[0]);
    assert("plan_type"@[0] != "five_hour"@[0]);

    let e = usage_model(info, show_additional)->Object_0;
    let one = |o: Option<JsonModel>|
        if o is Some {
            1int
        } else {
            0int
        };
    let error = json::text_option(text::opt_view(info.error));
    let reason = json::text_option(assessment::unavailable_reason(info));
    let kind = json::text_option(text::opt_view(info.rate_limit_reached_type));
    let credits = credits_model(info);
    let resets = resets_model(info);
    let limits = limits_model(info, show_additional);
    let a = 5 + one(error);
    let b = a + one(reason);
    let c = b + one(kind);
    let d = c + 2 + one(credits);
    let f = d + one(resets);
    assert(e.len() == f + one(limits));
    json::the_first_entry_is_read(e, "status"@, 0);
    json::the_first_entry_is_read(e, "supported"@, 1);
    json::the_first_entry_is_read(e, "plan_type"@, 2);
    json::the_first_entry_is_read(e, "limit_id"@, 3);
    json::the_first_entry_is_read(e, "limit_name"@, 4);
    json::the_first_entry_is_read(e, "five_hour"@, c);
    json::the_first_entry_is_read(e, "weekly"@, c + 1);
    if error is Some {
        json::the_first_entry_is_read(e, "error"@, 5);
    } else {
        json::a_missing_key_is_not_read(e, "error"@);
    }
    if reason is Some {
        json::the_first_entry_is_read(e, "unavailable_reason"@, a);
    } else {
        json::a_missing_key_is_not_read(e, "unavailable_reason"@);
    }
    if kind is Some {
        json::the_first_entry_is_read(e, "rate_limit_reached_type"@, b);
    } else {
        json::a_missing_key_is_not_read(e, "rate_limit_reached_type"@);
    }
    if credits is Some {
        json::the_first_entry_is_read(e, "credits"@, c + 2);
    } else {
        json::a_missing_key_is_not_read(e, "credits"@);
    }
    if resets is Some {
        json::the_first_entry_is_read(e, "rate_limit_reset_credits_available"@, d);
    } else {
        json::a_missing_key_is_not_read(e, "rate_limit_reset_credits_available"@);
    }
    if limits is Some {
        json::the_first_entry_is_read(e, "additional_limits"@, f);
    } else {
        json::a_missing_key_is_not_read(e, "additional_limits"@);
    }
}

/// Credits are reported where anything is known of them.
pub proof fn credits_are_reported_by_key(info: UsageInfo)
    ensures
        credits_model(info) is None <==> info.has_credits is None && info.unlimited_credits is None
            && info.credits_balance is None,
        credits_model(info) matches Some(m) ==> {
            &&& json::field(m, "has_credits"@) == Some(json::optional_bool(info.has_credits))
            &&& json::field(m, "unlimited"@) == Some(json::optional_bool(info.unlimited_credits))
            &&& info.credits_balance is Some ==> json::field(m, "balance"@) == Some(
                JsonModel::Text(info.credits_balance->Some_0.text@),
            )
            &&& info.credits_balance is None ==> json::field(m, "balance"@) == Some(JsonModel::Null)
        },
{
    reveal_strlit("has_credits");
    reveal_strlit("unlimited");
    reveal_strlit("balance");
    assert("has_credits"@.len() == 11);
    assert("unlimited"@.len() == 9);
    assert("balance"@.len() == 7);

    if credits_model(info) is Some {
        let e = credits_model(info)->Some_0->Object_0;
        json::the_first_entry_is_read(e, "has_credits"@, 0);
        json::the_first_entry_is_read(e, "unlimited"@, 1);
        json::the_first_entry_is_read(e, "balance"@, 2);
    }
}

/// Further limits are reported only where they are asked for, each with its parts
/// under their names.
pub proof fn further_limits_are_reported(info: UsageInfo, show_additional: bool, i: int)
    requires
        0 <= i < info.additional_limits@.len(),
    ensures
        limits_model(info, false) is None,
        limits_model(info, true) is Some,
        limits_model(info, true)->Some_0->List_0.len() == info.additional_limits@.len(),
        ({
            let l = info.additional_limits@[i];
            let m = limits_model(info, true)->Some_0->List_0[i];
            &&& json::field(m, "limit_id"@) == Some(json::optional_text(text::opt_view(l.limit_id)))
            &&& json::field(m, "limit_name"@) == Some(
                json::optional_text(text::opt_view(l.limit_name)),
            )
            &&& json::field(m, "five_hour"@) == Some(five_hour_of(l.primary, l.secondary))
            &&& json::field(m, "weekly"@) == Some(weekly_of(l.primary, l.secondary))
        }),
{
    reveal_strlit("limit_id");
    reveal_strlit("limit_name");
    reveal_strlit("five_hour");
    reveal_strlit("weekly");
    assert("limit_id"@.len() == 8);
    assert("limit_name"@.len() == 10);
    assert("five_hour"@.len() == 9);
    assert("weekly"@.len() == 6);

    let l = info.additional_limits@[i];
    assert(limit_models(info.additional_limits@)[i] == limit_model(l));
    let e = limit_model(l)->Object_0;
    json::the_first_entry_is_read(e, "limit_id"@, 0);
    json::the_first_entry_is_read(e, "limit_name"@, 1);
    json::the_first_entry_is_read(e, "five_hour"@, 2);
    json::the_first_entry_is_read(e, "weekly"@, 3);
}

/// The resets that are left are reported as a number that is not below zero.
pub proof fn resets_are_reported(info: UsageInfo, n: i64)
    requires
        info.rate_limit_reset_credits_available == Some(n),
    ensures
        n >= 0 ==> resets_model(info) == Some(JsonModel::Number(text::decimal_int(n as int))),
        n < 0 ==> resets_model(info) == Some(JsonModel::Number(text::decimal_int(0))),
{
}

/// A forecast is reported by its outcome, with the moments, the limit and the rates
/// under their names.
#[verifier::rlimit(40)]
pub proof fn forecasts_are_reported_by_key(f: UsageForecast)
    ensures
        ({
            let m = forecast_model(f);
            &&& f.outcome is NotExpected ==> json::field(m, "status"@) == Some(
                JsonModel::Text("not_expected"@),
            ) && json::field(m, "horizon_seconds"@) == Some(
                JsonModel::Number(text::decimal_int(f.outcome->horizon_seconds as int)),
            )
            &&& f.outcome is Unavailable ==> json::field(m, "status"@) == Some(
                JsonModel::Text("unavailable"@),
            ) && json::field(m, "unavailable_at"@) == Some(
                JsonModel::Number(text::decimal_int(f.outcome->at as int)),
            ) && json::field(m, "limited_by"@) == Some(
                JsonModel::Text(f.outcome->limited_by.name()),
            ) && json::field(m, "recovery_at"@) == (match f.outcome->recovery_at {
                Some(t) => Some(JsonModel::Number(text::decimal_int(t as int))),
                None => None,
            })
            &&& f.outcome is NotEnoughData ==> json::field(m, "status"@) == Some(
                JsonModel::Text("not_enough_data"@),
            ) && json::field(m, "reason"@) == Some(JsonModel::Text("incomplete usage data"@))
            &&& !(f.outcome is NotEnoughData) ==> json::field(m, "rates"@) == rates_model(f.rates)
        }),
{
    reveal_strlit("status");
    reveal_strlit("horizon_seconds");
    reveal_strlit("unavailable_at");
    reveal_strlit("limited_by");
    reveal_strlit("recovery_at");
    reveal_strlit("rates");
    reveal_strlit("reason");
    assert("status"@.len() == 6);
    assert("horizon_seconds"@.len() == 15);
    assert("unavailable_at"@.len() == 14);
    assert("limited_by"@.len() == 10);
    assert("recovery_at"@.len() == 11);
    assert("rates"@.len() == 5);
    assert("reason"@.len() == 6);
    assert("status"@[0] != "reason"@[0]);

    let e = forecast_model(f)->Object_0;
    json::the_first_entry_is_read(e, "status"@, 0);
    match f.outcome {
        UsageForecastOutcome::NotExpected { .. } => {
            json::the_first_entry_is_read(e, "horizon_seconds"@, 1);
            if f.rates is Some {
                json::the_first_entry_is_read(e, "rates"@, 2);
            } else {
                json::a_missing_key_is_not_read(e, "rates"@);
            }
        },
        UsageForecastOutcome::Unavailable { recovery_at, .. } => {
            json::the_first_entry_is_read(e, "unavailable_at"@, 1);
            json::the_first_entry_is_read(e, "limited_by"@, 2);
            let k: int = if recovery_at is Some {
                4
            } else {
                3
            };
            if recovery_at is Some {
                json::the_first_entry_is_read(e, "recovery_at"@, 3);
            } else {
                json::a_missing_key_is_not_read(e, "recovery_at"@);
            }
            if f.rates is Some {
                json::the_first_entry_is_read(e, "rates"@, k);
            } else {
                json::a_missing_key_is_not_read(e, "rates"@);
            }
        },
        UsageForecastOutcome::NotEnoughData { .. } => {
            json::the_first_entry_is_read(e, "reason"@, 1);
        },
    }
}

/// Rates are reported each under its name; one that is no number is null.
pub proof fn rates_are_reported_by_key(r: UsageForecastRates)
    ensures
        ({
            let m = rates_model(Some(r))->Some_0;
            &&& json::field(m, "five_hour_percent_per_hour"@) == Some(
                rate_model(r.five_hour_percent_per_hour),
            )
            &&& json::field(m, "weekly_percent_per_hour"@) == Some(
                rate_model(r.weekly_percent_per_hour),
            )
        }),
        r.weekly_percent_per_hour is Some && quantity::is_finite(
            r.weekly_percent_per_hour->Some_0.bits,
        ) ==> rate_model(r.weekly_percent_per_hour) == JsonModel::Number(
            r.weekly_percent_per_hour->Some_0.number@,
        ),
        r.weekly_percent_per_hour is Some && !quantity::is_finite(
            r.weekly_percent_per_hour->Some_0.bits,
        ) ==> rate_model(r.weekly_percent_per_hour) == JsonModel::Null,
        rate_model(None) == JsonModel::Null,
{
    reveal_strlit("five_hour_percent_per_hour");
    reveal_strlit("weekly_percent_per_hour");
    assert("five_hour_percent_per_hour"@.len() == 26);
    assert("weekly_percent_per_hour"@.len() == 23);

    let e = rates_model(Some(r))->Some_0->Object_0;
    json::the_first_entry_is_read(e, "five_hour_percent_per_hour"@, 0);
    json::the_first_entry_is_read(e, "weekly_percent_per_hour"@, 1);
}

/// The report on usage has every entry in its order, the account with its own usage,
/// and says what was asked for and when.
pub proof fn reports_have_every_entry(
    entries: Seq<UsageJsonEntry<'_>>,
    current: Option<Seq<char>>,
    all: bool,
    show_additional: bool,
    generated_at: i64,
    forecast: Option<&UsageForecast>,
    i: int,
)
    requires
        0 <= i < entries.len(),
    ensures
        ({
            let m = usage_report_model(
                entries,
                current,
                all,
                show_additional,
                generated_at,
                forecast,
            );
            let list = json::field(m, "accounts"@)->Some_0->List_0;
            &&& json::field(m, "command"@) == Some(JsonModel::Text("usage"@))
            &&& json::field(m, "schema_version"@) == Some(JsonModel::Number(text::decimal_int(1)))
            &&& json::field(m, "all"@) == Some(JsonModel::Bool(all))
            &&& json::field(m, "show_additional"@) == Some(JsonModel::Bool(show_additional))
            &&& json::field(m, "generated_at"@) == Some(
                JsonModel::Number(text::decimal_int(generated_at as int)),
            )
            &&& json::field(m, "current_account_id"@) == Some(json::optional_text(current))
            &&& json::field(m, "accounts"@) is Some
            &&& list.len() == entries.len()
            &&& json::field(list[i], "account"@) == Some(
                account_model(*entries[i].account, current),
            )
            &&& json::field(list[i], "usage"@) == Some(
                usage_model(*entries[i].usage, show_additional),
            )
            &&& json::field(m, "forecast"@) == (match forecast {
                Some(f) => Some(forecast_model(*f)),
                None => None,
            })
        }),
{
    reveal_strlit("schema_version");
    reveal_strlit("command");
    reveal_strlit("all");
    reveal_strlit("show_additional");
    reveal_strlit("generated_at");
    reveal_strlit("current_account_id");
    reveal_strlit("accounts");
    reveal_strlit("forecast");
    reveal_strlit("account");
    reveal_strlit("usage");
    assert("schema_version"@.len() == 14);
    assert("command"@.len() == 7);
    assert("all"@.len() == 3);
    assert("show_additional"@.len() == 15);
    assert("generated_at"@.len() == 12);
    assert("current_account_id"@.len() == 18);
    assert("accounts"@.len() == 8);
    assert("forecast"@.len() == 8);
    assert("account"@.len() == 7);
    assert("usage"@.len() == 5);
    assert("command"@[0] != "account"@[0]);
    assert("accounts"@[0] != "forecast"@[0]);

    let m = usage_report_model(entries, current, all, show_additional, generated_at, forecast);
    let e = m->Object_0;
    json::the_first_entry_is_read(e, "schema_version"@, 0);
    json::the_first_entry_is_read(e, "command"@, 1);
    json::the_first_entry_is_read(e, "all"@, 2);
    json::the_first_entry_is_read(e, "show_additional"@, 3);
    json::the_first_entry_is_read(e, "generated_at"@, 4);
    json::the_first_entry_is_read(e, "current_account_id"@, 5);
    json::the_first_entry_is_read(e, "accounts"@, 6);
    if forecast is Some {
        json::the_first_entry_is_read(e, "forecast"@, 7);
    } else {
        json::a_missing_key_is_not_read(e, "forecast"@);
    }
    let one = entry_model(entries[i], current, show_additional);
    assert(entry_models(entries, current, show_additional)[i] == one);
    json::the_first_entry_is_read(one->Object_0, "account"@, 0);
    json::the_first_entry_is_read(one->Object_0, "usage"@, 1);
}

} // verus!
