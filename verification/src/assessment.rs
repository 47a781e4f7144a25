//! Whether an account's reported usage lets it be used.
use crate::quantity;
use crate::search;
use crate::text;
use crate::usage::{UsageInfo, UsageLimitInfo, UsedPercent};
use crate::usage;
use vstd::prelude::*;

verus! {

#[derive(Debug)]
pub enum UsageDecision {
    Usable(String),
    Unavailable(String),
    Unsupported(String),
    Error(String),
}

/// A decision with its reason as characters.
pub enum DecisionView {
    Usable(Seq<char>),
    Unavailable(Seq<char>),
    Unsupported(Seq<char>),
    Error(Seq<char>),
}

impl View for UsageDecision {
    type V = DecisionView;

    open spec fn view(&self) -> DecisionView {
        match self {
            UsageDecision::Usable(s) => DecisionView::Usable(s@),
            UsageDecision::Unavailable(s) => DecisionView::Unavailable(s@),
            UsageDecision::Unsupported(s) => DecisionView::Unsupported(s@),
            UsageDecision::Error(s) => DecisionView::Error(s@),
        }
    }
}

impl Clone for UsageDecision {
    fn clone(&self) -> (r: Self)
        ensures
            r == *self,
    {
        match self {
            UsageDecision::Usable(s) => UsageDecision::Usable(s.clone()),
            UsageDecision::Unavailable(s) => UsageDecision::Unavailable(s.clone()),
            UsageDecision::Unsupported(s) => UsageDecision::Unsupported(s.clone()),
            UsageDecision::Error(s) => UsageDecision::Error(s.clone()),
        }
    }
}

// ---------------------------------------------------------------------------
// The kind of limit that was reached
// ---------------------------------------------------------------------------

pub open spec fn reached_reason(kind: Seq<char>) -> Seq<char> {
    if kind == "workspace_owner_credits_depleted"@ || kind == "workspace_member_credits_depleted"@ {
        "credits depleted"@
    } else if kind == "workspace_owner_usage_limit_reached"@ || kind
        == "workspace_member_usage_limit_reached"@ {
        "usage limit reached"@
    } else if kind == "rate_limit_reached"@ {
        "rate limit reached"@
    } else {
        "rate limit reached: "@ + kind
    }
}

pub fn rate_limit_reason(kind: &str) -> (r: String)
    ensures
        r@ == reached_reason(kind@),
{
    if text::same(kind, "workspace_owner_credits_depleted") || text::same(
        kind,
        "workspace_member_credits_depleted",
    ) {
        "credits depleted".to_owned()
    } else if text::same(kind, "workspace_owner_usage_limit_reached") || text::same(
        kind,
        "workspace_member_usage_limit_reached",
    ) {
        "usage limit reached".to_owned()
    } else if text::same(kind, "rate_limit_reached") {
        "rate limit reached".to_owned()
    } else {
        text::cat2("rate limit reached: ", kind)
    }
}

// ---------------------------------------------------------------------------
// Credits
// ---------------------------------------------------------------------------

/// The account pays by credits, they are limited, and none are left.
pub open spec fn has_no_credits_left(info: UsageInfo) -> bool {
    &&& info.unlimited_credits != Some(true)
    &&& info.has_credits == Some(true)
    &&& info.credits_balance is Some
    &&& info.credits_balance->Some_0.is_spent
}

pub fn credits_depleted(info: &UsageInfo) -> (r: bool)
    ensures
        r == has_no_credits_left(*info),
{
    if info.unlimited_credits == Some(true) {
        return false;
    }
    if info.has_credits != Some(true) {
        return false;
    }
    match &info.credits_balance {
        Some(balance) => balance.is_spent,
        None => false,
    }
}

// ---------------------------------------------------------------------------
// Hard limits
// ---------------------------------------------------------------------------

/// A window under the name it goes by in messages.
pub struct NamedWindow {
    pub name: Seq<char>,
    pub used: Option<UsedPercent>,
}

/// The windows of the further limits, in order.
pub open spec fn additional_entries(limits: Seq<UsageLimitInfo>) -> Seq<NamedWindow>
    decreases limits.len(),
{
    if limits.len() == 0 {
        Seq::empty()
    } else {
        let limit = limits.last();
        additional_entries(limits.drop_last()) + seq![
            NamedWindow {
                name: limit.title() + " 5-hour"@,
                used: limit.primary.used_percent,
            },
            NamedWindow {
                name: limit.title() + " weekly"@,
                used: limit.secondary.used_percent,
            },
        ]
    }
}

/// Every window of a report, in the order in which limits are looked at.
pub open spec fn named_windows(info: UsageInfo) -> Seq<NamedWindow> {
    seq![
        NamedWindow { name: "5-hour"@, used: info.primary.used_percent },
        NamedWindow { name: "weekly"@, used: info.secondary.used_percent },
    ] + additional_entries(info.additional_limits@)
}

pub open spec fn is_exhausted() -> spec_fn(NamedWindow) -> bool {
    |w: NamedWindow| usage::is_used_to(w.used, quantity::HUNDRED)
}

pub open spec fn exhausted_message(w: NamedWindow) -> Seq<char> {
    w.name + " usage is "@ + w.used->Some_0.shown@ + "%"@
}

/// The message for the first window that is used up.
pub open spec fn limit_message(info: UsageInfo) -> Option<Seq<char>> {
    match search::first_of(named_windows(info), is_exhausted()) {
        Some(w) => Some(exhausted_message(w)),
        None => None,
    }
}

fn window_message(name: &str, used: &Option<UsedPercent>) -> (r: Option<String>)
    ensures
        match r {
            Some(m) => {
                let w = NamedWindow { name: name@, used: *used };
                is_exhausted()(w) && m@ == exhausted_message(w)
            },
            None => !is_exhausted()(NamedWindow { name: name@, used: *used }),
        },
{
    match used {
        Some(percent) => if quantity::reaches(percent.bits, quantity::HUNDRED) {
            Some(text::cat4(name, " usage is ", percent.shown.as_str(), "%"))
        } else {
            None
        },
        None => None,
    }
}

pub fn hard_limit_reason(info: &UsageInfo) -> (r: Option<String>)
    ensures
        text::opt_view(r) == limit_message(*info),
{
    let ghost p = is_exhausted();
    let ghost all = named_windows(*info);
    proof {
        additional_entries_length(info.additional_limits@);
    }
    if let Some(m) = window_message("5-hour", &info.primary.used_percent) {
        proof {
            search::first_index_unique(all, p, 0);
        }
        return Some(m);
    }
    if let Some(m) = window_message("weekly", &info.secondary.used_percent) {
        proof {
            search::first_index_unique(all, p, 1);
        }
        return Some(m);
    }
    let mut i: usize = 0;
    while i < info.additional_limits.len()
        invariant
            i <= info.additional_limits@.len(),
            p == is_exhausted(),
            all == named_windows(*info),
            all.len() == 2 + 2 * info.additional_limits@.len(),
            forall|j: int| 0 <= j < 2 + 2 * i ==> !p(#[trigger] all[j]),
        decreases info.additional_limits@.len() - i,
    {
        let limit = &info.additional_limits[i];
        proof {
            additional_entries_at(info.additional_limits@, i as int);
        }
        let label = limit.label();
        let first = text::cat2(label.as_str(), " 5-hour");
        if let Some(m) = window_message(first.as_str(), &limit.primary.used_percent) {
            proof {
                search::first_index_unique(all, p, 2 + 2 * i);
            }
            return Some(m);
        }
        let second = text::cat2(label.as_str(), " weekly");
        if let Some(m) = window_message(second.as_str(), &limit.secondary.used_percent) {
            proof {
                search::first_index_unique(all, p, 3 + 2 * i);
            }
            return Some(m);
        }
        i = i + 1;
    }
    proof {
        search::first_index_absent(all, p);
    }
    None
}

proof fn additional_entries_length(limits: Seq<UsageLimitInfo>)
    ensures
        additional_entries(limits).len() == 2 * limits.len(),
    decreases limits.len(),
{
    if limits.len() > 0 {
        additional_entries_length(limits.drop_last());
    }
}

proof fn additional_entries_at(limits: Seq<UsageLimitInfo>, i: int)
    requires
        0 <= i < limits.len(),
    ensures
        additional_entries(limits).len() == 2 * limits.len(),
        additional_entries(limits)[2 * i] == (NamedWindow {
            name: limits[i].title() + " 5-hour"@,
            used: limits[i].primary.used_percent,
        }),
        additional_entries(limits)[2 * i + 1] == (NamedWindow {
            name: limits[i].title() + " weekly"@,
            used: limits[i].secondary.used_percent,
        }),
    decreases limits.len(),
{
    additional_entries_length(limits);
    additional_entries_length(limits.drop_last());
    if i < limits.len() - 1 {
        additional_entries_at(limits.drop_last(), i);
    }
}

// ---------------------------------------------------------------------------
// The decision
// ---------------------------------------------------------------------------

/// Unsupported usage comes first, then errors, then what the service says was
/// reached, then credits, then windows that are used up.
pub open spec fn assessed(info: UsageInfo) -> DecisionView {
    if info.is_unsupported() {
        DecisionView::Unsupported(usage::UNSUPPORTED@)
    } else if info.error is Some {
        DecisionView::Error(info.error->Some_0@)
    } else if info.rate_limit_reached_type is Some {
        DecisionView::Unavailable(reached_reason(info.rate_limit_reached_type->Some_0@))
    } else if has_no_credits_left(info) {
        DecisionView::Unavailable("credits balance is 0"@)
    } else {
        match limit_message(info) {
            Some(m) => DecisionView::Unavailable(m),
            None => DecisionView::Usable("usage is available"@),
        }
    }
}

pub fn assess_usage(info: &UsageInfo) -> (r: UsageDecision)
    ensures
        r@ == assessed(*info),
{
    if info.unsupported() {
        return UsageDecision::Unsupported(usage::UNSUPPORTED.to_owned());
    }
    if let Some(error) = &info.error {
        return UsageDecision::Error(error.clone());
    }
    if let Some(kind) = &info.rate_limit_reached_type {
        return UsageDecision::Unavailable(rate_limit_reason(kind.as_str()));
    }
    if credits_depleted(info) {
        return UsageDecision::Unavailable("credits balance is 0".to_owned());
    }
    match hard_limit_reason(info) {
        Some(reason) => UsageDecision::Unavailable(reason),
        None => UsageDecision::Usable("usage is available".to_owned()),
    }
}

/// The account cannot be used: the service answered, and its answer rules it out.
pub fn usage_requires_switch(info: &UsageInfo) -> (r: bool)
    ensures
        r == (assessed(*info) is Unavailable),
{
    match assess_usage(info) {
        UsageDecision::Unavailable(_) => true,
        _ => false,
    }
}

/// Why the account cannot be used.
pub open spec fn unavailable_reason(info: UsageInfo) -> Option<Seq<char>> {
    match assessed(info) {
        DecisionView::Unavailable(reason) => Some(reason),
        _ => None,
    }
}

pub fn usage_unavailable_reason(info: &UsageInfo) -> (r: Option<String>)
    ensures
        text::opt_view(r) == unavailable_reason(*info),
{
    match assess_usage(info) {
        UsageDecision::Unavailable(reason) => Some(reason),
        _ => None,
    }
}

/// A report without an error, without a reached limit, with credits left and
/// with every window below one hundred percent is usable; every other is not.
pub proof fn usable_means_nothing_stands_against_it(info: UsageInfo)
    ensures
        assessed(info) is Usable <==> {
            &&& info.error is None
            &&& info.rate_limit_reached_type is None
            &&& !has_no_credits_left(info)
            &&& forall|i: int|
                0 <= i < named_windows(info).len() ==> !is_exhausted()(
                    #[trigger] named_windows(info)[i],
                )
        },
{
    search::first_index_is_first(named_windows(info), is_exhausted());
}

/// A report that is used up anywhere lets nothing be used: not where its primary
/// or its secondary window, nor where any window of a further limit, stands at one
/// hundred percent or beyond.
pub proof fn used_up_windows_rule_out(info: UsageInfo)
    ensures
        usage::is_used_to(info.primary.used_percent, quantity::HUNDRED) ==> !(assessed(info) is Usable),
        usage::is_used_to(info.secondary.used_percent, quantity::HUNDRED) ==> !(assessed(
            info,
        ) is Usable),
        forall|k: int|
            0 <= k < info.additional_limits@.len() && (usage::is_used_to(
                (#[trigger] info.additional_limits@[k]).primary.used_percent,
                quantity::HUNDRED,
            ) || usage::is_used_to(
                info.additional_limits@[k].secondary.used_percent,
                quantity::HUNDRED,
            )) ==> !(assessed(info) is Usable),
        assessed(info) is Error || assessed(info) is Unsupported <==> info.error is Some,
{
    let all = named_windows(info);
    additional_entries_length(info.additional_limits@);
    search::first_index_is_first(all, is_exhausted());
    assert(!(limit_message(info) is None && is_exhausted()(all[0])));
    assert(!(limit_message(info) is None && is_exhausted()(all[1])));
    assert forall|k: int|
        0 <= k < info.additional_limits@.len() && (usage::is_used_to(
            (#[trigger] info.additional_limits@[k]).primary.used_percent,
            quantity::HUNDRED,
        ) || usage::is_used_to(
            info.additional_limits@[k].secondary.used_percent,
            quantity::HUNDRED,
        )) implies !(assessed(info) is Usable) by {
        additional_entries_at(info.additional_limits@, k);
        assert(!(limit_message(info) is None && is_exhausted()(all[2 + 2 * k])));
        assert(!(limit_message(info) is None && is_exhausted()(all[3 + 2 * k])));
    }
}

/// Where nothing stands against a report, it is usable: no error, no limit that the
/// service says was reached, credits left where it pays by them, and every window
/// below one hundred percent.
pub proof fn unused_reports_are_usable(info: UsageInfo)
    requires
        info.error is None,
        info.rate_limit_reached_type is None,
        info.unlimited_credits == Some(true) || info.has_credits != Some(true) || info.credits_balance
            is None || !info.credits_balance->Some_0.is_spent,
        !usage::is_used_to(info.primary.used_percent, quantity::HUNDRED),
        !usage::is_used_to(info.secondary.used_percent, quantity::HUNDRED),
        forall|k: int|
            0 <= k < info.additional_limits@.len() ==> !usage::is_used_to(
                (#[trigger] info.additional_limits@[k]).primary.used_percent,
                quantity::HUNDRED,
            ) && !usage::is_used_to(
                info.additional_limits@[k].secondary.used_percent,
                quantity::HUNDRED,
            ),
    ensures
        assessed(info) == DecisionView::Usable("usage is available"@),
{
    let all = named_windows(info);
    additional_entries_length(info.additional_limits@);
    assert forall|i: int| 0 <= i < all.len() implies !is_exhausted()(#[trigger] all[i]) by {
        if i >= 2 {
            additional_entries_at(info.additional_limits@, (i - 2) / 2);
        }
    }
    search::first_index_absent(all, is_exhausted());
}

/// The reason names the window that is used up and how far: the primary one before
/// the secondary one, and both before those of further limits.
pub proof fn the_first_window_is_named(info: UsageInfo)
    requires
        info.error is None,
        info.rate_limit_reached_type is None,
        !has_no_credits_left(info),
    ensures
        usage::is_used_to(info.primary.used_percent, quantity::HUNDRED) ==> assessed(info)
            == DecisionView::Unavailable(
            "5-hour usage is "@ + info.primary.used_percent->Some_0.shown@ + "%"@,
        ),
        !usage::is_used_to(info.primary.used_percent, quantity::HUNDRED) && usage::is_used_to(
            info.secondary.used_percent,
            quantity::HUNDRED,
        ) ==> assessed(info) == DecisionView::Unavailable(
            "weekly usage is "@ + info.secondary.used_percent->Some_0.shown@ + "%"@,
        ),
{
    let all = named_windows(info);
    reveal_strlit("5-hour usage is ");
    reveal_strlit("weekly usage is ");
    reveal_strlit("5-hour");
    reveal_strlit("weekly");
    reveal_strlit(" usage is ");
    assert("5-hour"@ + " usage is "@ =~= "5-hour usage is "@);
    assert("weekly"@ + " usage is "@ =~= "weekly usage is "@);
    if is_exhausted()(all[0]) {
        search::first_index_unique(all, is_exhausted(), 0);
    } else if is_exhausted()(all[1]) {
        search::first_index_unique(all, is_exhausted(), 1);
    }
}

/// Credits rule an account out only where it pays by them, they are limited, and
/// the balance is spent; then nothing but an error or a reached limit comes first.
pub proof fn spent_credits_rule_out(info: UsageInfo)
    requires
        info.error is None,
        info.rate_limit_reached_type is None,
    ensures
        info.has_credits == Some(true) && info.unlimited_credits != Some(true)
            && info.credits_balance is Some && info.credits_balance->Some_0.is_spent ==> assessed(
            info,
        ) == DecisionView::Unavailable("credits balance is 0"@),
        info.unlimited_credits == Some(true) || info.has_credits != Some(true)
            || info.credits_balance is None || !info.credits_balance->Some_0.is_spent ==> assessed(
            info,
        ) == match limit_message(info) {
            Some(m) => DecisionView::Unavailable(m),
            None => DecisionView::Usable("usage is available"@),
        },
{
}

/// What the service says was reached outweighs every window, and an error outweighs
/// that.
pub proof fn errors_come_first(info: UsageInfo)
    ensures
        info.error matches Some(e) ==> assessed(info) == if e@ == "usage unsupported"@ {
            DecisionView::Unsupported("usage unsupported"@)
        } else {
            DecisionView::Error(e@)
        },
        info.error is None && info.rate_limit_reached_type is Some ==> assessed(info) is Unavailable,
{
}

/// What was reached is told by its kind: spent credits, a usage limit or a rate
/// limit, and any other kind by its own name.
pub proof fn reached_limits_are_told_by_kind(kind: Seq<char>)
    ensures
        kind == "workspace_owner_credits_depleted"@ || kind == "workspace_member_credits_depleted"@
            ==> reached_reason(kind) == "credits depleted"@,
        kind == "workspace_owner_usage_limit_reached"@ || kind
            == "workspace_member_usage_limit_reached"@ ==> reached_reason(kind)
            == "usage limit reached"@,
        kind == "rate_limit_reached"@ ==> reached_reason(kind) == "rate limit reached"@,
        kind.len() != 18 && kind.len() < 32 ==> reached_reason(kind) == "rate limit reached: "@
            + kind,
{
    reveal_strlit("rate_limit_reached");
    reveal_strlit("workspace_owner_credits_depleted");
    reveal_strlit("workspace_member_credits_depleted");
    reveal_strlit("workspace_owner_usage_limit_reached");
    reveal_strlit("workspace_member_usage_limit_reached");
    assert("rate_limit_reached"@.len() == 18);
    assert("workspace_owner_credits_depleted"@.len() == 32);
    assert("workspace_member_credits_depleted"@.len() == 33);
    assert("workspace_owner_usage_limit_reached"@.len() == 35);
    assert("workspace_member_usage_limit_reached"@.len() == 36);
}

} // verus!
