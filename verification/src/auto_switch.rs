//! Planning an automatic switch.
//!
//! A plan is made in steps, because the usage of the accounts has to be fetched
//! in between: first the current account's usage is judged, then that of the
//! possible replacements, then a policy chooses, and the plan is drawn up.
use crate::accounts;
use crate::accounts::StoredAccount;
use crate::assessment;
use crate::assessment::{DecisionView, UsageDecision};
use crate::search;
use crate::selector;
use crate::selector::{
    AccountSelection,
    AccountUsageCandidate,
    Score,
    SelectionConfig,
    SelectionContext,
};
use crate::text;
use crate::usage::UsageInfo;
use vstd::prelude::*;

verus! {

/// The current account cannot be used and nothing can take its place.
#[derive(Debug)]
pub struct NoUsableReplacement {
    pub reason: String,
}

impl NoUsableReplacement {
    pub fn new(reason: String) -> (r: Self)
        ensures
            r.reason == reason,
    {
        NoUsableReplacement { reason }
    }

    pub fn reason(&self) -> (r: &str)
        ensures
            r@ == self.reason@,
    {
        self.reason.as_str()
    }
}

/// Why no plan could be made.
#[derive(Debug)]
pub enum AutoSwitchError {
    NoUsableReplacement(NoUsableReplacement),
    Other(String),
}

impl AutoSwitchError {
    pub open spec fn text(self) -> Seq<char> {
        match self {
            AutoSwitchError::NoUsableReplacement(e) => e.reason@,
            AutoSwitchError::Other(m) => m@,
        }
    }

    pub fn message(&self) -> (r: &str)
        ensures
            r@ == self.text(),
    {
        match self {
            AutoSwitchError::NoUsableReplacement(e) => e.reason(),
            AutoSwitchError::Other(m) => m.as_str(),
        }
    }
}

/// A session may start although no replacement was found; any other error ends it.
pub fn initial_auto_switch_nonfatal_reason(err: &AutoSwitchError) -> (r: Option<&str>)
    ensures
        accounts::str_view(r) == match err {
            AutoSwitchError::NoUsableReplacement(e) => Some(e.reason@),
            AutoSwitchError::Other(_) => None,
        },
{
    match err {
        AutoSwitchError::NoUsableReplacement(e) => Some(e.reason()),
        AutoSwitchError::Other(_) => None,
    }
}

pub enum AutoSwitchResult {
    CurrentKept { account: Box<StoredAccount>, reason: String },
    CurrentUnsupported { account: Box<StoredAccount>, reason: String },
    Switched { from: Option<Box<StoredAccount>>, to: Box<StoredAccount>, reason: String },
}

pub enum AutoSwitchPlan {
    CurrentKept { account: Box<StoredAccount>, reason: String },
    CurrentUnsupported { account: Box<StoredAccount>, reason: String },
    Switch { from: Option<Box<StoredAccount>>, to: Box<StoredAccount>, reason: String },
}

/// The plan keeps `account` for the given reason.
pub open spec fn keeps(plan: AutoSwitchPlan, account: StoredAccount, reason: Seq<char>) -> bool {
    plan matches AutoSwitchPlan::CurrentKept { account: a, reason: r } && *a == account && r@
        == reason
}

/// The plan moves from `from` to `to` for the given reason.
pub open spec fn switches(
    plan: AutoSwitchPlan,
    from: Option<StoredAccount>,
    to: StoredAccount,
    reason: Seq<char>,
) -> bool {
    plan matches AutoSwitchPlan::Switch { from: f, to: t, reason: r } && *t == to && r@ == reason
        && match (f, from) {
        (Some(x), Some(y)) => *x == y,
        (None, None) => true,
        _ => false,
    }
}

pub struct AccountUsageEvaluation {
    pub account: StoredAccount,
    pub usage: UsageInfo,
    pub decision: UsageDecision,
}

/// What one fetch of an account's usage came to.
pub struct AccountUsageFetch {
    pub index: usize,
    pub account_id: String,
    pub result: Result<UsageInfo, String>,
}

// ---------------------------------------------------------------------------
// Replacements that are switched off
// ---------------------------------------------------------------------------

/// One line for each account, other than the current one, that is disabled.
pub open spec fn disabled_skips(
    accounts: Seq<StoredAccount>,
    current: Option<Seq<char>>,
) -> Seq<Seq<char>>
    decreases accounts.len(),
{
    if accounts.len() == 0 {
        Seq::empty()
    } else {
        let init = disabled_skips(accounts.drop_last(), current);
        let a = accounts.last();
        if Some(a.id@) != current && a.auto_switch_disabled {
            init.push(a.name@ + ": disabled"@)
        } else {
            init
        }
    }
}

fn is_current(id: &str, current_id: Option<&str>) -> (r: bool)
    ensures
        r == (Some(id@) == accounts::str_view(current_id)),
{
    match current_id {
        Some(current) => text::same(id, current),
        None => false,
    }
}

pub fn disabled_replacement_skips(
    accounts: &Vec<StoredAccount>,
    current_id: Option<&str>,
) -> (r: Vec<String>)
    ensures
        text::views(r@) == disabled_skips(accounts@, accounts::str_view(current_id)),
{
    let mut r: Vec<String> = Vec::new();
    let mut i: usize = 0;
    assert(text::views(r@) =~= Seq::<Seq<char>>::empty());
    while i < accounts.len()
        invariant
            i <= accounts@.len(),
            text::views(r@) == disabled_skips(
                accounts@.take(i as int),
                accounts::str_view(current_id),
            ),
        decreases accounts@.len() - i,
    {
        let a = &accounts[i];
        assert(accounts@.take(i as int + 1).drop_last() =~= accounts@.take(i as int));
        if !is_current(a.id.as_str(), current_id) && a.auto_switch_disabled {
            let ghost before = r@;
            let line = text::cat2(a.name.as_str(), ": disabled");
            let ghost shown = line@;
            r.push(line);
            assert(text::views(r@) =~= text::views(before).push(shown));
        }
        i = i + 1;
    }
    assert(accounts@.take(i as int) =~= accounts@);
    r
}

// ---------------------------------------------------------------------------
// Slots: one for each account, filled as usage comes in
// ---------------------------------------------------------------------------

/// What a slot holds.
pub open spec fn slot_view(slot: Option<AccountUsageEvaluation>) -> Option<
    (StoredAccount, UsageInfo),
> {
    match slot {
        Some(e) => Some((e.account, e.usage)),
        None => None,
    }
}

pub open spec fn slots_view(slots: Seq<Option<AccountUsageEvaluation>>) -> Seq<
    Option<(StoredAccount, UsageInfo)>,
> {
    slots.map_values(|slot: Option<AccountUsageEvaluation>| slot_view(slot))
}

/// An evaluation carries the decision that its usage calls for.
pub open spec fn is_judged(e: AccountUsageEvaluation) -> bool {
    e.decision@ == assessment::assessed(e.usage)
}

pub open spec fn slots_judged(slots: Seq<Option<AccountUsageEvaluation>>) -> bool {
    forall|i: int|
        0 <= i < slots.len() && (#[trigger] slots[i]) is Some ==> is_judged(slots[i]->Some_0)
}

pub open spec fn all_judged(evaluations: Seq<AccountUsageEvaluation>) -> bool {
    forall|i: int| 0 <= i < evaluations.len() ==> is_judged(#[trigger] evaluations[i])
}

pub fn empty_evaluation_slots(len: usize) -> (r: Vec<Option<AccountUsageEvaluation>>)
    ensures
        r@.len() == len,
        forall|i: int| 0 <= i < len ==> (#[trigger] r@[i]) is None,
        slots_judged(r@),
{
    let mut r: Vec<Option<AccountUsageEvaluation>> = Vec::new();
    let mut i: usize = 0;
    while i < len
        invariant
            i <= len,
            r@.len() == i,
            forall|k: int| 0 <= k < i ==> (#[trigger] r@[k]) is None,
        decreases len - i,
    {
        r.push(None);
        i = i + 1;
    }
    r
}

// ---------------------------------------------------------------------------
// The current account
// ---------------------------------------------------------------------------

pub enum CurrentUsageOutcome {
    /// The plan is already settled.
    Terminal(AutoSwitchPlan),
    /// Replacements are looked at, too.
    Continue(UsageDecision),
}

pub const INDEX_OUT_OF_RANGE: &'static str = "Current account index is out of range";

/// What the usage of the current account comes to: `before` and `after` are the slots.
pub open spec fn is_current_outcome(
    r: Result<CurrentUsageOutcome, String>,
    account: StoredAccount,
    index: usize,
    info: UsageInfo,
    before: Seq<Option<AccountUsageEvaluation>>,
    after: Seq<Option<AccountUsageEvaluation>>,
) -> bool {
    match assessment::assessed(info) {
        DecisionView::Unsupported(reason) => {
            &&& r matches Ok(CurrentUsageOutcome::Terminal(
                AutoSwitchPlan::CurrentUnsupported { account: a, reason: m },
            ))
            &&& *a == account
            &&& m@ == reason
            &&& after == before
        },
        DecisionView::Error(reason) => {
            &&& r matches Err(m)
            &&& m@ == "Could not evaluate current account "@ + account.name@ + ": "@ + reason
            &&& after == before
        },
        decision => if index < before.len() {
            &&& r matches Ok(CurrentUsageOutcome::Continue(d))
            &&& d@ == decision
            &&& slots_view(after) == slots_view(before).update(index as int, Some((account, info)))
            &&& slots_judged(before) ==> slots_judged(after)
        } else {
            &&& r matches Err(m)
            &&& m@ == INDEX_OUT_OF_RANGE@
            &&& after == before
        },
    }
}

pub fn apply_current_usage_result(
    account: &StoredAccount,
    index: usize,
    info: UsageInfo,
    evaluations: &mut Vec<Option<AccountUsageEvaluation>>,
) -> (r: Result<CurrentUsageOutcome, String>)
    ensures
        is_current_outcome(r, *account, index, info, old(evaluations)@, final(evaluations)@),
{
    let decision = assessment::assess_usage(&info);
    match &decision {
        UsageDecision::Unsupported(reason) => {
            return Ok(
                CurrentUsageOutcome::Terminal(
                    AutoSwitchPlan::CurrentUnsupported {
                        account: Box::new(account.clone()),
                        reason: reason.clone(),
                    },
                ),
            );
        },
        UsageDecision::Error(reason) => {
            return Err(
                text::cat4(
                    "Could not evaluate current account ",
                    account.name.as_str(),
                    ": ",
                    reason.as_str(),
                ),
            );
        },
        _ => {},
    }
    if index >= evaluations.len() {
        return Err(INDEX_OUT_OF_RANGE.to_owned());
    }
    let ghost before = evaluations@;
    let ghost given = info;
    evaluations.set(
        index,
        Some(
            AccountUsageEvaluation {
                account: account.clone(),
                usage: info,
                decision: decision.clone(),
            },
        ),
    );
    assert(slots_view(evaluations@) =~= slots_view(before).update(
        index as int,
        Some((*account, given)),
    ));
    proof {
        if slots_judged(before) {
            assert forall|i: int|
                0 <= i < evaluations@.len() && (#[trigger] evaluations@[i]) is Some implies is_judged(
                evaluations@[i]->Some_0,
            ) by {
                if i != index {
                    assert(evaluations@[i] == before[i]);
                }
            }
        }
    }
    Ok(CurrentUsageOutcome::Continue(decision))
}

pub const DISABLED_BUT_USABLE: &'static str = "current account is disabled for auto-switch; usage is available";

/// A current account that is switched off for selection, but usable, is kept.
pub fn current_disabled_usable_plan(
    account: &StoredAccount,
    decision: &UsageDecision,
) -> (r: Option<AutoSwitchPlan>)
    ensures
        match r {
            Some(plan) => account.auto_switch_disabled && decision@ is Usable && keeps(
                plan,
                *account,
                DISABLED_BUT_USABLE@,
            ),
            None => !(account.auto_switch_disabled && decision@ is Usable),
        },
{
    match decision {
        UsageDecision::Usable(_) => if account.auto_switch_disabled {
            Some(
                AutoSwitchPlan::CurrentKept {
                    account: Box::new(account.clone()),
                    reason: DISABLED_BUT_USABLE.to_owned(),
                },
            )
        } else {
            None
        },
        _ => None,
    }
}

// ---------------------------------------------------------------------------
// Replacements
// ---------------------------------------------------------------------------

/// Slots and reports of what was passed over.
pub struct Gathered {
    pub slots: Seq<Option<(StoredAccount, UsageInfo)>>,
    pub skipped: Seq<Seq<char>>,
}

/// Why an account with this usage is passed over.
pub open spec fn pass_over_reason(info: UsageInfo) -> Option<Seq<char>> {
    match assessment::assessed(info) {
        DecisionView::Usable(_) => None,
        DecisionView::Unavailable(reason) => Some(reason),
        DecisionView::Unsupported(reason) => Some(reason),
        DecisionView::Error(reason) => Some(reason),
    }
}

/// One fetch taken into account.
pub open spec fn gather(
    accounts: Seq<StoredAccount>,
    state: Gathered,
    fetch: AccountUsageFetch,
) -> Gathered {
    if fetch.index >= accounts.len() {
        Gathered {
            skipped: state.skipped.push(fetch.account_id@ + ": account not found"@),
            ..state
        }
    } else {
        let account = accounts[fetch.index as int];
        match fetch.result {
            Err(e) => Gathered {
                skipped: state.skipped.push(account.name@ + ": "@ + e@),
                ..state
            },
            Ok(info) => {
                let skipped = match pass_over_reason(info) {
                    Some(reason) => state.skipped.push(account.name@ + ": "@ + reason),
                    None => state.skipped,
                };
                if fetch.index < state.slots.len() {
                    Gathered {
                        slots: state.slots.update(fetch.index as int, Some((account, info))),
                        skipped,
                    }
                } else {
                    Gathered {
                        slots: state.slots,
                        skipped: skipped.push(account.name@ + ": account not found"@),
                    }
                }
            },
        }
    }
}

/// All fetches, one after the other.
pub open spec fn gather_all(
    accounts: Seq<StoredAccount>,
    state: Gathered,
    fetches: Seq<AccountUsageFetch>,
) -> Gathered
    decreases fetches.len(),
{
    if fetches.len() == 0 {
        state
    } else {
        gather(accounts, gather_all(accounts, state, fetches.drop_last()), fetches.last())
    }
}

fn note_skip(skipped: &mut Vec<String>, name: &str, detail: &str)
    ensures
        text::views(final(skipped)@) == text::views(old(skipped)@).push(name@ + ": "@ + detail@),
{
    let ghost before = skipped@;
    let line = text::cat3(name, ": ", detail);
    let ghost shown = line@;
    skipped.push(line);
    assert(text::views(skipped@) =~= text::views(before).push(shown));
}

fn note_missing(skipped: &mut Vec<String>, name: &str)
    ensures
        text::views(final(skipped)@) == text::views(old(skipped)@).push(
            name@ + ": account not found"@,
        ),
{
    let ghost before = skipped@;
    let line = text::cat2(name, ": account not found");
    let ghost shown = line@;
    skipped.push(line);
    assert(text::views(skipped@) =~= text::views(before).push(shown));
}

fn apply_fetch(
    accounts: &Vec<StoredAccount>,
    fetch: AccountUsageFetch,
    evaluations: &mut Vec<Option<AccountUsageEvaluation>>,
    skipped: &mut Vec<String>,
)
    ensures
        ({
            let state = Gathered {
                slots: slots_view(old(evaluations)@),
                skipped: text::views(old(skipped)@),
            };
            let next = gather(accounts@, state, fetch);
            &&& slots_view(final(evaluations)@) == next.slots
            &&& text::views(final(skipped)@) == next.skipped
        }),
        slots_judged(old(evaluations)@) ==> slots_judged(final(evaluations)@),
{
    if fetch.index >= accounts.len() {
        note_missing(skipped, fetch.account_id.as_str());
        return ;
    }
    let account = &accounts[fetch.index];
    match fetch.result {
        Err(e) => {
            note_skip(skipped, account.name.as_str(), e.as_str());
        },
        Ok(info) => {
            let decision = assessment::assess_usage(&info);
            match &decision {
                UsageDecision::Usable(_) => {},
                UsageDecision::Unavailable(reason) => {
                    note_skip(skipped, account.name.as_str(), reason.as_str());
                },
                UsageDecision::Unsupported(reason) => {
                    note_skip(skipped, account.name.as_str(), reason.as_str());
                },
                UsageDecision::Error(reason) => {
                    note_skip(skipped, account.name.as_str(), reason.as_str());
                },
            }
            if fetch.index < evaluations.len() {
                let ghost before = evaluations@;
                let ghost given = info;
                evaluations.set(
                    fetch.index,
                    Some(AccountUsageEvaluation { account: account.clone(), usage: info, decision }),
                );
                assert(slots_view(evaluations@) =~= slots_view(before).update(
                    fetch.index as int,
                    Some((*account, given)),
                ));
                proof {
                    if slots_judged(before) {
                        assert forall|i: int|
                            0 <= i < evaluations@.len() && (
                            #[trigger] evaluations@[i]) is Some implies is_judged(
                            evaluations@[i]->Some_0,
                        ) by {
                            if i != fetch.index {
                                assert(evaluations@[i] == before[i]);
                            }
                        }
                    }
                }
            } else {
                note_missing(skipped, account.name.as_str());
            }
        },
    }
}

pub fn apply_replacement_usage_results(
    accounts: &Vec<StoredAccount>,
    results: Vec<AccountUsageFetch>,
    evaluations: &mut Vec<Option<AccountUsageEvaluation>>,
    skipped: &mut Vec<String>,
)
    ensures
        ({
            let state = Gathered {
                slots: slots_view(old(evaluations)@),
                skipped: text::views(old(skipped)@),
            };
            let end = gather_all(accounts@, state, results@);
            &&& slots_view(final(evaluations)@) == end.slots
            &&& text::views(final(skipped)@) == end.skipped
        }),
        slots_judged(old(evaluations)@) ==> slots_judged(final(evaluations)@),
{
    let ghost start = Gathered {
        slots: slots_view(evaluations@),
        skipped: text::views(skipped@),
    };
    let ghost judged = slots_judged(evaluations@);
    let ghost all = results@;
    for fetch in it: results
        invariant
            it.seq() == all,
            slots_view(evaluations@) == gather_all(
                accounts@,
                start,
                all.take(it.index() as int),
            ).slots,
            text::views(skipped@) == gather_all(
                accounts@,
                start,
                all.take(it.index() as int),
            ).skipped,
            judged ==> slots_judged(evaluations@),
    {
        let ghost k = it.index() as int;
        assert(all.take(k + 1).drop_last() =~= all.take(k));
        apply_fetch(accounts, fetch, evaluations, skipped);
    }
    assert(all.take(all.len() as int) =~= all);
}

/// The filled slots, in order.
pub open spec fn filled<A>(slots: Seq<Option<A>>) -> Seq<A>
    decreases slots.len(),
{
    if slots.len() == 0 {
        Seq::empty()
    } else {
        match slots.last() {
            Some(e) => filled(slots.drop_last()).push(e),
            None => filled(slots.drop_last()),
        }
    }
}

pub fn ordered_evaluations(
    evaluations: Vec<Option<AccountUsageEvaluation>>,
) -> (r: Vec<AccountUsageEvaluation>)
    ensures
        r@ == filled(evaluations@),
        slots_judged(evaluations@) ==> all_judged(r@),
{
    let ghost all = evaluations@;
    let mut r: Vec<AccountUsageEvaluation> = Vec::new();
    for slot in it: evaluations
        invariant
            it.seq() == all,
            r@ == filled(all.take(it.index() as int)),
            slots_judged(all) ==> all_judged(r@),
    {
        let ghost k = it.index() as int;
        assert(all.take(k + 1).drop_last() =~= all.take(k));
        assert(slot == all[k]);
        if let Some(e) = slot {
            r.push(e);
        }
    }
    assert(all.take(all.len() as int) =~= all);
    r
}

// ---------------------------------------------------------------------------
// The choice
// ---------------------------------------------------------------------------

/// The evaluations that may be chosen: those whose usage is available.
pub open spec fn usable_places(evaluations: Seq<AccountUsageEvaluation>, n: int) -> Seq<int>
    decreases n,
{
    if n <= 0 {
        Seq::empty()
    } else if evaluations[n - 1].decision@ is Usable {
        usable_places(evaluations, n - 1).push(n - 1)
    } else {
        usable_places(evaluations, n - 1)
    }
}

pub open spec fn usable_candidates<'a>(evaluations: Seq<AccountUsageEvaluation>) -> Seq<
    AccountUsageCandidate<'a>,
> {
    usable_places(evaluations, evaluations.len() as int).map_values(
        |i: int|
            AccountUsageCandidate { account: &evaluations[i].account, usage: &evaluations[i].usage },
    )
}

pub open spec fn usable_units(
    evaluations: Seq<AccountUsageEvaluation>,
    weekly_units: Seq<u64>,
) -> Seq<u64> {
    usable_places(evaluations, evaluations.len() as int).map_values(|i: int| weekly_units[i])
}

pub open spec fn default_config() -> SelectionConfig {
    SelectionConfig {
        min_safe_headroom: selector::DEFAULT_MIN_SAFE_HEADROOM,
        weekly_to_five_hour_ratio: selector::DEFAULT_WEEKLY_TO_FIVE_HOUR_RATIO,
        policy: selector::SelectionPolicyKind::DeadlineAware,
    }
}

/// What the default policy makes of the evaluated accounts at a given moment.
pub open spec fn policy_evaluations<'a>(
    evaluations: Seq<AccountUsageEvaluation>,
    weekly_units: Seq<u64>,
) -> Seq<selector::EvaluatedCandidate<'a>> {
    selector::evaluations(
        usable_candidates(evaluations),
        usable_units(evaluations, weekly_units),
        default_config(),
    )
}

/// The account that the default policy chooses among those with usage left.
/// The headroom of the weekly window, in five-hour units, stands for each
/// evaluation at its place.
pub fn select_usable_account_at<'a>(
    evaluations: &'a Vec<AccountUsageEvaluation>,
    weekly_units: &Vec<u64>,
    current_id: Option<&str>,
    now: i64,
) -> (r: Option<AccountSelection<'a>>)
    requires
        weekly_units@.len() == evaluations@.len(),
    ensures
        match r {
            Some(selection) => exists|i: int|
                {
                    &&& 0 <= i < policy_evaluations(evaluations@, weekly_units@).len()
                    &&& #[trigger] selector::is_deadline_choice(
                        policy_evaluations(evaluations@, weekly_units@),
                        accounts::str_view(current_id),
                        now as int,
                        i,
                    )
                    &&& selector::is_selection(
                        selection,
                        policy_evaluations(evaluations@, weekly_units@)[i],
                    )
                },
            None => policy_evaluations(evaluations@, weekly_units@).len() == 0,
        },
{
    let mut candidates: Vec<AccountUsageCandidate<'a>> = Vec::new();
    let mut units: Vec<u64> = Vec::new();
    let mut scores: Vec<Score> = Vec::new();
    let ghost f = |i: int|
        AccountUsageCandidate::<'a> {
            account: &evaluations@[i].account,
            usage: &evaluations@[i].usage,
        };
    let ghost g = |i: int| weekly_units@[i];
    let mut i: usize = 0;
    while i < evaluations.len()
        invariant
            i <= evaluations@.len(),
            weekly_units@.len() == evaluations@.len(),
            f == (|i: int|
                AccountUsageCandidate::<'a> {
                    account: &evaluations@[i].account,
                    usage: &evaluations@[i].usage,
                }),
            g == (|i: int| weekly_units@[i]),
            candidates@ == usable_places(evaluations@, i as int).map_values(f),
            units@ == usable_places(evaluations@, i as int).map_values(g),
            scores@.len() == candidates@.len(),
            units@.len() == candidates@.len(),
        decreases evaluations@.len() - i,
    {
        if let UsageDecision::Usable(_) = &evaluations[i].decision {
            candidates.push(
                AccountUsageCandidate {
                    account: &evaluations[i].account,
                    usage: &evaluations[i].usage,
                },
            );
            units.push(weekly_units[i]);
            scores.push(Score { value: 0, with_margin: 0 });
            assert(usable_places(evaluations@, i as int + 1).map_values(f) =~= usable_places(
                evaluations@,
                i as int,
            ).map_values(f).push(f(i as int)));
            assert(usable_places(evaluations@, i as int + 1).map_values(g) =~= usable_places(
                evaluations@,
                i as int,
            ).map_values(g).push(g(i as int)));
        }
        i = i + 1;
    }
    assert(candidates@ =~= usable_candidates(evaluations@));
    assert(units@ =~= usable_units(evaluations@, weekly_units@));
    let context = SelectionContext::at(now).with_current_account_id(current_id);
    let config = SelectionConfig::default();
    assert(config == default_config());
    let selection = selector::select_account_with_context(
        &candidates,
        &units,
        &scores,
        config,
        context,
    );
    proof {
        if selection is Some {
            let s = selection->Some_0;
            let evaluated = policy_evaluations(evaluations@, weekly_units@);
            let i = choose|i: int|
                {
                    &&& 0 <= i < evaluated.len()
                    &&& #[trigger] selector::is_choice(
                        evaluated,
                        scores@,
                        config.policy,
                        accounts::str_view(context.current_account_id),
                        context.now as int,
                        i,
                    )
                    &&& selector::is_selection(s, evaluated[i])
                };
            assert(selector::is_deadline_choice(
                evaluated,
                accounts::str_view(current_id),
                now as int,
                i,
            ));
        }
    }
    selection
}

/// The choice at this moment.
pub fn select_usable_account_by_policy<'a>(
    evaluations: &'a Vec<AccountUsageEvaluation>,
    weekly_units: &Vec<u64>,
    current_id: Option<&str>,
) -> (r: Option<AccountSelection<'a>>)
    requires
        weekly_units@.len() == evaluations@.len(),
    ensures
        match r {
            Some(selection) => exists|i: int, now: i64|
                {
                    &&& #[trigger] selector::clock_shows(now)
                    &&& 0 <= i < policy_evaluations(evaluations@, weekly_units@).len()
                    &&& #[trigger] selector::is_deadline_choice(
                        policy_evaluations(evaluations@, weekly_units@),
                        accounts::str_view(current_id),
                        now as int,
                        i,
                    )
                    &&& selector::is_selection(
                        selection,
                        policy_evaluations(evaluations@, weekly_units@)[i],
                    )
                },
            None => policy_evaluations(evaluations@, weekly_units@).len() == 0,
        },
{
    let context = SelectionContext::now();
    select_usable_account_at(evaluations, weekly_units, current_id, context.now)
}

// ---------------------------------------------------------------------------
// The plan
// ---------------------------------------------------------------------------

/// The first part of the message for a plan that could not be made.
pub open spec fn failure_reason(decision: Option<DecisionView>) -> Seq<char> {
    match decision {
        Some(DecisionView::Unavailable(reason)) => reason,
        Some(DecisionView::Usable(_)) =>
            "current account is usable, but usage policy found no selectable account"@,
        Some(DecisionView::Unsupported(reason)) => reason,
        Some(DecisionView::Error(reason)) => reason,
        None => "no current account"@,
    }
}

pub open spec fn failure_message(decision: Option<DecisionView>, skipped: Seq<Seq<char>>) -> Seq<
    char,
> {
    if skipped.len() > 0 {
        failure_reason(decision) + "; no usable replacement found ("@ + skipped[0] + ")"@
    } else {
        failure_reason(decision) + "; no replacement account found"@
    }
}

pub open spec fn decision_view(decision: Option<UsageDecision>) -> Option<DecisionView> {
    match decision {
        Some(d) => Some(d@),
        None => None,
    }
}

pub fn no_selectable_account_error(
    current_decision: Option<UsageDecision>,
    skipped: &Vec<String>,
) -> (r: AutoSwitchError)
    ensures
        r.text() == failure_message(decision_view(current_decision), text::views(skipped@)),
        r is NoUsableReplacement <==> (current_decision is Some
            && current_decision->Some_0@ is Unavailable),
{
    let unavailable: bool = match &current_decision {
        Some(UsageDecision::Unavailable(_)) => true,
        _ => false,
    };
    let reason = match current_decision {
        Some(UsageDecision::Unavailable(reason)) => reason,
        Some(UsageDecision::Usable(_)) =>
            "current account is usable, but usage policy found no selectable account".to_owned(),
        Some(UsageDecision::Unsupported(reason)) => reason,
        Some(UsageDecision::Error(reason)) => reason,
        None => "no current account".to_owned(),
    };
    let message = if skipped.len() > 0 {
        assert(text::views(skipped@)[0] == skipped@[0]@);
        text::cat4(
            reason.as_str(),
            "; no usable replacement found (",
            skipped[0].as_str(),
            ")",
        )
    } else {
        text::cat2(reason.as_str(), "; no replacement account found")
    };
    if unavailable {
        AutoSwitchError::NoUsableReplacement(NoUsableReplacement::new(message))
    } else {
        AutoSwitchError::Other(message)
    }
}

/// Why the switch happens, where `headroom` is the shown headroom of the
/// account that was chosen.
pub open spec fn switch_reason(decision: Option<DecisionView>, headroom: Seq<char>) -> Seq<char> {
    match decision {
        Some(DecisionView::Unavailable(reason)) => reason,
        Some(DecisionView::Usable(_)) =>
            "usage policy selected an account with better quota headroom ("@ + headroom
            + " bottleneck score)"@,
        None => "no current account"@,
        Some(DecisionView::Unsupported(reason)) => reason,
        Some(DecisionView::Error(reason)) => reason,
    }
}

pub open spec fn kept_reason(decision: Option<DecisionView>) -> Seq<char> {
    match decision {
        Some(DecisionView::Usable(reason)) => reason,
        _ => "usage policy kept current account"@,
    }
}

/// The plan, once the policy has chosen: keep the current account where it is
/// the one chosen, switch where another is, keep it where none is and it is
/// usable, and fail otherwise.
pub open spec fn concludes(
    r: Result<AutoSwitchPlan, AutoSwitchError>,
    current: Option<StoredAccount>,
    decision: Option<DecisionView>,
    selected: Option<StoredAccount>,
    headroom: Seq<char>,
    skipped: Seq<Seq<char>>,
) -> bool {
    match (selected, current) {
        (Some(s), Some(c)) => if s.id@ == c.id@ {
            r is Ok && keeps(r->Ok_0, s, kept_reason(decision))
        } else {
            r is Ok && switches(r->Ok_0, Some(c), s, switch_reason(decision, headroom))
        },
        (Some(s), None) => r is Ok && switches(
            r->Ok_0,
            None,
            s,
            switch_reason(decision, headroom),
        ),
        (None, c) => match (c, decision) {
            (Some(c), Some(DecisionView::Usable(reason))) => r is Ok && keeps(r->Ok_0, c, reason),
            _ => r is Err && r->Err_0.text() == failure_message(decision, skipped) && (
            r->Err_0 is NoUsableReplacement <==> decision is Some
                && decision->Some_0 is Unavailable),
        },
    }
}

pub open spec fn account_at(account: Option<&StoredAccount>) -> Option<StoredAccount> {
    match account {
        Some(a) => Some(*a),
        None => None,
    }
}

pub fn finish_plan(
    current: Option<&StoredAccount>,
    current_decision: Option<UsageDecision>,
    selected: Option<&StoredAccount>,
    headroom_shown: &str,
    skipped: &Vec<String>,
) -> (r: Result<AutoSwitchPlan, AutoSwitchError>)
    ensures
        concludes(
            r,
            account_at(current),
            decision_view(current_decision),
            account_at(selected),
            headroom_shown@,
            text::views(skipped@),
        ),
{
    match selected {
        Some(s) => {
            let same: bool = match current {
                Some(c) => text::same(s.id.as_str(), c.id.as_str()),
                None => false,
            };
            if same {
                let reason = match current_decision {
                    Some(UsageDecision::Usable(reason)) => reason,
                    _ => "usage policy kept current account".to_owned(),
                };
                return Ok(AutoSwitchPlan::CurrentKept { account: Box::new(s.clone()), reason });
            }
            let reason = match current_decision {
                Some(UsageDecision::Unavailable(reason)) => reason,
                Some(UsageDecision::Usable(_)) => text::cat3(
                    "usage policy selected an account with better quota headroom (",
                    headroom_shown,
                    " bottleneck score)",
                ),
                None => "no current account".to_owned(),
                Some(UsageDecision::Unsupported(reason)) => reason,
                Some(UsageDecision::Error(reason)) => reason,
            };
            let from = match current {
                Some(c) => Some(Box::new(c.clone())),
                None => None,
            };
            Ok(AutoSwitchPlan::Switch { from, to: Box::new(s.clone()), reason })
        },
        None => {
            if let Some(c) = current {
                if let Some(UsageDecision::Usable(reason)) = &current_decision {
                    return Ok(
                        AutoSwitchPlan::CurrentKept {
                            account: Box::new(c.clone()),
                            reason: reason.clone(),
                        },
                    );
                }
            }
            Err(no_selectable_account_error(current_decision, skipped))
        },
    }
}

// ---------------------------------------------------------------------------
// The planner: the steps in order
// ---------------------------------------------------------------------------

pub const NO_ACCOUNTS: &'static str = "No accounts stored.";

/// A plan in the making.
pub struct AutoSwitchPlanner {
    pub accounts: Vec<StoredAccount>,
    /// The account that is current.
    pub current: Option<StoredAccount>,
    /// Where the first account with its id stands.
    pub current_index: Option<usize>,
    pub evaluations: Vec<Option<AccountUsageEvaluation>>,
    pub current_decision: Option<UsageDecision>,
    pub skipped: Vec<String>,
}

pub enum PlannerStep {
    /// The plan is settled.
    Settled(AutoSwitchPlan),
    /// The usage of the replacements is wanted next.
    FetchReplacements,
}

/// What the usage of the current account comes to in a search: `before` and `after` are
/// its states.
pub open spec fn current_settles(
    r: Result<PlannerStep, AutoSwitchError>,
    before: AutoSwitchPlanner,
    after: AutoSwitchPlanner,
    fetched: Result<UsageInfo, String>,
) -> bool {
    let index = before.current_index->Some_0 as int;
    let account = before.accounts@[index];
    match fetched {
        Err(e) => after == before && r is Err && r->Err_0 is Other && r->Err_0.text()
            == "Failed to get usage for "@ + account.name@ + ": "@ + e@,
        Ok(info) => match assessment::assessed(info) {
            DecisionView::Unsupported(reason) => {
                &&& after.evaluations@ == before.evaluations@
                &&& after.current_decision == before.current_decision
                &&& r matches Ok(PlannerStep::Settled(
                    AutoSwitchPlan::CurrentUnsupported { account: a, reason: m },
                ))
                &&& *a == account
                &&& m@ == reason
            },
            DecisionView::Error(reason) => {
                &&& after.evaluations@ == before.evaluations@
                &&& after.current_decision == before.current_decision
                &&& r is Err && r->Err_0 is Other
                &&& r->Err_0.text() == "Could not evaluate current account "@ + account.name@
                    + ": "@ + reason
            },
            decision => {
                &&& slots_view(after.evaluations@) == slots_view(before.evaluations@).update(
                    index,
                    Some((account, info)),
                )
                &&& if account.auto_switch_disabled && decision is Usable {
                    &&& after.current_decision == before.current_decision
                    &&& r matches Ok(PlannerStep::Settled(plan))
                    &&& keeps(plan, account, DISABLED_BUT_USABLE@)
                } else {
                    &&& r matches Ok(PlannerStep::FetchReplacements)
                    &&& after.current_decision is Some
                    &&& after.current_decision->Some_0@ == decision
                }
            },
        },
    }
}

impl AutoSwitchPlanner {
    pub open spec fn wf(self) -> bool {
        &&& self.accounts@.len() > 0
        &&& self.evaluations@.len() == self.accounts@.len()
        &&& slots_judged(self.evaluations@)
        &&& self.current_index matches Some(i) ==> i < self.accounts@.len()
    }

    /// Starts a plan. The usage of the account at `current_index` is wanted next.
    pub fn start(accounts: Vec<StoredAccount>, current: Option<StoredAccount>) -> (r: Result<
        Self,
        AutoSwitchError,
    >)
        ensures
            match r {
                Ok(p) => {
                    &&& accounts@.len() > 0
                    &&& p.wf()
                    &&& p.accounts == accounts
                    &&& p.current == current
                    &&& p.current_decision is None
                    &&& text::views(p.skipped@) == disabled_skips(accounts@, p.current_name())
                    &&& forall|i: int|
                        0 <= i < accounts@.len() ==> (#[trigger] p.evaluations@[i]) is None
                    &&& match (p.current_index, current) {
                        (Some(i), Some(c)) => search::first_index(
                            accounts@,
                            accounts::has_id(c.id@),
                        ) == Some(i as int),
                        (None, Some(c)) => search::first_index(
                            accounts@,
                            accounts::has_id(c.id@),
                        ) is None,
                        (None, None) => true,
                        (Some(_), None) => false,
                    }
                },
                Err(e) => accounts@.len() == 0 && e is Other && e.text() == NO_ACCOUNTS@,
            },
    {
        if accounts.len() == 0 {
            return Err(AutoSwitchError::Other(NO_ACCOUNTS.to_owned()));
        }
        let current_id: Option<&str> = match &current {
            Some(c) => Some(c.id.as_str()),
            None => None,
        };
        let current_index: Option<usize> = match current_id {
            Some(id) => accounts::position_of_id(&accounts, id),
            None => None,
        };
        let skipped = disabled_replacement_skips(&accounts, current_id);
        let evaluations = empty_evaluation_slots(accounts.len());
        Ok(
            AutoSwitchPlanner {
                accounts,
                current,
                current_index,
                evaluations,
                current_decision: None,
                skipped,
            },
        )
    }

    /// Takes the usage of the current account into account.
    pub fn current_usage(&mut self, fetched: Result<UsageInfo, String>) -> (r: Result<
        PlannerStep,
        AutoSwitchError,
    >)
        requires
            old(self).wf(),
            old(self).current_index is Some,
        ensures
            final(self).wf(),
            final(self).accounts == old(self).accounts,
            final(self).current == old(self).current,
            final(self).current_index == old(self).current_index,
            final(self).skipped == old(self).skipped,
            current_settles(r, *old(self), *final(self), fetched),
    {
        let index: usize = match self.current_index {
            Some(i) => i,
            None => 0,
        };
        let account = self.accounts[index].clone();
        let info = match fetched {
            Ok(info) => info,
            Err(e) => {
                return Err(
                    AutoSwitchError::Other(
                        text::cat4(
                            "Failed to get usage for ",
                            account.name.as_str(),
                            ": ",
                            e.as_str(),
                        ),
                    ),
                );
            },
        };
        let ghost before = self.evaluations@;
        match apply_current_usage_result(&account, index, info, &mut self.evaluations) {
            Err(message) => {
                assert(self.evaluations@ == before);
                Err(AutoSwitchError::Other(message))
            },
            Ok(CurrentUsageOutcome::Terminal(plan)) => {
                assert(self.evaluations@ == before);
                Ok(PlannerStep::Settled(plan))
            },
            Ok(CurrentUsageOutcome::Continue(decision)) => {
                assert(slots_view(self.evaluations@).len() == self.evaluations@.len());
                assert(slots_view(before).len() == before.len());
                match current_disabled_usable_plan(&account, &decision) {
                    Some(plan) => Ok(PlannerStep::Settled(plan)),
                    None => {
                        self.current_decision = Some(decision);
                        Ok(PlannerStep::FetchReplacements)
                    },
                }
            },
        }
    }

    /// Takes the usage of the replacements into account.
    pub fn replacement_usage(&mut self, results: Vec<AccountUsageFetch>)
        requires
            old(self).wf(),
        ensures
            final(self).wf(),
            final(self).accounts == old(self).accounts,
            final(self).current == old(self).current,
            final(self).current_index == old(self).current_index,
            final(self).current_decision == old(self).current_decision,
            ({
                let end = gather_all(
                    old(self).accounts@,
                    Gathered {
                        slots: slots_view(old(self).evaluations@),
                        skipped: text::views(old(self).skipped@),
                    },
                    results@,
                );
                &&& slots_view(final(self).evaluations@) == end.slots
                &&& text::views(final(self).skipped@) == end.skipped
            }),
    {
        let ghost start = Gathered {
            slots: slots_view(self.evaluations@),
            skipped: text::views(self.skipped@),
        };
        let ghost fetched = results@;
        apply_replacement_usage_results(
            &self.accounts,
            results,
            &mut self.evaluations,
            &mut self.skipped,
        );
        proof {
            gathering_keeps_slot_count(self.accounts@, start, fetched);
            assert(slots_view(self.evaluations@).len() == self.evaluations@.len());
        }
    }

    /// Draws up the plan: the policy chooses among the accounts that were looked
    /// at. `weekly_units` says for each of them, in order, what its weekly window
    /// has left in five-hour units, and `shown` how a headroom is shown.
    pub fn finish_at(
        self,
        weekly_units: &Vec<u64>,
        shown: &Vec<(u64, String)>,
        now: i64,
    ) -> (r: Result<AutoSwitchPlan, AutoSwitchError>)
        requires
            self.wf(),
            weekly_units@.len() == filled(self.evaluations@).len(),
        ensures
            planned(r, self, weekly_units@, shown@, now as int),
    {
        let ghost planner = self;
        let AutoSwitchPlanner { current, evaluations, current_decision, skipped, .. } = self;
        let current = current.as_ref();
        let current_id: Option<&str> = match current {
            Some(c) => Some(c.id.as_str()),
            None => None,
        };
        let ordered = ordered_evaluations(evaluations);
        match select_usable_account_at(&ordered, weekly_units, current_id, now) {
            Some(selection) => {
                let headroom = find_shown(shown, selection.metrics.bottleneck_headroom);
                proof {
                    let i = choose|i: int|
                        {
                            &&& 0 <= i < policy_evaluations(ordered@, weekly_units@).len()
                            &&& #[trigger] selector::is_deadline_choice(
                                policy_evaluations(ordered@, weekly_units@),
                                accounts::str_view(current_id),
                                now as int,
                                i,
                            )
                            &&& selector::is_selection(
                                selection,
                                policy_evaluations(ordered@, weekly_units@)[i],
                            )
                        };
                    assert(selector::is_deadline_choice(
                        planner.choices(weekly_units@),
                        planner.current_name(),
                        now as int,
                        i,
                    ));
                }
                finish_plan(
                    current,
                    current_decision,
                    Some(selection.account),
                    headroom.as_str(),
                    &skipped,
                )
            },
            None => finish_plan(current, current_decision, None, "", &skipped),
        }
    }

    /// The plan at this moment.
    pub fn finish(self, weekly_units: &Vec<u64>, shown: &Vec<(u64, String)>) -> (r: Result<
        AutoSwitchPlan,
        AutoSwitchError,
    >)
        requires
            self.wf(),
            weekly_units@.len() == filled(self.evaluations@).len(),
        ensures
            exists|now: i64| #[trigger]
                selector::clock_shows(now) && planned(
                    r,
                    self,
                    weekly_units@,
                    shown@,
                    now as int,
                ),
    {
        let context = SelectionContext::now();
        self.finish_at(weekly_units, shown, context.now)
    }

    /// The accounts that were looked at, as the policy sees them.
    pub open spec fn choices<'a>(self, weekly_units: Seq<u64>) -> Seq<
        selector::EvaluatedCandidate<'a>,
    > {
        policy_evaluations(filled(self.evaluations@), weekly_units)
    }

    /// The id of the current account.
    pub open spec fn current_name(self) -> Option<Seq<char>> {
        match self.current {
            Some(c) => Some(c.id@),
            None => None,
        }
    }
}

/// The plan follows from the one account that the policy chooses, or from there
/// being none to choose.
pub open spec fn planned(
    r: Result<AutoSwitchPlan, AutoSwitchError>,
    planner: AutoSwitchPlanner,
    weekly_units: Seq<u64>,
    shown: Seq<(u64, String)>,
    now: int,
) -> bool {
    let choices = planner.choices(weekly_units);
    let decision = decision_view(planner.current_decision);
    let skipped = text::views(planner.skipped@);
    if choices.len() == 0 {
        concludes(r, planner.current, decision, None, Seq::empty(), skipped)
    } else {
        exists|i: int|
            0 <= i < choices.len() && #[trigger] selector::is_deadline_choice(
                choices,
                planner.current_name(),
                now,
                i,
            ) && concludes(
                r,
                planner.current,
                decision,
                Some(*choices[i].account),
                shown_headroom(shown, choices[i].metrics.bottleneck_headroom),
                skipped,
            )
    }
}

pub open spec fn has_bits(bits: u64) -> spec_fn((u64, String)) -> bool {
    |entry: (u64, String)| entry.0 == bits
}

/// How a headroom is shown, by its bit pattern.
pub open spec fn shown_headroom(shown: Seq<(u64, String)>, bits: u64) -> Seq<char> {
    match search::first_of(shown, has_bits(bits)) {
        Some(entry) => entry.1@,
        None => Seq::empty(),
    }
}

fn find_shown(shown: &Vec<(u64, String)>, bits: u64) -> (r: String)
    ensures
        r@ == shown_headroom(shown@, bits),
{
    let mut i: usize = 0;
    while i < shown.len()
        invariant
            i <= shown@.len(),
            forall|j: int| 0 <= j < i ==> !has_bits(bits)(#[trigger] shown@[j]),
        decreases shown@.len() - i,
    {
        if shown[i].0 == bits {
            proof {
                search::first_index_unique(shown@, has_bits(bits), i as int);
            }
            return shown[i].1.clone();
        }
        i = i + 1;
    }
    proof {
        search::first_index_absent(shown@, has_bits(bits));
    }
    String::new()
}

proof fn gathering_keeps_slot_count(
    accounts: Seq<StoredAccount>,
    state: Gathered,
    fetches: Seq<AccountUsageFetch>,
)
    ensures
        gather_all(accounts, state, fetches).slots.len() == state.slots.len(),
    decreases fetches.len(),
{
    if fetches.len() > 0 {
        gathering_keeps_slot_count(accounts, state, fetches.drop_last());
    }
}

// ---------------------------------------------------------------------------
// Committing
// ---------------------------------------------------------------------------

pub enum CommitStep {
    /// Nothing has to be done.
    Done(AutoSwitchResult),
    /// The account with this id has to be made current; `checked` says that
    /// running Codex processes stand in the way.
    SwitchTo {
        id: String,
        checked: bool,
        from: Option<Box<StoredAccount>>,
        reason: String,
    },
}

pub fn commit_auto_switch_plan(plan: AutoSwitchPlan, allow_running: bool) -> (r: CommitStep)
    ensures
        match plan {
            AutoSwitchPlan::CurrentKept { account, reason } => r == CommitStep::Done(
                AutoSwitchResult::CurrentKept { account, reason },
            ),
            AutoSwitchPlan::CurrentUnsupported { account, reason } => r == CommitStep::Done(
                AutoSwitchResult::CurrentUnsupported { account, reason },
            ),
            AutoSwitchPlan::Switch { from, to, reason } => r == (CommitStep::SwitchTo {
                id: to.id,
                checked: !allow_running,
                from,
                reason,
            }),
        },
{
    match plan {
        AutoSwitchPlan::CurrentKept { account, reason } => CommitStep::Done(
            AutoSwitchResult::CurrentKept { account, reason },
        ),
        AutoSwitchPlan::CurrentUnsupported { account, reason } => CommitStep::Done(
            AutoSwitchResult::CurrentUnsupported { account, reason },
        ),
        AutoSwitchPlan::Switch { from, to, reason } => CommitStep::SwitchTo {
            id: to.id.clone(),
            checked: !allow_running,
            from,
            reason,
        },
    }
}

/// The result, once the account has been made current.
pub fn switched(from: Option<Box<StoredAccount>>, to: StoredAccount, reason: String) -> (r:
    AutoSwitchResult)
    ensures
        r == (AutoSwitchResult::Switched { from, to: Box::new(to), reason }),
{
    AutoSwitchResult::Switched { from, to: Box::new(to), reason }
}

// ---------------------------------------------------------------------------
// Laws
// ---------------------------------------------------------------------------

/// A plan never moves to the account that is already current.
pub proof fn a_switch_changes_the_account(
    plan: AutoSwitchPlan,
    current: Option<StoredAccount>,
    selected: StoredAccount,
    reason: Seq<char>,
)
    requires
        current matches Some(c) ==> selected.id@ != c.id@,
        switches(plan, current, selected, reason),
    ensures
        plan matches AutoSwitchPlan::Switch { from, to, .. } && (from matches Some(f) ==> f.id@
            != to.id@),
{
}

/// What is chosen among the evaluated accounts is one whose usage is available,
/// that is enabled, and that is logged in with ChatGPT.
pub proof fn choice_is_usable(
    evaluations: Seq<AccountUsageEvaluation>,
    weekly_units: Seq<u64>,
    i: int,
)
    requires
        evaluations.len() <= usize::MAX,
        weekly_units.len() == evaluations.len(),
        0 <= i < policy_evaluations(evaluations, weekly_units).len(),
    ensures
        exists|k: int|
            {
                &&& 0 <= k < evaluations.len()
                &&& (#[trigger] evaluations[k]).decision@ is Usable
                &&& evaluations[k].account == *policy_evaluations(
                    evaluations,
                    weekly_units,
                )[i].account
                &&& !evaluations[k].account.auto_switch_disabled
                &&& evaluations[k].account.is_chatgpt()
            },
{
    let candidates = usable_candidates(evaluations);
    usable_places_are_usable(evaluations, evaluations.len() as int);
    selector::chosen_account_is_eligible(
        candidates,
        usable_units(evaluations, weekly_units),
        default_config(),
        i,
    );
    let c = choose|k: int|
        0 <= k < candidates.len() && #[trigger] selector::eligible_at(candidates, k)
            && policy_evaluations(evaluations, weekly_units)[i].account == candidates[k].account;
    let place = usable_places(evaluations, evaluations.len() as int)[c];
    assert(evaluations[place].decision@ is Usable);
}

proof fn filled_is_no_longer(slots: Seq<Option<AccountUsageEvaluation>>)
    ensures
        filled(slots).len() <= slots.len(),
    decreases slots.len(),
{
    if slots.len() > 0 {
        filled_is_no_longer(slots.drop_last());
    }
}

/// A plan that switches goes to an account that was looked at, whose usage is
/// available, that is enabled, that is logged in with ChatGPT, and that is not the
/// current one.
pub proof fn switches_go_to_usable_accounts(
    r: Result<AutoSwitchPlan, AutoSwitchError>,
    planner: AutoSwitchPlanner,
    weekly_units: Seq<u64>,
    shown: Seq<(u64, String)>,
    now: int,
)
    requires
        planner.wf(),
        weekly_units.len() == filled(planner.evaluations@).len(),
        planned(r, planner, weekly_units, shown, now),
        r matches Ok(plan) && plan is Switch,
    ensures
        r matches Ok(AutoSwitchPlan::Switch { from, to, .. }) && {
            &&& planner.current_name() != Some(to.id@)
            &&& exists|k: int|
                {
                    &&& 0 <= k < filled(planner.evaluations@).len()
                    &&& (#[trigger] filled(planner.evaluations@)[k]).account == *to
                    &&& filled(planner.evaluations@)[k].decision@ is Usable
                    &&& !to.auto_switch_disabled
                    &&& to.is_chatgpt()
                }
        },
{
    let looked_at = filled(planner.evaluations@);
    let choices = planner.choices(weekly_units);
    filled_is_no_longer(planner.evaluations@);
    assert(planner.evaluations@.len() == planner.evaluations.len());
    if choices.len() > 0 {
        let i = choose|i: int|
            0 <= i < choices.len() && #[trigger] selector::is_deadline_choice(
                choices,
                planner.current_name(),
                now,
                i,
            ) && concludes(
                r,
                planner.current,
                decision_view(planner.current_decision),
                Some(*choices[i].account),
                shown_headroom(shown, choices[i].metrics.bottleneck_headroom),
                text::views(planner.skipped@),
            );
        choice_is_usable(looked_at, weekly_units, i);
    }
}

proof fn usable_places_are_usable(evaluations: Seq<AccountUsageEvaluation>, n: int)
    requires
        0 <= n <= evaluations.len(),
    ensures
        usable_places(evaluations, n).len() <= n,
        forall|k: int|
            #![trigger usable_places(evaluations, n)[k]]
            0 <= k < usable_places(evaluations, n).len() ==> {
                let p = usable_places(evaluations, n)[k];
                0 <= p < n && evaluations[p].decision@ is Usable
            },
    decreases n,
{
    if n > 0 {
        usable_places_are_usable(evaluations, n - 1);
        let init = usable_places(evaluations, n - 1);
        let all = usable_places(evaluations, n);
        assert forall|k: int| #![trigger all[k]] 0 <= k < all.len() implies 0 <= all[k] < n
            && evaluations[all[k]].decision@ is Usable by {
            if k < init.len() {
                assert(all[k] == init[k]);
            }
        }
    }
}

/// A fetch that brings usage fills the account's own slot and no other; one
/// that fails fills none, and leaves a line instead.
pub proof fn gathering_touches_one_slot(
    accounts: Seq<StoredAccount>,
    state: Gathered,
    fetch: AccountUsageFetch,
    other: int,
)
    requires
        0 <= other < state.slots.len(),
        other != fetch.index,
    ensures
        gather(accounts, state, fetch).slots[other] == state.slots[other],
        fetch.result is Err ==> gather(accounts, state, fetch).slots == state.slots && gather(
            accounts,
            state,
            fetch,
        ).skipped.len() == state.skipped.len() + 1,
{
}

/// What a plan does with the account that was chosen: the current one is kept where
/// it is the one, any other is switched to, from the current one where there is
/// one. Where none was chosen, a usable current account is kept, and everything
/// else is a failure.
pub proof fn plans_follow_the_choice(
    r: Result<AutoSwitchPlan, AutoSwitchError>,
    current: Option<StoredAccount>,
    decision: Option<DecisionView>,
    selected: Option<StoredAccount>,
    headroom: Seq<char>,
    skipped: Seq<Seq<char>>,
)
    requires
        concludes(r, current, decision, selected, headroom, skipped),
    ensures
        selected is Some && current is Some && selected->Some_0.id@ == current->Some_0.id@ ==> (
        r matches Ok(AutoSwitchPlan::CurrentKept { account, .. }) && *account == selected->Some_0),
        selected is Some && current is Some && selected->Some_0.id@ != current->Some_0.id@ ==> (
        r matches Ok(AutoSwitchPlan::Switch { from: Some(from), to, .. }) && *from
            == current->Some_0 && *to == selected->Some_0),
        selected is Some && current is None ==> (r matches Ok(
            AutoSwitchPlan::Switch { from: None, to, .. },
        ) && *to == selected->Some_0),
        selected is None && current is Some && decision is Some && decision->Some_0 is Usable ==> (
        r matches Ok(AutoSwitchPlan::CurrentKept { account, .. }) && *account == current->Some_0),
        selected is None && !(current is Some && decision is Some && decision->Some_0 is Usable)
            ==> r is Err,
        r is Err ==> (r->Err_0 is NoUsableReplacement <==> decision is Some
            && decision->Some_0 is Unavailable),
        r is Err && skipped.len() > 0 ==> text::has_text(r->Err_0.text(), skipped[0]),
{
    if r is Err && skipped.len() > 0 {
        let head = failure_reason(decision) + "; no usable replacement found ("@;
        let whole = r->Err_0.text();
        assert(whole.subrange(head.len() as int, head.len() + skipped[0].len() as int)
            =~= skipped[0]);
        assert(text::occurs_at(whole, skipped[0], head.len() as int));
    }
}

/// A switch away from an account that cannot be used tells why it cannot.
pub proof fn switches_tell_why(
    r: Result<AutoSwitchPlan, AutoSwitchError>,
    current: Option<StoredAccount>,
    why: Seq<char>,
    selected: StoredAccount,
    headroom: Seq<char>,
    skipped: Seq<Seq<char>>,
)
    requires
        concludes(
            r,
            current,
            Some(DecisionView::Unavailable(why)),
            Some(selected),
            headroom,
            skipped,
        ),
    ensures
        r matches Ok(AutoSwitchPlan::Switch { reason, .. }) ==> reason@ == why,
{
}

/// Once the current account has had its share of the five-hour window, a plan goes
/// on to an account that is untouched, where there is one: the window began one
/// length before its reset, and its length is divided among the accounts.
pub proof fn untouched_accounts_are_started(
    r: Result<AutoSwitchPlan, AutoSwitchError>,
    planner: AutoSwitchPlanner,
    weekly_units: Seq<u64>,
    shown: Seq<(u64, String)>,
    now: int,
    k: int,
    j: int,
)
    requires
        planned(r, planner, weekly_units, shown, now),
        ({
            let choices = planner.choices(weekly_units);
            &&& 0 <= k < choices.len()
            &&& 0 <= j < choices.len()
            &&& planner.current_name() == Some(choices[k].account.id@)
            &&& forall|i: int|
                0 <= i < choices.len() && (#[trigger] choices[i]).account.id@
                    == choices[k].account.id@ ==> i == k
            &&& !choices[k].is_zero_usage
            &&& choices[j].is_zero_usage
            &&& choices[k].five_hour matches Some(w) && w.resets_at is Some
                && w.window_minutes is Some && {
                let length = w.window_minutes->Some_0 * 60;
                let began = w.resets_at->Some_0 - length;
                (now - began + 1) * choices.len() > length
            }
        }),
    ensures
        r matches Ok(AutoSwitchPlan::Switch { to, .. }) && exists|i: int|
            0 <= i < planner.choices(weekly_units).len() && (#[trigger] planner.choices(
                weekly_units,
            )[i]).is_zero_usage && *planner.choices(weekly_units)[i].account == *to,
{
    let choices = planner.choices(weekly_units);
    let id = choices[k].account.id@;
    selector::untouched_accounts_wait_for_their_share(choices, id, now, k);
    let i = choose|i: int|
        0 <= i < choices.len() && #[trigger] selector::is_deadline_choice(
            choices,
            planner.current_name(),
            now,
            i,
        ) && concludes(
            r,
            planner.current,
            decision_view(planner.current_decision),
            Some(*choices[i].account),
            shown_headroom(shown, choices[i].metrics.bottleneck_headroom),
            text::views(planner.skipped@),
        );
    selector::the_deadline_aware_choice(choices, planner.current_name(), now, i, j);
    assert(choices[i].is_zero_usage);
    assert(i != k);
}

/// While the current account is within its share of the five-hour window, it is not
/// left for one that is untouched where it is safe and every safe account in use
/// resets no earlier.
pub proof fn the_share_is_used(
    r: Result<AutoSwitchPlan, AutoSwitchError>,
    planner: AutoSwitchPlanner,
    weekly_units: Seq<u64>,
    shown: Seq<(u64, String)>,
    now: int,
    k: int,
)
    requires
        planned(r, planner, weekly_units, shown, now),
        ({
            let choices = planner.choices(weekly_units);
            &&& 0 <= k < choices.len()
            &&& planner.current_name() == Some(choices[k].account.id@)
            &&& forall|i: int|
                0 <= i < choices.len() && (#[trigger] choices[i]).account.id@
                    == choices[k].account.id@ ==> i == k
            &&& !choices[k].is_zero_usage
            &&& choices[k].metrics.safe_for_reset_priority
            &&& forall|i: int|
                0 <= i < choices.len() && i != k ==> selector::resets_before(
                    choices[k].metrics.bottleneck_resets_at,
                    (#[trigger] choices[i]).metrics.bottleneck_resets_at,
                ) || !choices[i].metrics.safe_for_reset_priority
            &&& choices[k].five_hour matches Some(w) && w.resets_at is Some
                && w.window_minutes is Some && {
                let length = w.window_minutes->Some_0 * 60;
                let began = w.resets_at->Some_0 - length;
                (now - began + 1) * choices.len() <= length
            }
        }),
    ensures
        r matches Ok(AutoSwitchPlan::CurrentKept { account, .. }) && *account == *planner.choices(
            weekly_units,
        )[k].account,
{
    let choices = planner.choices(weekly_units);
    let id = choices[k].account.id@;
    selector::untouched_accounts_wait_for_their_share(choices, id, now, k);
    let i = choose|i: int|
        0 <= i < choices.len() && #[trigger] selector::is_deadline_choice(
            choices,
            planner.current_name(),
            now,
            i,
        ) && concludes(
            r,
            planner.current,
            decision_view(planner.current_decision),
            Some(*choices[i].account),
            shown_headroom(shown, choices[i].metrics.bottleneck_headroom),
            text::views(planner.skipped@),
        );
    selector::the_deadline_aware_choice(choices, planner.current_name(), now, i, k);
    assert(i == k);
}

/// A plan that is made now is the one for what the clock shows.
pub proof fn plans_are_made_for_the_moment(
    planner: AutoSwitchPlanner,
    weekly_units: Vec<u64>,
    shown: Vec<(u64, String)>,
    r: Result<AutoSwitchPlan, AutoSwitchError>,
)
    requires
        call_ensures(AutoSwitchPlanner::finish, (planner, &weekly_units, &shown), r),
    ensures
        exists|now: i64| #[trigger]
            selector::clock_shows(now) && planned(
                r,
                planner,
                weekly_units@,
                shown@,
                now as int,
            ),
{
}

/// Usage that was fetched stands in the slot of the account that it was fetched for,
/// and a line tells of it exactly where that account cannot be used.
pub proof fn fetched_usage_goes_to_its_account(
    accounts: Seq<StoredAccount>,
    state: Gathered,
    fetch: AccountUsageFetch,
)
    requires
        fetch.index < accounts.len(),
        fetch.index < state.slots.len(),
        fetch.result is Ok,
    ensures
        ({
            let next = gather(accounts, state, fetch);
            let info = fetch.result->Ok_0;
            &&& next.slots[fetch.index as int] == Some((accounts[fetch.index as int], info))
            &&& next.slots.len() == state.slots.len()
            &&& assessment::assessed(info) is Usable ==> next.skipped == state.skipped
            &&& !(assessment::assessed(info) is Usable) ==> next.skipped.len() == state.skipped.len()
                + 1 && text::begins_with(
                next.skipped.last(),
                accounts[fetch.index as int].name@,
            )
        }),
{
    let info = fetch.result->Ok_0;
    let name = accounts[fetch.index as int].name@;
    if !(assessment::assessed(info) is Usable) {
        let line = name + ": "@ + pass_over_reason(info)->Some_0;
        assert(line.subrange(0, name.len() as int) =~= name);
        assert(gather(accounts, state, fetch).skipped.last() == line);
    }
}

/// Every account that is switched off, but for the current one, is told of by name.
pub proof fn disabled_accounts_are_told(
    accounts: Seq<StoredAccount>,
    current: Option<Seq<char>>,
    i: int,
)
    requires
        0 <= i < accounts.len(),
    ensures
        accounts[i].auto_switch_disabled && Some(accounts[i].id@) != current ==> disabled_skips(
            accounts,
            current,
        ).contains(accounts[i].name@ + ": disabled"@),
        (forall|j: int|
            0 <= j < accounts.len() ==> !(#[trigger] accounts[j]).auto_switch_disabled || Some(
                accounts[j].id@,
            ) == current) ==> disabled_skips(accounts, current).len() == 0,
    decreases accounts.len(),
{
    let init = accounts.drop_last();
    let all = disabled_skips(accounts, current);
    let before = disabled_skips(init, current);
    if i < init.len() {
        disabled_accounts_are_told(init, current, i);
        assert(init[i] == accounts[i]);
        if before.contains(accounts[i].name@ + ": disabled"@) {
            let k = choose|k: int|
                0 <= k < before.len() && before[k] == accounts[i].name@ + ": disabled"@;
            assert(all[k] == before[k]);
        }
        if forall|j: int|
            0 <= j < accounts.len() ==> !(#[trigger] accounts[j]).auto_switch_disabled || Some(
                accounts[j].id@,
            ) == current {
            assert forall|j: int| 0 <= j < init.len() implies !(
            #[trigger] init[j]).auto_switch_disabled || Some(init[j].id@) == current by {
                assert(init[j] == accounts[j]);
            }
            assert(!accounts[accounts.len() - 1].auto_switch_disabled || Some(
                accounts[accounts.len() - 1].id@,
            ) == current);
        }
    } else {
        if accounts[i].auto_switch_disabled && Some(accounts[i].id@) != current {
            assert(all[all.len() - 1] == accounts[i].name@ + ": disabled"@);
        }
        if init.len() > 0 {
            disabled_accounts_are_told(init, current, 0);
            if forall|j: int|
                0 <= j < accounts.len() ==> !(#[trigger] accounts[j]).auto_switch_disabled || Some(
                    accounts[j].id@,
                ) == current {
                assert forall|j: int| 0 <= j < init.len() implies !(
                #[trigger] init[j]).auto_switch_disabled || Some(init[j].id@) == current by {
                    assert(init[j] == accounts[j]);
                }
            }
        }
    }
}

/// What was looked at is what the filled slots hold, all of it and nothing else.
pub proof fn filled_slots_are_looked_at<A>(slots: Seq<Option<A>>, e: A)
    ensures
        filled(slots).contains(e) <==> slots.contains(Some(e)),
    decreases slots.len(),
{
    if slots.len() > 0 {
        let init = slots.drop_last();
        filled_slots_are_looked_at(init, e);
        assert(slots =~= init.push(slots.last()));
        if slots.contains(Some(e)) {
            let k = choose|k: int| 0 <= k < slots.len() && slots[k] == Some(e);
            if k < init.len() {
                assert(init[k] == Some(e));
            }
        }
        if init.contains(Some(e)) {
            let k = choose|k: int| 0 <= k < init.len() && init[k] == Some(e);
            assert(slots[k] == Some(e));
        }
        let before = filled(init);
        let all = filled(slots);
        if slots.last() is Some {
            assert(all =~= before.push(slots.last()->Some_0));
            if before.contains(e) {
                let k = choose|k: int| 0 <= k < before.len() && before[k] == e;
                assert(all[k] == e);
            }
            if all.contains(e) {
                let k = choose|k: int| 0 <= k < all.len() && all[k] == e;
                if k < before.len() {
                    assert(before[k] == e);
                }
            }
            assert(all[all.len() - 1] == slots.last()->Some_0);
            assert(slots[slots.len() - 1] == slots.last());
        }
    }
}

/// A plan that keeps an account asks for nothing; one that switches asks for the
/// account that it goes to, and for a look at running processes unless they are
/// allowed.
pub proof fn plans_are_carried_out(plan: AutoSwitchPlan, allow_running: bool, r: CommitStep)
    requires
        call_ensures(commit_auto_switch_plan, (plan, allow_running), r),
    ensures
        match plan {
            AutoSwitchPlan::CurrentKept { account, .. } => r matches CommitStep::Done(
                AutoSwitchResult::CurrentKept { account: a, .. },
            ) && a == account,
            AutoSwitchPlan::CurrentUnsupported { account, .. } => r matches CommitStep::Done(
                AutoSwitchResult::CurrentUnsupported { account: a, .. },
            ) && a == account,
            AutoSwitchPlan::Switch { from, to, reason } => r matches CommitStep::SwitchTo {
                id,
                checked,
                from: f,
                reason: why,
            } && id == to.id && checked != allow_running && f == from && why == reason,
        },
{
}

/// A search begins with every account unlooked at, and with the place of the current
/// one among them.
pub proof fn searches_begin_unlooked_at(
    accounts: Vec<StoredAccount>,
    current: Option<StoredAccount>,
    r: Result<AutoSwitchPlanner, AutoSwitchError>,
    i: int,
)
    requires
        call_ensures(AutoSwitchPlanner::start, (accounts, current), r),
    ensures
        r is Ok <==> accounts@.len() > 0,
        r matches Ok(p) ==> {
            &&& p.accounts@ == accounts@
            &&& p.current == current
            &&& p.current_decision is None
            &&& 0 <= i < accounts@.len() ==> p.evaluations@[i] is None
            &&& p.current_index is Some ==> current is Some && accounts@[p.current_index->Some_0 as int].id@
                == current->Some_0.id@
            &&& current is None ==> p.current_index is None
            &&& current is Some && p.current_index is None && 0 <= i < accounts@.len()
                ==> accounts@[i].id@ != current->Some_0.id@
        },
{
    if r is Ok && current is Some {
        let f = accounts::has_id(current->Some_0.id@);
        search::first_index_is_first(accounts@, f);
        if r->Ok_0.current_index is None && 0 <= i < accounts@.len() {
            assert(!f(accounts@[i]));
        }
    }
}

/// The current account ends the search where it cannot be judged at all: as kept where
/// its usage is not supported, and with an error where it could not be read. In any
/// other case its usage is put in its own place, and no other place changes.
pub proof fn the_current_account_is_judged_first(
    r: Result<CurrentUsageOutcome, String>,
    account: StoredAccount,
    index: usize,
    info: UsageInfo,
    before: Seq<Option<AccountUsageEvaluation>>,
    after: Seq<Option<AccountUsageEvaluation>>,
    i: int,
)
    requires
        is_current_outcome(r, account, index, info, before, after),
        index < before.len(),
    ensures
        r is Ok && r->Ok_0 is Terminal <==> assessment::assessed(info) is Unsupported,
        r is Err <==> assessment::assessed(info) is Error,
        r is Ok && r->Ok_0 is Continue ==> after.len() == before.len() && slot_view(
            after[index as int],
        ) == Some((account, info)) && r->Ok_0->Continue_0@ == assessment::assessed(info),
        0 <= i < before.len() && i != index && after.len() == before.len() ==> slot_view(after[i])
            == slot_view(before[i]),
        !(r is Ok && r->Ok_0 is Continue) ==> after == before,
{
    if r is Ok && r->Ok_0 is Continue {
        let a = slots_view(after);
        let b = slots_view(before).update(index as int, Some((account, info)));
        assert(a.len() == b.len());
        assert(a[index as int] == slot_view(after[index as int]));
        if 0 <= i < before.len() {
            assert(a[i] == slot_view(after[i]));
            assert(slots_view(before)[i] == slot_view(before[i]));
        }
    }
}

/// Replacements are looked at unless the current account settles the search: because
/// its usage is not supported, or because it is usable and was taken out of automatic
/// switching. Usage that could not be had or read is an error.
pub proof fn replacements_are_looked_at(
    r: Result<PlannerStep, AutoSwitchError>,
    before: AutoSwitchPlanner,
    after: AutoSwitchPlanner,
    fetched: Result<UsageInfo, String>,
)
    requires
        before.wf(),
        before.current_index is Some,
        current_settles(r, before, after, fetched),
    ensures
        ({
            let account = before.accounts@[before.current_index->Some_0 as int];
            &&& (r is Err <==> fetched is Err || assessment::assessed(fetched->Ok_0) is Error)
            &&& (r is Ok && r->Ok_0 is FetchReplacements ==> after.current_decision is Some
                && after.current_decision->Some_0@ == assessment::assessed(fetched->Ok_0)
                && slots_view(after.evaluations@)[before.current_index->Some_0 as int] == Some(
                (account, fetched->Ok_0),
            ))
            &&& (fetched is Ok && assessment::assessed(fetched->Ok_0) is Usable
                && account.auto_switch_disabled ==> r is Ok && r->Ok_0 is Settled
                && r->Ok_0->Settled_0 is CurrentKept
                && *r->Ok_0->Settled_0->CurrentKept_account == account)
            &&& (fetched is Ok && assessment::assessed(fetched->Ok_0) is Usable
                && !account.auto_switch_disabled ==> r is Ok && r->Ok_0 is FetchReplacements)
            &&& (fetched is Ok && assessment::assessed(fetched->Ok_0) is Unsupported ==> r is Ok
                && r->Ok_0 is Settled && r->Ok_0->Settled_0 is CurrentUnsupported
                && *r->Ok_0->Settled_0->CurrentUnsupported_account == account)
        }),
{
    if r is Ok && r->Ok_0 is FetchReplacements {
        let index = before.current_index->Some_0 as int;
        assert(slots_view(before.evaluations@).len() == before.evaluations@.len());
    }
}

} // verus!
