//! The policies by which an account is chosen, each as a type of its own.
use crate::accounts;
use crate::selector;
use crate::selector::{
    AccountSelection, AccountUsageCandidate, Score, SelectionConfig, SelectionContext,
    SelectionPolicyKind,
};
use vstd::prelude::*;

verus! {

/// A way to choose an account.
pub trait AccountSelectionPolicy {
    /// What the policy goes by.
    spec fn settings(&self) -> SelectionConfig;

    /// The account that the policy chooses. Weekly headrooms in five-hour units, and
    /// scores, stand at the places of the candidates.
    fn select_account_at<'a>(
        &mut self,
        candidates: &Vec<AccountUsageCandidate<'a>>,
        weekly_units: &Vec<u64>,
        scores: &Vec<Score>,
        context: SelectionContext<'_>,
    ) -> (r: Option<AccountSelection<'a>>)
        requires
            weekly_units@.len() == candidates@.len(),
            scores@.len() == candidates@.len(),
        ensures
            final(self).settings() == old(self).settings(),
            match r {
                Some(selection) => selector::selects(
                    selector::evaluations(candidates@, weekly_units@, old(self).settings()),
                    scores@,
                    old(self).settings().policy,
                    accounts::str_view(context.current_account_id),
                    context.now as int,
                    selection,
                ),
                None => selector::evaluations(
                    candidates@,
                    weekly_units@,
                    old(self).settings(),
                ).len() == 0,
            },
    ;
}

/// Spends what resets soonest first.
#[derive(Debug, Clone, Copy)]
pub struct DeadlineAwarePolicy {
    pub config: SelectionConfig,
}

impl DeadlineAwarePolicy {
    pub fn new(config: SelectionConfig) -> (r: Self)
        ensures
            r.config.min_safe_headroom == config.min_safe_headroom,
            r.config.weekly_to_five_hour_ratio == config.weekly_to_five_hour_ratio,
            r.config.policy == SelectionPolicyKind::DeadlineAware,
    {
        DeadlineAwarePolicy {
            config: SelectionConfig {
                min_safe_headroom: config.min_safe_headroom,
                weekly_to_five_hour_ratio: config.weekly_to_five_hour_ratio,
                policy: SelectionPolicyKind::DeadlineAware,
            },
        }
    }
}

impl AccountSelectionPolicy for DeadlineAwarePolicy {
    open spec fn settings(&self) -> SelectionConfig {
        SelectionConfig {
            min_safe_headroom: self.config.min_safe_headroom,
            weekly_to_five_hour_ratio: self.config.weekly_to_five_hour_ratio,
            policy: SelectionPolicyKind::DeadlineAware,
        }
    }

    fn select_account_at<'a>(
        &mut self,
        candidates: &Vec<AccountUsageCandidate<'a>>,
        weekly_units: &Vec<u64>,
        scores: &Vec<Score>,
        context: SelectionContext<'_>,
    ) -> (r: Option<AccountSelection<'a>>) {
        let config = SelectionConfig {
            min_safe_headroom: self.config.min_safe_headroom,
            weekly_to_five_hour_ratio: self.config.weekly_to_five_hour_ratio,
            policy: SelectionPolicyKind::DeadlineAware,
        };
        selector::select_account_with_context(candidates, weekly_units, scores, config, context)
    }
}

/// Takes the account whose quota is the cheapest.
#[derive(Debug, Clone, Copy)]
pub struct ShadowPricePolicy {
    pub config: SelectionConfig,
}

impl ShadowPricePolicy {
    pub fn new(config: SelectionConfig) -> (r: Self)
        ensures
            r.config.min_safe_headroom == config.min_safe_headroom,
            r.config.weekly_to_five_hour_ratio == config.weekly_to_five_hour_ratio,
            r.config.policy == SelectionPolicyKind::ShadowPrice,
    {
        ShadowPricePolicy {
            config: SelectionConfig {
                min_safe_headroom: config.min_safe_headroom,
                weekly_to_five_hour_ratio: config.weekly_to_five_hour_ratio,
                policy: SelectionPolicyKind::ShadowPrice,
            },
        }
    }
}

impl AccountSelectionPolicy for ShadowPricePolicy {
    open spec fn settings(&self) -> SelectionConfig {
        SelectionConfig {
            min_safe_headroom: self.config.min_safe_headroom,
            weekly_to_five_hour_ratio: self.config.weekly_to_five_hour_ratio,
            policy: SelectionPolicyKind::ShadowPrice,
        }
    }

    fn select_account_at<'a>(
        &mut self,
        candidates: &Vec<AccountUsageCandidate<'a>>,
        weekly_units: &Vec<u64>,
        scores: &Vec<Score>,
        context: SelectionContext<'_>,
    ) -> (r: Option<AccountSelection<'a>>) {
        let config = SelectionConfig {
            min_safe_headroom: self.config.min_safe_headroom,
            weekly_to_five_hour_ratio: self.config.weekly_to_five_hour_ratio,
            policy: SelectionPolicyKind::ShadowPrice,
        };
        selector::select_account_with_context(candidates, weekly_units, scores, config, context)
    }
}

/// Takes the account whose worst window is the best.
#[derive(Debug, Clone, Copy)]
pub struct ResetWeightedMinimaxPolicy {
    pub config: SelectionConfig,
}

impl ResetWeightedMinimaxPolicy {
    pub fn new(config: SelectionConfig) -> (r: Self)
        ensures
            r.config.min_safe_headroom == config.min_safe_headroom,
            r.config.weekly_to_five_hour_ratio == config.weekly_to_five_hour_ratio,
            r.config.policy == SelectionPolicyKind::ResetWeightedMinimax,
    {
        ResetWeightedMinimaxPolicy {
            config: SelectionConfig {
                min_safe_headroom: config.min_safe_headroom,
                weekly_to_five_hour_ratio: config.weekly_to_five_hour_ratio,
                policy: SelectionPolicyKind::ResetWeightedMinimax,
            },
        }
    }
}

impl AccountSelectionPolicy for ResetWeightedMinimaxPolicy {
    open spec fn settings(&self) -> SelectionConfig {
        SelectionConfig {
            min_safe_headroom: self.config.min_safe_headroom,
            weekly_to_five_hour_ratio: self.config.weekly_to_five_hour_ratio,
            policy: SelectionPolicyKind::ResetWeightedMinimax,
        }
    }

    fn select_account_at<'a>(
        &mut self,
        candidates: &Vec<AccountUsageCandidate<'a>>,
        weekly_units: &Vec<u64>,
        scores: &Vec<Score>,
        context: SelectionContext<'_>,
    ) -> (r: Option<AccountSelection<'a>>) {
        let config = SelectionConfig {
            min_safe_headroom: self.config.min_safe_headroom,
            weekly_to_five_hour_ratio: self.config.weekly_to_five_hour_ratio,
            policy: SelectionPolicyKind::ResetWeightedMinimax,
        };
        selector::select_account_with_context(candidates, weekly_units, scores, config, context)
    }
}

/// Takes the account with the least demand, and changes only for a clear gain.
#[derive(Debug, Clone, Copy)]
pub struct DemandAwareHysteresisPolicy {
    pub config: SelectionConfig,
}

impl DemandAwareHysteresisPolicy {
    pub fn new(config: SelectionConfig) -> (r: Self)
        ensures
            r.config.min_safe_headroom == config.min_safe_headroom,
            r.config.weekly_to_five_hour_ratio == config.weekly_to_five_hour_ratio,
            r.config.policy == SelectionPolicyKind::DemandAwareHysteresis,
    {
        DemandAwareHysteresisPolicy {
            config: SelectionConfig {
                min_safe_headroom: config.min_safe_headroom,
                weekly_to_five_hour_ratio: config.weekly_to_five_hour_ratio,
                policy: SelectionPolicyKind::DemandAwareHysteresis,
            },
        }
    }
}

impl AccountSelectionPolicy for DemandAwareHysteresisPolicy {
    open spec fn settings(&self) -> SelectionConfig {
        SelectionConfig {
            min_safe_headroom: self.config.min_safe_headroom,
            weekly_to_five_hour_ratio: self.config.weekly_to_five_hour_ratio,
            policy: SelectionPolicyKind::DemandAwareHysteresis,
        }
    }

    fn select_account_at<'a>(
        &mut self,
        candidates: &Vec<AccountUsageCandidate<'a>>,
        weekly_units: &Vec<u64>,
        scores: &Vec<Score>,
        context: SelectionContext<'_>,
    ) -> (r: Option<AccountSelection<'a>>) {
        let config = SelectionConfig {
            min_safe_headroom: self.config.min_safe_headroom,
            weekly_to_five_hour_ratio: self.config.weekly_to_five_hour_ratio,
            policy: SelectionPolicyKind::DemandAwareHysteresis,
        };
        selector::select_account_with_context(candidates, weekly_units, scores, config, context)
    }
}

// ---------------------------------------------------------------------------
// Laws
// ---------------------------------------------------------------------------

/// Each policy decides by its own rule, whatever rule its settings were made for, and
/// by the headroom and the ratio that it was given.
pub proof fn policies_follow_their_own_rule(
    deadline: DeadlineAwarePolicy,
    price: ShadowPricePolicy,
    minimax: ResetWeightedMinimaxPolicy,
    hysteresis: DemandAwareHysteresisPolicy,
)
    ensures
        deadline.settings().policy is DeadlineAware,
        price.settings().policy is ShadowPrice,
        minimax.settings().policy is ResetWeightedMinimax,
        hysteresis.settings().policy is DemandAwareHysteresis,
        deadline.settings().min_safe_headroom == deadline.config.min_safe_headroom,
        price.settings().min_safe_headroom == price.config.min_safe_headroom,
        minimax.settings().min_safe_headroom == minimax.config.min_safe_headroom,
        hysteresis.settings().min_safe_headroom == hysteresis.config.min_safe_headroom,
        deadline.settings().weekly_to_five_hour_ratio == deadline.config.weekly_to_five_hour_ratio,
        price.settings().weekly_to_five_hour_ratio == price.config.weekly_to_five_hour_ratio,
        minimax.settings().weekly_to_five_hour_ratio == minimax.config.weekly_to_five_hour_ratio,
        hysteresis.settings().weekly_to_five_hour_ratio
            == hysteresis.config.weekly_to_five_hour_ratio,
{
}

/// A policy is made with the settings that it is given, for its own rule.
pub proof fn policies_keep_their_settings(
    config: SelectionConfig,
    deadline: DeadlineAwarePolicy,
    price: ShadowPricePolicy,
    minimax: ResetWeightedMinimaxPolicy,
    hysteresis: DemandAwareHysteresisPolicy,
)
    requires
        call_ensures(DeadlineAwarePolicy::new, (config,), deadline),
        call_ensures(ShadowPricePolicy::new, (config,), price),
        call_ensures(ResetWeightedMinimaxPolicy::new, (config,), minimax),
        call_ensures(DemandAwareHysteresisPolicy::new, (config,), hysteresis),
    ensures
        deadline.settings() == (SelectionConfig {
            policy: SelectionPolicyKind::DeadlineAware,
            ..config
        }),
        price.settings() == (SelectionConfig { policy: SelectionPolicyKind::ShadowPrice, ..config }),
        minimax.settings() == (SelectionConfig {
            policy: SelectionPolicyKind::ResetWeightedMinimax,
            ..config
        }),
        hysteresis.settings() == (SelectionConfig {
            policy: SelectionPolicyKind::DemandAwareHysteresis,
            ..config
        }),
{
}

} // verus!
