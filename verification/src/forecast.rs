//! How long the usage of all accounts will last.
use vstd::prelude::*;

verus! {

#[derive(Debug, Clone, Copy, PartialEq, Eq, Structural)]
pub enum ForecastLimit {
    FiveHour,
    Weekly,
    FiveHourAndWeekly,
}

impl ForecastLimit {
    pub open spec fn name(self) -> Seq<char> {
        match self {
            ForecastLimit::FiveHour => "5-hour"@,
            ForecastLimit::Weekly => "weekly"@,
            ForecastLimit::FiveHourAndWeekly => "5-hour and weekly"@,
        }
    }

    pub fn as_str(self) -> (r: &'static str)
        ensures
            r@ == self.name(),
    {
        match self {
            ForecastLimit::FiveHour => "5-hour",
            ForecastLimit::Weekly => "weekly",
            ForecastLimit::FiveHourAndWeekly => "5-hour and weekly",
        }
    }
}

/// Why there is no forecast.
#[derive(Debug, Clone, Copy, PartialEq, Eq, Structural)]
pub enum ForecastUnavailableReason {
    IncompleteUsageData,
}

impl ForecastUnavailableReason {
    pub open spec fn name(self) -> Seq<char> {
        "incomplete usage data"@
    }

    pub fn as_str(self) -> (r: &'static str)
        ensures
            r@ == self.name(),
    {
        "incomplete usage data"
    }
}

/// How fast a quota is used, in percent per hour.
pub struct ForecastRate {
    /// The bit pattern of the rate.
    pub bits: u64,
    /// The rate with one decimal.
    pub shown: String,
    /// The rate, written in full.
    pub number: String,
}

pub struct UsageForecastRates {
    pub five_hour_percent_per_hour: Option<ForecastRate>,
    pub weekly_percent_per_hour: Option<ForecastRate>,
}

/// Moments are in seconds since the Unix epoch.
#[derive(Debug, Clone, Copy, PartialEq, Eq, Structural)]
pub enum UsageForecastOutcome {
    NotExpected { horizon_seconds: i64 },
    Unavailable { at: i64, limited_by: ForecastLimit, recovery_at: Option<i64> },
    NotEnoughData { reason: ForecastUnavailableReason },
}

pub struct UsageForecast {
    pub rates: Option<UsageForecastRates>,
    pub outcome: UsageForecastOutcome,
}

/// The limits have different names.
pub proof fn limits_have_names(a: ForecastLimit, b: ForecastLimit)
    ensures
        a.name() == b.name() ==> a == b,
        ForecastLimit::FiveHour.name() == "5-hour"@,
        ForecastLimit::Weekly.name() == "weekly"@,
{
    reveal_strlit("5-hour");
    reveal_strlit("weekly");
    reveal_strlit("5-hour and weekly");
    assert("5-hour"@.len() == 6);
    assert("weekly"@.len() == 6);
    assert("5-hour and weekly"@.len() == 17);
    assert("5-hour"@[0] != "weekly"@[0]);

}

} // verus!
