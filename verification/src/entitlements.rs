//! Subscription entitlements: what a user's plan unlocks, derived from the
//! team's plan slug and subscription status.
//!
//! `-1` ([`UNLIMITED`]) is the sentinel for "no limit" on every numeric quota.
use vstd::prelude::*;

use crate::text::{ascii_lowered, owned, str_eq, to_ascii_lowercase};

verus! {

/// Sentinel meaning "no limit" for any numeric quota field.
pub const UNLIMITED: i32 = -1;

/// What a user's subscription unlocks.
#[derive(Debug, Clone, PartialEq, Eq)]
pub struct Entitlements {
    /// Resolved plan slug this matrix was derived from.
    pub plan: String,
    pub max_portfolios: i32,
    pub max_holdings: i32,
    pub max_asset_classes: i32,
    /// Plaid live sync allowed at all.
    pub broker_sync: bool,
    pub max_broker_connections: i32,
    pub device_sync: bool,
    pub cloud_backup: bool,
    /// Managed AI (bring-your-own-key is always allowed).
    pub managed_ai: bool,
    pub ai_credits_monthly: i32,
    pub news_daily_limit: i32,
    pub market_refresh_daily_limit: i32,
    pub csv_imports_monthly: i32,
    pub advanced_reports: bool,
    pub advisor_mode: bool,
}

/// The quota table one tier of the product grants.
pub struct Tier {
    pub plan: Seq<char>,
    pub max_portfolios: i32,
    pub max_holdings: i32,
    pub max_asset_classes: i32,
    pub broker_sync: bool,
    pub max_broker_connections: i32,
    pub device_sync: bool,
    pub cloud_backup: bool,
    pub managed_ai: bool,
    pub ai_credits_monthly: i32,
    pub news_daily_limit: i32,
    pub market_refresh_daily_limit: i32,
    pub csv_imports_monthly: i32,
    pub advanced_reports: bool,
    pub advisor_mode: bool,
}

impl Entitlements {
    /// The tier this matrix grants.
    pub open spec fn tier(&self) -> Tier {
        Tier {
            plan: self.plan@,
            max_portfolios: self.max_portfolios,
            max_holdings: self.max_holdings,
            max_asset_classes: self.max_asset_classes,
            broker_sync: self.broker_sync,
            max_broker_connections: self.max_broker_connections,
            device_sync: self.device_sync,
            cloud_backup: self.cloud_backup,
            managed_ai: self.managed_ai,
            ai_credits_monthly: self.ai_credits_monthly,
            news_daily_limit: self.news_daily_limit,
            market_refresh_daily_limit: self.market_refresh_daily_limit,
            csv_imports_monthly: self.csv_imports_monthly,
            advanced_reports: self.advanced_reports,
            advisor_mode: self.advisor_mode,
        }
    }
}

/// Silver capability: what anyone without an active paid subscription gets.
pub open spec fn silver_fallback() -> Tier {
    Tier {
        plan: "silver"@,
        max_portfolios: 25,
        max_holdings: UNLIMITED,
        max_asset_classes: UNLIMITED,
        broker_sync: false,
        max_broker_connections: 0,
        device_sync: false,
        cloud_backup: false,
        managed_ai: true,
        ai_credits_monthly: 300,
        news_daily_limit: 3,
        market_refresh_daily_limit: 0,
        csv_imports_monthly: UNLIMITED,
        advanced_reports: false,
        advisor_mode: false,
    }
}

/// An active Silver (or legacy Basic) subscription: as the fallback, with the
/// full news feed.
pub open spec fn silver_active() -> Tier {
    Tier { news_daily_limit: UNLIMITED, ..silver_fallback() }
}

/// An active Gold / Enterprise / Advisor subscription.
pub open spec fn gold_unlimited(advisor_mode: bool) -> Tier {
    Tier {
        plan: "gold"@,
        max_portfolios: UNLIMITED,
        max_holdings: UNLIMITED,
        max_asset_classes: UNLIMITED,
        broker_sync: true,
        max_broker_connections: UNLIMITED,
        device_sync: true,
        cloud_backup: true,
        managed_ai: true,
        ai_credits_monthly: UNLIMITED,
        news_daily_limit: UNLIMITED,
        market_refresh_daily_limit: UNLIMITED,
        csv_imports_monthly: UNLIMITED,
        advanced_reports: true,
        advisor_mode,
    }
}

/// Any other active paid slug (pro, plus, duo, essentials, ...).
pub open spec fn gold_capped() -> Tier {
    Tier {
        plan: "gold"@,
        max_portfolios: 25,
        max_holdings: UNLIMITED,
        max_asset_classes: UNLIMITED,
        broker_sync: true,
        max_broker_connections: 5,
        device_sync: true,
        cloud_backup: true,
        managed_ai: true,
        ai_credits_monthly: 1500,
        news_daily_limit: UNLIMITED,
        market_refresh_daily_limit: UNLIMITED,
        csv_imports_monthly: UNLIMITED,
        advanced_reports: true,
        advisor_mode: false,
    }
}

/// A subscription counts when its status is `active` or `trialing`.
pub open spec fn is_active_status(status: Option<Seq<char>>) -> bool {
    status == Some("active"@) || status == Some("trialing"@)
}

/// The tier a plan slug and subscription status grant. Slugs compare
/// case-insensitively (ASCII); advisor mode is keyed on the slug as given.
pub open spec fn tier_for(plan: Option<Seq<char>>, status: Option<Seq<char>>) -> Tier {
    if !is_active_status(status) {
        silver_fallback()
    } else {
        match plan {
            None => silver_fallback(),
            Some(p) => {
                let l = ascii_lowered(p);
                if l == "free"@ {
                    silver_fallback()
                } else if l == "silver"@ || l == "basic"@ {
                    silver_active()
                } else if l == "gold"@ || l == "enterprise"@ || l == "advisor"@ {
                    gold_unlimited(p == "enterprise"@ || p == "advisor"@)
                } else {
                    gold_capped()
                }
            },
        }
    }
}

pub open spec fn opt_view(o: Option<&str>) -> Option<Seq<char>> {
    match o {
        Some(s) => Some(s@),
        None => None,
    }
}

impl Default for Entitlements {
    /// Silver-capability fallback.
    fn default() -> (r: Self)
        ensures
            r.tier() == silver_fallback(),
    {
        Entitlements {
            plan: owned("silver"),
            max_portfolios: 25,
            max_holdings: UNLIMITED,
            max_asset_classes: UNLIMITED,
            broker_sync: false,
            max_broker_connections: 0,
            device_sync: false,
            cloud_backup: false,
            managed_ai: true,
            ai_credits_monthly: 300,
            news_daily_limit: 3,
            market_refresh_daily_limit: 0,
            csv_imports_monthly: UNLIMITED,
            advanced_reports: false,
            advisor_mode: false,
        }
    }
}

impl Entitlements {
    /// True when `current` is below the quota `limit`; `UNLIMITED` always
    /// passes.
    pub fn within(current: i32, limit: i32) -> (r: bool)
        ensures
            r == (limit == UNLIMITED || current < limit),
    {
        limit == UNLIMITED || current < limit
    }
}

fn opt_is(o: Option<&str>, lit: &str) -> (r: bool)
    ensures
        r == (opt_view(o) == Some(lit@)),
{
    match o {
        Some(s) => str_eq(s, lit),
        None => false,
    }
}

/// Derives entitlements from a team's plan slug and subscription status.
/// Inactive or absent subscriptions collapse to the Silver fallback.
pub fn entitlements_for_plan(plan: Option<&str>, status: Option<&str>) -> (r: Entitlements)
    ensures
        r.tier() == tier_for(opt_view(plan), opt_view(status)),
{
    let is_active = opt_is(status, "active") || opt_is(status, "trialing");
    if !is_active {
        return Entitlements::default();
    }
    let lowered: Option<String> = match plan {
        Some(p) => Some(to_ascii_lowercase(p)),
        None => None,
    };
    match lowered {
        None => Entitlements::default(),
        Some(l) => {
            if str_eq(l.as_str(), "free") {
                Entitlements::default()
            } else if str_eq(l.as_str(), "silver") || str_eq(l.as_str(), "basic") {
                Entitlements {
                    plan: owned("silver"),
                    max_portfolios: 25,
                    max_holdings: UNLIMITED,
                    max_asset_classes: UNLIMITED,
                    broker_sync: false,
                    max_broker_connections: 0,
                    device_sync: false,
                    cloud_backup: false,
                    managed_ai: true,
                    ai_credits_monthly: 300,
                    news_daily_limit: UNLIMITED,
                    market_refresh_daily_limit: 0,
                    csv_imports_monthly: UNLIMITED,
                    advanced_reports: false,
                    advisor_mode: false,
                }
            } else if str_eq(l.as_str(), "gold") || str_eq(l.as_str(), "enterprise")
                || str_eq(l.as_str(), "advisor") {
                Entitlements {
                    plan: owned("gold"),
                    max_portfolios: UNLIMITED,
                    max_holdings: UNLIMITED,
                    max_asset_classes: UNLIMITED,
                    broker_sync: true,
                    max_broker_connections: UNLIMITED,
                    device_sync: true,
                    cloud_backup: true,
                    managed_ai: true,
                    ai_credits_monthly: UNLIMITED,
                    news_daily_limit: UNLIMITED,
                    market_refresh_daily_limit: UNLIMITED,
                    csv_imports_monthly: UNLIMITED,
                    advanced_reports: true,
                    advisor_mode: opt_is(plan, "enterprise") || opt_is(plan, "advisor"),
                }
            } else {
                Entitlements {
                    plan: owned("gold"),
                    max_portfolios: 25,
                    max_holdings: UNLIMITED,
                    max_asset_classes: UNLIMITED,
                    broker_sync: true,
                    max_broker_connections: 5,
                    device_sync: true,
                    cloud_backup: true,
                    managed_ai: true,
                    ai_credits_monthly: 1500,
                    news_daily_limit: UNLIMITED,
                    market_refresh_daily_limit: UNLIMITED,
                    csv_imports_monthly: UNLIMITED,
                    advanced_reports: true,
                    advisor_mode: false,
                }
            }
        },
    }
}

/// Without an active subscription the plan slug is never consulted: every
/// slug yields the Silver fallback.
pub proof fn lemma_inactive_is_fallback(plan: Option<Seq<char>>, status: Option<Seq<char>>)
    requires
        !is_active_status(status),
    ensures
        tier_for(plan, status) == silver_fallback(),
{
}

/// Every active paid slug that is not a Silver or free slug unlocks broker
/// sync with at least one connection (or no cap at all).
pub proof fn lemma_paid_unlocks_broker_sync(plan: Seq<char>, status: Option<Seq<char>>)
    requires
        is_active_status(status),
        ascii_lowered(plan) != "free"@,
        ascii_lowered(plan) != "silver"@,
        ascii_lowered(plan) != "basic"@,
    ensures
        tier_for(Some(plan), status).broker_sync,
        tier_for(Some(plan), status).plan == "gold"@,
        tier_for(Some(plan), status).max_broker_connections >= 1
            || tier_for(Some(plan), status).max_broker_connections == UNLIMITED,
{
}


/// Whether a team may use broker sync: its subscription is active (or
/// trialing) and its plan grants live sync.
pub fn plan_has_broker_sync(plan: Option<&str>, status: Option<&str>) -> (r: bool)
    ensures
        r == (is_active_status(opt_view(status)) && tier_for(opt_view(plan), opt_view(status)).broker_sync),
{
    let is_active = opt_is(status, "active") || opt_is(status, "trialing");
    if !is_active {
        return false;
    }
    entitlements_for_plan(plan, status).broker_sync
}
} // verus!
