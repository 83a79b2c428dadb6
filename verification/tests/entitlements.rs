use mizan::entitlements::plan_has_broker_sync;
use mizan::entitlements::{entitlements_for_plan, Entitlements, UNLIMITED};

#[test]
fn inactive_subscription_falls_back_to_silver() {
    assert_eq!(entitlements_for_plan(Some("pro"), Some("canceled")), Entitlements::default());
    assert_eq!(entitlements_for_plan(Some("pro"), None), Entitlements::default());
    assert_eq!(entitlements_for_plan(None, None), Entitlements::default());
}

#[test]
fn silver_defaults() {
    let e = Entitlements::default();
    assert_eq!(e.plan, "silver");
    assert_eq!(e.max_portfolios, 25);
    assert_eq!(e.max_asset_classes, UNLIMITED);
    assert!(!e.broker_sync);
    assert!(e.managed_ai);
    assert_eq!(e.ai_credits_monthly, 300);
}

#[test]
fn basic_legacy_maps_to_silver_no_plaid() {
    let e = entitlements_for_plan(Some("basic"), Some("active"));
    assert_eq!(e.plan, "silver");
    assert!(!e.broker_sync, "Silver excludes Plaid live sync");
    assert!(e.managed_ai);
    assert_eq!(e.max_portfolios, 25);
    assert_eq!(e.ai_credits_monthly, 300);
}

#[test]
fn pro_like_plans_unlock_broker_sync() {
    for slug in ["pro", "plus", "duo", "essentials", "anything-paid"] {
        let e = entitlements_for_plan(Some(slug), Some("active"));
        assert!(e.broker_sync, "{slug} should include Plaid sync");
        assert_eq!(e.plan, "gold");
        assert!(e.max_broker_connections >= 1);
        assert_eq!(e.max_holdings, UNLIMITED);
    }
}

#[test]
fn trialing_counts_as_active() {
    let e = entitlements_for_plan(Some("pro"), Some("trialing"));
    assert!(e.broker_sync);
}

#[test]
fn enterprise_unlocks_advisor_mode() {
    let e = entitlements_for_plan(Some("enterprise"), Some("active"));
    assert!(e.advisor_mode);
    assert_eq!(e.max_portfolios, UNLIMITED);
    assert_eq!(e.ai_credits_monthly, UNLIMITED);
}

#[test]
fn within_respects_unlimited_and_caps() {
    assert!(Entitlements::within(0, 1));
    assert!(!Entitlements::within(1, 1));
    assert!(Entitlements::within(9999, UNLIMITED));
}

#[test]
fn slug_case_is_folded_but_advisor_mode_keys_on_the_slug_as_given() {
    let e = entitlements_for_plan(Some("Enterprise"), Some("active"));
    assert_eq!(e.plan, "gold");
    assert_eq!(e.max_portfolios, UNLIMITED);
    assert!(!e.advisor_mode);
    let g = entitlements_for_plan(Some("GOLD"), Some("active"));
    assert_eq!(g.max_broker_connections, UNLIMITED);
    assert!(!g.advisor_mode);
}

#[test]
fn active_silver_gets_full_news_feed_and_free_stays_on_fallback() {
    let s = entitlements_for_plan(Some("silver"), Some("active"));
    assert_eq!(s.news_daily_limit, UNLIMITED);
    assert_eq!(entitlements_for_plan(Some("free"), Some("active")), Entitlements::default());
    assert_eq!(entitlements_for_plan(None, Some("active")), Entitlements::default());
    assert_eq!(Entitlements::default().news_daily_limit, 3);
}

#[test]
fn broker_sync_needs_an_active_plan_that_grants_it() {
    assert!(plan_has_broker_sync(Some("gold"), Some("active")));
    assert!(plan_has_broker_sync(Some("GOLD"), Some("trialing")));
    assert!(!plan_has_broker_sync(Some("gold"), Some("canceled")));
    assert!(!plan_has_broker_sync(Some("gold"), None));
    assert!(!plan_has_broker_sync(Some("free"), Some("active")));
}
