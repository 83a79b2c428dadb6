use mizan::holdings::AssetKind;
use mizan::onboarding::{examples_to_seed, has_any_liability};

#[test]
fn seeds_three_examples_when_no_liability_exists() {
    let v = examples_to_seed(&vec![AssetKind::Property, AssetKind::Vehicle], "EUR");
    assert_eq!(v.len(), 3);
    assert_eq!(v[0].name, "Example — Home mortgage");
    assert_eq!(v[0].currency, "EUR");
    assert_eq!(v[0].current_value.mantissa, 480000);
    assert_eq!(v[0].originated_at.as_deref(), Some("2023-01-15"));
    assert_eq!(v[1].name, "Example — Student loan");
    assert_eq!(v[1].rate_pct, "6.8");
    assert_eq!(v[2].name, "Example — Credit card");
    assert_eq!(v[2].monthly_payment, "145");
    assert!(v[2].purchase_date.is_none());
}

#[test]
fn seeding_is_skipped_once_a_liability_exists() {
    assert!(examples_to_seed(&vec![AssetKind::Investment, AssetKind::Liability], "USD").is_empty());
    assert!(has_any_liability(&vec![AssetKind::Liability]));
    assert!(!has_any_liability(&vec![]));
}
