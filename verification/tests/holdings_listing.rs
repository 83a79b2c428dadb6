use mizan::decimal::Dec;
use mizan::tools::holdings::{account_label, listed_total};

fn fig(m: i128, s: u32) -> Dec {
    Dec { mantissa: m, scale: s }
}

#[test]
fn total_sums_the_listed_rows_only() {
    let values = vec![fig(1050, 2), fig(99999, 0), fig(25, 1)];
    let total = listed_total(&values, &vec![0, 2]).unwrap();
    let t = rust_decimal::Decimal::from_i128_with_scale(total.mantissa, total.scale);
    assert_eq!(t, rust_decimal::Decimal::new(1300, 2));
    let none = listed_total(&values, &vec![]).unwrap();
    assert_eq!(none.mantissa, 0);
}

#[test]
fn overflowing_total_is_none() {
    let big = fig((1i128 << 96) - 1, 0);
    assert!(listed_total(&vec![big, big], &vec![0, 1]).is_none());
}

#[test]
fn rows_show_account_names_or_ids() {
    let accounts = vec![
        ("a1".to_string(), "Checking".to_string()),
        ("a2".to_string(), "Brokerage".to_string()),
        ("a1".to_string(), "Main checking".to_string()),
    ];
    assert_eq!(account_label(&accounts, "a2"), "Brokerage");
    assert_eq!(account_label(&accounts, "a1"), "Main checking");
    assert_eq!(account_label(&accounts, "zzz"), "zzz");
}
