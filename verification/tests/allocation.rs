use mizan::allocation::largest_remainder_percentages;
use mizan::decimal::Dec;
use rust_decimal::Decimal;
use std::str::FromStr;

fn fig(text: &str) -> Dec {
    let d = Decimal::from_str(text).unwrap();
    Dec { mantissa: d.mantissa(), scale: d.scale() }
}

fn num(d: &Dec) -> Decimal {
    Decimal::from_i128_with_scale(d.mantissa, d.scale)
}

fn sum(v: &[Dec]) -> Decimal {
    v.iter().map(num).sum()
}

#[test]
fn three_thirds_sum_to_exactly_100() {
    let values = vec![fig("100"), fig("100"), fig("100")];
    let pcts = largest_remainder_percentages(&values, fig("300"));
    assert_eq!(sum(&pcts), Decimal::from_str("100.00").unwrap(), "got {pcts:?}");
    for v in &pcts {
        let v = num(v);
        assert!(v == Decimal::from_str("33.33").unwrap() || v == Decimal::from_str("33.34").unwrap(), "got {v}");
    }
}

#[test]
fn five_uneven_categories_sum_to_exactly_100() {
    let values = vec![fig("1"), fig("1"), fig("1"), fig("1"), fig("6")];
    let pcts = largest_remainder_percentages(&values, fig("10"));
    assert_eq!(sum(&pcts), Decimal::from_str("100.00").unwrap());
}

#[test]
fn single_category_gets_full_hundred() {
    let values = vec![fig("1234.567")];
    let pcts = largest_remainder_percentages(&values, fig("1234.567"));
    assert_eq!(pcts.len(), 1);
    assert_eq!(num(&pcts[0]), Decimal::from_str("100.00").unwrap());
}

#[test]
fn empty_or_zero_total_returns_empty_map() {
    let empty: Vec<Dec> = Vec::new();
    assert!(largest_remainder_percentages(&empty, fig("100")).is_empty());
    let zero = vec![fig("0")];
    assert!(largest_remainder_percentages(&zero, fig("0")).is_empty());
}

#[test]
fn lrm_sum_invariant_across_adversarial_shapes() {
    let mut shapes: Vec<Vec<Dec>> = vec![
        vec![fig("1")],
        vec![fig("1"), fig("1")],
        vec![fig("1"), fig("1"), fig("1")],
        vec![fig("1"); 7],
        vec![fig("7"), fig("3"), fig("2")],
    ];
    let mut sevens = vec![fig("1"); 7];
    sevens.push(fig("50"));
    shapes.push(sevens);
    let mut small = vec![fig("0.01"); 50];
    small.push(fig("99.5"));
    shapes.push(small);
    for (idx, shape) in shapes.iter().enumerate() {
        let total: Decimal = sum(shape);
        let total_fig = Dec { mantissa: total.mantissa(), scale: total.scale() };
        let pcts = largest_remainder_percentages(shape, total_fig);
        assert_eq!(sum(&pcts), Decimal::from_str("100.00").unwrap(), "shape {idx} summed wrong");
    }
}

// ─── further cases ───────────────────────────────────────────────────────

#[test]
fn largest_remainder_takes_the_missing_cent() {
    // 1/6 = 16.666.., 2/6 = 33.333.., 3/6 = 50: floors 16.66 + 33.33 + 50 = 99.99.
    let values = vec![fig("1"), fig("2"), fig("3")];
    let pcts = largest_remainder_percentages(&values, fig("6"));
    assert_eq!(num(&pcts[0]), Decimal::from_str("16.67").unwrap());
    assert_eq!(num(&pcts[1]), Decimal::from_str("33.33").unwrap());
    assert_eq!(num(&pcts[2]), Decimal::from_str("50").unwrap());
}

#[test]
fn equal_remainders_go_to_the_larger_share_then_earlier_row() {
    // Thirds: all remainders equal and all floors equal; the first row wins.
    let values = vec![fig("5"), fig("5"), fig("5")];
    let pcts = largest_remainder_percentages(&values, fig("15"));
    assert_eq!(num(&pcts[0]), Decimal::from_str("33.34").unwrap());
    assert_eq!(num(&pcts[1]), Decimal::from_str("33.33").unwrap());
    assert_eq!(num(&pcts[2]), Decimal::from_str("33.33").unwrap());
}

#[test]
fn negative_total_gives_nothing() {
    let values = vec![fig("5")];
    assert!(largest_remainder_percentages(&values, fig("-5")).is_empty());
}
