use mizan::demo_mode::{action_for, parse_tier, DemoAction};

#[test]
fn parses_explicit_tier_gold() {
    let args = vec!["--tier=gold".to_string()];
    assert_eq!(parse_tier(&args), Some("gold".to_string()));
}

#[test]
fn parses_explicit_tier_off() {
    let args = vec!["--tier=off".to_string()];
    assert_eq!(parse_tier(&args), Some("off".to_string()));
}

#[test]
fn bare_invocation_returns_none_and_defaults_to_enable() {
    let args: Vec<String> = vec![];
    assert_eq!(parse_tier(&args), None);
    assert_eq!(action_for(None), DemoAction::Enable);
}

#[test]
fn ignores_unrelated_args() {
    let args = vec!["--verbose".to_string(), "--tier=gold".to_string()];
    assert_eq!(parse_tier(&args), Some("gold".to_string()));
}

#[test]
fn first_tier_flag_wins_and_unknown_tiers_are_refused() {
    let args = vec!["--tier=off".to_string(), "--tier=gold".to_string()];
    assert_eq!(parse_tier(&args), Some("off".to_string()));
    assert_eq!(action_for(Some("off")), DemoAction::Disable);
    assert_eq!(action_for(Some("free")), DemoAction::Disable);
    assert_eq!(action_for(Some("gold")), DemoAction::Enable);
    assert_eq!(action_for(Some("platinum")), DemoAction::Unsupported);
    assert_eq!(parse_tier(&["--tier=".to_string()]), Some(String::new()));
}
