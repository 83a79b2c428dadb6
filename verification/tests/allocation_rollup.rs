use mizan::allocation::{
    aggregate_by_taxonomy, portfolio_allocations, AllocationHolding, AssetAssignments, Assignment, Category, Taxonomy,
    TaxonomyWithCategories,
};
use mizan::allocation_holdings::{holdings_by_allocation, matching_category_ids, CategoryAssignment, DrillHolding};
use mizan::decimal::Dec;
use mizan::tools::holdings::HoldingType;
use rust_decimal::Decimal;
use std::str::FromStr;

fn num(d: &Dec) -> Decimal {
    Decimal::from_i128_with_scale(d.mantissa, d.scale)
}

fn dec(text: &str) -> Decimal {
    Decimal::from_str(text).unwrap()
}

fn whole(n: i64) -> Dec {
    Dec::from_int(n)
}

fn category(id: &str, name: &str, parent: Option<&str>) -> Category {
    Category { id: id.into(), name: name.into(), color: format!("#{id}"), parent_id: parent.map(str::to_string) }
}

fn sectors() -> Vec<Category> {
    vec![
        category("IT", "Information Technology", None),
        category("SOFT", "Software", Some("IT")),
        category("HW", "Hardware", Some("IT")),
        category("FIN", "Financials", None),
    ]
}

fn holding(kind: HoldingType, asset: Option<&str>, value: i64) -> AllocationHolding {
    AllocationHolding { holding_type: kind, asset_id: asset.map(str::to_string), market_value: whole(value) }
}

fn assignment(taxonomy: &str, category: &str, weight: i32) -> Assignment {
    Assignment { taxonomy_id: taxonomy.into(), category_id: category.into(), weight }
}

fn sample_holdings() -> Vec<AllocationHolding> {
    vec![
        holding(HoldingType::Security, Some("a1"), 600),
        holding(HoldingType::Security, Some("a2"), 400),
        holding(HoldingType::Cash, Some("cash-usd"), 100),
        holding(HoldingType::Security, Some("a3"), 100),
    ]
}

fn sample_assignments() -> Vec<AssetAssignments> {
    vec![
        AssetAssignments { asset_id: "a1".into(), assignments: vec![assignment("industries_gics", "SOFT", 10000)] },
        AssetAssignments {
            asset_id: "a2".into(),
            assignments: vec![assignment("industries_gics", "HW", 5000), assignment("industries_gics", "FIN", 5000)],
        },
    ]
}

#[test]
fn sectors_roll_up_to_top_level_with_unknown_and_lrm_percentages() {
    let r = aggregate_by_taxonomy(
        &sample_holdings(),
        "industries_gics",
        "Sectors",
        "#da702c",
        &sectors(),
        &sample_assignments(),
        whole(1100),
        true,
    );
    assert_eq!(r.taxonomy_id, "industries_gics");
    let ids: Vec<&str> = r.categories.iter().map(|c| c.category_id.as_str()).collect();
    assert_eq!(ids, vec!["IT", "FIN", "__UNKNOWN__"]);
    assert_eq!(num(&r.categories[0].value), Decimal::from(800));
    assert_eq!(num(&r.categories[1].value), Decimal::from(200));
    assert_eq!(num(&r.categories[2].value), Decimal::from(100));
    assert_eq!(r.categories[0].category_name, "Information Technology");
    assert_eq!(r.categories[2].category_name, "Unknown");
    assert_eq!(r.categories[2].color, "#878580");
    assert_eq!(num(&r.categories[0].percentage), dec("72.73"));
    assert_eq!(num(&r.categories[1].percentage), dec("18.18"));
    assert_eq!(num(&r.categories[2].percentage), dec("9.09"));
    let kids: Vec<&str> = r.categories[0].children.iter().map(|c| c.category_id.as_str()).collect();
    assert_eq!(kids, vec!["SOFT", "HW"]);
    assert_eq!(num(&r.categories[0].children[0].value), Decimal::from(600));
    assert_eq!(num(&r.categories[0].children[1].value), Decimal::from(200));
    assert_eq!(r.categories[0].children[0].category_name, "Software");
    assert!(r.categories[1].children.is_empty());
}

#[test]
fn without_rollup_categories_stand_alone() {
    let r = aggregate_by_taxonomy(
        &sample_holdings(),
        "industries_gics",
        "Sectors",
        "#da702c",
        &sectors(),
        &sample_assignments(),
        whole(1100),
        false,
    );
    let ids: Vec<&str> = r.categories.iter().map(|c| c.category_id.as_str()).collect();
    assert_eq!(ids, vec!["SOFT", "HW", "FIN", "__UNKNOWN__"]);
    assert!(r.categories.iter().all(|c| c.children.is_empty()));
}

#[test]
fn cash_counts_as_bank_deposits_in_asset_classes() {
    let cats = vec![category("CASH", "Cash", None), category("CASH_BANK_DEPOSITS", "Bank deposits", Some("CASH"))];
    let r = aggregate_by_taxonomy(
        &vec![holding(HoldingType::Cash, Some("cash-usd"), 250)],
        "asset_classes",
        "Asset Classes",
        "#879a39",
        &cats,
        &Vec::new(),
        whole(250),
        true,
    );
    assert_eq!(r.categories.len(), 1);
    assert_eq!(r.categories[0].category_id, "CASH");
    assert_eq!(num(&r.categories[0].percentage), dec("100.00"));
    assert_eq!(r.categories[0].children[0].category_id, "CASH_BANK_DEPOSITS");
}

#[test]
fn portfolio_breakdowns_use_friendly_names_and_totals() {
    let taxonomies = vec![
        TaxonomyWithCategories {
            taxonomy: Taxonomy { id: "industries_gics".into(), name: "GICS".into(), color: "#111111".into(), is_system: true },
            categories: sectors(),
        },
        TaxonomyWithCategories {
            taxonomy: Taxonomy { id: "custom_groups".into(), name: "Custom".into(), color: "#222222".into(), is_system: true },
            categories: Vec::new(),
        },
        TaxonomyWithCategories {
            taxonomy: Taxonomy { id: "mine".into(), name: "Mine".into(), color: "#333333".into(), is_system: false },
            categories: Vec::new(),
        },
    ];
    let r = portfolio_allocations(&sample_holdings(), &taxonomies, &sample_assignments());
    assert_eq!(num(&r.total_value), Decimal::from(1200));
    assert_eq!(r.sectors.taxonomy_name, "Sectors");
    assert_eq!(r.sectors.color, "#111111");
    assert_eq!(r.sectors.categories.len(), 3);
    assert_eq!(r.regions.taxonomy_name, "Regions");
    assert!(r.regions.categories.is_empty());
    assert_eq!(r.custom_groups.len(), 1);
    assert_eq!(r.custom_groups[0].taxonomy_name, "Mine");
    assert_eq!(r.custom_groups[0].categories[0].category_id, "__UNKNOWN__");
}

#[test]
fn empty_portfolio_gets_blank_breakdowns() {
    let r = portfolio_allocations(&Vec::new(), &Vec::new(), &Vec::new());
    assert_eq!(num(&r.total_value), Decimal::ZERO);
    assert_eq!(r.asset_classes.taxonomy_id, "");
    assert!(r.custom_groups.is_empty());
}

fn drill(asset: Option<&str>, kind: HoldingType, value: i64) -> DrillHolding {
    DrillHolding {
        id: format!("h-{}", asset.unwrap_or("none")),
        holding_type: kind,
        asset_id: asset.map(str::to_string),
        symbol: asset.unwrap_or("").to_uppercase(),
        name: asset.map(|a| format!("{a} Corp")),
        quantity: whole(1),
        market_value: whole(value),
        base_currency: "USD".into(),
    }
}

#[test]
fn drilling_into_a_top_level_category_covers_its_children() {
    let cats = sectors();
    let matching = matching_category_ids(&cats, "IT");
    assert_eq!(matching, vec!["IT".to_string(), "SOFT".to_string(), "HW".to_string()]);
    let holdings = vec![
        drill(Some("a2"), HoldingType::Security, 400),
        drill(Some("a1"), HoldingType::Security, 600),
        drill(Some("a3"), HoldingType::Security, 100),
    ];
    let assignments = vec![
        CategoryAssignment { asset_id: "a1".into(), weight: 10000 },
        CategoryAssignment { asset_id: "a2".into(), weight: 5000 },
    ];
    let taxonomy = Some(TaxonomyWithCategories {
        taxonomy: Taxonomy { id: "industries_gics".into(), name: "Sectors".into(), color: "#da702c".into(), is_system: true },
        categories: cats,
    });
    let r = holdings_by_allocation(
        &holdings,
        &vec![true, true, false],
        "industries_gics",
        "IT",
        "USD",
        &taxonomy,
        &matching,
        &assignments,
    )
    .unwrap();
    assert_eq!(r.category_name, "Information Technology");
    assert_eq!(num(&r.total_value), Decimal::from(800));
    assert_eq!(r.holdings.len(), 2);
    assert_eq!(r.holdings[0].id, "a1");
    assert_eq!(num(&r.holdings[0].weight_in_category), dec("75.00"));
    assert_eq!(r.holdings[1].id, "a2");
    assert_eq!(num(&r.holdings[1].market_value), Decimal::from(200));
    assert_eq!(num(&r.holdings[1].weight_in_category), dec("25.00"));
}

#[test]
fn unknown_category_holds_unassigned_holdings() {
    let holdings = vec![drill(Some("a1"), HoldingType::Security, 600), drill(Some("a3"), HoldingType::Security, 100)];
    let matching = matching_category_ids(&sectors(), "__UNKNOWN__");
    assert_eq!(matching, vec!["__UNKNOWN__".to_string()]);
    let r = holdings_by_allocation(
        &holdings,
        &vec![true, false],
        "industries_gics",
        "__UNKNOWN__",
        "USD",
        &None,
        &matching,
        &Vec::new(),
    )
    .unwrap();
    assert_eq!(r.taxonomy_name, "Unknown");
    assert_eq!(r.category_name, "Unknown");
    assert_eq!(r.holdings.len(), 1);
    assert_eq!(r.holdings[0].id, "a3");
    assert_eq!(num(&r.holdings[0].weight_in_category), dec("100.00"));
}

#[test]
fn no_holdings_gives_an_empty_drill_down() {
    let r = holdings_by_allocation(&Vec::new(), &Vec::new(), "regions", "EU", "EUR", &None, &Vec::new(), &Vec::new())
        .unwrap();
    assert!(r.holdings.is_empty());
    assert_eq!(r.category_name, "EU");
    assert_eq!(r.color, "#808080");
    assert_eq!(r.currency, "EUR");
}

#[test]
fn weight_overflow_gives_nothing() {
    let holdings = vec![drill(Some("a1"), HoldingType::Security, 600)];
    let assignments = vec![
        CategoryAssignment { asset_id: "a1".into(), weight: i32::MAX },
        CategoryAssignment { asset_id: "a1".into(), weight: 1 },
    ];
    let r = holdings_by_allocation(
        &holdings,
        &vec![true],
        "industries_gics",
        "IT",
        "USD",
        &None,
        &vec!["IT".to_string()],
        &assignments,
    );
    assert!(r.is_none());
}
