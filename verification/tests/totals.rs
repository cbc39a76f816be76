use craftcalc::amount::parse_decimal;
use craftcalc::calc::calculate_total_material_cost;
use craftcalc::calc::get_selling_total;
use craftcalc::calc::get_total_labor_cost;
use craftcalc::calc::try_calculate_total_material_cost;
use craftcalc::calc::try_get_total_labor_cost;
use craftcalc::config::RawConfig;
use craftcalc::config::RawMaterial;
use craftcalc::config::RecipeConfig;
use craftcalc::report::get_individual_material_qty_and_cost_string;
use craftcalc::report::longest_name_len;
use craftcalc::report::render_report;
use craftcalc::validate::validate;

fn mat(name: &str, qty: &str, price: &str) -> RawMaterial {
    RawMaterial {
        mat_name: Some(name.to_string()),
        qty: Some(qty.to_string()),
        price_per: Some(price.to_string()),
    }
}

// A one-craft recipe with three single-unit materials.
fn config_one() -> RecipeConfig {
    let raw = RawConfig {
        name: Some("test".to_string()),
        qty_per_craft: Some("1".to_string()),
        num_crafts_wanted: Some("1".to_string()),
        price_of_single_when_sold: Some("1.1".to_string()),
        cost_of_labor_per_craft: Some("5".to_string()),
        materials_per_craft: Some(vec![
            mat("mat1", "1", "1.0"),
            mat("mat2", "1", "2.0"),
            mat("mat3", "1", "3.0"),
        ]),
    };
    validate(&raw).unwrap()
}

// A fifty-craft recipe with larger quantities and fractional prices.
fn config_two() -> RecipeConfig {
    let raw = RawConfig {
        name: Some("test_2".to_string()),
        qty_per_craft: Some("10".to_string()),
        num_crafts_wanted: Some("50".to_string()),
        price_of_single_when_sold: Some("1.1999".to_string()),
        cost_of_labor_per_craft: Some("20".to_string()),
        materials_per_craft: Some(vec![
            mat("powder", "2000", "0.04"),
            mat("ammo", "20", "2.0"),
            mat("aaaaaaaaaaaaaaaaaaaaalongformatcrap", "999", "0.0012"),
        ]),
    };
    validate(&raw).unwrap()
}

#[test]
fn test_json_parse() {
    let text_one = r#"
{
    "name": "test",
    "qty_per_craft": 1,
    "num_crafts_wanted": 1,
    "cost_of_labor_per_craft": 5,
    "price_of_single_when_sold": 1.1,
    "materials_per_craft": [
        {"mat_name": "mat1", "qty": 1, "price_per": 1.0},
        {"mat_name": "mat2", "qty": 1, "price_per": 2.0},
        {"mat_name": "mat3", "qty": 1, "price_per": 3.0}
    ]
}
"#;
    let text_two = r#"
{
    "name": "test_2",
    "qty_per_craft": 10,
    "num_crafts_wanted": 50,
    "cost_of_labor_per_craft": 20,
    "price_of_single_when_sold": 1.1999,
    "materials_per_craft": [
        {"mat_name": "powder", "qty": 2000, "price_per": 0.04},
        {"mat_name": "ammo", "qty": 20, "price_per": 2.0},
        {"mat_name": "aaaaaaaaaaaaaaaaaaaaalongformatcrap", "qty": 999, "price_per": 0.0012}
    ]
}
"#;
    json::parse(text_one).unwrap();
    json::parse(text_two).unwrap();
}

#[test]
fn test_caclulate_total_material_cost() {
    let total = calculate_total_material_cost(&config_one());
    assert!(total == parse_decimal("6.0").unwrap(), "actual: {}", total.to_decimal_string());

    // Per-craft materials cost 121.1988, times the 50 crafts wanted.
    let total = calculate_total_material_cost(&config_two());
    assert!(
        total == parse_decimal("6059.94").unwrap(),
        "actual: {}",
        total.to_decimal_string()
    );
}

#[test]
fn test_total_labor_cost() {
    let labor = get_total_labor_cost(&config_one());
    assert!(labor == 5, "actual: {}", labor);

    let labor = get_total_labor_cost(&config_two());
    assert!(labor == 1000, "actual: {}", labor);
}

#[test]
fn test_begin() {
    let c = config_two();
    let labor = get_total_labor_cost(&c);
    let selling = get_selling_total(&c);
    let material = calculate_total_material_cost(&c);
    let report = render_report(&c, labor, &selling, &material);
    println!("{}", report);
}

#[test]
fn selling_total_is_price_times_units() {
    let selling = get_selling_total(&config_one());
    assert_eq!(selling, parse_decimal("1.1").unwrap());

    let selling = get_selling_total(&config_two());
    assert_eq!(selling, parse_decimal("599.95").unwrap());
}

#[test]
fn profit_is_revenue_minus_material_cost() {
    let c = config_one();
    let selling = get_selling_total(&c);
    let material = calculate_total_material_cost(&c);
    let profit = selling.minus(material);
    assert_eq!(profit, parse_decimal("-4.9").unwrap());
}

#[test]
fn checked_totals_detect_overflow() {
    let raw = RawConfig {
        name: Some("huge".to_string()),
        qty_per_craft: Some("1".to_string()),
        num_crafts_wanted: Some("18446744073709551615".to_string()),
        price_of_single_when_sold: Some("0".to_string()),
        cost_of_labor_per_craft: Some("2".to_string()),
        materials_per_craft: Some(vec![mat("stone", "3", "1.0")]),
    };
    let c = validate(&raw).unwrap();
    assert_eq!(try_get_total_labor_cost(&c), None);
    assert_eq!(try_calculate_total_material_cost(&c), None);
}

#[test]
fn longest_name_sets_the_alignment() {
    assert_eq!(longest_name_len(&config_one()), 4);
    assert_eq!(longest_name_len(&config_two()), 35);
}

#[test]
fn renders_the_first_scenario_report_exactly() {
    let c = config_one();
    let labor = get_total_labor_cost(&c);
    let selling = get_selling_total(&c);
    let material = calculate_total_material_cost(&c);
    let report = render_report(&c, labor, &selling, &material);

    let mut expected = String::new();
    expected.push_str("Calculating for: \ttest\n");
    expected.push_str("Number of Crafts: \t1\n");
    expected.push_str("Produced Per Craft: \t1\n");
    expected.push_str("Labor cost: \t\t5\n\n");
    expected.push_str("Expected selling total: \t1g 10s 0c\n");
    expected.push_str("Cost of materials in total: \t6g 0s 0c\n");
    expected.push_str("Expected Profit: \t\t-4g 90s 0c\n");
    expected.push_str(&format!(
        "\t{:4} :: Qty: {:6} :: Price Per Unit: {:10} :: Total: {:30}\n",
        "mat1", 1u64, "1g 0s 0c", "1g 0s 0c"
    ));
    expected.push_str(&format!(
        "\t{:4} :: Qty: {:6} :: Price Per Unit: {:10} :: Total: {:30}\n",
        "mat2", 1u64, "2g 0s 0c", "2g 0s 0c"
    ));
    expected.push_str(&format!(
        "\t{:4} :: Qty: {:6} :: Price Per Unit: {:10} :: Total: {:30}\n",
        "mat3", 1u64, "3g 0s 0c", "3g 0s 0c"
    ));
    expected.push('\n');
    assert_eq!(report, expected);
}

#[test]
fn material_lines_scale_each_total_by_the_craft_count() {
    let c = config_two();
    let lines = get_individual_material_qty_and_cost_string(&c);
    // powder: 0.04 * 2000 * 50 = 4000; ammo: 2.0 * 20 * 50 = 2000;
    // the long material: 0.0012 * 999 * 50 = 59.94.
    assert!(lines.contains("powder"));
    assert!(lines.contains("4000g 0s 0c"));
    assert!(lines.contains("2000g 0s 0c"));
    assert!(lines.contains("59g 94s 0c"));
}
