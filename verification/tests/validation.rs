use craftcalc::config::Field;
use craftcalc::config::MatField;
use craftcalc::config::RawConfig;
use craftcalc::config::RawMaterial;
use craftcalc::config::ValidationError;
use craftcalc::validate::validate;

fn mat(name: Option<&str>, qty: Option<&str>, price: Option<&str>) -> RawMaterial {
    RawMaterial {
        mat_name: name.map(|s| s.to_string()),
        qty: qty.map(|s| s.to_string()),
        price_per: price.map(|s| s.to_string()),
    }
}

fn full_raw() -> RawConfig {
    RawConfig {
        name: Some("test".to_string()),
        qty_per_craft: Some("1".to_string()),
        num_crafts_wanted: Some("1".to_string()),
        price_of_single_when_sold: Some("1.1".to_string()),
        cost_of_labor_per_craft: Some("5".to_string()),
        materials_per_craft: Some(vec![
            mat(Some("mat1"), Some("1"), Some("1.0")),
            mat(Some("mat2"), Some("1"), Some("2.0")),
            mat(Some("mat3"), Some("1"), Some("3.0")),
        ]),
    }
}

#[test]
fn rejects_each_missing_top_level_field() {
    let mut r = full_raw();
    r.name = None;
    assert_eq!(validate(&r).err(), Some(ValidationError::MissingField(Field::Name)));

    let mut r = full_raw();
    r.qty_per_craft = None;
    assert_eq!(validate(&r).err(), Some(ValidationError::MissingField(Field::QtyPerCraft)));

    let mut r = full_raw();
    r.num_crafts_wanted = None;
    assert_eq!(validate(&r).err(), Some(ValidationError::MissingField(Field::NumCraftsWanted)));

    let mut r = full_raw();
    r.price_of_single_when_sold = None;
    assert_eq!(
        validate(&r).err(),
        Some(ValidationError::MissingField(Field::PriceOfSingleWhenSold))
    );

    let mut r = full_raw();
    r.cost_of_labor_per_craft = None;
    assert_eq!(
        validate(&r).err(),
        Some(ValidationError::MissingField(Field::CostOfLaborPerCraft))
    );

    let mut r = full_raw();
    r.materials_per_craft = None;
    assert_eq!(validate(&r).err(), Some(ValidationError::MissingField(Field::MaterialsPerCraft)));
}

#[test]
fn rejects_missing_material_fields_naming_the_index() {
    let mut r = full_raw();
    r.materials_per_craft = Some(vec![
        mat(Some("mat1"), Some("1"), Some("1.0")),
        mat(None, Some("1"), Some("2.0")),
    ]);
    assert_eq!(
        validate(&r).err(),
        Some(ValidationError::MissingMaterialField(1, MatField::MatName))
    );

    r.materials_per_craft = Some(vec![
        mat(Some("mat1"), Some("1"), Some("1.0")),
        mat(Some("mat2"), None, Some("2.0")),
    ]);
    assert_eq!(validate(&r).err(), Some(ValidationError::MissingMaterialField(1, MatField::Qty)));

    r.materials_per_craft = Some(vec![
        mat(Some("mat1"), Some("1"), Some("1.0")),
        mat(Some("mat2"), Some("1"), None),
    ]);
    assert_eq!(
        validate(&r).err(),
        Some(ValidationError::MissingMaterialField(1, MatField::PricePer))
    );
}

#[test]
fn rejects_empty_materials_list() {
    let mut r = full_raw();
    r.materials_per_craft = Some(vec![]);
    assert_eq!(validate(&r).err(), Some(ValidationError::EmptyMaterials));
}

#[test]
fn rejects_unusable_top_level_values() {
    let mut r = full_raw();
    r.qty_per_craft = Some("0".to_string());
    assert_eq!(validate(&r).err(), Some(ValidationError::InvalidValue(Field::QtyPerCraft)));

    let mut r = full_raw();
    r.num_crafts_wanted = Some("ten".to_string());
    assert_eq!(validate(&r).err(), Some(ValidationError::InvalidValue(Field::NumCraftsWanted)));

    let mut r = full_raw();
    r.price_of_single_when_sold = Some("-1.0".to_string());
    assert_eq!(
        validate(&r).err(),
        Some(ValidationError::InvalidValue(Field::PriceOfSingleWhenSold))
    );

    let mut r = full_raw();
    r.cost_of_labor_per_craft = Some("5.5".to_string());
    assert_eq!(
        validate(&r).err(),
        Some(ValidationError::InvalidValue(Field::CostOfLaborPerCraft))
    );
}

#[test]
fn rejects_unusable_material_values_naming_the_index() {
    let mut r = full_raw();
    r.materials_per_craft = Some(vec![
        mat(Some("mat1"), Some("1"), Some("1.0")),
        mat(Some("mat2"), Some("0"), Some("2.0")),
    ]);
    assert_eq!(validate(&r).err(), Some(ValidationError::InvalidMaterialValue(1, MatField::Qty)));

    r.materials_per_craft = Some(vec![
        mat(Some("mat1"), Some("1"), Some("\"cheap\"")),
    ]);
    assert_eq!(
        validate(&r).err(),
        Some(ValidationError::InvalidMaterialValue(0, MatField::PricePer))
    );
}

#[test]
fn missing_fields_win_over_bad_values() {
    // Presence of every field is checked before any value is read.
    let mut r = full_raw();
    r.qty_per_craft = Some("0".to_string());
    r.materials_per_craft = Some(vec![mat(None, Some("1"), Some("1.0"))]);
    assert_eq!(
        validate(&r).err(),
        Some(ValidationError::MissingMaterialField(0, MatField::MatName))
    );
}

#[test]
fn decodes_a_valid_record() {
    let c = validate(&full_raw()).unwrap();
    assert_eq!(c.name, "test");
    assert_eq!(c.qty_per_craft, 1);
    assert_eq!(c.num_crafts_wanted, 1);
    assert_eq!(c.cost_of_labor_per_craft, 5);
    assert!(!c.price_of_single_when_sold.neg);
    assert_eq!(c.price_of_single_when_sold.mag, 11000);
    assert_eq!(c.materials.len(), 3);
    assert_eq!(c.materials[0].name, "mat1");
    assert_eq!(c.materials[0].qty, 1);
    assert_eq!(c.materials[0].price_per.mag, 10000);
    assert_eq!(c.materials[2].name, "mat3");
    assert_eq!(c.materials[2].price_per.mag, 30000);
}
