//! The recipe validator: checks a loosely-typed input record for the
//! required fields and usable values, and decodes it into a typed
//! [`RecipeConfig`].  Checks run in a fixed order and the first
//! failure is reported, naming the offending field and, for material
//! fields, the material's position.

use vstd::prelude::*;

use crate::amount::amount_of_text;
use crate::amount::parse_decimal;
use crate::config::Field;
use crate::config::MatField;
use crate::config::MaterialEntry;
use crate::config::RawConfig;
use crate::config::RawMaterial;
use crate::config::RecipeConfig;
use crate::config::ValidationError;
use crate::numerals::parse_u64;
use crate::numerals::u64_of_text;

verus! {

/// The value of a decimal digit text as a positive count: like
/// `u64_of_text`, but zero is not a usable count.
pub open spec fn pos_u64_of_text(s: Seq<char>) -> Option<int> {
    match u64_of_text(s) {
        Some(v) => if v >= 1 {
            Some(v)
        } else {
            None
        },
        None => None,
    }
}

/// The first material at or after position `i` with a required field
/// absent, as the error naming it; `None` when every later material is
/// complete.
pub open spec fn first_missing_mat_field(ms: Seq<RawMaterial>, i: int) -> Option<ValidationError>
    decreases ms.len() - i,
{
    if i < 0 || i >= ms.len() {
        None
    } else if ms[i].mat_name is None {
        Some(ValidationError::MissingMaterialField(i as usize, MatField::MatName))
    } else if ms[i].qty is None {
        Some(ValidationError::MissingMaterialField(i as usize, MatField::Qty))
    } else if ms[i].price_per is None {
        Some(ValidationError::MissingMaterialField(i as usize, MatField::PricePer))
    } else {
        first_missing_mat_field(ms, i + 1)
    }
}

/// The first material at or after position `i` with an unusable value,
/// as the error naming it; `None` when every later material decodes.
/// Presence of the fields must already be established.
pub open spec fn first_invalid_mat_value(ms: Seq<RawMaterial>, i: int) -> Option<ValidationError>
    decreases ms.len() - i,
{
    if i < 0 || i >= ms.len() {
        None
    } else if pos_u64_of_text(ms[i].qty->0@) is None {
        Some(ValidationError::InvalidMaterialValue(i as usize, MatField::Qty))
    } else if amount_of_text(ms[i].price_per->0@) is None {
        Some(ValidationError::InvalidMaterialValue(i as usize, MatField::PricePer))
    } else {
        first_invalid_mat_value(ms, i + 1)
    }
}

/// The first failure validation reports for `r`, or `None` for a
/// valid record.  The order is fixed: presence of the six top-level
/// fields, a non-empty materials list, presence of every material's
/// fields, then the usability of the top-level values and of every
/// material's values.
pub open spec fn spec_first_error(r: RawConfig) -> Option<ValidationError> {
    if r.name is None {
        Some(ValidationError::MissingField(Field::Name))
    } else if r.qty_per_craft is None {
        Some(ValidationError::MissingField(Field::QtyPerCraft))
    } else if r.num_crafts_wanted is None {
        Some(ValidationError::MissingField(Field::NumCraftsWanted))
    } else if r.price_of_single_when_sold is None {
        Some(ValidationError::MissingField(Field::PriceOfSingleWhenSold))
    } else if r.cost_of_labor_per_craft is None {
        Some(ValidationError::MissingField(Field::CostOfLaborPerCraft))
    } else if r.materials_per_craft is None {
        Some(ValidationError::MissingField(Field::MaterialsPerCraft))
    } else if r.materials_per_craft->0@.len() == 0 {
        Some(ValidationError::EmptyMaterials)
    } else if first_missing_mat_field(r.materials_per_craft->0@, 0) is Some {
        first_missing_mat_field(r.materials_per_craft->0@, 0)
    } else if pos_u64_of_text(r.qty_per_craft->0@) is None {
        Some(ValidationError::InvalidValue(Field::QtyPerCraft))
    } else if pos_u64_of_text(r.num_crafts_wanted->0@) is None {
        Some(ValidationError::InvalidValue(Field::NumCraftsWanted))
    } else if amount_of_text(r.price_of_single_when_sold->0@) is None {
        Some(ValidationError::InvalidValue(Field::PriceOfSingleWhenSold))
    } else if u64_of_text(r.cost_of_labor_per_craft->0@) is None {
        Some(ValidationError::InvalidValue(Field::CostOfLaborPerCraft))
    } else if first_invalid_mat_value(r.materials_per_craft->0@, 0) is Some {
        first_invalid_mat_value(r.materials_per_craft->0@, 0)
    } else {
        None
    }
}

/// How one validated material relates to the raw material it decodes.
pub open spec fn material_decodes(m: MaterialEntry, rm: RawMaterial) -> bool {
    &&& m.name@ == rm.mat_name->0@
    &&& Some(m.qty as int) == pos_u64_of_text(rm.qty->0@)
    &&& Some(m.price_per.to_int()) == amount_of_text(rm.price_per->0@)
}

/// Validates and decodes a raw input record in one step.  On success
/// the typed configuration satisfies its invariants and every field
/// holds exactly the decoded value of the corresponding input text; on
/// failure the error is the first one in the fixed checking order.
pub fn validate(r: &RawConfig) -> (res: Result<RecipeConfig, ValidationError>)
    ensures
        match res {
            Err(e) => spec_first_error(*r) == Some(e),
            Ok(c) => {
                &&& spec_first_error(*r) is None
                &&& c.wf()
                &&& c.name@ == r.name->0@
                &&& Some(c.qty_per_craft as int) == pos_u64_of_text(r.qty_per_craft->0@)
                &&& Some(c.num_crafts_wanted as int) == pos_u64_of_text(r.num_crafts_wanted->0@)
                &&& Some(c.price_of_single_when_sold.to_int()) == amount_of_text(
                    r.price_of_single_when_sold->0@,
                )
                &&& Some(c.cost_of_labor_per_craft as int) == u64_of_text(
                    r.cost_of_labor_per_craft->0@,
                )
                &&& c.materials@.len() == r.materials_per_craft->0@.len()
                &&& forall|i: int|
                    0 <= i < c.materials@.len() ==> material_decodes(
                        #[trigger] c.materials@[i],
                        r.materials_per_craft->0@[i],
                    )
            },
        },
{
    if r.name.is_none() {
        return Err(ValidationError::MissingField(Field::Name));
    }
    if r.qty_per_craft.is_none() {
        return Err(ValidationError::MissingField(Field::QtyPerCraft));
    }
    if r.num_crafts_wanted.is_none() {
        return Err(ValidationError::MissingField(Field::NumCraftsWanted));
    }
    if r.price_of_single_when_sold.is_none() {
        return Err(ValidationError::MissingField(Field::PriceOfSingleWhenSold));
    }
    if r.cost_of_labor_per_craft.is_none() {
        return Err(ValidationError::MissingField(Field::CostOfLaborPerCraft));
    }
    let ms: &Vec<RawMaterial> = match &r.materials_per_craft {
        Some(v) => v,
        None => {
            return Err(ValidationError::MissingField(Field::MaterialsPerCraft));
        },
    };
    if ms.len() == 0 {
        return Err(ValidationError::EmptyMaterials);
    }
    let mut i: usize = 0;
    while i < ms.len()
        invariant
            0 <= i <= ms@.len(),
            first_missing_mat_field(ms@, 0) == first_missing_mat_field(ms@, i as int),
            forall|j: int|
                0 <= j < i ==> {
                    &&& (#[trigger] ms@[j]).mat_name is Some
                    &&& ms@[j].qty is Some
                    &&& ms@[j].price_per is Some
                },
        decreases ms@.len() - i,
    {
        if ms[i].mat_name.is_none() {
            return Err(ValidationError::MissingMaterialField(i, MatField::MatName));
        }
        if ms[i].qty.is_none() {
            return Err(ValidationError::MissingMaterialField(i, MatField::Qty));
        }
        if ms[i].price_per.is_none() {
            return Err(ValidationError::MissingMaterialField(i, MatField::PricePer));
        }
        i += 1;
    }
    let qty_per_craft = match parse_u64(r.qty_per_craft.as_ref().unwrap().as_str()) {
        Some(v) => if v >= 1 {
            v
        } else {
            return Err(ValidationError::InvalidValue(Field::QtyPerCraft));
        },
        None => {
            return Err(ValidationError::InvalidValue(Field::QtyPerCraft));
        },
    };
    let num_crafts_wanted = match parse_u64(r.num_crafts_wanted.as_ref().unwrap().as_str()) {
        Some(v) => if v >= 1 {
            v
        } else {
            return Err(ValidationError::InvalidValue(Field::NumCraftsWanted));
        },
        None => {
            return Err(ValidationError::InvalidValue(Field::NumCraftsWanted));
        },
    };
    let price_of_single_when_sold = match parse_decimal(
        r.price_of_single_when_sold.as_ref().unwrap().as_str(),
    ) {
        Some(a) => if !a.neg {
            a
        } else {
            return Err(ValidationError::InvalidValue(Field::PriceOfSingleWhenSold));
        },
        None => {
            return Err(ValidationError::InvalidValue(Field::PriceOfSingleWhenSold));
        },
    };
    let cost_of_labor_per_craft = match parse_u64(
        r.cost_of_labor_per_craft.as_ref().unwrap().as_str(),
    ) {
        Some(v) => v,
        None => {
            return Err(ValidationError::InvalidValue(Field::CostOfLaborPerCraft));
        },
    };
    let mut materials: Vec<MaterialEntry> = Vec::new();
    let mut k: usize = 0;
    while k < ms.len()
        invariant
            0 <= k <= ms@.len(),
            materials@.len() == k,
            first_invalid_mat_value(ms@, 0) == first_invalid_mat_value(ms@, k as int),
            forall|j: int|
                0 <= j < k ==> material_decodes(#[trigger] materials@[j], ms@[j]),
            forall|j: int| 0 <= j < k ==> (#[trigger] materials@[j]).wf(),
        decreases ms@.len() - k,
    {
        let rm = &ms[k];
        let qty = match parse_u64(rm.qty.as_ref().unwrap().as_str()) {
            Some(v) => if v >= 1 {
                v
            } else {
                return Err(ValidationError::InvalidMaterialValue(k, MatField::Qty));
            },
            None => {
                return Err(ValidationError::InvalidMaterialValue(k, MatField::Qty));
            },
        };
        let price_per = match parse_decimal(rm.price_per.as_ref().unwrap().as_str()) {
            Some(a) => if !a.neg {
                a
            } else {
                return Err(ValidationError::InvalidMaterialValue(k, MatField::PricePer));
            },
            None => {
                return Err(ValidationError::InvalidMaterialValue(k, MatField::PricePer));
            },
        };
        let name = rm.mat_name.as_ref().unwrap().clone();
        materials.push(MaterialEntry { name, qty, price_per });
        k += 1;
    }
    Ok(
        RecipeConfig {
            name: r.name.as_ref().unwrap().clone(),
            qty_per_craft,
            num_crafts_wanted,
            price_of_single_when_sold,
            cost_of_labor_per_craft,
            materials,
        },
    )
}

} // verus!
