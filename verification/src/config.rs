//! Recipe configuration data: the loosely-typed input record as it
//! arrives from a structured-data document, the validated typed
//! configuration, and the validation error taxonomy.

use vstd::prelude::*;

use crate::amount::Amount;

verus! {

/// One material of the input document, before validation.  A field
/// absent from the document is `None`; numeric fields carry the
/// number's decimal text.
pub struct RawMaterial {
    pub mat_name: Option<String>,
    pub qty: Option<String>,
    pub price_per: Option<String>,
}

/// The input document's top-level record, before validation.  A field
/// absent from the document is `None`; numeric fields carry the
/// number's decimal text.
pub struct RawConfig {
    pub name: Option<String>,
    pub qty_per_craft: Option<String>,
    pub num_crafts_wanted: Option<String>,
    pub price_of_single_when_sold: Option<String>,
    pub cost_of_labor_per_craft: Option<String>,
    pub materials_per_craft: Option<Vec<RawMaterial>>,
}

/// One validated material: a display name, the units consumed per
/// craft, and the non-negative cost per unit.
pub struct MaterialEntry {
    pub name: String,
    pub qty: u64,
    pub price_per: Amount,
}

impl MaterialEntry {
    /// A validated material consumes at least one unit and has a
    /// well-formed, non-negative unit price.
    pub open spec fn wf(self) -> bool {
        &&& self.qty >= 1
        &&& self.price_per.wf()
        &&& !self.price_per.neg
    }
}

/// A validated recipe configuration.
pub struct RecipeConfig {
    pub name: String,
    pub qty_per_craft: u64,
    pub num_crafts_wanted: u64,
    pub price_of_single_when_sold: Amount,
    pub cost_of_labor_per_craft: u64,
    pub materials: Vec<MaterialEntry>,
}

impl RecipeConfig {
    /// The invariants validation establishes: positive craft counts, a
    /// well-formed non-negative sale price, and at least one
    /// well-formed material.
    pub open spec fn wf(self) -> bool {
        &&& self.qty_per_craft >= 1
        &&& self.num_crafts_wanted >= 1
        &&& self.price_of_single_when_sold.wf()
        &&& !self.price_of_single_when_sold.neg
        &&& self.materials@.len() >= 1
        &&& forall|i: int|
            0 <= i < self.materials@.len() ==> (#[trigger] self.materials@[i]).wf()
    }
}

/// The required top-level fields of the input record.
#[derive(Clone, Copy, PartialEq, Eq, Structural, Debug)]
pub enum Field {
    Name,
    QtyPerCraft,
    NumCraftsWanted,
    PriceOfSingleWhenSold,
    CostOfLaborPerCraft,
    MaterialsPerCraft,
}

/// The required fields of one material entry.
#[derive(Clone, Copy, PartialEq, Eq, Structural, Debug)]
pub enum MatField {
    MatName,
    Qty,
    PricePer,
}

/// Why a configuration was rejected.  Errors that concern one material
/// carry the material's position in the list.
#[derive(Clone, Copy, PartialEq, Eq, Structural, Debug)]
pub enum ValidationError {
    /// A required top-level field is absent.
    MissingField(Field),
    /// The materials list has no entries.
    EmptyMaterials,
    /// A required field of the given material is absent.
    MissingMaterialField(usize, MatField),
    /// A top-level field holds no usable value: not a numeral of the
    /// expected kind, out of range, or zero where a positive count is
    /// required.
    InvalidValue(Field),
    /// A field of the given material holds no usable value.
    InvalidMaterialValue(usize, MatField),
}

} // verus!
