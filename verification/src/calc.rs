//! The cost calculator: total material cost, total labor cost and
//! total expected revenue over a validated configuration.  Monetary
//! results are exact fixed-point amounts; labor cost is a plain
//! integer.

use vstd::prelude::*;

use crate::amount::Amount;
use crate::config::MaterialEntry;
use crate::config::RecipeConfig;

verus! {

/// The cost of one craft's materials, in ten-thousandths of a major
/// unit: the sum of `qty * price_per` over the list, in list order.
pub open spec fn spec_materials_sum(ms: Seq<MaterialEntry>) -> int
    decreases ms.len(),
{
    if ms.len() == 0 {
        0
    } else {
        spec_materials_sum(ms.drop_last()) + ms.last().qty * ms.last().price_per.mag
    }
}

/// Total material cost in ten-thousandths: the per-craft materials sum
/// times the number of crafts wanted.
pub open spec fn spec_material_cost(c: RecipeConfig) -> int {
    c.num_crafts_wanted * spec_materials_sum(c.materials@)
}

/// Total labor cost: labor per craft times the number of crafts, in
/// exact integer arithmetic.
pub open spec fn spec_labor_cost(c: RecipeConfig) -> int {
    c.cost_of_labor_per_craft * c.num_crafts_wanted
}

/// Total expected revenue in ten-thousandths: the unit sale price
/// times units per craft times the number of crafts.
pub open spec fn spec_selling_total(c: RecipeConfig) -> int {
    c.price_of_single_when_sold.mag * c.qty_per_craft * c.num_crafts_wanted
}

/// Every term of the materials sum is non-negative, so the sum is too.
pub proof fn lemma_materials_sum_nonneg(ms: Seq<MaterialEntry>)
    ensures
        spec_materials_sum(ms) >= 0,
    decreases ms.len(),
{
    if ms.len() > 0 {
        lemma_materials_sum_nonneg(ms.drop_last());
        assert(ms.last().qty * ms.last().price_per.mag >= 0) by (nonlinear_arith)
            requires
                ms.last().qty >= 0,
                ms.last().price_per.mag >= 0,
        ;
    }
}

/// Extending a prefix by one material adds that material's term.
pub proof fn lemma_materials_sum_take_step(ms: Seq<MaterialEntry>, i: int)
    requires
        0 <= i < ms.len(),
    ensures
        spec_materials_sum(ms.take(i + 1)) == spec_materials_sum(ms.take(i)) + ms[i].qty
            * ms[i].price_per.mag,
{
    assert(ms.take(i + 1).drop_last() =~= ms.take(i));
    assert(ms.take(i + 1).last() == ms[i]);
}

/// A prefix of the materials sum never exceeds the whole sum.
pub proof fn lemma_materials_sum_take_le(ms: Seq<MaterialEntry>, i: int)
    requires
        0 <= i <= ms.len(),
    ensures
        spec_materials_sum(ms.take(i)) <= spec_materials_sum(ms),
    decreases ms.len() - i,
{
    if i < ms.len() {
        lemma_materials_sum_take_step(ms, i);
        assert(ms[i].qty * ms[i].price_per.mag >= 0) by (nonlinear_arith)
            requires
                ms[i].qty >= 0,
                ms[i].price_per.mag >= 0,
        ;
        lemma_materials_sum_take_le(ms, i + 1);
    } else {
        assert(ms.take(i) =~= ms);
    }
}

/// One material's term never exceeds the whole materials sum.
pub proof fn lemma_materials_term_le_sum(ms: Seq<MaterialEntry>, i: int)
    requires
        0 <= i < ms.len(),
    ensures
        ms[i].qty * ms[i].price_per.mag <= spec_materials_sum(ms),
{
    lemma_materials_sum_take_step(ms, i);
    assert(spec_materials_sum(ms.take(i)) >= 0) by {
        lemma_materials_sum_nonneg(ms.take(i));
    }
    lemma_materials_sum_take_le(ms, i + 1);
}

/// A non-negative quantity only grows when multiplied by a count of at
/// least one.
pub proof fn lemma_mul_at_least(a: int, c: int)
    requires
        a >= 0,
        c >= 1,
    ensures
        c * a >= a,
        a * c >= a,
    decreases c,
{
    assert(c * a >= a && a * c >= a) by (nonlinear_arith)
        requires
            a >= 0,
            c >= 1,
    ;
}

/// Multiplying both sides of an inequality by a non-negative count
/// keeps the inequality.
pub proof fn lemma_mul_le_mono(a: int, b: int, c: int)
    requires
        a <= b,
        c >= 0,
    ensures
        a * c <= b * c,
        c * a <= c * b,
{
    assert(a * c <= b * c && c * a <= c * b) by (nonlinear_arith)
        requires
            a <= b,
            c >= 0,
    ;
}

/// Total material cost, computed with overflow checks: `None` exactly
/// when the exact total does not fit the fixed-point magnitude.
pub fn try_calculate_total_material_cost(c: &RecipeConfig) -> (r: Option<Amount>)
    requires
        c.wf(),
    ensures
        match r {
            Some(a) => {
                &&& a.wf()
                &&& !a.neg
                &&& a.to_int() == spec_material_cost(*c)
                &&& spec_material_cost(*c) <= u64::MAX as int
            },
            None => spec_material_cost(*c) > u64::MAX as int,
        },
{
    let ghost all = c.materials@;
    let mut total: u64 = 0;
    let mut i: usize = 0;
    while i < c.materials.len()
        invariant
            0 <= i <= all.len(),
            total == spec_materials_sum(all.take(i as int)),
        decreases all.len() - i,
    {
        let m = &c.materials[i];
        proof {
            lemma_materials_sum_take_step(all, i as int);
            lemma_materials_sum_nonneg(all);
        }
        let term = match m.qty.checked_mul(m.price_per.mag) {
            Some(t) => t,
            None => {
                proof {
                    lemma_materials_term_le_sum(all, i as int);
                    lemma_mul_at_least(spec_materials_sum(all), c.num_crafts_wanted as int);
                }
                return None;
            },
        };
        let next = match total.checked_add(term) {
            Some(t) => t,
            None => {
                proof {
                    lemma_materials_sum_take_le(all, i as int + 1);
                    lemma_mul_at_least(spec_materials_sum(all), c.num_crafts_wanted as int);
                }
                return None;
            },
        };
        total = next;
        i += 1;
    }
    proof {
        assert(all.take(i as int) =~= all);
    }
    match total.checked_mul(c.num_crafts_wanted) {
        Some(product) => Some(Amount::from_mag(product)),
        None => {
            proof {
                assert(c.num_crafts_wanted * spec_materials_sum(all) == total
                    * c.num_crafts_wanted);
            }
            None
        },
    }
}

/// Total material cost = `num_crafts_wanted * sum(qty_i * price_per_i)`,
/// exactly, when the total fits the fixed-point magnitude.
pub fn calculate_total_material_cost(c: &RecipeConfig) -> (r: Amount)
    requires
        c.wf(),
        spec_material_cost(*c) <= u64::MAX as int,
    ensures
        r.wf(),
        !r.neg,
        r.to_int() == spec_material_cost(*c),
{
    match try_calculate_total_material_cost(c) {
        Some(a) => a,
        None => {
            proof {
                assert(false);
            }
            Amount::zero()
        },
    }
}

/// Total labor cost, computed with an overflow check: `None` exactly
/// when the exact product does not fit a `u64`.
pub fn try_get_total_labor_cost(c: &RecipeConfig) -> (r: Option<u64>)
    requires
        c.wf(),
    ensures
        match r {
            Some(v) => v == spec_labor_cost(*c),
            None => spec_labor_cost(*c) > u64::MAX as int,
        },
{
    c.cost_of_labor_per_craft.checked_mul(c.num_crafts_wanted)
}

/// Total labor cost = `cost_of_labor_per_craft * num_crafts_wanted`,
/// exactly, in integer arithmetic.
pub fn get_total_labor_cost(c: &RecipeConfig) -> (r: u64)
    requires
        c.wf(),
        spec_labor_cost(*c) <= u64::MAX as int,
    ensures
        r == spec_labor_cost(*c),
{
    c.cost_of_labor_per_craft * c.num_crafts_wanted
}

/// Total expected revenue, computed with overflow checks: `None`
/// exactly when the exact total does not fit the fixed-point
/// magnitude.
pub fn try_get_selling_total(c: &RecipeConfig) -> (r: Option<Amount>)
    requires
        c.wf(),
    ensures
        match r {
            Some(a) => {
                &&& a.wf()
                &&& !a.neg
                &&& a.to_int() == spec_selling_total(*c)
                &&& spec_selling_total(*c) <= u64::MAX as int
            },
            None => spec_selling_total(*c) > u64::MAX as int,
        },
{
    let per_craft = match c.price_of_single_when_sold.mag.checked_mul(c.qty_per_craft) {
        Some(p) => p,
        None => {
            proof {
                lemma_mul_at_least(
                    c.price_of_single_when_sold.mag * c.qty_per_craft,
                    c.num_crafts_wanted as int,
                );
            }
            return None;
        },
    };
    match per_craft.checked_mul(c.num_crafts_wanted) {
        Some(total) => Some(Amount::from_mag(total)),
        None => None,
    }
}

/// Total expected revenue
/// = `price_of_single_when_sold * qty_per_craft * num_crafts_wanted`,
/// exactly, when the total fits the fixed-point magnitude.
pub fn get_selling_total(c: &RecipeConfig) -> (r: Amount)
    requires
        c.wf(),
        spec_selling_total(*c) <= u64::MAX as int,
    ensures
        r.wf(),
        !r.neg,
        r.to_int() == spec_selling_total(*c),
{
    match try_get_selling_total(c) {
        Some(a) => a,
        None => {
            proof {
                assert(false);
            }
            Amount::zero()
        },
    }
}

} // verus!
