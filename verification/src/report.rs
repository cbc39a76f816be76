//! The report renderer: formats the calculated totals and the
//! per-material breakdown into the fixed, aligned text layout.

use vstd::prelude::*;
use vstd::string::StrSliceExecFns;
use vstd::string::StringExecFns;

use crate::amount::spec_decimal_string;
use crate::amount::Amount;
use crate::calc::lemma_materials_sum_nonneg;
use crate::calc::lemma_materials_term_le_sum;
use crate::calc::lemma_mul_at_least;
use crate::calc::spec_labor_cost;
use crate::calc::spec_material_cost;
use crate::calc::spec_materials_sum;
use crate::calc::spec_selling_total;
use crate::config::MaterialEntry;
use crate::config::RecipeConfig;
use crate::currency::gsc_of_amount;
use crate::currency::spec_gsc;
use crate::numerals::dec_digits;
use crate::numerals::u64_to_dec;

verus! {

/// A run of `n` space characters.
pub open spec fn spaces(n: nat) -> Seq<char>
    decreases n,
{
    if n == 0 {
        Seq::empty()
    } else {
        spaces((n - 1) as nat).push(' ')
    }
}

/// Left-aligns `s` in a field of width `w`: spaces are added on the
/// right; text at least `w` long is unchanged.
pub open spec fn pad_right(s: Seq<char>, w: nat) -> Seq<char> {
    if s.len() >= w {
        s
    } else {
        s + spaces((w - s.len()) as nat)
    }
}

/// Right-aligns `s` in a field of width `w`: spaces are added on the
/// left; text at least `w` long is unchanged.
pub open spec fn pad_left(s: Seq<char>, w: nat) -> Seq<char> {
    if s.len() >= w {
        s
    } else {
        spaces((w - s.len()) as nat) + s
    }
}

/// The denomination text of an amount's shortest decimal rendering.
pub open spec fn spec_gsc_amount(a: Amount) -> Seq<char> {
    spec_gsc(spec_decimal_string(a))
}

/// The length of the longest material name in the list.
pub open spec fn spec_longest_name(ms: Seq<MaterialEntry>) -> nat
    decreases ms.len(),
{
    if ms.len() == 0 {
        0
    } else {
        let rest = spec_longest_name(ms.drop_last());
        if ms.last().name@.len() > rest {
            ms.last().name@.len()
        } else {
            rest
        }
    }
}

/// The total spent on one material across all planned crafts, in
/// ten-thousandths: `price_per * qty * num_crafts_wanted`.
pub open spec fn spec_material_total(m: MaterialEntry, crafts: u64) -> Amount {
    Amount { neg: false, mag: (m.price_per.mag * m.qty * crafts) as u64 }
}

/// One line of the per-material breakdown: the name left-aligned to
/// the longest name, the quantity right-aligned to six columns, and
/// the unit price and across-all-crafts total, denomination-formatted,
/// left-aligned to ten and thirty columns.
pub open spec fn spec_material_line(m: MaterialEntry, crafts: u64, align: nat) -> Seq<char> {
    "\t"@ + pad_right(m.name@, align) + " :: Qty: "@ + pad_left(dec_digits(m.qty as nat), 6)
        + " :: Price Per Unit: "@ + pad_right(spec_gsc_amount(m.price_per), 10) + " :: Total: "@
        + pad_right(spec_gsc_amount(spec_material_total(m, crafts)), 30) + "\n"@
}

/// The per-material breakdown, one line per material in list order.
pub open spec fn spec_material_lines(ms: Seq<MaterialEntry>, crafts: u64, align: nat) -> Seq<
    char,
>
    decreases ms.len(),
{
    if ms.len() == 0 {
        Seq::empty()
    } else {
        spec_material_lines(ms.drop_last(), crafts, align) + spec_material_line(
            ms.last(),
            crafts,
            align,
        )
    }
}

/// The full report text: the recipe name, the craft counts, the labor
/// cost as a plain integer, the three denomination-formatted totals
/// (profit being revenue minus material cost), and the per-material
/// breakdown followed by a blank line.
pub open spec fn spec_report(c: RecipeConfig) -> Seq<char> {
    let selling = Amount::of_int(spec_selling_total(c));
    let material = Amount::of_int(spec_material_cost(c));
    let profit = Amount::of_int(spec_selling_total(c) - spec_material_cost(c));
    "Calculating for: \t"@ + c.name@ + "\n"@ + "Number of Crafts: \t"@ + dec_digits(
        c.num_crafts_wanted as nat,
    ) + "\n"@ + "Produced Per Craft: \t"@ + dec_digits(c.qty_per_craft as nat) + "\n"@
        + "Labor cost: \t\t"@ + dec_digits(spec_labor_cost(c) as nat) + "\n\n"@
        + "Expected selling total: \t"@ + spec_gsc_amount(selling) + "\n"@
        + "Cost of materials in total: \t"@ + spec_gsc_amount(material) + "\n"@
        + "Expected Profit: \t\t"@ + spec_gsc_amount(profit) + "\n"@ + spec_material_lines(
        c.materials@,
        c.num_crafts_wanted,
        spec_longest_name(c.materials@),
    ) + "\n"@
}

/// A run of `n` spaces as text.
pub fn make_spaces(n: usize) -> (s: String)
    ensures
        s@ == spaces(n as nat),
{
    let mut s = String::new();
    let mut i: usize = 0;
    while i < n
        invariant
            0 <= i <= n,
            s@ == spaces(i as nat),
        decreases n - i,
    {
        s.append(" ");
        proof {
            reveal_strlit(" ");
            assert(s@ =~= spaces((i + 1) as nat));
        }
        i += 1;
    }
    s
}

/// Appends `piece` left-aligned in a field of width `w`.
fn append_pad_right(out: &mut String, piece: &str, w: usize)
    ensures
        final(out)@ == old(out)@ + pad_right(piece@, w as nat),
{
    out.append(piece);
    let n = piece.unicode_len();
    if n < w {
        let sp = make_spaces(w - n);
        out.append(sp.as_str());
    }
    proof {
        assert(out@ =~= old(out)@ + pad_right(piece@, w as nat));
    }
}

/// Appends `piece` right-aligned in a field of width `w`.
fn append_pad_left(out: &mut String, piece: &str, w: usize)
    ensures
        final(out)@ == old(out)@ + pad_left(piece@, w as nat),
{
    let n = piece.unicode_len();
    if n < w {
        let sp = make_spaces(w - n);
        out.append(sp.as_str());
    }
    out.append(piece);
    proof {
        assert(out@ =~= old(out)@ + pad_left(piece@, w as nat));
    }
}

/// The length of the longest material name, for column alignment.
pub fn longest_name_len(c: &RecipeConfig) -> (r: usize)
    ensures
        r == spec_longest_name(c.materials@),
{
    let ghost all = c.materials@;
    let mut len: usize = 0;
    let mut i: usize = 0;
    while i < c.materials.len()
        invariant
            0 <= i <= all.len(),
            len == spec_longest_name(all.take(i as int)),
        decreases all.len() - i,
    {
        let l = c.materials[i].name.as_str().unicode_len();
        if l > len {
            len = l;
        }
        proof {
            assert(all.take(i + 1).drop_last() =~= all.take(i as int));
            assert(all.take(i + 1).last() == all[i as int]);
        }
        i += 1;
    }
    proof {
        assert(all.take(i as int) =~= all);
    }
    len
}

/// Appends one material's breakdown line.
fn append_material_line(out: &mut String, m: &MaterialEntry, crafts: u64, align: usize)
    requires
        m.wf(),
        crafts >= 1,
        m.price_per.mag * m.qty * crafts <= u64::MAX as int,
    ensures
        final(out)@ == old(out)@ + spec_material_line(*m, crafts, align as nat),
{
    out.append("\t");
    append_pad_right(out, m.name.as_str(), align);
    out.append(" :: Qty: ");
    let q = u64_to_dec(m.qty);
    append_pad_left(out, q.as_str(), 6);
    out.append(" :: Price Per Unit: ");
    let pg = gsc_of_amount(&m.price_per);
    append_pad_right(out, pg.as_str(), 10);
    out.append(" :: Total: ");
    proof {
        assert(m.price_per.mag * m.qty >= 0 && m.price_per.mag * m.qty * crafts
            >= m.price_per.mag * m.qty) by (nonlinear_arith)
            requires
                m.price_per.mag >= 0,
                m.qty >= 1,
                crafts >= 1,
        ;
    }
    let tmag = m.price_per.mag * m.qty * crafts;
    let total = Amount::from_mag(tmag);
    let tg = gsc_of_amount(&total);
    append_pad_right(out, tg.as_str(), 30);
    out.append("\n");
    proof {
        assert(total == spec_material_total(*m, crafts));
        assert(out@ =~= old(out)@ + spec_material_line(*m, crafts, align as nat));
    }
}

/// Builds the per-material breakdown text, one line per material:
/// name, quantity, denomination-formatted unit price, and the
/// denomination-formatted total for that material across all planned
/// crafts.
pub fn get_individual_material_qty_and_cost_string(c: &RecipeConfig) -> (r: String)
    requires
        c.wf(),
        spec_material_cost(*c) <= u64::MAX as int,
    ensures
        r@ == spec_material_lines(
            c.materials@,
            c.num_crafts_wanted,
            spec_longest_name(c.materials@),
        ),
{
    let ghost all = c.materials@;
    let align = longest_name_len(c);
    let crafts = c.num_crafts_wanted;
    let mut out = String::new();
    let mut i: usize = 0;
    while i < c.materials.len()
        invariant
            0 <= i <= all.len(),
            out@ == spec_material_lines(all.take(i as int), crafts, align as nat),
        decreases all.len() - i,
    {
        let m = &c.materials[i];
        proof {
            lemma_materials_term_le_sum(all, i as int);
            lemma_materials_sum_nonneg(all);
            lemma_mul_at_least(spec_materials_sum(all), crafts as int);
            crate::calc::lemma_mul_le_mono(
                m.qty * m.price_per.mag,
                spec_materials_sum(all),
                crafts as int,
            );
            assert(m.price_per.mag * m.qty == m.qty * m.price_per.mag) by (nonlinear_arith);
            assert(spec_materials_sum(all) * crafts == crafts * spec_materials_sum(all))
                by (nonlinear_arith);
        }
        append_material_line(&mut out, m, crafts, align);
        proof {
            assert(all.take(i + 1).drop_last() =~= all.take(i as int));
            assert(all.take(i + 1).last() == all[i as int]);
            assert(out@ =~= spec_material_lines(all.take(i + 1), crafts, align as nat));
        }
        i += 1;
    }
    proof {
        assert(all.take(i as int) =~= all);
    }
    out
}

/// Renders the full report for a validated configuration and its
/// calculated totals.
pub fn render_report(c: &RecipeConfig, labor_total: u64, selling: &Amount, material: &Amount) -> (r:
    String)
    requires
        c.wf(),
        labor_total == spec_labor_cost(*c),
        selling.wf(),
        !selling.neg,
        selling.to_int() == spec_selling_total(*c),
        material.wf(),
        !material.neg,
        material.to_int() == spec_material_cost(*c),
    ensures
        r@ == spec_report(*c),
{
    let mut out = String::from_str("Calculating for: \t");
    out.append(c.name.as_str());
    out.append("\n");
    out.append("Number of Crafts: \t");
    let crafts_text = u64_to_dec(c.num_crafts_wanted);
    out.append(crafts_text.as_str());
    out.append("\n");
    out.append("Produced Per Craft: \t");
    let qty_text = u64_to_dec(c.qty_per_craft);
    out.append(qty_text.as_str());
    out.append("\n");
    out.append("Labor cost: \t\t");
    let labor_text = u64_to_dec(labor_total);
    out.append(labor_text.as_str());
    out.append("\n\n");
    out.append("Expected selling total: \t");
    let selling_text = gsc_of_amount(selling);
    out.append(selling_text.as_str());
    out.append("\n");
    out.append("Cost of materials in total: \t");
    let material_text = gsc_of_amount(material);
    out.append(material_text.as_str());
    out.append("\n");
    out.append("Expected Profit: \t\t");
    let profit = selling.minus(*material);
    let profit_text = gsc_of_amount(&profit);
    out.append(profit_text.as_str());
    out.append("\n");
    let lines = get_individual_material_qty_and_cost_string(c);
    out.append(lines.as_str());
    out.append("\n");
    proof {
        assert(profit == Amount::of_int(spec_selling_total(*c) - spec_material_cost(*c)));
        assert(Amount::of_int(spec_selling_total(*c)) == *selling);
        assert(Amount::of_int(spec_material_cost(*c)) == *material);
        assert(out@ =~= spec_report(*c));
    }
    out
}

} // verus!
