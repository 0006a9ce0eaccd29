//! Tier-scaling formula rolls.

use vstd::prelude::*;

use crate::config::TierScalingFormula;
use crate::rng::{pcg64_next_u32, GameRng, RngModel};

verus! {

pub open spec fn formula_min(f: TierScalingFormula, tier: u32) -> int {
    f.base_min + tier * f.per_tier_min
}

pub open spec fn formula_max(f: TierScalingFormula, tier: u32) -> int {
    f.base_max + tier * f.per_tier_max
}

/// Rolling `f` at `tier` stays within `u32` arithmetic.
pub open spec fn formula_fits(f: TierScalingFormula, tier: u32) -> bool {
    &&& formula_min(f, tier) <= u32::MAX
    &&& formula_max(f, tier) <= u32::MAX
    &&& formula_min(f, tier) < formula_max(f, tier) ==> formula_max(f, tier) - formula_min(f, tier)
        + 1 <= u32::MAX
}

/// The value rolled from `f` at `tier`, and the generator afterwards: the
/// range's low end when the range is empty or a single value (no draw),
/// else low end plus one draw modulo the range's width.
pub open spec fn spec_roll_from_formula(tier: u32, f: TierScalingFormula, rng: RngModel) -> (
    u32,
    RngModel,
) {
    let min = formula_min(f, tier);
    let max = formula_max(f, tier);
    if min >= max {
        (min as u32, rng)
    } else {
        ((min + (pcg64_next_u32(rng) as int) % (max - min + 1)) as u32, rng.advanced())
    }
}

/// Roll a value from a tier-scaling formula for the given tier.
pub fn roll_from_formula(tier: u32, formula: &TierScalingFormula, rng: &mut GameRng) -> (r: u32)
    requires
        formula_fits(*formula, tier),
    ensures
        (r, final(rng)@) == spec_roll_from_formula(tier, *formula, old(rng)@),
        formula_min(*formula, tier) <= r,
        formula_min(*formula, tier) < formula_max(*formula, tier) ==> r <= formula_max(*formula, tier),
{
    let min = formula.base_min + tier * formula.per_tier_min;
    let max = formula.base_max + tier * formula.per_tier_max;
    if min >= max {
        return min;
    }
    let range = max - min + 1;
    let draw = rng.next_u32();
    min + (draw % range)
}

} // verus!
