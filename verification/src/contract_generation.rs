//! Formula-based contract drafting.
//!
//! Contracts are generated per tier using `TierScalingFormula` parameters.
//! Each formula produces a range `[base_min + tier × per_tier_min,
//! base_max + tier × per_tier_max]` and a value is rolled uniformly within
//! that range using the seeded generator.
//!
//! Drafting makes every random draw that a contract takes, in the order the
//! game takes them. What a draft leaves open is arithmetic on real numbers:
//! the amounts of variation effects (from the rolled ratio) and the adaptive
//! balance overlay on requirement bounds; those finish a draft into a
//! `Contract` outside this crate.

use vstd::prelude::*;

use crate::config::{
    effect_types_view, CardTagConstraintFormulaConfig, CardEffectTypeConfig, ContractFormulasConfig,
    EffectTypeSpec, TurnWindowFormulaConfig, VariationSpec,
};
use crate::formulas::{formula_fits, roll_from_formula, spec_roll_from_formula};
use crate::rng::{pcg64_next_u32, GameRng, RngModel};
use crate::types::{
    spec_is_beneficial, spec_is_harmful, CardEffect, CardTag, ContractRequirementKind,
    ContractTier, EffectSpec, MainEffectDirection, TokenAmount, TokenType, VariationDirection,
};

verus! {

// ---------------------------------------------------------------------------
// Tier gating
// ---------------------------------------------------------------------------

/// Token types with a card effect unlocked at or before `tier`, in order of
/// first appearance among the first `k` effect types.
pub open spec fn spec_unlocked_token_types(types: Seq<EffectTypeSpec>, k: int, tier: u32) -> Seq<
    TokenType,
>
    decreases k,
{
    if k <= 0 {
        Seq::empty()
    } else {
        let prev = spec_unlocked_token_types(types, k - 1, tier);
        let et = types[k - 1];
        if et.available_at_tier <= tier && !prev.contains(et.primary_token) {
            prev.push(et.primary_token)
        } else {
            prev
        }
    }
}

/// `acc` extended by those of the first `m` tags that it lacks, in order.
pub open spec fn add_new_tags(acc: Seq<CardTag>, tags: Seq<CardTag>, m: int) -> Seq<CardTag>
    decreases m,
{
    if m <= 0 {
        acc
    } else {
        let prev = add_new_tags(acc, tags, m - 1);
        if prev.contains(tags[m - 1]) {
            prev
        } else {
            prev.push(tags[m - 1])
        }
    }
}

/// Card tags of effect types unlocked at or before `tier`, in order of first
/// appearance among the first `k` effect types.
pub open spec fn spec_unlocked_card_tags(types: Seq<EffectTypeSpec>, k: int, tier: u32) -> Seq<CardTag>
    decreases k,
{
    if k <= 0 {
        Seq::empty()
    } else {
        let prev = spec_unlocked_card_tags(types, k - 1, tier);
        let et = types[k - 1];
        if et.available_at_tier <= tier {
            add_new_tags(prev, et.tags, et.tags.len() as int)
        } else {
            prev
        }
    }
}

fn tokens_contain(v: &Vec<TokenType>, t: TokenType) -> (r: bool)
    ensures
        r == v@.contains(t),
{
    let mut i: usize = 0;
    while i < v.len()
        invariant
            i <= v.len(),
            forall|j: int| 0 <= j < i ==> v@[j] != t,
        decreases v.len() - i,
    {
        if v[i] == t {
            return true;
        }
        i = i + 1;
    }
    false
}

pub fn tags_contain(v: &Vec<CardTag>, t: CardTag) -> (r: bool)
    ensures
        r == v@.contains(t),
{
    let mut i: usize = 0;
    while i < v.len()
        invariant
            i <= v.len(),
            forall|j: int| 0 <= j < i ==> v@[j] != t,
        decreases v.len() - i,
    {
        if v[i] == t {
            return true;
        }
        i = i + 1;
    }
    false
}

/// Returns token types that have at least one card effect unlocked at or
/// before the given tier, in order of first appearance.
pub fn unlocked_token_types(tier: u32, effect_types: &Vec<CardEffectTypeConfig>) -> (r: Vec<TokenType>)
    ensures
        r@ == spec_unlocked_token_types(
            effect_types_view(effect_types@),
            effect_types@.len() as int,
            tier,
        ),
{
    let ghost tv = effect_types_view(effect_types@);
    let mut tokens: Vec<TokenType> = Vec::new();
    let mut k: usize = 0;
    while k < effect_types.len()
        invariant
            k <= effect_types@.len(),
            tv == effect_types_view(effect_types@),
            tokens@ == spec_unlocked_token_types(tv, k as int, tier),
        decreases effect_types.len() - k,
    {
        let et = &effect_types[k];
        proof {
            assert(tv[k as int] == et@);
        }
        if et.available_at_tier <= tier && !tokens_contain(&tokens, et.primary_token) {
            tokens.push(et.primary_token);
        }
        k = k + 1;
    }
    tokens
}

/// Returns card tags of effect types unlocked at or before the given tier,
/// each once, in order of first appearance.
pub fn unlocked_card_tags(tier: u32, effect_types: &Vec<CardEffectTypeConfig>) -> (r: Vec<CardTag>)
    ensures
        r@ == spec_unlocked_card_tags(
            effect_types_view(effect_types@),
            effect_types@.len() as int,
            tier,
        ),
{
    let ghost tv = effect_types_view(effect_types@);
    let mut tags: Vec<CardTag> = Vec::new();
    let mut k: usize = 0;
    while k < effect_types.len()
        invariant
            k <= effect_types@.len(),
            tv == effect_types_view(effect_types@),
            tags@ == spec_unlocked_card_tags(tv, k as int, tier),
        decreases effect_types.len() - k,
    {
        let et = &effect_types[k];
        proof {
            assert(tv[k as int] == et@);
        }
        if et.available_at_tier <= tier {
            let ghost acc = tags@;
            let mut m: usize = 0;
            while m < et.tags.len()
                invariant
                    m <= et.tags@.len(),
                    tags@ == add_new_tags(acc, et.tags@, m as int),
                decreases et.tags.len() - m,
            {
                let tag = et.tags[m];
                if !tags_contain(&tags, tag) {
                    tags.push(tag);
                }
                m = m + 1;
            }
        }
        k = k + 1;
    }
    tags
}

// ---------------------------------------------------------------------------
// Requirement generators
// ---------------------------------------------------------------------------

/// One way of generating a requirement at a given tier.
pub enum RequirementGenerator {
    /// A lower bound on a beneficial token, from the output-threshold formula.
    BeneficialMin { tier: u32, token: TokenType },
    /// An upper bound on a harmful token, from the harmful-token-limit formula.
    HarmfulMax { tier: u32, token: TokenType },
    /// A turn window.
    TurnWindow { tier: u32, config: TurnWindowFormulaConfig },
    /// A card-tag constraint over one of the unlocked tags.
    CardTagConstraint { tier: u32, config: CardTagConstraintFormulaConfig, tags: Vec<CardTag> },
}

pub enum GeneratorSpec {
    BeneficialMin { tier: u32, token: TokenType },
    HarmfulMax { tier: u32, token: TokenType },
    TurnWindow { tier: u32, config: TurnWindowFormulaConfig },
    CardTagConstraint { tier: u32, config: CardTagConstraintFormulaConfig, tags: Seq<CardTag> },
}

impl View for RequirementGenerator {
    type V = GeneratorSpec;

    open spec fn view(&self) -> GeneratorSpec {
        match self {
            RequirementGenerator::BeneficialMin { tier, token } => GeneratorSpec::BeneficialMin {
                tier: *tier,
                token: *token,
            },
            RequirementGenerator::HarmfulMax { tier, token } => GeneratorSpec::HarmfulMax {
                tier: *tier,
                token: *token,
            },
            RequirementGenerator::TurnWindow { tier, config } => GeneratorSpec::TurnWindow {
                tier: *tier,
                config: *config,
            },
            RequirementGenerator::CardTagConstraint { tier, config, tags } =>
                GeneratorSpec::CardTagConstraint { tier: *tier, config: *config, tags: tags@ },
        }
    }
}

pub open spec fn generators_view(v: Seq<RequirementGenerator>) -> Seq<GeneratorSpec> {
    v.map_values(|g: RequirementGenerator| g@)
}

/// Minimum generators for the beneficial tokens among the first `k` of `tokens`.
pub open spec fn beneficial_generators(tokens: Seq<TokenType>, k: int, tier: u32) -> Seq<GeneratorSpec>
    decreases k,
{
    if k <= 0 {
        Seq::empty()
    } else {
        let prev = beneficial_generators(tokens, k - 1, tier);
        if spec_is_beneficial(tokens[k - 1]) {
            prev.push(GeneratorSpec::BeneficialMin { tier, token: tokens[k - 1] })
        } else {
            prev
        }
    }
}

/// Maximum generators for the harmful tokens among the first `k` of `tokens`.
pub open spec fn harmful_generators(tokens: Seq<TokenType>, k: int, tier: u32) -> Seq<GeneratorSpec>
    decreases k,
{
    if k <= 0 {
        Seq::empty()
    } else {
        let prev = harmful_generators(tokens, k - 1, tier);
        if spec_is_harmful(tokens[k - 1]) {
            prev.push(GeneratorSpec::HarmfulMax { tier, token: tokens[k - 1] })
        } else {
            prev
        }
    }
}

/// The requirement generators available at `tier`: beneficial minimums and
/// harmful maximums for every unlocked token, then a turn window once its
/// unlock tier is reached, then a card-tag constraint once its unlock tier is
/// reached and some card tag is unlocked.
pub open spec fn spec_available_generators(
    tier: u32,
    formulas: ContractFormulasConfig,
    types: Seq<EffectTypeSpec>,
) -> Seq<GeneratorSpec> {
    let tokens = spec_unlocked_token_types(types, types.len() as int, tier);
    let base = beneficial_generators(tokens, tokens.len() as int, tier) + harmful_generators(
        tokens,
        tokens.len() as int,
        tier,
    );
    let with_tw = match formulas.turn_window {
        Some(tw) => if tier >= tw.unlock_tier {
            base.push(GeneratorSpec::TurnWindow { tier, config: tw })
        } else {
            base
        },
        None => base,
    };
    match formulas.card_tag_constraint {
        Some(ctc) => if tier >= ctc.unlock_tier {
            let tags = spec_unlocked_card_tags(types, types.len() as int, tier);
            if tags.len() > 0 {
                with_tw.push(GeneratorSpec::CardTagConstraint { tier, config: ctc, tags })
            } else {
                with_tw
            }
        } else {
            with_tw
        },
        None => with_tw,
    }
}

/// Returns the requirement generators available at the given tier. Only
/// token types with unlocked card effects are used.
pub fn available_requirement_generators(
    tier: u32,
    formulas: &ContractFormulasConfig,
    effect_types: &Vec<CardEffectTypeConfig>,
) -> (r: Vec<RequirementGenerator>)
    ensures
        generators_view(r@) == spec_available_generators(
            tier,
            *formulas,
            effect_types_view(effect_types@),
        ),
{
    let mut generators: Vec<RequirementGenerator> = Vec::new();
    let available_tokens = unlocked_token_types(tier, effect_types);
    let mut i: usize = 0;
    while i < available_tokens.len()
        invariant
            i <= available_tokens@.len(),
            generators_view(generators@) == beneficial_generators(available_tokens@, i as int, tier),
        decreases available_tokens.len() - i,
    {
        let t = available_tokens[i];
        if t.is_beneficial() {
            generators.push(RequirementGenerator::BeneficialMin { tier, token: t });
            assert(generators_view(generators@) =~= beneficial_generators(
                available_tokens@,
                i + 1,
                tier,
            ));
        }
        i = i + 1;
    }
    let ghost bens = generators_view(generators@);
    let mut h: usize = 0;
    while h < available_tokens.len()
        invariant
            h <= available_tokens@.len(),
            generators_view(generators@) == bens + harmful_generators(available_tokens@, h as int, tier),
        decreases available_tokens.len() - h,
    {
        let t = available_tokens[h];
        if t.is_harmful() {
            let ghost before_h = generators_view(generators@);
            generators.push(RequirementGenerator::HarmfulMax { tier, token: t });
            assert(harmful_generators(available_tokens@, h + 1, tier) == harmful_generators(
                available_tokens@,
                h as int,
                tier,
            ).push(GeneratorSpec::HarmfulMax { tier, token: t }));
            assert(generators_view(generators@) =~= before_h.push(GeneratorSpec::HarmfulMax { tier, token: t }));
            assert(generators_view(generators@) =~= bens + harmful_generators(
                available_tokens@,
                h + 1,
                tier,
            ));
        } else {
            assert(harmful_generators(available_tokens@, h + 1, tier) == harmful_generators(
                available_tokens@,
                h as int,
                tier,
            ));
        }
        h = h + 1;
    }
    let ghost base = generators_view(generators@);
    if let Some(tw) = formulas.turn_window {
        if tier >= tw.unlock_tier {
            generators.push(RequirementGenerator::TurnWindow { tier, config: tw });
            assert(generators_view(generators@) =~= base.push(
                GeneratorSpec::TurnWindow { tier, config: tw },
            ));
        }
    }
    let ghost with_tw = generators_view(generators@);
    if let Some(ctc) = formulas.card_tag_constraint {
        if tier >= ctc.unlock_tier {
            let available_tags = unlocked_card_tags(tier, effect_types);
            if available_tags.len() > 0 {
                let ghost tags_v = available_tags@;
                generators.push(
                    RequirementGenerator::CardTagConstraint {
                        tier,
                        config: ctc,
                        tags: available_tags,
                    },
                );
                assert(generators_view(generators@) =~= with_tw.push(
                    GeneratorSpec::CardTagConstraint { tier, config: ctc, tags: tags_v },
                ));
            }
        }
    }
    generators
}

// ---------------------------------------------------------------------------
// Running a generator
// ---------------------------------------------------------------------------

/// Rolling the turn window at `tier` stays within `u32` arithmetic.
pub open spec fn turn_window_fits(config: TurnWindowFormulaConfig, tier: u32) -> bool {
    &&& tier < u32::MAX
    &&& config.min_turns_base + tier * config.min_turns_per_tier + tier + config.window_size_base
        + tier * config.window_size_per_tier <= u32::MAX
}

/// Rolling the card-tag constraint at `tier` stays within `u32` arithmetic.
pub open spec fn card_tag_constraint_fits(config: CardTagConstraintFormulaConfig, tier: u32) -> bool {
    config.base_count + tier * config.per_tier_count <= u32::MAX
}

pub open spec fn spec_turn_window(tier: u32, config: TurnWindowFormulaConfig, rng: RngModel) -> (
    ContractRequirementKind,
    RngModel,
) {
    let min_low = config.min_turns_base + tier * config.min_turns_per_tier;
    let min_turn = min_low + (pcg64_next_u32(rng) as int) % (tier + 1);
    let window_size = config.window_size_base + tier * config.window_size_per_tier;
    (
        ContractRequirementKind::TurnWindow {
            min_turn: Some(min_turn as u32),
            max_turn: Some((min_turn + window_size) as u32),
        },
        rng.advanced(),
    )
}

fn generate_turn_window(tier: u32, config: &TurnWindowFormulaConfig, rng: &mut GameRng) -> (r:
    ContractRequirementKind)
    requires
        turn_window_fits(*config, tier),
    ensures
        (r, final(rng)@) == spec_turn_window(tier, *config, old(rng)@),
{
    let min_low = config.min_turns_base + tier * config.min_turns_per_tier;
    let draw = rng.next_u32();
    let min_turn = min_low + (draw % (tier + 1));
    let window_size = config.window_size_base + tier * config.window_size_per_tier;
    let max_turn = min_turn + window_size;
    ContractRequirementKind::TurnWindow { min_turn: Some(min_turn), max_turn: Some(max_turn) }
}

pub open spec fn max_u32(a: u32, b: u32) -> u32 {
    if a >= b {
        a
    } else {
        b
    }
}

pub open spec fn spec_card_tag_constraint(
    tier: u32,
    config: CardTagConstraintFormulaConfig,
    tags: Seq<CardTag>,
    rng: RngModel,
) -> (ContractRequirementKind, RngModel) {
    let tag = tags[(pcg64_next_u32(rng) as int) % (tags.len() as int)];
    let r1 = rng.advanced();
    let max_count = (config.base_count + tier * config.per_tier_count) as u32;
    let variant = (pcg64_next_u32(r1) as int) % 3;
    let req = if variant == 0 {
        ContractRequirementKind::CardTagConstraint { tag, min: None, max: Some(0) }
    } else if variant == 1 {
        ContractRequirementKind::CardTagConstraint { tag, min: Some(max_u32(max_count, 1)), max: None }
    } else {
        ContractRequirementKind::CardTagConstraint { tag, min: None, max: Some(max_u32(max_count, 1)) }
    };
    (req, r1.advanced())
}

fn generate_card_tag_constraint(
    tier: u32,
    config: &CardTagConstraintFormulaConfig,
    available_tags: &Vec<CardTag>,
    rng: &mut GameRng,
) -> (r: ContractRequirementKind)
    requires
        available_tags@.len() > 0,
        card_tag_constraint_fits(*config, tier),
    ensures
        (r, final(rng)@) == spec_card_tag_constraint(tier, *config, available_tags@, old(rng)@),
{
    let draw = rng.next_u32();
    let tag_idx = draw as usize % available_tags.len();
    let tag = available_tags[tag_idx];
    let max_count = config.base_count + tier * config.per_tier_count;
    let variant = rng.next_u32() % 3;
    let bounded = if max_count >= 1 {
        max_count
    } else {
        1
    };
    if variant == 0 {
        ContractRequirementKind::CardTagConstraint { tag, min: None, max: Some(0) }
    } else if variant == 1 {
        ContractRequirementKind::CardTagConstraint { tag, min: Some(bounded), max: None }
    } else {
        ContractRequirementKind::CardTagConstraint { tag, min: None, max: Some(bounded) }
    }
}

/// Every formula that a generator can roll at `tier` stays within `u32`.
pub open spec fn generation_fits_at(formulas: ContractFormulasConfig, tier: u32) -> bool {
    &&& formula_fits(formulas.output_threshold, tier)
    &&& formula_fits(formulas.harmful_token_limit, tier)
    &&& (formulas.turn_window matches Some(tw) ==> turn_window_fits(tw, tier))
    &&& (formulas.card_tag_constraint matches Some(ctc) ==> card_tag_constraint_fits(ctc, tier))
}

pub open spec fn spec_run_generator(
    g: GeneratorSpec,
    formulas: ContractFormulasConfig,
    rng: RngModel,
) -> (ContractRequirementKind, RngModel) {
    match g {
        GeneratorSpec::BeneficialMin { tier, token } => {
            let (v, r) = spec_roll_from_formula(tier, formulas.output_threshold, rng);
            (ContractRequirementKind::TokenRequirement { token_type: token, min: Some(v), max: None }, r)
        },
        GeneratorSpec::HarmfulMax { tier, token } => {
            let (v, r) = spec_roll_from_formula(tier, formulas.harmful_token_limit, rng);
            (ContractRequirementKind::TokenRequirement { token_type: token, min: None, max: Some(v) }, r)
        },
        GeneratorSpec::TurnWindow { tier, config } => spec_turn_window(tier, config, rng),
        GeneratorSpec::CardTagConstraint { tier, config, tags } => spec_card_tag_constraint(
            tier,
            config,
            tags,
            rng,
        ),
    }
}

pub open spec fn generator_tier(g: GeneratorSpec) -> u32 {
    match g {
        GeneratorSpec::BeneficialMin { tier, .. } => tier,
        GeneratorSpec::HarmfulMax { tier, .. } => tier,
        GeneratorSpec::TurnWindow { tier, .. } => tier,
        GeneratorSpec::CardTagConstraint { tier, .. } => tier,
    }
}

/// Generators built by `available_requirement_generators` carry what they
/// need: the formula of their kind and, for tag constraints, some tag.
pub open spec fn generator_ok(g: GeneratorSpec, formulas: ContractFormulasConfig) -> bool {
    match g {
        GeneratorSpec::BeneficialMin { tier, .. } => formula_fits(formulas.output_threshold, tier),
        GeneratorSpec::HarmfulMax { tier, .. } => formula_fits(formulas.harmful_token_limit, tier),
        GeneratorSpec::TurnWindow { tier, config } => turn_window_fits(config, tier),
        GeneratorSpec::CardTagConstraint { tier, config, tags } => tags.len() > 0
            && card_tag_constraint_fits(config, tier),
    }
}

/// Every generator available at a tier whose formulas fit is ready to run.
pub proof fn lemma_available_generators_ok(
    tier: u32,
    formulas: ContractFormulasConfig,
    types: Seq<EffectTypeSpec>,
)
    requires
        generation_fits_at(formulas, tier),
    ensures
        forall|i: int|
            0 <= i < spec_available_generators(tier, formulas, types).len() ==> generator_ok(
                #[trigger] spec_available_generators(tier, formulas, types)[i],
                formulas,
            ),
{
    let tokens = spec_unlocked_token_types(types, types.len() as int, tier);
    lemma_token_generators_ok(tokens, tokens.len() as int, tier, formulas);
}

proof fn lemma_token_generators_ok(
    tokens: Seq<TokenType>,
    k: int,
    tier: u32,
    formulas: ContractFormulasConfig,
)
    requires
        generation_fits_at(formulas, tier),
    ensures
        forall|i: int|
            0 <= i < beneficial_generators(tokens, k, tier).len() ==> (#[trigger] beneficial_generators(
                tokens,
                k,
                tier,
            )[i]) == (GeneratorSpec::BeneficialMin {
                tier,
                token: beneficial_generators(tokens, k, tier)[i]->BeneficialMin_token,
            }),
        forall|i: int|
            0 <= i < harmful_generators(tokens, k, tier).len() ==> (#[trigger] harmful_generators(
                tokens,
                k,
                tier,
            )[i]) == (GeneratorSpec::HarmfulMax {
                tier,
                token: harmful_generators(tokens, k, tier)[i]->HarmfulMax_token,
            }),
    decreases k,
{
    if k > 0 {
        lemma_token_generators_ok(tokens, k - 1, tier, formulas);
    }
}

fn run_generator(g: &RequirementGenerator, formulas: &ContractFormulasConfig, rng: &mut GameRng) -> (r:
    ContractRequirementKind)
    requires
        generator_ok(g@, *formulas),
    ensures
        (r, final(rng)@) == spec_run_generator(g@, *formulas, old(rng)@),
{
    match g {
        RequirementGenerator::BeneficialMin { tier, token } => {
            let v = roll_from_formula(*tier, &formulas.output_threshold, rng);
            ContractRequirementKind::TokenRequirement { token_type: *token, min: Some(v), max: None }
        },
        RequirementGenerator::HarmfulMax { tier, token } => {
            let v = roll_from_formula(*tier, &formulas.harmful_token_limit, rng);
            ContractRequirementKind::TokenRequirement { token_type: *token, min: None, max: Some(v) }
        },
        RequirementGenerator::TurnWindow { tier, config } => generate_turn_window(*tier, config, rng),
        RequirementGenerator::CardTagConstraint { tier, config, tags } => generate_card_tag_constraint(
            *tier,
            config,
            tags,
            rng,
        ),
    }
}

// ---------------------------------------------------------------------------
// Requirement count and tiers
// ---------------------------------------------------------------------------

pub open spec fn spec_requirement_count(tier: u32, available: nat, rng: RngModel) -> (nat, RngModel) {
    let low = if tier >= 2 {
        (tier - 1) as nat
    } else {
        1nat
    };
    let high0 = (tier + 1) as nat;
    let high = if high0 <= available {
        high0
    } else {
        available
    };
    let low2 = if low <= high {
        low
    } else {
        high
    };
    if low2 == high {
        (low2, rng)
    } else {
        ((low2 + (pcg64_next_u32(rng) as nat) % ((high - low2 + 1) as nat)) as nat, rng.advanced())
    }
}

/// Determine the number of requirements for a contract at the given tier:
/// from max(tier − 1, 1) to tier + 1, capped by the number of available
/// requirement kinds.
fn roll_requirement_count(tier: u32, available_types: usize, rng: &mut GameRng) -> (r: usize)
    requires
        tier < u32::MAX,
    ensures
        (r as nat, final(rng)@) == spec_requirement_count(tier, available_types as nat, old(rng)@),
        r <= available_types,
{
    let below = tier.saturating_sub(1);
    let min_reqs = (if below >= 1 {
        below
    } else {
        1
    }) as usize;
    let max_reqs = (tier + 1) as usize;
    let max_reqs = if max_reqs <= available_types {
        max_reqs
    } else {
        available_types
    };
    let min_reqs = if min_reqs <= max_reqs {
        min_reqs
    } else {
        max_reqs
    };
    if min_reqs == max_reqs {
        return min_reqs;
    }
    let range = max_reqs - min_reqs + 1;
    let draw = rng.next_u32();
    min_reqs + (draw as usize % range)
}

pub open spec fn spec_requirement_tier(contract_tier: u32, rng: RngModel) -> (u32, RngModel) {
    let low: int = if contract_tier >= 1 {
        contract_tier - 1
    } else {
        0
    };
    let high: int = contract_tier + 1;
    ((low + (pcg64_next_u32(rng) as int) % (high - low + 1)) as u32, rng.advanced())
}

/// Roll the tier for a single requirement: one of tier − 1 (not below 0),
/// tier, tier + 1.
fn roll_requirement_tier(contract_tier: u32, rng: &mut GameRng) -> (r: u32)
    requires
        contract_tier < u32::MAX,
    ensures
        (r, final(rng)@) == spec_requirement_tier(contract_tier, old(rng)@),
        contract_tier >= 1 ==> contract_tier - 1 <= r,
        r <= contract_tier + 1,
{
    let min_tier = contract_tier.saturating_sub(1);
    let max_tier = contract_tier + 1;
    let range = max_tier - min_tier + 1;
    let draw = rng.next_u32();
    min_tier + (draw % range)
}

// ---------------------------------------------------------------------------
// Requirements of a contract
// ---------------------------------------------------------------------------

/// Contract generation at `tier` cannot overflow: every formula fits at every
/// tier a requirement can take (tier − 1 through tier + 1).
pub open spec fn requirements_fit(formulas: ContractFormulasConfig, tier: u32) -> bool {
    &&& tier < u32::MAX - 1
    &&& forall|t: u32| t <= tier + 1 ==> #[trigger] generation_fits_at(formulas, t)
}

/// The first `n` requirement rolls of a contract at `tier`: each rolls a
/// requirement tier, and, when some generator is available there, picks one
/// and runs it.
pub open spec fn spec_roll_requirements(
    n: nat,
    tier: u32,
    formulas: ContractFormulasConfig,
    types: Seq<EffectTypeSpec>,
    rng: RngModel,
) -> (Seq<ContractRequirementKind>, RngModel)
    decreases n,
{
    if n == 0 {
        (Seq::empty(), rng)
    } else {
        let (prev, r1) = spec_roll_requirements((n - 1) as nat, tier, formulas, types, rng);
        let (req_tier, r2) = spec_requirement_tier(tier, r1);
        let gens = spec_available_generators(req_tier, formulas, types);
        if gens.len() == 0 {
            (prev, r2)
        } else {
            let idx = (pcg64_next_u32(r2) as int) % (gens.len() as int);
            let (req, r3) = spec_run_generator(gens[idx], formulas, r2.advanced());
            (prev.push(req), r3)
        }
    }
}

pub open spec fn spec_contract_requirements(
    tier: u32,
    formulas: ContractFormulasConfig,
    types: Seq<EffectTypeSpec>,
    rng: RngModel,
) -> (Seq<ContractRequirementKind>, RngModel) {
    let gens = spec_available_generators(tier, formulas, types);
    let (count, r1) = spec_requirement_count(tier, gens.len(), rng);
    spec_roll_requirements(count, tier, formulas, types, r1)
}

/// Rolls the base requirements of a contract at the given tier.
pub fn roll_contract_requirements(
    tier: u32,
    formulas: &ContractFormulasConfig,
    effect_types: &Vec<CardEffectTypeConfig>,
    rng: &mut GameRng,
) -> (r: Vec<ContractRequirementKind>)
    requires
        requirements_fit(*formulas, tier),
    ensures
        (r@, final(rng)@) == spec_contract_requirements(
            tier,
            *formulas,
            effect_types_view(effect_types@),
            old(rng)@,
        ),
{
    let ghost tv = effect_types_view(effect_types@);
    let generators_at_contract_tier = available_requirement_generators(tier, formulas, effect_types);
    let req_count = roll_requirement_count(tier, generators_at_contract_tier.len(), rng);
    let ghost start = rng@;
    let mut requirements: Vec<ContractRequirementKind> = Vec::new();
    let mut n: usize = 0;
    while n < req_count
        invariant
            n <= req_count,
            requirements_fit(*formulas, tier),
            tv == effect_types_view(effect_types@),
            (requirements@, rng@) == spec_roll_requirements(n as nat, tier, *formulas, tv, start),
        decreases req_count - n,
    {
        let req_tier = roll_requirement_tier(tier, rng);
        let generators = available_requirement_generators(req_tier, formulas, effect_types);
        if generators.len() > 0 {
            let draw = rng.next_u32();
            let gen_idx = draw as usize % generators.len();
            proof {
                assert(generation_fits_at(*formulas, req_tier));
                lemma_available_generators_ok(req_tier, *formulas, tv);
                assert(generators_view(generators@)[gen_idx as int] == generators@[gen_idx as int]@);
            }
            let req = run_generator(&generators[gen_idx], formulas, rng);
            requirements.push(req);
        }
        n = n + 1;
    }
    requirements
}

// ---------------------------------------------------------------------------
// Reward card drafting
// ---------------------------------------------------------------------------

/// A flattened entry: either a root's base effect or one of its variations,
/// by index into the effect types.
#[derive(Clone, Copy, Debug, PartialEq, Eq, Structural)]
pub struct EffectChoice {
    pub root: usize,
    pub variation: Option<usize>,
    pub unlocked_at_tier: u32,
}

/// The choices that the first `k` effect types offer at `tier`: each
/// unlocked root, followed by its unlocked variations.
pub open spec fn spec_effect_choices(types: Seq<EffectTypeSpec>, k: int, tier: u32) -> Seq<EffectChoice>
    decreases k,
{
    if k <= 0 {
        Seq::empty()
    } else {
        let prev = spec_effect_choices(types, k - 1, tier);
        let root = types[k - 1];
        if root.available_at_tier <= tier {
            prev.push(
                EffectChoice {
                    root: (k - 1) as usize,
                    variation: None,
                    unlocked_at_tier: root.available_at_tier,
                },
            ) + variation_choices(k - 1, root, root.variations.len() as int, tier)
        } else {
            prev
        }
    }
}

/// The unlocked variations among the first `m` of `root`'s.
pub open spec fn variation_choices(root_index: int, root: EffectTypeSpec, m: int, tier: u32) -> Seq<
    EffectChoice,
>
    decreases m,
{
    if m <= 0 {
        Seq::empty()
    } else {
        let prev = variation_choices(root_index, root, m - 1, tier);
        let v = root.variations[m - 1];
        if v.unlock_tier <= tier {
            prev.push(
                EffectChoice {
                    root: root_index as usize,
                    variation: Some((m - 1) as usize),
                    unlocked_at_tier: v.unlock_tier,
                },
            )
        } else {
            prev
        }
    }
}

/// Build a flat list of all effect choices available at the given tier.
pub fn build_effect_choices(tier: u32, effect_types: &Vec<CardEffectTypeConfig>) -> (r: Vec<EffectChoice>)
    ensures
        r@ == spec_effect_choices(effect_types_view(effect_types@), effect_types@.len() as int, tier),
{
    let ghost tv = effect_types_view(effect_types@);
    let mut choices: Vec<EffectChoice> = Vec::new();
    let mut k: usize = 0;
    while k < effect_types.len()
        invariant
            k <= effect_types@.len(),
            tv == effect_types_view(effect_types@),
            choices@ == spec_effect_choices(tv, k as int, tier),
        decreases effect_types.len() - k,
    {
        let root = &effect_types[k];
        proof {
            assert(tv[k as int] == root@);
        }
        if root.available_at_tier <= tier {
            choices.push(
                EffectChoice { root: k, variation: None, unlocked_at_tier: root.available_at_tier },
            );
            let ghost with_root = choices@;
            let mut m: usize = 0;
            while m < root.variations.len()
                invariant
                    m <= root.variations@.len(),
                    tv[k as int] == root@,
                    choices@ == with_root + variation_choices(k as int, root@, m as int, tier),
                decreases root.variations.len() - m,
            {
                let v = &root.variations[m];
                proof {
                    assert(root@.variations[m as int] == v@);
                }
                if v.unlock_tier <= tier {
                    choices.push(
                        EffectChoice { root: k, variation: Some(m), unlocked_at_tier: v.unlock_tier },
                    );
                }
                proof {
                    assert(choices@ =~= with_root + variation_choices(k as int, root@, m + 1, tier));
                }
                m = m + 1;
            }
        }
        k = k + 1;
    }
    choices
}

pub open spec fn max_unlocked(choices: Seq<EffectChoice>) -> u32
    decreases choices.len(),
{
    if choices.len() == 0 {
        0
    } else {
        let m = max_unlocked(choices.drop_last());
        if choices.last().unlocked_at_tier > m {
            choices.last().unlocked_at_tier
        } else {
            m
        }
    }
}

/// The weight of a choice: choices unlocked earlier weigh more.
pub open spec fn choice_weight(c: EffectChoice, max_tier: u32) -> int {
    max_tier - c.unlocked_at_tier + 1
}

pub open spec fn total_weight(choices: Seq<EffectChoice>, max_tier: u32) -> int
    decreases choices.len(),
{
    if choices.len() == 0 {
        0
    } else {
        total_weight(choices.drop_last(), max_tier) + choice_weight(choices.last(), max_tier)
    }
}

/// The index that a roll lands on, walking the weights from index `i`.
pub open spec fn pick_index(choices: Seq<EffectChoice>, max_tier: u32, roll: int, i: int) -> int
    decreases choices.len() - i,
{
    if i >= choices.len() {
        choices.len() - 1
    } else if roll < choice_weight(choices[i], max_tier) {
        i
    } else {
        pick_index(choices, max_tier, roll - choice_weight(choices[i], max_tier), i + 1)
    }
}

pub open spec fn spec_weighted_select(choices: Seq<EffectChoice>, rng: RngModel) -> (int, RngModel) {
    let max_tier = max_unlocked(choices);
    let total = total_weight(choices, max_tier);
    (pick_index(choices, max_tier, (pcg64_next_u32(rng) as int) % total, 0), rng.advanced())
}

proof fn lemma_max_unlocked(choices: Seq<EffectChoice>)
    ensures
        forall|i: int| 0 <= i < choices.len() ==> (#[trigger] choices[i]).unlocked_at_tier <= max_unlocked(choices),
    decreases choices.len(),
{
    if choices.len() > 0 {
        lemma_max_unlocked(choices.drop_last());
        assert forall|i: int| 0 <= i < choices.len() implies (#[trigger] choices[i]).unlocked_at_tier
            <= max_unlocked(choices) by {
            if i < choices.len() - 1 {
                assert(choices.drop_last()[i] == choices[i]);
            }
        }
    }
}

proof fn lemma_total_weight_positive(choices: Seq<EffectChoice>, max_tier: u32)
    requires
        choices.len() > 0,
        forall|i: int| 0 <= i < choices.len() ==> (#[trigger] choices[i]).unlocked_at_tier <= max_tier,
    ensures
        total_weight(choices, max_tier) >= choices.len(),
    decreases choices.len(),
{
    assert(choices[choices.len() - 1].unlocked_at_tier <= max_tier);
    if choices.len() > 1 {
        assert forall|i: int| 0 <= i < choices.drop_last().len() implies (
        #[trigger] choices.drop_last()[i]).unlocked_at_tier <= max_tier by {
            assert(choices.drop_last()[i] == choices[i]);
        }
        lemma_total_weight_positive(choices.drop_last(), max_tier);
    } else {
        assert(total_weight(choices.drop_last(), max_tier) == 0);
    }
}

proof fn lemma_total_weight_prefix(choices: Seq<EffectChoice>, max_tier: u32, k: int)
    requires
        0 <= k < choices.len(),
    ensures
        total_weight(choices.take(k + 1), max_tier) == total_weight(choices.take(k), max_tier)
            + choice_weight(choices[k], max_tier),
{
    assert(choices.take(k + 1).drop_last() =~= choices.take(k));
}

/// Weighted random selection: a lower `unlocked_at_tier` gets a higher weight.
fn weighted_select(choices: &Vec<EffectChoice>, rng: &mut GameRng) -> (r: usize)
    requires
        choices@.len() > 0,
        total_weight(choices@, max_unlocked(choices@)) <= u32::MAX,
    ensures
        (r as int, final(rng)@) == spec_weighted_select(choices@, old(rng)@),
        r < choices@.len(),
{
    let ghost cs = choices@;
    let mut max_tier: u32 = 0;
    let mut i: usize = 0;
    while i < choices.len()
        invariant
            i <= cs.len(),
            cs == choices@,
            max_tier == max_unlocked(cs.take(i as int)),
        decreases choices.len() - i,
    {
        proof {
            assert(cs.take(i + 1).drop_last() =~= cs.take(i as int));
        }
        if choices[i].unlocked_at_tier > max_tier {
            max_tier = choices[i].unlocked_at_tier;
        }
        i = i + 1;
    }
    proof {
        assert(cs.take(cs.len() as int) =~= cs);
        lemma_max_unlocked(cs);
        lemma_total_weight_positive(cs, max_tier);
    }
    let mut total: u32 = 0;
    let mut j: usize = 0;
    while j < choices.len()
        invariant
            j <= cs.len(),
            cs == choices@,
            max_tier == max_unlocked(cs),
            total_weight(cs, max_tier) <= u32::MAX,
            total == total_weight(cs.take(j as int), max_tier),
            forall|k: int| 0 <= k < cs.len() ==> (#[trigger] cs[k]).unlocked_at_tier <= max_tier,
        decreases choices.len() - j,
    {
        proof {
            lemma_total_weight_prefix(cs, max_tier, j as int);
            lemma_total_weight_monotone(cs, max_tier, j + 1);
        }
        total = total + (max_tier - choices[j].unlocked_at_tier + 1);
        j = j + 1;
    }
    proof {
        assert(cs.take(cs.len() as int) =~= cs);
    }
    proof {
        assert forall|q: int| 0 <= q < cs.len() implies choice_weight(#[trigger] cs[q], max_tier)
            <= total_weight(cs, max_tier) by {
            lemma_weight_le_total(cs, max_tier, q);
        }
    }
    let draw = rng.next_u32();
    let mut roll = draw % total;
    let mut k: usize = 0;
    while k < choices.len()
        invariant
            k <= cs.len(),
            cs == choices@,
            cs.len() > 0,
            max_tier == max_unlocked(cs),
            total == total_weight(cs, max_tier),
            total_weight(cs, max_tier) <= u32::MAX,
            draw == pcg64_next_u32(old(rng)@),
            rng@ == old(rng)@.advanced(),
            forall|q: int| 0 <= q < cs.len() ==> (#[trigger] cs[q]).unlocked_at_tier <= max_tier,
            forall|q: int| 0 <= q < cs.len() ==> choice_weight(#[trigger] cs[q], max_tier)
                <= total_weight(cs, max_tier),
            pick_index(cs, max_tier, (draw % total) as int, 0) == pick_index(cs, max_tier, roll as int, k as int),
        decreases choices.len() - k,
    {
        let w = max_tier - choices[k].unlocked_at_tier + 1;
        if roll < w {
            return k;
        }
        roll = roll - w;
        k = k + 1;
    }
    choices.len() - 1
}

proof fn lemma_weight_le_total(choices: Seq<EffectChoice>, max_tier: u32, q: int)
    requires
        0 <= q < choices.len(),
        forall|i: int| 0 <= i < choices.len() ==> (#[trigger] choices[i]).unlocked_at_tier <= max_tier,
    ensures
        choice_weight(choices[q], max_tier) <= total_weight(choices, max_tier),
{
    lemma_total_weight_prefix(choices, max_tier, q);
    lemma_total_weight_monotone(choices, max_tier, q + 1);
    if q > 0 {
        assert forall|i: int| 0 <= i < choices.take(q).len() implies (
        #[trigger] choices.take(q)[i]).unlocked_at_tier <= max_tier by {
            assert(choices.take(q)[i] == choices[i]);
        }
        lemma_total_weight_positive(choices.take(q), max_tier);
    } else {
        assert(choices.take(0) =~= Seq::<EffectChoice>::empty());
    }
}

proof fn lemma_total_weight_monotone(choices: Seq<EffectChoice>, max_tier: u32, k: int)
    requires
        0 <= k <= choices.len(),
        forall|i: int| 0 <= i < choices.len() ==> (#[trigger] choices[i]).unlocked_at_tier <= max_tier,
    ensures
        total_weight(choices.take(k), max_tier) <= total_weight(choices, max_tier),
    decreases choices.len() - k,
{
    if k < choices.len() {
        lemma_total_weight_monotone(choices, max_tier, k + 1);
        lemma_total_weight_prefix(choices, max_tier, k);
    } else {
        assert(choices.take(k) =~= choices);
    }
}

/// The effect of a variation with its amounts: the primary token on the
/// side of the root's main direction (an output for a producer, an input for
/// a consumer), then the secondary token on the variation's side.
pub open spec fn spec_variation_effect(
    root: EffectTypeSpec,
    variation: VariationSpec,
    primary_amount: u32,
    secondary_amount: u32,
) -> EffectSpec {
    let primary = TokenAmount { token_type: root.primary_token, amount: primary_amount };
    let secondary = TokenAmount { token_type: variation.secondary_token, amount: secondary_amount };
    let (inputs, outputs) = match root.main_direction {
        MainEffectDirection::Producer => (Seq::<TokenAmount>::empty(), seq![primary]),
        MainEffectDirection::Consumer => (seq![primary], Seq::<TokenAmount>::empty()),
    };
    match variation.direction {
        VariationDirection::Input => EffectSpec { inputs: inputs.push(secondary), outputs },
        VariationDirection::Output => EffectSpec { inputs, outputs: outputs.push(secondary) },
    }
}

/// Assembles the effect of the `variation_index`-th variation of
/// `effect_types[root_index]` from its computed amounts.
pub fn variation_effect(
    effect_types: &Vec<CardEffectTypeConfig>,
    root_index: usize,
    variation_index: usize,
    primary_amount: u32,
    secondary_amount: u32,
) -> (r: CardEffect)
    requires
        root_index < effect_types@.len(),
        variation_index < effect_types@[root_index as int].variations@.len(),
    ensures
        r@ == spec_variation_effect(
            effect_types@[root_index as int]@,
            effect_types@[root_index as int].variations@[variation_index as int]@,
            primary_amount,
            secondary_amount,
        ),
{
    let root = &effect_types[root_index];
    let variation = &root.variations[variation_index];
    let primary = TokenAmount { token_type: root.primary_token, amount: primary_amount };
    let secondary = TokenAmount { token_type: variation.secondary_token, amount: secondary_amount };
    let mut inputs: Vec<TokenAmount> = Vec::new();
    let mut outputs: Vec<TokenAmount> = Vec::new();
    match root.main_direction {
        MainEffectDirection::Producer => outputs.push(primary),
        MainEffectDirection::Consumer => inputs.push(primary),
    }
    match variation.direction {
        VariationDirection::Input => inputs.push(secondary),
        VariationDirection::Output => outputs.push(secondary),
    }
    let r = CardEffect { inputs, outputs };
    assert(r@.inputs =~= spec_variation_effect(root@, variation@, primary_amount, secondary_amount).inputs);
    assert(r@.outputs =~= spec_variation_effect(root@, variation@, primary_amount, secondary_amount).outputs);
    r
}

/// A reward-card effect as drafted: either final, or a variation whose
/// amounts are yet to be computed from the rolled numbers.
pub enum EffectDraft {
    /// A base (unmodified) main effect.
    Ready { effect: CardEffect },
    /// A variation of `effect_types[root_index]`, its `variation_index`-th.
    Variation {
        root_index: usize,
        variation_index: usize,
        tier: u32,
        /// The primary amount rolled from the root's formula.
        unmodified_primary: u32,
        /// The raw draw for the ratio, when the ratio range is rolled.
        ratio_draw: Option<u32>,
    },
}

pub enum EffectDraftSpec {
    Ready { effect: EffectSpec },
    Variation {
        root_index: usize,
        variation_index: usize,
        tier: u32,
        unmodified_primary: u32,
        ratio_draw: Option<u32>,
    },
}

impl View for EffectDraft {
    type V = EffectDraftSpec;

    open spec fn view(&self) -> EffectDraftSpec {
        match self {
            EffectDraft::Ready { effect } => EffectDraftSpec::Ready { effect: effect@ },
            EffectDraft::Variation {
                root_index,
                variation_index,
                tier,
                unmodified_primary,
                ratio_draw,
            } => EffectDraftSpec::Variation {
                root_index: *root_index,
                variation_index: *variation_index,
                tier: *tier,
                unmodified_primary: *unmodified_primary,
                ratio_draw: *ratio_draw,
            },
        }
    }
}

pub open spec fn effect_drafts_view(v: Seq<EffectDraft>) -> Seq<EffectDraftSpec> {
    v.map_values(|d: EffectDraft| d@)
}

/// A drafted reward card.
pub struct RewardCardDraft {
    pub tags: Vec<CardTag>,
    pub effects: Vec<EffectDraft>,
}

pub struct RewardDraftSpec {
    pub tags: Seq<CardTag>,
    pub effects: Seq<EffectDraftSpec>,
}

impl View for RewardCardDraft {
    type V = RewardDraftSpec;

    open spec fn view(&self) -> RewardDraftSpec {
        RewardDraftSpec { tags: self.tags@, effects: effect_drafts_view(self.effects@) }
    }
}

/// The base effect of a root: its primary token as output for a producer,
/// as input for a consumer.
pub open spec fn spec_base_effect(root: EffectTypeSpec, amount: u32) -> EffectSpec {
    let ta = TokenAmount { token_type: root.primary_token, amount };
    match root.main_direction {
        MainEffectDirection::Producer => EffectSpec { inputs: Seq::empty(), outputs: seq![ta] },
        MainEffectDirection::Consumer => EffectSpec { inputs: seq![ta], outputs: Seq::empty() },
    }
}

/// Roll the base (unmodified) main effect — no variation applied.
pub fn roll_base_effect(tier: u32, root: &CardEffectTypeConfig, rng: &mut GameRng) -> (r: CardEffect)
    requires
        formula_fits(root.primary_formula, tier),
    ensures
        ({
            let (amount, r2) = spec_roll_from_formula(tier, root.primary_formula, old(rng)@);
            r@ == spec_base_effect(root@, amount) && final(rng)@ == r2
        }),
{
    let primary_amount = roll_from_formula(tier, &root.primary_formula, rng);
    let ta = TokenAmount { token_type: root.primary_token, amount: primary_amount };
    let mut v: Vec<TokenAmount> = Vec::new();
    v.push(ta);
    let r = match root.main_direction {
        MainEffectDirection::Producer => CardEffect { inputs: Vec::new(), outputs: v },
        MainEffectDirection::Consumer => CardEffect { inputs: v, outputs: Vec::new() },
    };
    proof {
        assert(r@.inputs =~= spec_base_effect(root@, primary_amount).inputs);
        assert(r@.outputs =~= spec_base_effect(root@, primary_amount).outputs);
    }
    r
}

/// Drafting a reward card at `tier` stays within `u32`: every root formula
/// fits at `tier`, and the choice weights sum within `u32`.
pub open spec fn reward_fits(types: Seq<EffectTypeSpec>, tier: u32) -> bool {
    &&& forall|i: int| 0 <= i < types.len() ==> formula_fits(#[trigger] types[i].primary_formula, tier)
    &&& ({
        let choices = spec_effect_choices(types, types.len() as int, tier);
        total_weight(choices, max_unlocked(choices)) <= u32::MAX
    })
}

/// One drafted effect for the chosen entry, and the generator afterwards.
pub open spec fn spec_draft_effect(
    types: Seq<EffectTypeSpec>,
    choice: EffectChoice,
    tier: u32,
    ratio_is_rolled: bool,
    rng: RngModel,
) -> (EffectDraftSpec, RngModel) {
    let root = types[choice.root as int];
    let (amount, r1) = spec_roll_from_formula(tier, root.primary_formula, rng);
    match choice.variation {
        None => (EffectDraftSpec::Ready { effect: spec_base_effect(root, amount) }, r1),
        Some(v) => if ratio_is_rolled {
            (
                EffectDraftSpec::Variation {
                    root_index: choice.root,
                    variation_index: v,
                    tier,
                    unmodified_primary: amount,
                    ratio_draw: Some(pcg64_next_u32(r1)),
                },
                r1.advanced(),
            )
        } else {
            (
                EffectDraftSpec::Variation {
                    root_index: choice.root,
                    variation_index: v,
                    tier,
                    unmodified_primary: amount,
                    ratio_draw: None,
                },
                r1,
            )
        },
    }
}

/// The first `n` drafted effects with the tags gathered so far.
pub open spec fn spec_draft_effects(
    n: nat,
    types: Seq<EffectTypeSpec>,
    choices: Seq<EffectChoice>,
    tier: u32,
    ratio_is_rolled: bool,
    rng: RngModel,
) -> (Seq<CardTag>, Seq<EffectDraftSpec>, RngModel)
    decreases n,
{
    if n == 0 {
        (Seq::empty(), Seq::empty(), rng)
    } else {
        let (tags, effects, r1) = spec_draft_effects(
            (n - 1) as nat,
            types,
            choices,
            tier,
            ratio_is_rolled,
            rng,
        );
        let (idx, r2) = spec_weighted_select(choices, r1);
        let choice = choices[idx];
        let root = types[choice.root as int];
        let tags2 = add_new_tags(tags, root.tags, root.tags.len() as int);
        let (e, r3) = spec_draft_effect(types, choice, tier, ratio_is_rolled, r2);
        (tags2, effects.push(e), r3)
    }
}

/// The reward card drafted with `n` effects at `tier`: the tags of all
/// chosen roots, each once (Production when there are none), and the effects.
pub open spec fn spec_draft_reward_card(
    tier: u32,
    n: nat,
    types: Seq<EffectTypeSpec>,
    ratio_is_rolled: bool,
    rng: RngModel,
) -> (RewardDraftSpec, RngModel) {
    let choices = spec_effect_choices(types, types.len() as int, tier);
    let (tags, effects, r) = spec_draft_effects(n, types, choices, tier, ratio_is_rolled, rng);
    (
        RewardDraftSpec {
            tags: if tags.len() == 0 {
                seq![CardTag::Production]
            } else {
                tags
            },
            effects,
        },
        r,
    )
}

proof fn lemma_choice_roots(types: Seq<EffectTypeSpec>, k: int, tier: u32)
    requires
        0 <= k <= types.len(),
        k <= usize::MAX,
    ensures
        forall|i: int|
            0 <= i < spec_effect_choices(types, k, tier).len() ==> ({
                let c = #[trigger] spec_effect_choices(types, k, tier)[i];
                &&& c.root < k
                &&& (c.variation matches Some(v) ==> v < types[c.root as int].variations.len())
            }),
    decreases k,
{
    if k > 0 {
        lemma_choice_roots(types, k - 1, tier);
        lemma_variation_choice_indices(k - 1, types[k - 1], types[k - 1].variations.len() as int, tier);
    }
}

proof fn lemma_variation_choice_indices(root_index: int, root: EffectTypeSpec, m: int, tier: u32)
    requires
        0 <= root_index,
        root_index < usize::MAX,
        m <= root.variations.len(),
    ensures
        forall|i: int|
            0 <= i < variation_choices(root_index, root, m, tier).len() ==> ({
                let c = #[trigger] variation_choices(root_index, root, m, tier)[i];
                &&& c.root == root_index
                &&& (c.variation matches Some(v) ==> v < m)
            }),
    decreases m,
{
    if m > 0 {
        lemma_variation_choice_indices(root_index, root, m - 1, tier);
    }
}

/// Drafts a reward card with `num_effects` effects at the given tier.
pub fn draft_reward_card(
    tier: ContractTier,
    num_effects: usize,
    rng: &mut GameRng,
    ratio_is_rolled: bool,
    effect_types: &Vec<CardEffectTypeConfig>,
) -> (r: RewardCardDraft)
    requires
        reward_fits(effect_types_view(effect_types@), tier.0),
        num_effects > 0 ==> spec_effect_choices(
            effect_types_view(effect_types@),
            effect_types@.len() as int,
            tier.0,
        ).len() > 0,
    ensures
        (r@, final(rng)@) == spec_draft_reward_card(
            tier.0,
            num_effects as nat,
            effect_types_view(effect_types@),
            ratio_is_rolled,
            old(rng)@,
        ),
{
    let ghost tv = effect_types_view(effect_types@);
    let choices = build_effect_choices(tier.0, effect_types);
    let type_count = effect_types.len();
    proof {
        assert(tv.len() == type_count);
        lemma_choice_roots(tv, tv.len() as int, tier.0);
    }
    let ghost start = rng@;
    let mut all_tags: Vec<CardTag> = Vec::new();
    let mut effects: Vec<EffectDraft> = Vec::new();
    let mut n: usize = 0;
    while n < num_effects
        invariant
            n <= num_effects,
            tv == effect_types_view(effect_types@),
            choices@ == spec_effect_choices(tv, tv.len() as int, tier.0),
            num_effects > 0 ==> choices@.len() > 0,
            reward_fits(tv, tier.0),
            forall|i: int|
                0 <= i < choices@.len() ==> ({
                    let c = #[trigger] choices@[i];
                    &&& c.root < tv.len()
                    &&& (c.variation matches Some(v) ==> v < tv[c.root as int].variations.len())
                }),
            (all_tags@, effect_drafts_view(effects@), rng@) == spec_draft_effects(
                n as nat,
                tv,
                choices@,
                tier.0,
                ratio_is_rolled,
                start,
            ),
        decreases num_effects - n,
    {
        let idx = weighted_select(&choices, rng);
        let choice = choices[idx];
        let root = &effect_types[choice.root];
        proof {
            assert(tv[choice.root as int] == root@);
        }
        let ghost acc = all_tags@;
        let mut m: usize = 0;
        while m < root.tags.len()
            invariant
                m <= root.tags@.len(),
                all_tags@ == add_new_tags(acc, root.tags@, m as int),
            decreases root.tags.len() - m,
        {
            let tag = root.tags[m];
            if !tags_contain(&all_tags, tag) {
                all_tags.push(tag);
            }
            m = m + 1;
        }
        let ghost before_effects = effect_drafts_view(effects@);
        let ghost r_before = rng@;
        proof {
            assert(formula_fits(tv[choice.root as int].primary_formula, tier.0));
        }
        match choice.variation {
            None => {
                let e = roll_base_effect(tier.0, root, rng);
                effects.push(EffectDraft::Ready { effect: e });
            },
            Some(v) => {
                let unmodified_primary = roll_from_formula(tier.0, &root.primary_formula, rng);
                let ratio_draw = if ratio_is_rolled {
                    Some(rng.next_u32())
                } else {
                    None
                };
                effects.push(
                    EffectDraft::Variation {
                        root_index: choice.root,
                        variation_index: v,
                        tier: tier.0,
                        unmodified_primary,
                        ratio_draw,
                    },
                );
            },
        }
        proof {
            assert(effect_drafts_view(effects@) =~= before_effects.push(effects@.last()@));
        }
        n = n + 1;
    }
    if all_tags.len() == 0 {
        all_tags.push(CardTag::Production);
        proof {
            assert(all_tags@ =~= seq![CardTag::Production]);
        }
    }
    RewardCardDraft { tags: all_tags, effects }
}

// ---------------------------------------------------------------------------
// Contract drafts
// ---------------------------------------------------------------------------

/// A drafted contract: its base requirements and its drafted reward card.
pub struct ContractDraft {
    pub tier: ContractTier,
    pub requirements: Vec<ContractRequirementKind>,
    pub reward_card: RewardCardDraft,
}

pub struct ContractDraftSpec {
    pub tier: u32,
    pub requirements: Seq<ContractRequirementKind>,
    pub reward_card: RewardDraftSpec,
}

impl View for ContractDraft {
    type V = ContractDraftSpec;

    open spec fn view(&self) -> ContractDraftSpec {
        ContractDraftSpec {
            tier: self.tier.0,
            requirements: self.requirements@,
            reward_card: self.reward_card@,
        }
    }
}

/// Drafting a contract at `tier` cannot overflow and always finds a reward choice.
pub open spec fn draft_fits(formulas: ContractFormulasConfig, types: Seq<EffectTypeSpec>, tier: u32) -> bool {
    &&& requirements_fit(formulas, tier)
    &&& reward_fits(types, tier)
    &&& spec_effect_choices(types, types.len() as int, tier).len() > 0
}

/// The contract drafted at `tier`: its requirements, then a reward card with
/// as many effects as requirements.
pub open spec fn spec_draft_contract(
    tier: u32,
    formulas: ContractFormulasConfig,
    types: Seq<EffectTypeSpec>,
    ratio_is_rolled: bool,
    rng: RngModel,
) -> (ContractDraftSpec, RngModel) {
    let (reqs, r1) = spec_contract_requirements(tier, formulas, types, rng);
    let (reward, r2) = spec_draft_reward_card(tier, reqs.len(), types, ratio_is_rolled, r1);
    (ContractDraftSpec { tier, requirements: reqs, reward_card: reward }, r2)
}

/// Drafts a single contract for the given tier.
pub fn draft_contract(
    tier: ContractTier,
    rng: &mut GameRng,
    formulas: &ContractFormulasConfig,
    ratio_is_rolled: bool,
    effect_types: &Vec<CardEffectTypeConfig>,
) -> (r: ContractDraft)
    requires
        draft_fits(*formulas, effect_types_view(effect_types@), tier.0),
    ensures
        (r@, final(rng)@) == spec_draft_contract(
            tier.0,
            *formulas,
            effect_types_view(effect_types@),
            ratio_is_rolled,
            old(rng)@,
        ),
{
    let requirements = roll_contract_requirements(tier.0, formulas, effect_types, rng);
    let reward_card = draft_reward_card(tier, requirements.len(), rng, ratio_is_rolled, effect_types);
    ContractDraft { tier, requirements, reward_card }
}

} // verus!
