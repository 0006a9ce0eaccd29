use std::collections::{BTreeMap, BTreeSet};

use my_little_factory_manager::config::{
    CardEffectTypeConfig, CardTagConstraintFormulaConfig, ContractFormulasConfig, TierScalingFormula,
    TokenDefinitionConfig, TokenDefinitionsConfig, TurnWindowFormulaConfig, VariationSettings,
};
use my_little_factory_manager::config_loader::{config_hash, fnv1a_hash};
use my_little_factory_manager::contract_generation::{
    draft_contract, draft_reward_card, variation_effect, ContractDraft, EffectDraft, RewardCardDraft,
};
use my_little_factory_manager::effect_types::{compute_direction_sign, generate_effect_types};
use my_little_factory_manager::rng::GameRng;
use my_little_factory_manager::starter_cards::create_starter_deck;
use my_little_factory_manager::types::{
    CardTag, ContractRequirementKind, ContractTier, MainEffectDirection, TokenAmount, TokenType,
    VariationDirection,
};
use my_little_factory_manager::version::version_info;
use rand::{RngCore, SeedableRng};

fn scaling(base_min: u32, base_max: u32, per_tier_min: u32, per_tier_max: u32) -> TierScalingFormula {
    TierScalingFormula { base_min, base_max, per_tier_min, per_tier_max }
}

fn definition(
    token_type: TokenType,
    is_beneficial: bool,
    primary_formula: TierScalingFormula,
    producer_tags: Vec<CardTag>,
    consumer_tags: Vec<CardTag>,
) -> TokenDefinitionConfig {
    TokenDefinitionConfig { token_type, is_beneficial, primary_formula, producer_tags, consumer_tags }
}

fn gen_token_defs() -> TokenDefinitionsConfig {
    TokenDefinitionsConfig {
        tokens: vec![
            definition(TokenType::ProductionUnit, true, scaling(1, 5, 1, 2), vec![CardTag::Production], vec![]),
            definition(TokenType::Heat, false, scaling(1, 3, 1, 1), vec![CardTag::Production], vec![CardTag::SystemAdjustment]),
            definition(TokenType::Energy, true, scaling(1, 4, 1, 1), vec![CardTag::Production], vec![CardTag::Transformation]),
            definition(TokenType::Waste, false, scaling(1, 3, 1, 1), vec![CardTag::Production], vec![CardTag::SystemAdjustment]),
            definition(TokenType::QualityPoint, true, scaling(1, 3, 1, 1), vec![CardTag::QualityControl], vec![CardTag::Transformation]),
            definition(TokenType::Pollution, false, scaling(1, 3, 1, 1), vec![CardTag::Production], vec![CardTag::QualityControl]),
            definition(TokenType::Innovation, true, scaling(1, 2, 1, 1), vec![CardTag::SystemAdjustment], vec![CardTag::Transformation]),
        ],
        variation_settings: VariationSettings { items_per_tier: 2, ratio_is_rolled: true },
    }
}

fn gen_formulas() -> ContractFormulasConfig {
    ContractFormulasConfig {
        output_threshold: scaling(4, 10, 2, 5),
        harmful_token_limit: scaling(5, 10, 1, 2),
        turn_window: Some(TurnWindowFormulaConfig {
            unlock_tier: 6,
            min_turns_base: 3,
            min_turns_per_tier: 0,
            window_size_base: 10,
            window_size_per_tier: 0,
        }),
        card_tag_constraint: Some(CardTagConstraintFormulaConfig { unlock_tier: 12, base_count: 1, per_tier_count: 0 }),
    }
}

fn gen_effect_types() -> Vec<CardEffectTypeConfig> {
    generate_effect_types(&gen_token_defs())
}

fn gen_contract(tier: u32, seed: u64) -> ContractDraft {
    let mut rng = GameRng::seed_from_u64(seed);
    draft_contract(ContractTier(tier), &mut rng, &gen_formulas(), true, &gen_effect_types())
}

fn gen_reward(tier: u32, n: usize, rng: &mut GameRng) -> RewardCardDraft {
    draft_reward_card(ContractTier(tier), n, rng, true, &gen_effect_types())
}

fn is_harmful(t: TokenType) -> bool {
    t.is_harmful()
}

// ---------------------------------------------------------------------------
// The combinatorial effect-type generator
// ---------------------------------------------------------------------------

#[test]
fn generator_produces_13_mains() {
    assert_eq!(gen_effect_types().len(), 13, "7 tokens: 13 mains (PU = 1, 6 × 2)");
}

#[test]
fn generator_produces_85_total_variations() {
    let total: usize = gen_effect_types().iter().map(|et| et.variations.len()).sum();
    assert_eq!(total, 85);
}

#[test]
fn generator_spans_49_tiers() {
    let et = gen_effect_types();
    let max_main = et.iter().map(|e| e.available_at_tier).max().unwrap_or(0);
    let max_var = et.iter().flat_map(|e| e.variations.iter().map(|v| v.unlock_tier)).max().unwrap_or(0);
    assert_eq!(max_main.max(max_var), 48, "98 items at 2 per tier: tiers 0 to 48");
}

#[test]
fn generated_effect_types_have_tier0_entry() {
    assert!(gen_effect_types().iter().any(|e| e.available_at_tier == 0));
}

#[test]
fn first_main_is_production_unit_producer_at_tier_0() {
    let et = gen_effect_types();
    assert_eq!(et[0].available_at_tier, 0);
    assert_eq!(et[0].primary_token, TokenType::ProductionUnit);
    assert_eq!(et[0].main_direction, MainEffectDirection::Producer);
}

#[test]
fn all_mains_have_at_least_one_tag() {
    for et in gen_effect_types() {
        assert!(!et.tags.is_empty(), "main '{}' should have at least one tag", et.name);
    }
}

#[test]
fn items_alternate_two_per_tier() {
    let mut counts: BTreeMap<u32, u32> = BTreeMap::new();
    for et in gen_effect_types() {
        *counts.entry(et.available_at_tier).or_insert(0) += 1;
        for v in &et.variations {
            *counts.entry(v.unlock_tier).or_insert(0) += 1;
        }
    }
    for (tier, count) in &counts {
        assert_eq!(*count, 2, "tier {tier} should have exactly 2 items");
    }
}

#[test]
fn beneficial_tokens_have_producer_and_consumer() {
    let et = gen_effect_types();
    for token in [TokenType::Energy, TokenType::QualityPoint, TokenType::Innovation] {
        assert!(et.iter().any(|e| e.primary_token == token && e.main_direction == MainEffectDirection::Producer));
        assert!(et.iter().any(|e| e.primary_token == token && e.main_direction == MainEffectDirection::Consumer));
    }
}

#[test]
fn harmful_tokens_have_producer_and_remover() {
    let et = gen_effect_types();
    for token in [TokenType::Heat, TokenType::Waste, TokenType::Pollution] {
        assert!(et.iter().any(|e| e.primary_token == token && e.main_direction == MainEffectDirection::Producer));
        assert!(et.iter().any(|e| e.primary_token == token && e.main_direction == MainEffectDirection::Consumer));
    }
}

#[test]
fn production_unit_has_only_producer_no_consumer() {
    let et = gen_effect_types();
    let pu: Vec<_> = et.iter().filter(|e| e.primary_token == TokenType::ProductionUnit).collect();
    assert_eq!(pu.len(), 1);
    assert_eq!(pu[0].main_direction, MainEffectDirection::Producer);
}

#[test]
fn self_consuming_variations_exist_for_all_mains() {
    for et in gen_effect_types() {
        let n = et.variations.iter().filter(|v| v.is_self_consuming).count();
        assert_eq!(n, 1, "main '{}' should have exactly 1 self-consuming variation", et.name);
    }
}

#[test]
fn cross_token_variations_only_on_earlier_mains() {
    let defs = gen_token_defs();
    let order: Vec<TokenType> = defs.tokens.iter().map(|t| t.token_type).collect();
    for et in gen_effect_types() {
        let p = order.iter().position(|t| *t == et.primary_token).expect("primary");
        for v in et.variations.iter().filter(|v| !v.is_self_consuming) {
            let s = order.iter().position(|t| *t == v.secondary_token).expect("secondary");
            assert!(s > p, "cross-token variation on '{}' must reference a later token", et.name);
        }
    }
}

fn find_variation(pred: impl Fn(TokenType, VariationDirection, bool) -> bool) -> i8 {
    gen_effect_types()
        .iter()
        .flat_map(|e| e.variations.iter())
        .find(|v| pred(v.secondary_token, v.direction, v.is_self_consuming))
        .expect("a matching variation")
        .direction_sign
}

#[test]
fn direction_sign_positive_for_harmful_output_variation() {
    assert_eq!(find_variation(|t, d, _| is_harmful(t) && d == VariationDirection::Output), 1);
}

#[test]
fn direction_sign_positive_for_beneficial_input_variation() {
    assert_eq!(find_variation(|t, d, s| t.is_beneficial() && d == VariationDirection::Input && !s), 1);
}

#[test]
fn direction_sign_negative_for_harmful_input_variation() {
    assert_eq!(find_variation(|t, d, s| is_harmful(t) && d == VariationDirection::Input && !s), -1);
}

#[test]
fn direction_sign_negative_for_beneficial_output_variation() {
    assert_eq!(find_variation(|t, d, s| t.is_beneficial() && d == VariationDirection::Output && !s), -1);
}

#[test]
fn direction_sign_formula_on_every_combination() {
    assert_eq!(compute_direction_sign(true, VariationDirection::Input), 1);
    assert_eq!(compute_direction_sign(true, VariationDirection::Output), -1);
    assert_eq!(compute_direction_sign(false, VariationDirection::Input), -1);
    assert_eq!(compute_direction_sign(false, VariationDirection::Output), 1);
}

// ---------------------------------------------------------------------------
// Reward cards and contracts
// ---------------------------------------------------------------------------

#[test]
fn reward_card_variation_has_both_primary_and_secondary_tokens() {
    let mut rng = GameRng::seed_from_u64(42);
    let types = gen_effect_types();
    let mut found = false;
    for _ in 0..50 {
        let card = gen_reward(5, 3, &mut rng);
        assert_eq!(card.effects.len(), 3);
        for e in &card.effects {
            match e {
                EffectDraft::Variation { root_index, variation_index, ratio_draw, .. } => {
                    let v = &types[*root_index].variations[*variation_index];
                    assert!(v.unlock_tier <= 5);
                    assert!(ratio_draw.is_some());
                    found = true;
                }
                EffectDraft::Ready { effect } => {
                    assert!(!effect.inputs.is_empty() || !effect.outputs.is_empty());
                }
            }
        }
    }
    assert!(found, "at tier 5 some variation effect should appear");
}

#[test]
fn variation_effect_places_primary_and_secondary_tokens() {
    let types = gen_effect_types();
    for (ri, root) in types.iter().enumerate() {
        for (vi, v) in root.variations.iter().enumerate() {
            let e = variation_effect(&types, ri, vi, 7, 3);
            let primary = TokenAmount { token_type: root.primary_token, amount: 7 };
            let secondary = TokenAmount { token_type: v.secondary_token, amount: 3 };
            let (mut inputs, mut outputs) = match root.main_direction {
                MainEffectDirection::Producer => (vec![], vec![primary]),
                MainEffectDirection::Consumer => (vec![primary], vec![]),
            };
            match v.direction {
                VariationDirection::Input => inputs.push(secondary),
                VariationDirection::Output => outputs.push(secondary),
            }
            assert_eq!(e.inputs, inputs);
            assert_eq!(e.outputs, outputs);
        }
    }
}

fn primary_amount(e: &EffectDraft) -> u32 {
    match e {
        EffectDraft::Ready { effect } => {
            effect.inputs.iter().chain(effect.outputs.iter()).map(|t| t.amount).sum()
        }
        EffectDraft::Variation { unmodified_primary, .. } => *unmodified_primary,
    }
}

#[test]
fn reward_card_amounts_scale_with_tier() {
    let mut low_rng = GameRng::seed_from_u64(42);
    let mut high_rng = GameRng::seed_from_u64(42);
    let low: u32 = gen_reward(0, 1, &mut low_rng).effects.iter().map(primary_amount).sum();
    let high: u32 = gen_reward(20, 1, &mut high_rng).effects.iter().map(primary_amount).sum();
    assert!(high > low, "tier 20 amounts ({high}) should exceed tier 0 amounts ({low})");
}

#[test]
fn harmful_token_limit_appears_in_generated_contracts() {
    let mut found = false;
    for seed in 0..50u64 {
        for r in &gen_contract(3, seed).requirements {
            if let ContractRequirementKind::TokenRequirement { min: None, max: Some(_), .. } = r {
                found = true;
            }
        }
    }
    assert!(found, "tier 3 contracts should include harmful token limits");
}

#[test]
fn harmful_token_limit_targets_harmful_tokens_only() {
    for seed in 0..50u64 {
        for tier in [1, 3, 8] {
            for r in &gen_contract(tier, seed).requirements {
                if let ContractRequirementKind::TokenRequirement { token_type, min: None, max: Some(_) } = r {
                    assert!(token_type.is_harmful(), "{token_type:?} should be harmful");
                }
            }
        }
    }
}

#[test]
fn tier0_requirements_only_use_production_unit() {
    for seed in 0..50u64 {
        for r in &gen_contract(0, seed).requirements {
            match r {
                ContractRequirementKind::TokenRequirement { token_type, min: Some(_), max: None } => {
                    assert_eq!(*token_type, TokenType::ProductionUnit);
                }
                ContractRequirementKind::TokenRequirement { token_type, min: None, max: Some(_) } => {
                    assert!(token_type.is_harmful());
                }
                other => panic!("unexpected tier 0 requirement {other:?}"),
            }
        }
    }
}

fn referenced_tokens(tier: u32, seed_offset: u64) -> BTreeSet<TokenType> {
    let mut s = BTreeSet::new();
    for seed in 0..100u64 {
        for r in &gen_contract(tier, seed + seed_offset).requirements {
            if let ContractRequirementKind::TokenRequirement { token_type, .. } = r {
                s.insert(*token_type);
            }
        }
    }
    s
}

#[test]
fn higher_tier_contracts_can_reference_more_token_types() {
    assert!(referenced_tokens(10, 1000).len() > referenced_tokens(0, 0).len());
}

#[test]
fn same_seed_same_tier_produces_identical_contracts() {
    for tier in [0, 5, 10, 20] {
        let a = gen_contract(tier, 42);
        let b = gen_contract(tier, 42);
        assert_eq!(a.requirements, b.requirements, "tier {tier}");
        assert_eq!(a.reward_card.tags, b.reward_card.tags);
    }
}

#[test]
fn different_seeds_generate_different_contracts() {
    let distinct: BTreeSet<String> =
        (0..20u64).map(|s| format!("{:?}", gen_contract(3, s).requirements)).collect();
    assert!(distinct.len() > 1);
}

#[test]
fn contracts_valid_across_many_tiers_and_seeds() {
    for tier in [0, 1, 5, 10, 20, 30, 48] {
        for seed in [1, 42, 777, 12345] {
            let c = gen_contract(tier, seed);
            assert_eq!(c.tier.0, tier);
            assert!(!c.requirements.is_empty(), "tier {tier} seed {seed} should have requirements");
            assert_eq!(c.reward_card.effects.len(), c.requirements.len());
            assert!(!c.reward_card.tags.is_empty());
            for r in &c.requirements {
                if let ContractRequirementKind::TurnWindow { min_turn: Some(lo), max_turn: Some(hi) } = r {
                    assert!(tier >= 5, "turn windows appear from their unlock tier (requirement tiers reach one below)");
                    assert!(lo <= hi);
                }
                if let ContractRequirementKind::CardTagConstraint { .. } = r {
                    assert!(tier >= 11);
                }
            }
        }
    }
}

#[test]
fn requirement_count_follows_tier() {
    for seed in 0..30u64 {
        let n = gen_contract(6, seed).requirements.len();
        assert!((1..=7).contains(&n), "tier 6 contracts have at most 7 requirements, got {n}");
    }
}

// ---------------------------------------------------------------------------
// Starter deck
// ---------------------------------------------------------------------------

#[test]
fn starter_deck_has_correct_size() {
    let mut rng = GameRng::seed_from_u64(42);
    let entries = create_starter_deck(50, &mut rng, &gen_effect_types());
    let total: u32 = entries.iter().map(|e| e.counts.deck).sum();
    assert_eq!(total, 50);
}

#[test]
fn all_copies_start_in_deck() {
    let mut rng = GameRng::seed_from_u64(42);
    for e in create_starter_deck(50, &mut rng, &gen_effect_types()) {
        assert_eq!(e.counts.shelved, 0);
        assert_eq!(e.counts.hand, 0);
        assert_eq!(e.counts.discard, 0);
        assert!(e.counts.deck > 0);
    }
}

#[test]
fn all_starter_cards_are_pure_production() {
    let mut rng = GameRng::seed_from_u64(42);
    for e in create_starter_deck(50, &mut rng, &gen_effect_types()) {
        assert_eq!(e.card.tags, vec![CardTag::Production]);
        assert_eq!(e.card.effects.len(), 1);
        assert!(e.card.effects[0].inputs.is_empty());
        assert_eq!(e.card.effects[0].outputs.len(), 1);
        assert_eq!(e.card.effects[0].outputs[0].token_type, TokenType::ProductionUnit);
    }
}

#[test]
fn starter_cards_production_amounts_in_tier0_range() {
    let mut rng = GameRng::seed_from_u64(123);
    let entries = create_starter_deck(50, &mut rng, &gen_effect_types());
    let amounts: BTreeSet<u32> = entries.iter().map(|e| e.card.effects[0].outputs[0].amount).collect();
    for a in &amounts {
        assert!((1..=5).contains(a), "production amount {a} should be in [1, 5]");
    }
    assert_eq!(amounts.len(), entries.len(), "equal cards are grouped in one entry");
}

// ---------------------------------------------------------------------------
// The seeded generator and the configuration fingerprint
// ---------------------------------------------------------------------------

#[test]
fn game_rng_draws_what_pcg64_draws() {
    let mut ours = GameRng::seed_from_u64(42);
    let mut theirs = rand_pcg::Pcg64::seed_from_u64(42);
    let a: Vec<u32> = (0..8).map(|_| ours.next_u32()).collect();
    let b: Vec<u32> = (0..8).map(|_| theirs.next_u32()).collect();
    assert_eq!(a, b);
    assert_ne!(a[0], a[1], "successive draws differ");
    assert_eq!(ours.next_u64(), theirs.next_u64());
}

#[test]
fn game_rng_from_state_and_stream_matches_pcg64() {
    let mut ours = GameRng::new(7, 0xa02b_dbf7_bb3c_0a7a_c28f_5c28_f5c2_8f5c);
    let mut theirs = rand_pcg::Pcg64::new(7, 0xa02b_dbf7_bb3c_0a7a_c28f_5c28_f5c2_8f5c);
    for _ in 0..5 {
        assert_eq!(ours.next_u64(), theirs.next_u64());
    }
    let mut other = GameRng::new(8, 0xa02b_dbf7_bb3c_0a7a_c28f_5c28_f5c2_8f5c);
    let mut again = GameRng::new(7, 0xa02b_dbf7_bb3c_0a7a_c28f_5c28_f5c2_8f5c);
    assert_ne!(other.next_u64(), again.next_u64());
}

#[test]
fn fnv1a_hash_known_values() {
    assert_eq!(fnv1a_hash(b""), 0xcbf2_9ce4_8422_2325);
    assert_eq!(fnv1a_hash(b"a"), 0xaf63_dc4c_8601_ec8c);
    assert_eq!(fnv1a_hash(b"foobar"), 0x8594_4171_f739_67e8);
}

#[test]
fn config_hash_is_hex_of_xored_hashes() {
    assert_eq!(config_hash(b"", b""), "0000000000000000");
    let h = fnv1a_hash(b"rules") ^ fnv1a_hash(b"tokens");
    assert_eq!(config_hash(b"rules", b"tokens"), format!("{h:016x}"));
}

#[test]
fn version_endpoint_returns_ok() {
    let v = version_info(b"rules", b"tokens");
    assert_eq!(v.version, "0.0.1");
    assert_eq!(v.config_hash, config_hash(b"rules", b"tokens"));
    assert_eq!(v.config_hash.len(), 16);
}
