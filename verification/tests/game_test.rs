use my_little_factory_manager::action_log::PlayerAction;
use my_little_factory_manager::docs::designer::build_designer_guide;
use my_little_factory_manager::docs::hints::build_hints;
use my_little_factory_manager::docs::tutorial::build_tutorial;
use my_little_factory_manager::config::{
    CardEffectTypeConfig, CardTagConstraintFormulaConfig, ContractFormulasConfig, GameRulesConfig,
    GeneralRules, TierScalingFormula, TokenDefinitionConfig, TokenDefinitionsConfig,
    TurnWindowFormulaConfig, VariationSettings,
};
use my_little_factory_manager::contract_generation::{variation_effect, ContractDraft, EffectDraft};
use my_little_factory_manager::game_state::{
    filter_cards_by_tag, ActionError, ActionResult, ActionSuccess, GameState, PossibleAction,
};
use my_little_factory_manager::types::{
    CardEffect, CardTag, Contract, ContractFailureReason, ContractRequirementKind,
    ContractResolution, PlayerActionCard, TokenAmount, TokenType,
};

// ---------------------------------------------------------------------------
// Setup: rules, token definitions, and finishing drafted contracts
// ---------------------------------------------------------------------------

fn formula(base_min: u32, base_max: u32, per_tier_min: u32, per_tier_max: u32) -> TierScalingFormula {
    TierScalingFormula { base_min, base_max, per_tier_min, per_tier_max }
}

fn game_rules() -> GameRulesConfig {
    GameRulesConfig {
        general: GeneralRules {
            starting_hand_size: 5,
            starting_deck_size: 50,
            contracts_per_tier_to_advance: 10,
            contract_market_size_per_tier: 3,
            discard_production_unit_bonus: 1,
            min_turns_before_abandon: 5,
        },
        contract_formulas: ContractFormulasConfig {
            output_threshold: formula(4, 10, 2, 5),
            harmful_token_limit: formula(5, 10, 1, 2),
            turn_window: Some(TurnWindowFormulaConfig {
                unlock_tier: 6,
                min_turns_base: 3,
                min_turns_per_tier: 0,
                window_size_base: 10,
                window_size_per_tier: 0,
            }),
            card_tag_constraint: Some(CardTagConstraintFormulaConfig {
                unlock_tier: 12,
                base_count: 1,
                per_tier_count: 0,
            }),
        },
    }
}

fn token_def(
    token_type: TokenType,
    is_beneficial: bool,
    primary_formula: TierScalingFormula,
    producer_tags: Vec<CardTag>,
    consumer_tags: Vec<CardTag>,
) -> TokenDefinitionConfig {
    TokenDefinitionConfig { token_type, is_beneficial, primary_formula, producer_tags, consumer_tags }
}

fn token_definitions() -> TokenDefinitionsConfig {
    TokenDefinitionsConfig {
        tokens: vec![
            token_def(TokenType::ProductionUnit, true, formula(1, 5, 1, 2), vec![CardTag::Production], vec![]),
            token_def(TokenType::Heat, false, formula(1, 3, 1, 1), vec![CardTag::Production], vec![CardTag::SystemAdjustment]),
            token_def(TokenType::Energy, true, formula(1, 4, 1, 1), vec![CardTag::Production], vec![CardTag::Transformation]),
            token_def(TokenType::Waste, false, formula(1, 3, 1, 1), vec![CardTag::Production], vec![CardTag::SystemAdjustment]),
            token_def(TokenType::QualityPoint, true, formula(1, 3, 1, 1), vec![CardTag::QualityControl], vec![CardTag::Transformation]),
            token_def(TokenType::Pollution, false, formula(1, 3, 1, 1), vec![CardTag::Production], vec![CardTag::QualityControl]),
            token_def(TokenType::Innovation, true, formula(1, 2, 1, 1), vec![CardTag::SystemAdjustment], vec![CardTag::Transformation]),
        ],
        variation_settings: VariationSettings { items_per_tier: 2, ratio_is_rolled: true },
    }
}

const RATIO_MIN: f64 = 0.3;
const RATIO_MAX: f64 = 0.7;
const EFFICIENCY_PER_TIER: f64 = 0.01;
const BOOST_FACTOR: f64 = 0.5;

/// The amounts of a drafted variation effect, computed over real numbers.
fn finish_effect(draft: &EffectDraft, types: &Vec<CardEffectTypeConfig>) -> CardEffect {
    match draft {
        EffectDraft::Ready { effect } => effect.clone(),
        EffectDraft::Variation { root_index, variation_index, tier, unmodified_primary, ratio_draw } => {
            let root = &types[*root_index];
            let variation = &root.variations[*variation_index];
            let rolled = match ratio_draw {
                Some(d) => RATIO_MIN + ((d % 10_000) as f64 / 10_000.0) * (RATIO_MAX - RATIO_MIN),
                None => RATIO_MIN,
            };
            let tier_diff = tier.saturating_sub(variation.unlock_tier);
            let effective = (rolled - tier_diff as f64 * EFFICIENCY_PER_TIER).max(0.01);
            let secondary = (*unmodified_primary as f64 * effective).round().max(1.0) as u32;
            let modifier = 1.0 + rolled * variation.direction_sign as f64 * BOOST_FACTOR;
            let primary = (*unmodified_primary as f64 * modifier).round().max(1.0) as u32;
            variation_effect(types, *root_index, *variation_index, primary, secondary)
        }
    }
}

fn finish_contract(draft: &ContractDraft, types: &Vec<CardEffectTypeConfig>) -> Contract {
    Contract {
        tier: draft.tier,
        requirements: draft.requirements.clone(),
        reward_card: PlayerActionCard {
            tags: draft.reward_card.tags.clone(),
            effects: draft.reward_card.effects.iter().map(|e| finish_effect(e, types)).collect(),
        },
        adaptive_adjustments: vec![],
    }
}

/// Finishes the pending drafts and places them in the market.
fn place_pending(g: &mut GameState) {
    let types = g.cached_config().effect_types.clone();
    let contracts: Vec<Contract> = g.pending_drafts().iter().map(|d| finish_contract(d, &types)).collect();
    assert!(g.place_generated(contracts), "finished contracts must match their drafts");
}

fn new_game(seed: u64) -> GameState {
    let mut g = GameState::new_with_rules(Some(seed), game_rules(), &token_definitions());
    place_pending(&mut g);
    g
}

fn act(g: &mut GameState, action: PlayerAction) -> ActionResult {
    let r = g.dispatch(action);
    place_pending(g);
    r
}

fn accept_first(g: &mut GameState) -> ActionResult {
    act(g, PlayerAction::AcceptContract { tier_index: 0, contract_index: 0 })
}

fn token(g: &GameState, t: TokenType) -> u32 {
    g.tokens().get(t)
}

fn total(g: &GameState, f: fn(&my_little_factory_manager::types::CardCounts) -> u32) -> u32 {
    g.cards().iter().map(|e| f(&e.counts)).sum()
}

fn hand_total(g: &GameState) -> u32 {
    total(g, |c| c.hand)
}

fn shelved_total(g: &GameState) -> u32 {
    total(g, |c| c.shelved)
}

fn cycle_total(g: &GameState) -> u32 {
    total(g, |c| c.deck + c.hand + c.discard)
}

fn first_in_hand(g: &GameState) -> usize {
    g.cards().iter().position(|e| e.counts.hand > 0).expect("a card in hand")
}

fn resolution_of(r: &ActionResult) -> Option<&ContractResolution> {
    match r {
        ActionResult::Success(ActionSuccess::CardPlayed { contract_resolution })
        | ActionResult::Success(ActionSuccess::CardDiscarded { contract_resolution }) => {
            contract_resolution.as_ref()
        }
        _ => None,
    }
}

fn completed(r: &ActionResult) -> bool {
    matches!(resolution_of(r), Some(ContractResolution::Completed { .. }))
}

/// Plays the first card in hand until the active contract resolves.
fn play_until_resolved(g: &mut GameState, limit: usize) -> Option<ActionResult> {
    for _ in 0..limit {
        if g.active_contract().is_none() {
            return None;
        }
        let idx = first_in_hand(g);
        let r = act(g, PlayerAction::PlayCard { card_index: idx });
        if resolution_of(&r).is_some() {
            return Some(r);
        }
    }
    None
}

fn complete_one_contract(g: &mut GameState) -> bool {
    accept_first(g);
    matches!(play_until_resolved(g, 100), Some(ref r) if completed(r))
}

fn offer_count(g: &GameState) -> usize {
    g.offered_contracts().iter().map(|t| t.contracts.len()).sum()
}

fn is_error(r: &ActionResult) -> bool {
    matches!(r, ActionResult::Error(_))
}

// ---------------------------------------------------------------------------
// New game
// ---------------------------------------------------------------------------

#[test]
fn new_game_initializes_state() {
    let mut g = new_game(1);
    let r = act(&mut g, PlayerAction::NewGame { seed: Some(42) });
    assert!(matches!(r, ActionResult::Success(ActionSuccess::NewGameStarted { seed: 42 })));
    assert_eq!(g.seed(), 42);
    assert_eq!(hand_total(&g), 5);
    assert!(!g.offered_contracts().is_empty(), "should have offered contracts");
    assert!(g.active_contract().is_none(), "no active contract yet");
}

#[test]
fn new_game_without_seed_generates_random_seed() {
    let mut g = new_game(1);
    let r = act(&mut g, PlayerAction::NewGame { seed: None });
    let seed = match r {
        ActionResult::Success(ActionSuccess::NewGameStarted { seed }) => seed,
        _ => panic!("expected NewGameStarted"),
    };
    assert_eq!(g.seed(), seed);
    let mut fallback = rand_pcg::Pcg64::new(
        0xcafe_f00d_d15e_a5e5,
        0xa02b_dbf7_bb3c_0a7a_c28f_5c28_f5c2_8f5c,
    );
    assert_eq!(seed, rand::RngCore::next_u64(&mut fallback));
}

#[test]
fn deck_slots_initialized_to_starting_deck_size() {
    let g = new_game(42);
    assert_eq!(token(&g, TokenType::DeckSlots), 50);
}

#[test]
fn market_has_three_tier0_contracts_on_start() {
    let g = new_game(42);
    assert_eq!(g.offered_contracts().len(), 1);
    assert_eq!(g.offered_contracts()[0].tier.0, 0);
    assert_eq!(g.offered_contracts()[0].contracts.len(), 3);
    assert!(g.pending_drafts().is_empty());
}

#[test]
fn tier0_contracts_have_valid_requirements() {
    let g = new_game(42);
    for (i, c) in g.offered_contracts()[0].contracts.iter().enumerate() {
        assert_eq!(c.requirements.len(), 1, "tier 0 contract {i} should have exactly 1 requirement");
        match c.requirements[0] {
            ContractRequirementKind::TokenRequirement { token_type, min: None, max: Some(max) } => {
                assert_eq!(token_type, TokenType::Heat);
                assert!(max > 0);
            }
            ContractRequirementKind::TokenRequirement { token_type, min: Some(min), max: None } => {
                assert_eq!(token_type, TokenType::ProductionUnit);
                assert!((4..=15).contains(&min), "contract {i} min {min} should be in [4, 15]");
            }
            ref other => panic!("unexpected requirement {other:?}"),
        }
    }
}

#[test]
fn tier0_reward_cards_have_effects() {
    let g = new_game(42);
    for c in &g.offered_contracts()[0].contracts {
        assert!(!c.reward_card.effects.is_empty());
        assert_eq!(c.reward_card.effects.len(), c.requirements.len());
        assert!(!c.reward_card.tags.is_empty());
    }
}

#[test]
fn all_copies_of_the_starting_deck_are_in_the_cycle() {
    let g = new_game(7);
    assert_eq!(cycle_total(&g), 50);
    assert_eq!(shelved_total(&g), 0);
    for e in g.cards() {
        assert_eq!(e.card.tags, vec![CardTag::Production]);
        assert_eq!(e.card.effects.len(), 1);
        assert!(e.card.effects[0].inputs.is_empty());
        assert_eq!(e.card.effects[0].outputs[0].token_type, TokenType::ProductionUnit);
        let amount = e.card.effects[0].outputs[0].amount;
        assert!((1..=5).contains(&amount));
    }
}

#[test]
fn state_endpoint_returns_complete_view() {
    let g = new_game(42);
    let v = g.snapshot();
    assert_eq!(v.seed, 42);
    assert_eq!(v.cards.len(), g.cards().len());
    assert_eq!(v.tokens, vec![TokenAmount { token_type: TokenType::DeckSlots, amount: 50 }]);
    assert!(v.active_contract.is_none());
    assert_eq!(v.contract_turns_played, 0);
    assert_eq!(v.offered_contracts, g.offered_contracts().clone());
    assert!(v.cards_played_per_tag_contract.is_empty());
}

// ---------------------------------------------------------------------------
// Accepting contracts
// ---------------------------------------------------------------------------

#[test]
fn accept_contract_activates_offered_contract() {
    let mut g = new_game(42);
    let offered = g.offered_contracts()[0].contracts[0].clone();
    let r = accept_first(&mut g);
    assert!(matches!(r, ActionResult::Success(ActionSuccess::ContractAccepted)));
    assert_eq!(g.offered_contracts()[0].contracts.len(), 2);
    assert_eq!(g.active_contract(), Some(&offered));
}

#[test]
fn accepting_contract_reduces_market_by_one() {
    let mut g = new_game(5);
    let before = offer_count(&g);
    accept_first(&mut g);
    assert_eq!(offer_count(&g), before - 1);
}

#[test]
fn accept_contract_fails_when_already_active() {
    let mut g = new_game(42);
    accept_first(&mut g);
    let r = accept_first(&mut g);
    assert!(matches!(r, ActionResult::Error(ActionError::ContractAlreadyActive)));
}

#[test]
fn accept_contract_rejects_invalid_indices() {
    let mut g = new_game(42);
    let r = act(&mut g, PlayerAction::AcceptContract { tier_index: 7, contract_index: 0 });
    assert!(matches!(r, ActionResult::Error(ActionError::InvalidTierIndex { tier_index: 7 })));
    let r = act(&mut g, PlayerAction::AcceptContract { tier_index: 0, contract_index: 9 });
    assert!(matches!(
        r,
        ActionResult::Error(ActionError::InvalidContractIndex { tier_index: 0, contract_index: 9 })
    ));
}

// ---------------------------------------------------------------------------
// Playing and discarding
// ---------------------------------------------------------------------------

#[test]
fn play_card_adds_tokens_and_moves_card() {
    let mut g = new_game(42);
    accept_first(&mut g);
    let pu_before = token(&g, TokenType::ProductionUnit);
    let idx = first_in_hand(&g);
    let r = act(&mut g, PlayerAction::PlayCard { card_index: idx });
    assert!(matches!(r, ActionResult::Success(ActionSuccess::CardPlayed { .. })));
    if !completed(&r) {
        assert!(token(&g, TokenType::ProductionUnit) > pu_before);
    }
    assert_eq!(hand_total(&g), 5, "a replacement card is drawn");
}

#[test]
fn play_card_fails_without_active_contract() {
    let mut g = new_game(42);
    let r = act(&mut g, PlayerAction::PlayCard { card_index: 0 });
    assert!(matches!(r, ActionResult::Error(ActionError::NoActiveContract)));
}

#[test]
fn play_card_fails_with_invalid_index() {
    let mut g = new_game(42);
    accept_first(&mut g);
    let r = act(&mut g, PlayerAction::PlayCard { card_index: 99 });
    assert!(matches!(r, ActionResult::Error(ActionError::InvalidCardIndex { index: 99 })));
}

#[test]
fn discard_card_gives_baseline_bonus() {
    let mut g = new_game(42);
    accept_first(&mut g);
    let idx = first_in_hand(&g);
    let r = act(&mut g, PlayerAction::DiscardCard { card_index: idx });
    assert!(matches!(r, ActionResult::Success(ActionSuccess::CardDiscarded { .. })));
    assert_eq!(token(&g, TokenType::ProductionUnit), 1);
    assert_eq!(hand_total(&g), 5);
}

#[test]
fn discard_card_fails_without_active_contract() {
    let mut g = new_game(42);
    let r = act(&mut g, PlayerAction::DiscardCard { card_index: 0 });
    assert!(matches!(r, ActionResult::Error(ActionError::NoActiveContract)));
}

#[test]
fn refused_action_is_logged_and_changes_nothing_else() {
    let mut g = new_game(42);
    let before = g.snapshot();
    let log_len = g.action_log().entries().len();
    let r = act(&mut g, PlayerAction::PlayCard { card_index: 0 });
    assert!(is_error(&r));
    assert_eq!(g.action_log().entries().len(), log_len + 1);
    let after = g.snapshot();
    assert_eq!(after.cards, before.cards);
    assert_eq!(after.tokens, before.tokens);
    assert_eq!(after.offered_contracts, before.offered_contracts);
}

// ---------------------------------------------------------------------------
// Contract resolution
// ---------------------------------------------------------------------------

#[test]
fn contract_auto_completes_when_threshold_met() {
    let mut g = new_game(42);
    accept_first(&mut g);
    let r = play_until_resolved(&mut g, 50).expect("contract resolves");
    assert!(completed(&r));
    assert_eq!(token(&g, TokenType::ContractsTierCompleted(0)), 1);
    assert!(g.active_contract().is_none());
    assert_eq!(g.offered_contracts()[0].contracts.len(), 3, "market is refilled");
}

#[test]
fn contract_completion_returns_resolution_completed() {
    let mut g = new_game(100);
    let offered = g.offered_contracts()[0].contracts[0].clone();
    accept_first(&mut g);
    let r = play_until_resolved(&mut g, 100).expect("contract resolves");
    match resolution_of(&r) {
        Some(ContractResolution::Completed { contract }) => assert_eq!(contract, &offered),
        other => panic!("expected completion, got {other:?}"),
    }
}

#[test]
fn full_game_loop_two_contracts() {
    let mut g = new_game(100);
    assert!(complete_one_contract(&mut g));
    assert!(complete_one_contract(&mut g));
    assert_eq!(token(&g, TokenType::ContractsTierCompleted(0)), 2);
}

#[test]
fn contract_completion_subtracts_summed_requirements() {
    let mut g = new_game(100);
    accept_first(&mut g);
    let contract = g.active_contract().expect("active").clone();
    let mut pu_before_last = 0;
    let mut last = None;
    for _ in 0..100 {
        pu_before_last = token(&g, TokenType::ProductionUnit);
        let idx = first_in_hand(&g);
        let card = g.cards()[idx].card.clone();
        let r = act(&mut g, PlayerAction::PlayCard { card_index: idx });
        if completed(&r) {
            let produced: u32 = card.effects.iter().flat_map(|e| e.outputs.iter()).map(|o| o.amount).sum();
            last = Some(produced);
            break;
        }
    }
    let produced = last.expect("contract completes");
    let required: u32 = contract
        .requirements
        .iter()
        .filter_map(|r| match r {
            ContractRequirementKind::TokenRequirement { token_type: TokenType::ProductionUnit, min: Some(m), .. } => Some(*m),
            _ => None,
        })
        .sum();
    assert_eq!(token(&g, TokenType::ProductionUnit), pu_before_last + produced - required);
}

#[test]
fn market_refills_after_contract_completion() {
    let mut g = new_game(100);
    assert!(complete_one_contract(&mut g));
    assert_eq!(g.offered_contracts()[0].contracts.len(), 3);
}

#[test]
fn market_refill_keeps_remaining_offers() {
    let mut g = new_game(100);
    let before: Vec<Contract> = g.offered_contracts()[0].contracts.clone();
    assert!(complete_one_contract(&mut g));
    let after = &g.offered_contracts()[0].contracts;
    assert_eq!(after.len(), 3);
    assert_eq!(after[0], before[1]);
    assert_eq!(after[1], before[2]);
}

#[test]
fn reward_card_added_to_shelved_on_completion() {
    let mut g = new_game(42);
    let shelved_before = shelved_total(&g);
    let cycle_before = cycle_total(&g);
    assert!(complete_one_contract(&mut g));
    assert_eq!(shelved_total(&g), shelved_before + 1);
    assert_eq!(cycle_total(&g), cycle_before, "active cycle stays fixed at 50");
}

#[test]
fn reward_card_goes_to_shelved_only() {
    let mut g = new_game(7);
    assert!(complete_one_contract(&mut g));
    assert!(complete_one_contract(&mut g));
    assert_eq!(shelved_total(&g), 2);
    assert_eq!(cycle_total(&g), 50);
}

#[test]
fn tokens_persist_between_contracts() {
    let mut g = new_game(42);
    assert!(complete_one_contract(&mut g));
    let pu = token(&g, TokenType::ProductionUnit);
    let r = accept_first(&mut g);
    assert!(matches!(r, ActionResult::Success(ActionSuccess::ContractAccepted)));
    assert_eq!(token(&g, TokenType::ProductionUnit), pu);
}

#[test]
fn hand_persists_between_contracts() {
    let mut g = new_game(42);
    assert!(complete_one_contract(&mut g));
    assert_eq!(hand_total(&g), 5);
}

#[test]
fn deck_recycles_discard_when_empty() {
    let mut g = new_game(42);
    for _ in 0..60 {
        if g.active_contract().is_none() {
            accept_first(&mut g);
        }
        let idx = first_in_hand(&g);
        act(&mut g, PlayerAction::DiscardCard { card_index: idx });
    }
    assert_eq!(hand_total(&g), 5, "the hand is refilled after the deck is recycled");
    assert_eq!(cycle_total(&g), 50);
}

#[test]
fn contract_turns_tracked_in_state() {
    let mut g = new_game(42);
    accept_first(&mut g);
    let idx = first_in_hand(&g);
    let r = act(&mut g, PlayerAction::DiscardCard { card_index: idx });
    if resolution_of(&r).is_none() {
        assert_eq!(g.snapshot().contract_turns_played, 1);
    }
}

// ---------------------------------------------------------------------------
// Abandoning
// ---------------------------------------------------------------------------

fn play_turns_without_resolving(g: &mut GameState, n: u32) -> bool {
    for _ in 0..n {
        let idx = first_in_hand(g);
        let r = act(g, PlayerAction::DiscardCard { card_index: idx });
        if resolution_of(&r).is_some() {
            return false;
        }
    }
    true
}

fn abandonable_game() -> GameState {
    for seed in 0..200u64 {
        let mut g = new_game(seed);
        accept_first(&mut g);
        if play_turns_without_resolving(&mut g, 5) {
            return g;
        }
    }
    panic!("no seed gives a contract that lasts five discards");
}

#[test]
fn abandon_contract_no_active_contract_error() {
    let mut g = new_game(42);
    let r = act(&mut g, PlayerAction::AbandonContract);
    assert!(matches!(r, ActionResult::Error(ActionError::NoContractToAbandon)));
}

#[test]
fn abandon_contract_error_when_not_enough_turns() {
    let mut g = new_game(42);
    accept_first(&mut g);
    let r = act(&mut g, PlayerAction::AbandonContract);
    assert!(matches!(
        r,
        ActionResult::Error(ActionError::AbandonContractNotAllowed { turns_played: 0, turns_required: 5 })
    ));
}

#[test]
fn abandon_contract_not_available_before_min_turns() {
    let mut g = new_game(42);
    accept_first(&mut g);
    assert!(!g.possible_actions().iter().any(|a| matches!(a, PossibleAction::AbandonContract)));
}

#[test]
fn abandon_contract_available_after_min_turns() {
    let g = abandonable_game();
    assert!(g.possible_actions().iter().any(|a| matches!(a, PossibleAction::AbandonContract)));
}

#[test]
fn abandon_contract_resets_contract_state() {
    let mut g = abandonable_game();
    let active = g.active_contract().expect("active").clone();
    let r = act(&mut g, PlayerAction::AbandonContract);
    match r {
        ActionResult::Success(ActionSuccess::ContractAbandoned {
            contract_resolution: ContractResolution::Failed { contract, reason },
        }) => {
            assert_eq!(contract, active);
            assert_eq!(reason, ContractFailureReason::Abandoned { turns_played: 5 });
        }
        _ => panic!("expected ContractAbandoned"),
    }
    assert!(g.active_contract().is_none());
    assert_eq!(g.snapshot().contract_turns_played, 0);
    assert!(g.snapshot().cards_played_per_tag_contract.is_empty());
}

#[test]
fn abandon_contract_refills_market() {
    let mut g = abandonable_game();
    act(&mut g, PlayerAction::AbandonContract);
    assert_eq!(g.offered_contracts()[0].contracts.len(), 3);
}

#[test]
fn abandon_contract_counts_as_failure_in_metrics() {
    let mut g = abandonable_game();
    act(&mut g, PlayerAction::AbandonContract);
    let s = g.metrics().summary();
    assert_eq!(s.total_contracts_failed, 1);
    assert_eq!(s.total_contracts_abandoned, 1);
    assert_eq!(s.total_contracts_completed, 0);
}

#[test]
fn abandon_contract_breaks_streak() {
    let mut g = new_game(42);
    assert!(complete_one_contract(&mut g));
    assert_eq!(g.metrics().summary().current_streak, 1);
    accept_first(&mut g);
    if play_turns_without_resolving(&mut g, 5) {
        act(&mut g, PlayerAction::AbandonContract);
        let s = g.metrics().summary();
        assert_eq!(s.current_streak, 0);
        assert_eq!(s.best_streak, 1);
    }
}

// ---------------------------------------------------------------------------
// Deckbuilding
// ---------------------------------------------------------------------------

#[test]
fn possible_actions_do_not_include_replace_card_at_game_start() {
    let g = new_game(42);
    assert!(!g.possible_actions().iter().any(|a| matches!(a, PossibleAction::ReplaceCard)));
}

#[test]
fn replace_card_fails_during_active_contract() {
    let mut g = new_game(42);
    accept_first(&mut g);
    let r = act(
        &mut g,
        PlayerAction::ReplaceCard { target_card_index: 0, replacement_card_index: 0, sacrifice_card_index: 0 },
    );
    assert!(matches!(r, ActionResult::Error(ActionError::ContractActiveForDeckbuilding)));
}

#[test]
fn replace_card_fails_with_invalid_target_index() {
    let mut g = new_game(42);
    let r = act(
        &mut g,
        PlayerAction::ReplaceCard { target_card_index: 999, replacement_card_index: 0, sacrifice_card_index: 0 },
    );
    assert!(matches!(r, ActionResult::Error(ActionError::InvalidTargetCardIndex { index: 999 })));
}

#[test]
fn replace_card_fails_with_invalid_replacement_index() {
    let mut g = new_game(42);
    let target = g.cards().iter().position(|e| e.counts.deck > 0).expect("deck copy");
    let r = act(
        &mut g,
        PlayerAction::ReplaceCard { target_card_index: target, replacement_card_index: 999, sacrifice_card_index: 0 },
    );
    assert!(matches!(r, ActionResult::Error(ActionError::InvalidReplacementCardIndex { index: 999 })));
}

#[test]
fn replace_card_fails_when_no_shelved_copies() {
    let mut g = new_game(42);
    let target = g.cards().iter().position(|e| e.counts.deck > 0).expect("deck copy");
    let r = act(
        &mut g,
        PlayerAction::ReplaceCard { target_card_index: target, replacement_card_index: 0, sacrifice_card_index: 1 },
    );
    assert!(matches!(r, ActionResult::Error(ActionError::NoShelvedCopies { index: 0 })));
}

fn game_with_two_rewards() -> GameState {
    let mut g = new_game(100);
    assert!(complete_one_contract(&mut g));
    assert!(complete_one_contract(&mut g));
    g
}

#[test]
fn replace_card_fails_with_invalid_sacrifice_index() {
    let mut g = game_with_two_rewards();
    let target = g.cards().iter().position(|e| e.counts.deck > 0).expect("deck copy");
    let replacement = g.cards().iter().position(|e| e.counts.shelved > 0).expect("shelved copy");
    let r = act(
        &mut g,
        PlayerAction::ReplaceCard { target_card_index: target, replacement_card_index: replacement, sacrifice_card_index: 999 },
    );
    assert!(matches!(r, ActionResult::Error(ActionError::InvalidSacrificeCardIndex { index: 999 })));
}

#[test]
fn replace_card_rejects_sacrifice_without_shelved_copies() {
    let mut g = game_with_two_rewards();
    let target = g.cards().iter().position(|e| e.counts.deck > 0).expect("deck copy");
    let replacement = g.cards().iter().position(|e| e.counts.shelved > 0).expect("shelved copy");
    let sacrifice = g
        .cards()
        .iter()
        .enumerate()
        .position(|(i, e)| e.counts.shelved == 0 && i != target)
        .expect("an unshelved card");
    let r = act(
        &mut g,
        PlayerAction::ReplaceCard { target_card_index: target, replacement_card_index: replacement, sacrifice_card_index: sacrifice },
    );
    assert!(matches!(r, ActionResult::Error(ActionError::NoSacrificeCopies { .. })));
}

#[test]
fn replace_card_rejects_target_as_sacrifice_without_shelved_copies() {
    let mut g = game_with_two_rewards();
    let target = g.cards().iter().position(|e| e.counts.deck > 0 && e.counts.shelved == 0).expect("deck copy");
    let replacement = g.cards().iter().position(|e| e.counts.shelved > 0).expect("shelved copy");
    let r = act(
        &mut g,
        PlayerAction::ReplaceCard { target_card_index: target, replacement_card_index: replacement, sacrifice_card_index: target },
    );
    assert!(matches!(r, ActionResult::Error(ActionError::SacrificeIsTarget { .. })));
}

#[test]
fn replace_card_swaps_deck_card_with_shelved_card() {
    let mut g = game_with_two_rewards();
    let shelved: Vec<usize> = g.cards().iter().enumerate().filter(|(_, e)| e.counts.shelved > 0).map(|(i, _)| i).collect();
    let target = g.cards().iter().position(|e| e.counts.deck > 0 && e.counts.shelved == 0).expect("deck copy");
    let (replacement, sacrifice) = if shelved.len() >= 2 {
        (shelved[0], shelved[1])
    } else {
        (shelved[0], shelved[0])
    };
    let before_shelved = shelved_total(&g);
    let before_cycle = cycle_total(&g);
    let target_deck = g.cards()[target].counts.deck;
    let r = act(
        &mut g,
        PlayerAction::ReplaceCard { target_card_index: target, replacement_card_index: replacement, sacrifice_card_index: sacrifice },
    );
    assert!(matches!(r, ActionResult::Success(ActionSuccess::CardReplaced)), "{r:?}");
    assert_eq!(shelved_total(&g), before_shelved - 1, "one shelved copy is destroyed");
    assert_eq!(cycle_total(&g), before_cycle, "the cycle keeps its size");
    assert_eq!(g.cards()[target].counts.deck, target_deck - 1);
    assert_eq!(g.metrics().summary().total_cards_replaced, 1);
}

fn shelved_indices(g: &GameState) -> Vec<usize> {
    g.cards().iter().enumerate().filter(|(_, e)| e.counts.shelved > 0).map(|(i, _)| i).collect()
}

#[test]
fn replace_card_allows_sacrifice_is_target_with_enough_copies() {
    let mut g = new_game(100);
    for _ in 0..3 {
        assert!(complete_one_contract(&mut g));
    }
    let target = g.cards().iter().position(|e| e.counts.deck > 1 && e.counts.shelved == 0).expect("deck copies");
    let shelved = shelved_indices(&g);
    let (replacement, sacrifice) = if shelved.len() >= 2 { (shelved[0], shelved[1]) } else { (shelved[0], shelved[0]) };
    let r = act(
        &mut g,
        PlayerAction::ReplaceCard { target_card_index: target, replacement_card_index: replacement, sacrifice_card_index: sacrifice },
    );
    assert!(matches!(r, ActionResult::Success(ActionSuccess::CardReplaced)), "{r:?}");
    assert_eq!(g.cards()[target].counts.shelved, 1);
    let replacement = shelved_indices(&g).into_iter().find(|&i| i != target).expect("a shelved reward left");
    let before = shelved_total(&g);
    let r = act(
        &mut g,
        PlayerAction::ReplaceCard { target_card_index: target, replacement_card_index: replacement, sacrifice_card_index: target },
    );
    assert!(matches!(r, ActionResult::Success(ActionSuccess::CardReplaced)), "{r:?}");
    assert_eq!(shelved_total(&g), before - 1);
    assert_eq!(cycle_total(&g), 50);
}

#[test]
fn replace_card_is_deterministic() {
    fn run() -> GameState {
        let mut g = new_game(200);
        for _ in 0..10 {
            if g.active_contract().is_none() {
                accept_first(&mut g);
            } else {
                let idx = first_in_hand(&g);
                act(&mut g, PlayerAction::PlayCard { card_index: idx });
            }
        }
        g
    }
    let a = run();
    let b = run();
    assert_eq!(a.cards(), b.cards());
    assert_eq!(a.snapshot().tokens, b.snapshot().tokens);
}

#[test]
fn library_cards_filter_by_production_tag() {
    let mut g = new_game(42);
    assert!(complete_one_contract(&mut g));
    let all = my_little_factory_manager::game_state::filter_cards_by_tag(g.cards(), None);
    assert_eq!(&all, g.cards());
    let production = my_little_factory_manager::game_state::filter_cards_by_tag(g.cards(), Some(CardTag::Production));
    assert!(production.iter().all(|e| e.card.tags.contains(&CardTag::Production)));
    assert_eq!(
        production.len(),
        g.cards().iter().filter(|e| e.card.tags.contains(&CardTag::Production)).count()
    );
    let none = my_little_factory_manager::game_state::filter_cards_by_tag(g.cards(), Some(CardTag::Transformation));
    assert!(none.iter().all(|e| e.card.tags.contains(&CardTag::Transformation)));
}

// ---------------------------------------------------------------------------
// Determinism
// ---------------------------------------------------------------------------

fn scripted_run(seed: u64) -> GameState {
    let mut g = new_game(seed);
    for _ in 0..30 {
        if g.active_contract().is_none() {
            accept_first(&mut g);
        } else {
            let idx = first_in_hand(&g);
            act(&mut g, PlayerAction::PlayCard { card_index: idx });
        }
    }
    g
}

#[test]
fn same_seed_deals_same_hand() {
    let a = new_game(77);
    let b = new_game(77);
    assert_eq!(a.cards(), b.cards());
}

#[test]
fn same_seed_generates_same_contracts() {
    let a = new_game(77);
    let b = new_game(77);
    assert_eq!(a.offered_contracts(), b.offered_contracts());
}

#[test]
fn same_seed_same_actions_produce_identical_state() {
    let a = scripted_run(9);
    let b = scripted_run(9);
    assert_eq!(a.cards(), b.cards());
    assert_eq!(a.snapshot().tokens, b.snapshot().tokens);
    assert_eq!(a.offered_contracts(), b.offered_contracts());
    assert_eq!(a.action_log().entries(), b.action_log().entries());
}

#[test]
fn different_seeds_produce_different_state() {
    let a = new_game(1);
    let b = new_game(2);
    assert!(a.cards() != b.cards() || a.offered_contracts() != b.offered_contracts());
}

#[test]
fn replay_action_log_reproduces_state() {
    let a = scripted_run(31);
    let actions: Vec<PlayerAction> = a.action_log().entries().iter().map(|e| e.action).collect();
    let mut b = new_game(31);
    for action in actions {
        act(&mut b, action);
    }
    assert_eq!(a.cards(), b.cards());
    assert_eq!(a.snapshot().tokens, b.snapshot().tokens);
    assert_eq!(a.offered_contracts(), b.offered_contracts());
}

#[test]
fn new_game_fully_resets_state() {
    let mut g = scripted_run(12);
    assert!(!g.action_log().entries().is_empty());
    act(&mut g, PlayerAction::NewGame { seed: Some(12) });
    let fresh = new_game(12);
    assert_eq!(g.cards(), fresh.cards());
    assert_eq!(g.snapshot().tokens, fresh.snapshot().tokens);
    assert_eq!(g.offered_contracts(), fresh.offered_contracts());
    assert!(g.active_contract().is_none());
    assert_eq!(g.metrics().summary(), fresh.metrics().summary());
    let entries = g.action_log().entries();
    assert_eq!(entries.len(), 1, "a new game clears the log");
    assert_eq!(entries[0].seq, 0);
    assert_eq!(entries[0].action, PlayerAction::NewGame { seed: Some(12) });
}

#[test]
fn action_history_records_all_actions() {
    let mut g = new_game(42);
    act(&mut g, PlayerAction::NewGame { seed: Some(42) });
    accept_first(&mut g);
    let idx = first_in_hand(&g);
    act(&mut g, PlayerAction::PlayCard { card_index: idx });
    let entries = g.action_log().entries();
    assert_eq!(entries.len(), 3);
    for (i, e) in entries.iter().enumerate() {
        assert_eq!(e.seq, i as u64);
    }
    assert_eq!(entries[0].action, PlayerAction::NewGame { seed: Some(42) });
    assert_eq!(entries[2].action, PlayerAction::PlayCard { card_index: idx });
}

// ---------------------------------------------------------------------------
// Metrics
// ---------------------------------------------------------------------------

#[test]
fn metrics_track_cards_played() {
    let mut g = new_game(42);
    accept_first(&mut g);
    let idx = first_in_hand(&g);
    act(&mut g, PlayerAction::PlayCard { card_index: idx });
    let s = g.metrics().summary();
    assert_eq!(s.total_cards_played, 1);
    assert_eq!(s.total_cards_discarded, 0);
}

#[test]
fn metrics_track_cards_discarded() {
    let mut g = new_game(42);
    accept_first(&mut g);
    let idx = first_in_hand(&g);
    act(&mut g, PlayerAction::DiscardCard { card_index: idx });
    let s = g.metrics().summary();
    assert_eq!(s.total_cards_discarded, 1);
    let flow = g.metrics().build_token_flow();
    assert_eq!(flow.len(), 1);
    assert_eq!(flow[0].token_type, TokenType::ProductionUnit);
    assert_eq!(flow[0].total_produced, 1);
    assert_eq!(flow[0].net, 1);
}

#[test]
fn metrics_track_per_tag_counts() {
    let mut g = new_game(42);
    accept_first(&mut g);
    for _ in 0..2 {
        if g.active_contract().is_none() {
            break;
        }
        let idx = first_in_hand(&g);
        act(&mut g, PlayerAction::PlayCard { card_index: idx });
    }
    let tags = g.metrics().build_tag_counts();
    assert_eq!(tags.len(), 1);
    assert_eq!(tags[0].tag, CardTag::Production);
    assert_eq!(tags[0].count, g.metrics().summary().total_cards_played);
}

#[test]
fn metrics_track_token_flow() {
    let mut g = new_game(42);
    accept_first(&mut g);
    let idx = first_in_hand(&g);
    let produced: u32 = g.cards()[idx].card.effects[0].outputs[0].amount;
    act(&mut g, PlayerAction::PlayCard { card_index: idx });
    let flow = g.metrics().build_token_flow();
    let pu = flow.iter().find(|f| f.token_type == TokenType::ProductionUnit).expect("PU flow");
    assert_eq!(pu.total_produced, produced);
    assert_eq!(pu.total_consumed, 0);
    assert_eq!(pu.net, produced as i64);
}

#[test]
fn metrics_track_contract_completion() {
    let mut g = new_game(42);
    assert!(complete_one_contract(&mut g));
    let s = g.metrics().summary();
    assert_eq!(s.total_contracts_completed, 1);
    assert_eq!(s.cards_in_current_contract, 0);
    assert!(s.total_cards_across_completed >= 1);
    let tiers = g.metrics().tier_records();
    assert_eq!(tiers.len(), 1);
    assert_eq!(tiers[0].tier, 0);
    assert_eq!(tiers[0].completed, 1);
    assert_eq!(tiers[0].attempted, 1);
}

#[test]
fn metrics_track_contract_attempts() {
    let mut g = new_game(42);
    accept_first(&mut g);
    let tiers = g.metrics().tier_records();
    assert_eq!(tiers[0].attempted, 1);
    assert_eq!(tiers[0].completed, 0);
}

#[test]
fn metrics_track_streaks() {
    let mut g = new_game(100);
    assert!(complete_one_contract(&mut g));
    assert!(complete_one_contract(&mut g));
    let s = g.metrics().summary();
    assert_eq!(s.current_streak, 2);
    assert_eq!(s.best_streak, 2);
}

#[test]
fn metrics_reset_on_new_game() {
    let mut g = new_game(42);
    assert!(complete_one_contract(&mut g));
    act(&mut g, PlayerAction::NewGame { seed: Some(42) });
    let s = g.metrics().summary();
    assert_eq!(s.total_contracts_completed, 0);
    assert_eq!(s.total_cards_played, 0);
    assert!(g.metrics().tier_records().is_empty());
}

#[test]
fn metrics_are_deterministic_across_replays() {
    let a = scripted_run(55);
    let b = scripted_run(55);
    assert_eq!(a.metrics().summary(), b.metrics().summary());
    assert_eq!(a.metrics().build_token_flow(), b.metrics().build_token_flow());
}

// ---------------------------------------------------------------------------
// Views
// ---------------------------------------------------------------------------

#[test]
fn actions_possible_without_contract_shows_accept() {
    let g = new_game(42);
    let actions = g.possible_actions();
    assert!(matches!(actions[0], PossibleAction::NewGame));
    match &actions[1] {
        PossibleAction::AcceptContract { valid_tiers } => {
            assert_eq!(valid_tiers.len(), 1);
            assert_eq!(valid_tiers[0].tier_index, 0);
            assert_eq!(valid_tiers[0].valid_contract_index_range.min, 0);
            assert_eq!(valid_tiers[0].valid_contract_index_range.max, 2);
        }
        _ => panic!("expected AcceptContract"),
    }
    assert_eq!(actions.len(), 2);
}

#[test]
fn actions_possible_with_contract_shows_play_and_discard() {
    let mut g = new_game(42);
    accept_first(&mut g);
    let actions = g.possible_actions();
    let in_hand: Vec<usize> = g.cards().iter().enumerate().filter(|(_, e)| e.counts.hand > 0).map(|(i, _)| i).collect();
    assert!(matches!(actions[0], PossibleAction::NewGame));
    match &actions[1] {
        PossibleAction::PlayCard { valid_card_indices } => assert_eq!(valid_card_indices, &in_hand),
        _ => panic!("expected PlayCard"),
    }
    match &actions[2] {
        PossibleAction::DiscardCard { valid_card_indices } => assert_eq!(valid_card_indices, &in_hand),
        _ => panic!("expected DiscardCard"),
    }
    assert_eq!(actions.len(), 3);
}

#[test]
fn player_tokens_returns_grouped_balances() {
    let g = new_game(42);
    let v = g.tokens_view();
    assert!(v.beneficial.is_empty());
    assert!(v.harmful.is_empty());
    assert_eq!(v.progression, vec![TokenAmount { token_type: TokenType::DeckSlots, amount: 50 }]);
}

#[test]
fn player_tokens_after_playing_card_shows_production() {
    let mut g = new_game(42);
    accept_first(&mut g);
    let idx = first_in_hand(&g);
    act(&mut g, PlayerAction::DiscardCard { card_index: idx });
    let v = g.tokens_view();
    assert_eq!(v.beneficial, vec![TokenAmount { token_type: TokenType::ProductionUnit, amount: 1 }]);
}

#[test]
fn library_cards_returns_all_cards() {
    let g = new_game(42);
    let cards = filter_cards_by_tag(g.cards(), None);
    assert!(cards.len() >= 3, "starter deck should have at least 3 card types");
    assert_eq!(&cards, g.cards());
}

#[test]
fn contracts_active_returns_null_when_no_contract() {
    let g = new_game(42);
    assert!(g.active_contract().is_none(), "should be none when no active contract");
}

#[test]
fn contracts_active_returns_contract_when_accepted() {
    let mut g = new_game(42);
    let offered = g.offered_contracts()[0].contracts[0].clone();
    accept_first(&mut g);
    let active = g.active_contract().expect("should return the accepted contract");
    assert_eq!(active, &offered);
    assert!(!active.requirements.is_empty(), "contract should have requirements");
    assert!(!active.reward_card.effects.is_empty(), "contract should have a reward card");
}

#[test]
fn docs_tutorial_returns_structured_response() {
    let t = build_tutorial();
    assert!(!t.title.is_empty(), "should have title");
    assert!(!t.introduction.is_empty(), "should have introduction");
    assert!(!t.core_concepts.is_empty(), "should have core_concepts");
    assert!(!t.next_steps.is_empty(), "should have next_steps");
    assert!(t.steps.len() >= 5, "tutorial should have at least 5 steps");
}

#[test]
fn docs_hints_returns_structured_response() {
    let h = build_hints();
    assert!(!h.title.is_empty(), "should have title");
    assert!(!h.general_tips.is_empty(), "should have general_tips");
    assert!(!h.tiers.is_empty(), "should have at least 1 tier hints");
}

#[test]
fn docs_designer_returns_structured_response() {
    let d = build_designer_guide();
    assert!(!d.title.is_empty(), "should have title");
    assert!(!d.introduction.is_empty(), "should have introduction");
    assert!(d.sections.len() >= 5, "designer guide should have at least 5 sections");
}

#[test]
fn failure_breaks_streak_in_metrics() {
    let mut g = new_game(42);
    assert!(complete_one_contract(&mut g));
    assert!(complete_one_contract(&mut g));
    let s = g.metrics().summary();
    assert_eq!(s.current_streak, 2);
    assert_eq!(s.best_streak, 2);
}

#[test]
fn contracts_available_matches_state() {
    let g = new_game(42);
    assert_eq!(&g.snapshot().offered_contracts, g.offered_contracts());
}

#[test]
fn contracts_available_updates_after_accept() {
    let mut g = new_game(42);
    act(&mut g, PlayerAction::AcceptContract { tier_index: 0, contract_index: 0 });
    assert_eq!(g.offered_contracts()[0].contracts.len(), 2, "available should reflect accepted contract");
}

#[test]
fn same_seed_generates_identical_contracts() {
    let mut g = new_game(1);
    act(&mut g, PlayerAction::NewGame { seed: Some(42) });
    let contracts1 = g.offered_contracts().clone();
    act(&mut g, PlayerAction::NewGame { seed: Some(42) });
    assert_eq!(&contracts1, g.offered_contracts(), "same seed should generate identical contracts");
}

#[test]
fn all_generated_contracts_are_valid_across_seeds() {
    for seed in [1u64, 42, 100, 999, 12345, 99999] {
        let g = new_game(seed);
        let tiers = g.offered_contracts();
        assert!(!tiers.is_empty(), "seed {} should have tier groups", seed);
        for group in tiers {
            assert_eq!(group.contracts.len(), 3, "seed {} should have 3 contracts per tier", seed);
            for c in &group.contracts {
                assert!(!c.requirements.is_empty(), "seed {} contract should have requirements", seed);
                assert_eq!(
                    c.reward_card.effects.len(),
                    c.requirements.len(),
                    "seed {} reward effects should match requirement count",
                    seed
                );
            }
        }
    }
}

#[test]
fn tier1_reward_cards_are_pure_production() {
    let mut g = new_game(42);
    assert!(complete_one_contract(&mut g));
    for entry in g.cards() {
        for tag in &entry.card.tags {
            assert_eq!(*tag, CardTag::Production, "tier 0 reward cards should only have Production tags");
        }
    }
}

#[test]
fn tutorial_steps_call_their_endpoints() {
    let t = build_tutorial();
    assert_eq!(t.steps[0].endpoint, "/action");
    assert_eq!(t.steps[1].endpoint, "/state");
    assert_eq!(t.steps[1].method, "GET");
    assert_eq!(t.steps[12].endpoint, "/actions/history");
    let h = build_hints();
    assert_eq!(h.tiers[1].tier, 1);
    assert!(h.tiers[1].overview.starts_with("Tier 1 introduces Heat"));
    let d = build_designer_guide();
    assert_eq!(d.sections[0].entries[0].name, "ProductionUnit (Beneficial)");
}
