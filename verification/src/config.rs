//! Game rules and formula configuration.

use vstd::prelude::*;

use crate::types::{CardTag, MainEffectDirection, TokenType, VariationDirection};

verus! {

/// General (non-tier-specific) game constants.
#[derive(Clone, Copy, Debug, PartialEq, Eq, Structural)]
pub struct GeneralRules {
    /// Number of cards in the player's starting hand.
    pub starting_hand_size: u32,
    /// Number of cards in the player's starting deck.
    pub starting_deck_size: u32,
    /// Contracts completed in a tier before the next tier unlocks.
    pub contracts_per_tier_to_advance: u32,
    /// Number of contracts offered in the market per unlocked tier.
    pub contract_market_size_per_tier: u32,
    /// Production units gained when discarding a card for baseline benefit.
    pub discard_production_unit_bonus: u32,
    /// Minimum turns played on the active contract before AbandonContract is allowed.
    pub min_turns_before_abandon: u32,
}

/// A linear tier-scaling formula: for a given tier, produces a range
/// `[base_min + tier × per_tier_min, base_max + tier × per_tier_max]`.
#[derive(Clone, Copy, Debug, PartialEq, Eq, Structural)]
pub struct TierScalingFormula {
    pub base_min: u32,
    pub base_max: u32,
    pub per_tier_min: u32,
    pub per_tier_max: u32,
}

/// Formula config for TurnWindow requirement generation.
#[derive(Clone, Copy, Debug, PartialEq, Eq, Structural)]
pub struct TurnWindowFormulaConfig {
    /// Tier from which TurnWindow requirements can be generated.
    pub unlock_tier: u32,
    pub min_turns_base: u32,
    pub min_turns_per_tier: u32,
    pub window_size_base: u32,
    pub window_size_per_tier: u32,
}

/// Formula config for CardTagConstraint requirement generation.
#[derive(Clone, Copy, Debug, PartialEq, Eq, Structural)]
pub struct CardTagConstraintFormulaConfig {
    /// Tier from which CardTagConstraint requirements can be generated.
    pub unlock_tier: u32,
    pub base_count: u32,
    pub per_tier_count: u32,
}

/// Formula parameters for contract generation.
#[derive(Clone, Copy, Debug, PartialEq, Eq, Structural)]
pub struct ContractFormulasConfig {
    pub output_threshold: TierScalingFormula,
    pub harmful_token_limit: TierScalingFormula,
    pub turn_window: Option<TurnWindowFormulaConfig>,
    pub card_tag_constraint: Option<CardTagConstraintFormulaConfig>,
}

/// The integer part of the game rules: general constants and contract formulas.
#[derive(Clone, Copy, Debug, PartialEq, Eq, Structural)]
pub struct GameRulesConfig {
    pub general: GeneralRules,
    pub contract_formulas: ContractFormulasConfig,
}

/// One token's definition: type, classification, primary formula, and the
/// card tags of its producer and consumer/remover effects.
#[derive(Clone, Debug, PartialEq, Eq)]
pub struct TokenDefinitionConfig {
    pub token_type: TokenType,
    pub is_beneficial: bool,
    pub primary_formula: TierScalingFormula,
    pub producer_tags: Vec<CardTag>,
    pub consumer_tags: Vec<CardTag>,
}

pub struct TokenDefinitionSpec {
    pub token_type: TokenType,
    pub is_beneficial: bool,
    pub primary_formula: TierScalingFormula,
    pub producer_tags: Seq<CardTag>,
    pub consumer_tags: Seq<CardTag>,
}

impl View for TokenDefinitionConfig {
    type V = TokenDefinitionSpec;

    open spec fn view(&self) -> TokenDefinitionSpec {
        TokenDefinitionSpec {
            token_type: self.token_type,
            is_beneficial: self.is_beneficial,
            primary_formula: self.primary_formula,
            producer_tags: self.producer_tags@,
            consumer_tags: self.consumer_tags@,
        }
    }
}

/// The integer settings of variation generation: how many generated items
/// share a tier, and whether a variation's ratio is rolled from the random
/// generator (it is not when the configured ratio range is a single value).
#[derive(Clone, Copy, Debug, PartialEq, Eq, Structural)]
pub struct VariationSettings {
    pub items_per_tier: u32,
    pub ratio_is_rolled: bool,
}

/// Token definitions from which the effect types are generated.
#[derive(Clone, Debug, PartialEq, Eq)]
pub struct TokenDefinitionsConfig {
    pub tokens: Vec<TokenDefinitionConfig>,
    pub variation_settings: VariationSettings,
}

pub open spec fn token_defs_view(v: Seq<TokenDefinitionConfig>) -> Seq<TokenDefinitionSpec> {
    v.map_values(|d: TokenDefinitionConfig| d@)
}

/// A generated card-effect type definition with its variations.
#[derive(Clone, Debug, PartialEq, Eq)]
pub struct CardEffectTypeConfig {
    pub name: String,
    pub tags: Vec<CardTag>,
    pub available_at_tier: u32,
    pub primary_token: TokenType,
    pub main_direction: MainEffectDirection,
    pub primary_formula: TierScalingFormula,
    pub variations: Vec<CardEffectVariation>,
}

/// A variation that modifies a main effect's primary output and adds a
/// secondary token exchange.
#[derive(Clone, Debug, PartialEq, Eq)]
pub struct CardEffectVariation {
    pub name: String,
    pub secondary_token: TokenType,
    pub direction: VariationDirection,
    pub is_self_consuming: bool,
    /// +1 = boosts primary, -1 = costs primary.
    pub direction_sign: i8,
    pub unlock_tier: u32,
}

pub struct VariationSpec {
    pub name: Seq<char>,
    pub secondary_token: TokenType,
    pub direction: VariationDirection,
    pub is_self_consuming: bool,
    pub direction_sign: i8,
    pub unlock_tier: u32,
}

impl View for CardEffectVariation {
    type V = VariationSpec;

    open spec fn view(&self) -> VariationSpec {
        VariationSpec {
            name: self.name@,
            secondary_token: self.secondary_token,
            direction: self.direction,
            is_self_consuming: self.is_self_consuming,
            direction_sign: self.direction_sign,
            unlock_tier: self.unlock_tier,
        }
    }
}

pub open spec fn variations_view(v: Seq<CardEffectVariation>) -> Seq<VariationSpec> {
    v.map_values(|x: CardEffectVariation| x@)
}

pub struct EffectTypeSpec {
    pub name: Seq<char>,
    pub tags: Seq<CardTag>,
    pub available_at_tier: u32,
    pub primary_token: TokenType,
    pub main_direction: MainEffectDirection,
    pub primary_formula: TierScalingFormula,
    pub variations: Seq<VariationSpec>,
}

impl View for CardEffectTypeConfig {
    type V = EffectTypeSpec;

    open spec fn view(&self) -> EffectTypeSpec {
        EffectTypeSpec {
            name: self.name@,
            tags: self.tags@,
            available_at_tier: self.available_at_tier,
            primary_token: self.primary_token,
            main_direction: self.main_direction,
            primary_formula: self.primary_formula,
            variations: variations_view(self.variations@),
        }
    }
}

pub open spec fn effect_types_view(v: Seq<CardEffectTypeConfig>) -> Seq<EffectTypeSpec> {
    v.map_values(|x: CardEffectTypeConfig| x@)
}

/// All config-derived data a game runs with, computed once at game creation.
pub struct CachedConfig {
    pub rules: GameRulesConfig,
    pub variation_settings: VariationSettings,
    pub effect_types: Vec<CardEffectTypeConfig>,
}

impl View for CachedConfig {
    type V = crate::game_model::ConfigSpec;

    open spec fn view(&self) -> crate::game_model::ConfigSpec {
        crate::game_model::ConfigSpec {
            rules: self.rules,
            types: effect_types_view(self.effect_types@),
            ratio_is_rolled: self.variation_settings.ratio_is_rolled,
        }
    }
}

impl CachedConfig {
    /// A configuration with no effect types (a placeholder while a game is rebuilt).
    pub fn placeholder(rules: GameRulesConfig, variation_settings: VariationSettings) -> (r: Self)
        ensures
            r.rules == rules,
            r.variation_settings == variation_settings,
            r.effect_types@.len() == 0,
    {
        CachedConfig { rules, variation_settings, effect_types: Vec::new() }
    }
}

/// Builds the cached configuration: the rules, and the effect types
/// generated from the token definitions.
pub fn build_cached_config(rules: GameRulesConfig, token_defs: &TokenDefinitionsConfig) -> (r: CachedConfig)
    requires
        crate::effect_types::all_items(
            token_defs_view(token_defs.tokens@),
            token_defs.tokens@.len() as int,
        ).len() <= u32::MAX,
    ensures
        r.rules == rules,
        r.variation_settings == token_defs.variation_settings,
        effect_types_view(r.effect_types@) == crate::effect_types::spec_generate_effect_types(
            token_defs_view(token_defs.tokens@),
            token_defs.variation_settings.items_per_tier,
        ),
{
    let effect_types = crate::effect_types::generate_effect_types(token_defs);
    CachedConfig { rules, variation_settings: token_defs.variation_settings, effect_types }
}

} // verus!
