//! Designer guide: contract, card, token, and effect authoring reference.

use vstd::prelude::*;

verus! {

/// A reference entry for a single game concept.
pub struct ReferenceEntry {
    pub name: String,
    pub description: String,
}

/// A section in the designer guide.
pub struct DesignerSection {
    pub title: String,
    pub description: String,
    pub entries: Vec<ReferenceEntry>,
}

/// Complete designer guide for understanding and authoring game content.
pub struct DesignerGuide {
    pub title: String,
    pub introduction: String,
    pub sections: Vec<DesignerSection>,
}

/// The text of a reference entry.
#[verifier::ext_equal]
pub struct ReferenceEntrySpec {
    pub name: Seq<char>,
    pub description: Seq<char>,
}

/// The text of a designer guide section.
#[verifier::ext_equal]
pub struct DesignerSectionSpec {
    pub title: Seq<char>,
    pub description: Seq<char>,
    pub entries: Seq<ReferenceEntrySpec>,
}

/// The text of the designer guide.
#[verifier::ext_equal]
pub struct DesignerGuideSpec {
    pub title: Seq<char>,
    pub introduction: Seq<char>,
    pub sections: Seq<DesignerSectionSpec>,
}

impl View for ReferenceEntry {
    type V = ReferenceEntrySpec;

    open spec fn view(&self) -> ReferenceEntrySpec {
        ReferenceEntrySpec { name: self.name@, description: self.description@ }
    }
}

impl View for DesignerSection {
    type V = DesignerSectionSpec;

    open spec fn view(&self) -> DesignerSectionSpec {
        DesignerSectionSpec {
            title: self.title@,
            description: self.description@,
            entries: self.entries@.map_values(|x: ReferenceEntry| x@),
        }
    }
}

impl View for DesignerGuide {
    type V = DesignerGuideSpec;

    open spec fn view(&self) -> DesignerGuideSpec {
        DesignerGuideSpec {
            title: self.title@,
            introduction: self.introduction@,
            sections: self.sections@.map_values(|x: DesignerSection| x@),
        }
    }
}

/// The content of `build_designer_guide`.
pub open spec fn designer_guide_doc() -> DesignerGuideSpec {
    DesignerGuideSpec {
        title: "My Little Factory Manager — Designer Guide"@,
        introduction: "This guide describes how contracts, cards, tokens, and effects \
            are structured. Use it to understand the building blocks of the game and the \
            formula-based balance system. The game follows a single unified production \
            mechanic — contracts vary by their requirement combinations, not by different \
            resolution systems."@,
        sections: seq![
            token_types_doc(),
            card_effects_doc(),
            contract_requirements_doc(),
            tier_system_doc(),
            card_locations_doc(),
            deckbuilding_doc(),
            configuration_doc(),
            determinism_doc(),
        ],
    }
}

/// The designer guide: eight sections, from token types to determinism.
pub fn build_designer_guide() -> (r: DesignerGuide)
    ensures
        r@ == designer_guide_doc(),
        r.title@ == "My Little Factory Manager — Designer Guide"@,
        r.sections@.len() == 8,
        r.sections@[0].title@ == "Token Types"@,
        r.sections@[1].title@ == "Card Effects"@,
        r.sections@[2].title@ == "Contract Requirements"@,
        r.sections@[3].title@ == "Contract Tier System"@,
        r.sections@[4].title@ == "Card Locations"@,
        r.sections@[5].title@ == "Deckbuilding"@,
        r.sections@[6].title@ == "Game Configuration"@,
        r.sections@[7].title@ == "Determinism & Reproducibility"@,
{
    let r = DesignerGuide {
        title: String::from_str("My Little Factory Manager — Designer Guide"),
        introduction: String::from_str("This guide describes how contracts, cards, tokens, and effects \
            are structured. Use it to understand the building blocks of the game and the \
            formula-based balance system. The game follows a single unified production \
            mechanic — contracts vary by their requirement combinations, not by different \
            resolution systems."),
        sections: vec![
            build_token_types(),
            build_card_effects(),
            build_contract_requirements(),
            build_tier_system(),
            build_card_locations(),
            build_deckbuilding(),
            build_configuration(),
            build_determinism(),
        ],
    };
    assert(r@ =~~= designer_guide_doc());
    r
}

/// The content of `build_token_types`.
pub open spec fn token_types_doc() -> DesignerSectionSpec {
    DesignerSectionSpec {
        title: "Token Types"@,
        description: "Tokens are simple counters that persist between contracts. \
            Each token type belongs to one category: beneficial, harmful, or progression. \
            Token types are enum-based with no lifecycle — they are added and removed \
            by card effects and checked by contract requirements."@,
        entries: seq![
            ReferenceEntrySpec {
                name: "ProductionUnit (Beneficial)"@,
                description: "The main production output — mandatory in every contract's \
                    OutputThreshold requirement. Produced by production cards and consumed \
                    when contracts complete."@,
            },
            ReferenceEntrySpec {
                name: "Energy (Beneficial)"@,
                description: "Energy resource consumed by conversion effects and produced \
                    by some cards. Used as input for advanced card effects in higher tiers."@,
            },
            ReferenceEntrySpec {
                name: "RawMaterial (Beneficial)"@,
                description: "Basic material input for transformation effects. Converted \
                    into other beneficial tokens at favorable ratios."@,
            },
            ReferenceEntrySpec {
                name: "Heat (Harmful)"@,
                description: "Thermal byproduct from production processes. Accumulates \
                    during card plays and may be constrained by contract requirements."@,
            },
            ReferenceEntrySpec {
                name: "CO2 (Harmful)"@,
                description: "Carbon emissions from factory operations. Higher-output \
                    production cards may produce CO2 as a tradeoff."@,
            },
            ReferenceEntrySpec {
                name: "Waste (Harmful)"@,
                description: "Generic industrial waste. Can be removed by QualityControl \
                    cards with WasteRemoval effects."@,
            },
            ReferenceEntrySpec {
                name: "Pollution (Harmful)"@,
                description: "Environmental contamination. The most severe harmful token — \
                    contracts in higher tiers may impose strict Pollution limits."@,
            },
            ReferenceEntrySpec {
                name: "ContractsTierCompleted(N) (Progression)"@,
                description: "Tracks the number of contracts completed at tier N. \
                    When this reaches the advancement threshold (default: 10), the next \
                    tier unlocks."@,
            },
            ReferenceEntrySpec {
                name: "DeckSlots (Progression)"@,
                description: "Controls the maximum number of cards in the active cycle \
                    (deck + hand + discard). Initialized to starting_deck_size (default: 10). \
                    Each contract completion has a 25% chance to award +1 DeckSlots. When \
                    the active cycle is at the limit, reward cards go to the library shelf \
                    instead of entering the deck."@,
            },
        ],
    }
}

/// The section "Token Types", with 9 entries.
pub fn build_token_types() -> (r: DesignerSection)
    ensures
        r@ == token_types_doc(),
        r.title@ == "Token Types"@,
        r.entries@.len() == 9,
{
    let r = DesignerSection {
        title: String::from_str("Token Types"),
        description: String::from_str("Tokens are simple counters that persist between contracts. \
            Each token type belongs to one category: beneficial, harmful, or progression. \
            Token types are enum-based with no lifecycle — they are added and removed \
            by card effects and checked by contract requirements."),
        entries: vec![
            ReferenceEntry {
                name: String::from_str("ProductionUnit (Beneficial)"),
                description: String::from_str("The main production output — mandatory in every contract's \
                    OutputThreshold requirement. Produced by production cards and consumed \
                    when contracts complete."),
            },
            ReferenceEntry {
                name: String::from_str("Energy (Beneficial)"),
                description: String::from_str("Energy resource consumed by conversion effects and produced \
                    by some cards. Used as input for advanced card effects in higher tiers."),
            },
            ReferenceEntry {
                name: String::from_str("RawMaterial (Beneficial)"),
                description: String::from_str("Basic material input for transformation effects. Converted \
                    into other beneficial tokens at favorable ratios."),
            },
            ReferenceEntry {
                name: String::from_str("Heat (Harmful)"),
                description: String::from_str("Thermal byproduct from production processes. Accumulates \
                    during card plays and may be constrained by contract requirements."),
            },
            ReferenceEntry {
                name: String::from_str("CO2 (Harmful)"),
                description: String::from_str("Carbon emissions from factory operations. Higher-output \
                    production cards may produce CO2 as a tradeoff."),
            },
            ReferenceEntry {
                name: String::from_str("Waste (Harmful)"),
                description: String::from_str("Generic industrial waste. Can be removed by QualityControl \
                    cards with WasteRemoval effects."),
            },
            ReferenceEntry {
                name: String::from_str("Pollution (Harmful)"),
                description: String::from_str("Environmental contamination. The most severe harmful token — \
                    contracts in higher tiers may impose strict Pollution limits."),
            },
            ReferenceEntry {
                name: String::from_str("ContractsTierCompleted(N) (Progression)"),
                description: String::from_str("Tracks the number of contracts completed at tier N. \
                    When this reaches the advancement threshold (default: 10), the next \
                    tier unlocks."),
            },
            ReferenceEntry {
                name: String::from_str("DeckSlots (Progression)"),
                description: String::from_str("Controls the maximum number of cards in the active cycle \
                    (deck + hand + discard). Initialized to starting_deck_size (default: 10). \
                    Each contract completion has a 25% chance to award +1 DeckSlots. When \
                    the active cycle is at the limit, reward cards go to the library shelf \
                    instead of entering the deck."),
            },
        ],
    };
    assert(r@ =~~= token_types_doc());
    r
}

/// The content of `build_card_effects`.
pub open spec fn card_effects_doc() -> DesignerSectionSpec {
    DesignerSectionSpec {
        title: "Card Effects"@,
        description: "Each card has a list of effects. Each effect has inputs (tokens \
            consumed) and outputs (tokens produced). At least one must be non-empty. \
            Effect variants represent different operational categories."@,
        entries: seq![
            ReferenceEntrySpec {
                name: "PureProduction"@,
                description: "No inputs required. Produces beneficial tokens (typically \
                    ProductionUnit). The simplest effect type — all starter deck cards \
                    use this. Higher-tier variants may produce larger amounts but also \
                    produce harmful byproducts."@,
            },
            ReferenceEntrySpec {
                name: "Conversion"@,
                description: "Consumes one beneficial token type and produces a different \
                    beneficial token type in a larger amount. The conversion ratio improves \
                    with tier — higher tiers offer better exchange rates."@,
            },
            ReferenceEntrySpec {
                name: "WasteRemoval"@,
                description: "Consumes harmful tokens (Heat, CO2, Waste, Pollution) and \
                    produces nothing or a small amount of beneficial output. Removing \
                    harmful tokens is its own reward — these effects have intentionally \
                    lower beneficial output."@,
            },
            ReferenceEntrySpec {
                name: "Mixed Variants"@,
                description: "Combinations of the above with varying input/output ratios. \
                    More powerful beneficial output comes with tradeoffs — either consuming \
                    valuable inputs or producing harmful byproducts."@,
            },
        ],
    }
}

/// The section "Card Effects", with 4 entries.
pub fn build_card_effects() -> (r: DesignerSection)
    ensures
        r@ == card_effects_doc(),
        r.title@ == "Card Effects"@,
        r.entries@.len() == 4,
{
    let r = DesignerSection {
        title: String::from_str("Card Effects"),
        description: String::from_str("Each card has a list of effects. Each effect has inputs (tokens \
            consumed) and outputs (tokens produced). At least one must be non-empty. \
            Effect variants represent different operational categories."),
        entries: vec![
            ReferenceEntry {
                name: String::from_str("PureProduction"),
                description: String::from_str("No inputs required. Produces beneficial tokens (typically \
                    ProductionUnit). The simplest effect type — all starter deck cards \
                    use this. Higher-tier variants may produce larger amounts but also \
                    produce harmful byproducts."),
            },
            ReferenceEntry {
                name: String::from_str("Conversion"),
                description: String::from_str("Consumes one beneficial token type and produces a different \
                    beneficial token type in a larger amount. The conversion ratio improves \
                    with tier — higher tiers offer better exchange rates."),
            },
            ReferenceEntry {
                name: String::from_str("WasteRemoval"),
                description: String::from_str("Consumes harmful tokens (Heat, CO2, Waste, Pollution) and \
                    produces nothing or a small amount of beneficial output. Removing \
                    harmful tokens is its own reward — these effects have intentionally \
                    lower beneficial output."),
            },
            ReferenceEntry {
                name: String::from_str("Mixed Variants"),
                description: String::from_str("Combinations of the above with varying input/output ratios. \
                    More powerful beneficial output comes with tradeoffs — either consuming \
                    valuable inputs or producing harmful byproducts."),
            },
        ],
    };
    assert(r@ =~~= card_effects_doc());
    r
}

/// The content of `build_contract_requirements`.
pub open spec fn contract_requirements_doc() -> DesignerSectionSpec {
    DesignerSectionSpec {
        title: "Contract Requirements"@,
        description: "Each contract has a list of requirements, all of which must be \
            satisfied simultaneously for the contract to auto-complete. Requirement \
            types are introduced progressively as tiers unlock."@,
        entries: seq![
            ReferenceEntrySpec {
                name: "OutputThreshold"@,
                description: "Produce at least min_amount of a token_type (always \
                    ProductionUnit in current tiers). Mandatory on every contract. The \
                    threshold scales with tier via the output_threshold formula."@,
            },
            ReferenceEntrySpec {
                name: "HarmfulTokenLimit"@,
                description: "Complete the contract without exceeding max_amount of a \
                    specific harmful token type. Forces players to manage waste and \
                    pollution alongside production. Introduced in higher tiers."@,
            },
            ReferenceEntrySpec {
                name: "CardTagRestriction"@,
                description: "Certain card tags are unavailable during this contract. \
                    Forces players to work with a restricted subset of their deck. \
                    Introduced in higher tiers."@,
            },
            ReferenceEntrySpec {
                name: "TurnWindow"@,
                description: "The contract must be completed between min_turn and \
                    max_turn (inclusive). Creates time pressure and rewards efficient \
                    play. Introduced in higher tiers."@,
            },
        ],
    }
}

/// The section "Contract Requirements", with 4 entries.
pub fn build_contract_requirements() -> (r: DesignerSection)
    ensures
        r@ == contract_requirements_doc(),
        r.title@ == "Contract Requirements"@,
        r.entries@.len() == 4,
{
    let r = DesignerSection {
        title: String::from_str("Contract Requirements"),
        description: String::from_str("Each contract has a list of requirements, all of which must be \
            satisfied simultaneously for the contract to auto-complete. Requirement \
            types are introduced progressively as tiers unlock."),
        entries: vec![
            ReferenceEntry {
                name: String::from_str("OutputThreshold"),
                description: String::from_str("Produce at least min_amount of a token_type (always \
                    ProductionUnit in current tiers). Mandatory on every contract. The \
                    threshold scales with tier via the output_threshold formula."),
            },
            ReferenceEntry {
                name: String::from_str("HarmfulTokenLimit"),
                description: String::from_str("Complete the contract without exceeding max_amount of a \
                    specific harmful token type. Forces players to manage waste and \
                    pollution alongside production. Introduced in higher tiers."),
            },
            ReferenceEntry {
                name: String::from_str("CardTagRestriction"),
                description: String::from_str("Certain card tags are unavailable during this contract. \
                    Forces players to work with a restricted subset of their deck. \
                    Introduced in higher tiers."),
            },
            ReferenceEntry {
                name: String::from_str("TurnWindow"),
                description: String::from_str("The contract must be completed between min_turn and \
                    max_turn (inclusive). Creates time pressure and rewards efficient \
                    play. Introduced in higher tiers."),
            },
        ],
    };
    assert(r@ =~~= contract_requirements_doc());
    r
}

/// The content of `build_tier_system`.
pub open spec fn tier_system_doc() -> DesignerSectionSpec {
    DesignerSectionSpec {
        title: "Contract Tier System"@,
        description: "Contracts are organized into tiers of increasing structural \
            complexity. Each tier introduces new requirement types and stronger reward \
            cards. The system uses formula-based generation — one definition per \
            effect/requirement type that scales with tier, not one per tier."@,
        entries: seq![
            ReferenceEntrySpec {
                name: "Tier Structure"@,
                description: "A tier X contract has max(X−1, 1) to X+1 requirements \
                    (minimum 1). Each requirement is of tier X−1 to X+1 difficulty. \
                    Higher tiers mean more requirements with higher thresholds."@,
            },
            ReferenceEntrySpec {
                name: "Tier Progression"@,
                description: "Completing 10 contracts in tier N unlocks tier N+1. \
                    Progress is tracked via ContractsTierCompleted(N) tokens. Tier 1 \
                    is always unlocked."@,
            },
            ReferenceEntrySpec {
                name: "TierScalingFormula"@,
                description: "Each effect/requirement type uses a linear scaling formula: \
                    range = [base_min + tier × per_tier_min, base_max + tier × per_tier_max]. \
                    Concrete values are rolled deterministically within this range. The \
                    formula has a min_tier gate — types only appear at or above their min_tier."@,
            },
            ReferenceEntrySpec {
                name: "Reward Cards"@,
                description: "Each contract generates a reward card at creation time \
                    (visible before accepting). The reward has the same number of effects \
                    as the contract has requirements. Each effect matches the tier of a \
                    corresponding requirement. Concrete values are rolled from tier formulas."@,
            },
            ReferenceEntrySpec {
                name: "Contract Market"@,
                description: "3 contracts are offered per unlocked tier. The market refills \
                    (not regenerates) after each completion — remaining contracts stay. \
                    New contracts are generated using the seeded RNG."@,
            },
        ],
    }
}

/// The section "Contract Tier System", with 5 entries.
pub fn build_tier_system() -> (r: DesignerSection)
    ensures
        r@ == tier_system_doc(),
        r.title@ == "Contract Tier System"@,
        r.entries@.len() == 5,
{
    let r = DesignerSection {
        title: String::from_str("Contract Tier System"),
        description: String::from_str("Contracts are organized into tiers of increasing structural \
            complexity. Each tier introduces new requirement types and stronger reward \
            cards. The system uses formula-based generation — one definition per \
            effect/requirement type that scales with tier, not one per tier."),
        entries: vec![
            ReferenceEntry {
                name: String::from_str("Tier Structure"),
                description: String::from_str("A tier X contract has max(X−1, 1) to X+1 requirements \
                    (minimum 1). Each requirement is of tier X−1 to X+1 difficulty. \
                    Higher tiers mean more requirements with higher thresholds."),
            },
            ReferenceEntry {
                name: String::from_str("Tier Progression"),
                description: String::from_str("Completing 10 contracts in tier N unlocks tier N+1. \
                    Progress is tracked via ContractsTierCompleted(N) tokens. Tier 1 \
                    is always unlocked."),
            },
            ReferenceEntry {
                name: String::from_str("TierScalingFormula"),
                description: String::from_str("Each effect/requirement type uses a linear scaling formula: \
                    range = [base_min + tier × per_tier_min, base_max + tier × per_tier_max]. \
                    Concrete values are rolled deterministically within this range. The \
                    formula has a min_tier gate — types only appear at or above their min_tier."),
            },
            ReferenceEntry {
                name: String::from_str("Reward Cards"),
                description: String::from_str("Each contract generates a reward card at creation time \
                    (visible before accepting). The reward has the same number of effects \
                    as the contract has requirements. Each effect matches the tier of a \
                    corresponding requirement. Concrete values are rolled from tier formulas."),
            },
            ReferenceEntry {
                name: String::from_str("Contract Market"),
                description: String::from_str("3 contracts are offered per unlocked tier. The market refills \
                    (not regenerates) after each completion — remaining contracts stay. \
                    New contracts are generated using the seeded RNG."),
            },
        ],
    };
    assert(r@ =~~= tier_system_doc());
    r
}

/// The content of `build_card_locations`.
pub open spec fn card_locations_doc() -> DesignerSectionSpec {
    DesignerSectionSpec {
        title: "Card Locations"@,
        description: "Cards move between distinct locations during gameplay. The system \
            uses count-based tracking — each card entry has a count per location rather \
            than individual card objects."@,
        entries: seq![
            ReferenceEntrySpec {
                name: "Library"@,
                description: "The total number of copies of this card the player owns. \
                    Grows when reward cards are earned. library >= deck + hand + discard. \
                    The difference (library - active) represents shelved copies — owned but \
                    not in the active deck cycle."@,
            },
            ReferenceEntrySpec {
                name: "Deck"@,
                description: "Copies available to be drawn. Cards are drawn randomly \
                    proportional to deck counts. When deck is empty, discard counts \
                    are moved back to deck."@,
            },
            ReferenceEntrySpec {
                name: "Hand"@,
                description: "Copies currently in the player's hand, available to play \
                    or discard. Hand persists between contracts."@,
            },
            ReferenceEntrySpec {
                name: "Discard"@,
                description: "Copies that have been played or discarded. Recycled back \
                    to deck when the deck runs empty."@,
            },
        ],
    }
}

/// The section "Card Locations", with 4 entries.
pub fn build_card_locations() -> (r: DesignerSection)
    ensures
        r@ == card_locations_doc(),
        r.title@ == "Card Locations"@,
        r.entries@.len() == 4,
{
    let r = DesignerSection {
        title: String::from_str("Card Locations"),
        description: String::from_str("Cards move between distinct locations during gameplay. The system \
            uses count-based tracking — each card entry has a count per location rather \
            than individual card objects."),
        entries: vec![
            ReferenceEntry {
                name: String::from_str("Library"),
                description: String::from_str("The total number of copies of this card the player owns. \
                    Grows when reward cards are earned. library >= deck + hand + discard. \
                    The difference (library - active) represents shelved copies — owned but \
                    not in the active deck cycle."),
            },
            ReferenceEntry {
                name: String::from_str("Deck"),
                description: String::from_str("Copies available to be drawn. Cards are drawn randomly \
                    proportional to deck counts. When deck is empty, discard counts \
                    are moved back to deck."),
            },
            ReferenceEntry {
                name: String::from_str("Hand"),
                description: String::from_str("Copies currently in the player's hand, available to play \
                    or discard. Hand persists between contracts."),
            },
            ReferenceEntry {
                name: String::from_str("Discard"),
                description: String::from_str("Copies that have been played or discarded. Recycled back \
                    to deck when the deck runs empty."),
            },
        ],
    };
    assert(r@ =~~= card_locations_doc());
    r
}

/// The content of `build_deckbuilding`.
pub open spec fn deckbuilding_doc() -> DesignerSectionSpec {
    DesignerSectionSpec {
        title: "Deckbuilding"@,
        description: "Between contracts, players can reshape their active deck using the \
            ReplaceCard action. The deck size is limited by the DeckSlots token. Cards \
            that exceed the limit are shelved in the library."@,
        entries: seq![
            ReferenceEntrySpec {
                name: "DeckSlots"@,
                description: "Limits active deck size (deck + hand + discard). Initialized \
                    to starting_deck_size. Each contract completion has a configurable chance \
                    (deck_slot_reward_chance, default 25%) to award +1 DeckSlots."@,
            },
            ReferenceEntrySpec {
                name: "Shelved Cards"@,
                description: "Cards with library count > (deck + hand + discard) have \
                    shelved copies. These are owned but not in the active cycle. Shelved \
                    cards can be moved into the deck via ReplaceCard."@,
            },
            ReferenceEntrySpec {
                name: "ReplaceCard Action"@,
                description: "The sole deckbuilding action. Swaps a target card (in Deck \
                    or Discard) with a shelved replacement card. Permanently destroys a \
                    third sacrifice card (library count decremented). Only available \
                    between contracts."@,
            },
            ReferenceEntrySpec {
                name: "Reward Card Placement"@,
                description: "When a contract is completed, the reward card enters the \
                    library. If the active cycle is under the DeckSlots limit, it also \
                    enters the deck. Otherwise it is shelved."@,
            },
        ],
    }
}

/// The section "Deckbuilding", with 4 entries.
pub fn build_deckbuilding() -> (r: DesignerSection)
    ensures
        r@ == deckbuilding_doc(),
        r.title@ == "Deckbuilding"@,
        r.entries@.len() == 4,
{
    let r = DesignerSection {
        title: String::from_str("Deckbuilding"),
        description: String::from_str("Between contracts, players can reshape their active deck using the \
            ReplaceCard action. The deck size is limited by the DeckSlots token. Cards \
            that exceed the limit are shelved in the library."),
        entries: vec![
            ReferenceEntry {
                name: String::from_str("DeckSlots"),
                description: String::from_str("Limits active deck size (deck + hand + discard). Initialized \
                    to starting_deck_size. Each contract completion has a configurable chance \
                    (deck_slot_reward_chance, default 25%) to award +1 DeckSlots."),
            },
            ReferenceEntry {
                name: String::from_str("Shelved Cards"),
                description: String::from_str("Cards with library count > (deck + hand + discard) have \
                    shelved copies. These are owned but not in the active cycle. Shelved \
                    cards can be moved into the deck via ReplaceCard."),
            },
            ReferenceEntry {
                name: String::from_str("ReplaceCard Action"),
                description: String::from_str("The sole deckbuilding action. Swaps a target card (in Deck \
                    or Discard) with a shelved replacement card. Permanently destroys a \
                    third sacrifice card (library count decremented). Only available \
                    between contracts."),
            },
            ReferenceEntry {
                name: String::from_str("Reward Card Placement"),
                description: String::from_str("When a contract is completed, the reward card enters the \
                    library. If the active cycle is under the DeckSlots limit, it also \
                    enters the deck. Otherwise it is shelved."),
            },
        ],
    };
    assert(r@ =~~= deckbuilding_doc());
    r
}

/// The content of `build_configuration`.
pub open spec fn configuration_doc() -> DesignerSectionSpec {
    DesignerSectionSpec {
        title: "Game Configuration"@,
        description: "All game constants are externalized to JSON files under \
            configurations/ and embedded at compile time. No runtime file I/O needed."@,
        entries: seq![
            ReferenceEntrySpec {
                name: "configurations/general/game_rules.json"@,
                description: "Contains general rules (starting_hand_size, \
                    starting_deck_size, contracts_per_tier_to_advance, \
                    contract_market_size_per_tier, discard_production_unit_bonus, \
                    deck_slot_reward_chance) \
                    and contract formula parameters (output_threshold, \
                    reward_production scaling formulas)."@,
            },
            ReferenceEntrySpec {
                name: "configurations/card_effects/effect_types.json"@,
                description: "Defines card effect types with per-tier availability. Each \
                    type specifies: name, min_tier, tags, input formulas, and output \
                    formulas. Tier 1 has pure_production only. Higher tiers add \
                    boosted_production and energy_production."@,
            },
            ReferenceEntrySpec {
                name: "TierScalingFormula fields"@,
                description: "Each formula has: min_tier (when it activates), \
                    base_min, base_max (constant component), per_tier_min, \
                    per_tier_max (linear scaling per tier). Value range = \
                    [base_min + tier × per_tier_min, base_max + tier × per_tier_max]."@,
            },
        ],
    }
}

/// The section "Game Configuration", with 3 entries.
pub fn build_configuration() -> (r: DesignerSection)
    ensures
        r@ == configuration_doc(),
        r.title@ == "Game Configuration"@,
        r.entries@.len() == 3,
{
    let r = DesignerSection {
        title: String::from_str("Game Configuration"),
        description: String::from_str("All game constants are externalized to JSON files under \
            configurations/ and embedded at compile time. No runtime file I/O needed."),
        entries: vec![
            ReferenceEntry {
                name: String::from_str("configurations/general/game_rules.json"),
                description: String::from_str("Contains general rules (starting_hand_size, \
                    starting_deck_size, contracts_per_tier_to_advance, \
                    contract_market_size_per_tier, discard_production_unit_bonus, \
                    deck_slot_reward_chance) \
                    and contract formula parameters (output_threshold, \
                    reward_production scaling formulas)."),
            },
            ReferenceEntry {
                name: String::from_str("configurations/card_effects/effect_types.json"),
                description: String::from_str("Defines card effect types with per-tier availability. Each \
                    type specifies: name, min_tier, tags, input formulas, and output \
                    formulas. Tier 1 has pure_production only. Higher tiers add \
                    boosted_production and energy_production."),
            },
            ReferenceEntry {
                name: String::from_str("TierScalingFormula fields"),
                description: String::from_str("Each formula has: min_tier (when it activates), \
                    base_min, base_max (constant component), per_tier_min, \
                    per_tier_max (linear scaling per tier). Value range = \
                    [base_min + tier × per_tier_min, base_max + tier × per_tier_max]."),
            },
        ],
    };
    assert(r@ =~~= configuration_doc());
    r
}

/// The content of `build_determinism`.
pub open spec fn determinism_doc() -> DesignerSectionSpec {
    DesignerSectionSpec {
        title: "Determinism & Reproducibility"@,
        description: "Given the same game version, same seed, and same ordered \
            list of player actions, the game deterministically produces the exact \
            same state. This is the foundation for save/load and testing."@,
        entries: seq![
            ReferenceEntrySpec {
                name: "Seeded RNG"@,
                description: "The game uses rand_pcg::Pcg64 initialized with the \
                    game seed. All random decisions (card draws, contract generation) \
                    flow through this single RNG."@,
            },
            ReferenceEntrySpec {
                name: "Action Log as Save File"@,
                description: "GET /actions/history returns every player action taken. \
                    Replaying these actions on a fresh game with the same seed reproduces \
                    the exact same state. No separate save file format needed."@,
            },
        ],
    }
}

/// The section "Determinism & Reproducibility", with 2 entries.
pub fn build_determinism() -> (r: DesignerSection)
    ensures
        r@ == determinism_doc(),
        r.title@ == "Determinism & Reproducibility"@,
        r.entries@.len() == 2,
{
    let r = DesignerSection {
        title: String::from_str("Determinism & Reproducibility"),
        description: String::from_str("Given the same game version, same seed, and same ordered \
            list of player actions, the game deterministically produces the exact \
            same state. This is the foundation for save/load and testing."),
        entries: vec![
            ReferenceEntry {
                name: String::from_str("Seeded RNG"),
                description: String::from_str("The game uses rand_pcg::Pcg64 initialized with the \
                    game seed. All random decisions (card draws, contract generation) \
                    flow through this single RNG."),
            },
            ReferenceEntry {
                name: String::from_str("Action Log as Save File"),
                description: String::from_str("GET /actions/history returns every player action taken. \
                    Replaying these actions on a fresh game with the same seed reproduces \
                    the exact same state. No separate save file format needed."),
            },
        ],
    };
    assert(r@ =~~= determinism_doc());
    r
}

} // verus!
