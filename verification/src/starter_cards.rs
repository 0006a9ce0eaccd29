//! Starter deck generation.
//!
//! The starting deck rolls each card's production amount from the primary
//! formula of the first ProductionUnit producer, at tier 0, with the game's
//! seeded generator.

use vstd::prelude::*;

use crate::config::{effect_types_view, CardEffectTypeConfig, EffectTypeSpec, TierScalingFormula};
use crate::formulas::{formula_fits, roll_from_formula, spec_roll_from_formula};
use crate::rng::{GameRng, RngModel};
use crate::types::{
    add_card_to_entries, entries_view, spec_add_card, CardCounts, CardEffect, CardEntry,
    CardLocation, CardSpec, CardTag, EffectSpec, EntrySpec, MainEffectDirection,
    PlayerActionCard, TokenAmount, TokenType,
};

verus! {

/// A pure ProductionUnit card.
pub open spec fn spec_production_card(amount: u32) -> CardSpec {
    CardSpec {
        tags: seq![CardTag::Production],
        effects: seq![
            EffectSpec {
                inputs: Seq::empty(),
                outputs: seq![TokenAmount { token_type: TokenType::ProductionUnit, amount }],
            },
        ],
    }
}

/// A pure ProductionUnit card producing `output_amount`.
pub fn production_card(output_amount: u32) -> (r: PlayerActionCard)
    ensures
        r@ == spec_production_card(output_amount),
{
    let mut tags: Vec<CardTag> = Vec::new();
    tags.push(CardTag::Production);
    let mut outputs: Vec<TokenAmount> = Vec::new();
    outputs.push(TokenAmount { token_type: TokenType::ProductionUnit, amount: output_amount });
    let mut effects: Vec<CardEffect> = Vec::new();
    effects.push(CardEffect { inputs: Vec::new(), outputs });
    let r = PlayerActionCard { tags, effects };
    proof {
        assert(r@.effects[0].inputs =~= Seq::<TokenAmount>::empty());
        assert(r@.effects[0].outputs =~= spec_production_card(output_amount).effects[0].outputs);
        assert(r@.effects =~= spec_production_card(output_amount).effects);
        assert(r@.tags =~= spec_production_card(output_amount).tags);
    }
    r
}

/// Whether an effect type is a ProductionUnit producer.
pub open spec fn is_pu_producer(et: EffectTypeSpec) -> bool {
    et.primary_token == TokenType::ProductionUnit && et.main_direction
        == MainEffectDirection::Producer
}

/// The index of the first ProductionUnit producer at or after `i`, if any.
pub open spec fn pu_producer_from(types: Seq<EffectTypeSpec>, i: int) -> Option<int>
    decreases types.len() - i,
{
    if i < 0 || i >= types.len() {
        None
    } else if is_pu_producer(types[i]) {
        Some(i)
    } else {
        pu_producer_from(types, i + 1)
    }
}

/// The index of the first ProductionUnit producer, if any.
pub open spec fn first_pu_producer(types: Seq<EffectTypeSpec>) -> Option<int> {
    pu_producer_from(types, 0)
}

proof fn lemma_pu_producer_from(types: Seq<EffectTypeSpec>, i: int)
    requires
        0 <= i <= types.len(),
    ensures
        pu_producer_from(types, i) matches Some(k) ==> i <= k < types.len() && is_pu_producer(
            types[k],
        ) && forall|j: int| i <= j < k ==> !is_pu_producer(types[j]),
        pu_producer_from(types, i) is None ==> forall|j: int|
            i <= j < types.len() ==> !is_pu_producer(types[j]),
    decreases types.len() - i,
{
    if i < types.len() {
        lemma_pu_producer_from(types, i + 1);
    }
}

fn find_pu_formula(effect_types: &Vec<CardEffectTypeConfig>) -> (r: TierScalingFormula)
    requires
        first_pu_producer(effect_types_view(effect_types@)) is Some,
    ensures
        r == effect_types_view(effect_types@)[first_pu_producer(
            effect_types_view(effect_types@),
        )->Some_0].primary_formula,
{
    let ghost tv = effect_types_view(effect_types@);
    let mut i: usize = 0;
    while i < effect_types.len()
        invariant
            i <= effect_types@.len(),
            tv == effect_types_view(effect_types@),
            first_pu_producer(tv) is Some,
            forall|j: int| 0 <= j < i ==> !is_pu_producer(tv[j]),
        decreases effect_types.len() - i,
    {
        let et = &effect_types[i];
        proof {
            assert(tv[i as int] == et@);
        }
        if et.primary_token == TokenType::ProductionUnit && et.main_direction
            == MainEffectDirection::Producer {
            proof {
                lemma_pu_producer_from(tv, 0);
                let k = first_pu_producer(tv)->Some_0;
                if k > i {
                    assert(is_pu_producer(tv[i as int]));
                }
            }
            return et.primary_formula;
        }
        i = i + 1;
    }
    proof {
        lemma_pu_producer_from(tv, 0);
    }
    effect_types[0].primary_formula
}

/// The first `n` starter cards rolled from `formula`, grouped by equal card.
pub open spec fn spec_starter_entries(n: nat, formula: TierScalingFormula, rng: RngModel) -> (Seq<
    EntrySpec,
>, RngModel)
    decreases n,
{
    if n == 0 {
        (Seq::empty(), rng)
    } else {
        let (prev, r1) = spec_starter_entries((n - 1) as nat, formula, rng);
        let (amount, r2) = spec_roll_from_formula(0, formula, r1);
        (spec_add_card(prev, spec_production_card(amount), CardLocation::Deck), r2)
    }
}

/// Every entry holds deck copies only, at most `n` of them.
pub open spec fn deck_only_upto(entries: Seq<EntrySpec>, n: int) -> bool {
    forall|i: int|
        0 <= i < entries.len() ==> (#[trigger] entries[i]).counts.shelved == 0
            && entries[i].counts.hand == 0 && entries[i].counts.discard == 0
            && entries[i].counts.deck <= n
}

proof fn lemma_add_deck_only(before: Seq<EntrySpec>, card: CardSpec, n: int)
    requires
        deck_only_upto(before, n),
        n >= 0,
    ensures
        deck_only_upto(spec_add_card(before, card, CardLocation::Deck), n + 1),
{
    let after = spec_add_card(before, card, CardLocation::Deck);
    match crate::types::first_index_of_card(before, card) {
        Some(k) => {
            crate::types::lemma_index_of_card_from(before, card, 0);
            assert(before[k].counts.deck <= n);
            assert forall|i: int| 0 <= i < after.len() implies (#[trigger] after[i]).counts.shelved
                == 0 && after[i].counts.hand == 0 && after[i].counts.discard == 0
                && after[i].counts.deck <= n + 1 by {
                assert(before[i].counts.deck <= n);
            }
        },
        None => {
            assert forall|i: int| 0 <= i < after.len() implies (#[trigger] after[i]).counts.shelved
                == 0 && after[i].counts.hand == 0 && after[i].counts.discard == 0
                && after[i].counts.deck <= n + 1 by {
                if i < before.len() {
                    assert(before[i].counts.deck <= n);
                }
            }
        },
    }
}

/// Build the starter deck by rolling `count` cards from the tier-0 formula
/// of the first ProductionUnit producer. Duplicate cards (same production
/// amount) are grouped into a single `CardEntry`; all copies start in the deck.
pub fn create_starter_deck(
    count: u32,
    rng: &mut GameRng,
    effect_types: &Vec<CardEffectTypeConfig>,
) -> (r: Vec<CardEntry>)
    requires
        first_pu_producer(effect_types_view(effect_types@)) is Some,
        formula_fits(
            effect_types_view(effect_types@)[first_pu_producer(
                effect_types_view(effect_types@),
            )->Some_0].primary_formula,
            0,
        ),
    ensures
        ({
            let formula = effect_types_view(effect_types@)[first_pu_producer(
                effect_types_view(effect_types@),
            )->Some_0].primary_formula;
            (entries_view(r@), final(rng)@) == spec_starter_entries(count as nat, formula, old(rng)@)
        }),
        deck_only_upto(entries_view(r@), count as int),
{
    let output_formula = find_pu_formula(effect_types);
    let ghost start = rng@;
    let mut entries: Vec<CardEntry> = Vec::new();
    let mut n: u32 = 0;
    while n < count
        invariant
            n <= count,
            formula_fits(output_formula, 0),
            (entries_view(entries@), rng@) == spec_starter_entries(n as nat, output_formula, start),
            deck_only_upto(entries_view(entries@), n as int),
        decreases count - n,
    {
        let amount = roll_from_formula(0, &output_formula, rng);
        let card = production_card(amount);
        let ghost before = entries_view(entries@);
        add_card_to_entries(&mut entries, &card, CardLocation::Deck);
        proof {
            lemma_add_deck_only(before, card@, n as int);
        }
        n = n + 1;
    }
    entries
}

} // verus!
