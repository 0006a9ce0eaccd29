//! The game's rules as mathematics: the model of a game state and what each
//! player action does to it.
//!
//! Every function here is a plain specification; `GameState` in
//! `game_state` is proved to follow them step for step. Together with the
//! generator model in `rng`, they make a game a function of its seed and
//! its actions.

use vstd::prelude::*;

use crate::action_log::{ActionEntry, PlayerAction};
use crate::balances::{amount_of, keys_sorted, seq_to_map, tag_count_of};
use crate::config::{EffectTypeSpec, GameRulesConfig};
use crate::contract_generation::{draft_fits, spec_draft_contract, ContractDraftSpec};
use crate::metrics::{
    card_discarded_fits, card_played_fits, contract_abandoned_fits, contract_completed_fits,
    contract_failed_fits, flow_added, flow_fits, spec_card_discarded, spec_card_played,
    spec_card_replaced, spec_contract_abandoned, spec_contract_accepted, spec_contract_completed,
    spec_contract_failed, spec_metrics_new, tags_counted, tags_fit, tier_bump_fits, MetricsModel,
};
use crate::rng::{pcg64_next_u32, pcg64_next_u64, RngModel, RngOrigin};
use crate::starter_cards::{first_pu_producer, spec_starter_entries};
use crate::formulas::formula_fits;
use crate::tier_stats::TierCounter;
use crate::types::{
    spec_add_card, CardCounts, CardLocation, CardSpec, CardTag, ContractFailureReason,
    ContractRequirementKind, ContractSpec, EffectSpec, EntrySpec, ResolutionSpec, TierContractsSpec,
    TokenAmount, TokenType,
};

verus! {

/// The stream of the game's `Pcg64`.
pub open spec fn rng_stream() -> u128 {
    0xa02b_dbf7_bb3c_0a7a_c28f_5c28_f5c2_8f5cu128
}

/// The state of the generator that picks a seed when none is given.
pub open spec fn fallback_state() -> u128 {
    0xcafe_f00d_d15e_a5e5u128
}

/// The configuration a game runs with.
pub struct ConfigSpec {
    pub rules: GameRulesConfig,
    pub types: Seq<EffectTypeSpec>,
    pub ratio_is_rolled: bool,
}

/// The mathematical value of a game.
pub struct GameModel {
    pub cards: Seq<EntrySpec>,
    pub tokens: Map<TokenType, u32>,
    pub active: Option<ContractSpec>,
    pub offered: Seq<TierContractsSpec>,
    pub turns: u32,
    pub tag_counts: Map<CardTag, u32>,
    pub rng: RngModel,
    pub seed: u64,
    pub config: ConfigSpec,
    pub log: Seq<ActionEntry>,
    pub metrics: MetricsModel,
    /// Contracts drafted for the market and not yet placed in it.
    pub pending: Seq<ContractDraftSpec>,
}

// ---------------------------------------------------------------------------
// Results
// ---------------------------------------------------------------------------

pub enum ActionSuccessSpec {
    NewGameStarted { seed: u64 },
    ContractAccepted,
    CardPlayed { contract_resolution: Option<ResolutionSpec> },
    CardDiscarded { contract_resolution: Option<ResolutionSpec> },
    CardReplaced,
    ContractAbandoned { contract_resolution: ResolutionSpec },
}

pub enum ActionErrorSpec {
    ContractAlreadyActive,
    InvalidTierIndex { tier_index: usize },
    InvalidContractIndex { tier_index: usize, contract_index: usize },
    NoActiveContract,
    InvalidCardIndex { index: usize },
    InsufficientTokens { missing: Seq<TokenAmount> },
    ContractActiveForDeckbuilding,
    InvalidTargetCardIndex { index: usize },
    NoTargetCopies { index: usize },
    InvalidReplacementCardIndex { index: usize },
    NoShelvedCopies { index: usize },
    InvalidSacrificeCardIndex { index: usize },
    NoSacrificeCopies { index: usize },
    SacrificeIsTarget { index: usize },
    CardTagBanned { tag: CardTag },
    AbandonContractNotAllowed { turns_played: u32, turns_required: u32 },
    NoContractToAbandon,
}

pub enum ActionResultSpec {
    Success(ActionSuccessSpec),
    Error(ActionErrorSpec),
}

// ---------------------------------------------------------------------------
// Cards: sums, recycling, drawing
// ---------------------------------------------------------------------------

pub open spec fn deck_sum(cards: Seq<EntrySpec>, n: int) -> int
    decreases n,
{
    if n <= 0 {
        0
    } else {
        deck_sum(cards, n - 1) + cards[n - 1].counts.deck
    }
}

pub open spec fn discard_sum(cards: Seq<EntrySpec>, n: int) -> int
    decreases n,
{
    if n <= 0 {
        0
    } else {
        discard_sum(cards, n - 1) + cards[n - 1].counts.discard
    }
}

/// All copies of all cards, wherever they are.
pub open spec fn cards_total(cards: Seq<EntrySpec>, n: int) -> int
    decreases n,
{
    if n <= 0 {
        0
    } else {
        cards_total(cards, n - 1) + cards[n - 1].counts.spec_total()
    }
}

pub open spec fn total_copies(cards: Seq<EntrySpec>) -> int {
    cards_total(cards, cards.len() as int)
}

pub open spec fn with_counts(e: EntrySpec, counts: CardCounts) -> EntrySpec {
    EntrySpec { card: e.card, counts }
}

/// Every discard copy shuffled back into the deck.
pub open spec fn recycled(cards: Seq<EntrySpec>) -> Seq<EntrySpec> {
    cards.map_values(
        |e: EntrySpec|
            with_counts(
                e,
                CardCounts {
                    deck: (e.counts.deck + e.counts.discard) as u32,
                    discard: 0,
                    ..e.counts
                },
            ),
    )
}

/// The first entry whose cumulative deck count exceeds `roll`.
pub open spec fn draw_pick(cards: Seq<EntrySpec>, roll: int, i: int) -> int
    decreases cards.len() - i,
{
    if i < 0 || i >= cards.len() {
        cards.len() as int
    } else if roll < deck_sum(cards, i + 1) {
        i
    } else {
        draw_pick(cards, roll, i + 1)
    }
}

/// One copy of entry `i` moved from the deck to the hand.
pub open spec fn moved_to_hand(cards: Seq<EntrySpec>, i: int) -> Seq<EntrySpec> {
    if 0 <= i < cards.len() {
        cards.update(
            i,
            with_counts(
                cards[i],
                CardCounts {
                    deck: (cards[i].counts.deck - 1) as u32,
                    hand: (cards[i].counts.hand + 1) as u32,
                    ..cards[i].counts
                },
            ),
        )
    } else {
        cards
    }
}

/// One copy of entry `i` moved from the hand to the discard pile.
pub open spec fn moved_to_discard(cards: Seq<EntrySpec>, i: int) -> Seq<EntrySpec> {
    cards.update(
        i,
        with_counts(
            cards[i],
            CardCounts {
                hand: (cards[i].counts.hand - 1) as u32,
                discard: (cards[i].counts.discard + 1) as u32,
                ..cards[i].counts
            },
        ),
    )
}

/// A random draw among `total` deck copies, weighted by copies.
pub open spec fn spec_draw_random(cards: Seq<EntrySpec>, total: int, rng: RngModel) -> (
    Seq<EntrySpec>,
    RngModel,
) {
    let roll = (pcg64_next_u32(rng) as int) % total;
    (moved_to_hand(cards, draw_pick(cards, roll, 0)), rng.advanced())
}

/// Draw one card from deck to hand; when the deck is empty the discard pile
/// is recycled first; with both empty nothing is drawn.
pub open spec fn spec_draw_from_deck(cards: Seq<EntrySpec>, rng: RngModel) -> (
    Seq<EntrySpec>,
    RngModel,
) {
    let dt = deck_sum(cards, cards.len() as int);
    if dt == 0 {
        let ds = discard_sum(cards, cards.len() as int);
        if ds == 0 {
            (recycled(cards), rng)
        } else {
            spec_draw_random(recycled(cards), ds, rng)
        }
    } else {
        spec_draw_random(cards, dt, rng)
    }
}

/// `n` draws in a row.
pub open spec fn spec_draw_n(cards: Seq<EntrySpec>, n: nat, rng: RngModel) -> (
    Seq<EntrySpec>,
    RngModel,
)
    decreases n,
{
    if n == 0 {
        (cards, rng)
    } else {
        let (c1, r1) = spec_draw_n(cards, (n - 1) as nat, rng);
        spec_draw_from_deck(c1, r1)
    }
}

// ---------------------------------------------------------------------------
// Tokens
// ---------------------------------------------------------------------------

pub open spec fn sat_sub(a: u32, b: u32) -> u32 {
    if a >= b {
        (a - b) as u32
    } else {
        0
    }
}

pub open spec fn pairs_of(s: Seq<TokenAmount>) -> Seq<(TokenType, u32)> {
    s.map_values(|ta: TokenAmount| (ta.token_type, ta.amount))
}

/// `m` with each amount of `s` taken away in order, stopping at zero.
pub open spec fn removed_all(m: Map<TokenType, u32>, s: Seq<TokenAmount>) -> Map<TokenType, u32>
    decreases s.len(),
{
    if s.len() == 0 {
        m
    } else {
        let prev = removed_all(m, s.drop_last());
        let ta = s.last();
        prev.insert(ta.token_type, sat_sub(amount_of(prev, ta.token_type), ta.amount))
    }
}

/// The balances after each effect in turn pays its inputs and adds its outputs.
pub open spec fn effects_applied(m: Map<TokenType, u32>, effects: Seq<EffectSpec>) -> Map<
    TokenType,
    u32,
>
    decreases effects.len(),
{
    if effects.len() == 0 {
        m
    } else {
        let prev = effects_applied(m, effects.drop_last());
        let e = effects.last();
        flow_added(removed_all(prev, e.inputs), pairs_of(e.outputs))
    }
}

pub open spec fn effects_fit(m: Map<TokenType, u32>, effects: Seq<EffectSpec>) -> bool {
    forall|k: int|
        0 <= k < effects.len() ==> flow_fits(
            removed_all(effects_applied(m, effects.take(k)), #[trigger] effects[k].inputs),
            pairs_of(effects[k].outputs),
        )
}

/// Every input of the effects, in order, as pairs.
pub open spec fn all_input_pairs(effects: Seq<EffectSpec>) -> Seq<(TokenType, u32)>
    decreases effects.len(),
{
    if effects.len() == 0 {
        Seq::empty()
    } else {
        all_input_pairs(effects.drop_last()) + pairs_of(effects.last().inputs)
    }
}

/// Every output of the effects, in order, as pairs.
pub open spec fn all_output_pairs(effects: Seq<EffectSpec>) -> Seq<(TokenType, u32)>
    decreases effects.len(),
{
    if effects.len() == 0 {
        Seq::empty()
    } else {
        all_output_pairs(effects.drop_last()) + pairs_of(effects.last().outputs)
    }
}

/// The sorted association list of a map.
pub open spec fn sorted_listing(m: Map<TokenType, u32>) -> Seq<TokenAmount> {
    choose|s: Seq<TokenAmount>| keys_sorted(s) && seq_to_map(s) == m
}

/// What the player lacks to pay `required`: for each token held short, the shortfall.
pub open spec fn shortfall(required: Map<TokenType, u32>, tokens: Map<TokenType, u32>) -> Map<
    TokenType,
    u32,
> {
    Map::new(
        |t: TokenType| amount_of(tokens, t) < amount_of(required, t),
        |t: TokenType| (amount_of(required, t) - amount_of(tokens, t)) as u32,
    )
}

/// The tokens missing to pay all inputs of `effects`, in token order.
pub open spec fn spec_missing(effects: Seq<EffectSpec>, tokens: Map<TokenType, u32>) -> Seq<
    TokenAmount,
> {
    sorted_listing(shortfall(flow_added(Map::empty(), all_input_pairs(effects)), tokens))
}

// ---------------------------------------------------------------------------
// Contract requirements
// ---------------------------------------------------------------------------

/// A requirement's lower bound added to the summed lower bounds.
pub open spec fn threshold_step(prev: Map<TokenType, u32>, req: ContractRequirementKind) -> Map<
    TokenType,
    u32,
> {
    match req {
        ContractRequirementKind::TokenRequirement { token_type, min: Some(a), .. } => prev.insert(
            token_type,
            (amount_of(prev, token_type) + a) as u32,
        ),
        _ => prev,
    }
}

/// Summed lower bounds per token.
pub open spec fn thresholds_of(reqs: Seq<ContractRequirementKind>) -> Map<TokenType, u32>
    decreases reqs.len(),
{
    if reqs.len() == 0 {
        Map::empty()
    } else {
        threshold_step(thresholds_of(reqs.drop_last()), reqs.last())
    }
}

pub open spec fn thresholds_fit(reqs: Seq<ContractRequirementKind>) -> bool {
    forall|k: int|
        0 <= k < reqs.len() ==> match #[trigger] reqs[k] {
            ContractRequirementKind::TokenRequirement { token_type, min: Some(a), .. } => amount_of(
                thresholds_of(reqs.take(k)),
                token_type,
            ) + a <= u32::MAX,
            _ => true,
        }
}

pub open spec fn limit_or_max(m: Map<TokenType, u32>, t: TokenType) -> u32 {
    if m.contains_key(t) {
        m[t]
    } else {
        u32::MAX
    }
}

/// A requirement's upper bound tightening the limits.
pub open spec fn limit_step(prev: Map<TokenType, u32>, req: ContractRequirementKind) -> Map<
    TokenType,
    u32,
> {
    match req {
        ContractRequirementKind::TokenRequirement { token_type, max: Some(b), .. } => prev.insert(
            token_type,
            if limit_or_max(prev, token_type) <= b {
                limit_or_max(prev, token_type)
            } else {
                b
            },
        ),
        _ => prev,
    }
}

/// Tightest upper bound per token.
pub open spec fn limits_of(reqs: Seq<ContractRequirementKind>) -> Map<TokenType, u32>
    decreases reqs.len(),
{
    if reqs.len() == 0 {
        Map::empty()
    } else {
        limit_step(limits_of(reqs.drop_last()), reqs.last())
    }
}

/// The first limit, scanning `s` from `i`, that the balances exceed.
pub open spec fn harmful_violation_from(s: Seq<TokenAmount>, tokens: Map<TokenType, u32>, i: int) -> Option<
    ContractFailureReason,
>
    decreases s.len() - i,
{
    if i < 0 || i >= s.len() {
        None
    } else if amount_of(tokens, s[i].token_type) > s[i].amount {
        Some(
            ContractFailureReason::HarmfulTokenLimitExceeded {
                token_type: s[i].token_type,
                max_amount: s[i].amount,
                current_amount: amount_of(tokens, s[i].token_type),
            },
        )
    } else {
        harmful_violation_from(s, tokens, i + 1)
    }
}

/// The first turn window, scanning from `i`, whose last turn has passed.
pub open spec fn turn_violation_from(reqs: Seq<ContractRequirementKind>, turns: u32, i: int) -> Option<
    ContractFailureReason,
>
    decreases reqs.len() - i,
{
    if i < 0 || i >= reqs.len() {
        None
    } else {
        match reqs[i] {
            ContractRequirementKind::TurnWindow { max_turn: Some(max), .. } => if turns > max {
                Some(ContractFailureReason::TurnWindowExceeded { max_turn: max, current_turn: turns })
            } else {
                turn_violation_from(reqs, turns, i + 1)
            },
            _ => turn_violation_from(reqs, turns, i + 1),
        }
    }
}

/// Why the contract fails now, if it does: harmful limits first (in token
/// order), then turn windows (in requirement order).
pub open spec fn spec_failure(c: ContractSpec, tokens: Map<TokenType, u32>, turns: u32) -> Option<
    ContractFailureReason,
> {
    match harmful_violation_from(sorted_listing(limits_of(c.requirements)), tokens, 0) {
        Some(r) => Some(r),
        None => turn_violation_from(c.requirements, turns, 0),
    }
}

/// Every summed lower bound is reached.
pub open spec fn thresholds_met(tokens: Map<TokenType, u32>, th: Map<TokenType, u32>) -> bool {
    forall|t: TokenType| #[trigger] th.contains_key(t) ==> amount_of(tokens, t) >= th[t]
}

/// No tightest upper bound is exceeded.
pub open spec fn limits_met(tokens: Map<TokenType, u32>, lim: Map<TokenType, u32>) -> bool {
    forall|t: TokenType| #[trigger] lim.contains_key(t) ==> amount_of(tokens, t) <= lim[t]
}

/// Every minimum turn count and minimum tag count is reached.
pub open spec fn minimums_met(reqs: Seq<ContractRequirementKind>, turns: u32, tags: Map<CardTag, u32>) -> bool {
    forall|i: int|
        0 <= i < reqs.len() ==> match #[trigger] reqs[i] {
            ContractRequirementKind::TurnWindow { min_turn: Some(m), .. } => turns >= m,
            ContractRequirementKind::CardTagConstraint { tag, min: Some(m), .. } => tag_count_of(
                tags,
                tag,
            ) >= m,
            _ => true,
        }
}

/// Every requirement of the contract holds.
pub open spec fn spec_all_met(
    c: ContractSpec,
    tokens: Map<TokenType, u32>,
    turns: u32,
    tags: Map<CardTag, u32>,
) -> bool {
    &&& thresholds_met(tokens, thresholds_of(c.requirements))
    &&& limits_met(tokens, limits_of(c.requirements))
    &&& minimums_met(c.requirements, turns, tags)
}

/// A card tag that an active constraint caps and that has reached its cap.
pub open spec fn tag_capped(reqs: Seq<ContractRequirementKind>, tags: Map<CardTag, u32>, tag: CardTag) -> bool {
    exists|j: int|
        0 <= j < reqs.len() && match #[trigger] reqs[j] {
            ContractRequirementKind::CardTagConstraint { tag: t, max: Some(limit), .. } => t == tag
                && tag_count_of(tags, tag) >= limit,
            _ => false,
        }
}

/// The first of `card_tags`, from `i`, that is capped.
pub open spec fn banned_tag_from(
    card_tags: Seq<CardTag>,
    reqs: Seq<ContractRequirementKind>,
    tags: Map<CardTag, u32>,
    i: int,
) -> Option<CardTag>
    decreases card_tags.len() - i,
{
    if i < 0 || i >= card_tags.len() {
        None
    } else if tag_capped(reqs, tags, card_tags[i]) {
        Some(card_tags[i])
    } else {
        banned_tag_from(card_tags, reqs, tags, i + 1)
    }
}

// ---------------------------------------------------------------------------
// Market refill
// ---------------------------------------------------------------------------

pub open spec fn completed_in(tokens: Map<TokenType, u32>, tier: u32) -> u32 {
    amount_of(tokens, TokenType::ContractsTierCompleted(tier))
}

/// Tiers `0..=k` are unlocked: every tier below `k` is completed enough
/// times and tier `k` is not.
pub open spec fn is_top_tier(tokens: Map<TokenType, u32>, threshold: u32, k: u32) -> bool {
    &&& forall|t: u32| t < k ==> completed_in(tokens, t) >= threshold
    &&& completed_in(tokens, k) < threshold
}

/// The highest unlocked tier.
pub open spec fn top_tier(tokens: Map<TokenType, u32>, threshold: u32) -> u32 {
    choose|k: u32| is_top_tier(tokens, threshold, k)
}

/// The number of offers of `tier` already in the market (in its first group).
pub open spec fn offered_in(offered: Seq<TierContractsSpec>, tier: u32, i: int) -> int
    decreases offered.len() - i,
{
    if i < 0 || i >= offered.len() {
        0
    } else if offered[i].tier == tier {
        offered[i].contracts.len() as int
    } else {
        offered_in(offered, tier, i + 1)
    }
}

pub open spec fn needed_in(offered: Seq<TierContractsSpec>, tier: u32, target: u32) -> nat {
    if offered_in(offered, tier, 0) >= target {
        0
    } else {
        (target - offered_in(offered, tier, 0)) as nat
    }
}

/// `n` contracts drafted at `tier` one after another.
pub open spec fn spec_draft_n(tier: u32, n: nat, config: ConfigSpec, rng: RngModel) -> (
    Seq<ContractDraftSpec>,
    RngModel,
)
    decreases n,
{
    if n == 0 {
        (Seq::empty(), rng)
    } else {
        let (prev, r1) = spec_draft_n(tier, (n - 1) as nat, config, rng);
        let (d, r2) = spec_draft_contract(
            tier,
            config.rules.contract_formulas,
            config.types,
            config.ratio_is_rolled,
            r1,
        );
        (prev.push(d), r2)
    }
}

/// The drafts that fill the market for tiers `0..n`.
pub open spec fn spec_refill_upto(
    offered: Seq<TierContractsSpec>,
    config: ConfigSpec,
    rng: RngModel,
    n: nat,
) -> (Seq<ContractDraftSpec>, RngModel)
    decreases n,
{
    if n == 0 {
        (Seq::empty(), rng)
    } else {
        let (prev, r1) = spec_refill_upto(offered, config, rng, (n - 1) as nat);
        let tier = (n - 1) as u32;
        let (d, r2) = spec_draft_n(
            tier,
            needed_in(offered, tier, config.rules.general.contract_market_size_per_tier),
            config,
            r1,
        );
        (prev + d, r2)
    }
}

/// Drafts for every unlocked tier whose market is short of the target size.
pub open spec fn spec_refill(
    offered: Seq<TierContractsSpec>,
    tokens: Map<TokenType, u32>,
    config: ConfigSpec,
    rng: RngModel,
) -> (Seq<ContractDraftSpec>, RngModel) {
    spec_refill_upto(
        offered,
        config,
        rng,
        (top_tier(tokens, config.rules.general.contracts_per_tier_to_advance) + 1) as nat,
    )
}

/// Refilling can run: the unlocked tiers end, and drafting fits at each.
pub open spec fn refill_fits(config: ConfigSpec, tokens: Map<TokenType, u32>) -> bool {
    let th = config.rules.general.contracts_per_tier_to_advance;
    &&& exists|k: u32| is_top_tier(tokens, th, k)
    &&& forall|t: u32|
        t <= top_tier(tokens, th) ==> draft_fits(config.rules.contract_formulas, config.types, t)
}

/// The market model after the model's refill.
pub open spec fn refilled(m: GameModel) -> GameModel {
    let (drafts, r) = spec_refill(m.offered, m.tokens, m.config, m.rng);
    GameModel { pending: m.pending + drafts, rng: r, ..m }
}

/// A contract placed into the market: appended to its tier's group, or
/// opening a new group.
pub open spec fn first_group(offered: Seq<TierContractsSpec>, tier: u32, i: int) -> Option<int>
    decreases offered.len() - i,
{
    if i < 0 || i >= offered.len() {
        None
    } else if offered[i].tier == tier {
        Some(i)
    } else {
        first_group(offered, tier, i + 1)
    }
}

pub open spec fn placed(offered: Seq<TierContractsSpec>, c: ContractSpec) -> Seq<TierContractsSpec> {
    match first_group(offered, c.tier, 0) {
        Some(i) => offered.update(
            i,
            TierContractsSpec { tier: offered[i].tier, contracts: offered[i].contracts.push(c) },
        ),
        None => offered.push(TierContractsSpec { tier: c.tier, contracts: seq![c] }),
    }
}

pub open spec fn placed_all(offered: Seq<TierContractsSpec>, cs: Seq<ContractSpec>) -> Seq<
    TierContractsSpec,
>
    decreases cs.len(),
{
    if cs.len() == 0 {
        offered
    } else {
        placed(placed_all(offered, cs.drop_last()), cs.last())
    }
}

// ---------------------------------------------------------------------------
// Resolution
// ---------------------------------------------------------------------------

/// Contract state cleared after a resolution.
pub open spec fn cleared(m: GameModel) -> GameModel {
    GameModel { active: None, turns: 0, tag_counts: Map::empty(), ..m }
}

/// The tokens after completing `c`: thresholds paid, one more completion of its tier.
pub open spec fn tokens_after_completion(tokens: Map<TokenType, u32>, c: ContractSpec) -> Map<
    TokenType,
    u32,
> {
    let paid = removed_all(tokens, sorted_listing(thresholds_of(c.requirements)));
    let key = TokenType::ContractsTierCompleted(c.tier);
    paid.insert(key, (amount_of(paid, key) + 1) as u32)
}

/// Failure is checked first, then completion.
pub open spec fn spec_try_resolve(m: GameModel) -> (GameModel, Option<ResolutionSpec>) {
    match m.active {
        None => (m, None),
        Some(c) => match spec_failure(c, m.tokens, m.turns) {
            Some(reason) => (
                refilled(
                    cleared(GameModel { metrics: spec_contract_failed(m.metrics, c.tier), ..m }),
                ),
                Some(ResolutionSpec::Failed { contract: c, reason }),
            ),
            None => if spec_all_met(c, m.tokens, m.turns, m.tag_counts) {
                (
                    refilled(
                        cleared(
                            GameModel {
                                tokens: tokens_after_completion(m.tokens, c),
                                metrics: spec_contract_completed(m.metrics, c.tier),
                                cards: spec_add_card(m.cards, c.reward_card, CardLocation::Shelved),
                                ..m
                            },
                        ),
                    ),
                    Some(ResolutionSpec::Completed { contract: c }),
                )
            } else {
                (m, None)
            },
        },
    }
}

pub open spec fn resolve_fits(m: GameModel) -> bool {
    match m.active {
        None => true,
        Some(c) => {
            &&& thresholds_fit(c.requirements)
            &&& match spec_failure(c, m.tokens, m.turns) {
                Some(_) => {
                    &&& contract_failed_fits(m.metrics, c.tier)
                    &&& refill_fits(m.config, m.tokens)
                },
                None => spec_all_met(c, m.tokens, m.turns, m.tag_counts) ==> {
                    let paid = removed_all(m.tokens, sorted_listing(thresholds_of(c.requirements)));
                    &&& amount_of(paid, TokenType::ContractsTierCompleted(c.tier)) < u32::MAX
                    &&& contract_completed_fits(m.metrics, c.tier)
                    &&& total_copies(m.cards) < u32::MAX
                    &&& refill_fits(m.config, tokens_after_completion(m.tokens, c))
                },
            }
        },
    }
}

// ---------------------------------------------------------------------------
// Action handlers
// ---------------------------------------------------------------------------

pub open spec fn err(m: GameModel, e: ActionErrorSpec) -> (GameModel, ActionResultSpec) {
    (m, ActionResultSpec::Error(e))
}

pub open spec fn spec_accept(m: GameModel, tier_index: usize, contract_index: usize) -> (
    GameModel,
    ActionResultSpec,
) {
    if m.active is Some {
        err(m, ActionErrorSpec::ContractAlreadyActive)
    } else if tier_index >= m.offered.len() {
        err(m, ActionErrorSpec::InvalidTierIndex { tier_index })
    } else if contract_index >= m.offered[tier_index as int].contracts.len() {
        err(m, ActionErrorSpec::InvalidContractIndex { tier_index, contract_index })
    } else {
        let group = m.offered[tier_index as int];
        let c = group.contracts[contract_index as int];
        let rest = group.contracts.remove(contract_index as int);
        let offered = if rest.len() == 0 {
            m.offered.remove(tier_index as int)
        } else {
            m.offered.update(tier_index as int, TierContractsSpec { tier: group.tier, contracts: rest })
        };
        (
            GameModel {
                offered,
                metrics: spec_contract_accepted(m.metrics, c.tier),
                turns: 0,
                tag_counts: Map::empty(),
                active: Some(c),
                ..m
            },
            ActionResultSpec::Success(ActionSuccessSpec::ContractAccepted),
        )
    }
}

pub open spec fn accept_fits(m: GameModel, tier_index: usize, contract_index: usize) -> bool {
    m.active is None && tier_index < m.offered.len() && contract_index < m.offered[tier_index as int].contracts.len()
        ==> tier_bump_fits(
        m.metrics,
        m.offered[tier_index as int].contracts[contract_index as int].tier,
        TierCounter::Attempted,
    )
}

/// After a play or a discard: the card has moved to the discard pile, one
/// more turn is counted, a card is drawn and the contract may resolve.
pub open spec fn after_turn(m: GameModel) -> (GameModel, Option<ResolutionSpec>) {
    let (cards, rng) = spec_draw_from_deck(m.cards, m.rng);
    spec_try_resolve(GameModel { cards, rng, ..m })
}

pub open spec fn turn_fits(m: GameModel) -> bool {
    &&& m.turns < u32::MAX
    &&& total_copies(m.cards) < u32::MAX
    &&& ({
        let (cards, rng) = spec_draw_from_deck(m.cards, m.rng);
        resolve_fits(GameModel { cards, rng, turns: (m.turns + 1) as u32, ..m })
    })
}

pub open spec fn spec_play(m: GameModel, card_index: usize) -> (GameModel, ActionResultSpec) {
    if m.active is None {
        err(m, ActionErrorSpec::NoActiveContract)
    } else if card_index >= m.cards.len() || m.cards[card_index as int].counts.hand == 0 {
        err(m, ActionErrorSpec::InvalidCardIndex { index: card_index })
    } else {
        let c = m.active->Some_0;
        let card = m.cards[card_index as int].card;
        match banned_tag_from(card.tags, c.requirements, m.tag_counts, 0) {
            Some(tag) => err(m, ActionErrorSpec::CardTagBanned { tag }),
            None => {
                let missing = spec_missing(card.effects, m.tokens);
                if missing.len() > 0 {
                    err(m, ActionErrorSpec::InsufficientTokens { missing })
                } else {
                    let m1 = GameModel {
                        tokens: effects_applied(m.tokens, card.effects),
                        tag_counts: tags_counted(m.tag_counts, card.tags),
                        metrics: spec_card_played(
                            m.metrics,
                            card.tags,
                            all_output_pairs(card.effects),
                            all_input_pairs(card.effects),
                        ),
                        cards: moved_to_discard(m.cards, card_index as int),
                        turns: (m.turns + 1) as u32,
                        ..m
                    };
                    let (m2, res) = after_turn(m1);
                    (
                        m2,
                        ActionResultSpec::Success(
                            ActionSuccessSpec::CardPlayed { contract_resolution: res },
                        ),
                    )
                }
            },
        }
    }
}

pub open spec fn play_fits(m: GameModel, card_index: usize) -> bool {
    m.active is Some && card_index < m.cards.len() && m.cards[card_index as int].counts.hand > 0
        && banned_tag_from(
        m.cards[card_index as int].card.tags,
        m.active->Some_0.requirements,
        m.tag_counts,
        0,
    ) is None ==> {
        let card = m.cards[card_index as int].card;
        &&& total_copies(m.cards) < u32::MAX
        &&& flow_fits(Map::empty(), all_input_pairs(card.effects))
        &&& spec_missing(card.effects, m.tokens).len() == 0 ==> {
            &&& effects_fit(m.tokens, card.effects)
            &&& tags_fit(m.tag_counts, card.tags)
            &&& card_played_fits(
                m.metrics,
                card.tags,
                all_output_pairs(card.effects),
                all_input_pairs(card.effects),
            )
            &&& turn_fits(
                GameModel {
                    tokens: effects_applied(m.tokens, card.effects),
                    tag_counts: tags_counted(m.tag_counts, card.tags),
                    metrics: spec_card_played(
                        m.metrics,
                        card.tags,
                        all_output_pairs(card.effects),
                        all_input_pairs(card.effects),
                    ),
                    cards: moved_to_discard(m.cards, card_index as int),
                    ..m
                },
            )
        }
    }
}

pub open spec fn discard_bonus(m: GameModel) -> u32 {
    m.config.rules.general.discard_production_unit_bonus
}

pub open spec fn spec_discard(m: GameModel, card_index: usize) -> (GameModel, ActionResultSpec) {
    if m.active is None {
        err(m, ActionErrorSpec::NoActiveContract)
    } else if card_index >= m.cards.len() || m.cards[card_index as int].counts.hand == 0 {
        err(m, ActionErrorSpec::InvalidCardIndex { index: card_index })
    } else {
        let bonus = discard_bonus(m);
        let pu = TokenType::ProductionUnit;
        let m1 = GameModel {
            cards: moved_to_discard(m.cards, card_index as int),
            tokens: m.tokens.insert(pu, (amount_of(m.tokens, pu) + bonus) as u32),
            metrics: spec_card_discarded(m.metrics, seq![(pu, bonus)]),
            turns: (m.turns + 1) as u32,
            ..m
        };
        let (m2, res) = after_turn(m1);
        (m2, ActionResultSpec::Success(ActionSuccessSpec::CardDiscarded { contract_resolution: res }))
    }
}

pub open spec fn discard_fits(m: GameModel, card_index: usize) -> bool {
    m.active is Some && card_index < m.cards.len() && m.cards[card_index as int].counts.hand > 0
        ==> {
        let bonus = discard_bonus(m);
        let pu = TokenType::ProductionUnit;
        &&& total_copies(m.cards) < u32::MAX
        &&& amount_of(m.tokens, pu) + bonus <= u32::MAX
        &&& card_discarded_fits(m.metrics, seq![(pu, bonus)])
        &&& turn_fits(
            GameModel {
                cards: moved_to_discard(m.cards, card_index as int),
                tokens: m.tokens.insert(pu, (amount_of(m.tokens, pu) + bonus) as u32),
                metrics: spec_card_discarded(m.metrics, seq![(pu, bonus)]),
                ..m
            },
        )
    }
}

/// The replacement applied: target leaves the active cycle (deck first) for
/// the shelf, replacement moves from the shelf to the deck, one shelved copy
/// of the sacrifice is destroyed, and emptied entries are dropped.
pub open spec fn replaced_cards(cards: Seq<EntrySpec>, target: int, replacement: int, sacrifice: int) -> Seq<
    EntrySpec,
> {
    let t = cards[target].counts;
    let c1 = cards.update(
        target,
        with_counts(
            cards[target],
            if t.deck > 0 {
                CardCounts { deck: (t.deck - 1) as u32, shelved: (t.shelved + 1) as u32, ..t }
            } else {
                CardCounts { discard: (t.discard - 1) as u32, shelved: (t.shelved + 1) as u32, ..t }
            },
        ),
    );
    let r = c1[replacement].counts;
    let c2 = c1.update(
        replacement,
        with_counts(
            c1[replacement],
            CardCounts { shelved: (r.shelved - 1) as u32, deck: (r.deck + 1) as u32, ..r },
        ),
    );
    let s = c2[sacrifice].counts;
    let c3 = c2.update(
        sacrifice,
        with_counts(c2[sacrifice], CardCounts { shelved: (s.shelved - 1) as u32, ..s }),
    );
    nonempty_entries(c3)
}

/// The entries that still hold at least one copy.
pub open spec fn nonempty_entries(s: Seq<EntrySpec>) -> Seq<EntrySpec> {
    s.filter(|e: EntrySpec| e.counts.spec_total() > 0)
}

pub open spec fn spec_replace(m: GameModel, target: usize, replacement: usize, sacrifice: usize) -> (
    GameModel,
    ActionResultSpec,
) {
    let n = m.cards.len();
    if m.active is Some {
        err(m, ActionErrorSpec::ContractActiveForDeckbuilding)
    } else if target >= n {
        err(m, ActionErrorSpec::InvalidTargetCardIndex { index: target })
    } else if m.cards[target as int].counts.deck == 0 && m.cards[target as int].counts.discard == 0 {
        err(m, ActionErrorSpec::NoTargetCopies { index: target })
    } else if replacement >= n {
        err(m, ActionErrorSpec::InvalidReplacementCardIndex { index: replacement })
    } else if m.cards[replacement as int].counts.shelved == 0 {
        err(m, ActionErrorSpec::NoShelvedCopies { index: replacement })
    } else if sacrifice >= n {
        err(m, ActionErrorSpec::InvalidSacrificeCardIndex { index: sacrifice })
    } else if sacrifice == target && m.cards[sacrifice as int].counts.shelved == 0 {
        err(m, ActionErrorSpec::SacrificeIsTarget { index: sacrifice })
    } else if m.cards[sacrifice as int].counts.shelved == 0 {
        err(m, ActionErrorSpec::NoSacrificeCopies { index: sacrifice })
    } else if sacrifice == replacement && m.cards[sacrifice as int].counts.shelved < 2 {
        err(m, ActionErrorSpec::NoSacrificeCopies { index: sacrifice })
    } else {
        (
            GameModel {
                cards: replaced_cards(m.cards, target as int, replacement as int, sacrifice as int),
                metrics: spec_card_replaced(m.metrics),
                ..m
            },
            ActionResultSpec::Success(ActionSuccessSpec::CardReplaced),
        )
    }
}

pub open spec fn replace_fits(m: GameModel) -> bool {
    m.active is None ==> {
        &&& total_copies(m.cards) < u32::MAX
        &&& m.metrics.summary.total_cards_replaced < u32::MAX
    }
}

pub open spec fn spec_abandon(m: GameModel) -> (GameModel, ActionResultSpec) {
    match m.active {
        None => err(m, ActionErrorSpec::NoContractToAbandon),
        Some(c) => {
            let required = m.config.rules.general.min_turns_before_abandon;
            if m.turns < required {
                err(
                    m,
                    ActionErrorSpec::AbandonContractNotAllowed {
                        turns_played: m.turns,
                        turns_required: required,
                    },
                )
            } else {
                (
                    refilled(
                        cleared(GameModel { metrics: spec_contract_abandoned(m.metrics, c.tier), ..m }),
                    ),
                    ActionResultSpec::Success(
                        ActionSuccessSpec::ContractAbandoned {
                            contract_resolution: ResolutionSpec::Failed {
                                contract: c,
                                reason: ContractFailureReason::Abandoned { turns_played: m.turns },
                            },
                        },
                    ),
                )
            }
        },
    }
}

pub open spec fn abandon_fits(m: GameModel) -> bool {
    match m.active {
        None => true,
        Some(c) => m.turns >= m.config.rules.general.min_turns_before_abandon ==> {
            &&& contract_abandoned_fits(m.metrics, c.tier)
            &&& refill_fits(m.config, m.tokens)
        },
    }
}

// ---------------------------------------------------------------------------
// A new game
// ---------------------------------------------------------------------------

/// The seed a new game uses: the given one, or the first `u64` of the
/// fallback generator.
pub open spec fn actual_seed(seed: Option<u64>) -> u64 {
    match seed {
        Some(s) => s,
        None => pcg64_next_u64(
            RngModel {
                origin: RngOrigin::StateStream { state: fallback_state(), stream: rng_stream() },
                draws: 0,
            },
        ),
    }
}

/// The formula that rolls starter cards.
pub open spec fn starter_formula(config: ConfigSpec) -> crate::config::TierScalingFormula {
    config.types[first_pu_producer(config.types)->Some_0].primary_formula
}

/// A configuration with which a new game can be set up.
pub open spec fn config_startable(config: ConfigSpec) -> bool {
    &&& first_pu_producer(config.types) is Some
    &&& formula_fits(starter_formula(config), 0)
    &&& config.rules.general.contracts_per_tier_to_advance >= 1
    &&& draft_fits(config.rules.contract_formulas, config.types, 0)
}

/// A new game: starter deck rolled, hand dealt, deck slots set to the deck
/// size, and the market drafted; the log is `log`.
pub open spec fn spec_new_game(seed: Option<u64>, config: ConfigSpec, log: Seq<ActionEntry>) -> GameModel {
    let s = actual_seed(seed);
    let rng0 = RngModel {
        origin: RngOrigin::StateStream { state: s as u128, stream: rng_stream() },
        draws: 0,
    };
    let general = config.rules.general;
    let (deck, r1) = spec_starter_entries(general.starting_deck_size as nat, starter_formula(config), rng0);
    let (cards, r2) = spec_draw_n(deck, general.starting_hand_size as nat, r1);
    refilled(
        GameModel {
            cards,
            tokens: Map::empty().insert(TokenType::DeckSlots, general.starting_deck_size),
            active: None,
            offered: Seq::empty(),
            turns: 0,
            tag_counts: Map::empty(),
            rng: r2,
            seed: s,
            config,
            log,
            metrics: spec_metrics_new(),
            pending: Seq::empty(),
        },
    )
}

// ---------------------------------------------------------------------------
// Dispatch
// ---------------------------------------------------------------------------

/// The model with `action` appended to the log.
pub open spec fn logged(m: GameModel, action: PlayerAction) -> GameModel {
    GameModel { log: m.log.push(ActionEntry { seq: m.log.len() as u64, action }), ..m }
}

/// What an action does: it is logged, then handled.
pub open spec fn spec_dispatch(m: GameModel, action: PlayerAction) -> (GameModel, ActionResultSpec) {
    let m1 = logged(m, action);
    match action {
        PlayerAction::NewGame { seed } => {
            let g = spec_new_game(seed, m1.config, seq![ActionEntry { seq: 0, action }]);
            (g, ActionResultSpec::Success(ActionSuccessSpec::NewGameStarted { seed: g.seed }))
        },
        PlayerAction::AcceptContract { tier_index, contract_index } => spec_accept(
            m1,
            tier_index,
            contract_index,
        ),
        PlayerAction::PlayCard { card_index } => spec_play(m1, card_index),
        PlayerAction::DiscardCard { card_index } => spec_discard(m1, card_index),
        PlayerAction::ReplaceCard {
            target_card_index,
            replacement_card_index,
            sacrifice_card_index,
        } => spec_replace(m1, target_card_index, replacement_card_index, sacrifice_card_index),
        PlayerAction::AbandonContract => spec_abandon(m1),
    }
}

/// The action can be carried out within the machine's integer widths.
pub open spec fn dispatch_fits(m: GameModel, action: PlayerAction) -> bool {
    let m1 = logged(m, action);
    &&& m.log.len() < u64::MAX
    &&& match action {
        PlayerAction::NewGame { .. } => config_startable(m1.config),
        PlayerAction::AcceptContract { tier_index, contract_index } => accept_fits(
            m1,
            tier_index,
            contract_index,
        ),
        PlayerAction::PlayCard { card_index } => play_fits(m1, card_index),
        PlayerAction::DiscardCard { card_index } => discard_fits(m1, card_index),
        PlayerAction::ReplaceCard { .. } => replace_fits(m1),
        PlayerAction::AbandonContract => abandon_fits(m1),
    }
}

/// Placed contracts correspond to the drafts they finish: same tier, as
/// many requirements, the same reward tags and as many reward effects.
pub open spec fn contracts_finish_drafts(cs: Seq<ContractSpec>, ds: Seq<ContractDraftSpec>) -> bool {
    &&& cs.len() == ds.len()
    &&& forall|i: int|
        0 <= i < cs.len() ==> {
            &&& (#[trigger] cs[i]).tier == ds[i].tier
            &&& cs[i].requirements.len() == ds[i].requirements.len()
            &&& cs[i].reward_card.tags == ds[i].reward_card.tags
            &&& cs[i].reward_card.effects.len() == ds[i].reward_card.effects.len()
        }
}

} // verus!
