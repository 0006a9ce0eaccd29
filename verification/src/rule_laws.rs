//! Properties of single rules, stated over their inputs: when a contract
//! fails or may complete, what a card lacks to be played, how failures are
//! counted per tier, and where a replacement card goes.

use vstd::prelude::*;

use crate::card_moves::lemma_sums_bounded;
use crate::balances::{amount_of, tag_count_of, keys_sorted, lemma_sorted_list_exists, lemma_sorted_lookup, seq_to_map};
use crate::game_model::{
    all_input_pairs, banned_tag_from, harmful_violation_from, limit_or_max, limit_step, limits_of,
    pairs_of, sorted_listing, total_copies, spec_all_met, spec_failure, spec_missing, spec_play, spec_replace,
    spec_try_resolve, thresholds_fit, thresholds_of, turn_violation_from, ActionErrorSpec, ActionResultSpec, GameModel,
};
use crate::metrics::{flow_added, flow_fits, spec_contract_abandoned, spec_contract_failed, MetricsModel};
use crate::tier_stats::record_of;
use crate::types::{
    count_at, CardLocation, CardSpec, ContractFailureReason, ContractRequirementKind, ContractSpec,
    EffectSpec, EntrySpec, ResolutionSpec, TokenAmount, TokenType,
};

verus! {

// ---------------------------------------------------------------------------
// Sorted listings
// ---------------------------------------------------------------------------

proof fn lemma_sorted_listing(m: Map<TokenType, u32>)
    requires
        m.dom().finite(),
    ensures
        keys_sorted(sorted_listing(m)),
        seq_to_map(sorted_listing(m)) == m,
{
    lemma_sorted_list_exists(m);
}

// ---------------------------------------------------------------------------
// Harmful-token limits
// ---------------------------------------------------------------------------

proof fn lemma_limits_finite(reqs: Seq<ContractRequirementKind>)
    ensures
        limits_of(reqs).dom().finite(),
    decreases reqs.len(),
{
    if reqs.len() > 0 {
        lemma_limits_finite(reqs.drop_last());
    }
}

/// Every upper bound on a token bounds the tightest limit on it.
proof fn lemma_limit_bounds(
    reqs: Seq<ContractRequirementKind>,
    k: int,
    t: TokenType,
    mn: Option<u32>,
    mx: u32,
)
    requires
        0 <= k < reqs.len(),
        reqs[k] == (ContractRequirementKind::TokenRequirement { token_type: t, min: mn, max: Some(mx) }),
    ensures
        limits_of(reqs).contains_key(t),
        limits_of(reqs)[t] <= mx,
    decreases reqs.len(),
{
    if k < reqs.len() - 1 {
        lemma_limit_bounds(reqs.drop_last(), k, t, mn, mx);
        assert(reqs.drop_last()[k] == reqs[k]);
    }
}

proof fn lemma_violation_found(s: Seq<TokenAmount>, tokens: Map<TokenType, u32>, j: int, i: int)
    requires
        0 <= j <= i < s.len(),
        amount_of(tokens, s[i].token_type) > s[i].amount,
    ensures
        harmful_violation_from(s, tokens, j) matches Some(
            ContractFailureReason::HarmfulTokenLimitExceeded { token_type, max_amount, current_amount },
        ) && current_amount == amount_of(tokens, token_type) && current_amount > max_amount,
    decreases i - j,
{
    if amount_of(tokens, s[j].token_type) <= s[j].amount {
        lemma_violation_found(s, tokens, j + 1, i);
    }
}

/// A contract fails on a harmful-token limit as soon as any token's balance
/// exceeds the upper bound of any of its token requirements: resolving it
/// then gives `Failed` with `HarmfulTokenLimitExceeded`, reporting a token
/// whose balance is above the reported limit, and clears the contract.
pub proof fn law_exceeded_limit_fails_contract(
    m: GameModel,
    c: ContractSpec,
    k: int,
    t: TokenType,
    mn: Option<u32>,
    mx: u32,
)
    requires
        m.active == Some(c),
        0 <= k < c.requirements.len(),
        c.requirements[k] == (ContractRequirementKind::TokenRequirement { token_type: t, min: mn, max: Some(mx) }),
        amount_of(m.tokens, t) > mx,
    ensures
        spec_failure(c, m.tokens, m.turns) matches Some(
            ContractFailureReason::HarmfulTokenLimitExceeded { token_type, max_amount, current_amount },
        ) && current_amount == amount_of(m.tokens, token_type) && current_amount > max_amount,
        spec_try_resolve(m).1 == Some(
            ResolutionSpec::Failed { contract: c, reason: spec_failure(c, m.tokens, m.turns)->Some_0 },
        ),
        spec_try_resolve(m).0.active is None,
{
    let lim = limits_of(c.requirements);
    lemma_limits_finite(c.requirements);
    lemma_limit_bounds(c.requirements, k, t, mn, mx);
    lemma_sorted_listing(lim);
    let s = sorted_listing(lim);
    assert(seq_to_map(s).contains_key(t));
    let i = choose|i: int| 0 <= i < s.len() && s[i].token_type == t;
    lemma_sorted_lookup(s, i);
    lemma_violation_found(s, m.tokens, 0, i);
}

// ---------------------------------------------------------------------------
// The minimum turn of a turn window
// ---------------------------------------------------------------------------

/// A contract with a turn window whose earliest turn is `mn` never completes
/// before its turn count reaches `mn`: its requirements are not all met, and
/// resolving it gives no `Completed`.
pub proof fn law_no_completion_before_min_turn(
    m: GameModel,
    c: ContractSpec,
    k: int,
    mn: u32,
    mx: Option<u32>,
)
    requires
        m.active == Some(c),
        0 <= k < c.requirements.len(),
        c.requirements[k] == (ContractRequirementKind::TurnWindow { min_turn: Some(mn), max_turn: mx }),
        m.turns < mn,
    ensures
        !spec_all_met(c, m.tokens, m.turns, m.tag_counts),
        !(spec_try_resolve(m).1 matches Some(ResolutionSpec::Completed { .. })),
{
    assert(c.requirements[k] == c.requirements[k]);
}

// ---------------------------------------------------------------------------
// Turn windows and completion
// ---------------------------------------------------------------------------

proof fn lemma_turn_violation_found(reqs: Seq<ContractRequirementKind>, turns: u32, j: int, k: int, mn: Option<u32>, mx: u32)
    requires
        0 <= j <= k < reqs.len(),
        reqs[k] == (ContractRequirementKind::TurnWindow { min_turn: mn, max_turn: Some(mx) }),
        turns > mx,
    ensures
        turn_violation_from(reqs, turns, j) matches Some(
            ContractFailureReason::TurnWindowExceeded { max_turn, current_turn },
        ) && current_turn == turns && turns > max_turn,
    decreases k - j,
{
    if j < k {
        match reqs[j] {
            ContractRequirementKind::TurnWindow { max_turn: Some(x), .. } => {
                if turns <= x {
                    lemma_turn_violation_found(reqs, turns, j + 1, k, mn, mx);
                }
            },
            _ => lemma_turn_violation_found(reqs, turns, j + 1, k, mn, mx),
        }
    }
}

/// A contract whose turn count has passed the last turn of one of its turn
/// windows fails when resolved (on a harmful limit if one is also exceeded,
/// else on the expired window), and is cleared.
pub proof fn law_expired_window_fails_contract(
    m: GameModel,
    c: ContractSpec,
    k: int,
    mn: Option<u32>,
    mx: u32,
)
    requires
        m.active == Some(c),
        0 <= k < c.requirements.len(),
        c.requirements[k] == (ContractRequirementKind::TurnWindow { min_turn: mn, max_turn: Some(mx) }),
        m.turns > mx,
    ensures
        spec_failure(c, m.tokens, m.turns) is Some,
        spec_try_resolve(m).1 matches Some(ResolutionSpec::Failed { contract, .. }) && contract == c,
        spec_try_resolve(m).0.active is None,
{
    lemma_turn_violation_found(c.requirements, m.turns, 0, k, mn, mx);
}

proof fn lemma_thresholds_fit_prefix(reqs: Seq<ContractRequirementKind>)
    requires
        reqs.len() > 0,
        thresholds_fit(reqs),
    ensures
        thresholds_fit(reqs.drop_last()),
{
    let p = reqs.drop_last();
    assert forall|k: int| 0 <= k < p.len() implies match #[trigger] p[k] {
        ContractRequirementKind::TokenRequirement { token_type, min: Some(a), .. } => amount_of(
            thresholds_of(p.take(k)),
            token_type,
        ) + a <= u32::MAX,
        _ => true,
    } by {
        assert(p.take(k) =~= reqs.take(k));
        assert(p[k] == reqs[k]);
        assert(match reqs[k] {
            ContractRequirementKind::TokenRequirement { token_type, min: Some(a), .. } => amount_of(
                thresholds_of(reqs.take(k)),
                token_type,
            ) + a <= u32::MAX,
            _ => true,
        });
    }
}

/// Every lower bound on a token is at most the summed lower bound on it.
proof fn lemma_threshold_bounds(
    reqs: Seq<ContractRequirementKind>,
    k: int,
    t: TokenType,
    a: u32,
    mx: Option<u32>,
)
    requires
        0 <= k < reqs.len(),
        reqs[k] == (ContractRequirementKind::TokenRequirement { token_type: t, min: Some(a), max: mx }),
        thresholds_fit(reqs),
    ensures
        thresholds_of(reqs).contains_key(t),
        thresholds_of(reqs)[t] >= a,
    decreases reqs.len(),
{
    let last = reqs.len() - 1;
    assert(reqs.take(last) =~= reqs.drop_last());
    assert(match reqs[last] {
        ContractRequirementKind::TokenRequirement { token_type, min: Some(b), .. } => amount_of(
            thresholds_of(reqs.take(last)),
            token_type,
        ) + b <= u32::MAX,
        _ => true,
    });
    if k < last {
        lemma_thresholds_fit_prefix(reqs);
        lemma_threshold_bounds(reqs.drop_last(), k, t, a, mx);
        assert(reqs.drop_last()[k] == reqs[k]);
    }
}

/// A contract resolves as `Completed` only when each of its requirements
/// holds on its own: every token is at least each of its lower bounds and
/// at most each of its upper bounds, the turn count is inside every turn
/// window, and every card tag was played at least its minimum.
pub proof fn law_completion_meets_every_requirement(m: GameModel, c: ContractSpec, k: int)
    requires
        m.active == Some(c),
        thresholds_fit(c.requirements),
        spec_try_resolve(m).1 matches Some(ResolutionSpec::Completed { .. }),
        0 <= k < c.requirements.len(),
    ensures
        match c.requirements[k] {
            ContractRequirementKind::TokenRequirement { token_type, min, max } => {
                &&& (min matches Some(a) ==> amount_of(m.tokens, token_type) >= a)
                &&& (max matches Some(b) ==> amount_of(m.tokens, token_type) <= b)
            },
            ContractRequirementKind::TurnWindow { min_turn, max_turn } => {
                &&& (min_turn matches Some(a) ==> m.turns >= a)
                &&& (max_turn matches Some(b) ==> m.turns <= b)
            },
            ContractRequirementKind::CardTagConstraint { tag, min, .. } => min matches Some(a)
                ==> tag_count_of(m.tag_counts, tag) >= a,
        },
{
    assert(spec_failure(c, m.tokens, m.turns) is None);
    assert(spec_all_met(c, m.tokens, m.turns, m.tag_counts));
    match c.requirements[k] {
        ContractRequirementKind::TokenRequirement { token_type, min, max } => {
            if let Some(a) = min {
                lemma_threshold_bounds(c.requirements, k, token_type, a, max);
            }
            if let Some(b) = max {
                lemma_limit_bounds(c.requirements, k, token_type, min, b);
            }
        },
        ContractRequirementKind::TurnWindow { min_turn, max_turn } => {
            if let Some(b) = max_turn {
                if m.turns > b {
                    lemma_turn_violation_found(c.requirements, m.turns, 0, k, min_turn, b);
                }
            }
        },
        _ => {},
    }
}

// ---------------------------------------------------------------------------
// Missing tokens
// ---------------------------------------------------------------------------

/// The summed amounts of `t` in `s`.
pub open spec fn amount_total(s: Seq<TokenAmount>, t: TokenType) -> int
    decreases s.len(),
{
    if s.len() == 0 {
        0
    } else {
        amount_total(s.drop_last(), t) + if s.last().token_type == t {
            s.last().amount as int
        } else {
            0
        }
    }
}

/// What the effects consume of `t`, over all their inputs.
pub open spec fn input_total(effects: Seq<EffectSpec>, t: TokenType) -> int
    decreases effects.len(),
{
    if effects.len() == 0 {
        0
    } else {
        input_total(effects.drop_last(), t) + amount_total(effects.last().inputs, t)
    }
}

pub open spec fn pair_total(pairs: Seq<(TokenType, u32)>, t: TokenType) -> int
    decreases pairs.len(),
{
    if pairs.len() == 0 {
        0
    } else {
        pair_total(pairs.drop_last(), t) + if pairs.last().0 == t {
            pairs.last().1 as int
        } else {
            0
        }
    }
}

proof fn lemma_pair_total_add(a: Seq<(TokenType, u32)>, b: Seq<(TokenType, u32)>, t: TokenType)
    ensures
        pair_total(a + b, t) == pair_total(a, t) + pair_total(b, t),
    decreases b.len(),
{
    if b.len() == 0 {
        assert(a + b =~= a);
    } else {
        assert((a + b).drop_last() =~= a + b.drop_last());
        lemma_pair_total_add(a, b.drop_last(), t);
    }
}

proof fn lemma_pair_total_pairs_of(s: Seq<TokenAmount>, t: TokenType)
    ensures
        pair_total(pairs_of(s), t) == amount_total(s, t),
    decreases s.len(),
{
    if s.len() > 0 {
        assert(pairs_of(s).drop_last() =~= pairs_of(s.drop_last()));
        lemma_pair_total_pairs_of(s.drop_last(), t);
    }
}

proof fn lemma_input_pairs_total(effects: Seq<EffectSpec>, t: TokenType)
    ensures
        pair_total(all_input_pairs(effects), t) == input_total(effects, t),
    decreases effects.len(),
{
    if effects.len() > 0 {
        lemma_input_pairs_total(effects.drop_last(), t);
        lemma_pair_total_add(all_input_pairs(effects.drop_last()), pairs_of(effects.last().inputs), t);
        lemma_pair_total_pairs_of(effects.last().inputs, t);
    }
}

/// Adding pairs that fit adds their sum to each balance, and the keys stay finite.
proof fn lemma_flow_added_total(m: Map<TokenType, u32>, pairs: Seq<(TokenType, u32)>, t: TokenType)
    requires
        flow_fits(m, pairs),
        m.dom().finite(),
    ensures
        amount_of(flow_added(m, pairs), t) == amount_of(m, t) + pair_total(pairs, t),
        flow_added(m, pairs).dom().finite(),
    decreases pairs.len(),
{
    if pairs.len() > 0 {
        let p = pairs.drop_last();
        assert forall|k: int| 0 <= k < p.len() implies amount_of(flow_added(m, p.take(k)), #[trigger] p[k].0)
            + p[k].1 <= u32::MAX by {
            assert(p.take(k) =~= pairs.take(k));
            assert(p[k] == pairs[k]);
        }
        lemma_flow_added_total(m, p, t);
        lemma_flow_added_total(m, p, pairs.last().0);
        let k = pairs.len() - 1;
        assert(pairs.take(k) =~= p);
        assert(amount_of(flow_added(m, pairs.take(k)), pairs[k].0) + pairs[k].1 <= u32::MAX);
    }
}

/// The tokens missing to play a card are exactly those whose balance is
/// below what the card's effects consume of them, each missing by the
/// difference; they are listed in token order.
pub proof fn law_missing_tokens_are_the_shortfalls(
    effects: Seq<EffectSpec>,
    tokens: Map<TokenType, u32>,
    t: TokenType,
)
    requires
        flow_fits(Map::empty(), all_input_pairs(effects)),
    ensures
        keys_sorted(spec_missing(effects, tokens)),
        seq_to_map(spec_missing(effects, tokens)).contains_key(t) <==> amount_of(tokens, t)
            < input_total(effects, t),
        seq_to_map(spec_missing(effects, tokens)).contains_key(t) ==> seq_to_map(
            spec_missing(effects, tokens),
        )[t] == input_total(effects, t) - amount_of(tokens, t),
{
    let required = flow_added(Map::empty(), all_input_pairs(effects));
    let short = crate::game_model::shortfall(required, tokens);
    lemma_flow_added_total(Map::empty(), all_input_pairs(effects), t);
    lemma_input_pairs_total(effects, t);
    assert(short.dom().subset_of(required.dom()));
    vstd::set_lib::lemma_set_subset_finite(required.dom(), short.dom());
    lemma_sorted_listing(short);
}

/// A card whose effects consume more of some token than the player holds is
/// refused with `InsufficientTokens` naming that token, and the game is left
/// as it was.
pub proof fn law_short_card_is_refused(m: GameModel, card_index: usize, t: TokenType)
    requires
        m.active is Some,
        card_index < m.cards.len(),
        m.cards[card_index as int].counts.hand > 0,
        banned_tag_from(
            m.cards[card_index as int].card.tags,
            m.active->Some_0.requirements,
            m.tag_counts,
            0,
        ) is None,
        flow_fits(Map::empty(), all_input_pairs(m.cards[card_index as int].card.effects)),
        amount_of(m.tokens, t) < input_total(m.cards[card_index as int].card.effects, t),
    ensures
        spec_play(m, card_index).1 matches ActionResultSpec::Error(
            ActionErrorSpec::InsufficientTokens { missing },
        ) && seq_to_map(missing).contains_key(t),
        spec_play(m, card_index).0 == m,
{
    let effects = m.cards[card_index as int].card.effects;
    law_missing_tokens_are_the_shortfalls(effects, m.tokens, t);
    let missing = spec_missing(effects, m.tokens);
    assert(missing.len() > 0) by {
        if missing.len() == 0 {
            assert(!seq_to_map(missing).contains_key(t));
        }
    }
}

// ---------------------------------------------------------------------------
// Failures per tier
// ---------------------------------------------------------------------------

/// A failed contract counts once more among its tier's failures, and an
/// abandoned one too (and once more among its abandonments); the tier's
/// other counters and every other tier stay as they were.
pub proof fn law_failure_counted_in_its_tier(m: MetricsModel, tier: u32, other: u32)
    requires
        record_of(m.tiers, tier).failed < u32::MAX,
        record_of(m.tiers, tier).abandoned < u32::MAX,
    ensures
        record_of(spec_contract_failed(m, tier).tiers, tier).failed == record_of(m.tiers, tier).failed + 1,
        record_of(spec_contract_failed(m, tier).tiers, tier).completed == record_of(m.tiers, tier).completed,
        record_of(spec_contract_failed(m, tier).tiers, tier).attempted == record_of(m.tiers, tier).attempted,
        record_of(spec_contract_failed(m, tier).tiers, tier).abandoned == record_of(m.tiers, tier).abandoned,
        record_of(spec_contract_abandoned(m, tier).tiers, tier).failed == record_of(m.tiers, tier).failed + 1,
        record_of(spec_contract_abandoned(m, tier).tiers, tier).abandoned == record_of(m.tiers, tier).abandoned
            + 1,
        record_of(spec_contract_abandoned(m, tier).tiers, tier).completed == record_of(m.tiers, tier).completed,
        record_of(spec_contract_abandoned(m, tier).tiers, tier).attempted == record_of(m.tiers, tier).attempted,
        other != tier ==> record_of(spec_contract_failed(m, tier).tiers, other) == record_of(m.tiers, other),
        other != tier ==> record_of(spec_contract_abandoned(m, tier).tiers, other) == record_of(m.tiers, other),
{
}

// ---------------------------------------------------------------------------
// Replacing a card
// ---------------------------------------------------------------------------

/// The copies of `card` at `loc`, over all entries.
pub open spec fn copies_at(cards: Seq<EntrySpec>, card: CardSpec, loc: CardLocation) -> int
    decreases cards.len(),
{
    if cards.len() == 0 {
        0
    } else {
        copies_at(cards.drop_last(), card, loc) + if cards.last().card == card {
            count_at(cards.last().counts, loc) as int
        } else {
            0
        }
    }
}

proof fn lemma_copies_update(cards: Seq<EntrySpec>, i: int, e: EntrySpec, card: CardSpec, loc: CardLocation)
    requires
        0 <= i < cards.len(),
        e.card == cards[i].card,
    ensures
        copies_at(cards.update(i, e), card, loc) == copies_at(cards, card, loc) + if cards[i].card == card {
            count_at(e.counts, loc) - count_at(cards[i].counts, loc)
        } else {
            0
        },
    decreases cards.len(),
{
    let u = cards.update(i, e);
    if i < cards.len() - 1 {
        assert(u.drop_last() =~= cards.drop_last().update(i, e));
        lemma_copies_update(cards.drop_last(), i, e, card, loc);
    } else {
        assert(u.drop_last() =~= cards.drop_last());
    }
}

proof fn lemma_copies_nonempty(cards: Seq<EntrySpec>, card: CardSpec, loc: CardLocation)
    ensures
        copies_at(crate::game_model::nonempty_entries(cards), card, loc) == copies_at(cards, card, loc),
    decreases cards.len(),
{
    reveal(Seq::filter);
    if cards.len() > 0 {
        let p = cards.drop_last();
        lemma_copies_nonempty(p, card, loc);
        let fp = crate::game_model::nonempty_entries(p);
        if cards.last().counts.spec_total() > 0 {
            assert(fp.push(cards.last()).drop_last() =~= fp);
        }
    }
}

/// A replacement moves one copy of the replacement card from the shelf into
/// the deck: its deck copies grow by one, its hand and discard copies stay,
/// and its shelved copies shrink by one (by two when the sacrifice is a copy
/// of the same card).
pub proof fn law_replacement_enters_deck(m: GameModel, target: usize, replacement: usize, sacrifice: usize)
    requires
        total_copies(m.cards) < u32::MAX,
        spec_replace(m, target, replacement, sacrifice).1 is Success,
        m.cards[target as int].card != m.cards[replacement as int].card,
    ensures
        ({
            let after = spec_replace(m, target, replacement, sacrifice).0.cards;
            let rc = m.cards[replacement as int].card;
            &&& copies_at(after, rc, CardLocation::Deck) == copies_at(m.cards, rc, CardLocation::Deck) + 1
            &&& copies_at(after, rc, CardLocation::Discard) == copies_at(m.cards, rc, CardLocation::Discard)
            &&& copies_at(after, rc, CardLocation::Hand) == copies_at(m.cards, rc, CardLocation::Hand)
            &&& copies_at(after, rc, CardLocation::Shelved) == copies_at(m.cards, rc, CardLocation::Shelved)
                - if m.cards[sacrifice as int].card == rc {
                2int
            } else {
                1int
            }
        }),
{
    let cards = m.cards;
    let (t, r, sa) = (target as int, replacement as int, sacrifice as int);
    let rc = cards[r].card;
    lemma_sums_bounded(cards, cards.len() as int);
    assert(cards[r].counts.spec_total() <= total_copies(cards));
    let tc = cards[t].counts;
    let c1 = cards.update(
        t,
        crate::game_model::with_counts(
            cards[t],
            if tc.deck > 0 {
                crate::types::CardCounts { deck: (tc.deck - 1) as u32, shelved: (tc.shelved + 1) as u32, ..tc }
            } else {
                crate::types::CardCounts { discard: (tc.discard - 1) as u32, shelved: (tc.shelved + 1) as u32, ..tc }
            },
        ),
    );
    let rr = c1[r].counts;
    let c2 = c1.update(
        r,
        crate::game_model::with_counts(
            c1[r],
            crate::types::CardCounts { shelved: (rr.shelved - 1) as u32, deck: (rr.deck + 1) as u32, ..rr },
        ),
    );
    let sc = c2[sa].counts;
    let c3 = c2.update(
        sa,
        crate::game_model::with_counts(c2[sa], crate::types::CardCounts { shelved: (sc.shelved - 1) as u32, ..sc }),
    );
    assert(spec_replace(m, target, replacement, sacrifice).0.cards == crate::game_model::nonempty_entries(c3));
    let locs = seq![CardLocation::Deck, CardLocation::Discard, CardLocation::Hand, CardLocation::Shelved];
    assert forall|j: int| 0 <= j < 4 implies {
        let loc = #[trigger] locs[j];
        copies_at(crate::game_model::nonempty_entries(c3), rc, loc) == copies_at(c3, rc, loc)
            && copies_at(c1, rc, loc) == copies_at(cards, rc, loc)
            && copies_at(c2, rc, loc) == copies_at(c1, rc, loc) + count_at(c2[r].counts, loc) - count_at(
            c1[r].counts,
            loc,
        ) && copies_at(c3, rc, loc) == copies_at(c2, rc, loc) + if c2[sa].card == rc {
            count_at(c3[sa].counts, loc) - count_at(c2[sa].counts, loc)
        } else {
            0
        }
    } by {
        let loc = locs[j];
        lemma_copies_nonempty(c3, rc, loc);
        lemma_copies_update(cards, t, c1[t], rc, loc);
        lemma_copies_update(c1, r, c2[r], rc, loc);
        lemma_copies_update(c2, sa, c3[sa], rc, loc);
    }
    assert(locs[0] == CardLocation::Deck);
    assert(locs[1] == CardLocation::Discard);
    assert(locs[2] == CardLocation::Hand);
    assert(locs[3] == CardLocation::Shelved);
}

} // verus!
