//! Properties of the game rules that span actions and states.

use vstd::prelude::*;

use crate::action_log::{ActionEntry, PlayerAction};
use crate::balances::amount_of;
use crate::card_moves::{lemma_sums_bounded, lemma_sums_update};
use crate::game_model::{
    cards_total, cleared, completed_in, contracts_finish_drafts, first_group, is_top_tier, logged,
    moved_to_discard, moved_to_hand, needed_in, nonempty_entries, offered_in, placed, placed_all,
    recycled, refilled, spec_draft_n, spec_refill_upto, replaced_cards, spec_abandon, spec_accept, spec_discard,
    spec_dispatch, spec_draw_from_deck, spec_failure, spec_new_game, spec_play, spec_replace,
    spec_try_resolve, top_tier, total_copies, with_counts, ActionResultSpec, ActionSuccessSpec,
    ConfigSpec, GameModel,
};
use crate::contract_generation::ContractDraftSpec;
use crate::metrics::spec_metrics_new;
use crate::rng::RngModel;
use crate::types::{
    first_index_of_card, lemma_index_of_card_from, spec_add_card, CardCounts, CardLocation,
    CardSpec, ContractSpec, EntrySpec, ResolutionSpec, TierContractsSpec, TokenType,
};

verus! {

// ---------------------------------------------------------------------------
// Log and refusals
// ---------------------------------------------------------------------------

/// Every action is logged, whatever its outcome: a new game empties the log
/// and holds only its own entry, numbered 0; any other action is appended
/// with the next sequence number.
pub proof fn law_action_is_logged(m: GameModel, action: PlayerAction)
    ensures
        action is NewGame ==> spec_dispatch(m, action).0.log == seq![ActionEntry { seq: 0, action }],
        action !is NewGame ==> spec_dispatch(m, action).0.log == m.log.push(
            ActionEntry { seq: m.log.len() as u64, action },
        ),
{
}

/// A refused action changes nothing but the log.
pub proof fn law_refused_action_changes_only_log(m: GameModel, action: PlayerAction)
    ensures
        spec_dispatch(m, action).1 is Error ==> spec_dispatch(m, action).0 == logged(m, action),
{
}

/// A new game starts with no contract, fresh statistics, the starting deck
/// size in deck slots, no placed offers, and the log it is given.
pub proof fn law_new_game_starts_fresh(seed: Option<u64>, config: ConfigSpec, log: Seq<ActionEntry>)
    ensures
        spec_new_game(seed, config, log).active is None,
        spec_new_game(seed, config, log).turns == 0,
        spec_new_game(seed, config, log).metrics == spec_metrics_new(),
        spec_new_game(seed, config, log).tokens == Map::<TokenType, u32>::empty().insert(
            TokenType::DeckSlots,
            config.rules.general.starting_deck_size,
        ),
        spec_new_game(seed, config, log).offered.len() == 0,
        spec_new_game(seed, config, log).log == log,
        seed matches Some(s) ==> spec_new_game(seed, config, log).seed == s,
{
}

/// The model after dispatching `actions` in order.
pub open spec fn spec_run(m: GameModel, actions: Seq<PlayerAction>) -> GameModel
    decreases actions.len(),
{
    if actions.len() == 0 {
        m
    } else {
        spec_dispatch(spec_run(m, actions.drop_last()), actions.last()).0
    }
}

/// Games set up from the same seed and configuration are the same game,
/// and the same actions keep them the same: replaying a log reproduces the
/// state, whatever log each game started with.
pub proof fn law_replay_reproduces_state(
    seed: u64,
    config: ConfigSpec,
    log1: Seq<ActionEntry>,
    log2: Seq<ActionEntry>,
    actions: Seq<PlayerAction>,
)
    ensures
        spec_run(spec_new_game(Some(seed), config, log1), actions) == (GameModel {
            log: spec_run(spec_new_game(Some(seed), config, log1), actions).log,
            ..spec_run(spec_new_game(Some(seed), config, log2), actions)
        }),
    decreases actions.len(),
{
    if actions.len() > 0 {
        law_replay_reproduces_state(seed, config, log1, log2, actions.drop_last());
        let a = spec_run(spec_new_game(Some(seed), config, log1), actions.drop_last());
        let b = spec_run(spec_new_game(Some(seed), config, log2), actions.drop_last());
        lemma_dispatch_ignores_log(a, b, actions.last());
    }
}

/// What an action does never depends on the log it is appended to.
proof fn lemma_dispatch_ignores_log(a: GameModel, b: GameModel, action: PlayerAction)
    requires
        a == (GameModel { log: a.log, ..b }),
    ensures
        spec_dispatch(a, action).0 == (GameModel { log: spec_dispatch(a, action).0.log, ..spec_dispatch(b, action).0 }),
        spec_dispatch(a, action).1 == spec_dispatch(b, action).1,
{
    let la = logged(a, action);
    let lb = logged(b, action);
    assert(la == (GameModel { log: la.log, ..lb }));
}

// ---------------------------------------------------------------------------
// Contracts
// ---------------------------------------------------------------------------

/// Failure is checked before completion: a contract that fails now is
/// failed, whether or not its requirements are met.
pub proof fn law_failure_takes_precedence(m: GameModel)
    requires
        m.active is Some,
        spec_failure(m.active->Some_0, m.tokens, m.turns) is Some,
    ensures
        spec_try_resolve(m).1 == Some(
            ResolutionSpec::Failed {
                contract: m.active->Some_0,
                reason: spec_failure(m.active->Some_0, m.tokens, m.turns)->Some_0,
            },
        ),
        spec_try_resolve(m).0.active is None,
        spec_try_resolve(m).0.turns == 0,
        spec_try_resolve(m).0.metrics.summary.current_streak == 0,
{
}

/// Some entry of `cards` holds `card` with a copy on the shelf.
pub open spec fn on_shelf(cards: Seq<EntrySpec>, card: CardSpec) -> bool {
    exists|i: int| 0 <= i < cards.len() && cards[i].card == card && #[trigger] cards[i].counts.shelved > 0
}

/// A completed contract's reward card lands on the shelf, and the tier's
/// completion count grows by one after the requirements are paid.
pub proof fn law_completion_shelves_reward(m: GameModel)
    requires
        m.active is Some,
        spec_try_resolve(m).1 matches Some(ResolutionSpec::Completed { .. }),
        total_copies(m.cards) < u32::MAX,
    ensures
        on_shelf(spec_try_resolve(m).0.cards, m.active->Some_0.reward_card),
        total_copies(spec_try_resolve(m).0.cards) == total_copies(m.cards) + 1,
        spec_try_resolve(m).0.active is None,
        spec_try_resolve(m).0.turns == 0,
{
    let c = m.active->Some_0;
    let cards = spec_add_card(m.cards, c.reward_card, CardLocation::Shelved);
    lemma_sums_bounded(m.cards, m.cards.len() as int);
    match first_index_of_card(m.cards, c.reward_card) {
        Some(i) => {
            lemma_index_of_card_from(m.cards, c.reward_card, 0);
            assert(m.cards[i].counts.spec_total() <= total_copies(m.cards));
            assert(cards[i].counts.shelved > 0);
        },
        None => {
            assert(cards[m.cards.len() as int].counts.shelved > 0);
        },
    }
    lemma_add_card_total(m.cards, c.reward_card, CardLocation::Shelved);
}

proof fn lemma_add_card_total(cards: Seq<EntrySpec>, card: CardSpec, loc: CardLocation)
    requires
        total_copies(cards) < u32::MAX,
    ensures
        total_copies(spec_add_card(cards, card, loc)) == total_copies(cards) + 1,
{
    lemma_sums_bounded(cards, cards.len() as int);
    let n = cards.len() as int;
    match first_index_of_card(cards, card) {
        Some(i) => {
            lemma_index_of_card_from(cards, card, 0);
            assert(cards[i].counts.spec_total() <= total_copies(cards));
            lemma_sums_update(
                cards,
                i,
                EntrySpec { card: cards[i].card, counts: crate::types::counts_incremented(cards[i].counts, loc) },
                n,
            );
        },
        None => {
            let e = EntrySpec {
                card,
                counts: crate::types::counts_incremented(
                    CardCounts { shelved: 0, deck: 0, hand: 0, discard: 0 },
                    loc,
                ),
            };
            crate::card_moves::lemma_sums_extensional(cards, cards.push(e), n);
        },
    }
}

/// Abandoning counts as a failure: the failure counters grow, the streak
/// breaks, and the contract state is cleared.
pub proof fn law_abandon_is_a_failure(m: GameModel)
    requires
        spec_abandon(m).1 is Success,
    ensures
        spec_abandon(m).0.metrics.summary.total_contracts_failed == m.metrics.summary.total_contracts_failed
            + 1 || m.metrics.summary.total_contracts_failed == u32::MAX,
        spec_abandon(m).0.metrics.summary.current_streak == 0,
        spec_abandon(m).0.active is None,
        spec_abandon(m).0.turns == 0,
        spec_abandon(m).0.tag_counts == Map::<crate::types::CardTag, u32>::empty(),
{
}

/// The offers in a market.
pub open spec fn offer_count(offered: Seq<TierContractsSpec>, n: int) -> int
    decreases n,
{
    if n <= 0 {
        0
    } else {
        offer_count(offered, n - 1) + offered[n - 1].contracts.len()
    }
}

proof fn lemma_offer_count_update(o: Seq<TierContractsSpec>, i: int, g: TierContractsSpec, n: int)
    requires
        0 <= i < o.len(),
        0 <= n <= o.len(),
    ensures
        offer_count(o.update(i, g), n) == offer_count(o, n) + (if i < n {
            g.contracts.len() - o[i].contracts.len()
        } else {
            0
        }),
    decreases n,
{
    if n > 0 {
        lemma_offer_count_update(o, i, g, n - 1);
    }
}

proof fn lemma_offer_count_remove(o: Seq<TierContractsSpec>, i: int, n: int)
    requires
        0 <= i < o.len(),
        0 <= n <= o.len(),
    ensures
        n <= i ==> offer_count(o.remove(i), n) == offer_count(o, n),
        n > i ==> offer_count(o.remove(i), n - 1) == offer_count(o, n) - o[i].contracts.len(),
    decreases n,
{
    if n > 0 {
        lemma_offer_count_remove(o, i, n - 1);
    }
}

/// Accepting a contract takes exactly one offer out of the market and makes
/// it the active contract.
pub proof fn law_accept_takes_one_offer(m: GameModel, tier_index: usize, contract_index: usize)
    requires
        spec_accept(m, tier_index, contract_index).1 is Success,
    ensures
        offer_count(
            spec_accept(m, tier_index, contract_index).0.offered,
            spec_accept(m, tier_index, contract_index).0.offered.len() as int,
        ) == offer_count(m.offered, m.offered.len() as int) - 1,
        spec_accept(m, tier_index, contract_index).0.active == Some(
            m.offered[tier_index as int].contracts[contract_index as int],
        ),
        spec_accept(m, tier_index, contract_index).0.turns == 0,
{
    let o = m.offered;
    let n = o.len() as int;
    let ti = tier_index as int;
    let group = o[ti];
    let rest = group.contracts.remove(contract_index as int);
    if rest.len() == 0 {
        lemma_offer_count_remove(o, ti, n);
    } else {
        lemma_offer_count_update(o, ti, TierContractsSpec { tier: group.tier, contracts: rest }, n);
    }
}

// ---------------------------------------------------------------------------
// Cards
// ---------------------------------------------------------------------------

/// Copies in the active cycle: deck, hand and discard pile.
pub open spec fn cycle_size(cards: Seq<EntrySpec>, n: int) -> int
    decreases n,
{
    if n <= 0 {
        0
    } else {
        cycle_size(cards, n - 1) + cards[n - 1].counts.spec_non_shelved()
    }
}

pub open spec fn cycle_copies(cards: Seq<EntrySpec>) -> int {
    cycle_size(cards, cards.len() as int)
}

proof fn lemma_cycle_update(cards: Seq<EntrySpec>, i: int, e: EntrySpec, n: int)
    requires
        0 <= i < cards.len(),
        0 <= n <= cards.len(),
    ensures
        cycle_size(cards.update(i, e), n) == cycle_size(cards, n) + (if i < n {
            e.counts.spec_non_shelved() - cards[i].counts.spec_non_shelved()
        } else {
            0
        }),
    decreases n,
{
    if n > 0 {
        lemma_cycle_update(cards, i, e, n - 1);
    }
}

proof fn lemma_cycle_recycled(cards: Seq<EntrySpec>, n: int)
    requires
        0 <= n <= cards.len(),
        forall|i: int| 0 <= i < cards.len() ==> (#[trigger] cards[i]).counts.spec_total() <= u32::MAX,
    ensures
        cycle_size(recycled(cards), n) == cycle_size(cards, n),
    decreases n,
{
    if n > 0 {
        lemma_cycle_recycled(cards, n - 1);
    }
}

proof fn lemma_cycle_draw(cards: Seq<EntrySpec>, rng: crate::rng::RngModel)
    requires
        total_copies(cards) <= u32::MAX,
    ensures
        cycle_copies(spec_draw_from_deck(cards, rng).0) == cycle_copies(cards),
{
    let n = cards.len() as int;
    lemma_sums_bounded(cards, n);
    let dt = crate::game_model::deck_sum(cards, n);
    if dt == 0 {
        crate::card_moves::lemma_deck_sum_zero(cards, n);
        lemma_cycle_recycled(cards, n);
        crate::card_moves::lemma_recycled_sums(cards, n);
        let ds = crate::game_model::discard_sum(cards, n);
        if ds != 0 {
            let rc = recycled(cards);
            lemma_sums_bounded(rc, n);
            let roll = (crate::rng::pcg64_next_u32(rng) as int) % ds;
            crate::card_moves::lemma_draw_pick(rc, roll, 0);
            let k = crate::game_model::draw_pick(rc, roll, 0);
            lemma_cycle_moved_to_hand(rc, k);
        }
    } else {
        let roll = (crate::rng::pcg64_next_u32(rng) as int) % dt;
        crate::card_moves::lemma_draw_pick(cards, roll, 0);
        let k = crate::game_model::draw_pick(cards, roll, 0);
        lemma_cycle_moved_to_hand(cards, k);
    }
}

proof fn lemma_cycle_moved_to_hand(cards: Seq<EntrySpec>, k: int)
    requires
        0 <= k < cards.len(),
        cards[k].counts.deck > 0,
        total_copies(cards) <= u32::MAX,
    ensures
        cycle_copies(moved_to_hand(cards, k)) == cycle_copies(cards),
{
    lemma_sums_bounded(cards, cards.len() as int);
    assert(cards[k].counts.spec_total() <= total_copies(cards));
    let c = cards[k].counts;
    lemma_cycle_update(
        cards,
        k,
        with_counts(cards[k], CardCounts { deck: (c.deck - 1) as u32, hand: (c.hand + 1) as u32, ..c }),
        cards.len() as int,
    );
}

proof fn lemma_cycle_add_shelved(cards: Seq<EntrySpec>, card: CardSpec)
    requires
        total_copies(cards) < u32::MAX,
    ensures
        cycle_copies(spec_add_card(cards, card, CardLocation::Shelved)) == cycle_copies(cards),
{
    lemma_sums_bounded(cards, cards.len() as int);
    let n = cards.len() as int;
    match first_index_of_card(cards, card) {
        Some(i) => {
            lemma_index_of_card_from(cards, card, 0);
            assert(cards[i].counts.spec_total() <= total_copies(cards));
            lemma_cycle_update(
                cards,
                i,
                EntrySpec {
                    card: cards[i].card,
                    counts: crate::types::counts_incremented(cards[i].counts, CardLocation::Shelved),
                },
                n,
            );
        },
        None => {
            let e = EntrySpec {
                card,
                counts: crate::types::counts_incremented(
                    CardCounts { shelved: 0, deck: 0, hand: 0, discard: 0 },
                    CardLocation::Shelved,
                ),
            };
            lemma_cycle_prefix(cards, cards.push(e), n);
        },
    }
}

proof fn lemma_cycle_prefix(a: Seq<EntrySpec>, b: Seq<EntrySpec>, n: int)
    requires
        0 <= n <= a.len(),
        n <= b.len(),
        forall|i: int| 0 <= i < n ==> #[trigger] a[i].counts == b[i].counts,
    ensures
        cycle_size(a, n) == cycle_size(b, n),
    decreases n,
{
    if n > 0 {
        lemma_cycle_prefix(a, b, n - 1);
    }
}

proof fn lemma_resolve_keeps_cycle(m: GameModel)
    requires
        total_copies(m.cards) < u32::MAX,
    ensures
        cycle_copies(spec_try_resolve(m).0.cards) == cycle_copies(m.cards),
{
    match m.active {
        None => {},
        Some(c) => {
            lemma_cycle_add_shelved(m.cards, c.reward_card);
        },
    }
}

/// Playing or discarding a card keeps the size of the active cycle: the
/// card goes to the discard pile, a card is drawn (recycling the discard
/// pile when the deck is empty), and a completed contract's reward goes to
/// the shelf, outside the cycle.
pub proof fn law_turn_keeps_cycle(m: GameModel, card_index: usize)
    requires
        total_copies(m.cards) < u32::MAX,
    ensures
        spec_play(m, card_index).1 is Success ==> cycle_copies(spec_play(m, card_index).0.cards)
            == cycle_copies(m.cards),
        spec_discard(m, card_index).1 is Success ==> cycle_copies(spec_discard(m, card_index).0.cards)
            == cycle_copies(m.cards),
{
    if m.active is Some && card_index < m.cards.len() && m.cards[card_index as int].counts.hand > 0 {
        let ci = card_index as int;
        lemma_sums_bounded(m.cards, m.cards.len() as int);
        assert(m.cards[ci].counts.spec_total() <= total_copies(m.cards));
        let moved = moved_to_discard(m.cards, ci);
        let c = m.cards[ci].counts;
        lemma_cycle_update(
            m.cards,
            ci,
            with_counts(m.cards[ci], CardCounts { hand: (c.hand - 1) as u32, discard: (c.discard + 1) as u32, ..c }),
            m.cards.len() as int,
        );
        crate::card_moves::lemma_moves_keep_total(m.cards, ci);
        lemma_cycle_draw(moved, m.rng);
        crate::card_moves::lemma_draw_keeps_total(moved, m.rng);
        let (drawn, r) = spec_draw_from_deck(moved, m.rng);
        assert forall|g: GameModel| g.cards == drawn implies cycle_copies(spec_try_resolve(g).0.cards)
            == cycle_copies(drawn) by {
            lemma_resolve_keeps_cycle(g);
        }
    }
}

// ---------------------------------------------------------------------------
// Tiers
// ---------------------------------------------------------------------------

/// Tier 0 is always unlocked; a tier is unlocked exactly when every lower
/// tier has been completed `threshold` times.
pub proof fn law_tier_unlocking(tokens: Map<TokenType, u32>, threshold: u32, t: u32)
    requires
        exists|k: u32| is_top_tier(tokens, threshold, k),
    ensures
        t <= top_tier(tokens, threshold) <==> forall|u: u32| u < t ==> completed_in(tokens, u)
            >= threshold,
{
    let k = top_tier(tokens, threshold);
    assert(is_top_tier(tokens, threshold, k));
    if t > k {
        assert(!(completed_in(tokens, k) >= threshold));
    }
}

// ---------------------------------------------------------------------------
// Deckbuilding
// ---------------------------------------------------------------------------

proof fn lemma_nonempty_sums(s: Seq<EntrySpec>)
    ensures
        total_copies(nonempty_entries(s)) == total_copies(s),
        cycle_copies(nonempty_entries(s)) == cycle_copies(s),
    decreases s.len(),
{
    reveal(Seq::filter);
    if s.len() > 0 {
        let p = s.drop_last();
        lemma_nonempty_sums(p);
        let fp = nonempty_entries(p);
        crate::card_moves::lemma_sums_extensional(p, s, p.len() as int);
        lemma_cycle_prefix(p, s, p.len() as int);
        if s.last().counts.spec_total() > 0 {
            let fs = fp.push(s.last());
            crate::card_moves::lemma_sums_extensional(fp, fs, fp.len() as int);
            lemma_cycle_prefix(fp, fs, fp.len() as int);
        }
    }
}

/// Replacing a card swaps a copy in the active cycle for a shelved copy,
/// so the cycle keeps its size, and destroys exactly one shelved copy.
pub proof fn law_replace_swaps_and_destroys_one(m: GameModel, target: usize, replacement: usize, sacrifice: usize)
    requires
        total_copies(m.cards) < u32::MAX,
        spec_replace(m, target, replacement, sacrifice).1 is Success,
    ensures
        total_copies(spec_replace(m, target, replacement, sacrifice).0.cards) == total_copies(m.cards) - 1,
        cycle_copies(spec_replace(m, target, replacement, sacrifice).0.cards) == cycle_copies(m.cards),
{
    let cards = m.cards;
    let n = cards.len() as int;
    let (t, r, sa) = (target as int, replacement as int, sacrifice as int);
    lemma_sums_bounded(cards, n);
    assert(cards[t].counts.spec_total() <= total_copies(cards));
    let tc = cards[t].counts;
    let c1 = cards.update(
        t,
        with_counts(
            cards[t],
            if tc.deck > 0 {
                CardCounts { deck: (tc.deck - 1) as u32, shelved: (tc.shelved + 1) as u32, ..tc }
            } else {
                CardCounts { discard: (tc.discard - 1) as u32, shelved: (tc.shelved + 1) as u32, ..tc }
            },
        ),
    );
    lemma_sums_update(cards, t, c1[t], n);
    lemma_cycle_update(cards, t, c1[t], n);
    lemma_sums_bounded(c1, n);
    assert(c1[r].counts.spec_total() <= total_copies(c1));
    let rc = c1[r].counts;
    let c2 = c1.update(
        r,
        with_counts(c1[r], CardCounts { shelved: (rc.shelved - 1) as u32, deck: (rc.deck + 1) as u32, ..rc }),
    );
    lemma_sums_update(c1, r, c2[r], n);
    lemma_cycle_update(c1, r, c2[r], n);
    let sc = c2[sa].counts;
    let c3 = c2.update(sa, with_counts(c2[sa], CardCounts { shelved: (sc.shelved - 1) as u32, ..sc }));
    lemma_sums_update(c2, sa, c3[sa], n);
    lemma_cycle_update(c2, sa, c3[sa], n);
    assert(replaced_cards(cards, t, r, sa) == nonempty_entries(c3));
    lemma_nonempty_sums(c3);
}

// ---------------------------------------------------------------------------
// Market refill
// ---------------------------------------------------------------------------

/// How many of `tiers` equal `t`.
pub open spec fn tier_count(tiers: Seq<u32>, t: u32) -> nat
    decreases tiers.len(),
{
    if tiers.len() == 0 {
        0
    } else {
        tier_count(tiers.drop_last(), t) + if tiers.last() == t {
            1nat
        } else {
            0nat
        }
    }
}

pub open spec fn contract_tiers(cs: Seq<ContractSpec>) -> Seq<u32> {
    cs.map_values(|c: ContractSpec| c.tier)
}

pub open spec fn draft_tiers(ds: Seq<ContractDraftSpec>) -> Seq<u32> {
    ds.map_values(|d: ContractDraftSpec| d.tier)
}

/// `new` keeps every offer of `old` in place: the same tier groups, in the
/// same order, each starting with the offers it had.
pub open spec fn market_extends(old: Seq<TierContractsSpec>, new: Seq<TierContractsSpec>) -> bool {
    &&& old.len() <= new.len()
    &&& forall|i: int|
        0 <= i < old.len() ==> {
            &&& (#[trigger] new[i]).tier == old[i].tier
            &&& old[i].contracts.len() <= new[i].contracts.len()
            &&& new[i].contracts.subrange(0, old[i].contracts.len() as int) == old[i].contracts
        }
}

proof fn lemma_tier_count_add(a: Seq<u32>, b: Seq<u32>, t: u32)
    ensures
        tier_count(a + b, t) == tier_count(a, t) + tier_count(b, t),
    decreases b.len(),
{
    if b.len() == 0 {
        assert(a + b =~= a);
    } else {
        assert((a + b).drop_last() =~= a + b.drop_last());
        lemma_tier_count_add(a, b.drop_last(), t);
    }
}

proof fn lemma_tier_count_constant(s: Seq<u32>, k: u32, t: u32)
    requires
        forall|i: int| 0 <= i < s.len() ==> s[i] == k,
    ensures
        tier_count(s, t) == if k == t {
            s.len()
        } else {
            0
        },
    decreases s.len(),
{
    if s.len() > 0 {
        lemma_tier_count_constant(s.drop_last(), k, t);
    }
}

/// `offered_in` reads the group that `first_group` finds.
proof fn lemma_offered_in_first_group(offered: Seq<TierContractsSpec>, t: u32, i: int)
    requires
        0 <= i,
    ensures
        offered_in(offered, t, i) == match first_group(offered, t, i) {
            Some(j) => offered[j].contracts.len() as int,
            None => 0,
        },
        first_group(offered, t, i) matches Some(j) ==> i <= j < offered.len() && offered[j].tier == t,
        first_group(offered, t, i) is None ==> forall|j: int| i <= j < offered.len() ==> offered[j].tier != t,
    decreases offered.len() - i,
{
    if i < offered.len() && offered[i].tier != t {
        lemma_offered_in_first_group(offered, t, i + 1);
    }
}

/// `first_group` depends on the tiers of the groups only.
proof fn lemma_first_group_same_tiers(a: Seq<TierContractsSpec>, b: Seq<TierContractsSpec>, t: u32, i: int)
    requires
        0 <= i,
        a.len() == b.len(),
        forall|j: int| 0 <= j < a.len() ==> (#[trigger] a[j]).tier == b[j].tier,
    ensures
        first_group(a, t, i) == first_group(b, t, i),
    decreases a.len() - i,
{
    if i < a.len() && a[i].tier != t {
        lemma_first_group_same_tiers(a, b, t, i + 1);
    }
}

/// Appending a group leaves earlier finds alone and is found last.
proof fn lemma_first_group_push(a: Seq<TierContractsSpec>, g: TierContractsSpec, t: u32, i: int)
    requires
        0 <= i <= a.len(),
    ensures
        first_group(a.push(g), t, i) == match first_group(a, t, i) {
            Some(j) => Some(j),
            None => if g.tier == t {
                Some(a.len() as int)
            } else {
                None
            },
        },
    decreases a.len() - i,
{
    reveal_with_fuel(first_group, 2);
    if i < a.len() {
        assert(a.push(g)[i] == a[i]);
        if a[i].tier != t {
            lemma_first_group_push(a, g, t, i + 1);
        }
    }
}

/// Placing one contract adds one offer to its own tier and none to another.
proof fn lemma_placed_counts(offered: Seq<TierContractsSpec>, c: ContractSpec, t: u32)
    ensures
        offered_in(placed(offered, c), t, 0) == offered_in(offered, t, 0) + if c.tier == t {
            1int
        } else {
            0int
        },
        market_extends(offered, placed(offered, c)),
{
    let p = placed(offered, c);
    lemma_offered_in_first_group(offered, t, 0);
    lemma_offered_in_first_group(offered, c.tier, 0);
    lemma_offered_in_first_group(p, t, 0);
    match first_group(offered, c.tier, 0) {
        Some(j) => {
            assert forall|k: int| 0 <= k < offered.len() implies (#[trigger] offered[k]).tier == p[k].tier by {}
            lemma_first_group_same_tiers(offered, p, t, 0);
            assert(p[j].contracts.subrange(0, offered[j].contracts.len() as int) =~= offered[j].contracts);
            assert forall|i: int| 0 <= i < offered.len() implies {
                &&& (#[trigger] p[i]).tier == offered[i].tier
                &&& offered[i].contracts.len() <= p[i].contracts.len()
                &&& p[i].contracts.subrange(0, offered[i].contracts.len() as int) == offered[i].contracts
            } by {
                if i != j {
                    assert(p[i] == offered[i]);
                    assert(offered[i].contracts.subrange(0, offered[i].contracts.len() as int) =~= offered[i].contracts);
                }
            }
        },
        None => {
            let g = TierContractsSpec { tier: c.tier, contracts: seq![c] };
            lemma_first_group_push(offered, g, t, 0);
            assert forall|i: int| 0 <= i < offered.len() implies {
                &&& (#[trigger] p[i]).tier == offered[i].tier
                &&& offered[i].contracts.len() <= p[i].contracts.len()
                &&& p[i].contracts.subrange(0, offered[i].contracts.len() as int) == offered[i].contracts
            } by {
                assert(p[i] == offered[i]);
                assert(offered[i].contracts.subrange(0, offered[i].contracts.len() as int) =~= offered[i].contracts);
            }
        },
    }
}

proof fn lemma_market_extends_trans(
    a: Seq<TierContractsSpec>,
    b: Seq<TierContractsSpec>,
    c: Seq<TierContractsSpec>,
)
    requires
        market_extends(a, b),
        market_extends(b, c),
    ensures
        market_extends(a, c),
{
    assert forall|i: int| 0 <= i < a.len() implies {
        &&& (#[trigger] c[i]).tier == a[i].tier
        &&& a[i].contracts.len() <= c[i].contracts.len()
        &&& c[i].contracts.subrange(0, a[i].contracts.len() as int) == a[i].contracts
    } by {
        let la = a[i].contracts.len() as int;
        let lb = b[i].contracts.len() as int;
        assert(c[i].contracts.subrange(0, la) =~= c[i].contracts.subrange(0, lb).subrange(0, la));
    }
}

/// Placing contracts adds, to each tier, as many offers as there are contracts of it.
proof fn lemma_placed_all_counts(offered: Seq<TierContractsSpec>, cs: Seq<ContractSpec>, t: u32)
    ensures
        offered_in(placed_all(offered, cs), t, 0) == offered_in(offered, t, 0) + tier_count(
            contract_tiers(cs),
            t,
        ),
        market_extends(offered, placed_all(offered, cs)),
    decreases cs.len(),
{
    if cs.len() == 0 {
        assert forall|i: int| 0 <= i < offered.len() implies {
            &&& (#[trigger] offered[i]).tier == offered[i].tier
            &&& offered[i].contracts.len() <= offered[i].contracts.len()
            &&& offered[i].contracts.subrange(0, offered[i].contracts.len() as int) == offered[i].contracts
        } by {
            assert(offered[i].contracts.subrange(0, offered[i].contracts.len() as int) =~= offered[i].contracts);
        }
    } else {
        let prev = placed_all(offered, cs.drop_last());
        lemma_placed_all_counts(offered, cs.drop_last(), t);
        lemma_placed_counts(prev, cs.last(), t);
        lemma_market_extends_trans(offered, prev, placed(prev, cs.last()));
        assert(contract_tiers(cs).drop_last() =~= contract_tiers(cs.drop_last()));
    }
}

/// `n` drafts at one tier are all of that tier.
proof fn lemma_draft_n_tiers(tier: u32, n: nat, config: ConfigSpec, rng: RngModel)
    ensures
        spec_draft_n(tier, n, config, rng).0.len() == n,
        forall|i: int|
            0 <= i < n ==> (#[trigger] spec_draft_n(tier, n, config, rng).0[i]).tier == tier,
    decreases n,
{
    if n > 0 {
        lemma_draft_n_tiers(tier, (n - 1) as nat, config, rng);
    }
}

/// The refill drafts, for each tier below `n`, the shortfall of its market.
proof fn lemma_refill_upto_counts(
    offered: Seq<TierContractsSpec>,
    config: ConfigSpec,
    rng: RngModel,
    n: nat,
    t: u32,
)
    requires
        n <= u32::MAX + 1,
    ensures
        tier_count(draft_tiers(spec_refill_upto(offered, config, rng, n).0), t) == if t < n {
            needed_in(offered, t, config.rules.general.contract_market_size_per_tier)
        } else {
            0
        },
    decreases n,
{
    if n > 0 {
        let (prev, r1) = spec_refill_upto(offered, config, rng, (n - 1) as nat);
        let tier = (n - 1) as u32;
        let k = needed_in(offered, tier, config.rules.general.contract_market_size_per_tier);
        let d = spec_draft_n(tier, k, config, r1).0;
        lemma_refill_upto_counts(offered, config, rng, (n - 1) as nat, t);
        lemma_draft_n_tiers(tier, k, config, r1);
        assert(draft_tiers(prev + d) =~= draft_tiers(prev) + draft_tiers(d));
        lemma_tier_count_add(draft_tiers(prev), draft_tiers(d), t);
        lemma_tier_count_constant(draft_tiers(d), tier, t);
    }
}

/// After a refill, once its drafts are finished and placed, every unlocked
/// tier offers at least the market size (exactly, where it was short), a
/// locked tier offers what it did, and every earlier offer stays where it was:
/// the market is topped up, not regenerated.
pub proof fn law_refill_tops_up_market(m: GameModel, cs: Seq<ContractSpec>, t: u32)
    requires
        m.pending.len() == 0,
        contracts_finish_drafts(cs, refilled(m).pending),
    ensures
        offered_in(placed_all(m.offered, cs), t, 0) == if t <= top_tier(
            m.tokens,
            m.config.rules.general.contracts_per_tier_to_advance,
        ) {
            if offered_in(m.offered, t, 0) >= m.config.rules.general.contract_market_size_per_tier {
                offered_in(m.offered, t, 0)
            } else {
                m.config.rules.general.contract_market_size_per_tier as int
            }
        } else {
            offered_in(m.offered, t, 0)
        },
        market_extends(m.offered, placed_all(m.offered, cs)),
{
    let n = (top_tier(m.tokens, m.config.rules.general.contracts_per_tier_to_advance) + 1) as nat;
    let ds = spec_refill_upto(m.offered, m.config, m.rng, n).0;
    assert(refilled(m).pending =~= ds);
    assert(contract_tiers(cs) =~= draft_tiers(ds));
    lemma_placed_all_counts(m.offered, cs, t);
    lemma_refill_upto_counts(m.offered, m.config, m.rng, n, t);
}

} // verus!
