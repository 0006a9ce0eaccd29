//! Moving card copies between locations: drawing, discarding, recycling.

use vstd::prelude::*;

use crate::game_model::{
    cards_total, deck_sum, discard_sum, draw_pick, moved_to_discard, moved_to_hand, recycled,
    spec_draw_from_deck, spec_draw_n, spec_draw_random, total_copies, with_counts,
};
use crate::rng::GameRng;
use crate::types::{entries_view, CardCounts, CardEntry, EntrySpec};

verus! {

// ---------------------------------------------------------------------------
// Sums over entries
// ---------------------------------------------------------------------------

pub proof fn lemma_sums_bounded(cards: Seq<EntrySpec>, n: int)
    requires
        0 <= n <= cards.len(),
    ensures
        0 <= deck_sum(cards, n),
        0 <= discard_sum(cards, n),
        deck_sum(cards, n) + discard_sum(cards, n) <= cards_total(cards, n),
        forall|i: int| 0 <= i < n ==> (#[trigger] cards[i]).counts.spec_total() <= cards_total(cards, n),
        forall|i: int| 0 <= i <= n ==> deck_sum(cards, i) <= deck_sum(cards, n),
    decreases n,
{
    if n > 0 {
        lemma_sums_bounded(cards, n - 1);
    }
}

pub proof fn lemma_deck_sum_zero(cards: Seq<EntrySpec>, n: int)
    requires
        0 <= n <= cards.len(),
        deck_sum(cards, n) == 0,
    ensures
        forall|i: int| 0 <= i < n ==> (#[trigger] cards[i]).counts.deck == 0,
    decreases n,
{
    if n > 0 {
        lemma_sums_bounded(cards, n - 1);
        lemma_deck_sum_zero(cards, n - 1);
    }
}

/// Replacing entry `i` changes each sum by the difference at `i`.
pub proof fn lemma_sums_update(cards: Seq<EntrySpec>, i: int, e: EntrySpec, n: int)
    requires
        0 <= i < cards.len(),
        0 <= n <= cards.len(),
    ensures
        cards_total(cards.update(i, e), n) == cards_total(cards, n) + (if i < n {
            e.counts.spec_total() - cards[i].counts.spec_total()
        } else {
            0
        }),
        deck_sum(cards.update(i, e), n) == deck_sum(cards, n) + (if i < n {
            e.counts.deck - cards[i].counts.deck
        } else {
            0
        }),
        discard_sum(cards.update(i, e), n) == discard_sum(cards, n) + (if i < n {
            e.counts.discard - cards[i].counts.discard
        } else {
            0
        }),
    decreases n,
{
    if n > 0 {
        lemma_sums_update(cards, i, e, n - 1);
    }
}

pub proof fn lemma_recycled_sums(cards: Seq<EntrySpec>, n: int)
    requires
        0 <= n <= cards.len(),
        forall|i: int| 0 <= i < cards.len() ==> (#[trigger] cards[i]).counts.deck == 0,
    ensures
        cards_total(recycled(cards), n) == cards_total(cards, n),
        deck_sum(recycled(cards), n) == discard_sum(cards, n),
    decreases n,
{
    if n > 0 {
        lemma_recycled_sums(cards, n - 1);
    }
}

pub proof fn lemma_sums_extensional(a: Seq<EntrySpec>, b: Seq<EntrySpec>, n: int)
    requires
        0 <= n <= a.len(),
        n <= b.len(),
        forall|i: int| 0 <= i < n ==> #[trigger] a[i].counts == b[i].counts,
    ensures
        cards_total(a, n) == cards_total(b, n),
        deck_sum(a, n) == deck_sum(b, n),
        discard_sum(a, n) == discard_sum(b, n),
    decreases n,
{
    if n > 0 {
        lemma_sums_extensional(a, b, n - 1);
    }
}

/// Moving a copy between locations keeps the number of copies.
pub proof fn lemma_moves_keep_total(cards: Seq<EntrySpec>, i: int)
    requires
        0 <= i < cards.len(),
        cards[i].counts.spec_total() <= u32::MAX,
    ensures
        cards[i].counts.deck > 0 ==> total_copies(moved_to_hand(cards, i)) == total_copies(cards),
        cards[i].counts.hand > 0 ==> total_copies(moved_to_discard(cards, i)) == total_copies(cards),
{
    let n = cards.len() as int;
    let c = cards[i].counts;
    if c.deck > 0 {
        lemma_sums_update(
            cards,
            i,
            with_counts(cards[i], CardCounts { deck: (c.deck - 1) as u32, hand: (c.hand + 1) as u32, ..c }),
            n,
        );
    }
    if c.hand > 0 {
        lemma_sums_update(
            cards,
            i,
            with_counts(
                cards[i],
                CardCounts { hand: (c.hand - 1) as u32, discard: (c.discard + 1) as u32, ..c },
            ),
            n,
        );
    }
}

pub proof fn lemma_draw_keeps_total(cards: Seq<EntrySpec>, rng: crate::rng::RngModel)
    requires
        total_copies(cards) <= u32::MAX,
    ensures
        total_copies(spec_draw_from_deck(cards, rng).0) == total_copies(cards),
        spec_draw_from_deck(cards, rng).0.len() == cards.len(),
{
    let n = cards.len() as int;
    lemma_sums_bounded(cards, n);
    let dt = deck_sum(cards, n);
    if dt == 0 {
        lemma_deck_sum_zero(cards, n);
        lemma_recycled_sums(cards, n);
        let ds = discard_sum(cards, n);
        if ds != 0 {
            let rc = recycled(cards);
            lemma_sums_bounded(rc, n);
            let roll = (crate::rng::pcg64_next_u32(rng) as int) % ds;
            lemma_draw_pick(rc, roll, 0);
            let k = draw_pick(rc, roll, 0);
            if 0 <= k < n {
                lemma_moves_keep_total(rc, k);
            }
        }
    } else {
        let roll = (crate::rng::pcg64_next_u32(rng) as int) % dt;
        lemma_draw_pick(cards, roll, 0);
        let k = draw_pick(cards, roll, 0);
        if 0 <= k < n {
            lemma_moves_keep_total(cards, k);
        }
    }
}

pub proof fn lemma_draw_pick(cards: Seq<EntrySpec>, roll: int, i: int)
    requires
        0 <= i <= cards.len(),
        0 <= roll < deck_sum(cards, cards.len() as int),
        roll >= deck_sum(cards, i),
    ensures
        i <= draw_pick(cards, roll, i) < cards.len(),
        cards[draw_pick(cards, roll, i)].counts.deck > 0,
        draw_pick(cards, roll, i) == draw_pick(cards, roll, 0) || i > 0,
    decreases cards.len() - i,
{
    lemma_sums_bounded(cards, cards.len() as int);
    if i < cards.len() {
        if roll >= deck_sum(cards, i + 1) {
            lemma_draw_pick(cards, roll, i + 1);
        }
    }
}

pub proof fn lemma_draw_n_keeps_total(cards: Seq<EntrySpec>, n: nat, rng: crate::rng::RngModel)
    requires
        total_copies(cards) <= u32::MAX,
    ensures
        total_copies(spec_draw_n(cards, n, rng).0) == total_copies(cards),
    decreases n,
{
    if n > 0 {
        lemma_draw_n_keeps_total(cards, (n - 1) as nat, rng);
        let (c1, r1) = spec_draw_n(cards, (n - 1) as nat, rng);
        lemma_draw_keeps_total(c1, r1);
    }
}

// ---------------------------------------------------------------------------
// Exec moves
// ---------------------------------------------------------------------------

/// Sets the counts of entry `i`.
pub fn set_counts(cards: &mut Vec<CardEntry>, i: usize, counts: CardCounts)
    requires
        i < old(cards).len(),
    ensures
        entries_view(final(cards)@) == entries_view(old(cards)@).update(
            i as int,
            with_counts(entries_view(old(cards)@)[i as int], counts),
        ),
{
    let e = cards.remove(i);
    cards.insert(i, CardEntry { card: e.card, counts });
    proof {
        assert(entries_view(cards@) =~= entries_view(old(cards)@).update(
            i as int,
            with_counts(entries_view(old(cards)@)[i as int], counts),
        ));
    }
}

/// Moves one copy of entry `i` from the hand to the discard pile.
pub fn move_to_discard(cards: &mut Vec<CardEntry>, i: usize)
    requires
        i < old(cards).len(),
        old(cards)@[i as int].counts.hand > 0,
        total_copies(entries_view(old(cards)@)) <= u32::MAX,
    ensures
        entries_view(final(cards)@) == moved_to_discard(entries_view(old(cards)@), i as int),
        total_copies(entries_view(final(cards)@)) == total_copies(entries_view(old(cards)@)),
{
    let ghost v = entries_view(cards@);
    proof {
        lemma_sums_bounded(v, v.len() as int);
        assert(v[i as int].counts.spec_total() <= u32::MAX);
        lemma_moves_keep_total(v, i as int);
    }
    let c = cards[i].counts;
    set_counts(cards, i, CardCounts { hand: c.hand - 1, discard: c.discard + 1, ..c });
}

/// Pick a random card from the deck proportional to deck counts and move
/// one copy from deck to hand.
#[verifier::spinoff_prover]
fn draw_random(cards: &mut Vec<CardEntry>, rng: &mut GameRng, deck_total: u32)
    requires
        deck_total > 0,
        deck_total == deck_sum(entries_view(old(cards)@), old(cards)@.len() as int),
        total_copies(entries_view(old(cards)@)) <= u32::MAX,
    ensures
        (entries_view(final(cards)@), final(rng)@) == spec_draw_random(
            entries_view(old(cards)@),
            deck_total as int,
            old(rng)@,
        ),
{
    let ghost v = entries_view(cards@);
    let ghost n = v.len() as int;
    proof {
        lemma_sums_bounded(v, n);
    }
    let draw = rng.next_u32();
    let roll = draw % deck_total;
    proof {
        lemma_draw_pick(v, roll as int, 0);
    }
    let mut cumulative: u32 = 0;
    let mut i: usize = 0;
    while i < cards.len()
        invariant
            v == entries_view(cards@),
            v == entries_view(old(cards)@),
            rng@ == old(rng)@.advanced(),
            draw == crate::rng::pcg64_next_u32(old(rng)@),
            roll == draw % deck_total,
            n == v.len(),
            i <= n,
            deck_total == deck_sum(v, n),
            total_copies(v) <= u32::MAX,
            roll < deck_total,
            cumulative == deck_sum(v, i as int),
            roll >= deck_sum(v, i as int),
            draw_pick(v, roll as int, 0) == draw_pick(v, roll as int, i as int),
            forall|k: int| 0 <= k <= n ==> deck_sum(v, k) <= deck_sum(v, n),
            forall|k: int| 0 <= k < n ==> (#[trigger] v[k]).counts.spec_total() <= cards_total(v, n),
        decreases n - i,
    {
        assert(cards@[i as int].counts == v[i as int].counts);
        cumulative = cumulative + cards[i].counts.deck;
        if roll < cumulative {
            let c = cards[i].counts;
            assert(c.spec_total() <= u32::MAX);
            set_counts(cards, i, CardCounts { deck: c.deck - 1, hand: c.hand + 1, ..c });
            proof {
                assert(draw_pick(v, roll as int, i as int) == i);
                assert(entries_view(cards@) == moved_to_hand(v, i as int));
            }
            return;
        }
        i = i + 1;
    }
}

/// Draw one card from deck to hand via random selection.
/// If the deck is empty, recycles discard counts back into the deck first.
#[verifier::spinoff_prover]
pub fn draw_from_deck(cards: &mut Vec<CardEntry>, rng: &mut GameRng)
    requires
        total_copies(entries_view(old(cards)@)) <= u32::MAX,
    ensures
        (entries_view(final(cards)@), final(rng)@) == spec_draw_from_deck(
            entries_view(old(cards)@),
            old(rng)@,
        ),
        total_copies(entries_view(final(cards)@)) == total_copies(entries_view(old(cards)@)),
{
    let ghost v = entries_view(cards@);
    let ghost n = v.len() as int;
    proof {
        lemma_sums_bounded(v, n);
        lemma_draw_keeps_total(v, rng@);
    }
    let mut deck_total: u32 = 0;
    let mut i: usize = 0;
    while i < cards.len()
        invariant
            v == entries_view(cards@),
            n == v.len(),
            i <= n,
            deck_total == deck_sum(v, i as int),
            deck_sum(v, n) + discard_sum(v, n) <= cards_total(v, n),
            0 <= discard_sum(v, n),
            total_copies(v) <= u32::MAX,
            forall|k: int| 0 <= k <= n ==> deck_sum(v, k) <= deck_sum(v, n),
        decreases n - i,
    {
        assert(cards@[i as int].counts == v[i as int].counts);
        assert(deck_sum(v, i as int + 1) == deck_sum(v, i as int) + v[i as int].counts.deck);
        assert(deck_sum(v, i as int + 1) <= deck_sum(v, n));
        deck_total = deck_total + cards[i].counts.deck;
        i = i + 1;
    }
    if deck_total == 0 {
        proof {
            lemma_deck_sum_zero(v, n);
        }
        let mut discard_total: u32 = 0;
        let mut j: usize = 0;
        while j < cards.len()
            invariant
                n == v.len(),
                cards@.len() == n,
                j <= n,
                discard_total == discard_sum(v, j as int),
                deck_sum(v, n) + discard_sum(v, n) <= cards_total(v, n),
                total_copies(v) <= u32::MAX,
                forall|k: int| 0 <= k < n ==> (#[trigger] v[k]).counts.deck == 0,
                forall|k: int| 0 <= k < j ==> #[trigger] entries_view(cards@)[k] == recycled(v)[k],
                forall|k: int| j <= k < n ==> #[trigger] entries_view(cards@)[k] == v[k],
            decreases n - j,
        {
            proof {
                lemma_sums_bounded(v, j as int + 1);
                lemma_sums_bounded(v, n);
                assert(discard_sum(v, j as int + 1) <= discard_sum(v, n)) by {
                    lemma_discard_monotone(v, j as int + 1, n);
                }
                assert(entries_view(cards@)[j as int] == v[j as int]);
            }
            let c = cards[j].counts;
            discard_total = discard_total + c.discard;
            let ghost before = entries_view(cards@);
            set_counts(cards, j, CardCounts { deck: c.deck + c.discard, discard: 0, ..c });
            proof {
                assert(entries_view(cards@).len() == cards@.len());
                assert forall|k: int| 0 <= k < j + 1 implies #[trigger] entries_view(cards@)[k]
                    == recycled(v)[k] by {
                    if k < j {
                        assert(entries_view(cards@)[k] == before[k]);
                    }
                }
                assert forall|k: int| j + 1 <= k < n implies #[trigger] entries_view(cards@)[k]
                    == v[k] by {
                    assert(entries_view(cards@)[k] == before[k]);
                }
            }
            j = j + 1;
        }
        proof {
            assert(entries_view(cards@) =~= recycled(v));
            lemma_recycled_sums(v, n);
        }
        if discard_total == 0 {
            return;
        }
        draw_random(cards, rng, discard_total);
    } else {
        draw_random(cards, rng, deck_total);
    }
}

proof fn lemma_discard_monotone(cards: Seq<EntrySpec>, a: int, b: int)
    requires
        0 <= a <= b <= cards.len(),
    ensures
        discard_sum(cards, a) <= discard_sum(cards, b),
    decreases b - a,
{
    if a < b {
        lemma_discard_monotone(cards, a, b - 1);
    }
}

} // verus!
