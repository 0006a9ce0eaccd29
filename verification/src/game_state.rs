//! Core game state: card locations, token balances, contracts, and the
//! seeded generator.
//!
//! All game-mutating logic lives here and follows `game_model` exactly:
//! `dispatch` is proved to do to the state what `spec_dispatch` says.
//!
//! Contracts for the market are drafted here, with every random draw they
//! take; a draft becomes an offered contract once its amounts computed over
//! real numbers are filled in, through `place_generated`. Until then the
//! drafts wait in `pending_drafts`.

use vstd::prelude::*;

use crate::action_log::{ActionEntry, ActionLog, PlayerAction};
use crate::balances::{amount_of, TagCounts, TokenBalances};
use crate::card_moves::{draw_from_deck, lemma_sums_bounded, move_to_discard, set_counts};
use crate::config::{effect_types_view, CachedConfig, GameRulesConfig, TokenDefinitionsConfig};
use crate::contract_generation::{draft_contract, draft_fits, ContractDraft, ContractDraftSpec};
use crate::game_model::{
    abandon_fits, accept_fits, cleared, completed_in, config_startable, contracts_finish_drafts,
    discard_fits, dispatch_fits, first_group, is_top_tier, needed_in, nonempty_entries,
    offered_in, placed, placed_all, play_fits, cards_total, refill_fits, refilled, replace_fits, resolve_fits,
    spec_abandon, spec_accept, spec_discard, spec_dispatch, spec_draft_n, spec_draw_n,
    spec_new_game, spec_play, spec_refill_upto, spec_replace, spec_try_resolve, starter_formula,
    top_tier, total_copies, ActionErrorSpec, ActionResultSpec, ActionSuccessSpec, ConfigSpec,
    GameModel, banned_tag_from, sorted_listing,
};
use crate::balances::{tag_listing, CardTagCount};
use crate::game_rules::{
    all_requirements_met, apply_effects, banned_card_tag, check_contract_failure,
    collect_effect_token_flow, get_missing_tokens_for_effects, subtract_contract_tokens,
};
use crate::metrics::{count_tags, MetricsTracker};
use crate::rng::{GameRng, RngModel, RngOrigin};
use crate::starter_cards::{create_starter_deck, spec_starter_entries};
use crate::types::{
    add_card_to_entries, can_add_card, contracts_view, entries_view, spec_add_card, CardCounts,
    CardEntry, CardLocation, CardSpec, CardTag, Contract, ContractFailureReason, ContractResolution,
    ContractSpec, ContractTier, EntrySpec, ResolutionSpec, TierContracts, TierContractsSpec,
    TokenAmount, TokenType, tiers_view, spec_token_tags, TokenTag,
};

verus! {

// ---------------------------------------------------------------------------
// Action result types
// ---------------------------------------------------------------------------

/// Successful outcomes — one variant per `PlayerAction`.
#[derive(Debug)]
pub enum ActionSuccess {
    NewGameStarted { seed: u64 },
    ContractAccepted,
    CardPlayed { contract_resolution: Option<ContractResolution> },
    CardDiscarded { contract_resolution: Option<ContractResolution> },
    /// A deck/discard card was replaced with a shelved card; sacrifice destroyed.
    CardReplaced,
    /// The active contract was voluntarily abandoned after the required minimum turns.
    /// The resolution is always a `Failed` resolution with reason `Abandoned`.
    ContractAbandoned { contract_resolution: ContractResolution },
}

/// Error outcomes — explicit variants for every failure mode.
#[derive(Debug)]
pub enum ActionError {
    ContractAlreadyActive,
    InvalidTierIndex { tier_index: usize },
    InvalidContractIndex { tier_index: usize, contract_index: usize },
    NoActiveContract,
    InvalidCardIndex { index: usize },
    InsufficientTokens { missing: Vec<TokenAmount> },
    /// ReplaceCard attempted while a contract is active.
    ContractActiveForDeckbuilding,
    /// target_card_index is out of bounds.
    InvalidTargetCardIndex { index: usize },
    /// Target card has no copies in the active cycle (deck or discard).
    NoTargetCopies { index: usize },
    /// replacement_card_index is out of bounds.
    InvalidReplacementCardIndex { index: usize },
    /// Replacement card has no copies on the shelf.
    NoShelvedCopies { index: usize },
    /// sacrifice_card_index is out of bounds.
    InvalidSacrificeCardIndex { index: usize },
    /// Sacrifice card has no shelved copies to destroy.
    NoSacrificeCopies { index: usize },
    /// Cannot sacrifice the same card being replaced.
    SacrificeIsTarget { index: usize },
    /// The card's tag is banned or limited by an active CardTagConstraint requirement.
    CardTagBanned { tag: CardTag },
    /// AbandonContract was attempted before the required minimum turns were played.
    AbandonContractNotAllowed { turns_played: u32, turns_required: u32 },
    /// AbandonContract was attempted but there is no active contract.
    NoContractToAbandon,
}

/// Typed outcome of processing a player action.
#[derive(Debug)]
pub enum ActionResult {
    Success(ActionSuccess),
    Error(ActionError),
}

pub open spec fn resolution_opt_view(r: Option<ContractResolution>) -> Option<ResolutionSpec> {
    match r {
        Some(x) => Some(x@),
        None => None,
    }
}

impl View for ActionSuccess {
    type V = ActionSuccessSpec;

    open spec fn view(&self) -> ActionSuccessSpec {
        match self {
            ActionSuccess::NewGameStarted { seed } => ActionSuccessSpec::NewGameStarted { seed: *seed },
            ActionSuccess::ContractAccepted => ActionSuccessSpec::ContractAccepted,
            ActionSuccess::CardPlayed { contract_resolution } => ActionSuccessSpec::CardPlayed {
                contract_resolution: resolution_opt_view(*contract_resolution),
            },
            ActionSuccess::CardDiscarded { contract_resolution } => ActionSuccessSpec::CardDiscarded {
                contract_resolution: resolution_opt_view(*contract_resolution),
            },
            ActionSuccess::CardReplaced => ActionSuccessSpec::CardReplaced,
            ActionSuccess::ContractAbandoned { contract_resolution } => ActionSuccessSpec::ContractAbandoned {
                contract_resolution: contract_resolution@,
            },
        }
    }
}

impl View for ActionError {
    type V = ActionErrorSpec;

    open spec fn view(&self) -> ActionErrorSpec {
        match self {
            ActionError::ContractAlreadyActive => ActionErrorSpec::ContractAlreadyActive,
            ActionError::InvalidTierIndex { tier_index } => ActionErrorSpec::InvalidTierIndex {
                tier_index: *tier_index,
            },
            ActionError::InvalidContractIndex { tier_index, contract_index } => ActionErrorSpec::InvalidContractIndex {
                tier_index: *tier_index,
                contract_index: *contract_index,
            },
            ActionError::NoActiveContract => ActionErrorSpec::NoActiveContract,
            ActionError::InvalidCardIndex { index } => ActionErrorSpec::InvalidCardIndex { index: *index },
            ActionError::InsufficientTokens { missing } => ActionErrorSpec::InsufficientTokens {
                missing: missing@,
            },
            ActionError::ContractActiveForDeckbuilding => ActionErrorSpec::ContractActiveForDeckbuilding,
            ActionError::InvalidTargetCardIndex { index } => ActionErrorSpec::InvalidTargetCardIndex {
                index: *index,
            },
            ActionError::NoTargetCopies { index } => ActionErrorSpec::NoTargetCopies { index: *index },
            ActionError::InvalidReplacementCardIndex { index } => ActionErrorSpec::InvalidReplacementCardIndex {
                index: *index,
            },
            ActionError::NoShelvedCopies { index } => ActionErrorSpec::NoShelvedCopies { index: *index },
            ActionError::InvalidSacrificeCardIndex { index } => ActionErrorSpec::InvalidSacrificeCardIndex {
                index: *index,
            },
            ActionError::NoSacrificeCopies { index } => ActionErrorSpec::NoSacrificeCopies {
                index: *index,
            },
            ActionError::SacrificeIsTarget { index } => ActionErrorSpec::SacrificeIsTarget {
                index: *index,
            },
            ActionError::CardTagBanned { tag } => ActionErrorSpec::CardTagBanned { tag: *tag },
            ActionError::AbandonContractNotAllowed { turns_played, turns_required } => ActionErrorSpec::AbandonContractNotAllowed {
                turns_played: *turns_played,
                turns_required: *turns_required,
            },
            ActionError::NoContractToAbandon => ActionErrorSpec::NoContractToAbandon,
        }
    }
}

impl View for ActionResult {
    type V = ActionResultSpec;

    open spec fn view(&self) -> ActionResultSpec {
        match self {
            ActionResult::Success(s) => ActionResultSpec::Success(s@),
            ActionResult::Error(e) => ActionResultSpec::Error(e@),
        }
    }
}

pub open spec fn drafts_view(v: Seq<ContractDraft>) -> Seq<ContractDraftSpec> {
    v.map_values(|d: ContractDraft| d@)
}

pub open spec fn contract_opt_view(c: Option<Contract>) -> Option<ContractSpec> {
    match c {
        Some(x) => Some(x@),
        None => None,
    }
}

// ---------------------------------------------------------------------------
// GameState
// ---------------------------------------------------------------------------

/// Core game state for My Little Factory Manager.
pub struct GameState {
    cards: Vec<CardEntry>,
    tokens: TokenBalances,
    active_contract: Option<Contract>,
    offered_contracts: Vec<TierContracts>,
    contract_turns_played: u32,
    cards_played_per_tag_contract: TagCounts,
    rng: GameRng,
    seed: u64,
    cached_config: CachedConfig,
    action_log: ActionLog,
    metrics_tracker: MetricsTracker,
    pending_drafts: Vec<ContractDraft>,
}

impl View for GameState {
    type V = GameModel;

    closed spec fn view(&self) -> GameModel {
        GameModel {
            cards: entries_view(self.cards@),
            tokens: self.tokens@,
            active: contract_opt_view(self.active_contract),
            offered: tiers_view(self.offered_contracts@),
            turns: self.contract_turns_played,
            tag_counts: self.cards_played_per_tag_contract@,
            rng: self.rng@,
            seed: self.seed,
            config: self.cached_config@,
            log: self.action_log@,
            metrics: self.metrics_tracker@,
            pending: drafts_view(self.pending_drafts@),
        }
    }
}

/// The highest unlocked tier is unique.
proof fn lemma_top_tier_unique(tokens: Map<TokenType, u32>, threshold: u32, a: u32, b: u32)
    requires
        is_top_tier(tokens, threshold, a),
        is_top_tier(tokens, threshold, b),
    ensures
        a == b,
{
    if a < b {
        assert(completed_in(tokens, a) >= threshold);
    } else if b < a {
        assert(completed_in(tokens, b) >= threshold);
    }
}

/// With fewer than `u32::MAX` copies, any card can get one more copy anywhere.
proof fn lemma_can_add(cards: Seq<EntrySpec>, card: CardSpec, loc: CardLocation)
    requires
        total_copies(cards) < u32::MAX,
    ensures
        can_add_card(cards, card, loc),
{
    lemma_sums_bounded(cards, cards.len() as int);
    assert forall|i: int| 0 <= i < cards.len() && cards[i].card == card implies crate::types::count_at(
        cards[i].counts,
        loc,
    ) < u32::MAX by {
        assert(cards[i].counts.spec_total() <= total_copies(cards));
    }
}

/// Adding one copy adds one to the number of copies.
proof fn lemma_add_card_total(cards: Seq<EntrySpec>, card: CardSpec, loc: CardLocation)
    requires
        total_copies(cards) < u32::MAX,
    ensures
        total_copies(spec_add_card(cards, card, loc)) == total_copies(cards) + 1,
{
    lemma_sums_bounded(cards, cards.len() as int);
    let n = cards.len() as int;
    match crate::types::first_index_of_card(cards, card) {
        Some(i) => {
            crate::types::lemma_index_of_card_from(cards, card, 0);
            assert(cards[i].counts.spec_total() <= total_copies(cards));
            crate::card_moves::lemma_sums_update(
                cards,
                i,
                EntrySpec { card: cards[i].card, counts: crate::types::counts_incremented(cards[i].counts, loc) },
                n,
            );
        },
        None => {
            let e = EntrySpec {
                card,
                counts: crate::types::counts_incremented(
                    CardCounts { shelved: 0, deck: 0, hand: 0, discard: 0 },
                    loc,
                ),
            };
            let c2 = cards.push(e);
            crate::card_moves::lemma_sums_extensional(cards, c2, n);
        },
    }
}

/// The starter deck holds exactly `n` copies.
proof fn lemma_starter_total(n: nat, formula: crate::config::TierScalingFormula, rng: RngModel)
    requires
        n <= u32::MAX,
    ensures
        total_copies(spec_starter_entries(n, formula, rng).0) == n,
    decreases n,
{
    if n > 0 {
        lemma_starter_total((n - 1) as nat, formula, rng);
        let (prev, r1) = spec_starter_entries((n - 1) as nat, formula, rng);
        let (amount, r2) = crate::formulas::spec_roll_from_formula(0, formula, r1);
        lemma_add_card_total(prev, crate::starter_cards::spec_production_card(amount), CardLocation::Deck);
    }
}

/// The offers of `tier` already in the market (in its first group).
fn offered_count(offered: &Vec<TierContracts>, tier: u32) -> (r: usize)
    ensures
        r == offered_in(tiers_view(offered@), tier, 0),
{
    let ghost ov = tiers_view(offered@);
    let mut i: usize = 0;
    while i < offered.len()
        invariant
            i <= offered@.len(),
            ov == tiers_view(offered@),
            offered_in(ov, tier, 0) == offered_in(ov, tier, i as int),
        decreases offered.len() - i,
    {
        if offered[i].tier.0 == tier {
            return offered[i].contracts.len();
        }
        i = i + 1;
    }
    0
}

/// Returns the highest unlocked tier. Tier 0 is always unlocked; tier
/// `n + 1` unlocks when `ContractsTierCompleted(n)` reaches the threshold.
fn top_unlocked_tier(tokens: &TokenBalances, threshold: u32) -> (k: u32)
    requires
        tokens.wf(),
        exists|k: u32| is_top_tier(tokens@, threshold, k),
    ensures
        k == top_tier(tokens@, threshold),
        is_top_tier(tokens@, threshold, k),
{
    let ghost k0 = choose|k: u32| is_top_tier(tokens@, threshold, k);
    let mut tier: u32 = 0;
    while tokens.get(TokenType::ContractsTierCompleted(tier)) >= threshold
        invariant
            tokens.wf(),
            is_top_tier(tokens@, threshold, k0),
            tier <= k0,
            forall|t: u32| t < tier ==> completed_in(tokens@, t) >= threshold,
        decreases k0 - tier,
    {
        assert(tier != k0);
        tier = tier + 1;
    }
    proof {
        lemma_top_tier_unique(tokens@, threshold, tier, k0);
    }
    tier
}

impl GameState {
    /// The inner parts are well formed.
    pub closed spec fn wf(&self) -> bool {
        &&& self.tokens.wf()
        &&& self.cards_played_per_tag_contract.wf()
        &&& self.metrics_tracker.wf()
        &&& self.action_log.wf()
    }

    /// Drafts `needed` contracts at `tier` into the pending list.
    #[verifier::spinoff_prover]
    fn draft_into_pending(&mut self, tier: u32, needed: u32)
        requires
            old(self).wf(),
            draft_fits(old(self)@.config.rules.contract_formulas, old(self)@.config.types, tier),
        ensures
            final(self).wf(),
            ({
                let (d, r) = spec_draft_n(tier, needed as nat, old(self)@.config, old(self)@.rng);
                final(self)@ == GameModel { pending: old(self)@.pending + d, rng: r, ..old(self)@ }
            }),
    {
        let ghost m0 = self@;
        let mut n: u32 = 0;
        while n < needed
            invariant
                n <= needed,
                self.wf(),
                draft_fits(m0.config.rules.contract_formulas, m0.config.types, tier),
                ({
                    let (d, r) = spec_draft_n(tier, n as nat, m0.config, m0.rng);
                    self@ == GameModel { pending: m0.pending + d, rng: r, ..m0 }
                }),
            decreases needed - n,
        {
            let ghost before = self@;
            let d = draft_contract(
                ContractTier(tier),
                &mut self.rng,
                &self.cached_config.rules.contract_formulas,
                self.cached_config.variation_settings.ratio_is_rolled,
                &self.cached_config.effect_types,
            );
            self.pending_drafts.push(d);
            proof {
                let (dp, rp) = spec_draft_n(tier, n as nat, m0.config, m0.rng);
                assert(drafts_view(self.pending_drafts@) =~= before.pending.push(d@));
                assert(m0.pending + dp.push(d@) =~= (m0.pending + dp).push(d@));
            }
            n = n + 1;
        }
    }

    /// Tops up the market of every unlocked tier to the target size, as drafts.
    #[verifier::spinoff_prover]
    fn refill_contract_market(&mut self)
        requires
            old(self).wf(),
            refill_fits(old(self)@.config, old(self)@.tokens),
        ensures
            final(self).wf(),
            final(self)@ == refilled(old(self)@),
    {
        let ghost m0 = self@;
        let target = self.cached_config.rules.general.contract_market_size_per_tier;
        let threshold = self.cached_config.rules.general.contracts_per_tier_to_advance;
        let top = top_unlocked_tier(&self.tokens, threshold);
        let mut t: u64 = 0;
        while t <= top as u64
            invariant
                self.wf(),
                t <= top as u64 + 1,
                m0.config == self@.config,
                m0.offered == self@.offered,
                m0.tokens == self@.tokens,
                target == m0.config.rules.general.contract_market_size_per_tier,
                top == top_tier(m0.tokens, m0.config.rules.general.contracts_per_tier_to_advance),
                refill_fits(m0.config, m0.tokens),
                ({
                    let (d, r) = spec_refill_upto(m0.offered, m0.config, m0.rng, t as nat);
                    self@ == GameModel { pending: m0.pending + d, rng: r, ..m0 }
                }),
            decreases top as u64 + 1 - t,
        {
            let tier = t as u32;
            let existing = offered_count(&self.offered_contracts, tier);
            let needed: u32 = if existing >= target as usize {
                0
            } else {
                target - existing as u32
            };
            assert(needed == needed_in(m0.offered, tier, target));
            self.draft_into_pending(tier, needed);
            proof {
                let (dp, rp) = spec_refill_upto(m0.offered, m0.config, m0.rng, t as nat);
                let (dn, rn) = spec_draft_n(tier, needed as nat, m0.config, rp);
                assert(m0.pending + (dp + dn) =~= (m0.pending + dp) + dn);
                assert(spec_refill_upto(m0.offered, m0.config, m0.rng, (t + 1) as nat) == (dp + dn, rn));
            }
            t = t + 1;
        }
    }

    /// Clears the contract state after a resolution.
    fn clear_contract(&mut self)
        requires
            old(self).wf(),
        ensures
            final(self).wf(),
            final(self)@ == cleared(old(self)@),
    {
        self.active_contract = None;
        self.contract_turns_played = 0;
        self.cards_played_per_tag_contract.clear();
    }

    /// Check for contract failure (first) then completion. Failure takes precedence.
    #[verifier::spinoff_prover]
    fn try_resolve_contract(&mut self) -> (r: Option<ContractResolution>)
        requires
            old(self).wf(),
            resolve_fits(old(self)@),
        ensures
            final(self).wf(),
            (final(self)@, resolution_opt_view(r)) == spec_try_resolve(old(self)@),
    {
        let contract = match &self.active_contract {
            Some(c) => c.duplicate(),
            None => {
                return None;
            },
        };
        let tier = contract.tier.0;
        match check_contract_failure(&contract, &self.tokens, self.contract_turns_played) {
            Some(reason) => {
                self.metrics_tracker.record_contract_failed(tier);
                self.clear_contract();
                self.refill_contract_market();
                return Some(ContractResolution::Failed { contract, reason });
            },
            None => {},
        }
        if !all_requirements_met(
            &contract,
            &self.tokens,
            self.contract_turns_played,
            &self.cards_played_per_tag_contract,
        ) {
            return None;
        }
        subtract_contract_tokens(&mut self.tokens, &contract);
        self.tokens.add(TokenType::ContractsTierCompleted(tier), 1);
        self.metrics_tracker.record_contract_completed(tier);
        proof {
            lemma_can_add(entries_view(self.cards@), contract.reward_card@, CardLocation::Shelved);
        }
        add_card_to_entries(&mut self.cards, &contract.reward_card, CardLocation::Shelved);
        self.clear_contract();
        self.refill_contract_market();
        Some(ContractResolution::Completed { contract })
    }
}


proof fn lemma_nonempty_step(s: Seq<EntrySpec>, i: int)
    requires
        0 <= i < s.len(),
    ensures
        nonempty_entries(s.take(i + 1)) == (if s[i].counts.spec_total() > 0 {
            nonempty_entries(s.take(i)).push(s[i])
        } else {
            nonempty_entries(s.take(i))
        }),
{
    reveal(Seq::filter);
    assert(s.take(i + 1).drop_last() =~= s.take(i));
}

/// Drops the entries that hold no copy at all.
fn retain_nonempty(cards: &mut Vec<CardEntry>)
    requires
        forall|i: int| 0 <= i < old(cards)@.len() ==> (#[trigger] old(cards)@[i]).counts.spec_total() <= u32::MAX,
    ensures
        entries_view(final(cards)@) == nonempty_entries(entries_view(old(cards)@)),
{
    let ghost v = entries_view(cards@);
    let mut kept: Vec<CardEntry> = Vec::new();
    let mut i: usize = 0;
    while i < cards.len()
        invariant
            i <= cards@.len(),
            v == entries_view(cards@),
            forall|k: int| 0 <= k < cards@.len() ==> (#[trigger] cards@[k]).counts.spec_total() <= u32::MAX,
            entries_view(kept@) == nonempty_entries(v.take(i as int)),
        decreases cards.len() - i,
    {
        proof {
            lemma_nonempty_step(v, i as int);
        }
        if cards[i].counts.total() > 0 {
            let e = CardEntry { card: cards[i].card.duplicate(), counts: cards[i].counts };
            let ghost before = entries_view(kept@);
            kept.push(e);
            proof {
                assert(entries_view(kept@) =~= before.push(v[i as int]));
            }
        }
        i = i + 1;
    }
    proof {
        assert(v.take(cards@.len() as int) =~= v);
    }
    *cards = kept;
}

/// Places one finished contract: appended to its tier's group, or in a new group.
fn place_contract(offered: &mut Vec<TierContracts>, c: Contract)
    ensures
        tiers_view(final(offered)@) == placed(tiers_view(old(offered)@), c@),
{
    let ghost ov = tiers_view(offered@);
    let ghost cv = c@;
    let tier = c.tier;
    let mut i: usize = 0;
    while i < offered.len()
        invariant
            i <= offered@.len(),
            ov == tiers_view(offered@),
            ov == tiers_view(old(offered)@),
            cv == c@,
            tier == c.tier,
            first_group(ov, cv.tier, 0) == first_group(ov, cv.tier, i as int),
        decreases offered.len() - i,
    {
        if offered[i].tier.0 == tier.0 {
            let mut g = offered.remove(i);
            let ghost gc = contracts_view(g.contracts@);
            g.contracts.push(c);
            offered.insert(i, g);
            proof {
                assert(contracts_view(g.contracts@) =~= gc.push(cv));
                assert(tiers_view(offered@) =~= placed(ov, cv));
            }
            return;
        }
        i = i + 1;
    }
    let mut v: Vec<Contract> = Vec::new();
    v.push(c);
    offered.push(TierContracts { tier, contracts: v });
    proof {
        assert(contracts_view(v@) =~= seq![cv]);
        assert(tiers_view(offered@) =~= placed(ov, cv));
    }
}

fn same_tags(a: &Vec<CardTag>, b: &Vec<CardTag>) -> (r: bool)
    ensures
        r == (a@ == b@),
{
    if a.len() != b.len() {
        return false;
    }
    let mut i: usize = 0;
    while i < a.len()
        invariant
            i <= a@.len(),
            a@.len() == b@.len(),
            forall|k: int| 0 <= k < i ==> a@[k] == b@[k],
        decreases a.len() - i,
    {
        if a[i] != b[i] {
            return false;
        }
        i = i + 1;
    }
    assert(a@ =~= b@);
    true
}

impl GameState {
    /// Create a new game with the given configuration. Without a seed, the
    /// seed is the first number of a fixed fallback generator.
    #[verifier::spinoff_prover]
    pub fn new_with_config(seed: Option<u64>, config: CachedConfig) -> (r: Self)
        requires
            config_startable(config@),
        ensures
            r.wf(),
            r@ == spec_new_game(seed, config@, Seq::empty()),
    {
        let actual_seed = match seed {
            Some(s) => s,
            None => {
                let mut fallback = GameRng::new(
                    0xcafe_f00d_d15e_a5e5,
                    0xa02b_dbf7_bb3c_0a7a_c28f_5c28_f5c2_8f5c,
                );
                fallback.next_u64()
            },
        };
        let mut rng = GameRng::new(actual_seed as u128, 0xa02b_dbf7_bb3c_0a7a_c28f_5c28_f5c2_8f5c);
        let ghost rng0 = rng@;
        let deck_size = config.rules.general.starting_deck_size;
        let mut cards = create_starter_deck(deck_size, &mut rng, &config.effect_types);
        let ghost deck = entries_view(cards@);
        let ghost r1 = rng@;
        proof {
            lemma_starter_total(deck_size as nat, starter_formula(config@), rng0);
        }
        let hand_size = config.rules.general.starting_hand_size;
        let mut i: u32 = 0;
        while i < hand_size
            invariant
                i <= hand_size,
                total_copies(entries_view(cards@)) == deck_size,
                (entries_view(cards@), rng@) == spec_draw_n(deck, i as nat, r1),
            decreases hand_size - i,
        {
            draw_from_deck(&mut cards, &mut rng);
            i = i + 1;
        }
        let mut tokens = TokenBalances::new();
        tokens.add(TokenType::DeckSlots, deck_size);
        let mut state = GameState {
            cards,
            tokens,
            active_contract: None,
            offered_contracts: Vec::new(),
            contract_turns_played: 0,
            cards_played_per_tag_contract: TagCounts::new(),
            rng,
            seed: actual_seed,
            cached_config: config,
            action_log: ActionLog::new(),
            metrics_tracker: MetricsTracker::new(),
            pending_drafts: Vec::new(),
        };
        proof {
            let th = config@.rules.general.contracts_per_tier_to_advance;
            assert(completed_in(state@.tokens, 0) == 0);
            assert(is_top_tier(state@.tokens, th, 0));
            lemma_top_tier_unique(state@.tokens, th, 0, top_tier(state@.tokens, th));
            assert(tiers_view(state.offered_contracts@) =~= Seq::<TierContractsSpec>::empty());
            assert(drafts_view(state.pending_drafts@) =~= Seq::<ContractDraftSpec>::empty());
        }
        state.refill_contract_market();
        state
    }

    /// Create a new game from the rules and the token definitions.
    pub fn new_with_rules(seed: Option<u64>, rules: GameRulesConfig, token_defs: &TokenDefinitionsConfig) -> (r: Self)
        requires
            crate::effect_types::all_items(
                crate::config::token_defs_view(token_defs.tokens@),
                token_defs.tokens@.len() as int,
            ).len() <= u32::MAX,
            config_startable(
                ConfigSpec {
                    rules,
                    types: crate::effect_types::spec_generate_effect_types(
                        crate::config::token_defs_view(token_defs.tokens@),
                        token_defs.variation_settings.items_per_tier,
                    ),
                    ratio_is_rolled: token_defs.variation_settings.ratio_is_rolled,
                },
            ),
        ensures
            r.wf(),
            r@ == spec_new_game(
                seed,
                ConfigSpec {
                    rules,
                    types: crate::effect_types::spec_generate_effect_types(
                        crate::config::token_defs_view(token_defs.tokens@),
                        token_defs.variation_settings.items_per_tier,
                    ),
                    ratio_is_rolled: token_defs.variation_settings.ratio_is_rolled,
                },
                Seq::empty(),
            ),
    {
        let config = crate::config::build_cached_config(rules, token_defs);
        GameState::new_with_config(seed, config)
    }

    fn handle_new_game(&mut self, seed: Option<u64>) -> (r: ActionResult)
        requires
            old(self).wf(),
            config_startable(old(self)@.config),
        ensures
            final(self).wf(),
            final(self)@ == spec_new_game(
                seed,
                old(self)@.config,
                seq![ActionEntry { seq: 0, action: PlayerAction::NewGame { seed } }],
            ),
            r@ == ActionResultSpec::Success(ActionSuccessSpec::NewGameStarted { seed: final(self)@.seed }),
    {
        let mut config = CachedConfig::placeholder(
            self.cached_config.rules,
            self.cached_config.variation_settings,
        );
        std::mem::swap(&mut config, &mut self.cached_config);
        let mut log = ActionLog::new();
        std::mem::swap(&mut log, &mut self.action_log);
        log.clear();
        log.append(PlayerAction::NewGame { seed });
        let mut fresh = GameState::new_with_config(seed, config);
        fresh.action_log = log;
        proof {
            assert(fresh.action_log@ =~= seq![ActionEntry { seq: 0, action: PlayerAction::NewGame { seed } }]);
        }
        *self = fresh;
        ActionResult::Success(ActionSuccess::NewGameStarted { seed: self.seed })
    }

    #[verifier::spinoff_prover]
    fn handle_accept_contract(&mut self, tier_index: usize, contract_index: usize) -> (r: ActionResult)
        requires
            old(self).wf(),
            accept_fits(old(self)@, tier_index, contract_index),
        ensures
            final(self).wf(),
            (final(self)@, r@) == spec_accept(old(self)@, tier_index, contract_index),
    {
        if self.active_contract.is_some() {
            return ActionResult::Error(ActionError::ContractAlreadyActive);
        }
        if tier_index >= self.offered_contracts.len() {
            return ActionResult::Error(ActionError::InvalidTierIndex { tier_index });
        }
        if contract_index >= self.offered_contracts[tier_index].contracts.len() {
            return ActionResult::Error(ActionError::InvalidContractIndex { tier_index, contract_index });
        }
        let ghost ov = tiers_view(self.offered_contracts@);
        let mut group = self.offered_contracts.remove(tier_index);
        let ghost gc = contracts_view(group.contracts@);
        let contract = group.contracts.remove(contract_index);
        proof {
            assert(contracts_view(group.contracts@) =~= gc.remove(contract_index as int));
        }
        if group.contracts.len() > 0 {
            self.offered_contracts.insert(tier_index, group);
            proof {
                assert(tiers_view(self.offered_contracts@) =~= ov.update(
                    tier_index as int,
                    TierContractsSpec { tier: ov[tier_index as int].tier, contracts: gc.remove(contract_index as int) },
                ));
            }
        } else {
            proof {
                assert(tiers_view(self.offered_contracts@) =~= ov.remove(tier_index as int));
            }
        }
        self.metrics_tracker.record_contract_accepted(contract.tier.0);
        self.contract_turns_played = 0;
        self.cards_played_per_tag_contract.clear();
        self.active_contract = Some(contract);
        ActionResult::Success(ActionSuccess::ContractAccepted)
    }

    #[verifier::spinoff_prover]
    fn handle_play_card(&mut self, card_index: usize) -> (r: ActionResult)
        requires
            old(self).wf(),
            play_fits(old(self)@, card_index),
        ensures
            final(self).wf(),
            (final(self)@, r@) == spec_play(old(self)@, card_index),
    {
        if self.active_contract.is_none() {
            return ActionResult::Error(ActionError::NoActiveContract);
        }
        if card_index >= self.cards.len() || self.cards[card_index].counts.hand == 0 {
            return ActionResult::Error(ActionError::InvalidCardIndex { index: card_index });
        }
        let ghost m0 = self@;
        let card = self.cards[card_index].card.duplicate();
        let banned = match &self.active_contract {
            Some(c) => banned_card_tag(&card.tags, &c.requirements, &self.cards_played_per_tag_contract),
            None => None,
        };
        if let Some(tag) = banned {
            return ActionResult::Error(ActionError::CardTagBanned { tag });
        }
        let missing = get_missing_tokens_for_effects(&self.tokens, &card.effects);
        if missing.len() > 0 {
            return ActionResult::Error(ActionError::InsufficientTokens { missing });
        }
        apply_effects(&mut self.tokens, &card.effects);
        count_tags(&mut self.cards_played_per_tag_contract, card.tags.as_slice());
        let (produced, consumed) = collect_effect_token_flow(&card.effects);
        self.metrics_tracker.record_card_played(
            card.tags.as_slice(),
            produced.as_slice(),
            consumed.as_slice(),
        );
        move_to_discard(&mut self.cards, card_index);
        self.contract_turns_played = self.contract_turns_played + 1;
        draw_from_deck(&mut self.cards, &mut self.rng);
        let contract_resolution = self.try_resolve_contract();
        ActionResult::Success(ActionSuccess::CardPlayed { contract_resolution })
    }

    #[verifier::spinoff_prover]
    fn handle_discard_card(&mut self, card_index: usize) -> (r: ActionResult)
        requires
            old(self).wf(),
            discard_fits(old(self)@, card_index),
        ensures
            final(self).wf(),
            (final(self)@, r@) == spec_discard(old(self)@, card_index),
    {
        if self.active_contract.is_none() {
            return ActionResult::Error(ActionError::NoActiveContract);
        }
        if card_index >= self.cards.len() || self.cards[card_index].counts.hand == 0 {
            return ActionResult::Error(ActionError::InvalidCardIndex { index: card_index });
        }
        move_to_discard(&mut self.cards, card_index);
        let bonus = self.cached_config.rules.general.discard_production_unit_bonus;
        self.tokens.add(TokenType::ProductionUnit, bonus);
        let mut produced: Vec<(TokenType, u32)> = Vec::new();
        produced.push((TokenType::ProductionUnit, bonus));
        proof {
            assert(produced@ =~= seq![(TokenType::ProductionUnit, bonus)]);
        }
        self.metrics_tracker.record_card_discarded(produced.as_slice());
        self.contract_turns_played = self.contract_turns_played + 1;
        draw_from_deck(&mut self.cards, &mut self.rng);
        let contract_resolution = self.try_resolve_contract();
        ActionResult::Success(ActionSuccess::CardDiscarded { contract_resolution })
    }

    #[verifier::spinoff_prover]
    fn handle_replace_card(
        &mut self,
        target_card_index: usize,
        replacement_card_index: usize,
        sacrifice_card_index: usize,
    ) -> (r: ActionResult)
        requires
            old(self).wf(),
            replace_fits(old(self)@),
        ensures
            final(self).wf(),
            (final(self)@, r@) == spec_replace(
                old(self)@,
                target_card_index,
                replacement_card_index,
                sacrifice_card_index,
            ),
    {
        if self.active_contract.is_some() {
            return ActionResult::Error(ActionError::ContractActiveForDeckbuilding);
        }
        let card_count = self.cards.len();
        if target_card_index >= card_count {
            return ActionResult::Error(ActionError::InvalidTargetCardIndex { index: target_card_index });
        }
        let use_deck = self.cards[target_card_index].counts.deck > 0;
        let use_discard = self.cards[target_card_index].counts.discard > 0;
        if !use_deck && !use_discard {
            return ActionResult::Error(ActionError::NoTargetCopies { index: target_card_index });
        }
        if replacement_card_index >= card_count {
            return ActionResult::Error(
                ActionError::InvalidReplacementCardIndex { index: replacement_card_index },
            );
        }
        if !self.cards[replacement_card_index].counts.has_shelved() {
            return ActionResult::Error(ActionError::NoShelvedCopies { index: replacement_card_index });
        }
        if sacrifice_card_index >= card_count {
            return ActionResult::Error(
                ActionError::InvalidSacrificeCardIndex { index: sacrifice_card_index },
            );
        }
        if sacrifice_card_index == target_card_index
            && !self.cards[sacrifice_card_index].counts.has_shelved() {
            return ActionResult::Error(ActionError::SacrificeIsTarget { index: sacrifice_card_index });
        }
        if !self.cards[sacrifice_card_index].counts.has_shelved() {
            return ActionResult::Error(ActionError::NoSacrificeCopies { index: sacrifice_card_index });
        }
        if sacrifice_card_index == replacement_card_index
            && self.cards[sacrifice_card_index].counts.shelved < 2 {
            return ActionResult::Error(ActionError::NoSacrificeCopies { index: sacrifice_card_index });
        }
        let ghost c0 = entries_view(self.cards@);
        let ghost n = c0.len() as int;
        proof {
            lemma_sums_bounded(c0, n);
        }
        let t = self.cards[target_card_index].counts;
        let tc = if use_deck {
            CardCounts { deck: t.deck - 1, shelved: t.shelved + 1, ..t }
        } else {
            CardCounts { discard: t.discard - 1, shelved: t.shelved + 1, ..t }
        };
        set_counts(&mut self.cards, target_card_index, tc);
        let ghost c1 = entries_view(self.cards@);
        proof {
            crate::card_moves::lemma_sums_update(c0, target_card_index as int, c1[target_card_index as int], n);
            lemma_sums_bounded(c1, n);
        }
        assert(self.cards@.len() == entries_view(self.cards@).len());
        let r = self.cards[replacement_card_index].counts;
        set_counts(
            &mut self.cards,
            replacement_card_index,
            CardCounts { shelved: r.shelved - 1, deck: r.deck + 1, ..r },
        );
        let ghost c2 = entries_view(self.cards@);
        proof {
            crate::card_moves::lemma_sums_update(c1, replacement_card_index as int, c2[replacement_card_index as int], n);
            lemma_sums_bounded(c2, n);
        }
        assert(self.cards@.len() == entries_view(self.cards@).len());
        let s = self.cards[sacrifice_card_index].counts;
        set_counts(&mut self.cards, sacrifice_card_index, CardCounts { shelved: s.shelved - 1, ..s });
        let ghost c3 = entries_view(self.cards@);
        proof {
            crate::card_moves::lemma_sums_update(c2, sacrifice_card_index as int, c3[sacrifice_card_index as int], n);
            lemma_sums_bounded(c3, n);
            assert(cards_total(c1, n) == cards_total(c0, n));
            assert(cards_total(c2, n) == cards_total(c1, n));
            assert(cards_total(c3, n) == cards_total(c2, n) - 1);
            assert(cards_total(c3, n) <= u32::MAX);
            assert forall|i: int| 0 <= i < self.cards@.len() implies (#[trigger] self.cards@[i]).counts.spec_total() <= u32::MAX by {
                assert(c3.len() == n);
                assert(c3[i].counts == self.cards@[i].counts);
                assert(c3[i].counts.spec_total() <= cards_total(c3, n));
            }
        }
        retain_nonempty(&mut self.cards);
        self.metrics_tracker.record_card_replaced();
        ActionResult::Success(ActionSuccess::CardReplaced)
    }

    #[verifier::spinoff_prover]
    fn handle_abandon_contract(&mut self) -> (r: ActionResult)
        requires
            old(self).wf(),
            abandon_fits(old(self)@),
        ensures
            final(self).wf(),
            (final(self)@, r@) == spec_abandon(old(self)@),
    {
        let contract = match &self.active_contract {
            Some(c) => c.duplicate(),
            None => {
                return ActionResult::Error(ActionError::NoContractToAbandon);
            },
        };
        let turns_required = self.cached_config.rules.general.min_turns_before_abandon;
        if self.contract_turns_played < turns_required {
            return ActionResult::Error(
                ActionError::AbandonContractNotAllowed {
                    turns_played: self.contract_turns_played,
                    turns_required,
                },
            );
        }
        let turns_played = self.contract_turns_played;
        self.metrics_tracker.record_contract_abandoned(contract.tier.0);
        self.clear_contract();
        self.refill_contract_market();
        let reason = ContractFailureReason::Abandoned { turns_played };
        let contract_resolution = ContractResolution::Failed { contract, reason };
        ActionResult::Success(ActionSuccess::ContractAbandoned { contract_resolution })
    }

    /// Process a player action and return the result. The action is logged
    /// first, whatever its outcome; a new game clears the log, which then
    /// holds only the new game's own entry.
    #[verifier::spinoff_prover]
    pub fn dispatch(&mut self, action: PlayerAction) -> (r: ActionResult)
        requires
            old(self).wf(),
            dispatch_fits(old(self)@, action),
        ensures
            final(self).wf(),
            (final(self)@, r@) == spec_dispatch(old(self)@, action),
    {
        self.action_log.append(action);
        match action {
            PlayerAction::NewGame { seed } => self.handle_new_game(seed),
            PlayerAction::AcceptContract { tier_index, contract_index } => {
                self.handle_accept_contract(tier_index, contract_index)
            },
            PlayerAction::PlayCard { card_index } => self.handle_play_card(card_index),
            PlayerAction::DiscardCard { card_index } => self.handle_discard_card(card_index),
            PlayerAction::ReplaceCard {
                target_card_index,
                replacement_card_index,
                sacrifice_card_index,
            } => self.handle_replace_card(
                target_card_index,
                replacement_card_index,
                sacrifice_card_index,
            ),
            PlayerAction::AbandonContract => self.handle_abandon_contract(),
        }
    }

    /// Places the contracts finished from the pending drafts into the market,
    /// in order, when they correspond to the drafts; otherwise changes nothing.
    #[verifier::spinoff_prover]
    pub fn place_generated(&mut self, contracts: Vec<Contract>) -> (r: bool)
        requires
            old(self).wf(),
        ensures
            final(self).wf(),
            r == contracts_finish_drafts(contracts_view(contracts@), old(self)@.pending),
            r ==> final(self)@ == (GameModel {
                offered: placed_all(old(self)@.offered, contracts_view(contracts@)),
                pending: Seq::empty(),
                ..old(self)@
            }),
            !r ==> final(self)@ == old(self)@,
    {
        let ghost cs = contracts_view(contracts@);
        let ghost ds = self@.pending;
        if contracts.len() != self.pending_drafts.len() {
            return false;
        }
        let mut i: usize = 0;
        while i < contracts.len()
            invariant
                i <= contracts@.len(),
                contracts@.len() == self.pending_drafts@.len(),
                self.wf(),
                self@ == old(self)@,
                cs == contracts_view(contracts@),
                ds == drafts_view(self.pending_drafts@),
                forall|k: int|
                    0 <= k < i ==> {
                        &&& (#[trigger] cs[k]).tier == ds[k].tier
                        &&& cs[k].requirements.len() == ds[k].requirements.len()
                        &&& cs[k].reward_card.tags == ds[k].reward_card.tags
                        &&& cs[k].reward_card.effects.len() == ds[k].reward_card.effects.len()
                    },
            decreases contracts.len() - i,
        {
            let c = &contracts[i];
            let d = &self.pending_drafts[i];
            assert(cs[i as int] == c@ && ds[i as int] == d@);
            if c.tier.0 != d.tier.0 || c.requirements.len() != d.requirements.len()
                || !same_tags(&c.reward_card.tags, &d.reward_card.tags)
                || c.reward_card.effects.len() != d.reward_card.effects.len() {
                return false;
            }
            i = i + 1;
        }
        let ghost o0 = self@.offered;
        let mut j: usize = 0;
        while j < contracts.len()
            invariant
                j <= contracts@.len(),
                cs == contracts_view(contracts@),
                self.wf(),
                o0 == old(self)@.offered,
                self@ == (GameModel { offered: placed_all(o0, cs.take(j as int)), ..old(self)@ }),
            decreases contracts.len() - j,
        {
            let c = contracts[j].duplicate();
            place_contract(&mut self.offered_contracts, c);
            proof {
                assert(cs.take(j + 1).drop_last() =~= cs.take(j as int));
                assert(cs.take(j + 1).last() == cs[j as int]);
            }
            j = j + 1;
        }
        proof {
            assert(cs.take(contracts@.len() as int) =~= cs);
        }
        self.pending_drafts = Vec::new();
        proof {
            assert(drafts_view(self.pending_drafts@) =~= Seq::<ContractDraftSpec>::empty());
        }
        true
    }
}


// ---------------------------------------------------------------------------
// Read-only views
// ---------------------------------------------------------------------------

/// A read-only snapshot of the game state.
pub struct GameStateView {
    pub seed: u64,
    pub cards: Vec<CardEntry>,
    pub tokens: Vec<TokenAmount>,
    pub active_contract: Option<Contract>,
    pub contract_turns_played: u32,
    pub offered_contracts: Vec<TierContracts>,
    /// Cards played per tag during the current contract, in tag-name order.
    pub cards_played_per_tag_contract: Vec<CardTagCount>,
}

/// A borrowed view of the state for strategy evaluation, without copying.
pub struct StrategyView<'a> {
    pub seed: u64,
    pub cards: &'a Vec<CardEntry>,
    pub tokens: &'a TokenBalances,
    pub active_contract: &'a Option<Contract>,
    pub contract_turns_played: u32,
    pub offered_contracts: &'a Vec<TierContracts>,
    pub cards_played_per_tag_contract: &'a TagCounts,
}

/// Token balances grouped by tag category.
pub struct PlayerTokensView {
    pub beneficial: Vec<TokenAmount>,
    pub harmful: Vec<TokenAmount>,
    pub progression: Vec<TokenAmount>,
}

/// An inclusive range of valid indices.
#[derive(Clone, Copy, Debug, PartialEq, Eq, Structural)]
pub struct IndexRange {
    pub min: usize,
    pub max: usize,
}

/// The valid contract index range within a single tier.
#[derive(Clone, Copy, Debug, PartialEq, Eq, Structural)]
pub struct TierContractRange {
    pub tier_index: usize,
    pub valid_contract_index_range: IndexRange,
}

/// A compact descriptor of what actions the player can take: each variant
/// describes the valid parameter ranges for its action type.
#[derive(Debug)]
pub enum PossibleAction {
    NewGame,
    /// The card indices that can be played given tag limits and the hand.
    PlayCard { valid_card_indices: Vec<usize> },
    /// The card indices with copies in hand.
    DiscardCard { valid_card_indices: Vec<usize> },
    AcceptContract { valid_tiers: Vec<TierContractRange> },
    ReplaceCard,
    /// Available once the active contract has run the minimum number of turns.
    AbandonContract,
}

pub enum PossibleActionSpec {
    NewGame,
    PlayCard { valid_card_indices: Seq<usize> },
    DiscardCard { valid_card_indices: Seq<usize> },
    AcceptContract { valid_tiers: Seq<TierContractRange> },
    ReplaceCard,
    AbandonContract,
}

impl View for PossibleAction {
    type V = PossibleActionSpec;

    open spec fn view(&self) -> PossibleActionSpec {
        match self {
            PossibleAction::NewGame => PossibleActionSpec::NewGame,
            PossibleAction::PlayCard { valid_card_indices } => PossibleActionSpec::PlayCard {
                valid_card_indices: valid_card_indices@,
            },
            PossibleAction::DiscardCard { valid_card_indices } => PossibleActionSpec::DiscardCard {
                valid_card_indices: valid_card_indices@,
            },
            PossibleAction::AcceptContract { valid_tiers } => PossibleActionSpec::AcceptContract {
                valid_tiers: valid_tiers@,
            },
            PossibleAction::ReplaceCard => PossibleActionSpec::ReplaceCard,
            PossibleAction::AbandonContract => PossibleActionSpec::AbandonContract,
        }
    }
}

pub open spec fn possible_actions_view(v: Seq<PossibleAction>) -> Seq<PossibleActionSpec> {
    v.map_values(|a: PossibleAction| a@)
}

/// Indices below `k` of the entries with copies in hand, ascending.
pub open spec fn hand_indices(cards: Seq<EntrySpec>, k: int) -> Seq<usize>
    decreases k,
{
    if k <= 0 {
        Seq::empty()
    } else if cards[k - 1].counts.hand > 0 {
        hand_indices(cards, k - 1).push((k - 1) as usize)
    } else {
        hand_indices(cards, k - 1)
    }
}

/// Indices below `k` of the entries in hand whose tags are not capped, ascending.
pub open spec fn playable_indices(m: GameModel, k: int) -> Seq<usize>
    decreases k,
{
    if k <= 0 {
        Seq::empty()
    } else if m.cards[k - 1].counts.hand > 0 && match m.active {
        Some(c) => banned_tag_from(m.cards[k - 1].card.tags, c.requirements, m.tag_counts, 0) is None,
        None => true,
    } {
        playable_indices(m, k - 1).push((k - 1) as usize)
    } else {
        playable_indices(m, k - 1)
    }
}

/// The market tiers below `k` that hold offers, with their index ranges.
pub open spec fn tier_ranges(offered: Seq<TierContractsSpec>, k: int) -> Seq<TierContractRange>
    decreases k,
{
    if k <= 0 {
        Seq::empty()
    } else if offered[k - 1].contracts.len() > 0 {
        tier_ranges(offered, k - 1).push(
            TierContractRange {
                tier_index: (k - 1) as usize,
                valid_contract_index_range: IndexRange {
                    min: 0,
                    max: (offered[k - 1].contracts.len() - 1) as usize,
                },
            },
        )
    } else {
        tier_ranges(offered, k - 1)
    }
}

pub open spec fn any_shelved(cards: Seq<EntrySpec>) -> bool {
    exists|i: int| 0 <= i < cards.len() && #[trigger] cards[i].counts.shelved > 0
}

pub open spec fn any_in_cycle(cards: Seq<EntrySpec>) -> bool {
    exists|i: int| 0 <= i < cards.len() && (#[trigger] cards[i].counts.deck > 0 || cards[i].counts.discard > 0)
}

pub open spec fn any_in_hand(cards: Seq<EntrySpec>) -> bool {
    exists|i: int| 0 <= i < cards.len() && #[trigger] cards[i].counts.hand > 0
}

/// The actions the player can take in state `m`.
pub open spec fn spec_possible_actions(m: GameModel) -> Seq<PossibleActionSpec> {
    let base = seq![PossibleActionSpec::NewGame];
    let n = m.cards.len() as int;
    if m.active is Some {
        let with_cards = if any_in_hand(m.cards) {
            let play = playable_indices(m, n);
            let a1 = if play.len() > 0 {
                base.push(PossibleActionSpec::PlayCard { valid_card_indices: play })
            } else {
                base
            };
            let disc = hand_indices(m.cards, n);
            if disc.len() > 0 {
                a1.push(PossibleActionSpec::DiscardCard { valid_card_indices: disc })
            } else {
                a1
            }
        } else {
            base
        };
        if m.turns >= m.config.rules.general.min_turns_before_abandon {
            with_cards.push(PossibleActionSpec::AbandonContract)
        } else {
            with_cards
        }
    } else {
        let tiers = tier_ranges(m.offered, m.offered.len() as int);
        let a1 = if tiers.len() > 0 {
            base.push(PossibleActionSpec::AcceptContract { valid_tiers: tiers })
        } else {
            base
        };
        if any_shelved(m.cards) && any_in_cycle(m.cards) {
            a1.push(PossibleActionSpec::ReplaceCard)
        } else {
            a1
        }
    }
}

/// The balances, above zero, of tokens carrying `tag`, in token order.
pub open spec fn tokens_tagged(s: Seq<TokenAmount>, tag: TokenTag) -> Seq<TokenAmount> {
    s.filter(|ta: TokenAmount| ta.amount > 0 && spec_token_tags(ta.token_type).contains(tag))
}

proof fn lemma_tokens_tagged_step(s: Seq<TokenAmount>, tag: TokenTag, i: int)
    requires
        0 <= i < s.len(),
    ensures
        tokens_tagged(s.take(i + 1), tag) == (if s[i].amount > 0 && spec_token_tags(
            s[i].token_type,
        ).contains(tag) {
            tokens_tagged(s.take(i), tag).push(s[i])
        } else {
            tokens_tagged(s.take(i), tag)
        }),
{
    reveal(Seq::filter);
    assert(s.take(i + 1).drop_last() =~= s.take(i));
}

fn has_token_tag(t: TokenType, tag: TokenTag) -> (r: bool)
    ensures
        r == spec_token_tags(t).contains(tag),
{
    let tags = t.tags();
    let mut i: usize = 0;
    while i < tags.len()
        invariant
            i <= tags@.len(),
            tags@ == spec_token_tags(t),
            forall|k: int| 0 <= k < i ==> tags@[k] != tag,
        decreases tags.len() - i,
    {
        if tags[i] == tag {
            return true;
        }
        i = i + 1;
    }
    false
}

fn tokens_with_tag(entries: &Vec<TokenAmount>, tag: TokenTag) -> (r: Vec<TokenAmount>)
    ensures
        r@ == tokens_tagged(entries@, tag),
{
    let mut r: Vec<TokenAmount> = Vec::new();
    let mut i: usize = 0;
    while i < entries.len()
        invariant
            i <= entries@.len(),
            r@ == tokens_tagged(entries@.take(i as int), tag),
        decreases entries.len() - i,
    {
        proof {
            lemma_tokens_tagged_step(entries@, tag, i as int);
        }
        let ta = entries[i];
        if ta.amount > 0 && has_token_tag(ta.token_type, tag) {
            r.push(ta);
        }
        i = i + 1;
    }
    proof {
        assert(entries@.take(entries@.len() as int) =~= entries@);
    }
    r
}

fn copy_entries(v: &Vec<CardEntry>) -> (r: Vec<CardEntry>)
    ensures
        entries_view(r@) == entries_view(v@),
{
    let mut r: Vec<CardEntry> = Vec::new();
    let mut i: usize = 0;
    while i < v.len()
        invariant
            i <= v@.len(),
            entries_view(r@) == entries_view(v@).take(i as int),
        decreases v.len() - i,
    {
        let ghost before = entries_view(r@);
        let e = CardEntry { card: v[i].card.duplicate(), counts: v[i].counts };
        let ghost ev = e@;
        r.push(e);
        proof {
            assert(entries_view(r@) =~= before.push(ev));
            assert(entries_view(v@).take(i + 1) =~= entries_view(v@).take(i as int).push(ev));
        }
        i = i + 1;
    }
    proof {
        assert(entries_view(v@).take(v@.len() as int) =~= entries_view(v@));
    }
    r
}

fn copy_contracts(v: &Vec<Contract>) -> (r: Vec<Contract>)
    ensures
        contracts_view(r@) == contracts_view(v@),
{
    let mut r: Vec<Contract> = Vec::new();
    let mut i: usize = 0;
    while i < v.len()
        invariant
            i <= v@.len(),
            contracts_view(r@) == contracts_view(v@).take(i as int),
        decreases v.len() - i,
    {
        let ghost before = contracts_view(r@);
        let c = v[i].duplicate();
        let ghost cv = c@;
        r.push(c);
        proof {
            assert(contracts_view(r@) =~= before.push(cv));
            assert(contracts_view(v@).take(i + 1) =~= contracts_view(v@).take(i as int).push(cv));
        }
        i = i + 1;
    }
    proof {
        assert(contracts_view(v@).take(v@.len() as int) =~= contracts_view(v@));
    }
    r
}

fn copy_market(v: &Vec<TierContracts>) -> (r: Vec<TierContracts>)
    ensures
        tiers_view(r@) == tiers_view(v@),
{
    let mut r: Vec<TierContracts> = Vec::new();
    let mut i: usize = 0;
    while i < v.len()
        invariant
            i <= v@.len(),
            tiers_view(r@) == tiers_view(v@).take(i as int),
        decreases v.len() - i,
    {
        let ghost before = tiers_view(r@);
        let g = TierContracts { tier: v[i].tier, contracts: copy_contracts(&v[i].contracts) };
        let ghost gv = g@;
        r.push(g);
        proof {
            assert(tiers_view(r@) =~= before.push(gv));
            assert(tiers_view(v@).take(i + 1) =~= tiers_view(v@).take(i as int).push(gv));
        }
        i = i + 1;
    }
    proof {
        assert(tiers_view(v@).take(v@.len() as int) =~= tiers_view(v@));
    }
    r
}

/// The entries of `cards` whose card carries `tag` (all entries without a tag).
pub open spec fn entries_with_tag(cards: Seq<EntrySpec>, tag: Option<CardTag>) -> Seq<EntrySpec> {
    match tag {
        Some(t) => cards.filter(|e: EntrySpec| e.card.tags.contains(t)),
        None => cards,
    }
}

/// Library listing: the card entries, optionally only those with a given tag.
#[verifier::spinoff_prover]
pub fn filter_cards_by_tag(cards: &Vec<CardEntry>, tag: Option<CardTag>) -> (r: Vec<CardEntry>)
    ensures
        entries_view(r@) == entries_with_tag(entries_view(cards@), tag),
{
    match tag {
        None => copy_entries(cards),
        Some(t) => {
            let ghost v = entries_view(cards@);
            let mut r: Vec<CardEntry> = Vec::new();
            let mut i: usize = 0;
            while i < cards.len()
                invariant
                    i <= cards@.len(),
                    v == entries_view(cards@),
                    entries_view(r@) == v.take(i as int).filter(|e: EntrySpec| e.card.tags.contains(t)),
                decreases cards.len() - i,
            {
                proof {
                    reveal(Seq::filter);
                    assert(v.take(i + 1).drop_last() =~= v.take(i as int));
                }
                let found = crate::contract_generation::tags_contain(&cards[i].card.tags, t);
                assert(v[i as int].card.tags == cards@[i as int].card.tags@);
                if found {
                    let ghost before = entries_view(r@);
                    r.push(CardEntry { card: cards[i].card.duplicate(), counts: cards[i].counts });
                    proof {
                        assert(entries_view(r@) =~= before.push(v[i as int]));
                    }
                }
                i = i + 1;
            }
            proof {
                assert(v.take(cards@.len() as int) =~= v);
            }
            r
        },
    }
}

impl GameState {
    /// A read-only snapshot of the state: balances in token order, tag
    /// counts of the contract in tag-name order.
    pub fn snapshot(&self) -> (r: GameStateView)
        requires
            self.wf(),
        ensures
            r.seed == self@.seed,
            entries_view(r.cards@) == self@.cards,
            r.tokens@ == sorted_listing(self@.tokens),
            contract_opt_view(r.active_contract) == self@.active,
            r.contract_turns_played == self@.turns,
            tiers_view(r.offered_contracts@) == self@.offered,
            r.cards_played_per_tag_contract@ == tag_listing(self@.tag_counts),
    {
        proof {
            crate::game_rules::lemma_listing_is_sorted_listing(self.tokens);
        }
        let tokens = crate::types::copy_vec(self.tokens.entries());
        let active_contract = match &self.active_contract {
            Some(c) => Some(c.duplicate()),
            None => None,
        };
        GameStateView {
            seed: self.seed,
            cards: copy_entries(&self.cards),
            tokens,
            active_contract,
            contract_turns_played: self.contract_turns_played,
            offered_contracts: copy_market(&self.offered_contracts),
            cards_played_per_tag_contract: self.cards_played_per_tag_contract.listing(),
        }
    }

    /// A borrowed view of the state, for strategy evaluation.
    pub fn view_for_scoring(&self) -> (r: StrategyView<'_>)
        ensures
            r.seed == self@.seed,
            entries_view(r.cards@) == self@.cards,
            r.tokens@ == self@.tokens,
            contract_opt_view(*r.active_contract) == self@.active,
            r.contract_turns_played == self@.turns,
            tiers_view(r.offered_contracts@) == self@.offered,
            r.cards_played_per_tag_contract@ == self@.tag_counts,
    {
        StrategyView {
            seed: self.seed,
            cards: &self.cards,
            tokens: &self.tokens,
            active_contract: &self.active_contract,
            contract_turns_played: self.contract_turns_played,
            offered_contracts: &self.offered_contracts,
            cards_played_per_tag_contract: &self.cards_played_per_tag_contract,
        }
    }

    /// Token balances above zero grouped by tag: beneficial, harmful,
    /// progression, each in token order.
    pub fn tokens_view(&self) -> (r: PlayerTokensView)
        requires
            self.wf(),
        ensures
            r.beneficial@ == tokens_tagged(sorted_listing(self@.tokens), TokenTag::Beneficial),
            r.harmful@ == tokens_tagged(sorted_listing(self@.tokens), TokenTag::Harmful),
            r.progression@ == tokens_tagged(sorted_listing(self@.tokens), TokenTag::Progression),
    {
        proof {
            crate::game_rules::lemma_listing_is_sorted_listing(self.tokens);
        }
        let entries = self.tokens.entries();
        PlayerTokensView {
            beneficial: tokens_with_tag(entries, TokenTag::Beneficial),
            harmful: tokens_with_tag(entries, TokenTag::Harmful),
            progression: tokens_with_tag(entries, TokenTag::Progression),
        }
    }

    fn hand_card_indices(&self) -> (r: Vec<usize>)
        ensures
            r@ == hand_indices(self@.cards, self@.cards.len() as int),
    {
        let ghost v = self@.cards;
        let mut r: Vec<usize> = Vec::new();
        let mut i: usize = 0;
        while i < self.cards.len()
            invariant
                i <= self.cards@.len(),
                v == self@.cards,
                r@ == hand_indices(v, i as int),
            decreases self.cards.len() - i,
        {
            assert(v[i as int].counts == self.cards@[i as int].counts);
            if self.cards[i].counts.hand > 0 {
                r.push(i);
            }
            i = i + 1;
        }
        r
    }

    /// The card indices that may currently be played: copies in hand, and no
    /// tag capped by an active CardTagConstraint.
    pub fn playable_card_indices(&self) -> (r: Vec<usize>)
        requires
            self.wf(),
        ensures
            r@ == playable_indices(self@, self@.cards.len() as int),
    {
        let ghost m = self@;
        let mut r: Vec<usize> = Vec::new();
        let mut i: usize = 0;
        while i < self.cards.len()
            invariant
                self.wf(),
                i <= self.cards@.len(),
                m == self@,
                r@ == playable_indices(m, i as int),
            decreases self.cards.len() - i,
        {
            assert(m.cards[i as int] == self.cards@[i as int]@);
            if self.cards[i].counts.hand > 0 {
                let allowed = match &self.active_contract {
                    Some(c) => banned_card_tag(
                        &self.cards[i].card.tags,
                        &c.requirements,
                        &self.cards_played_per_tag_contract,
                    ).is_none(),
                    None => true,
                };
                if allowed {
                    r.push(i);
                }
            }
            i = i + 1;
        }
        r
    }

    fn valid_tier_ranges(&self) -> (r: Vec<TierContractRange>)
        ensures
            r@ == tier_ranges(self@.offered, self@.offered.len() as int),
    {
        let ghost o = self@.offered;
        let mut r: Vec<TierContractRange> = Vec::new();
        let mut i: usize = 0;
        while i < self.offered_contracts.len()
            invariant
                i <= self.offered_contracts@.len(),
                o == self@.offered,
                r@ == tier_ranges(o, i as int),
            decreases self.offered_contracts.len() - i,
        {
            assert(o[i as int] == self.offered_contracts@[i as int]@);
            let n = self.offered_contracts[i].contracts.len();
            if n > 0 {
                r.push(
                    TierContractRange {
                        tier_index: i,
                        valid_contract_index_range: IndexRange { min: 0, max: n - 1 },
                    },
                );
            }
            i = i + 1;
        }
        r
    }

    fn any_entry(&self, what: u8) -> (r: bool)
        ensures
            what == 0 ==> r == any_in_hand(self@.cards),
            what == 1 ==> r == any_shelved(self@.cards),
            what >= 2 ==> r == any_in_cycle(self@.cards),
    {
        let ghost v = self@.cards;
        let mut i: usize = 0;
        while i < self.cards.len()
            invariant
                i <= self.cards@.len(),
                v == self@.cards,
                what == 0 ==> forall|k: int| 0 <= k < i ==> v[k].counts.hand == 0,
                what == 1 ==> forall|k: int| 0 <= k < i ==> v[k].counts.shelved == 0,
                what >= 2 ==> forall|k: int| 0 <= k < i ==> v[k].counts.deck == 0 && v[k].counts.discard == 0,
            decreases self.cards.len() - i,
        {
            assert(v[i as int].counts == self.cards@[i as int].counts);
            let c = self.cards[i].counts;
            let hit = if what == 0 {
                c.hand > 0
            } else if what == 1 {
                c.shelved > 0
            } else {
                c.deck > 0 || c.discard > 0
            };
            if hit {
                return true;
            }
            i = i + 1;
        }
        false
    }

    /// Adds ReplaceCard when a shelved copy and a copy in the active cycle exist.
    fn add_replace_card_action(&self, actions: &mut Vec<PossibleAction>)
        ensures
            possible_actions_view(final(actions)@) == if any_shelved(self@.cards) && any_in_cycle(
                self@.cards,
            ) {
                possible_actions_view(old(actions)@).push(PossibleActionSpec::ReplaceCard)
            } else {
                possible_actions_view(old(actions)@)
            },
    {
        let has_shelved = self.any_entry(1);
        let has_target = self.any_entry(2);
        if has_shelved && has_target {
            let ghost before = possible_actions_view(actions@);
            actions.push(PossibleAction::ReplaceCard);
            proof {
                assert(possible_actions_view(actions@) =~= before.push(PossibleActionSpec::ReplaceCard));
            }
        }
    }

    /// Returns the list of valid actions in the current game state.
    #[verifier::spinoff_prover]
    pub fn possible_actions(&self) -> (r: Vec<PossibleAction>)
        requires
            self.wf(),
        ensures
            possible_actions_view(r@) == spec_possible_actions(self@),
    {
        let mut actions: Vec<PossibleAction> = Vec::new();
        actions.push(PossibleAction::NewGame);
        let ghost base = possible_actions_view(actions@);
        assert(base =~= seq![PossibleActionSpec::NewGame]);
        if self.active_contract.is_some() {
            if self.any_entry(0) {
                let play = self.playable_card_indices();
                if play.len() > 0 {
                    let ghost b = possible_actions_view(actions@);
                    actions.push(PossibleAction::PlayCard { valid_card_indices: play });
                    assert(possible_actions_view(actions@) =~= b.push(possible_actions_view(actions@).last()));
                }
                let discard = self.hand_card_indices();
                if discard.len() > 0 {
                    let ghost b = possible_actions_view(actions@);
                    actions.push(PossibleAction::DiscardCard { valid_card_indices: discard });
                    assert(possible_actions_view(actions@) =~= b.push(possible_actions_view(actions@).last()));
                }
            }
            if self.contract_turns_played >= self.cached_config.rules.general.min_turns_before_abandon {
                let ghost b = possible_actions_view(actions@);
                actions.push(PossibleAction::AbandonContract);
                assert(possible_actions_view(actions@) =~= b.push(PossibleActionSpec::AbandonContract));
            }
        } else {
            let valid_tiers = self.valid_tier_ranges();
            if valid_tiers.len() > 0 {
                let ghost b = possible_actions_view(actions@);
                actions.push(PossibleAction::AcceptContract { valid_tiers });
                assert(possible_actions_view(actions@) =~= b.push(possible_actions_view(actions@).last()));
            }
            self.add_replace_card_action(&mut actions);
        }
        actions
    }

    /// The action log.
    pub fn action_log(&self) -> (r: &ActionLog)
        ensures
            r@ == self@.log,
    {
        &self.action_log
    }

    /// The gameplay statistics of this session.
    pub fn metrics(&self) -> (r: &MetricsTracker)
        requires
            self.wf(),
        ensures
            r@ == self@.metrics,
            r.wf(),
    {
        &self.metrics_tracker
    }

    /// The contracts offered in the market, grouped by tier.
    pub fn offered_contracts(&self) -> (r: &Vec<TierContracts>)
        ensures
            tiers_view(r@) == self@.offered,
    {
        &self.offered_contracts
    }

    /// The active contract, if any.
    pub fn active_contract(&self) -> (r: Option<&Contract>)
        ensures
            match r {
                Some(c) => self@.active == Some(c@),
                None => self@.active is None,
            },
    {
        match &self.active_contract {
            Some(c) => Some(c),
            None => None,
        }
    }

    /// The card entries.
    pub fn cards(&self) -> (r: &Vec<CardEntry>)
        ensures
            entries_view(r@) == self@.cards,
    {
        &self.cards
    }

    /// The seed of this game.
    pub fn seed(&self) -> (r: u64)
        ensures
            r == self@.seed,
    {
        self.seed
    }

    /// The token balances.
    pub fn tokens(&self) -> (r: &TokenBalances)
        requires
            self.wf(),
        ensures
            r@ == self@.tokens,
            r.wf(),
    {
        &self.tokens
    }

    /// The contract drafts waiting to be finished and placed in the market.
    pub fn pending_drafts(&self) -> (r: &Vec<ContractDraft>)
        ensures
            drafts_view(r@) == self@.pending,
    {
        &self.pending_drafts
    }

    /// The configuration this game runs with.
    pub fn cached_config(&self) -> (r: &CachedConfig)
        ensures
            r@ == self@.config,
    {
        &self.cached_config
    }
}

} // verus!
