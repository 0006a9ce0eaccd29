//! Gameplay statistics tracking.
//!
//! `MetricsTracker` accumulates live counters during gameplay and resets on
//! `NewGame`. What it reports is listed in a fixed order: tiers ascending,
//! tags by play count (most played first), token flow by token type.

use vstd::prelude::*;

use crate::balances::{amount_of, tag_count_of, tag_slot, TagCounts, TokenBalances};
use crate::tier_stats::{
    bumped, counter_of, record_of, records_to_map, tiers_sorted, TierCounter, TierRecord, TierStats,
};
use crate::types::{token_key, CardTag, TokenType};

verus! {

/// Number of cards played with a specific tag.
#[derive(Clone, Copy, Debug, PartialEq, Eq, Structural)]
pub struct TagPlayCount {
    pub tag: CardTag,
    pub count: u32,
}

/// Token production/consumption flow for a single token type.
#[derive(Clone, Copy, Debug, PartialEq, Eq, Structural)]
pub struct TokenFlowMetrics {
    pub token_type: TokenType,
    pub total_produced: u32,
    pub total_consumed: u32,
    /// Net flow: produced − consumed (can be negative).
    pub net: i64,
}

/// The scalar counters of a tracker.
#[derive(Clone, Copy, Debug, PartialEq, Eq, Structural)]
pub struct MetricsSummary {
    pub total_contracts_completed: u32,
    pub total_contracts_failed: u32,
    pub total_contracts_abandoned: u32,
    pub total_cards_played: u32,
    pub total_cards_discarded: u32,
    pub cards_in_current_contract: u32,
    pub total_cards_across_completed: u32,
    pub current_streak: u32,
    pub best_streak: u32,
    pub total_cards_replaced: u32,
}

/// The mathematical value of a tracker.
pub struct MetricsModel {
    pub summary: MetricsSummary,
    pub tiers: Map<u32, TierRecord>,
    pub cards_per_tag: Map<CardTag, u32>,
    pub tokens_produced: Map<TokenType, u32>,
    pub tokens_consumed: Map<TokenType, u32>,
}

// ---------------------------------------------------------------------------
// Folding lists of counts into maps
// ---------------------------------------------------------------------------

/// `m` with every `(token, amount)` pair of `pairs` added, in order.
pub open spec fn flow_added(m: Map<TokenType, u32>, pairs: Seq<(TokenType, u32)>) -> Map<
    TokenType,
    u32,
>
    decreases pairs.len(),
{
    if pairs.len() == 0 {
        m
    } else {
        let prev = flow_added(m, pairs.drop_last());
        let (t, a) = pairs.last();
        prev.insert(t, (amount_of(prev, t) + a) as u32)
    }
}

/// Adding `pairs` to `m` keeps every balance within `u32`.
pub open spec fn flow_fits(m: Map<TokenType, u32>, pairs: Seq<(TokenType, u32)>) -> bool {
    forall|k: int|
        0 <= k < pairs.len() ==> amount_of(flow_added(m, pairs.take(k)), #[trigger] pairs[k].0)
            + pairs[k].1 <= u32::MAX
}

/// `m` with one more count for each of `tags`, in order.
pub open spec fn tags_counted(m: Map<CardTag, u32>, tags: Seq<CardTag>) -> Map<CardTag, u32>
    decreases tags.len(),
{
    if tags.len() == 0 {
        m
    } else {
        let prev = tags_counted(m, tags.drop_last());
        prev.insert(tags.last(), (tag_count_of(prev, tags.last()) + 1) as u32)
    }
}

/// Counting `tags` keeps every count within `u32`.
pub open spec fn tags_fit(m: Map<CardTag, u32>, tags: Seq<CardTag>) -> bool {
    forall|k: int|
        0 <= k < tags.len() ==> tag_count_of(tags_counted(m, tags.take(k)), #[trigger] tags[k]) + 1
            <= u32::MAX
}

// ---------------------------------------------------------------------------
// The recorded events, on the model
// ---------------------------------------------------------------------------

pub open spec fn spec_metrics_new() -> MetricsModel {
    MetricsModel {
        summary: MetricsSummary {
            total_contracts_completed: 0,
            total_contracts_failed: 0,
            total_contracts_abandoned: 0,
            total_cards_played: 0,
            total_cards_discarded: 0,
            cards_in_current_contract: 0,
            total_cards_across_completed: 0,
            current_streak: 0,
            best_streak: 0,
            total_cards_replaced: 0,
        },
        tiers: Map::empty(),
        cards_per_tag: Map::empty(),
        tokens_produced: Map::empty(),
        tokens_consumed: Map::empty(),
    }
}

pub open spec fn card_played_fits(
    m: MetricsModel,
    tags: Seq<CardTag>,
    produced: Seq<(TokenType, u32)>,
    consumed: Seq<(TokenType, u32)>,
) -> bool {
    &&& m.summary.total_cards_played < u32::MAX
    &&& m.summary.cards_in_current_contract < u32::MAX
    &&& tags_fit(m.cards_per_tag, tags)
    &&& flow_fits(m.tokens_produced, produced)
    &&& flow_fits(m.tokens_consumed, consumed)
}

/// One more card played: per-tag counts and token flow grow accordingly.
pub open spec fn spec_card_played(
    m: MetricsModel,
    tags: Seq<CardTag>,
    produced: Seq<(TokenType, u32)>,
    consumed: Seq<(TokenType, u32)>,
) -> MetricsModel {
    MetricsModel {
        summary: MetricsSummary {
            total_cards_played: (m.summary.total_cards_played + 1) as u32,
            cards_in_current_contract: (m.summary.cards_in_current_contract + 1) as u32,
            ..m.summary
        },
        cards_per_tag: tags_counted(m.cards_per_tag, tags),
        tokens_produced: flow_added(m.tokens_produced, produced),
        tokens_consumed: flow_added(m.tokens_consumed, consumed),
        ..m
    }
}

pub open spec fn card_discarded_fits(m: MetricsModel, produced: Seq<(TokenType, u32)>) -> bool {
    &&& m.summary.total_cards_discarded < u32::MAX
    &&& m.summary.cards_in_current_contract < u32::MAX
    &&& flow_fits(m.tokens_produced, produced)
}

/// One more card discarded, with what the discard produced.
pub open spec fn spec_card_discarded(m: MetricsModel, produced: Seq<(TokenType, u32)>) -> MetricsModel {
    MetricsModel {
        summary: MetricsSummary {
            total_cards_discarded: (m.summary.total_cards_discarded + 1) as u32,
            cards_in_current_contract: (m.summary.cards_in_current_contract + 1) as u32,
            ..m.summary
        },
        tokens_produced: flow_added(m.tokens_produced, produced),
        ..m
    }
}

pub open spec fn tier_bump_fits(m: MetricsModel, tier: u32, c: TierCounter) -> bool {
    counter_of(record_of(m.tiers, tier), c) < u32::MAX
}

pub open spec fn tiers_bumped(tiers: Map<u32, TierRecord>, tier: u32, c: TierCounter) -> Map<
    u32,
    TierRecord,
> {
    tiers.insert(tier, bumped(record_of(tiers, tier), c))
}

/// One more contract of `tier` accepted.
pub open spec fn spec_contract_accepted(m: MetricsModel, tier: u32) -> MetricsModel {
    MetricsModel { tiers: tiers_bumped(m.tiers, tier, TierCounter::Attempted), ..m }
}

pub open spec fn contract_completed_fits(m: MetricsModel, tier: u32) -> bool {
    &&& m.summary.total_contracts_completed < u32::MAX
    &&& tier_bump_fits(m, tier, TierCounter::Completed)
    &&& m.summary.total_cards_across_completed + m.summary.cards_in_current_contract <= u32::MAX
    &&& m.summary.current_streak < u32::MAX
}

/// One more contract of `tier` completed: its cards join the completed total,
/// the streak grows and the best streak follows it.
pub open spec fn spec_contract_completed(m: MetricsModel, tier: u32) -> MetricsModel {
    let streak = (m.summary.current_streak + 1) as u32;
    MetricsModel {
        summary: MetricsSummary {
            total_contracts_completed: (m.summary.total_contracts_completed + 1) as u32,
            total_cards_across_completed: (m.summary.total_cards_across_completed
                + m.summary.cards_in_current_contract) as u32,
            cards_in_current_contract: 0,
            current_streak: streak,
            best_streak: if streak > m.summary.best_streak {
                streak
            } else {
                m.summary.best_streak
            },
            ..m.summary
        },
        tiers: tiers_bumped(m.tiers, tier, TierCounter::Completed),
        ..m
    }
}

pub open spec fn contract_failed_fits(m: MetricsModel, tier: u32) -> bool {
    &&& m.summary.total_contracts_failed < u32::MAX
    &&& tier_bump_fits(m, tier, TierCounter::Failed)
}

/// One more contract of `tier` failed: the streak breaks.
pub open spec fn spec_contract_failed(m: MetricsModel, tier: u32) -> MetricsModel {
    MetricsModel {
        summary: MetricsSummary {
            total_contracts_failed: (m.summary.total_contracts_failed + 1) as u32,
            cards_in_current_contract: 0,
            current_streak: 0,
            ..m.summary
        },
        tiers: tiers_bumped(m.tiers, tier, TierCounter::Failed),
        ..m
    }
}

pub open spec fn contract_abandoned_fits(m: MetricsModel, tier: u32) -> bool {
    &&& contract_failed_fits(m, tier)
    &&& m.summary.total_contracts_abandoned < u32::MAX
    &&& tier_bump_fits(spec_contract_failed(m, tier), tier, TierCounter::Abandoned)
}

/// An abandoned contract is a failed contract, counted once more as abandoned.
pub open spec fn spec_contract_abandoned(m: MetricsModel, tier: u32) -> MetricsModel {
    let f = spec_contract_failed(m, tier);
    MetricsModel {
        summary: MetricsSummary {
            total_contracts_abandoned: (f.summary.total_contracts_abandoned + 1) as u32,
            ..f.summary
        },
        tiers: tiers_bumped(f.tiers, tier, TierCounter::Abandoned),
        ..f
    }
}

/// One more card replaced.
pub open spec fn spec_card_replaced(m: MetricsModel) -> MetricsModel {
    MetricsModel {
        summary: MetricsSummary {
            total_cards_replaced: (m.summary.total_cards_replaced + 1) as u32,
            ..m.summary
        },
        ..m
    }
}

// ---------------------------------------------------------------------------
// Listings
// ---------------------------------------------------------------------------

/// `a` comes before `b` when played more often, or as often with an earlier tag name.
pub open spec fn tag_before(a: TagPlayCount, b: TagPlayCount) -> bool {
    a.count > b.count || (a.count == b.count && tag_slot(a.tag) < tag_slot(b.tag))
}

/// The listing of a tag map ordered by play count, most played first.
pub open spec fn is_tag_frequency_listing(s: Seq<TagPlayCount>, m: Map<CardTag, u32>) -> bool {
    &&& forall|i: int, j: int| 0 <= i < j < s.len() ==> tag_before(#[trigger] s[i], #[trigger] s[j])
    &&& forall|e: TagPlayCount| s.contains(e) <==> (m.contains_key(e.tag) && m[e.tag] == e.count)
}

/// The flow entry of token `t`.
pub open spec fn flow_entry(p: Map<TokenType, u32>, c: Map<TokenType, u32>, t: TokenType) -> TokenFlowMetrics {
    TokenFlowMetrics {
        token_type: t,
        total_produced: amount_of(p, t),
        total_consumed: amount_of(c, t),
        net: (amount_of(p, t) - amount_of(c, t)) as i64,
    }
}

/// One entry per token produced or consumed, ordered by token type.
pub open spec fn is_token_flow_listing(
    s: Seq<TokenFlowMetrics>,
    p: Map<TokenType, u32>,
    c: Map<TokenType, u32>,
) -> bool {
    &&& forall|i: int| 0 <= i < s.len() ==> #[trigger] s[i] == flow_entry(p, c, s[i].token_type)
    &&& forall|i: int, j: int|
        0 <= i < j < s.len() ==> token_key((#[trigger] s[i]).token_type) < token_key(
            (#[trigger] s[j]).token_type,
        )
    &&& forall|t: TokenType|
        (exists|i: int| 0 <= i < s.len() && s[i].token_type == t) <==> (p.contains_key(t)
            || c.contains_key(t))
}

// ---------------------------------------------------------------------------
// Tracker
// ---------------------------------------------------------------------------

/// Accumulates gameplay counters during a session. Resets on `NewGame`.
pub struct MetricsTracker {
    summary: MetricsSummary,
    tiers: TierStats,
    cards_played_per_tag: TagCounts,
    tokens_produced: TokenBalances,
    tokens_consumed: TokenBalances,
}

impl View for MetricsTracker {
    type V = MetricsModel;

    closed spec fn view(&self) -> MetricsModel {
        MetricsModel {
            summary: self.summary,
            tiers: self.tiers@,
            cards_per_tag: self.cards_played_per_tag@,
            tokens_produced: self.tokens_produced@,
            tokens_consumed: self.tokens_consumed@,
        }
    }
}

impl MetricsTracker {
    /// The inner counters are well formed, the best streak is never below the
    /// current one, and abandoned contracts are among the failed ones.
    pub closed spec fn wf(&self) -> bool {
        &&& self.tiers.wf()
        &&& self.cards_played_per_tag.wf()
        &&& self.tokens_produced.wf()
        &&& self.tokens_consumed.wf()
        &&& self.summary.best_streak >= self.summary.current_streak
        &&& self.summary.total_contracts_abandoned <= self.summary.total_contracts_failed
    }

    /// What `wf` promises of the model.
    pub proof fn lemma_wf(&self)
        requires
            self.wf(),
        ensures
            self@.summary.best_streak >= self@.summary.current_streak,
            self@.summary.total_contracts_abandoned <= self@.summary.total_contracts_failed,
    {
    }

    pub fn new() -> (r: Self)
        ensures
            r.wf(),
            r@ == spec_metrics_new(),
    {
        MetricsTracker {
            summary: MetricsSummary {
                total_contracts_completed: 0,
                total_contracts_failed: 0,
                total_contracts_abandoned: 0,
                total_cards_played: 0,
                total_cards_discarded: 0,
                cards_in_current_contract: 0,
                total_cards_across_completed: 0,
                current_streak: 0,
                best_streak: 0,
                total_cards_replaced: 0,
            },
            tiers: TierStats::new(),
            cards_played_per_tag: TagCounts::new(),
            tokens_produced: TokenBalances::new(),
            tokens_consumed: TokenBalances::new(),
        }
    }

    /// Record a card play, tracking per-tag counts and token flow.
    pub fn record_card_played(
        &mut self,
        tags: &[CardTag],
        produced: &[(TokenType, u32)],
        consumed: &[(TokenType, u32)],
    )
        requires
            old(self).wf(),
            card_played_fits(old(self)@, tags@, produced@, consumed@),
        ensures
            final(self).wf(),
            final(self)@ == spec_card_played(old(self)@, tags@, produced@, consumed@),
    {
        self.summary.total_cards_played = self.summary.total_cards_played + 1;
        self.summary.cards_in_current_contract = self.summary.cards_in_current_contract + 1;
        count_tags(&mut self.cards_played_per_tag, tags);
        add_flow(&mut self.tokens_produced, produced);
        add_flow(&mut self.tokens_consumed, consumed);
    }

    /// Record a card discard (baseline production bonus).
    pub fn record_card_discarded(&mut self, produced: &[(TokenType, u32)])
        requires
            old(self).wf(),
            card_discarded_fits(old(self)@, produced@),
        ensures
            final(self).wf(),
            final(self)@ == spec_card_discarded(old(self)@, produced@),
    {
        self.summary.total_cards_discarded = self.summary.total_cards_discarded + 1;
        self.summary.cards_in_current_contract = self.summary.cards_in_current_contract + 1;
        add_flow(&mut self.tokens_produced, produced);
    }

    /// Record a contract acceptance (increment attempts counter).
    pub fn record_contract_accepted(&mut self, tier: u32)
        requires
            old(self).wf(),
            tier_bump_fits(old(self)@, tier, TierCounter::Attempted),
        ensures
            final(self).wf(),
            final(self)@ == spec_contract_accepted(old(self)@, tier),
    {
        self.tiers.bump(tier, TierCounter::Attempted);
    }

    /// Record a contract completion.
    pub fn record_contract_completed(&mut self, tier: u32)
        requires
            old(self).wf(),
            contract_completed_fits(old(self)@, tier),
        ensures
            final(self).wf(),
            final(self)@ == spec_contract_completed(old(self)@, tier),
    {
        self.summary.total_contracts_completed = self.summary.total_contracts_completed + 1;
        self.tiers.bump(tier, TierCounter::Completed);
        self.summary.total_cards_across_completed = self.summary.total_cards_across_completed
            + self.summary.cards_in_current_contract;
        self.summary.cards_in_current_contract = 0;
        self.summary.current_streak = self.summary.current_streak + 1;
        if self.summary.current_streak > self.summary.best_streak {
            self.summary.best_streak = self.summary.current_streak;
        }
    }

    /// Record a contract failure.
    pub fn record_contract_failed(&mut self, tier: u32)
        requires
            old(self).wf(),
            contract_failed_fits(old(self)@, tier),
        ensures
            final(self).wf(),
            final(self)@ == spec_contract_failed(old(self)@, tier),
    {
        self.summary.total_contracts_failed = self.summary.total_contracts_failed + 1;
        self.tiers.bump(tier, TierCounter::Failed);
        self.summary.cards_in_current_contract = 0;
        self.summary.current_streak = 0;
    }

    /// Record a contract abandonment.
    ///
    /// Abandonment counts as a failure in all failure metrics and also
    /// increments its own dedicated counter, so callers can distinguish
    /// voluntary abandons from mechanical failures.
    pub fn record_contract_abandoned(&mut self, tier: u32)
        requires
            old(self).wf(),
            contract_abandoned_fits(old(self)@, tier),
        ensures
            final(self).wf(),
            final(self)@ == spec_contract_abandoned(old(self)@, tier),
    {
        self.record_contract_failed(tier);
        self.summary.total_contracts_abandoned = self.summary.total_contracts_abandoned + 1;
        self.tiers.bump(tier, TierCounter::Abandoned);
    }

    /// Record a card replacement.
    pub fn record_card_replaced(&mut self)
        requires
            old(self).wf(),
            old(self)@.summary.total_cards_replaced < u32::MAX,
        ensures
            final(self).wf(),
            final(self)@ == spec_card_replaced(old(self)@),
    {
        self.summary.total_cards_replaced = self.summary.total_cards_replaced + 1;
    }

    /// The scalar counters.
    pub fn summary(&self) -> (r: MetricsSummary)
        ensures
            r == self@.summary,
    {
        self.summary
    }

    /// Per-tier counters, in ascending tier order.
    pub fn tier_records(&self) -> (r: &Vec<TierRecord>)
        requires
            self.wf(),
        ensures
            tiers_sorted(r@),
            records_to_map(r@) == self@.tiers,
    {
        proof {
            self.tiers.lemma_listing();
        }
        self.tiers.records()
    }

    /// Cards played per tag, most played first; equal counts in tag-name order.
    #[verifier::spinoff_prover]
    pub fn build_tag_counts(&self) -> (r: Vec<TagPlayCount>)
        requires
            self.wf(),
        ensures
            is_tag_frequency_listing(r@, self@.cards_per_tag),
    {
        let ghost m = self@.cards_per_tag;
        let mut r: Vec<TagPlayCount> = Vec::new();
        let mut i: usize = 0;
        while i < 4
            invariant
                self.wf(),
                m == self@.cards_per_tag,
                i <= 4,
                forall|a: int, b: int| 0 <= a < b < r@.len() ==> tag_before(#[trigger] r@[a], #[trigger] r@[b]),
                forall|a: int| 0 <= a < r@.len() ==> tag_slot((#[trigger] r@[a]).tag) < i,
                forall|e: TagPlayCount|
                    r@.contains(e) <==> (tag_slot(e.tag) < i && m.contains_key(e.tag) && m[e.tag]
                        == e.count),
            decreases 4 - i,
        {
            let tag = if i == 0 {
                CardTag::Production
            } else if i == 1 {
                CardTag::QualityControl
            } else if i == 2 {
                CardTag::SystemAdjustment
            } else {
                CardTag::Transformation
            };
            assert(tag_slot(tag) == i);
            match self.cards_played_per_tag.lookup(tag) {
                Some(count) => {
                    let e = TagPlayCount { tag, count };
                    let mut p: usize = 0;
                    while p < r.len() && r[p].count >= count
                        invariant
                            p <= r@.len(),
                            forall|q: int| 0 <= q < p ==> (#[trigger] r@[q]).count >= count,
                        decreases r.len() - p,
                    {
                        p = p + 1;
                    }
                    let ghost old_r = r@;
                    r.insert(p, e);
                    proof {
                        assert(r@ =~= old_r.insert(p as int, e));
                        lemma_insert_in_frequency_order(old_r, p as int, e, i as int);
                        assert forall|x: TagPlayCount| r@.contains(x) <==> (tag_slot(x.tag) < i + 1
                            && m.contains_key(x.tag) && m[x.tag] == x.count) by {
                            lemma_insert_contains(old_r, p as int, e, x);
                        }
                    }
                },
                None => {
                    proof {
                        assert forall|x: TagPlayCount| r@.contains(x) <==> (tag_slot(x.tag) < i + 1
                            && m.contains_key(x.tag) && m[x.tag] == x.count) by {
                            if tag_slot(x.tag) == i {
                                assert(x.tag == tag);
                            }
                        }
                    }
                },
            }
            i = i + 1;
        }
        proof {
            assert forall|e: TagPlayCount| r@.contains(e) <==> (m.contains_key(e.tag) && m[e.tag]
                == e.count) by {
                assert(tag_slot(e.tag) < 4);
            }
        }
        r
    }

    /// Token production and consumption totals, one entry per token type
    /// that was produced or consumed, in token-type order.
    #[verifier::spinoff_prover]
    pub fn build_token_flow(&self) -> (r: Vec<TokenFlowMetrics>)
        requires
            self.wf(),
        ensures
            is_token_flow_listing(r@, self@.tokens_produced, self@.tokens_consumed),
    {
        let ghost pm = self@.tokens_produced;
        let ghost cm = self@.tokens_consumed;
        proof {
            self.tokens_produced.lemma_listing();
            self.tokens_consumed.lemma_listing();
        }
        let ps = self.tokens_produced.entries();
        let cs = self.tokens_consumed.entries();
        let mut r: Vec<TokenFlowMetrics> = Vec::new();
        let mut a: usize = 0;
        let mut b: usize = 0;
        while a < ps.len() || b < cs.len()
            invariant
                self.wf(),
                pm == self@.tokens_produced,
                cm == self@.tokens_consumed,
                ps@ == self.tokens_produced.listing(),
                cs@ == self.tokens_consumed.listing(),
                crate::balances::keys_sorted(ps@),
                crate::balances::keys_sorted(cs@),
                crate::balances::seq_to_map(ps@) == pm,
                crate::balances::seq_to_map(cs@) == cm,
                a <= ps@.len(),
                b <= cs@.len(),
                forall|i: int| 0 <= i < r@.len() ==> #[trigger] r@[i] == flow_entry(pm, cm, r@[i].token_type),
                forall|i: int, j: int|
                    0 <= i < j < r@.len() ==> token_key((#[trigger] r@[i]).token_type) < token_key(
                        (#[trigger] r@[j]).token_type,
                    ),
                forall|i: int, k: int|
                    0 <= i < r@.len() && a <= k < ps@.len() ==> token_key(
                        (#[trigger] r@[i]).token_type,
                    ) < token_key((#[trigger] ps@[k]).token_type),
                forall|i: int, k: int|
                    0 <= i < r@.len() && b <= k < cs@.len() ==> token_key(
                        (#[trigger] r@[i]).token_type,
                    ) < token_key((#[trigger] cs@[k]).token_type),
                forall|t: TokenType|
                    #[trigger] flow_lists(r@, t) <==> (key_among(ps@, a as int, t) || key_among(
                        cs@,
                        b as int,
                        t,
                    )),
            decreases ps@.len() - a + cs@.len() - b,
        {
            let take_p = if b == cs.len() {
                true
            } else if a == ps.len() {
                false
            } else {
                ps[a].token_type.sort_key() <= cs[b].token_type.sort_key()
            };
            let take_c = if a == ps.len() {
                true
            } else if b == cs.len() {
                false
            } else {
                cs[b].token_type.sort_key() <= ps[a].token_type.sort_key()
            };
            let t = if take_p {
                ps[a].token_type
            } else {
                cs[b].token_type
            };
            let produced = self.tokens_produced.get(t);
            let consumed = self.tokens_consumed.get(t);
            let e = TokenFlowMetrics {
                token_type: t,
                total_produced: produced,
                total_consumed: consumed,
                net: produced as i64 - consumed as i64,
            };
            let ghost old_r = r@;
            let ghost old_a = a as int;
            let ghost old_b = b as int;
            r.push(e);
            if take_p {
                a = a + 1;
            }
            if take_c {
                b = b + 1;
            }
            proof {
                if take_p && take_c {
                    crate::types::lemma_token_key_injective(ps@[old_a].token_type, cs@[old_b].token_type);
                }
                assert forall|k: int| a <= k < ps@.len() implies token_key(t) < token_key(
                    ps@[k].token_type,
                ) by {
                    if take_p {
                        assert(token_key(ps@[old_a].token_type) < token_key(ps@[k].token_type));
                    } else if old_a < k {
                        assert(token_key(ps@[old_a].token_type) < token_key(ps@[k].token_type));
                    }
                }
                assert forall|k: int| b <= k < cs@.len() implies token_key(t) < token_key(
                    cs@[k].token_type,
                ) by {
                    if take_c {
                        assert(token_key(cs@[old_b].token_type) < token_key(cs@[k].token_type));
                    } else if old_b < k {
                        assert(token_key(cs@[old_b].token_type) < token_key(cs@[k].token_type));
                    }
                }
                assert forall|i: int, k: int|
                    0 <= i < r@.len() && a <= k < ps@.len() implies token_key(
                    (#[trigger] r@[i]).token_type,
                ) < token_key((#[trigger] ps@[k]).token_type) by {
                    if i < old_r.len() {
                        assert(r@[i] == old_r[i]);
                    }
                }
                assert forall|i: int, k: int|
                    0 <= i < r@.len() && b <= k < cs@.len() implies token_key(
                    (#[trigger] r@[i]).token_type,
                ) < token_key((#[trigger] cs@[k]).token_type) by {
                    if i < old_r.len() {
                        assert(r@[i] == old_r[i]);
                    }
                }
                assert forall|i: int, j: int| 0 <= i < j < r@.len() implies token_key(
                    (#[trigger] r@[i]).token_type,
                ) < token_key((#[trigger] r@[j]).token_type) by {
                    if j == old_r.len() {
                        if take_p {
                            assert(token_key(old_r[i].token_type) < token_key(ps@[old_a].token_type));
                        } else {
                            assert(token_key(old_r[i].token_type) < token_key(cs@[old_b].token_type));
                        }
                    }
                }
                assert forall|x: TokenType|
                    #[trigger] flow_lists(r@, x) <==> (key_among(ps@, a as int, x) || key_among(
                        cs@,
                        b as int,
                        x,
                    )) by {
                    assert(flow_lists(old_r, x) <==> (key_among(ps@, old_a, x) || key_among(
                        cs@,
                        old_b,
                        x,
                    )));
                    if exists|i: int| 0 <= i < r@.len() && r@[i].token_type == x {
                        let i = choose|i: int| 0 <= i < r@.len() && r@[i].token_type == x;
                        if i < old_r.len() {
                            assert(old_r[i].token_type == x);
                        } else if take_p {
                            assert(ps@[old_a].token_type == x);
                        } else {
                            assert(cs@[old_b].token_type == x);
                        }
                    }
                    if exists|k: int| 0 <= k < a && ps@[k].token_type == x {
                        let k = choose|k: int| 0 <= k < a && ps@[k].token_type == x;
                        if k < old_a {
                            let i = choose|i: int| 0 <= i < old_r.len() && old_r[i].token_type == x;
                            assert(r@[i] == old_r[i]);
                        } else {
                            assert(r@[old_r.len() as int].token_type == x);
                        }
                    }
                    if exists|k: int| 0 <= k < b && cs@[k].token_type == x {
                        let k = choose|k: int| 0 <= k < b && cs@[k].token_type == x;
                        if k < old_b {
                            let i = choose|i: int| 0 <= i < old_r.len() && old_r[i].token_type == x;
                            assert(r@[i] == old_r[i]);
                        } else {
                            assert(r@[old_r.len() as int].token_type == x);
                        }
                    }
                }
            }
        }
        proof {
            assert forall|x: TokenType|
                (exists|i: int| 0 <= i < r@.len() && r@[i].token_type == x) <==> (pm.contains_key(x)
                    || cm.contains_key(x)) by {
                assert(flow_lists(r@, x) <==> (key_among(ps@, a as int, x) || key_among(
                    cs@,
                    b as int,
                    x,
                )));
            }
        }
        r
    }
}

/// Some entry of `s` is for token `t`.
pub open spec fn flow_lists(s: Seq<TokenFlowMetrics>, t: TokenType) -> bool {
    exists|i: int| 0 <= i < s.len() && s[i].token_type == t
}

/// One of the first `n` entries of `s` is for token `t`.
pub open spec fn key_among(s: Seq<crate::types::TokenAmount>, n: int, t: TokenType) -> bool {
    exists|k: int| 0 <= k < n && s[k].token_type == t
}

/// Inserting `e` (with tag slot `i`, above every present slot) at the first
/// position whose count is below `e`'s keeps the listing in frequency order.
proof fn lemma_insert_in_frequency_order(s: Seq<TagPlayCount>, p: int, e: TagPlayCount, i: int)
    requires
        0 <= p <= s.len(),
        tag_slot(e.tag) == i,
        forall|a: int, b: int| 0 <= a < b < s.len() ==> tag_before(#[trigger] s[a], #[trigger] s[b]),
        forall|a: int| 0 <= a < s.len() ==> tag_slot((#[trigger] s[a]).tag) < i,
        forall|q: int| 0 <= q < p ==> (#[trigger] s[q]).count >= e.count,
        p < s.len() ==> s[p].count < e.count,
    ensures
        forall|a: int, b: int|
            0 <= a < b < s.insert(p, e).len() ==> tag_before(
                #[trigger] s.insert(p, e)[a],
                #[trigger] s.insert(p, e)[b],
            ),
        forall|a: int| 0 <= a < s.insert(p, e).len() ==> tag_slot((#[trigger] s.insert(p, e)[a]).tag) < i + 1,
{
    let t = s.insert(p, e);
    assert forall|a: int, b: int| 0 <= a < b < t.len() implies tag_before(
        #[trigger] t[a],
        #[trigger] t[b],
    ) by {
        if b < p {
            assert(tag_before(s[a], s[b]));
        } else if b == p {
            assert(s[a].count >= e.count);
        } else if a < p {
            assert(t[b] == s[b - 1]);
            assert(s[a].count >= e.count);
            assert(s[p].count < e.count);
            if b - 1 > p {
                assert(tag_before(s[p], s[b - 1]));
            }
        } else if a == p {
            assert(t[b] == s[b - 1]);
            if b - 1 > p {
                assert(tag_before(s[p], s[b - 1]));
            }
        } else {
            assert(t[a] == s[a - 1]);
            assert(t[b] == s[b - 1]);
            assert(tag_before(s[a - 1], s[b - 1]));
        }
    }
    assert forall|a: int| 0 <= a < t.len() implies tag_slot((#[trigger] t[a]).tag) < i + 1 by {
        if a < p {
        } else if a > p {
            assert(t[a] == s[a - 1]);
        }
    }
}

proof fn lemma_insert_contains(s: Seq<TagPlayCount>, p: int, e: TagPlayCount, x: TagPlayCount)
    requires
        0 <= p <= s.len(),
    ensures
        s.insert(p, e).contains(x) <==> (s.contains(x) || x == e),
{
    let t = s.insert(p, e);
    if t.contains(x) {
        let k = choose|k: int| 0 <= k < t.len() && t[k] == x;
        if k < p {
            assert(s[k] == x);
        } else if k > p {
            assert(s[k - 1] == x);
        }
    }
    if s.contains(x) {
        let k = choose|k: int| 0 <= k < s.len() && s[k] == x;
        if k < p {
            assert(t[k] == x);
        } else {
            assert(t[k + 1] == x);
        }
    }
    if x == e {
        assert(t[p] == x);
    }
}

/// Counts each of `tags` once more in `counts`.
#[verifier::spinoff_prover]
#[verifier::rlimit(40)]
pub fn count_tags(counts: &mut TagCounts, tags: &[CardTag])
    requires
        old(counts).wf(),
        tags_fit(old(counts)@, tags@),
    ensures
        final(counts).wf(),
        final(counts)@ == tags_counted(old(counts)@, tags@),
{
    let ghost m0 = counts@;
    let mut i: usize = 0;
    while i < tags.len()
        invariant
            i <= tags@.len(),
            counts.wf(),
            tags_fit(m0, tags@),
            counts@ == tags_counted(m0, tags@.take(i as int)),
        decreases tags.len() - i,
    {
        let tag = tags[i];
        proof {
            assert(tags@.take(i + 1).drop_last() =~= tags@.take(i as int));
            assert(tags@.take(i + 1).last() == tag);
            assert(tag_count_of(tags_counted(m0, tags@.take(i as int)), tags@[i as int]) + 1 <= u32::MAX);
        }
        counts.increment(tag);
        i = i + 1;
    }
    assert(tags@.take(tags@.len() as int) =~= tags@);
}

/// Adds each `(token, amount)` pair to `balances`.
#[verifier::spinoff_prover]
#[verifier::rlimit(40)]
pub fn add_flow(balances: &mut TokenBalances, pairs: &[(TokenType, u32)])
    requires
        old(balances).wf(),
        flow_fits(old(balances)@, pairs@),
    ensures
        final(balances).wf(),
        final(balances)@ == flow_added(old(balances)@, pairs@),
{
    let ghost m0 = balances@;
    let mut i: usize = 0;
    while i < pairs.len()
        invariant
            i <= pairs@.len(),
            balances.wf(),
            flow_fits(m0, pairs@),
            balances@ == flow_added(m0, pairs@.take(i as int)),
        decreases pairs.len() - i,
    {
        let (t, a) = pairs[i];
        proof {
            assert(pairs@.take(i + 1).drop_last() =~= pairs@.take(i as int));
            assert(pairs@.take(i + 1).last() == pairs@[i as int]);
            assert(amount_of(flow_added(m0, pairs@.take(i as int)), pairs@[i as int].0)
                + pairs@[i as int].1 <= u32::MAX);
        }
        balances.add(t, a);
        i = i + 1;
    }
    assert(pairs@.take(pairs@.len() as int) =~= pairs@);
}

/// Abandoning a contract counts as a failure in every failure metric, and
/// once more as an abandonment.
pub proof fn law_abandon_counts_as_failure(m: MetricsModel, tier: u32)
    ensures
        spec_contract_abandoned(m, tier).summary.total_contracts_failed == spec_contract_failed(
            m,
            tier,
        ).summary.total_contracts_failed,
        spec_contract_abandoned(m, tier).summary.current_streak == 0,
        record_of(spec_contract_abandoned(m, tier).tiers, tier).failed == record_of(
            spec_contract_failed(m, tier).tiers,
            tier,
        ).failed,
{
}

/// A completion extends the current streak by one and a failure resets it;
/// the best streak never falls below the current one.
pub proof fn law_streaks(m: MetricsModel, tier: u32)
    requires
        m.summary.best_streak >= m.summary.current_streak,
        m.summary.current_streak < u32::MAX,
    ensures
        spec_contract_completed(m, tier).summary.current_streak == m.summary.current_streak + 1,
        spec_contract_completed(m, tier).summary.best_streak >= spec_contract_completed(
            m,
            tier,
        ).summary.current_streak,
        spec_contract_completed(m, tier).summary.best_streak >= m.summary.best_streak,
        spec_contract_failed(m, tier).summary.current_streak == 0,
        spec_contract_failed(m, tier).summary.best_streak == m.summary.best_streak,
{
}

} // verus!
