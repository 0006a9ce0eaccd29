//! Token mechanics and contract checks of the game loop.

use vstd::prelude::*;

use crate::balances::{amount_of, keys_sorted, lemma_sorted_canonical, lemma_sorted_lookup, seq_to_map, tag_count_of, TagCounts, TokenBalances};
use crate::game_model::{
    all_input_pairs, all_output_pairs, banned_tag_from, effects_applied, effects_fit,
    harmful_violation_from, limit_or_max, limits_of, limit_step, threshold_step, pairs_of, removed_all, sat_sub, shortfall,
    sorted_listing, spec_all_met, thresholds_met, limits_met, spec_failure, spec_missing, tag_capped, thresholds_fit,
    thresholds_of, turn_violation_from,
};
use crate::metrics::{add_flow, flow_added, flow_fits};
use crate::types::{
    effects_view, CardEffect, CardTag, Contract, ContractFailureReason, ContractRequirementKind,
    EffectSpec, TokenAmount, TokenType,
};

verus! {

/// The listing of well-formed balances is the sorted listing of their map.
pub proof fn lemma_listing_is_sorted_listing(b: TokenBalances)
    requires
        b.wf(),
    ensures
        b.listing() == sorted_listing(b@),
        keys_sorted(b.listing()),
        seq_to_map(b.listing()) == b@,
{
    b.lemma_listing();
    let s = sorted_listing(b@);
    assert(keys_sorted(b.listing()) && seq_to_map(b.listing()) == b@);
    lemma_sorted_canonical(s, b.listing());
}

// ---------------------------------------------------------------------------
// Effects
// ---------------------------------------------------------------------------

/// Token inputs and outputs of a list of card effects as flat
/// `(token, amount)` pairs: outputs are what is produced, inputs what is consumed.
#[verifier::spinoff_prover]
#[verifier::rlimit(50)]
pub fn collect_effect_token_flow(effects: &Vec<CardEffect>) -> (r: (
    Vec<(TokenType, u32)>,
    Vec<(TokenType, u32)>,
))
    ensures
        r.0@ == all_output_pairs(effects_view(effects@)),
        r.1@ == all_input_pairs(effects_view(effects@)),
{
    let ghost ev = effects_view(effects@);
    let mut produced: Vec<(TokenType, u32)> = Vec::new();
    let mut consumed: Vec<(TokenType, u32)> = Vec::new();
    let mut i: usize = 0;
    while i < effects.len()
        invariant
            i <= effects@.len(),
            ev == effects_view(effects@),
            produced@ == all_output_pairs(ev.take(i as int)),
            consumed@ == all_input_pairs(ev.take(i as int)),
        decreases effects.len() - i,
    {
        let e = &effects[i];
        let ghost p0 = produced@;
        let ghost c0 = consumed@;
        let mut j: usize = 0;
        while j < e.outputs.len()
            invariant
                j <= e.outputs@.len(),
                produced@ == p0 + pairs_of(e.outputs@).take(j as int),
            decreases e.outputs.len() - j,
        {
            produced.push((e.outputs[j].token_type, e.outputs[j].amount));
            proof {
                assert(pairs_of(e.outputs@).take(j + 1) =~= pairs_of(e.outputs@).take(j as int).push(
                    (e.outputs@[j as int].token_type, e.outputs@[j as int].amount),
                ));
                assert(produced@ =~= p0 + pairs_of(e.outputs@).take(j + 1));
            }
            j = j + 1;
        }
        let mut k: usize = 0;
        while k < e.inputs.len()
            invariant
                k <= e.inputs@.len(),
                consumed@ == c0 + pairs_of(e.inputs@).take(k as int),
            decreases e.inputs.len() - k,
        {
            consumed.push((e.inputs[k].token_type, e.inputs[k].amount));
            proof {
                assert(pairs_of(e.inputs@).take(k + 1) =~= pairs_of(e.inputs@).take(k as int).push(
                    (e.inputs@[k as int].token_type, e.inputs@[k as int].amount),
                ));
                assert(consumed@ =~= c0 + pairs_of(e.inputs@).take(k + 1));
            }
            k = k + 1;
        }
        proof {
            assert(ev.take(i + 1).drop_last() =~= ev.take(i as int));
            assert(ev.take(i + 1).last() == e@);
            assert(pairs_of(e.outputs@).take(e.outputs@.len() as int) =~= pairs_of(e.outputs@));
            assert(pairs_of(e.inputs@).take(e.inputs@.len() as int) =~= pairs_of(e.inputs@));
        }
        i = i + 1;
    }
    proof {
        assert(ev.take(effects@.len() as int) =~= ev);
    }
    (produced, consumed)
}

/// Returns the tokens the player is missing to pay all inputs of the given
/// effects, in token order. An empty list means the player can afford them.
#[verifier::spinoff_prover]
#[verifier::rlimit(50)]
pub fn get_missing_tokens_for_effects(tokens: &TokenBalances, effects: &Vec<CardEffect>) -> (r: Vec<
    TokenAmount,
>)
    requires
        tokens.wf(),
        flow_fits(Map::empty(), all_input_pairs(effects_view(effects@))),
    ensures
        r@ == spec_missing(effects_view(effects@), tokens@),
{
    let (_, consumed) = collect_effect_token_flow(effects);
    let mut required = TokenBalances::new();
    add_flow(&mut required, consumed.as_slice());
    let ghost req = required@;
    let ghost short = shortfall(req, tokens@);
    proof {
        lemma_listing_is_sorted_listing(required);
    }
    let entries = required.entries();
    let ghost es = entries@;
    let mut missing: Vec<TokenAmount> = Vec::new();
    let mut i: usize = 0;
    while i < entries.len()
        invariant
            i <= es.len(),
            es == entries@,
            keys_sorted(es),
            seq_to_map(es) == req,
            tokens.wf(),
            short == shortfall(req, tokens@),
            keys_sorted(missing@),
            forall|a: int, k: int|
                0 <= a < missing@.len() && i <= k < es.len() ==> crate::types::token_key(
                    (#[trigger] missing@[a]).token_type,
                ) < crate::types::token_key((#[trigger] es[k]).token_type),
            forall|a: int| 0 <= a < missing@.len() ==> short.contains_key((#[trigger] missing@[a]).token_type)
                && short[missing@[a].token_type] == missing@[a].amount,
            forall|k: int| 0 <= k < i && short.contains_key(#[trigger] es[k].token_type) ==> exists|a: int|
                0 <= a < missing@.len() && missing@[a].token_type == es[k].token_type,
        decreases es.len() - i,
    {
        let t = entries[i].token_type;
        let needed = entries[i].amount;
        let available = tokens.get(t);
        proof {
            lemma_sorted_lookup(es, i as int);
        }
        if available < needed {
            let ghost m0 = missing@;
            missing.push(TokenAmount { token_type: t, amount: needed - available });
            proof {
                assert forall|a: int, b: int| 0 <= a < b < missing@.len() implies crate::types::token_key(
                    #[trigger] missing@[a].token_type,
                ) < crate::types::token_key(#[trigger] missing@[b].token_type) by {
                    if b < m0.len() {
                        assert(missing@[a] == m0[a]);
                        assert(missing@[b] == m0[b]);
                    } else {
                        assert(missing@[a] == m0[a]);
                    }
                }
                assert forall|a: int, k: int|
                    0 <= a < missing@.len() && i + 1 <= k < es.len() implies crate::types::token_key(
                    (#[trigger] missing@[a]).token_type,
                ) < crate::types::token_key((#[trigger] es[k]).token_type) by {
                    if a < m0.len() {
                        assert(missing@[a] == m0[a]);
                    } else {
                        assert(crate::types::token_key(es[i as int].token_type)
                            < crate::types::token_key(es[k].token_type));
                    }
                }
                assert forall|k: int| 0 <= k < i + 1 && short.contains_key(#[trigger] es[k].token_type) implies exists|
                    a: int,
                |
                    0 <= a < missing@.len() && missing@[a].token_type == es[k].token_type by {
                    if k < i {
                        let a = choose|a: int| 0 <= a < m0.len() && m0[a].token_type == es[k].token_type;
                        assert(missing@[a] == m0[a]);
                    } else {
                        assert(missing@[m0.len() as int].token_type == es[k].token_type);
                    }
                }
            }
        } else {
            proof {
                assert(!short.contains_key(es[i as int].token_type));
                assert forall|a: int, k: int|
                    0 <= a < missing@.len() && i + 1 <= k < es.len() implies crate::types::token_key(
                    (#[trigger] missing@[a]).token_type,
                ) < crate::types::token_key((#[trigger] es[k]).token_type) by {
                }
            }
        }
        i = i + 1;
    }
    proof {
        assert forall|t: TokenType| #[trigger] seq_to_map(missing@).contains_key(t) <==> short.contains_key(t) by {
            if short.contains_key(t) {
                assert(amount_of(req, t) > 0);
                assert(req.contains_key(t));
                let k = choose|k: int| 0 <= k < es.len() && es[k].token_type == t;
                assert(short.contains_key(es[k].token_type));
            }
            if seq_to_map(missing@).contains_key(t) {
                let a = choose|a: int| 0 <= a < missing@.len() && missing@[a].token_type == t;
                assert(short.contains_key(missing@[a].token_type));
            }
        }
        assert forall|t: TokenType| #[trigger] seq_to_map(missing@).contains_key(t) implies seq_to_map(missing@)[t] == short[t] by {
            let a = choose|a: int| 0 <= a < missing@.len() && missing@[a].token_type == t;
            lemma_sorted_lookup(missing@, a);
        }
        assert(seq_to_map(missing@) =~= short);
        let s = sorted_listing(short);
        assert(keys_sorted(missing@) && seq_to_map(missing@) == short);
        lemma_sorted_canonical(s, missing@);
    }
    missing
}

/// One effect pays its inputs (stopping at zero) and adds its outputs.
#[verifier::spinoff_prover]
#[verifier::rlimit(50)]
fn apply_effect(tokens: &mut TokenBalances, e: &CardEffect)
    requires
        old(tokens).wf(),
        flow_fits(removed_all(old(tokens)@, e.inputs@), pairs_of(e.outputs@)),
    ensures
        final(tokens).wf(),
        final(tokens)@ == flow_added(removed_all(old(tokens)@, e.inputs@), pairs_of(e.outputs@)),
{
    let ghost before = tokens@;
    let mut j: usize = 0;
    while j < e.inputs.len()
        invariant
            j <= e.inputs@.len(),
            tokens.wf(),
            tokens@ == removed_all(before, e.inputs@.take(j as int)),
        decreases e.inputs.len() - j,
    {
        let ta = e.inputs[j];
        tokens.remove_saturating(ta.token_type, ta.amount);
        proof {
            assert(e.inputs@.take(j + 1).drop_last() =~= e.inputs@.take(j as int));
        }
        j = j + 1;
    }
    proof {
        assert(e.inputs@.take(e.inputs@.len() as int) =~= e.inputs@);
    }
    let ghost removed = tokens@;
    let mut k: usize = 0;
    while k < e.outputs.len()
        invariant
            k <= e.outputs@.len(),
            tokens.wf(),
            flow_fits(removed, pairs_of(e.outputs@)),
            tokens@ == flow_added(removed, pairs_of(e.outputs@).take(k as int)),
        decreases e.outputs.len() - k,
    {
        let ta = e.outputs[k];
        proof {
            assert(pairs_of(e.outputs@).take(k + 1).drop_last() =~= pairs_of(e.outputs@).take(
                k as int,
            ));
            assert(pairs_of(e.outputs@)[k as int] == (ta.token_type, ta.amount));
            assert(amount_of(flow_added(removed, pairs_of(e.outputs@).take(k as int)), pairs_of(
                e.outputs@,
            )[k as int].0) + pairs_of(e.outputs@)[k as int].1 <= u32::MAX);
        }
        tokens.add(ta.token_type, ta.amount);
        k = k + 1;
    }
    proof {
        assert(pairs_of(e.outputs@).take(e.outputs@.len() as int) =~= pairs_of(e.outputs@));
    }
}

/// Each effect in turn pays its inputs (stopping at zero) and adds its outputs.
#[verifier::spinoff_prover]
#[verifier::rlimit(50)]
pub fn apply_effects(tokens: &mut TokenBalances, effects: &Vec<CardEffect>)
    requires
        old(tokens).wf(),
        effects_fit(old(tokens)@, effects_view(effects@)),
    ensures
        final(tokens).wf(),
        final(tokens)@ == effects_applied(old(tokens)@, effects_view(effects@)),
{
    let ghost ev = effects_view(effects@);
    let ghost m0 = tokens@;
    let mut i: usize = 0;
    while i < effects.len()
        invariant
            i <= effects@.len(),
            ev == effects_view(effects@),
            tokens.wf(),
            effects_fit(m0, ev),
            tokens@ == effects_applied(m0, ev.take(i as int)),
        decreases effects.len() - i,
    {
        assert(ev[i as int] == effects@[i as int]@);
        assert(flow_fits(
            removed_all(effects_applied(m0, ev.take(i as int)), ev[i as int].inputs),
            pairs_of(ev[i as int].outputs),
        ));
        apply_effect(tokens, &effects[i]);
        proof {
            assert(ev.take(i + 1).drop_last() =~= ev.take(i as int));
        }
        i = i + 1;
    }
    proof {
        assert(ev.take(effects@.len() as int) =~= ev);
    }
}

// ---------------------------------------------------------------------------
// Requirements
// ---------------------------------------------------------------------------

/// One requirement folded into the summed lower bounds and the tightest upper bounds.
#[verifier::spinoff_prover]
#[verifier::rlimit(50)]
fn aggregate_one(
    output_thresholds: &mut TokenBalances,
    harmful_limits: &mut TokenBalances,
    req: ContractRequirementKind,
)
    requires
        old(output_thresholds).wf(),
        old(harmful_limits).wf(),
        match req {
            ContractRequirementKind::TokenRequirement { token_type, min: Some(a), .. } => amount_of(
                old(output_thresholds)@,
                token_type,
            ) + a <= u32::MAX,
            _ => true,
        },
    ensures
        final(output_thresholds).wf(),
        final(harmful_limits).wf(),
        final(output_thresholds)@ == threshold_step(old(output_thresholds)@, req),
        final(harmful_limits)@ == limit_step(old(harmful_limits)@, req),
{
    match req {
        ContractRequirementKind::TokenRequirement { token_type, min, max } => {
            if let Some(a) = min {
                output_thresholds.add(token_type, a);
            }
            if let Some(b) = max {
                let cur = if harmful_limits.contains(token_type) {
                    harmful_limits.get(token_type)
                } else {
                    u32::MAX
                };
                let v = if cur <= b {
                    cur
                } else {
                    b
                };
                harmful_limits.set(token_type, v);
            }
        },
        _ => {},
    }
}

/// Summed lower bounds and tightest upper bounds of token requirements.
#[verifier::spinoff_prover]
#[verifier::rlimit(50)]
pub fn aggregate_requirements(requirements: &Vec<ContractRequirementKind>) -> (r: (
    TokenBalances,
    TokenBalances,
))
    requires
        thresholds_fit(requirements@),
    ensures
        r.0.wf(),
        r.1.wf(),
        r.0@ == thresholds_of(requirements@),
        r.1@ == limits_of(requirements@),
{
    let mut output_thresholds = TokenBalances::new();
    let mut harmful_limits = TokenBalances::new();
    let mut i: usize = 0;
    while i < requirements.len()
        invariant
            i <= requirements@.len(),
            thresholds_fit(requirements@),
            output_thresholds.wf(),
            harmful_limits.wf(),
            output_thresholds@ == thresholds_of(requirements@.take(i as int)),
            harmful_limits@ == limits_of(requirements@.take(i as int)),
        decreases requirements.len() - i,
    {
        proof {
            assert(requirements@.take(i + 1).drop_last() =~= requirements@.take(i as int));
            assert(requirements@.take(i + 1).last() == requirements@[i as int]);
        }
        aggregate_one(&mut output_thresholds, &mut harmful_limits, requirements[i]);
        i = i + 1;
    }
    proof {
        assert(requirements@.take(requirements@.len() as int) =~= requirements@);
    }
    (output_thresholds, harmful_limits)
}

/// Check all failure conditions on the contract. Returns the first violation
/// found: harmful limits in token order, then turn windows.
#[verifier::spinoff_prover]
#[verifier::rlimit(50)]
pub fn check_contract_failure(contract: &Contract, tokens: &TokenBalances, turns_played: u32) -> (r: Option<
    ContractFailureReason,
>)
    requires
        tokens.wf(),
        thresholds_fit(contract.requirements@),
    ensures
        r == spec_failure(contract@, tokens@, turns_played),
{
    let (_, harmful_limits) = aggregate_requirements(&contract.requirements);
    proof {
        lemma_listing_is_sorted_listing(harmful_limits);
    }
    let limits = harmful_limits.entries();
    let ghost s = limits@;
    let mut i: usize = 0;
    while i < limits.len()
        invariant
            i <= s.len(),
            s == limits@,
            s == sorted_listing(limits_of(contract.requirements@)),
            tokens.wf(),
            harmful_violation_from(s, tokens@, 0) == harmful_violation_from(s, tokens@, i as int),
        decreases s.len() - i,
    {
        let t = limits[i].token_type;
        let max_amount = limits[i].amount;
        let current = tokens.get(t);
        if current > max_amount {
            assert(harmful_violation_from(s, tokens@, i as int) == Some(
                ContractFailureReason::HarmfulTokenLimitExceeded {
                    token_type: t,
                    max_amount,
                    current_amount: current,
                },
            ));
            return Some(
                ContractFailureReason::HarmfulTokenLimitExceeded {
                    token_type: t,
                    max_amount,
                    current_amount: current,
                },
            );
        }
        i = i + 1;
    }
    let reqs = &contract.requirements;
    let mut j: usize = 0;
    while j < reqs.len()
        invariant
            j <= reqs@.len(),
            reqs@ == contract.requirements@,
            harmful_violation_from(s, tokens@, 0) is None,
            s == sorted_listing(limits_of(contract.requirements@)),
            turn_violation_from(reqs@, turns_played, 0) == turn_violation_from(
                reqs@,
                turns_played,
                j as int,
            ),
        decreases reqs.len() - j,
    {
        match reqs[j] {
            ContractRequirementKind::TurnWindow { max_turn: Some(max), .. } => {
                if turns_played > max {
                    return Some(
                        ContractFailureReason::TurnWindowExceeded {
                            max_turn: max,
                            current_turn: turns_played,
                        },
                    );
                }
            },
            _ => {},
        }
        j = j + 1;
    }
    None
}

/// Whether every requirement of the contract holds now.
#[verifier::spinoff_prover]
#[verifier::rlimit(50)]
pub fn all_requirements_met(
    contract: &Contract,
    tokens: &TokenBalances,
    turns_played: u32,
    played_per_tag: &TagCounts,
) -> (r: bool)
    requires
        tokens.wf(),
        played_per_tag.wf(),
        thresholds_fit(contract.requirements@),
    ensures
        r == spec_all_met(contract@, tokens@, turns_played, played_per_tag@),
{
    let ghost th_map = thresholds_of(contract.requirements@);
    let ghost lim_map = limits_of(contract.requirements@);
    let (output_thresholds, harmful_limits) = aggregate_requirements(&contract.requirements);
    proof {
        output_thresholds.lemma_listing();
        harmful_limits.lemma_listing();
    }
    let th = output_thresholds.entries();
    let mut i: usize = 0;
    while i < th.len()
        invariant
            i <= th@.len(),
            tokens.wf(),
            keys_sorted(th@),
            seq_to_map(th@) == th_map,
            th_map == thresholds_of(contract.requirements@),
            forall|k: int| 0 <= k < i ==> amount_of(tokens@, (#[trigger] th@[k]).token_type) >= th@[k].amount,
        decreases th.len() - i,
    {
        if tokens.get(th[i].token_type) < th[i].amount {
            proof {
                lemma_sorted_lookup(th@, i as int);
                let t = th@[i as int].token_type;
                assert(th_map.contains_key(t) && amount_of(tokens@, t) < th_map[t]);
                assert(!thresholds_met(tokens@, th_map));

            }
            return false;
        }
        i = i + 1;
    }
    proof {
        assert forall|t: TokenType| #[trigger] th_map.contains_key(t) implies amount_of(tokens@, t) >= th_map[t] by {
            let k = choose|k: int| 0 <= k < th@.len() && th@[k].token_type == t;
            lemma_sorted_lookup(th@, k);
        }
    }
    let lim = harmful_limits.entries();
    let mut j: usize = 0;
    while j < lim.len()
        invariant
            j <= lim@.len(),
            tokens.wf(),
            keys_sorted(lim@),
            seq_to_map(lim@) == lim_map,
            lim_map == limits_of(contract.requirements@),
            forall|k: int| 0 <= k < j ==> amount_of(tokens@, (#[trigger] lim@[k]).token_type) <= lim@[k].amount,
        decreases lim.len() - j,
    {
        if tokens.get(lim[j].token_type) > lim[j].amount {
            proof {
                lemma_sorted_lookup(lim@, j as int);
                let t = lim@[j as int].token_type;
                assert(lim_map.contains_key(t) && amount_of(tokens@, t) > lim_map[t]);
                assert(!limits_met(tokens@, lim_map));
            }
            return false;
        }
        j = j + 1;
    }
    proof {
        assert forall|t: TokenType| #[trigger] lim_map.contains_key(t) implies amount_of(tokens@, t) <= lim_map[t] by {
            let k = choose|k: int| 0 <= k < lim@.len() && lim@[k].token_type == t;
            lemma_sorted_lookup(lim@, k);
        }
    }
    let reqs = &contract.requirements;
    let mut k: usize = 0;
    while k < reqs.len()
        invariant
            k <= reqs@.len(),
            reqs@ == contract.requirements@,
            played_per_tag.wf(),
            forall|q: int|
                0 <= q < k ==> match #[trigger] reqs@[q] {
                    ContractRequirementKind::TurnWindow { min_turn: Some(m), .. } => turns_played >= m,
                    ContractRequirementKind::CardTagConstraint { tag, min: Some(m), .. } => tag_count_of(
                        played_per_tag@,
                        tag,
                    ) >= m,
                    _ => true,
                },
        decreases reqs.len() - k,
    {
        match reqs[k] {
            ContractRequirementKind::TurnWindow { min_turn: Some(m), .. } => {
                if turns_played < m {
                    return false;
                }
            },
            ContractRequirementKind::CardTagConstraint { tag, min: Some(m), .. } => {
                if played_per_tag.get(tag) < m {
                    return false;
                }
            },
            _ => {},
        }
        k = k + 1;
    }
    true
}

/// Pays a completed contract's summed thresholds from the balances.
pub fn subtract_contract_tokens(tokens: &mut TokenBalances, contract: &Contract)
    requires
        old(tokens).wf(),
        thresholds_fit(contract.requirements@),
    ensures
        final(tokens).wf(),
        final(tokens)@ == removed_all(old(tokens)@, sorted_listing(thresholds_of(contract.requirements@))),
{
    let (output_thresholds, _) = aggregate_requirements(&contract.requirements);
    proof {
        lemma_listing_is_sorted_listing(output_thresholds);
    }
    let th = output_thresholds.entries();
    let ghost m0 = tokens@;
    let mut i: usize = 0;
    while i < th.len()
        invariant
            i <= th@.len(),
            tokens.wf(),
            tokens@ == removed_all(m0, th@.take(i as int)),
        decreases th.len() - i,
    {
        tokens.remove_saturating(th[i].token_type, th[i].amount);
        proof {
            assert(th@.take(i + 1).drop_last() =~= th@.take(i as int));
        }
        i = i + 1;
    }
    proof {
        assert(th@.take(th@.len() as int) =~= th@);
    }
}

/// The first of the card's tags that an active constraint has capped.
pub fn banned_card_tag(
    card_tags: &Vec<CardTag>,
    requirements: &Vec<ContractRequirementKind>,
    played_per_tag: &TagCounts,
) -> (r: Option<CardTag>)
    requires
        played_per_tag.wf(),
    ensures
        r == banned_tag_from(card_tags@, requirements@, played_per_tag@, 0),
{
    let mut i: usize = 0;
    while i < card_tags.len()
        invariant
            i <= card_tags@.len(),
            played_per_tag.wf(),
            banned_tag_from(card_tags@, requirements@, played_per_tag@, 0) == banned_tag_from(
                card_tags@,
                requirements@,
                played_per_tag@,
                i as int,
            ),
        decreases card_tags.len() - i,
    {
        let tag = card_tags[i];
        let mut j: usize = 0;
        while j < requirements.len()
            invariant
                j <= requirements@.len(),
                played_per_tag.wf(),
                i < card_tags@.len(),
                tag == card_tags@[i as int],
                banned_tag_from(card_tags@, requirements@, played_per_tag@, 0) == banned_tag_from(
                    card_tags@,
                    requirements@,
                    played_per_tag@,
                    i as int,
                ),
                forall|q: int|
                    0 <= q < j ==> !match #[trigger] requirements@[q] {
                        ContractRequirementKind::CardTagConstraint { tag: t, max: Some(limit), .. } => t
                            == tag && tag_count_of(played_per_tag@, tag) >= limit,
                        _ => false,
                    },
            decreases requirements.len() - j,
        {
            match requirements[j] {
                ContractRequirementKind::CardTagConstraint { tag: req_tag, max: Some(limit), .. } => {
                    if req_tag == tag {
                        let played = played_per_tag.get(tag);
                        if played >= limit {
                            proof {
                                assert(match requirements@[j as int] {
                                    ContractRequirementKind::CardTagConstraint { tag: t, max: Some(limit), .. } => t
                                        == tag && tag_count_of(played_per_tag@, tag) >= limit,
                                    _ => false,
                                });
                                assert(tag_capped(requirements@, played_per_tag@, tag));
                                assert(banned_tag_from(card_tags@, requirements@, played_per_tag@, i as int) == Some(tag));
                            }
                            return Some(tag);
                        }
                    }
                },
                _ => {},
            }
            j = j + 1;
        }
        proof {
            assert(!tag_capped(requirements@, played_per_tag@, tag));
        }
        i = i + 1;
    }
    None
}

} // verus!
