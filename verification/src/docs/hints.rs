//! Strategy hints and tips endpoint.

use vstd::prelude::*;

use crate::docs::texts_view;

verus! {

/// A named strategy with description.
pub struct Strategy {
    pub name: String,
    pub description: String,
}

/// Hints and strategies for a specific contract tier.
pub struct TierHints {
    pub tier: u32,
    pub overview: String,
    pub strategies: Vec<Strategy>,
    pub common_pitfalls: Vec<String>,
    pub tips: Vec<String>,
}

/// Complete hints guide covering general gameplay and per-tier strategies.
pub struct HintsGuide {
    pub title: String,
    pub general_tips: Vec<String>,
    pub tiers: Vec<TierHints>,
}

/// The text of a strategy.
#[verifier::ext_equal]
pub struct StrategySpec {
    pub name: Seq<char>,
    pub description: Seq<char>,
}

/// The text of a tier's hints.
#[verifier::ext_equal]
pub struct TierHintsSpec {
    pub tier: u32,
    pub overview: Seq<char>,
    pub strategies: Seq<StrategySpec>,
    pub common_pitfalls: Seq<Seq<char>>,
    pub tips: Seq<Seq<char>>,
}

/// The text of the hints guide.
#[verifier::ext_equal]
pub struct HintsGuideSpec {
    pub title: Seq<char>,
    pub general_tips: Seq<Seq<char>>,
    pub tiers: Seq<TierHintsSpec>,
}

impl View for Strategy {
    type V = StrategySpec;

    open spec fn view(&self) -> StrategySpec {
        StrategySpec { name: self.name@, description: self.description@ }
    }
}

impl View for TierHints {
    type V = TierHintsSpec;

    open spec fn view(&self) -> TierHintsSpec {
        TierHintsSpec {
            tier: self.tier,
            overview: self.overview@,
            strategies: self.strategies@.map_values(|x: Strategy| x@),
            common_pitfalls: texts_view(self.common_pitfalls@),
            tips: texts_view(self.tips@),
        }
    }
}

impl View for HintsGuide {
    type V = HintsGuideSpec;

    open spec fn view(&self) -> HintsGuideSpec {
        HintsGuideSpec {
            title: self.title@,
            general_tips: texts_view(self.general_tips@),
            tiers: self.tiers@.map_values(|x: TierHints| x@),
        }
    }
}

/// The content of `build_hints`.
pub open spec fn hints_doc() -> HintsGuideSpec {
    HintsGuideSpec {
        title: "My Little Factory Manager — Hints & Strategies"@,
        general_tips: seq![
            "Always check /actions/possible before acting — it shows exactly what's valid."@,
            "Use /player/tokens to monitor your resource levels between card plays."@,
            "Your hand persists between contracts, so plan ahead."@,
            "Playing a card is almost always better than discarding — the discard bonus is intentionally small."@,
            "Check the reward card preview before accepting a contract — some rewards are better than others."@,
            "Completing 10 contracts in a tier unlocks the next tier with new challenges and stronger reward cards."@,
            "The seed + action log is your save file — use GET /actions/history to export it."@,
            "Between contracts, use ReplaceCard to swap weak deck cards for strong shelved reward cards."@,
            "ReplaceCard costs a sacrifice from shelved copies — choose carefully which card to permanently destroy."@,
            "Reward cards always go to the shelf — use ReplaceCard to bring them into your active cycle."@,
            "Use /metrics to track your efficiency — lower average cards per contract means you're improving."@,
            "Contracts can fail — check HarmfulTokenLimit requirements before accepting to avoid nasty surprises."@,
            "After a contract failure, the adaptive system eases difficulty — it's okay to fail occasionally."@,
            "Check adaptive_adjustments on offered contracts to see how the game is adapting to your style."@,
            "Diversify your strategies to keep adaptive pressure balanced — specialization gets punished over time."@,
        ],
        tiers: seq![
            tier0_hints_doc(),
            tier1_hints_doc(),
            tier6_hints_doc(),
            tier12_hints_doc(),
        ],
    }
}

/// The hints guide: 15 general tips, then hints for tiers 0, 1, 6 and 12 in that order.
pub fn build_hints() -> (r: HintsGuide)
    ensures
        r@ == hints_doc(),
        r.title@ == "My Little Factory Manager — Hints & Strategies"@,
        r.general_tips@.len() == 15,
        r.tiers@.len() == 4,
        r.tiers@[0].tier == 0,
        r.tiers@[1].tier == 1,
        r.tiers@[2].tier == 6,
        r.tiers@[3].tier == 12,
{
    let r = HintsGuide {
        title: String::from_str("My Little Factory Manager — Hints & Strategies"),
        general_tips: vec![
            String::from_str("Always check /actions/possible before acting — it shows exactly what's valid."),
            String::from_str("Use /player/tokens to monitor your resource levels between card plays."),
            String::from_str("Your hand persists between contracts, so plan ahead."),
            String::from_str("Playing a card is almost always better than discarding — the discard bonus is intentionally small."),
            String::from_str("Check the reward card preview before accepting a contract — some rewards are better than others."),
            String::from_str("Completing 10 contracts in a tier unlocks the next tier with new challenges and stronger reward cards."),
            String::from_str("The seed + action log is your save file — use GET /actions/history to export it."),
            String::from_str("Between contracts, use ReplaceCard to swap weak deck cards for strong shelved reward cards."),
            String::from_str("ReplaceCard costs a sacrifice from shelved copies — choose carefully which card to permanently destroy."),
            String::from_str("Reward cards always go to the shelf — use ReplaceCard to bring them into your active cycle."),
            String::from_str("Use /metrics to track your efficiency — lower average cards per contract means you're improving."),
            String::from_str("Contracts can fail — check HarmfulTokenLimit requirements before accepting to avoid nasty surprises."),
            String::from_str("After a contract failure, the adaptive system eases difficulty — it's okay to fail occasionally."),
            String::from_str("Check adaptive_adjustments on offered contracts to see how the game is adapting to your style."),
            String::from_str("Diversify your strategies to keep adaptive pressure balanced — specialization gets punished over time."),
        ],
        tiers: vec![
            build_tier0_hints(),
            build_tier1_hints(),
            build_tier6_hints(),
            build_tier12_hints(),
        ],
    };
    assert(r@ =~~= hints_doc());
    r
}

/// The content of `build_tier0_hints`.
pub open spec fn tier0_hints_doc() -> TierHintsSpec {
    TierHintsSpec {
        tier: 0,
        overview: "Tier 0 contracts have a single TokenRequirement min (formerly OutputThreshold): \
            produce enough ProductionUnits. Your starter deck contains only pure production cards \
            with no inputs required."@,
        strategies: seq![
            StrategySpec {
                name: "Focus on high-output cards"@,
                description: "Prioritize playing cards that produce 5-7 ProductionUnits \
                    over weaker cards. Save discards for the weakest cards in your hand."@,
            },
            StrategySpec {
                name: "Choose lower-threshold contracts first"@,
                description: "When starting out, pick contracts with the lowest \
                    ProductionUnit threshold. This lets you complete them faster and \
                    accumulate reward cards that strengthen your deck."@,
            },
            StrategySpec {
                name: "Build your deck through rewards"@,
                description: "Each completed contract adds its reward card to the \
                    shelf. Use ReplaceCard between contracts to swap these stronger cards \
                    into your active cycle."@,
            },
            StrategySpec {
                name: "Replace weak starter cards"@,
                description: "Once you have shelved reward cards, use ReplaceCard between \
                    contracts to swap weak 2-ProductionUnit starter cards for stronger rewards. \
                    Sacrifice the weakest card you own to minimize loss."@,
            },
        ],
        common_pitfalls: seq![
            "Discarding too much — the 1 ProductionUnit bonus adds up slowly compared to playing cards."@,
            "Ignoring the reward card preview — always compare reward cards between available contracts."@,
            "Not checking /state between plays — you might already meet the contract threshold."@,
        ],
        tips: seq![
            "Starter cards produce 2-7 ProductionUnits per play (generated via tier 0 formula)."@,
            "Tier 0 thresholds range from 5-15 ProductionUnits."@,
            "The market always has 3 contracts available per tier."@,
            "After completing a contract, the market refills (not regenerates) — remaining contracts stay."@,
        ],
    }
}

/// Hints for tier 0: 4 strategies, 3 common pitfalls and 4 tips.
pub fn build_tier0_hints() -> (r: TierHints)
    ensures
        r@ == tier0_hints_doc(),
        r.tier == 0,
        r.strategies@.len() == 4,
        r.common_pitfalls@.len() == 3,
        r.tips@.len() == 4,
{
    let r = TierHints {
        tier: 0,
        overview: String::from_str("Tier 0 contracts have a single TokenRequirement min (formerly OutputThreshold): \
            produce enough ProductionUnits. Your starter deck contains only pure production cards \
            with no inputs required."),
        strategies: vec![
            Strategy {
                name: String::from_str("Focus on high-output cards"),
                description: String::from_str("Prioritize playing cards that produce 5-7 ProductionUnits \
                    over weaker cards. Save discards for the weakest cards in your hand."),
            },
            Strategy {
                name: String::from_str("Choose lower-threshold contracts first"),
                description: String::from_str("When starting out, pick contracts with the lowest \
                    ProductionUnit threshold. This lets you complete them faster and \
                    accumulate reward cards that strengthen your deck."),
            },
            Strategy {
                name: String::from_str("Build your deck through rewards"),
                description: String::from_str("Each completed contract adds its reward card to the \
                    shelf. Use ReplaceCard between contracts to swap these stronger cards \
                    into your active cycle."),
            },
            Strategy {
                name: String::from_str("Replace weak starter cards"),
                description: String::from_str("Once you have shelved reward cards, use ReplaceCard between \
                    contracts to swap weak 2-ProductionUnit starter cards for stronger rewards. \
                    Sacrifice the weakest card you own to minimize loss."),
            },
        ],
        common_pitfalls: vec![
            String::from_str("Discarding too much — the 1 ProductionUnit bonus adds up slowly compared to playing cards."),
            String::from_str("Ignoring the reward card preview — always compare reward cards between available contracts."),
            String::from_str("Not checking /state between plays — you might already meet the contract threshold."),
        ],
        tips: vec![
            String::from_str("Starter cards produce 2-7 ProductionUnits per play (generated via tier 0 formula)."),
            String::from_str("Tier 0 thresholds range from 5-15 ProductionUnits."),
            String::from_str("The market always has 3 contracts available per tier."),
            String::from_str("After completing a contract, the market refills (not regenerates) — remaining contracts stay."),
        ],
    };
    assert(r@ =~~= tier0_hints_doc());
    r
}

/// The content of `build_tier1_hints`.
pub open spec fn tier1_hints_doc() -> TierHintsSpec {
    TierHintsSpec {
        tier: 1,
        overview: "Tier 1 introduces Heat — your first harmful token. Contracts may \
            include a TokenRequirement max (formerly HarmfulTokenLimit) constraining how \
            much Heat you can accumulate. Heat producer and remover card effects become \
            available, along with self-consuming variations."@,
        strategies: seq![
            StrategySpec {
                name: "Balance production and Heat management"@,
                description: "Some reward cards produce Heat as a byproduct of higher \
                    output. Watch for TokenRequirement max constraints — you \
                    may need Heat removal cards in your deck."@,
            },
            StrategySpec {
                name: "Use self-consuming variations"@,
                description: "Self-consuming variations (e.g., PU producer that also \
                    consumes PU) are strictly better than pure effects due to the \
                    boost_factor. Seek these in reward cards."@,
            },
            StrategySpec {
                name: "Consider variation tradeoffs"@,
                description: "Variations with harmful output (Heat) boost your primary \
                    production. Variations that remove harm or produce extra beneficial \
                    tokens reduce it. Choose based on your contract requirements."@,
            },
            StrategySpec {
                name: "Manage harmful tokens proactively"@,
                description: "Harmful tokens persist between contracts. If you accept a \
                    contract with a tight max bound and you're already near the cap, \
                    you risk immediate failure. Clean up before accepting tight contracts."@,
            },
            StrategySpec {
                name: "Adapt to the adaptive system"@,
                description: "If contracts keep tightening Heat max bounds, the game is \
                    pushing you to diversify. Try strategies that produce less Heat, or \
                    invest in Heat removal cards. The pressure relaxes once you shift."@,
            },
        ],
        common_pitfalls: seq![
            "Ignoring Heat accumulation — TokenRequirement max contracts will fail if Heat spirals."@,
            "Only chasing raw ProductionUnit output — balance matters more than max output."@,
            "Accepting contracts with tight max bounds when your harmful token balance is already high."@,
            "Over-specializing in one strategy — the adaptive system gradually tightens requirements on dominant approaches."@,
        ],
        tips: seq![
            "Heat is the first harmful token introduced at tier 1."@,
            "TokenRequirement max bounds cap how much of a harmful token you can have."@,
            "Variation effects with direction_sign +1 boost primary output (tradeoff for the player)."@,
            "Variation effects with direction_sign -1 reduce primary output (advantage for the player)."@,
        ],
    }
}

/// Hints for tier 1: 5 strategies, 4 common pitfalls and 4 tips.
pub fn build_tier1_hints() -> (r: TierHints)
    ensures
        r@ == tier1_hints_doc(),
        r.tier == 1,
        r.strategies@.len() == 5,
        r.common_pitfalls@.len() == 4,
        r.tips@.len() == 4,
{
    let r = TierHints {
        tier: 1,
        overview: String::from_str("Tier 1 introduces Heat — your first harmful token. Contracts may \
            include a TokenRequirement max (formerly HarmfulTokenLimit) constraining how \
            much Heat you can accumulate. Heat producer and remover card effects become \
            available, along with self-consuming variations."),
        strategies: vec![
            Strategy {
                name: String::from_str("Balance production and Heat management"),
                description: String::from_str("Some reward cards produce Heat as a byproduct of higher \
                    output. Watch for TokenRequirement max constraints — you \
                    may need Heat removal cards in your deck."),
            },
            Strategy {
                name: String::from_str("Use self-consuming variations"),
                description: String::from_str("Self-consuming variations (e.g., PU producer that also \
                    consumes PU) are strictly better than pure effects due to the \
                    boost_factor. Seek these in reward cards."),
            },
            Strategy {
                name: String::from_str("Consider variation tradeoffs"),
                description: String::from_str("Variations with harmful output (Heat) boost your primary \
                    production. Variations that remove harm or produce extra beneficial \
                    tokens reduce it. Choose based on your contract requirements."),
            },
            Strategy {
                name: String::from_str("Manage harmful tokens proactively"),
                description: String::from_str("Harmful tokens persist between contracts. If you accept a \
                    contract with a tight max bound and you're already near the cap, \
                    you risk immediate failure. Clean up before accepting tight contracts."),
            },
            Strategy {
                name: String::from_str("Adapt to the adaptive system"),
                description: String::from_str("If contracts keep tightening Heat max bounds, the game is \
                    pushing you to diversify. Try strategies that produce less Heat, or \
                    invest in Heat removal cards. The pressure relaxes once you shift."),
            },
        ],
        common_pitfalls: vec![
            String::from_str("Ignoring Heat accumulation — TokenRequirement max contracts will fail if Heat spirals."),
            String::from_str("Only chasing raw ProductionUnit output — balance matters more than max output."),
            String::from_str("Accepting contracts with tight max bounds when your harmful token balance is already high."),
            String::from_str("Over-specializing in one strategy — the adaptive system gradually tightens requirements on dominant approaches."),
        ],
        tips: vec![
            String::from_str("Heat is the first harmful token introduced at tier 1."),
            String::from_str("TokenRequirement max bounds cap how much of a harmful token you can have."),
            String::from_str("Variation effects with direction_sign +1 boost primary output (tradeoff for the player)."),
            String::from_str("Variation effects with direction_sign -1 reduce primary output (advantage for the player)."),
        ],
    };
    assert(r@ =~~= tier1_hints_doc());
    r
}

/// The content of `build_tier6_hints`.
pub open spec fn tier6_hints_doc() -> TierHintsSpec {
    TierHintsSpec {
        tier: 6,
        overview: "Tier 6 introduces TurnWindow requirements in three progressive variants. \
            Only-Max (deadline): max_turn set — exceeding it fails immediately. \
            Only-Min (earliest-start, unlocks at tier 10): min_turn set — cannot complete early. \
            Both (window, unlocks at tier 14): must complete between turns. \
            Windows narrow at higher tiers, rewarding efficient deck construction."@,
        strategies: seq![
            StrategySpec {
                name: "Prioritize high-output cards"@,
                description: "With a hard turn limit, you cannot afford weak plays. \
                    Build your deck to consistently hit high output per turn so you \
                    reach the completion threshold within the window."@,
            },
            StrategySpec {
                name: "Know your expected turns-to-complete"@,
                description: "Before accepting a TurnWindow contract, estimate how many \
                    turns your current deck needs. If the deadline is 8 turns and you \
                    typically need 12, you have little margin — consider a different contract."@,
            },
            StrategySpec {
                name: "Balance speed and patience"@,
                description: "Only-Min contracts (min_turn only) reward patience — you cannot \
                    rush them. Only-Max is pure speed pressure. Full-window contracts require both. \
                    Choose the variant that fits your current deck's cadence."@,
            },
        ],
        common_pitfalls: seq![
            "Accepting a tight-deadline contract before optimizing your deck."@,
            "Forgetting to check contract_turns_played in /state — missing how close you are to max_turn."@,
            "Playing cards that don't contribute to completion — every turn matters with a window constraint."@,
        ],
        tips: seq![
            "TurnWindow unlocks at tier 6 (Energy→Waste gap in the token unlock schedule)."@,
            "contract_turns_played in /state shows how many turns you've used."@,
            "Only-Min contracts (min_turn only) cannot fail from the turn constraint — only from token bounds."@,
            "max_turn is hard — exceeding it immediately fails the contract with no reward."@,
        ],
    }
}

/// Hints for tier 6: 3 strategies, 3 common pitfalls and 4 tips.
pub fn build_tier6_hints() -> (r: TierHints)
    ensures
        r@ == tier6_hints_doc(),
        r.tier == 6,
        r.strategies@.len() == 3,
        r.common_pitfalls@.len() == 3,
        r.tips@.len() == 4,
{
    let r = TierHints {
        tier: 6,
        overview: String::from_str("Tier 6 introduces TurnWindow requirements in three progressive variants. \
            Only-Max (deadline): max_turn set — exceeding it fails immediately. \
            Only-Min (earliest-start, unlocks at tier 10): min_turn set — cannot complete early. \
            Both (window, unlocks at tier 14): must complete between turns. \
            Windows narrow at higher tiers, rewarding efficient deck construction."),
        strategies: vec![
            Strategy {
                name: String::from_str("Prioritize high-output cards"),
                description: String::from_str("With a hard turn limit, you cannot afford weak plays. \
                    Build your deck to consistently hit high output per turn so you \
                    reach the completion threshold within the window."),
            },
            Strategy {
                name: String::from_str("Know your expected turns-to-complete"),
                description: String::from_str("Before accepting a TurnWindow contract, estimate how many \
                    turns your current deck needs. If the deadline is 8 turns and you \
                    typically need 12, you have little margin — consider a different contract."),
            },
            Strategy {
                name: String::from_str("Balance speed and patience"),
                description: String::from_str("Only-Min contracts (min_turn only) reward patience — you cannot \
                    rush them. Only-Max is pure speed pressure. Full-window contracts require both. \
                    Choose the variant that fits your current deck's cadence."),
            },
        ],
        common_pitfalls: vec![
            String::from_str("Accepting a tight-deadline contract before optimizing your deck."),
            String::from_str("Forgetting to check contract_turns_played in /state — missing how close you are to max_turn."),
            String::from_str("Playing cards that don't contribute to completion — every turn matters with a window constraint."),
        ],
        tips: vec![
            String::from_str("TurnWindow unlocks at tier 6 (Energy→Waste gap in the token unlock schedule)."),
            String::from_str("contract_turns_played in /state shows how many turns you've used."),
            String::from_str("Only-Min contracts (min_turn only) cannot fail from the turn constraint — only from token bounds."),
            String::from_str("max_turn is hard — exceeding it immediately fails the contract with no reward."),
        ],
    };
    assert(r@ =~~= tier6_hints_doc());
    r
}

/// The content of `build_tier12_hints`.
pub open spec fn tier12_hints_doc() -> TierHintsSpec {
    TierHintsSpec {
        tier: 12,
        overview: "Tier 12 introduces CardTagConstraint requirements in three progressive variants. \
            Only-Max (tier 12): max only — at most N cards with this tag; 0 is a full ban. \
            Only-Min (tier 16): min only — must play at least N cards with this tag. \
            Both (tier 20): range — must play between N and M cards of this tag. \
            The valid_card_indices in /actions/possible already filters out banned/over-limit cards."@,
        strategies: seq![
            StrategySpec {
                name: "Check tag constraints before accepting"@,
                description: "Read the CardTagConstraint requirements carefully before \
                    accepting. A banned tag (max=0) you rely on heavily may make the contract \
                    very difficult. Choose contracts compatible with your deck composition."@,
            },
            StrategySpec {
                name: "Build a balanced deck across tags"@,
                description: "If your deck is all Production cards, a contract banning \
                    Production will be nearly impossible. Diversify your deck across \
                    Production, Transformation, and QualityControl to handle any ban."@,
            },
            StrategySpec {
                name: "Leverage must-play constraints strategically"@,
                description: "Contracts with a min CardTagConstraint (must play N of a tag) \
                    pair well with decks strong in that tag. Accept these contracts when \
                    your deck naturally plays many cards of the required type."@,
            },
        ],
        common_pitfalls: seq![
            "Accepting a contract that bans your primary strategy tag without a backup plan."@,
            "Not checking /actions/possible — banned tag plays are blocked, not silently ignored."@,
            "Ignoring min constraints — you must play the required number of tagged cards or the contract won't complete."@,
        ],
        tips: seq![
            "CardTagConstraint unlocks at tier 12 (Waste→QP gap in the token unlock schedule)."@,
            "valid_card_indices in /actions/possible already excludes banned/over-limit cards."@,
            "cards_played_per_tag_contract in /state shows your progress against tag constraints."@,
            "Tag constraints reset with each new contract — they track per-contract play counts."@,
        ],
    }
}

/// Hints for tier 12: 3 strategies, 3 common pitfalls and 4 tips.
pub fn build_tier12_hints() -> (r: TierHints)
    ensures
        r@ == tier12_hints_doc(),
        r.tier == 12,
        r.strategies@.len() == 3,
        r.common_pitfalls@.len() == 3,
        r.tips@.len() == 4,
{
    let r = TierHints {
        tier: 12,
        overview: String::from_str("Tier 12 introduces CardTagConstraint requirements in three progressive variants. \
            Only-Max (tier 12): max only — at most N cards with this tag; 0 is a full ban. \
            Only-Min (tier 16): min only — must play at least N cards with this tag. \
            Both (tier 20): range — must play between N and M cards of this tag. \
            The valid_card_indices in /actions/possible already filters out banned/over-limit cards."),
        strategies: vec![
            Strategy {
                name: String::from_str("Check tag constraints before accepting"),
                description: String::from_str("Read the CardTagConstraint requirements carefully before \
                    accepting. A banned tag (max=0) you rely on heavily may make the contract \
                    very difficult. Choose contracts compatible with your deck composition."),
            },
            Strategy {
                name: String::from_str("Build a balanced deck across tags"),
                description: String::from_str("If your deck is all Production cards, a contract banning \
                    Production will be nearly impossible. Diversify your deck across \
                    Production, Transformation, and QualityControl to handle any ban."),
            },
            Strategy {
                name: String::from_str("Leverage must-play constraints strategically"),
                description: String::from_str("Contracts with a min CardTagConstraint (must play N of a tag) \
                    pair well with decks strong in that tag. Accept these contracts when \
                    your deck naturally plays many cards of the required type."),
            },
        ],
        common_pitfalls: vec![
            String::from_str("Accepting a contract that bans your primary strategy tag without a backup plan."),
            String::from_str("Not checking /actions/possible — banned tag plays are blocked, not silently ignored."),
            String::from_str("Ignoring min constraints — you must play the required number of tagged cards or the contract won't complete."),
        ],
        tips: vec![
            String::from_str("CardTagConstraint unlocks at tier 12 (Waste→QP gap in the token unlock schedule)."),
            String::from_str("valid_card_indices in /actions/possible already excludes banned/over-limit cards."),
            String::from_str("cards_played_per_tag_contract in /state shows your progress against tag constraints."),
            String::from_str("Tag constraints reset with each new contract — they track per-contract play counts."),
        ],
    };
    assert(r@ =~~= tier12_hints_doc());
    r
}

} // verus!
