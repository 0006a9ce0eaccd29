//! New-player tutorial walkthrough endpoint.

use vstd::prelude::*;

use crate::docs::texts_view;

verus! {

/// A single step in the new-player tutorial walkthrough.
pub struct TutorialStep {
    pub step: u32,
    pub title: String,
    pub description: String,
    pub endpoint: String,
    pub method: String,
    pub example_body: Option<String>,
    pub tips: Vec<String>,
}

/// Complete new-player tutorial for learning the game through the API.
pub struct Tutorial {
    pub title: String,
    pub introduction: String,
    pub core_concepts: Vec<String>,
    pub steps: Vec<TutorialStep>,
    pub next_steps: Vec<String>,
}

/// The text of a tutorial step.
#[verifier::ext_equal]
pub struct TutorialStepSpec {
    pub step: u32,
    pub title: Seq<char>,
    pub description: Seq<char>,
    pub endpoint: Seq<char>,
    pub method: Seq<char>,
    pub example_body: Option<Seq<char>>,
    pub tips: Seq<Seq<char>>,
}

/// The text of the tutorial.
#[verifier::ext_equal]
pub struct TutorialSpec {
    pub title: Seq<char>,
    pub introduction: Seq<char>,
    pub core_concepts: Seq<Seq<char>>,
    pub steps: Seq<TutorialStepSpec>,
    pub next_steps: Seq<Seq<char>>,
}

impl View for TutorialStep {
    type V = TutorialStepSpec;

    open spec fn view(&self) -> TutorialStepSpec {
        TutorialStepSpec {
            step: self.step,
            title: self.title@,
            description: self.description@,
            endpoint: self.endpoint@,
            method: self.method@,
            example_body: match self.example_body {
                Some(b) => Some(b@),
                None => None,
            },
            tips: texts_view(self.tips@),
        }
    }
}

impl View for Tutorial {
    type V = TutorialSpec;

    open spec fn view(&self) -> TutorialSpec {
        TutorialSpec {
            title: self.title@,
            introduction: self.introduction@,
            core_concepts: texts_view(self.core_concepts@),
            steps: self.steps@.map_values(|s: TutorialStep| s@),
            next_steps: texts_view(self.next_steps@),
        }
    }
}

/// A step calls the game's API: every POST goes to `/action` with an
/// example body, and every GET step has none.
pub open spec fn step_calls_api(s: TutorialStep) -> bool {
    ||| (s.method@ == "POST"@ && s.endpoint@ == "/action"@ && s.example_body is Some)
    ||| (s.method@ == "GET"@ && s.example_body is None)
}

/// The content of `build_tutorial`.
pub open spec fn tutorial_doc() -> TutorialSpec {
    TutorialSpec {
        title: "My Little Factory Manager — New Player Tutorial"@,
        introduction: "Welcome! You are a factory manager fulfilling contracts from an \
            open market. Each contract defines production requirements that must be satisfied \
            using player action cards drawn from your deck. The game is fully deterministic \
            — the same seed and actions always produce the same result."@,
        core_concepts: seq![
            "Cards cycle through locations: Library → Deck → Hand → Discard → (shuffle back to Deck)."@,
            "Tokens are persistent resources (beneficial or harmful) that carry between contracts."@,
            "Contracts define production goals — fulfill all requirements to complete them and earn reward cards."@,
            "Your hand persists between contracts — it carries over from one contract to the next."@,
            "Seed + action log = save/load. The same seed and actions reproduce the exact same game state."@,
            "Use /actions/possible to see what you can do right now."@,
        ],
        steps: seq![
            TutorialStepSpec {
                step: 1,
                title: "Start a New Game"@,
                description: "Initialize the game with a seed for reproducible gameplay. \
                    If you omit the seed, a random one is generated."@,
                endpoint: "/action"@,
                method: "POST"@,
                example_body: Some(r#"{"action_type": "NewGame", "seed": 42}"#@),
                tips: seq![
                    "Use the same seed to replay a game identically."@,
                    "The response includes the seed used."@,
                ],
            },
            TutorialStepSpec {
                step: 2,
                title: "Check Your Starting State"@,
                description: "View the full game state: your hand, deck sizes, token \
                    balances, and offered contracts."@,
                endpoint: "/state"@,
                method: "GET"@,
                example_body: None,
                tips: seq![
                    "Your starting hand has 5 cards drawn from the starter deck."@,
                    "Token balances start empty — you produce tokens by playing cards."@,
                ],
            },
            TutorialStepSpec {
                step: 3,
                title: "Check Available Actions"@,
                description: "The /actions/possible endpoint tells you exactly what \
                    you can do right now. Use it whenever you're unsure of valid moves."@,
                endpoint: "/actions/possible"@,
                method: "GET"@,
                example_body: None,
                tips: seq![
                    "Without an active contract, you'll see AcceptContract actions."@,
                    "With an active contract, you'll see PlayCard and DiscardCard actions."@,
                    "After 5 turns on a contract, AbandonContract also appears as an emergency escape."@,
                ],
            },
            TutorialStepSpec {
                step: 4,
                title: "Browse the Contract Market"@,
                description: "View the available contracts grouped by tier. Each contract \
                    shows its requirements and the reward card you'll earn upon completion."@,
                endpoint: "/contracts/available"@,
                method: "GET"@,
                example_body: None,
                tips: seq![
                    "Tier 0 contracts require producing a certain number of ProductionUnits."@,
                    "The reward card preview shows exactly what card you'll get."@,
                    "3 contracts are offered per unlocked tier."@,
                ],
            },
            TutorialStepSpec {
                step: 5,
                title: "Accept a Contract"@,
                description: "Pick a contract from the market by specifying its tier index \
                    and contract index."@,
                endpoint: "/action"@,
                method: "POST"@,
                example_body: Some(
                    r#"{"action_type": "AcceptContract", "tier_index": 0, "contract_index": 0}"#@,
                ),
                tips: seq![
                    "You can only have one active contract at a time."@,
                    "Choose contracts whose requirements match your available cards."@,
                ],
            },
            TutorialStepSpec {
                step: 6,
                title: "Play Cards to Produce Tokens"@,
                description: "Play a card by its index in the /state cards Vec. The card \
                    must have hand > 0. Each card's effects add or remove tokens. A \
                    replacement card is drawn from the deck. Check /actions/possible for \
                    valid_card_indices — at higher tiers, some cards may be excluded due \
                    to CardTagConstraint limits."@,
                endpoint: "/action"@,
                method: "POST"@,
                example_body: Some(
                    r#"{"action_type": "PlayCard", "card_index": 0}"#@,
                ),
                tips: seq![
                    "Playing a card applies all its effects (inputs consumed, outputs produced)."@,
                    "After playing, a new card is drawn from the deck."@,
                    "The contract auto-completes as soon as all requirements are met."@,
                    "valid_card_indices in /actions/possible already filters out banned/over-limit cards."@,
                ],
            },
            TutorialStepSpec {
                step: 7,
                title: "Discard for Progress"@,
                description: "If your hand isn't ideal, you can discard any card for a \
                    small baseline production bonus (1 ProductionUnit). Pass the card_index \
                    (into the /state cards Vec) of a card with hand > 0."@,
                endpoint: "/action"@,
                method: "POST"@,
                example_body: Some(
                    r#"{"action_type": "DiscardCard", "card_index": 0}"#@,
                ),
                tips: seq![
                    "Discarding prevents dead turns — every card has some value."@,
                    "The bonus is small, so playing cards is usually better."@,
                ],
            },
            TutorialStepSpec {
                step: 8,
                title: "Contract Completion and Rewards"@,
                description: "When all requirements are met, the contract auto-completes. \
                    The required tokens are subtracted, you earn the reward card, and the \
                    market refills. Reward cards always go to the shelf — they \
                    are owned but not in the active cycle until you use ReplaceCard to \
                    bring them in."@,
                endpoint: "/state"@,
                method: "GET"@,
                example_body: None,
                tips: seq![
                    "Reward cards make your deck stronger over time."@,
                    "Completing 10 contracts in a tier unlocks the next tier."@,
                    "Use ReplaceCard between contracts to bring reward cards into your active cycle."@,
                ],
            },
            TutorialStepSpec {
                step: 9,
                title: "Contract Failure"@,
                description: "Some contracts have a turn-window constraint with optional \
                    lower and upper bounds. A deadline-only contract (max_turn set) fails if \
                    you exceed max_turn. An earliest-start contract (min_turn set) cannot \
                    complete before min_turn. A full window contract has both. \
                    At tier 12+, playing a banned tag (CardTagConstraint max=0) is blocked \
                    outright — the server rejects the action before it can cause failure."@,
                endpoint: "/state"@,
                method: "GET"@,
                example_body: None,
                tips: seq![
                    "Check TokenRequirement max bounds before accepting — exceeding them fails the contract."@,
                    "TurnWindow max_turn is a hard deadline — exceeding it is an immediate failure."@,
                    "TurnWindow min_turn prevents rushing — the contract cannot complete before that turn."@,
                    "At tier 12+, check valid_card_indices in /actions/possible to avoid banned tag plays."@,
                    "Failure is not game-over — it just means no reward and a broken streak."@,
                    "After failure, the adaptive system eases difficulty, giving you breathing room."@,
                    "The contract_turns_played field in /state shows how many turns you've used."@,
                    "AbandonContract becomes available after 5 turns as a last resort — it counts as a failure."@,
                    "Use AbandonContract only if truly stuck (e.g., all cards banned); it breaks your streak."@,
                ],
            },
            TutorialStepSpec {
                step: 10,
                title: "Adaptive Balance"@,
                description: "The game adapts to your playstyle. Contracts you see in the \
                    market are adjusted based on your behavior: if you produce a lot of \
                    Heat, future contracts tighten Heat limits; if you stop producing \
                    something, its pressure relaxes over time."@,
                endpoint: "/metrics"@,
                method: "GET"@,
                example_body: None,
                tips: seq![
                    "Check adaptive_adjustments on each contract to see how requirements were modified."@,
                    "The /metrics endpoint shows your current adaptive_pressure per token type."@,
                    "Failing a contract relaxes all pressure — the system is forgiving."@,
                    "Diversifying your strategy keeps pressure balanced across token types."@,
                ],
            },
            TutorialStepSpec {
                step: 11,
                title: "Manage Your Deck (Deckbuilding)"@,
                description: "Between contracts, you can use ReplaceCard to swap a card \
                    in your deck or discard (auto-selected: deck first, then discard) \
                    with a shelved card. The cost is permanently \
                    destroying a third card (sacrifice from shelved copies). This is the \
                    only way to change your active cycle composition."@,
                endpoint: "/action"@,
                method: "POST"@,
                example_body: Some(
                    r#"{"action_type": "ReplaceCard", "target_card_index": 0, "replacement_card_index": 3, "sacrifice_card_index": 1}"#@,
                ),
                tips: seq![
                    "ReplaceCard is only available between contracts (no active contract)."@,
                    "The replacement card must have copies on the shelf (shelved > 0)."@,
                    "The sacrifice must also come from shelved copies — you cannot sacrifice active cards."@,
                    "You cannot sacrifice the same card you are replacing."@,
                    "The target location is auto-selected: deck first, then discard."@,
                    "Use /actions/possible to see valid ReplaceCard index ranges."@,
                    "Improve your deck quality by replacing weak starter cards with strong reward cards."@,
                ],
            },
            TutorialStepSpec {
                step: 12,
                title: "Browse Your Card Catalogue"@,
                description: "View all your cards and their location counts. Filter by \
                    tag to find specific card types."@,
                endpoint: "/library/cards"@,
                method: "GET"@,
                example_body: None,
                tips: seq![
                    "Use ?tag=Production to see only production cards."@,
                    "Card counts show how many copies are in each location."@,
                    "shelved = copies on the shelf; deck+hand+discard = copies in the active cycle."@,
                ],
            },
            TutorialStepSpec {
                step: 13,
                title: "Save and Replay"@,
                description: "The action history endpoint returns every action taken. \
                    Combined with the seed from /state, replaying these actions on a \
                    fresh game produces the exact same state."@,
                endpoint: "/actions/history"@,
                method: "GET"@,
                example_body: None,
                tips: seq![
                    "This is the save/load mechanism — no separate save file needed."@,
                    "Same version + same seed + same actions = identical game state."@,
                ],
            },
        ],
        next_steps: seq![
            "Keep completing contracts to unlock higher tiers with new challenges."@,
            "Check /metrics to track your gameplay statistics — completions, efficiency, and streaks."@,
            "Check /docs/hints for strategies and tips."@,
            "Check /docs/designer for how contracts, cards, and tokens work."@,
            "Explore /swagger/ for the complete interactive API documentation."@,
            "Use /player/tokens to monitor your resource balances."@,
        ],
    }
}

/// The new-player tutorial: thirteen steps numbered from one, each calling
/// the API as its method says, framed by six core concepts and six next steps.
pub fn build_tutorial() -> (r: Tutorial)
    ensures
        r@ == tutorial_doc(),
        r.title@ == "My Little Factory Manager — New Player Tutorial"@,
        r.core_concepts@.len() == 6,
        r.next_steps@.len() == 6,
        r.steps@.len() == 13,
        forall|i: int| 0 <= i < r.steps@.len() ==> (#[trigger] r.steps@[i]).step == i + 1,
        forall|i: int| 0 <= i < r.steps@.len() ==> step_calls_api(#[trigger] r.steps@[i]),
{
    let r = Tutorial {
        title: String::from_str("My Little Factory Manager — New Player Tutorial"),
        introduction: String::from_str("Welcome! You are a factory manager fulfilling contracts from an \
            open market. Each contract defines production requirements that must be satisfied \
            using player action cards drawn from your deck. The game is fully deterministic \
            — the same seed and actions always produce the same result."),
        core_concepts: vec![
            String::from_str("Cards cycle through locations: Library → Deck → Hand → Discard → (shuffle back to Deck)."),
            String::from_str("Tokens are persistent resources (beneficial or harmful) that carry between contracts."),
            String::from_str("Contracts define production goals — fulfill all requirements to complete them and earn reward cards."),
            String::from_str("Your hand persists between contracts — it carries over from one contract to the next."),
            String::from_str("Seed + action log = save/load. The same seed and actions reproduce the exact same game state."),
            String::from_str("Use /actions/possible to see what you can do right now."),
        ],
        steps: vec![
            TutorialStep {
                step: 1,
                title: String::from_str("Start a New Game"),
                description: String::from_str("Initialize the game with a seed for reproducible gameplay. \
                    If you omit the seed, a random one is generated."),
                endpoint: String::from_str("/action"),
                method: String::from_str("POST"),
                example_body: Some(String::from_str(r#"{"action_type": "NewGame", "seed": 42}"#)),
                tips: vec![
                    String::from_str("Use the same seed to replay a game identically."),
                    String::from_str("The response includes the seed used."),
                ],
            },
            TutorialStep {
                step: 2,
                title: String::from_str("Check Your Starting State"),
                description: String::from_str("View the full game state: your hand, deck sizes, token \
                    balances, and offered contracts."),
                endpoint: String::from_str("/state"),
                method: String::from_str("GET"),
                example_body: None,
                tips: vec![
                    String::from_str("Your starting hand has 5 cards drawn from the starter deck."),
                    String::from_str("Token balances start empty — you produce tokens by playing cards."),
                ],
            },
            TutorialStep {
                step: 3,
                title: String::from_str("Check Available Actions"),
                description: String::from_str("The /actions/possible endpoint tells you exactly what \
                    you can do right now. Use it whenever you're unsure of valid moves."),
                endpoint: String::from_str("/actions/possible"),
                method: String::from_str("GET"),
                example_body: None,
                tips: vec![
                    String::from_str("Without an active contract, you'll see AcceptContract actions."),
                    String::from_str("With an active contract, you'll see PlayCard and DiscardCard actions."),
                    String::from_str("After 5 turns on a contract, AbandonContract also appears as an emergency escape."),
                ],
            },
            TutorialStep {
                step: 4,
                title: String::from_str("Browse the Contract Market"),
                description: String::from_str("View the available contracts grouped by tier. Each contract \
                    shows its requirements and the reward card you'll earn upon completion."),
                endpoint: String::from_str("/contracts/available"),
                method: String::from_str("GET"),
                example_body: None,
                tips: vec![
                    String::from_str("Tier 0 contracts require producing a certain number of ProductionUnits."),
                    String::from_str("The reward card preview shows exactly what card you'll get."),
                    String::from_str("3 contracts are offered per unlocked tier."),
                ],
            },
            TutorialStep {
                step: 5,
                title: String::from_str("Accept a Contract"),
                description: String::from_str("Pick a contract from the market by specifying its tier index \
                    and contract index."),
                endpoint: String::from_str("/action"),
                method: String::from_str("POST"),
                example_body: Some(
                    String::from_str(r#"{"action_type": "AcceptContract", "tier_index": 0, "contract_index": 0}"#),
                ),
                tips: vec![
                    String::from_str("You can only have one active contract at a time."),
                    String::from_str("Choose contracts whose requirements match your available cards."),
                ],
            },
            TutorialStep {
                step: 6,
                title: String::from_str("Play Cards to Produce Tokens"),
                description: String::from_str("Play a card by its index in the /state cards Vec. The card \
                    must have hand > 0. Each card's effects add or remove tokens. A \
                    replacement card is drawn from the deck. Check /actions/possible for \
                    valid_card_indices — at higher tiers, some cards may be excluded due \
                    to CardTagConstraint limits."),
                endpoint: String::from_str("/action"),
                method: String::from_str("POST"),
                example_body: Some(
                    String::from_str(r#"{"action_type": "PlayCard", "card_index": 0}"#),
                ),
                tips: vec![
                    String::from_str("Playing a card applies all its effects (inputs consumed, outputs produced)."),
                    String::from_str("After playing, a new card is drawn from the deck."),
                    String::from_str("The contract auto-completes as soon as all requirements are met."),
                    String::from_str("valid_card_indices in /actions/possible already filters out banned/over-limit cards."),
                ],
            },
            TutorialStep {
                step: 7,
                title: String::from_str("Discard for Progress"),
                description: String::from_str("If your hand isn't ideal, you can discard any card for a \
                    small baseline production bonus (1 ProductionUnit). Pass the card_index \
                    (into the /state cards Vec) of a card with hand > 0."),
                endpoint: String::from_str("/action"),
                method: String::from_str("POST"),
                example_body: Some(
                    String::from_str(r#"{"action_type": "DiscardCard", "card_index": 0}"#),
                ),
                tips: vec![
                    String::from_str("Discarding prevents dead turns — every card has some value."),
                    String::from_str("The bonus is small, so playing cards is usually better."),
                ],
            },
            TutorialStep {
                step: 8,
                title: String::from_str("Contract Completion and Rewards"),
                description: String::from_str("When all requirements are met, the contract auto-completes. \
                    The required tokens are subtracted, you earn the reward card, and the \
                    market refills. Reward cards always go to the shelf — they \
                    are owned but not in the active cycle until you use ReplaceCard to \
                    bring them in."),
                endpoint: String::from_str("/state"),
                method: String::from_str("GET"),
                example_body: None,
                tips: vec![
                    String::from_str("Reward cards make your deck stronger over time."),
                    String::from_str("Completing 10 contracts in a tier unlocks the next tier."),
                    String::from_str("Use ReplaceCard between contracts to bring reward cards into your active cycle."),
                ],
            },
            TutorialStep {
                step: 9,
                title: String::from_str("Contract Failure"),
                description: String::from_str("Some contracts have a turn-window constraint with optional \
                    lower and upper bounds. A deadline-only contract (max_turn set) fails if \
                    you exceed max_turn. An earliest-start contract (min_turn set) cannot \
                    complete before min_turn. A full window contract has both. \
                    At tier 12+, playing a banned tag (CardTagConstraint max=0) is blocked \
                    outright — the server rejects the action before it can cause failure."),
                endpoint: String::from_str("/state"),
                method: String::from_str("GET"),
                example_body: None,
                tips: vec![
                    String::from_str("Check TokenRequirement max bounds before accepting — exceeding them fails the contract."),
                    String::from_str("TurnWindow max_turn is a hard deadline — exceeding it is an immediate failure."),
                    String::from_str("TurnWindow min_turn prevents rushing — the contract cannot complete before that turn."),
                    String::from_str("At tier 12+, check valid_card_indices in /actions/possible to avoid banned tag plays."),
                    String::from_str("Failure is not game-over — it just means no reward and a broken streak."),
                    String::from_str("After failure, the adaptive system eases difficulty, giving you breathing room."),
                    String::from_str("The contract_turns_played field in /state shows how many turns you've used."),
                    String::from_str("AbandonContract becomes available after 5 turns as a last resort — it counts as a failure."),
                    String::from_str("Use AbandonContract only if truly stuck (e.g., all cards banned); it breaks your streak."),
                ],
            },
            TutorialStep {
                step: 10,
                title: String::from_str("Adaptive Balance"),
                description: String::from_str("The game adapts to your playstyle. Contracts you see in the \
                    market are adjusted based on your behavior: if you produce a lot of \
                    Heat, future contracts tighten Heat limits; if you stop producing \
                    something, its pressure relaxes over time."),
                endpoint: String::from_str("/metrics"),
                method: String::from_str("GET"),
                example_body: None,
                tips: vec![
                    String::from_str("Check adaptive_adjustments on each contract to see how requirements were modified."),
                    String::from_str("The /metrics endpoint shows your current adaptive_pressure per token type."),
                    String::from_str("Failing a contract relaxes all pressure — the system is forgiving."),
                    String::from_str("Diversifying your strategy keeps pressure balanced across token types."),
                ],
            },
            TutorialStep {
                step: 11,
                title: String::from_str("Manage Your Deck (Deckbuilding)"),
                description: String::from_str("Between contracts, you can use ReplaceCard to swap a card \
                    in your deck or discard (auto-selected: deck first, then discard) \
                    with a shelved card. The cost is permanently \
                    destroying a third card (sacrifice from shelved copies). This is the \
                    only way to change your active cycle composition."),
                endpoint: String::from_str("/action"),
                method: String::from_str("POST"),
                example_body: Some(
                    String::from_str(r#"{"action_type": "ReplaceCard", "target_card_index": 0, "replacement_card_index": 3, "sacrifice_card_index": 1}"#),
                ),
                tips: vec![
                    String::from_str("ReplaceCard is only available between contracts (no active contract)."),
                    String::from_str("The replacement card must have copies on the shelf (shelved > 0)."),
                    String::from_str("The sacrifice must also come from shelved copies — you cannot sacrifice active cards."),
                    String::from_str("You cannot sacrifice the same card you are replacing."),
                    String::from_str("The target location is auto-selected: deck first, then discard."),
                    String::from_str("Use /actions/possible to see valid ReplaceCard index ranges."),
                    String::from_str("Improve your deck quality by replacing weak starter cards with strong reward cards."),
                ],
            },
            TutorialStep {
                step: 12,
                title: String::from_str("Browse Your Card Catalogue"),
                description: String::from_str("View all your cards and their location counts. Filter by \
                    tag to find specific card types."),
                endpoint: String::from_str("/library/cards"),
                method: String::from_str("GET"),
                example_body: None,
                tips: vec![
                    String::from_str("Use ?tag=Production to see only production cards."),
                    String::from_str("Card counts show how many copies are in each location."),
                    String::from_str("shelved = copies on the shelf; deck+hand+discard = copies in the active cycle."),
                ],
            },
            TutorialStep {
                step: 13,
                title: String::from_str("Save and Replay"),
                description: String::from_str("The action history endpoint returns every action taken. \
                    Combined with the seed from /state, replaying these actions on a \
                    fresh game produces the exact same state."),
                endpoint: String::from_str("/actions/history"),
                method: String::from_str("GET"),
                example_body: None,
                tips: vec![
                    String::from_str("This is the save/load mechanism — no separate save file needed."),
                    String::from_str("Same version + same seed + same actions = identical game state."),
                ],
            },
        ],
        next_steps: vec![
            String::from_str("Keep completing contracts to unlock higher tiers with new challenges."),
            String::from_str("Check /metrics to track your gameplay statistics — completions, efficiency, and streaks."),
            String::from_str("Check /docs/hints for strategies and tips."),
            String::from_str("Check /docs/designer for how contracts, cards, and tokens work."),
            String::from_str("Explore /swagger/ for the complete interactive API documentation."),
            String::from_str("Use /player/tokens to monitor your resource balances."),
        ],
    };
    assert(r@ =~~= tutorial_doc());
    r
}

} // verus!
