//! Core game types: tokens, cards, effects, contracts, and locations.

use vstd::prelude::*;

verus! {

// ---------------------------------------------------------------------------
// Token system
// ---------------------------------------------------------------------------

/// Resource and waste types used throughout the game.
///
/// Tokens are simple counters that persist between contracts. They are
/// produced and consumed by card effects and checked by contract requirements.
#[derive(Clone, Copy, Debug, PartialEq, Eq, Structural, Hash, PartialOrd, Ord)]
pub enum TokenType {
    /// The main production output — mandatory in every contract.
    ProductionUnit,
    /// Energy resource.
    Energy,
    /// Quality measure.
    QualityPoint,
    /// Research and development output.
    Innovation,
    /// Thermal byproduct from production processes.
    Heat,
    /// Generic industrial waste.
    Waste,
    /// Environmental contamination.
    Pollution,
    /// Number of contracts completed for a given tier (0-based, unbounded).
    ContractsTierCompleted(u32),
    /// Current active cycle size limit.
    DeckSlots,
}

/// Classification tags for token types.
#[derive(Clone, Copy, Debug, PartialEq, Eq, Structural, Hash)]
pub enum TokenTag {
    /// A positive resource.
    Beneficial,
    /// A negative byproduct.
    Harmful,
    /// Tracks long-term progression.
    Progression,
}

/// The tags that classify a token type.
pub open spec fn spec_token_tags(t: TokenType) -> Seq<TokenTag> {
    match t {
        TokenType::ProductionUnit | TokenType::Energy | TokenType::QualityPoint
        | TokenType::Innovation => seq![TokenTag::Beneficial],
        TokenType::Heat | TokenType::Waste | TokenType::Pollution => seq![TokenTag::Harmful],
        TokenType::ContractsTierCompleted(_) | TokenType::DeckSlots => seq![TokenTag::Progression],
    }
}

pub open spec fn spec_is_beneficial(t: TokenType) -> bool {
    spec_token_tags(t).contains(TokenTag::Beneficial)
}

pub open spec fn spec_is_harmful(t: TokenType) -> bool {
    spec_token_tags(t).contains(TokenTag::Harmful)
}

/// Position of a token type in the order that `#[derive(Ord)]` gives it:
/// variant order first, then the tier number.
pub open spec fn token_key(t: TokenType) -> int {
    match t {
        TokenType::ProductionUnit => 0,
        TokenType::Energy => 1,
        TokenType::QualityPoint => 2,
        TokenType::Innovation => 3,
        TokenType::Heat => 4,
        TokenType::Waste => 5,
        TokenType::Pollution => 6,
        TokenType::ContractsTierCompleted(n) => 7 + n,
        TokenType::DeckSlots => 7 + 0x1_0000_0000int,
    }
}

/// Distinct token types have distinct keys.
pub proof fn lemma_token_key_injective(a: TokenType, b: TokenType)
    ensures
        token_key(a) == token_key(b) <==> a == b,
{
}

impl TokenType {
    /// Returns the classification tags for this token type.
    pub fn tags(&self) -> (r: Vec<TokenTag>)
        ensures
            r@ == spec_token_tags(*self),
    {
        let mut v: Vec<TokenTag> = Vec::new();
        match self {
            TokenType::ProductionUnit | TokenType::Energy | TokenType::QualityPoint
            | TokenType::Innovation => v.push(TokenTag::Beneficial),
            TokenType::Heat | TokenType::Waste | TokenType::Pollution => v.push(TokenTag::Harmful),
            TokenType::ContractsTierCompleted(_) | TokenType::DeckSlots => v.push(
                TokenTag::Progression,
            ),
        }
        proof {
            assert(v@ =~= spec_token_tags(*self));
        }
        v
    }

    /// Whether this token type is beneficial to the player.
    pub fn is_beneficial(&self) -> (r: bool)
        ensures
            r == spec_is_beneficial(*self),
    {
        let tags = self.tags();
        tag_list_contains(&tags, TokenTag::Beneficial)
    }

    /// Whether this token type is harmful to the player.
    pub fn is_harmful(&self) -> (r: bool)
        ensures
            r == spec_is_harmful(*self),
    {
        let tags = self.tags();
        tag_list_contains(&tags, TokenTag::Harmful)
    }

    /// The token's position in the derived order, as a number.
    pub fn sort_key(&self) -> (k: u64)
        ensures
            k as int == token_key(*self),
    {
        match self {
            TokenType::ProductionUnit => 0,
            TokenType::Energy => 1,
            TokenType::QualityPoint => 2,
            TokenType::Innovation => 3,
            TokenType::Heat => 4,
            TokenType::Waste => 5,
            TokenType::Pollution => 6,
            TokenType::ContractsTierCompleted(n) => 7 + *n as u64,
            TokenType::DeckSlots => 7 + 0x1_0000_0000,
        }
    }
}

fn tag_list_contains(tags: &Vec<TokenTag>, tag: TokenTag) -> (r: bool)
    ensures
        r == tags@.contains(tag),
{
    let mut i: usize = 0;
    while i < tags.len()
        invariant
            i <= tags.len(),
            forall|j: int| 0 <= j < i ==> tags@[j] != tag,
        decreases tags.len() - i,
    {
        if tags[i] == tag {
            return true;
        }
        i = i + 1;
    }
    false
}

/// A specific quantity of a token type.
#[derive(Clone, Copy, Debug, PartialEq, Eq, Structural)]
pub struct TokenAmount {
    pub token_type: TokenType,
    pub amount: u32,
}

// ---------------------------------------------------------------------------
// Effect direction types
// ---------------------------------------------------------------------------

/// Whether a main card effect is a producer or a consumer/remover.
#[derive(Clone, Copy, Debug, PartialEq, Eq, Structural, Hash)]
pub enum MainEffectDirection {
    /// Primary formula gives an output amount.
    Producer,
    /// Primary formula gives an input amount.
    Consumer,
}

/// Whether a variation's secondary token appears as an input or output.
#[derive(Clone, Copy, Debug, PartialEq, Eq, Structural, Hash)]
pub enum VariationDirection {
    Input,
    Output,
}

// ---------------------------------------------------------------------------
// Card system
// ---------------------------------------------------------------------------

/// Operational category tags for player action cards.
#[derive(Clone, Copy, Debug, PartialEq, Eq, Structural, Hash)]
pub enum CardTag {
    /// Cards that generate output tokens.
    Production,
    /// Cards that convert one token type into another.
    Transformation,
    /// Cards that manage waste and harmful byproducts.
    QualityControl,
    /// Utility and meta-operational cards.
    SystemAdjustment,
}

/// A card effect with token inputs consumed and token outputs produced.
///
/// At least one of `inputs` or `outputs` is non-empty when it is built with
/// `CardEffect::new`.
#[derive(Clone, Debug, PartialEq, Eq)]
pub struct CardEffect {
    pub inputs: Vec<TokenAmount>,
    pub outputs: Vec<TokenAmount>,
}

/// The mathematical value of a `CardEffect`.
pub struct EffectSpec {
    pub inputs: Seq<TokenAmount>,
    pub outputs: Seq<TokenAmount>,
}

impl View for CardEffect {
    type V = EffectSpec;

    open spec fn view(&self) -> EffectSpec {
        EffectSpec { inputs: self.inputs@, outputs: self.outputs@ }
    }
}

/// A copy of a vector of plain values, element for element.
pub fn copy_vec<T: Copy>(v: &Vec<T>) -> (r: Vec<T>)
    ensures
        r@ == v@,
{
    let mut r: Vec<T> = Vec::new();
    let mut i: usize = 0;
    while i < v.len()
        invariant
            i <= v.len(),
            r@ == v@.take(i as int),
        decreases v.len() - i,
    {
        let x = v[i];
        r.push(x);
        i = i + 1;
        proof {
            assert(r@ =~= v@.take(i as int));
        }
    }
    proof {
        assert(v@.take(v.len() as int) =~= v@);
    }
    r
}

impl CardEffect {
    /// Creates a new `CardEffect`, returning an error if both inputs and
    /// outputs are empty.
    pub fn new(inputs: Vec<TokenAmount>, outputs: Vec<TokenAmount>) -> (r: Result<Self, String>)
        ensures
            inputs@.len() == 0 && outputs@.len() == 0 <==> r is Err,
            r matches Ok(e) ==> e.inputs@ == inputs@ && e.outputs@ == outputs@,
            r matches Err(msg) ==> msg@ == "CardEffect must have at least one input or output"@,
    {
        if inputs.len() == 0 && outputs.len() == 0 {
            return Err(String::from_str("CardEffect must have at least one input or output"));
        }
        Ok(CardEffect { inputs, outputs })
    }

    /// A field-for-field copy of this effect.
    pub fn duplicate(&self) -> (r: Self)
        ensures
            r@ == self@,
    {
        CardEffect { inputs: copy_vec(&self.inputs), outputs: copy_vec(&self.outputs) }
    }
}

/// Where card copies reside during gameplay.
#[derive(Clone, Copy, Debug, PartialEq, Eq, Structural, Hash)]
pub enum CardLocation {
    /// Owned but not in the active cycle.
    Shelved,
    /// The player's current operational toolset.
    Deck,
    /// Actions available for the current turn.
    Hand,
    /// Used actions awaiting recycling back into the deck.
    Discard,
}

/// Per-location copy counts for a single card type.
#[derive(Clone, Copy, Debug, PartialEq, Eq, Structural)]
pub struct CardCounts {
    pub shelved: u32,
    pub deck: u32,
    pub hand: u32,
    pub discard: u32,
}

impl CardCounts {
    pub open spec fn spec_non_shelved(self) -> int {
        self.deck + self.hand + self.discard
    }

    pub open spec fn spec_total(self) -> int {
        self.shelved + self.deck + self.hand + self.discard
    }

    pub fn has_shelved(&self) -> (r: bool)
        ensures
            r == (self.shelved > 0),
    {
        self.shelved > 0
    }

    pub fn has_non_shelved(&self) -> (r: bool)
        requires
            self.spec_non_shelved() <= u32::MAX,
        ensures
            r == (self.spec_non_shelved() > 0),
    {
        self.deck + self.hand + self.discard > 0
    }

    pub fn non_shelved(&self) -> (r: u32)
        requires
            self.spec_non_shelved() <= u32::MAX,
        ensures
            r == self.spec_non_shelved(),
    {
        self.deck + self.hand + self.discard
    }

    pub fn total(&self) -> (r: u32)
        requires
            self.spec_total() <= u32::MAX,
        ensures
            r == self.spec_total(),
    {
        self.shelved + self.deck + self.hand + self.discard
    }
}

/// The number of copies at one location.
pub open spec fn count_at(c: CardCounts, loc: CardLocation) -> u32 {
    match loc {
        CardLocation::Shelved => c.shelved,
        CardLocation::Deck => c.deck,
        CardLocation::Hand => c.hand,
        CardLocation::Discard => c.discard,
    }
}

/// The counts with one more copy at `loc`.
pub open spec fn counts_incremented(c: CardCounts, loc: CardLocation) -> CardCounts {
    match loc {
        CardLocation::Shelved => CardCounts { shelved: (c.shelved + 1) as u32, ..c },
        CardLocation::Deck => CardCounts { deck: (c.deck + 1) as u32, ..c },
        CardLocation::Hand => CardCounts { hand: (c.hand + 1) as u32, ..c },
        CardLocation::Discard => CardCounts { discard: (c.discard + 1) as u32, ..c },
    }
}

fn increment_location_count(counts: &mut CardCounts, location: CardLocation)
    requires
        count_at(*old(counts), location) < u32::MAX,
    ensures
        *final(counts) == counts_incremented(*old(counts), location),
{
    match location {
        CardLocation::Shelved => counts.shelved = counts.shelved + 1,
        CardLocation::Deck => counts.deck = counts.deck + 1,
        CardLocation::Hand => counts.hand = counts.hand + 1,
        CardLocation::Discard => counts.discard = counts.discard + 1,
    }
}

/// A concrete player action card with tags and effects.
#[derive(Clone, Debug, PartialEq, Eq)]
pub struct PlayerActionCard {
    pub tags: Vec<CardTag>,
    pub effects: Vec<CardEffect>,
}

/// The mathematical value of a `PlayerActionCard`.
pub struct CardSpec {
    pub tags: Seq<CardTag>,
    pub effects: Seq<EffectSpec>,
}

pub open spec fn effects_view(v: Seq<CardEffect>) -> Seq<EffectSpec> {
    v.map_values(|e: CardEffect| e@)
}

impl View for PlayerActionCard {
    type V = CardSpec;

    open spec fn view(&self) -> CardSpec {
        CardSpec { tags: self.tags@, effects: effects_view(self.effects@) }
    }
}

pub fn copy_effects(v: &Vec<CardEffect>) -> (r: Vec<CardEffect>)
    ensures
        effects_view(r@) == effects_view(v@),
{
    let mut r: Vec<CardEffect> = Vec::new();
    let mut i: usize = 0;
    while i < v.len()
        invariant
            i <= v.len(),
            r@.len() == i,
            forall|j: int| 0 <= j < i ==> r@[j]@ == v@[j]@,
        decreases v.len() - i,
    {
        let e = v[i].duplicate();
        r.push(e);
        i = i + 1;
    }
    proof {
        assert(effects_view(r@) =~= effects_view(v@));
    }
    r
}

fn amounts_equal(a: &Vec<TokenAmount>, b: &Vec<TokenAmount>) -> (r: bool)
    ensures
        r == (a@ == b@),
{
    if a.len() != b.len() {
        return false;
    }
    let mut i: usize = 0;
    while i < a.len()
        invariant
            i <= a.len(),
            a.len() == b.len(),
            forall|j: int| 0 <= j < i ==> a@[j] == b@[j],
        decreases a.len() - i,
    {
        if a[i] != b[i] {
            return false;
        }
        i = i + 1;
    }
    proof {
        assert(a@ =~= b@);
    }
    true
}

fn effects_equal(a: &CardEffect, b: &CardEffect) -> (r: bool)
    ensures
        r == (a@ == b@),
{
    amounts_equal(&a.inputs, &b.inputs) && amounts_equal(&a.outputs, &b.outputs)
}

impl PlayerActionCard {
    /// A field-for-field copy of this card.
    pub fn duplicate(&self) -> (r: Self)
        ensures
            r@ == self@,
    {
        PlayerActionCard { tags: copy_vec(&self.tags), effects: copy_effects(&self.effects) }
    }

    /// Whether two cards are the same card: same tags, same effects, in order.
    pub fn same_card(&self, other: &PlayerActionCard) -> (r: bool)
        ensures
            r == (self@ == other@),
    {
        if self.tags.len() != other.tags.len() || self.effects.len() != other.effects.len() {
            proof {
                if self@ == other@ {
                    assert(self@.effects.len() == other@.effects.len());
                }
            }
            return false;
        }
        let mut i: usize = 0;
        while i < self.tags.len()
            invariant
                i <= self.tags.len(),
                self.tags.len() == other.tags.len(),
                forall|j: int| 0 <= j < i ==> self.tags@[j] == other.tags@[j],
            decreases self.tags.len() - i,
        {
            if self.tags[i] != other.tags[i] {
                return false;
            }
            i = i + 1;
        }
        assert(self.tags@ =~= other.tags@);
        let mut k: usize = 0;
        while k < self.effects.len()
            invariant
                k <= self.effects.len(),
                self.effects.len() == other.effects.len(),
                self.tags@ == other.tags@,
                forall|j: int| 0 <= j < k ==> self.effects@[j]@ == other.effects@[j]@,
            decreases self.effects.len() - k,
        {
            if !effects_equal(&self.effects[k], &other.effects[k]) {
                proof {
                    assert(effects_view(self.effects@)[k as int] != effects_view(
                        other.effects@,
                    )[k as int]);
                }
                return false;
            }
            k = k + 1;
        }
        proof {
            assert(effects_view(self.effects@) =~= effects_view(other.effects@));
        }
        true
    }
}

/// A card type with its per-location copy counts.
#[derive(Clone, Debug, PartialEq, Eq)]
pub struct CardEntry {
    pub card: PlayerActionCard,
    pub counts: CardCounts,
}

pub struct EntrySpec {
    pub card: CardSpec,
    pub counts: CardCounts,
}

impl View for CardEntry {
    type V = EntrySpec;

    open spec fn view(&self) -> EntrySpec {
        EntrySpec { card: self.card@, counts: self.counts }
    }
}

pub open spec fn entries_view(v: Seq<CardEntry>) -> Seq<EntrySpec> {
    v.map_values(|e: CardEntry| e@)
}

/// The first index at or after `i` whose card equals `card`, if any.
pub open spec fn index_of_card_from(entries: Seq<EntrySpec>, card: CardSpec, i: int) -> Option<int>
    decreases entries.len() - i,
{
    if i < 0 || i >= entries.len() {
        None
    } else if entries[i].card == card {
        Some(i)
    } else {
        index_of_card_from(entries, card, i + 1)
    }
}

/// The first index whose card equals `card`, if any.
pub open spec fn first_index_of_card(entries: Seq<EntrySpec>, card: CardSpec) -> Option<int> {
    index_of_card_from(entries, card, 0)
}

pub proof fn lemma_index_of_card_from(entries: Seq<EntrySpec>, card: CardSpec, i: int)
    requires
        0 <= i <= entries.len(),
    ensures
        index_of_card_from(entries, card, i) matches Some(k) ==> i <= k < entries.len()
            && entries[k].card == card && forall|j: int| i <= j < k ==> entries[j].card != card,
        index_of_card_from(entries, card, i) is None ==> forall|j: int|
            i <= j < entries.len() ==> entries[j].card != card,
    decreases entries.len() - i,
{
    if i < entries.len() {
        lemma_index_of_card_from(entries, card, i + 1);
    }
}

/// The entries after one copy of `card` was added at `location`.
pub open spec fn spec_add_card(
    entries: Seq<EntrySpec>,
    card: CardSpec,
    location: CardLocation,
) -> Seq<EntrySpec> {
    match first_index_of_card(entries, card) {
        Some(i) => entries.update(
            i,
            EntrySpec { card: entries[i].card, counts: counts_incremented(entries[i].counts, location) },
        ),
        None => entries.push(
            EntrySpec {
                card,
                counts: counts_incremented(
                    CardCounts { shelved: 0, deck: 0, hand: 0, discard: 0 },
                    location,
                ),
            },
        ),
    }
}

/// Whether adding a copy of `card` at `location` keeps every count within `u32`.
pub open spec fn can_add_card(entries: Seq<EntrySpec>, card: CardSpec, location: CardLocation) -> bool {
    forall|i: int|
        0 <= i < entries.len() && entries[i].card == card ==> count_at(entries[i].counts, location)
            < u32::MAX
}

/// Add a copy of `card` to `entries`, placing it at the given `location`.
///
/// If an identical card already exists, its counts are incremented.
/// Otherwise a new `CardEntry` is appended.
pub fn add_card_to_entries(entries: &mut Vec<CardEntry>, card: &PlayerActionCard, location: CardLocation)
    requires
        can_add_card(entries_view(old(entries)@), card@, location),
    ensures
        entries_view(final(entries)@) == spec_add_card(entries_view(old(entries)@), card@, location),
{
    let ghost old_view = entries_view(entries@);
    let mut i: usize = 0;
    while i < entries.len()
        invariant
            i <= entries.len(),
            entries_view(entries@) == old_view,
            old_view == entries_view(old(entries)@),
            can_add_card(old_view, card@, location),
            forall|j: int| 0 <= j < i ==> old_view[j].card != card@,
        decreases entries.len() - i,
    {
        if entries[i].card.same_card(card) {
            proof {
                assert(old_view[i as int].card == card@);
                lemma_index_of_card_from(old_view, card@, 0);
                assert(first_index_of_card(old_view, card@) == Some(i as int)) by {
                    if let Some(k) = first_index_of_card(old_view, card@) {
                        if k > i {
                            assert(old_view[i as int].card == card@);
                        }
                    }
                }
                assert(old_view[i as int].counts == entries@[i as int].counts);
                assert(count_at(old_view[i as int].counts, location) < u32::MAX);
            }
            let mut counts = entries[i].counts;
            increment_location_count(&mut counts, location);
            let e = CardEntry { card: entries[i].card.duplicate(), counts };
            entries.set(i, e);
            proof {
                let nv = entries_view(entries@);
                let sv = spec_add_card(old_view, card@, location);
                assert(nv.len() == sv.len());
                assert forall|j: int| 0 <= j < nv.len() implies nv[j] == sv[j] by {
                    if j != i {
                        assert(nv[j] == old_view[j]);
                    }
                }
                assert(nv =~= sv);
            }
            return;
        }
        i = i + 1;
    }
    let mut counts = CardCounts { shelved: 0, deck: 0, hand: 0, discard: 0 };
    increment_location_count(&mut counts, location);
    entries.push(CardEntry { card: card.duplicate(), counts });
    proof {
        lemma_index_of_card_from(old_view, card@, 0);
        assert(first_index_of_card(old_view, card@) is None);
        assert(entries_view(entries@) =~= spec_add_card(old_view, card@, location));
    }
}

// ---------------------------------------------------------------------------
// Contract system
// ---------------------------------------------------------------------------

/// Contract difficulty tier (0-based).
#[derive(Clone, Copy, Debug, PartialEq, Eq, Structural, Hash)]
pub struct ContractTier(pub u32);

/// Kinds of requirements a contract can impose.
#[derive(Clone, Copy, Debug, PartialEq, Eq, Structural)]
pub enum ContractRequirementKind {
    /// Token requirement with optional lower and upper bounds.
    TokenRequirement { token_type: TokenType, min: Option<u32>, max: Option<u32> },
    /// Card-tag play count requirement with optional lower and upper bounds.
    CardTagConstraint { tag: CardTag, min: Option<u32>, max: Option<u32> },
    /// Contract turn-window constraint with optional lower and upper bounds.
    TurnWindow { min_turn: Option<u32>, max_turn: Option<u32> },
}

/// Records how the adaptive balance system modified a single requirement.
#[derive(Clone, Copy, Debug, PartialEq, Eq, Structural)]
pub struct AdaptiveAdjustment {
    pub requirement_index: usize,
    pub original_value: u32,
    pub adjusted_value: u32,
    /// Negative = tightened (harder), positive = eased (easier).
    pub adjustment_percent: i32,
}

/// A concrete contract with requirements and a visible reward card.
#[derive(Clone, Debug, PartialEq, Eq)]
pub struct Contract {
    pub tier: ContractTier,
    pub requirements: Vec<ContractRequirementKind>,
    pub reward_card: PlayerActionCard,
    pub adaptive_adjustments: Vec<AdaptiveAdjustment>,
}

pub struct ContractSpec {
    pub tier: u32,
    pub requirements: Seq<ContractRequirementKind>,
    pub reward_card: CardSpec,
    pub adaptive_adjustments: Seq<AdaptiveAdjustment>,
}

impl View for Contract {
    type V = ContractSpec;

    open spec fn view(&self) -> ContractSpec {
        ContractSpec {
            tier: self.tier.0,
            requirements: self.requirements@,
            reward_card: self.reward_card@,
            adaptive_adjustments: self.adaptive_adjustments@,
        }
    }
}

impl Contract {
    /// A field-for-field copy of this contract.
    pub fn duplicate(&self) -> (r: Self)
        ensures
            r@ == self@,
    {
        Contract {
            tier: self.tier,
            requirements: copy_vec(&self.requirements),
            reward_card: self.reward_card.duplicate(),
            adaptive_adjustments: copy_vec(&self.adaptive_adjustments),
        }
    }
}

/// Why a contract was failed.
#[derive(Clone, Copy, Debug, PartialEq, Eq, Structural)]
pub enum ContractFailureReason {
    /// A harmful token exceeded its limit during gameplay.
    HarmfulTokenLimitExceeded { token_type: TokenType, max_amount: u32, current_amount: u32 },
    /// The contract's turn window expired.
    TurnWindowExceeded { max_turn: u32, current_turn: u32 },
    /// The player voluntarily abandoned the contract.
    Abandoned { turns_played: u32 },
}

/// Outcome of a contract reaching resolution (success or failure).
#[derive(Clone, Debug)]
pub enum ContractResolution {
    Completed { contract: Contract },
    Failed { contract: Contract, reason: ContractFailureReason },
}

pub enum ResolutionSpec {
    Completed { contract: ContractSpec },
    Failed { contract: ContractSpec, reason: ContractFailureReason },
}

impl View for ContractResolution {
    type V = ResolutionSpec;

    open spec fn view(&self) -> ResolutionSpec {
        match self {
            ContractResolution::Completed { contract } => ResolutionSpec::Completed {
                contract: contract@,
            },
            ContractResolution::Failed { contract, reason } => ResolutionSpec::Failed {
                contract: contract@,
                reason: *reason,
            },
        }
    }
}

/// A group of contract offers for a single tier.
#[derive(Clone, Debug, PartialEq, Eq)]
pub struct TierContracts {
    pub tier: ContractTier,
    pub contracts: Vec<Contract>,
}

pub struct TierContractsSpec {
    pub tier: u32,
    pub contracts: Seq<ContractSpec>,
}

pub open spec fn contracts_view(v: Seq<Contract>) -> Seq<ContractSpec> {
    v.map_values(|c: Contract| c@)
}

impl View for TierContracts {
    type V = TierContractsSpec;

    open spec fn view(&self) -> TierContractsSpec {
        TierContractsSpec { tier: self.tier.0, contracts: contracts_view(self.contracts@) }
    }
}

pub open spec fn tiers_view(v: Seq<TierContracts>) -> Seq<TierContractsSpec> {
    v.map_values(|t: TierContracts| t@)
}

} // verus!
