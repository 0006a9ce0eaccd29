//! Ordered action log for deterministic game replay.
//!
//! The action log records every player action with a sequence number.
//! Combined with the game seed, it serves as the save/load mechanism:
//! replaying the same actions on a fresh game with the same seed
//! produces an identical game state.

use vstd::prelude::*;

verus! {

/// A player action that can be dispatched to the game.
#[derive(Clone, Copy, Debug, PartialEq, Eq, Structural)]
pub enum PlayerAction {
    /// Start a new game. If seed is None, a fallback seed is generated.
    NewGame { seed: Option<u64> },
    /// Accept a contract from the offered list by tier and contract position.
    AcceptContract { tier_index: usize, contract_index: usize },
    /// Play a card from hand by its index in the card list.
    PlayCard { card_index: usize },
    /// Discard a card from hand for a small baseline production bonus.
    DiscardCard { card_index: usize },
    /// Replace a deck or discard card with a shelved card, permanently
    /// destroying a shelved copy of a third card as the cost. Only
    /// available between contracts.
    ReplaceCard {
        target_card_index: usize,
        replacement_card_index: usize,
        sacrifice_card_index: usize,
    },
    /// Abandon the active contract (counts as a failure).
    AbandonContract,
}

/// A single entry in the action log.
#[derive(Clone, Copy, Debug, PartialEq, Eq, Structural)]
pub struct ActionEntry {
    pub seq: u64,
    pub action: PlayerAction,
}

/// Ordered log of all player actions in the current game.
pub struct ActionLog {
    entries: Vec<ActionEntry>,
}

impl View for ActionLog {
    type V = Seq<ActionEntry>;

    closed spec fn view(&self) -> Seq<ActionEntry> {
        self.entries@
    }
}

/// The log that holds `actions` in order, numbered from zero.
pub open spec fn numbered(actions: Seq<PlayerAction>) -> Seq<ActionEntry> {
    Seq::new(actions.len(), |i: int| ActionEntry { seq: i as u64, action: actions[i] })
}

impl ActionLog {
    /// Every entry's sequence number is its position.
    pub open spec fn wf(&self) -> bool {
        forall|i: int| 0 <= i < self@.len() ==> (#[trigger] self@[i]).seq == i
    }

    pub fn new() -> (r: Self)
        ensures
            r@ == Seq::<ActionEntry>::empty(),
            r.wf(),
    {
        ActionLog { entries: Vec::new() }
    }

    /// The sequence number that the next appended entry will receive.
    pub fn next_seq(&self) -> (r: u64)
        ensures
            r == self@.len(),
    {
        self.entries.len() as u64
    }

    /// Append an action and return the created entry.
    pub fn append(&mut self, action: PlayerAction) -> (r: ActionEntry)
        requires
            old(self).wf(),
            old(self)@.len() < u64::MAX,
        ensures
            r == (ActionEntry { seq: old(self)@.len() as u64, action }),
            final(self)@ == old(self)@.push(r),
            final(self).wf(),
    {
        let entry = ActionEntry { seq: self.next_seq(), action };
        self.entries.push(entry);
        entry
    }

    /// Return a snapshot of all entries.
    pub fn entries(&self) -> (r: &Vec<ActionEntry>)
        ensures
            r@ == self@,
    {
        &self.entries
    }

    /// Clear the log (used on NewGame).
    pub fn clear(&mut self)
        ensures
            final(self)@ == Seq::<ActionEntry>::empty(),
            final(self).wf(),
    {
        self.entries.clear();
    }

    /// An independent copy of the log.
    pub fn duplicate(&self) -> (r: Self)
        ensures
            r@ == self@,
    {
        ActionLog { entries: crate::types::copy_vec(&self.entries) }
    }
}

/// The log after appending `actions` one after another to an empty log,
/// each entry taking the log's length as its number, as `append` does.
pub open spec fn appended(actions: Seq<PlayerAction>) -> Seq<ActionEntry>
    decreases actions.len(),
{
    if actions.len() == 0 {
        Seq::empty()
    } else {
        let prev = appended(actions.drop_last());
        prev.push(ActionEntry { seq: prev.len() as u64, action: actions.last() })
    }
}

/// Appending actions one after another to an empty log numbers them from
/// zero in the order they came: the log is `numbered` of those actions.
pub proof fn law_log_numbers_actions_in_order(actions: Seq<PlayerAction>)
    ensures
        appended(actions) == numbered(actions),
    decreases actions.len(),
{
    if actions.len() > 0 {
        law_log_numbers_actions_in_order(actions.drop_last());
        assert(appended(actions) =~= numbered(actions));
    }
}

} // verus!
