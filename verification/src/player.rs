//! A connected participant and their private hand of cards.

use vstd::prelude::*;

use crate::card::{Card, CardData, Suite, Value};
use crate::deck::{card_id, ids_of};
use crate::seq_util::lemma_index_of_first_is;

verus! {

/// A participant of a room: a stable random id, a display name, the
/// connection handle that events addressed to this player are keyed by,
/// and the private hand.
#[derive(Debug)]
pub struct Player {
    pub id: String,
    pub name: String,
    pub conn: u64,
    pub hand: Vec<Card>,
}

/// Relies on uuid's `Uuid::new_v4` and its `Display` impl: a fresh random
/// identifier, rendered in the 36-character hyphenated form.
#[verifier::external_body]
fn fresh_player_id() -> (r: String)
    ensures
        r@.len() == 36,
{
    uuid::Uuid::new_v4().to_string()
}

/// The first position in a hand that holds the card with this (suit,
/// rank) pair, if any.
pub open spec fn hand_index_of(hand: Seq<Card>, suite: Suite, value: Value) -> Option<int> {
    ids_of(hand).index_of_first((suite, value))
}

/// What toggling visibility of the (suit, rank) card does to a hand:
/// flips the flag on the first match, or leaves the hand alone.
pub open spec fn spec_toggle_in_hand(hand: Seq<Card>, suite: Suite, value: Value) -> Seq<Card> {
    match hand_index_of(hand, suite, value) {
        Some(i) => hand.update(i, Card { visible: !hand[i].visible, ..hand[i] }),
        None => hand,
    }
}

/// Toggling a card changes no card identity, so the card keeps its
/// position: the same (suit, rank) pair is found at the same index.
pub proof fn lemma_toggle_keeps_ids(hand: Seq<Card>, suite: Suite, value: Value)
    ensures
        ids_of(spec_toggle_in_hand(hand, suite, value)) == ids_of(hand),
{
    if hand_index_of(hand, suite, value) matches Some(i) {
        ids_of(hand).index_of_first_ensures((suite, value));
        assert(ids_of(spec_toggle_in_hand(hand, suite, value)) =~= ids_of(hand));
    }
}

/// Law: toggling the visibility of the same card twice, by the same
/// player, returns the hand to exactly its original state.
pub proof fn lemma_toggle_visibility_twice(hand: Seq<Card>, suite: Suite, value: Value)
    ensures
        spec_toggle_in_hand(spec_toggle_in_hand(hand, suite, value), suite, value) == hand,
{
    match hand_index_of(hand, suite, value) {
        None => {},
        Some(i) => {
            ids_of(hand).index_of_first_ensures((suite, value));
            let once = spec_toggle_in_hand(hand, suite, value);
            lemma_toggle_keeps_ids(hand, suite, value);
            assert(hand_index_of(once, suite, value) == Some(i));
            assert(spec_toggle_in_hand(once, suite, value) =~= hand);
        },
    }
}

impl Player {
    /// A new player with a fresh random id, the given display name and
    /// connection handle, and an empty hand.
    pub fn new(name: &str, conn: u64) -> (p: Player)
        ensures
            p.name@ == name@,
            p.conn == conn,
            p.hand@ == Seq::<Card>::empty(),
            p.id@.len() == 36,
    {
        Player { id: fresh_player_id(), name: name.to_owned(), conn, hand: Vec::new() }
    }

    /// Append a card to the hand.
    pub fn add_card(&mut self, card: Card)
        ensures
            final(self).id == old(self).id,
            final(self).name == old(self).name,
            final(self).conn == old(self).conn,
            final(self).hand@ == old(self).hand@.push(card),
    {
        self.hand.push(card);
    }

    /// The position of the card with this (suit, rank) pair in the hand,
    /// if the hand holds it.
    pub fn find_card(&self, suite: Suite, value: Value) -> (r: Option<usize>)
        ensures
            hand_index_of(self.hand@, suite, value) is None ==> r is None,
            hand_index_of(self.hand@, suite, value) matches Some(i) ==> {
                &&& 0 <= i < self.hand@.len()
                &&& r matches Some(j) && j == i
            },
    {
        let ghost needle = (suite, value);
        let mut i: usize = 0;
        while i < self.hand.len()
            invariant
                needle == (suite, value),
                0 <= i <= self.hand@.len(),
                forall|k: int| 0 <= k < i ==> ids_of(self.hand@)[k] != needle,
            decreases self.hand@.len() - i,
        {
            let c = self.hand[i];
            if c.suite == suite && c.value == value {
                proof {
                    assert(ids_of(self.hand@)[i as int] == needle);
                    lemma_index_of_first_is(ids_of(self.hand@), needle, i as int);
                }
                return Some(i);
            }
            proof {
                assert(ids_of(self.hand@)[i as int] == card_id(self.hand@[i as int]));
            }
            i = i + 1;
        }
        proof {
            assert(!ids_of(self.hand@).contains(needle));
            ids_of(self.hand@).index_of_first_ensures(needle);
        }
        None
    }

    /// Flip the face-up flag of the card with this (suit, rank) pair, if
    /// the hand holds it, and return the updated card.
    pub fn toggle_visibility_of_card(&mut self, suite: Suite, value: Value) -> (r: Option<Card>)
        ensures
            final(self).id == old(self).id,
            final(self).name == old(self).name,
            final(self).conn == old(self).conn,
            final(self).hand@ == spec_toggle_in_hand(old(self).hand@, suite, value),
            hand_index_of(old(self).hand@, suite, value) is None ==> r is None,
            hand_index_of(old(self).hand@, suite, value) matches Some(i) ==> r == Some(
                final(self).hand@[i],
            ),
    {
        proof {
            ids_of(self.hand@).index_of_first_ensures((suite, value));
        }
        match self.find_card(suite, value) {
            Some(i) => {
                let mut card = self.hand[i];
                card.toggle_visibility();
                self.hand[i] = card;
                Some(card)
            },
            None => None,
        }
    }

    /// Remove the card with this (suit, rank) pair from the hand, if the
    /// hand holds it, and return it.
    pub fn discard(&mut self, suite: Suite, value: Value) -> (r: Option<Card>)
        ensures
            final(self).id == old(self).id,
            final(self).name == old(self).name,
            final(self).conn == old(self).conn,
            hand_index_of(old(self).hand@, suite, value) is None ==> {
                &&& r is None
                &&& final(self).hand@ == old(self).hand@
            },
            hand_index_of(old(self).hand@, suite, value) matches Some(i) ==> {
                &&& r == Some(old(self).hand@[i])
                &&& final(self).hand@ == old(self).hand@.remove(i)
            },
    {
        proof {
            ids_of(self.hand@).index_of_first_ensures((suite, value));
        }
        match self.find_card(suite, value) {
            Some(i) => Some(self.hand.remove(i)),
            None => None,
        }
    }

    /// Take every card away, as a deck reset does.
    pub fn clear_hand(&mut self)
        ensures
            final(self).id == old(self).id,
            final(self).name == old(self).name,
            final(self).conn == old(self).conn,
            final(self).hand@.len() == 0,
    {
        self.hand = Vec::new();
    }

    /// The public projection of this player: id, name, and the hand with
    /// every card replaced by its privacy-respecting view.
    pub fn player_data(&self) -> (r: PlayerData)
        ensures
            r.id@ == self.id@,
            r.name@ == self.name@,
            r.hand@ == self.hand@.map_values(|c: Card| c.spec_card_data()),
    {
        let mut hand: Vec<CardData> = Vec::new();
        let mut i: usize = 0;
        while i < self.hand.len()
            invariant
                0 <= i <= self.hand@.len(),
                hand@.len() == i,
                forall|k: int| 0 <= k < i ==> hand@[k] == #[trigger] self.hand@[k].spec_card_data(),
            decreases self.hand@.len() - i,
        {
            hand.push(self.hand[i].card_data());
            i = i + 1;
        }
        assert(hand@ =~= self.hand@.map_values(|c: Card| c.spec_card_data()));
        PlayerData { id: self.id.clone(), name: self.name.clone(), hand }
    }
}

/// The broadcast projection of a player: what the other members of a room
/// are allowed to see of them.
#[derive(Debug)]
pub struct PlayerData {
    pub id: String,
    pub name: String,
    pub hand: Vec<CardData>,
}

} // verus!
