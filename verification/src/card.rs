//! The card model: suits, ranks, visibility, and the privacy-respecting
//! projection (`CardData`) that is broadcast to other players.

use vstd::prelude::*;

verus! {

/// One of the four suits of a standard deck.
#[derive(Clone, Copy, Debug, PartialEq, Eq, Hash, Structural)]
pub enum Suite {
    Club,
    Heart,
    Diamond,
    Spade,
}

impl Suite {
    /// Every suit, in a fixed order.
    pub fn all() -> (r: [Suite; 4])
        ensures
            r@ == seq![Suite::Club, Suite::Heart, Suite::Diamond, Suite::Spade],
    {
        [Suite::Club, Suite::Heart, Suite::Diamond, Suite::Spade]
    }
}

/// One of the thirteen ranks of a standard deck.
#[derive(Clone, Copy, Debug, PartialEq, Eq, Hash, Structural)]
pub enum Value {
    Ace,
    Two,
    Three,
    Four,
    Five,
    Six,
    Seven,
    Eight,
    Nine,
    Ten,
    Jack,
    Queen,
    King,
}

impl Value {
    /// Every rank, in a fixed order.
    pub fn all() -> (r: [Value; 13])
        ensures
            r@ == seq![
                Value::Ace,
                Value::Two,
                Value::Three,
                Value::Four,
                Value::Five,
                Value::Six,
                Value::Seven,
                Value::Eight,
                Value::Nine,
                Value::Ten,
                Value::Jack,
                Value::Queen,
                Value::King,
            ],
    {
        [
            Value::Ace,
            Value::Two,
            Value::Three,
            Value::Four,
            Value::Five,
            Value::Six,
            Value::Seven,
            Value::Eight,
            Value::Nine,
            Value::Ten,
            Value::Jack,
            Value::Queen,
            Value::King,
        ]
    }
}

/// A card at the table. Identity is the (suit, rank) pair; `visible` is the
/// public face-up flag and is false on creation.
#[derive(Clone, Copy, Debug, PartialEq, Eq, Structural)]
pub struct Card {
    pub suite: Suite,
    pub value: Value,
    pub visible: bool,
}

impl Card {
    /// A freshly created card is face-down.
    pub fn new(suite: Suite, value: Value) -> (c: Card)
        ensures
            c == (Card { suite, value, visible: false }),
    {
        Card { suite, value, visible: false }
    }

    /// Flip the face-up flag; suit and rank stay as they are.
    pub fn toggle_visibility(&mut self)
        ensures
            *final(self) == (Card { visible: !old(self).visible, ..*old(self) }),
    {
        self.visible = !self.visible;
    }

    /// What `card_data` returns: the full card when it is face-up, an
    /// anonymous face-down entry otherwise.
    pub open spec fn spec_card_data(self) -> CardData {
        if self.visible {
            CardData { suite: Some(self.suite), value: Some(self.value), visible: true }
        } else {
            CardData { suite: None, value: None, visible: false }
        }
    }

    /// What `full_card_data` returns: suit and rank always included.
    pub open spec fn spec_full_card_data(self) -> CardData {
        CardData { suite: Some(self.suite), value: Some(self.value), visible: self.visible }
    }

    /// The public projection of this card: a face-down card hides its suit
    /// and rank from everyone but its holder.
    pub fn card_data(&self) -> (r: CardData)
        ensures
            r == self.spec_card_data(),
    {
        if self.visible {
            CardData { suite: Some(self.suite), value: Some(self.value), visible: true }
        } else {
            CardData { suite: None, value: None, visible: false }
        }
    }

    /// The full projection of this card, identity included, for the events
    /// that are allowed to carry it (to the holder, or once it leaves the
    /// hand for the public discard pile).
    pub fn full_card_data(&self) -> (r: CardData)
        ensures
            r == self.spec_full_card_data(),
    {
        CardData { suite: Some(self.suite), value: Some(self.value), visible: self.visible }
    }
}

/// The wire projection of a card: absent suit and rank stand for a card the
/// recipient is not allowed to identify.
#[derive(Clone, Copy, Debug, PartialEq, Eq)]
pub struct CardData {
    pub suite: Option<Suite>,
    pub value: Option<Value>,
    pub visible: bool,
}

} // verus!
