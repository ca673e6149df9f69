//! The draw deck: an ordered pile of cards, built as one of each of the
//! 52 (suit, rank) pairs and shuffled through `rand`.

use vstd::prelude::*;
use vstd::multiset::Multiset;
use vstd::seq_lib::*;
use vstd::arithmetic::div_mod::{lemma_fundamental_div_mod, lemma_fundamental_div_mod_converse};
use rand::seq::SliceRandom;

use crate::card::{Card, Suite, Value};

verus! {

/// The identity of a card: its (suit, rank) pair, visibility set aside.
pub open spec fn card_id(c: Card) -> (Suite, Value) {
    (c.suite, c.value)
}

/// The identities of a sequence of cards, in order.
pub open spec fn ids_of(s: Seq<Card>) -> Seq<(Suite, Value)> {
    s.map_values(|c: Card| card_id(c))
}

/// The suit that `Suite::all` puts at position `i`.
pub open spec fn suite_of_index(i: int) -> Suite {
    if i == 0 {
        Suite::Club
    } else if i == 1 {
        Suite::Heart
    } else if i == 2 {
        Suite::Diamond
    } else {
        Suite::Spade
    }
}

/// The rank that `Value::all` puts at position `i`.
pub open spec fn value_of_index(i: int) -> Value {
    if i == 0 {
        Value::Ace
    } else if i == 1 {
        Value::Two
    } else if i == 2 {
        Value::Three
    } else if i == 3 {
        Value::Four
    } else if i == 4 {
        Value::Five
    } else if i == 5 {
        Value::Six
    } else if i == 6 {
        Value::Seven
    } else if i == 7 {
        Value::Eight
    } else if i == 8 {
        Value::Nine
    } else if i == 9 {
        Value::Ten
    } else if i == 10 {
        Value::Jack
    } else if i == 11 {
        Value::Queen
    } else {
        Value::King
    }
}

/// The position of a suit in `Suite::all`.
pub open spec fn suite_index(s: Suite) -> int {
    match s {
        Suite::Club => 0,
        Suite::Heart => 1,
        Suite::Diamond => 2,
        Suite::Spade => 3,
    }
}

/// The position of a rank in `Value::all`.
pub open spec fn value_index(v: Value) -> int {
    match v {
        Value::Ace => 0,
        Value::Two => 1,
        Value::Three => 2,
        Value::Four => 3,
        Value::Five => 4,
        Value::Six => 5,
        Value::Seven => 6,
        Value::Eight => 7,
        Value::Nine => 8,
        Value::Ten => 9,
        Value::Jack => 10,
        Value::Queen => 11,
        Value::King => 12,
    }
}

/// Card `k` of a freshly built deck: suits in blocks of thirteen ranks,
/// every card face-down.
pub open spec fn full_deck_card(k: int) -> Card {
    Card { suite: suite_of_index(k / 13), value: value_of_index(k % 13), visible: false }
}

/// A freshly built 52-card deck, in construction order.
pub open spec fn full_deck_seq() -> Seq<Card> {
    Seq::new(52, |k: int| full_deck_card(k))
}

/// The identities of a full deck as a multiset: each of the 52 (suit,
/// rank) pairs exactly once.
pub open spec fn full_deck_ids() -> Multiset<(Suite, Value)> {
    ids_of(full_deck_seq()).to_multiset()
}

/// Every (suit, rank) pair occurs exactly once in a full deck.
pub proof fn lemma_full_deck_ids_count(s: Suite, v: Value)
    ensures
        full_deck_ids().count((s, v)) == 1,
{
    let ids = ids_of(full_deck_seq());
    assert(ids.no_duplicates()) by {
        assert forall|i: int, j: int|
            0 <= i < ids.len() && 0 <= j < ids.len() && i != j implies ids[i] != ids[j] by {
            if ids[i] == ids[j] {
                lemma_fundamental_div_mod(i, 13);
                lemma_fundamental_div_mod(j, 13);
            }
        }
    }
    let k = suite_index(s) * 13 + value_index(v);
    lemma_fundamental_div_mod_converse(k, 13, suite_index(s), value_index(v));
    assert(ids[k] == (s, v));
    assert(ids.contains(ids[k]));
    to_multiset_contains(ids, (s, v));
    ids.lemma_multiset_has_no_duplicates();
}

/// A permutation of cards permutes their identities: multiset equality
/// of card sequences carries over to their identity sequences.
pub proof fn lemma_ids_of_permutation(s1: Seq<Card>, s2: Seq<Card>)
    requires
        s1.to_multiset() == s2.to_multiset(),
    ensures
        ids_of(s1).to_multiset() == ids_of(s2).to_multiset(),
{
    let f = |c: Card| card_id(c);
    crate::seq_util::lemma_map_values_to_multiset(s1, s2, f);
    assert(ids_of(s1) =~= s1.map_values(f));
    assert(ids_of(s2) =~= s2.map_values(f));
}

/// A permutation of an all-face-down pile is all face-down.
pub proof fn lemma_face_down_permutation(s1: Seq<Card>, s2: Seq<Card>)
    requires
        s1.to_multiset() == s2.to_multiset(),
        forall|k: int| 0 <= k < s1.len() ==> !(#[trigger] s1[k]).visible,
    ensures
        forall|k: int| 0 <= k < s2.len() ==> !(#[trigger] s2[k]).visible,
{
    assert forall|k: int| 0 <= k < s2.len() implies !(#[trigger] s2[k]).visible by {
        let c = s2[k];
        assert(s2.contains(c));
        to_multiset_contains(s2, c);
        to_multiset_contains(s1, c);
        assert(s1.contains(c));
        let j = choose|j: int| 0 <= j < s1.len() && s1[j] == c;
        assert(!s1[j].visible);
    }
}

/// The face-down ordered pile that players draw from. The top of the pile
/// is the end of the sequence.
#[derive(Debug)]
pub struct Deck {
    cards: Vec<Card>,
}

impl View for Deck {
    type V = Seq<Card>;

    closed spec fn view(&self) -> Seq<Card> {
        self.cards@
    }
}

impl Deck {
    /// Build the full 52-card deck, one card for each (suit, rank) pair,
    /// all face-down, in a fixed order.
    pub fn new() -> (d: Deck)
        ensures
            d@ == full_deck_seq(),
    {
        let suites = Suite::all();
        let values = Value::all();
        assert(forall|t: int| 0 <= t < 4 ==> suites@[t] == suite_of_index(t));
        assert(forall|t: int| 0 <= t < 13 ==> values@[t] == value_of_index(t));
        let mut cards: Vec<Card> = Vec::new();
        let mut i: usize = 0;
        while i < 4
            invariant
                0 <= i <= 4,
                suites@.len() == 4,
                values@.len() == 13,
                forall|t: int| 0 <= t < 4 ==> suites@[t] == suite_of_index(t),
                forall|t: int| 0 <= t < 13 ==> values@[t] == value_of_index(t),
                cards@.len() == i * 13,
                forall|k: int| 0 <= k < cards@.len() ==> cards@[k] == full_deck_card(k),
            decreases 4 - i,
        {
            let mut j: usize = 0;
            while j < 13
                invariant
                    0 <= i < 4,
                    0 <= j <= 13,
                    suites@.len() == 4,
                    values@.len() == 13,
                    forall|t: int| 0 <= t < 4 ==> suites@[t] == suite_of_index(t),
                    forall|t: int| 0 <= t < 13 ==> values@[t] == value_of_index(t),
                    cards@.len() == i * 13 + j,
                    forall|k: int| 0 <= k < cards@.len() ==> cards@[k] == full_deck_card(k),
                decreases 13 - j,
            {
                let card = Card::new(suites[i], values[j]);
                proof {
                    lemma_fundamental_div_mod_converse(
                        i as int * 13 + j as int,
                        13,
                        i as int,
                        j as int,
                    );
                }
                cards.push(card);
                j = j + 1;
            }
            i = i + 1;
        }
        let d = Deck { cards };
        assert(d@ =~= full_deck_seq());
        d
    }

    /// How many cards are left to draw.
    pub fn get_draw_deck_size(&self) -> (n: u8)
        requires
            self@.len() <= 52,
        ensures
            n == self@.len(),
    {
        self.cards.len() as u8
    }

    /// Remove and return the top card, or report the pile empty.
    pub fn draw(&mut self) -> (r: Option<Card>)
        ensures
            old(self)@.len() == 0 ==> r is None && final(self)@ == old(self)@,
            old(self)@.len() > 0 ==> {
                &&& r == Some(old(self)@.last())
                &&& final(self)@ == old(self)@.drop_last()
            },
    {
        self.cards.pop()
    }

    /// Relies on rand's `SliceRandom::shuffle`: it picks a permutation of
    /// the slice and applies it in place, so the multiset of cards is
    /// unchanged.
    #[verifier::external_body]
    pub fn shuffle(&mut self)
        ensures
            final(self)@.to_multiset() == old(self)@.to_multiset(),
    {
        self.cards.shuffle(&mut rand::rng());
    }
}

} // verus!
