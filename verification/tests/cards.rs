use deck_of_cards_simulator_backend::card::{Card, Suite, Value};
use deck_of_cards_simulator_backend::deck::Deck;

#[test]
fn new_card_is_face_down() {
    let card = Card::new(Suite::Heart, Value::Queen);
    assert_eq!(card.suite, Suite::Heart);
    assert_eq!(card.value, Value::Queen);
    assert!(!card.visible);
}

#[test]
fn toggle_visibility_flips_the_flag() {
    let mut card = Card::new(Suite::Spade, Value::Ace);
    card.toggle_visibility();
    assert!(card.visible);
    assert_eq!(card.suite, Suite::Spade);
    assert_eq!(card.value, Value::Ace);
    card.toggle_visibility();
    assert!(!card.visible);
}

#[test]
fn card_data_hides_a_face_down_card() {
    let card = Card::new(Suite::Club, Value::Ten);
    let data = card.card_data();
    assert_eq!(data.suite, None);
    assert_eq!(data.value, None);
    assert!(!data.visible);
}

#[test]
fn card_data_shows_a_face_up_card() {
    let mut card = Card::new(Suite::Diamond, Value::King);
    card.toggle_visibility();
    let data = card.card_data();
    assert_eq!(data.suite, Some(Suite::Diamond));
    assert_eq!(data.value, Some(Value::King));
    assert!(data.visible);
}

#[test]
fn full_card_data_keeps_identity_face_down() {
    let card = Card::new(Suite::Heart, Value::Two);
    let data = card.full_card_data();
    assert_eq!(data.suite, Some(Suite::Heart));
    assert_eq!(data.value, Some(Value::Two));
    assert!(!data.visible);
}

#[test]
fn all_suits_and_ranks_are_enumerated() {
    assert_eq!(Suite::all().len(), 4);
    assert_eq!(Value::all().len(), 13);
}

#[test]
fn a_fresh_deck_holds_each_card_exactly_once() {
    let mut deck = Deck::new();
    assert_eq!(deck.get_draw_deck_size(), 52);
    let mut seen: Vec<(Suite, Value)> = Vec::new();
    while let Some(card) = deck.draw() {
        assert!(!card.visible);
        let id = (card.suite, card.value);
        assert!(!seen.contains(&id));
        seen.push(id);
    }
    assert_eq!(seen.len(), 52);
    for suite in Suite::all() {
        for value in Value::all() {
            assert!(seen.contains(&(suite, value)));
        }
    }
}

#[test]
fn shuffling_keeps_every_card() {
    let mut deck = Deck::new();
    deck.shuffle();
    assert_eq!(deck.get_draw_deck_size(), 52);
    let mut seen: Vec<(Suite, Value)> = Vec::new();
    while let Some(card) = deck.draw() {
        let id = (card.suite, card.value);
        assert!(!seen.contains(&id));
        seen.push(id);
    }
    assert_eq!(seen.len(), 52);
}
