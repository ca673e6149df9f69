use deck_of_cards_simulator_backend::actions::Action;
use deck_of_cards_simulator_backend::card::{CardData, Suite, Value};
use deck_of_cards_simulator_backend::command::Command;
use deck_of_cards_simulator_backend::main_state::MainState;
use deck_of_cards_simulator_backend::message::{IncomingMessage, MessageData, Outgoing};

fn send(state: &mut MainState, conn: u64, command: Command, data: MessageData) -> Vec<Outgoing> {
    let mut outbox: Vec<Outgoing> = Vec::new();
    let message = IncomingMessage { command, data };
    state.handle_incoming_message(conn, &message, &mut outbox);
    outbox
}

fn named(name: &str) -> MessageData {
    let mut data = MessageData::default();
    data.player_name = Some(name.to_string());
    data
}

fn in_room(code: u32) -> MessageData {
    let mut data = MessageData::default();
    data.room_id = Some(code);
    data
}

fn card_in_room(code: u32, suite: Suite, value: Value) -> MessageData {
    let mut data = in_room(code);
    data.card = Some(CardData { suite: Some(suite), value: Some(value), visible: false });
    data
}

/// Creates a room for player "A" on connection 1 and returns its code
/// and A's player id.
fn room_with_creator(state: &mut MainState) -> (u32, String) {
    let out = send(state, 1, Command::CreateGame, named("A"));
    assert_eq!(out.len(), 1);
    let event = &out[0];
    assert_eq!(event.recipients, vec![1]);
    assert_eq!(event.message.action, Action::GameCreated);
    let code = event.message.data.room_id.unwrap();
    assert!((1000..=9999).contains(&code));
    assert_eq!(event.message.data.player_name.as_deref(), Some("A"));
    assert_eq!(event.message.data.draw_deck_size, Some(52));
    let id = event.message.data.player_id.clone().unwrap();
    assert_eq!(id.len(), 36);
    (code, id)
}

/// Joins player "B" on connection 2 and returns B's player id.
fn join_second_player(state: &mut MainState, code: u32) -> String {
    let mut data = named("B");
    data.room_id = Some(code);
    let out = send(state, 2, Command::JoinRoom, data);
    assert_eq!(out.len(), 2);
    let joined = &out[0];
    assert_eq!(joined.recipients, vec![2]);
    assert_eq!(joined.message.action, Action::RoomJoined);
    let announced = &out[1];
    assert_eq!(announced.recipients, vec![1]);
    assert_eq!(announced.message.action, Action::PlayerJoinedRoomInSession);
    joined.message.data.player_id.clone().unwrap()
}

#[test]
fn create_game_reports_room_and_deck() {
    let mut state = MainState::new();
    let (code, id) = room_with_creator(&mut state);
    assert!((1000..=9999).contains(&code));
    assert_eq!(id.len(), 36);
}

#[test]
fn join_room_announces_both_sides() {
    let mut state = MainState::new();
    let (code, a_id) = room_with_creator(&mut state);
    let mut data = named("B");
    data.room_id = Some(code);
    let out = send(&mut state, 2, Command::JoinRoom, data);
    assert_eq!(out.len(), 2);

    let joined = &out[0];
    assert_eq!(joined.recipients, vec![2]);
    assert_eq!(joined.message.action, Action::RoomJoined);
    assert_eq!(joined.message.data.room_id, Some(code));
    assert_eq!(joined.message.data.player_name.as_deref(), Some("B"));
    assert_eq!(joined.message.data.draw_deck_size, Some(52));
    let others = joined.message.data.other_players.as_ref().unwrap();
    assert_eq!(others.len(), 1);
    assert_eq!(others[0].name, "A");
    assert_eq!(others[0].id, a_id);
    assert!(others[0].hand.is_empty());
    assert!(joined.message.data.discard_pile.as_ref().unwrap().is_empty());

    let announced = &out[1];
    assert_eq!(announced.recipients, vec![1]);
    assert_eq!(announced.message.action, Action::PlayerJoinedRoomInSession);
    assert_eq!(announced.message.data.player_name.as_deref(), Some("B"));
}

#[test]
fn draw_card_hides_the_card_from_others() {
    let mut state = MainState::new();
    let (code, _) = room_with_creator(&mut state);
    join_second_player(&mut state, code);

    let out = send(&mut state, 1, Command::DrawCard, in_room(code));
    assert_eq!(out.len(), 2);

    let to_drawer = &out[0];
    assert_eq!(to_drawer.recipients, vec![1]);
    assert_eq!(to_drawer.message.action, Action::CardDrawn);
    let card = to_drawer.message.data.card.unwrap();
    assert!(card.suite.is_some());
    assert!(card.value.is_some());
    assert!(!card.visible);
    assert_eq!(to_drawer.message.data.draw_deck_size, Some(51));

    let to_others = &out[1];
    assert_eq!(to_others.recipients, vec![2]);
    assert_eq!(to_others.message.action, Action::CardDrawn);
    assert!(to_others.message.data.card.is_none());
    assert_eq!(to_others.message.data.draw_deck_size, Some(51));
}

#[test]
fn toggle_reveals_the_card_to_the_whole_room() {
    let mut state = MainState::new();
    let (code, a_id) = room_with_creator(&mut state);
    join_second_player(&mut state, code);

    let drawn = send(&mut state, 1, Command::DrawCard, in_room(code));
    let card = drawn[0].message.data.card.unwrap();
    let (suite, value) = (card.suite.unwrap(), card.value.unwrap());

    let out = send(
        &mut state,
        1,
        Command::ToggleVisibilityOfCard,
        card_in_room(code, suite, value),
    );
    assert_eq!(out.len(), 1);
    let event = &out[0];
    assert_eq!(event.recipients, vec![1, 2]);
    assert_eq!(event.message.action, Action::ToggleVisibilityOfCard);
    assert_eq!(event.message.data.player_id.as_deref(), Some(a_id.as_str()));
    let shown = event.message.data.card.unwrap();
    assert_eq!(shown.suite, Some(suite));
    assert_eq!(shown.value, Some(value));
    assert!(shown.visible);
}

#[test]
fn toggling_twice_conceals_the_card_again() {
    let mut state = MainState::new();
    let (code, _) = room_with_creator(&mut state);
    join_second_player(&mut state, code);

    let drawn = send(&mut state, 1, Command::DrawCard, in_room(code));
    let card = drawn[0].message.data.card.unwrap();
    let (suite, value) = (card.suite.unwrap(), card.value.unwrap());

    send(&mut state, 1, Command::ToggleVisibilityOfCard, card_in_room(code, suite, value));
    let out = send(&mut state, 1, Command::ToggleVisibilityOfCard, card_in_room(code, suite, value));
    assert_eq!(out.len(), 1);
    let shown = out[0].message.data.card.unwrap();
    assert_eq!(shown.suite, None);
    assert_eq!(shown.value, None);
    assert!(!shown.visible);
}

#[test]
fn discard_reports_the_card_and_the_hand() {
    let mut state = MainState::new();
    let (code, a_id) = room_with_creator(&mut state);
    join_second_player(&mut state, code);

    let drawn = send(&mut state, 1, Command::DrawCard, in_room(code));
    let card = drawn[0].message.data.card.unwrap();
    let (suite, value) = (card.suite.unwrap(), card.value.unwrap());

    let out = send(&mut state, 1, Command::DiscardCard, card_in_room(code, suite, value));
    assert_eq!(out.len(), 1);
    let event = &out[0];
    assert_eq!(event.recipients, vec![1, 2]);
    assert_eq!(event.message.action, Action::DiscardCard);
    assert_eq!(event.message.data.player_id.as_deref(), Some(a_id.as_str()));
    let shown = event.message.data.card.unwrap();
    assert_eq!(shown.suite, Some(suite));
    assert_eq!(shown.value, Some(value));
    assert!(shown.visible);
    assert!(event.message.data.hand.as_ref().unwrap().is_empty());
}

#[test]
fn chat_is_broadcast_with_the_deck_size() {
    let mut state = MainState::new();
    let (code, _) = room_with_creator(&mut state);
    join_second_player(&mut state, code);
    send(&mut state, 1, Command::DrawCard, in_room(code));

    let mut data = in_room(code);
    data.message = Some("hello".to_string());
    let out = send(&mut state, 2, Command::Chat, data);
    assert_eq!(out.len(), 1);
    let event = &out[0];
    assert_eq!(event.recipients, vec![1, 2]);
    assert_eq!(event.message.action, Action::Chat);
    assert_eq!(event.message.data.player_name.as_deref(), Some("B"));
    assert_eq!(event.message.data.message.as_deref(), Some("hello"));
    assert_eq!(event.message.data.draw_deck_size, Some(51));
}

#[test]
fn reset_deck_restores_the_full_deck() {
    let mut state = MainState::new();
    let (code, _) = room_with_creator(&mut state);
    send(&mut state, 1, Command::DrawCard, in_room(code));
    send(&mut state, 1, Command::DrawCard, in_room(code));

    let out = send(&mut state, 1, Command::ResetDeck, in_room(code));
    assert_eq!(out.len(), 1);
    let event = &out[0];
    assert_eq!(event.message.action, Action::ResetDeck);
    assert_eq!(event.message.data.draw_deck_size, Some(52));
    assert!(event.message.data.discard_pile.as_ref().unwrap().is_empty());
    assert_eq!(
        event.message.data.message.as_deref(),
        Some("the deck was rebuilt and shuffled")
    );

    // The hands were emptied: the next draw shrinks a full deck again.
    let drawn = send(&mut state, 1, Command::DrawCard, in_room(code));
    assert_eq!(drawn[0].message.data.draw_deck_size, Some(51));
}

#[test]
fn resetting_twice_changes_nothing_more() {
    let mut state = MainState::new();
    let (code, _) = room_with_creator(&mut state);
    send(&mut state, 1, Command::DrawCard, in_room(code));

    let first = send(&mut state, 1, Command::ResetDeck, in_room(code));
    let second = send(&mut state, 1, Command::ResetDeck, in_room(code));
    for out in [first, second] {
        assert_eq!(out.len(), 1);
        assert_eq!(out[0].message.action, Action::ResetDeck);
        assert_eq!(out[0].message.data.draw_deck_size, Some(52));
        assert!(out[0].message.data.discard_pile.as_ref().unwrap().is_empty());
    }
}

#[test]
fn discard_then_reset_matches_a_plain_reset() {
    let mut state = MainState::new();
    let (code, _) = room_with_creator(&mut state);
    let drawn = send(&mut state, 1, Command::DrawCard, in_room(code));
    let card = drawn[0].message.data.card.unwrap();
    send(
        &mut state,
        1,
        Command::DiscardCard,
        card_in_room(code, card.suite.unwrap(), card.value.unwrap()),
    );

    let out = send(&mut state, 1, Command::ResetDeck, in_room(code));
    assert_eq!(out[0].message.data.draw_deck_size, Some(52));
    assert!(out[0].message.data.discard_pile.as_ref().unwrap().is_empty());
}

#[test]
fn quit_moves_the_hand_to_the_discard_pile() {
    let mut state = MainState::new();
    let (code, _) = room_with_creator(&mut state);
    let b_id = join_second_player(&mut state, code);

    let drawn = send(&mut state, 2, Command::DrawCard, in_room(code));
    let card = drawn[0].message.data.card.unwrap();

    let out = send(&mut state, 2, Command::Quit, in_room(code));
    assert_eq!(out.len(), 1);
    let event = &out[0];
    assert_eq!(event.recipients, vec![1]);
    assert_eq!(event.message.action, Action::Quit);
    assert_eq!(event.message.data.player_id.as_deref(), Some(b_id.as_str()));
    assert_eq!(event.message.data.message.as_deref(), Some("B left the room."));
    let pile = event.message.data.discard_pile.as_ref().unwrap();
    assert_eq!(pile.len(), 1);
    assert_eq!(pile[0].suite, card.suite.unwrap());
    assert_eq!(pile[0].value, card.value.unwrap());
    assert!(pile[0].visible);
}

#[test]
fn an_emptied_room_is_reaped() {
    let mut state = MainState::new();
    let (code, _) = room_with_creator(&mut state);
    let mut outbox: Vec<Outgoing> = Vec::new();
    state.detach(1, &mut outbox);
    assert_eq!(outbox.len(), 1);
    assert_eq!(outbox[0].message.action, Action::Quit);
    assert!(outbox[0].recipients.is_empty());

    let mut data = named("C");
    data.room_id = Some(code);
    let out = send(&mut state, 3, Command::JoinRoom, data);
    assert_eq!(out.len(), 1);
    assert_eq!(out[0].recipients, vec![3]);
    assert_eq!(out[0].message.action, Action::Error);
    assert_eq!(
        out[0].message.data.error.as_deref(),
        Some(format!("room with code {} doesn't exist", code).as_str())
    );
}

#[test]
fn a_detached_stranger_leaves_no_trace() {
    let mut state = MainState::new();
    room_with_creator(&mut state);
    let mut outbox: Vec<Outgoing> = Vec::new();
    state.detach(77, &mut outbox);
    assert!(outbox.is_empty());
}

#[test]
fn missing_fields_are_rejected() {
    let mut state = MainState::new();
    let out = send(&mut state, 1, Command::CreateGame, MessageData::default());
    assert_eq!(out.len(), 1);
    assert_eq!(out[0].recipients, vec![1]);
    assert_eq!(out[0].message.action, Action::Error);
    assert_eq!(out[0].message.data.error.as_deref(), Some("a required field is missing"));
}

#[test]
fn creating_while_in_a_room_is_rejected() {
    let mut state = MainState::new();
    room_with_creator(&mut state);
    let out = send(&mut state, 1, Command::CreateGame, named("A"));
    assert_eq!(out.len(), 1);
    assert_eq!(out[0].message.action, Action::Error);
    assert_eq!(out[0].message.data.error.as_deref(), Some("already in a room"));
}

#[test]
fn a_stranger_cannot_chat() {
    let mut state = MainState::new();
    let (code, _) = room_with_creator(&mut state);
    let mut data = in_room(code);
    data.message = Some("psst".to_string());
    let out = send(&mut state, 9, Command::Chat, data);
    assert_eq!(out.len(), 1);
    assert_eq!(out[0].recipients, vec![9]);
    assert_eq!(out[0].message.action, Action::Error);
    assert_eq!(out[0].message.data.error.as_deref(), Some("not a member of this room"));
}

#[test]
fn drawing_from_an_empty_deck_is_reported() {
    let mut state = MainState::new();
    let (code, _) = room_with_creator(&mut state);
    for _ in 0..52 {
        let out = send(&mut state, 1, Command::DrawCard, in_room(code));
        assert_eq!(out[0].message.action, Action::CardDrawn);
    }
    let out = send(&mut state, 1, Command::DrawCard, in_room(code));
    assert_eq!(out.len(), 1);
    assert_eq!(out[0].message.action, Action::Error);
    assert_eq!(out[0].message.data.error.as_deref(), Some("the draw deck is empty"));
}

#[test]
fn a_full_game_conserves_all_52_cards() {
    let mut state = MainState::new();
    let (code, _) = room_with_creator(&mut state);
    join_second_player(&mut state, code);

    // Deal a few cards around and discard one of them.
    for _ in 0..3 {
        send(&mut state, 1, Command::DrawCard, in_room(code));
    }
    let drawn = send(&mut state, 2, Command::DrawCard, in_room(code));
    let card = drawn[0].message.data.card.unwrap();
    send(
        &mut state,
        2,
        Command::DiscardCard,
        card_in_room(code, card.suite.unwrap(), card.value.unwrap()),
    );

    // Drain the deck into hands, then count every card in sight when the
    // players leave: the discard pile must end up with one of each.
    loop {
        let out = send(&mut state, 1, Command::DrawCard, in_room(code));
        if out[0].message.action == Action::Error {
            break;
        }
    }
    send(&mut state, 2, Command::Quit, in_room(code));
    let out = send(&mut state, 1, Command::Quit, in_room(code));
    let pile = out[0].message.data.discard_pile.as_ref().unwrap();
    assert_eq!(pile.len(), 52);
    let mut seen: Vec<(Suite, Value)> = Vec::new();
    for card in pile.iter() {
        let id = (card.suite, card.value);
        assert!(!seen.contains(&id));
        seen.push(id);
    }
}
