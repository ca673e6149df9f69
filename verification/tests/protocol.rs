use deck_of_cards_simulator_backend::actions::Action;
use deck_of_cards_simulator_backend::card::Card;
use deck_of_cards_simulator_backend::card::{Suite, Value};
use deck_of_cards_simulator_backend::message::{
    error_text, quit_text, room_missing_text, u32_string, CustomMessageBuilder, MessageData,
    ServerError,
};

#[test]
fn builder_refuses_a_missing_action() {
    let r = CustomMessageBuilder::new().set_message("hello").build();
    assert!(matches!(r, Err(ServerError::MissingField)));
}

#[test]
fn builder_refuses_missing_required_fields() {
    let r = CustomMessageBuilder::new().set_action(Action::CardDrawn).build();
    assert!(matches!(r, Err(ServerError::MissingField)));
    let r = CustomMessageBuilder::new()
        .set_action(Action::Chat)
        .set_player_name("A")
        .set_message("hi")
        .build();
    assert!(matches!(r, Err(ServerError::MissingField)));
}

#[test]
fn builder_keeps_the_payload() {
    let card = Card::new(Suite::Heart, Value::Queen);
    let m = CustomMessageBuilder::new()
        .set_action(Action::GameCreated)
        .set_room_id(7421)
        .set_player_id("p-1".to_string())
        .set_player_name("A")
        .set_draw_deck_size(52)
        .set_card(card.full_card_data())
        .build()
        .unwrap();
    assert_eq!(m.action, Action::GameCreated);
    assert_eq!(m.data.room_id, Some(7421));
    assert_eq!(m.data.player_id.as_deref(), Some("p-1"));
    assert_eq!(m.data.player_name.as_deref(), Some("A"));
    assert_eq!(m.data.draw_deck_size, Some(52));
    assert_eq!(m.data.card.unwrap().suite, Some(Suite::Heart));
}

#[test]
fn getters_report_missing_fields() {
    let data = MessageData::default();
    assert!(matches!(data.get_player_name(), Err(ServerError::MissingField)));
    assert!(matches!(data.get_room_id(), Err(ServerError::MissingField)));
    assert!(matches!(data.get_message(), Err(ServerError::MissingField)));
    assert!(matches!(data.get_card(), Err(ServerError::MissingField)));
}

#[test]
fn getters_hand_back_present_fields() {
    let mut data = MessageData::default();
    data.player_name = Some("B".to_string());
    data.room_id = Some(1234);
    data.message = Some("hello".to_string());
    assert_eq!(data.get_player_name().unwrap(), "B");
    assert_eq!(data.get_room_id().unwrap(), 1234);
    assert_eq!(data.get_message().unwrap(), "hello");
}

#[test]
fn numbers_render_in_decimal() {
    assert_eq!(u32_string(0), "0");
    assert_eq!(u32_string(7), "7");
    assert_eq!(u32_string(7421), "7421");
    assert_eq!(u32_string(90210), "90210");
}

#[test]
fn missing_room_text_names_the_code() {
    assert_eq!(room_missing_text(7421), "room with code 7421 doesn't exist");
}

#[test]
fn quit_text_names_the_player() {
    assert_eq!(quit_text("B"), "B left the room.");
}

#[test]
fn each_error_has_a_text() {
    assert_eq!(error_text(ServerError::MissingField, 0), "a required field is missing");
    assert_eq!(error_text(ServerError::RoomNotFound, 1000), "room with code 1000 doesn't exist");
    assert_eq!(error_text(ServerError::AlreadyInRoom, 0), "already in a room");
    assert_eq!(error_text(ServerError::NotInRoom, 0), "not a member of this room");
    assert_eq!(error_text(ServerError::CodeSpaceExhausted, 0), "no free room code could be found");
    assert_eq!(error_text(ServerError::EmptyDrawDeck, 0), "the draw deck is empty");
}
