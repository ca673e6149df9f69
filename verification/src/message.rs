//! The message protocol: incoming command envelopes, outgoing event
//! envelopes with their per-event required fields, the fan-out unit that
//! addresses an event to a set of connections, and the human-readable
//! texts that events carry.

use vstd::prelude::*;

use crate::actions::Action;
use crate::card::{Card, CardData};
use crate::command::Command;
use crate::player::PlayerData;

verus! {

/// Why a command was rejected. Every error is answered to the issuer as
/// an `Error` event carrying a human-readable text.
#[derive(Clone, Copy, Debug, PartialEq, Eq, Structural)]
pub enum ServerError {
    /// A field the issued command needs is absent.
    MissingField,
    /// The named room code is not registered.
    RoomNotFound,
    /// The connection already belongs to a room.
    AlreadyInRoom,
    /// The connection has no player in the addressed room.
    NotInRoom,
    /// No free room code was found within the bounded number of attempts.
    CodeSpaceExhausted,
    /// A card was requested from an empty draw deck.
    EmptyDrawDeck,
}

/// The optional payload fields of an envelope. The builder decides which
/// of them an event of a given kind must carry.
#[derive(Debug)]
pub struct MessageData {
    pub player_name: Option<String>,
    pub room_id: Option<u32>,
    pub message: Option<String>,
    pub player_id: Option<String>,
    pub draw_deck_size: Option<u8>,
    pub card: Option<CardData>,
    pub hand: Option<Vec<CardData>>,
    pub other_players: Option<Vec<PlayerData>>,
    pub discard_pile: Option<Vec<Card>>,
    pub error: Option<String>,
}

/// A `MessageData` with every field absent.
pub open spec fn spec_empty_message_data() -> MessageData {
    MessageData {
        player_name: None,
        room_id: None,
        message: None,
        player_id: None,
        draw_deck_size: None,
        card: None,
        hand: None,
        other_players: None,
        discard_pile: None,
        error: None,
    }
}

impl Default for MessageData {
    /// Every field starts absent.
    fn default() -> (d: MessageData)
        ensures
            d == spec_empty_message_data(),
    {
        MessageData {
            player_name: None,
            room_id: None,
            message: None,
            player_id: None,
            draw_deck_size: None,
            card: None,
            hand: None,
            other_players: None,
            discard_pile: None,
            error: None,
        }
    }
}

impl MessageData {
    /// The player name, or the error that it is absent.
    pub fn get_player_name(&self) -> (r: Result<&String, ServerError>)
        ensures
            self.player_name matches Some(n) ==> (r matches Ok(s) && s == n),
            self.player_name is None ==> r == Err::<&String, ServerError>(
                ServerError::MissingField,
            ),
    {
        match &self.player_name {
            Some(n) => Ok(n),
            None => Err(ServerError::MissingField),
        }
    }

    /// The room code, or the error that it is absent.
    pub fn get_room_id(&self) -> (r: Result<u32, ServerError>)
        ensures
            self.room_id matches Some(c) ==> r == Ok::<u32, ServerError>(c),
            self.room_id is None ==> r == Err::<u32, ServerError>(ServerError::MissingField),
    {
        match self.room_id {
            Some(c) => Ok(c),
            None => Err(ServerError::MissingField),
        }
    }

    /// The chat text, or the error that it is absent.
    pub fn get_message(&self) -> (r: Result<&String, ServerError>)
        ensures
            self.message matches Some(m) ==> (r matches Ok(s) && s == m),
            self.message is None ==> r == Err::<&String, ServerError>(ServerError::MissingField),
    {
        match &self.message {
            Some(m) => Ok(m),
            None => Err(ServerError::MissingField),
        }
    }

    /// The (suit, rank) pair of the card field, or the error that the
    /// field is absent.
    pub fn get_card(&self) -> (r: Result<CardData, ServerError>)
        ensures
            self.card matches Some(c) ==> r == Ok::<CardData, ServerError>(c),
            self.card is None ==> r == Err::<CardData, ServerError>(ServerError::MissingField),
    {
        match self.card {
            Some(c) => Ok(c),
            None => Err(ServerError::MissingField),
        }
    }
}

/// An outgoing event envelope: the event kind and its payload.
#[derive(Debug)]
pub struct CustomMessage {
    pub action: Action,
    pub data: MessageData,
}

/// An incoming command envelope: the command kind and its payload.
#[derive(Debug)]
pub struct IncomingMessage {
    pub command: Command,
    pub data: MessageData,
}

/// Which payload fields an event of each kind must carry.
pub open spec fn required_fields_ok(action: Action, data: MessageData) -> bool {
    match action {
        Action::GameCreated => data.room_id is Some && data.player_id is Some
            && data.player_name is Some && data.draw_deck_size is Some,
        Action::RoomJoined => data.room_id is Some && data.player_id is Some
            && data.player_name is Some && data.draw_deck_size is Some
            && data.other_players is Some && data.discard_pile is Some,
        Action::PlayerJoinedRoomInSession => data.player_id is Some && data.player_name is Some,
        Action::Chat => data.player_name is Some && data.message is Some
            && data.draw_deck_size is Some,
        Action::CardDrawn => data.draw_deck_size is Some,
        Action::DrawDeckUpdated => data.draw_deck_size is Some,
        Action::ToggleVisibilityOfCard => data.player_id is Some && data.card is Some,
        Action::DiscardCard => data.player_id is Some && data.card is Some && data.hand is Some,
        Action::ResetDeck => data.discard_pile is Some && data.draw_deck_size is Some
            && data.message is Some,
        Action::Quit => data.player_id is Some && data.discard_pile is Some
            && data.message is Some,
        Action::Error => data.error is Some,
    }
}

/// Step-by-step construction of an outgoing envelope. `build` refuses an
/// envelope whose event kind is unset or whose required fields are not
/// all present.
#[derive(Debug)]
pub struct CustomMessageBuilder {
    pub action: Option<Action>,
    pub data: MessageData,
}

impl Default for CustomMessageBuilder {
    /// No event kind chosen, every payload field absent.
    fn default() -> (r: CustomMessageBuilder)
        ensures
            r.action is None,
            r.data == spec_empty_message_data(),
    {
        CustomMessageBuilder { action: None, data: MessageData::default() }
    }
}

impl CustomMessageBuilder {
    /// An empty builder.
    pub fn new() -> (r: CustomMessageBuilder)
        ensures
            r.action is None,
            r.data == spec_empty_message_data(),
    {
        CustomMessageBuilder::default()
    }

    /// Choose the event kind.
    pub fn set_action(self, action: Action) -> (r: Self)
        ensures
            r == (CustomMessageBuilder { action: Some(action), ..self }),
    {
        CustomMessageBuilder { action: Some(action), ..self }
    }

    /// Set the room code field.
    pub fn set_room_id(self, room_id: u32) -> (r: Self)
        ensures
            r == (CustomMessageBuilder {
                data: MessageData { room_id: Some(room_id), ..self.data },
                ..self
            }),
    {
        CustomMessageBuilder {
            action: self.action,
            data: MessageData { room_id: Some(room_id), ..self.data },
        }
    }

    /// Set the player name field.
    pub fn set_player_name(self, player_name: &str) -> (r: Self)
        ensures
            r.action == self.action,
            r.data.player_name matches Some(n) && n@ == player_name@,
            r.data.room_id == self.data.room_id,
            r.data.message == self.data.message,
            r.data.player_id == self.data.player_id,
            r.data.draw_deck_size == self.data.draw_deck_size,
            r.data.card == self.data.card,
            r.data.hand == self.data.hand,
            r.data.other_players == self.data.other_players,
            r.data.discard_pile == self.data.discard_pile,
            r.data.error == self.data.error,
    {
        CustomMessageBuilder {
            action: self.action,
            data: MessageData { player_name: Some(player_name.to_owned()), ..self.data },
        }
    }

    /// Set the chat text field.
    pub fn set_message(self, message: &str) -> (r: Self)
        ensures
            r.action == self.action,
            r.data.message matches Some(m) && m@ == message@,
            r.data.player_name == self.data.player_name,
            r.data.room_id == self.data.room_id,
            r.data.player_id == self.data.player_id,
            r.data.draw_deck_size == self.data.draw_deck_size,
            r.data.card == self.data.card,
            r.data.hand == self.data.hand,
            r.data.other_players == self.data.other_players,
            r.data.discard_pile == self.data.discard_pile,
            r.data.error == self.data.error,
    {
        CustomMessageBuilder {
            action: self.action,
            data: MessageData { message: Some(message.to_owned()), ..self.data },
        }
    }

    /// Set the player id field.
    pub fn set_player_id(self, player_id: String) -> (r: Self)
        ensures
            r == (CustomMessageBuilder {
                data: MessageData { player_id: Some(player_id), ..self.data },
                ..self
            }),
    {
        CustomMessageBuilder {
            action: self.action,
            data: MessageData { player_id: Some(player_id), ..self.data },
        }
    }

    /// Set the draw-deck size field.
    pub fn set_draw_deck_size(self, draw_deck_size: u8) -> (r: Self)
        ensures
            r == (CustomMessageBuilder {
                data: MessageData { draw_deck_size: Some(draw_deck_size), ..self.data },
                ..self
            }),
    {
        CustomMessageBuilder {
            action: self.action,
            data: MessageData { draw_deck_size: Some(draw_deck_size), ..self.data },
        }
    }

    /// Set the card field.
    pub fn set_card(self, card: CardData) -> (r: Self)
        ensures
            r == (CustomMessageBuilder {
                data: MessageData { card: Some(card), ..self.data },
                ..self
            }),
    {
        CustomMessageBuilder {
            action: self.action,
            data: MessageData { card: Some(card), ..self.data },
        }
    }

    /// Set the hand field.
    pub fn set_hand(self, hand: Vec<CardData>) -> (r: Self)
        ensures
            r == (CustomMessageBuilder {
                data: MessageData { hand: Some(hand), ..self.data },
                ..self
            }),
    {
        CustomMessageBuilder {
            action: self.action,
            data: MessageData { hand: Some(hand), ..self.data },
        }
    }

    /// Set the list of other players.
    pub fn set_other_players(self, other_players: Vec<PlayerData>) -> (r: Self)
        ensures
            r == (CustomMessageBuilder {
                data: MessageData { other_players: Some(other_players), ..self.data },
                ..self
            }),
    {
        CustomMessageBuilder {
            action: self.action,
            data: MessageData { other_players: Some(other_players), ..self.data },
        }
    }

    /// Set the discard pile field.
    pub fn set_discard_pile(self, discard_pile: Vec<Card>) -> (r: Self)
        ensures
            r == (CustomMessageBuilder {
                data: MessageData { discard_pile: Some(discard_pile), ..self.data },
                ..self
            }),
    {
        CustomMessageBuilder {
            action: self.action,
            data: MessageData { discard_pile: Some(discard_pile), ..self.data },
        }
    }

    /// Set the error text field.
    pub fn set_error(self, error: String) -> (r: Self)
        ensures
            r == (CustomMessageBuilder {
                data: MessageData { error: Some(error), ..self.data },
                ..self
            }),
    {
        CustomMessageBuilder {
            action: self.action,
            data: MessageData { error: Some(error), ..self.data },
        }
    }

    /// Whether `build` will accept this builder.
    pub open spec fn buildable(self) -> bool {
        self.action matches Some(a) && required_fields_ok(a, self.data)
    }

    /// Finish the envelope: accepted exactly when the event kind is set
    /// and every field that kind requires is present.
    pub fn build(self) -> (r: Result<CustomMessage, ServerError>)
        ensures
            self.buildable() ==> r == Ok::<CustomMessage, ServerError>(CustomMessage {
                action: self.action->0,
                data: self.data,
            }),
            !self.buildable() ==> r == Err::<CustomMessage, ServerError>(
                ServerError::MissingField,
            ),
    {
        match self.action {
            None => Err(ServerError::MissingField),
            Some(action) => {
                if required_fields_present(action, &self.data) {
                    Ok(CustomMessage { action, data: self.data })
                } else {
                    Err(ServerError::MissingField)
                }
            },
        }
    }
}

/// Whether every field that an event of this kind must carry is present.
fn required_fields_present(action: Action, data: &MessageData) -> (b: bool)
    ensures
        b == required_fields_ok(action, *data),
{
    match action {
        Action::GameCreated => data.room_id.is_some() && data.player_id.is_some()
            && data.player_name.is_some() && data.draw_deck_size.is_some(),
        Action::RoomJoined => data.room_id.is_some() && data.player_id.is_some()
            && data.player_name.is_some() && data.draw_deck_size.is_some()
            && data.other_players.is_some() && data.discard_pile.is_some(),
        Action::PlayerJoinedRoomInSession => data.player_id.is_some()
            && data.player_name.is_some(),
        Action::Chat => data.player_name.is_some() && data.message.is_some()
            && data.draw_deck_size.is_some(),
        Action::CardDrawn => data.draw_deck_size.is_some(),
        Action::DrawDeckUpdated => data.draw_deck_size.is_some(),
        Action::ToggleVisibilityOfCard => data.player_id.is_some() && data.card.is_some(),
        Action::DiscardCard => data.player_id.is_some() && data.card.is_some()
            && data.hand.is_some(),
        Action::ResetDeck => data.discard_pile.is_some() && data.draw_deck_size.is_some()
            && data.message.is_some(),
        Action::Quit => data.player_id.is_some() && data.discard_pile.is_some()
            && data.message.is_some(),
        Action::Error => data.error.is_some(),
    }
}

/// One unit of fan-out: an event envelope together with the connections
/// it is addressed to.
#[derive(Debug)]
pub struct Outgoing {
    pub recipients: Vec<u64>,
    pub message: CustomMessage,
}

/// The stream that one connection observes of a fan-out log: the
/// messages addressed to it, in log order.
pub open spec fn stream_for(out: Seq<Outgoing>, conn: u64) -> Seq<CustomMessage>
    decreases out.len(),
{
    if out.len() == 0 {
        Seq::empty()
    } else if out[0].recipients@.contains(conn) {
        seq![out[0].message] + stream_for(out.drop_first(), conn)
    } else {
        stream_for(out.drop_first(), conn)
    }
}

/// Law: fan-out keeps command order. When the log of one command (`a`)
/// precedes the log of another (`b`), every recipient observes all of
/// `a`'s events strictly before any of `b`'s.
pub proof fn lemma_stream_order(a: Seq<Outgoing>, b: Seq<Outgoing>, conn: u64)
    ensures
        stream_for(a + b, conn) == stream_for(a, conn) + stream_for(b, conn),
    decreases a.len(),
{
    if a.len() == 0 {
        assert(a + b =~= b);
        assert(stream_for(a, conn) + stream_for(b, conn) =~= stream_for(b, conn));
    } else {
        assert((a + b).drop_first() =~= a.drop_first() + b);
        lemma_stream_order(a.drop_first(), b, conn);
        if a[0].recipients@.contains(conn) {
            assert(seq![a[0].message] + (stream_for(a.drop_first(), conn) + stream_for(b, conn))
                =~= (seq![a[0].message] + stream_for(a.drop_first(), conn)) + stream_for(b, conn));
        }
    }
}

/// Address a message to a single connection.
pub fn send_to(outbox: &mut Vec<Outgoing>, conn: u64, message: CustomMessage)
    ensures
        final(outbox)@.len() == old(outbox)@.len() + 1,
        crate::seq_util::seq_extends(old(outbox)@, final(outbox)@),
        final(outbox)@.last().message == message,
        final(outbox)@.last().recipients@ == seq![conn],
{
    let mut recipients: Vec<u64> = Vec::new();
    recipients.push(conn);
    outbox.push(Outgoing { recipients, message });
    assert(outbox@.take(old(outbox)@.len() as int) =~= old(outbox)@);
    assert(recipients@ =~= seq![conn]);
}

/// The decimal digit characters of a four-digit room code.
pub open spec fn spec_dec_digit(d: int) -> char {
    if d == 0 {
        '0'
    } else if d == 1 {
        '1'
    } else if d == 2 {
        '2'
    } else if d == 3 {
        '3'
    } else if d == 4 {
        '4'
    } else if d == 5 {
        '5'
    } else if d == 6 {
        '6'
    } else if d == 7 {
        '7'
    } else if d == 8 {
        '8'
    } else {
        '9'
    }
}

/// The decimal digits of a number, most significant first.
pub open spec fn spec_u32_digits(n: int) -> Seq<char>
    decreases n,
{
    if n < 10 {
        seq![spec_dec_digit(n)]
    } else {
        spec_u32_digits(n / 10) + seq![spec_dec_digit(n % 10)]
    }
}

/// The text of the error answered to a command that names an unknown
/// room code.
pub open spec fn spec_room_missing_text(code: int) -> Seq<char> {
    "room with code "@ + spec_u32_digits(code) + " doesn't exist"@
}

/// The text of the `Quit` event for a departing player.
pub open spec fn spec_quit_text(name: Seq<char>) -> Seq<char> {
    name + " left the room."@
}

/// The text of the `ResetDeck` event.
pub open spec fn spec_reset_text() -> Seq<char> {
    "the deck was rebuilt and shuffled"@
}

/// The text carried by an `Error` event for each rejection. The room
/// code only matters for `RoomNotFound`.
pub open spec fn spec_error_text(e: ServerError, code: int) -> Seq<char> {
    match e {
        ServerError::MissingField => "a required field is missing"@,
        ServerError::RoomNotFound => spec_room_missing_text(code),
        ServerError::AlreadyInRoom => "already in a room"@,
        ServerError::NotInRoom => "not a member of this room"@,
        ServerError::CodeSpaceExhausted => "no free room code could be found"@,
        ServerError::EmptyDrawDeck => "the draw deck is empty"@,
    }
}

/// One decimal digit as text.
fn digit_str(d: u32) -> (r: &'static str)
    requires
        d < 10,
    ensures
        r@ == seq![spec_dec_digit(d as int)],
{
    match d {
        0 => {
            proof {
                reveal_strlit("0");
            }
            assert("0"@ =~= seq![spec_dec_digit(0)]);
            "0"
        },
        1 => {
            proof {
                reveal_strlit("1");
            }
            assert("1"@ =~= seq![spec_dec_digit(1)]);
            "1"
        },
        2 => {
            proof {
                reveal_strlit("2");
            }
            assert("2"@ =~= seq![spec_dec_digit(2)]);
            "2"
        },
        3 => {
            proof {
                reveal_strlit("3");
            }
            assert("3"@ =~= seq![spec_dec_digit(3)]);
            "3"
        },
        4 => {
            proof {
                reveal_strlit("4");
            }
            assert("4"@ =~= seq![spec_dec_digit(4)]);
            "4"
        },
        5 => {
            proof {
                reveal_strlit("5");
            }
            assert("5"@ =~= seq![spec_dec_digit(5)]);
            "5"
        },
        6 => {
            proof {
                reveal_strlit("6");
            }
            assert("6"@ =~= seq![spec_dec_digit(6)]);
            "6"
        },
        7 => {
            proof {
                reveal_strlit("7");
            }
            assert("7"@ =~= seq![spec_dec_digit(7)]);
            "7"
        },
        8 => {
            proof {
                reveal_strlit("8");
            }
            assert("8"@ =~= seq![spec_dec_digit(8)]);
            "8"
        },
        _ => {
            proof {
                reveal_strlit("9");
            }
            assert("9"@ =~= seq![spec_dec_digit(9)]);
            "9"
        },
    }
}

/// A number as decimal text.
pub fn u32_string(n: u32) -> (r: String)
    ensures
        r@ == spec_u32_digits(n as int),
    decreases n,
{
    if n < 10 {
        digit_str(n).to_owned()
    } else {
        let mut s = u32_string(n / 10);
        s.append(digit_str(n % 10));
        s
    }
}

/// The error text for a command naming an unknown room code.
pub fn room_missing_text(code: u32) -> (r: String)
    ensures
        r@ == spec_room_missing_text(code as int),
{
    let mut s: String = "room with code ".to_owned();
    let digits = u32_string(code);
    s.append(digits.as_str());
    s.append(" doesn't exist");
    assert(s@ =~= spec_room_missing_text(code as int));
    s
}

/// The text of the `Quit` event for a departing player.
pub fn quit_text(name: &str) -> (r: String)
    ensures
        r@ == spec_quit_text(name@),
{
    let mut s: String = name.to_owned();
    s.append(" left the room.");
    s
}

/// The text of the `ResetDeck` event.
pub fn reset_text() -> (r: String)
    ensures
        r@ == spec_reset_text(),
{
    "the deck was rebuilt and shuffled".to_owned()
}

/// What an `Error` event for a rejection looks like: the error text and
/// nothing else.
pub open spec fn is_error_msg(m: CustomMessage, e: ServerError, code: int) -> bool {
    &&& m.action == Action::Error
    &&& m.data.error matches Some(t) && t@ == spec_error_text(e, code)
    &&& m.data.player_name is None
    &&& m.data.room_id is None
    &&& m.data.message is None
    &&& m.data.player_id is None
    &&& m.data.draw_deck_size is None
    &&& m.data.card is None
    &&& m.data.hand is None
    &&& m.data.other_players is None
    &&& m.data.discard_pile is None
}

/// The `Error` event answered to the issuer of a rejected command.
pub fn error_message(e: ServerError, code: u32) -> (m: CustomMessage)
    ensures
        is_error_msg(m, e, code as int),
{
    match CustomMessageBuilder::new().set_action(Action::Error).set_error(
        error_text(e, code),
    ).build() {
        Ok(m) => m,
        Err(_) => unreached(),
    }
}

/// The text carried by an `Error` event.
pub fn error_text(e: ServerError, code: u32) -> (r: String)
    ensures
        r@ == spec_error_text(e, code as int),
{
    match e {
        ServerError::MissingField => "a required field is missing".to_owned(),
        ServerError::RoomNotFound => room_missing_text(code),
        ServerError::AlreadyInRoom => "already in a room".to_owned(),
        ServerError::NotInRoom => "not a member of this room".to_owned(),
        ServerError::CodeSpaceExhausted => "no free room code could be found".to_owned(),
        ServerError::EmptyDrawDeck => "the draw deck is empty".to_owned(),
    }
}

} // verus!
