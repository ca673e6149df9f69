//! The kinds of outgoing events that the server fans out to a room.

use vstd::prelude::*;

verus! {

/// What an outgoing envelope announces. Every event a room produces is
/// tagged with one of these.
#[derive(Clone, Copy, Debug, PartialEq, Eq, Structural)]
pub enum Action {
    GameCreated,
    RoomJoined,
    PlayerJoinedRoomInSession,
    Chat,
    CardDrawn,
    DrawDeckUpdated,
    ToggleVisibilityOfCard,
    DiscardCard,
    ResetDeck,
    Quit,
    Error,
}

} // verus!
