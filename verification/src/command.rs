//! The kinds of incoming commands a client may issue.

use vstd::prelude::*;

verus! {

/// What an incoming envelope asks for.
#[derive(Clone, Copy, Debug, PartialEq, Eq, Structural)]
pub enum Command {
    CreateGame,
    JoinRoom,
    Chat,
    DrawCard,
    ToggleVisibilityOfCard,
    DiscardCard,
    ResetDeck,
    Quit,
}

} // verus!
