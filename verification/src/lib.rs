//! Core of a shared card-table server: rooms of players drawing from a
//! common deck, with a hub that routes commands to rooms and fans events
//! out to the affected players.

pub mod actions;
pub mod card;
pub mod command;
pub mod deck;
pub mod main_state;
pub mod message;
pub mod player;
pub mod room;
pub mod seq_util;
