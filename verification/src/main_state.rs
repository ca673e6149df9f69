//! The hub: the process-wide registry of rooms. It allocates room codes,
//! derives the issuing player from the connection handle, routes each
//! incoming command to its room, and answers rejected commands with an
//! `Error` event to the issuer alone.

use vstd::prelude::*;
use vstd::seq_lib::*;
use rand::RngExt;

use crate::card::Card;
use crate::command::Command;
use crate::message::{
    error_message, is_error_msg, send_to, IncomingMessage, MessageData, Outgoing, ServerError,
};
use crate::player::Player;
use crate::room::{
    conns_except, conns_of, is_card_drawn_others_msg, is_card_drawn_self_msg, is_chat_msg,
    is_game_created_msg, is_player_joined_msg, is_quit_msg, is_reset_msg, is_room_joined_msg,
    lemma_conns_of_push, lemma_conns_of_remove, reset_rel, reveal_all, Room,
};
use crate::seq_util::{lemma_index_of_first_is, seq_extends};

verus! {

/// Relies on rand's `random_range`: a number drawn uniformly from the
/// inclusive four-digit range.
#[verifier::external_body]
fn random_room_code() -> (c: u32)
    ensures
        1000 <= c <= 9999,
{
    rand::rng().random_range(1000..=9999)
}

/// How often the allocator retries a colliding random code before it
/// reports the code space exhausted.
pub const MAX_CODE_ATTEMPTS: usize = 100;

/// The registered codes, in registration order.
pub open spec fn room_codes(rooms: Seq<Room>) -> Seq<u32> {
    rooms.map_values(|r: Room| r.code)
}

/// Whether any registered room holds a player for this connection.
pub open spec fn rooms_has_conn(rooms: Seq<Room>, conn: u64) -> bool {
    exists|i: int| 0 <= i < rooms.len() && (#[trigger] rooms[i]).has_member(conn)
}

/// Law (code uniqueness): the hub's code-to-room mapping is injective —
/// two registered rooms that share a code are the same room — and every
/// registered room is reachable through its code.
pub proof fn lemma_code_uniqueness(s: MainState, i: int, j: int)
    requires
        s.wf(),
        0 <= i < s.rooms@.len(),
        0 <= j < s.rooms@.len(),
        s.rooms@[i].code == s.rooms@[j].code,
    ensures
        i == j,
        s.room_index_of(s.rooms@[i].code) is Some,
{
    if i != j {
        assert(s.rooms@[i].code != s.rooms@[j].code);
    }
    assert(room_codes(s.rooms@)[i] == s.rooms@[i].code);
    room_codes(s.rooms@).index_of_first_ensures(s.rooms@[i].code);
}

/// Exactly one `Error` event, addressed to the issuer alone, was
/// appended to the fan-out log.
pub open spec fn one_error(
    opre: Seq<Outgoing>,
    opost: Seq<Outgoing>,
    conn: u64,
    e: ServerError,
    code: int,
) -> bool {
    &&& opost.len() == opre.len() + 1
    &&& seq_extends(opre, opost)
    &&& is_error_msg(opost.last().message, e, code)
    &&& opost.last().recipients@ == seq![conn]
}

/// What `CreateGame` does: a missing name or a connection already in a
/// room is an error to the issuer; otherwise either the allocator gave
/// up, or a fresh room under an unused code was registered, with its
/// creator told so.
pub open spec fn create_game_post(
    pre: MainState,
    post: MainState,
    conn: u64,
    data: MessageData,
    opre: Seq<Outgoing>,
    opost: Seq<Outgoing>,
) -> bool {
    &&& data.player_name is None ==> {
        &&& post.rooms@ == pre.rooms@
        &&& one_error(opre, opost, conn, ServerError::MissingField, 0)
    }
    &&& data.player_name is Some && rooms_has_conn(pre.rooms@, conn) ==> {
        &&& post.rooms@ == pre.rooms@
        &&& one_error(opre, opost, conn, ServerError::AlreadyInRoom, 0)
    }
    &&& data.player_name is Some && !rooms_has_conn(pre.rooms@, conn) ==> {
        ||| {
            &&& post.rooms@ == pre.rooms@
            &&& one_error(opre, opost, conn, ServerError::CodeSpaceExhausted, 0)
        }
        ||| {
            &&& post.rooms@.len() == pre.rooms@.len() + 1
            &&& post.rooms@.take(pre.rooms@.len() as int) == pre.rooms@
            &&& ({
                let r = post.rooms@.last();
                let p = r.players@[0];
                &&& r.wf()
                &&& !room_codes(pre.rooms@).contains(r.code)
                &&& r.players@.len() == 1
                &&& p.conn == conn
                &&& p.name@ == data.player_name->0@
                &&& p.hand@.len() == 0
                &&& r.discard_pile@.len() == 0
                &&& r.draw_deck@.len() == 52
                &&& opost.len() == opre.len() + 1
                &&& seq_extends(opre, opost)
                &&& is_game_created_msg(opost.last().message, r.code, p)
                &&& opost.last().recipients@ == seq![conn]
            })
        }
    }
}

/// What `JoinRoom` does: a missing field, a bound connection, or an
/// unknown code is an error to the issuer; otherwise the player joins —
/// unless the freshly drawn player id collides, which is answered like a
/// rebinding attempt.
pub open spec fn join_room_post(
    pre: MainState,
    post: MainState,
    conn: u64,
    data: MessageData,
    opre: Seq<Outgoing>,
    opost: Seq<Outgoing>,
) -> bool {
    let code = data.room_id->0;
    &&& (data.room_id is None || data.player_name is None) ==> {
        &&& post.rooms@ == pre.rooms@
        &&& one_error(opre, opost, conn, ServerError::MissingField, 0)
    }
    &&& data.room_id is Some && data.player_name is Some && rooms_has_conn(pre.rooms@, conn)
        ==> {
        &&& post.rooms@ == pre.rooms@
        &&& one_error(opre, opost, conn, ServerError::AlreadyInRoom, 0)
    }
    &&& data.room_id is Some && data.player_name is Some && !rooms_has_conn(pre.rooms@, conn)
        && pre.room_index_of(code) is None ==> {
        &&& post.rooms@ == pre.rooms@
        &&& one_error(opre, opost, conn, ServerError::RoomNotFound, code as int)
    }
    &&& data.room_id is Some && data.player_name is Some && !rooms_has_conn(pre.rooms@, conn)
        ==> (pre.room_index_of(code) matches Some(i) ==> {
        ||| {
            &&& post.rooms@ == pre.rooms@
            &&& one_error(opre, opost, conn, ServerError::AlreadyInRoom, 0)
        }
        ||| {
            &&& post.rooms@.len() == pre.rooms@.len()
            &&& forall|k: int|
                0 <= k < pre.rooms@.len() && k != i ==> post.rooms@[k] == pre.rooms@[k]
            &&& ({
                let r0 = pre.rooms@[i];
                let r1 = post.rooms@[i];
                let p = r1.players@.last();
                &&& r1.wf()
                &&& r1.code == r0.code
                &&& r1.draw_deck@ == r0.draw_deck@
                &&& r1.discard_pile@ == r0.discard_pile@
                &&& r1.players@ == r0.players@.push(p)
                &&& p.conn == conn
                &&& p.name@ == data.player_name->0@
                &&& p.hand@.len() == 0
                &&& opost.len() == opre.len() + 2
                &&& seq_extends(opre, opost)
                &&& is_room_joined_msg(opost[opre.len() as int].message, r0, p)
                &&& opost[opre.len() as int].recipients@ == seq![conn]
                &&& is_player_joined_msg(opost[opre.len() as int + 1].message, p)
                &&& opost[opre.len() as int + 1].recipients@ == conns_except(r1.players@, conn)
            })
        }
    })
}

/// What `Chat` does: a missing field, an unknown code, or an issuer
/// without a player in the room is an error; otherwise the line is
/// broadcast to the whole room and nothing changes.
pub open spec fn chat_post(
    pre: MainState,
    post: MainState,
    conn: u64,
    data: MessageData,
    opre: Seq<Outgoing>,
    opost: Seq<Outgoing>,
) -> bool {
    let code = data.room_id->0;
    &&& post.rooms@ == pre.rooms@
    &&& (data.room_id is None || data.message is None) ==> one_error(
        opre,
        opost,
        conn,
        ServerError::MissingField,
        0,
    )
    &&& data.room_id is Some && data.message is Some && pre.room_index_of(code) is None
        ==> one_error(opre, opost, conn, ServerError::RoomNotFound, code as int)
    &&& data.room_id is Some && data.message is Some ==> (pre.room_index_of(code) matches Some(
        i,
    ) ==> {
        let r = pre.rooms@[i];
        &&& !r.has_member(conn) ==> one_error(opre, opost, conn, ServerError::NotInRoom, code as int)
        &&& r.has_member(conn) ==> {
            &&& opost.len() == opre.len() + 1
            &&& seq_extends(opre, opost)
            &&& is_chat_msg(
                opost.last().message,
                r.players@[r.member_index_of(conn)->0].name@,
                data.message->0@,
                r.draw_deck@.len() as int,
            )
            &&& opost.last().recipients@ == conns_of(r.players@)
        }
    })
}

/// What `DrawCard` does: errors to the issuer for a missing code, an
/// unknown room, a foreign connection or an empty deck; otherwise the
/// top card moves into the issuer's hand, the issuer is told the card,
/// and everyone else only the new deck size.
pub open spec fn draw_card_post(
    pre: MainState,
    post: MainState,
    conn: u64,
    data: MessageData,
    opre: Seq<Outgoing>,
    opost: Seq<Outgoing>,
) -> bool {
    let code = data.room_id->0;
    &&& data.room_id is None ==> {
        &&& post.rooms@ == pre.rooms@
        &&& one_error(opre, opost, conn, ServerError::MissingField, 0)
    }
    &&& data.room_id is Some && pre.room_index_of(code) is None ==> {
        &&& post.rooms@ == pre.rooms@
        &&& one_error(opre, opost, conn, ServerError::RoomNotFound, code as int)
    }
    &&& data.room_id is Some ==> (pre.room_index_of(code) matches Some(i) ==> {
        let r0 = pre.rooms@[i];
        &&& !r0.has_member(conn) ==> {
            &&& post.rooms@ == pre.rooms@
            &&& one_error(opre, opost, conn, ServerError::NotInRoom, code as int)
        }
        &&& r0.has_member(conn) && r0.draw_deck@.len() == 0 ==> {
            &&& post.rooms@ == pre.rooms@
            &&& one_error(opre, opost, conn, ServerError::EmptyDrawDeck, code as int)
        }
        &&& r0.has_member(conn) && r0.draw_deck@.len() > 0 ==> {
            let mi = r0.member_index_of(conn)->0;
            let card = r0.draw_deck@.last();
            &&& post.rooms@.len() == pre.rooms@.len()
            &&& forall|k: int|
                0 <= k < pre.rooms@.len() && k != i ==> post.rooms@[k] == pre.rooms@[k]
            &&& ({
                let r1 = post.rooms@[i];
                &&& r1.wf()
                &&& r1.code == r0.code
                &&& r1.draw_deck@ == r0.draw_deck@.drop_last()
                &&& r1.discard_pile@ == r0.discard_pile@
                &&& r1.players@.len() == r0.players@.len()
                &&& forall|k: int|
                    0 <= k < r0.players@.len() && k != mi ==> r1.players@[k] == r0.players@[k]
                &&& r1.players@[mi].id@ == r0.players@[mi].id@
                &&& r1.players@[mi].name@ == r0.players@[mi].name@
                &&& r1.players@[mi].conn == r0.players@[mi].conn
                &&& r1.players@[mi].hand@ == r0.players@[mi].hand@.push(card)
                &&& opost.len() == opre.len() + 2
                &&& seq_extends(opre, opost)
                &&& is_card_drawn_self_msg(
                    opost[opre.len() as int].message,
                    card,
                    r0.draw_deck@.len() - 1,
                )
                &&& opost[opre.len() as int].recipients@ == seq![conn]
                &&& is_card_drawn_others_msg(
                    opost[opre.len() as int + 1].message,
                    r0.draw_deck@.len() - 1,
                )
                &&& opost[opre.len() as int + 1].recipients@ == conns_except(r0.players@, conn)
            })
        }
    })
}

/// Law (visibility of others' cards, drawing): whatever a `DrawCard`
/// command delivers to a connection other than the issuer carries no
/// card field — only the issuer learns which card was drawn.
pub proof fn lemma_draw_privacy(
    pre: MainState,
    post: MainState,
    conn: u64,
    data: MessageData,
    opre: Seq<Outgoing>,
    opost: Seq<Outgoing>,
    k: int,
    c: u64,
)
    requires
        draw_card_post(pre, post, conn, data, opre, opost),
        opre.len() <= k < opost.len(),
        opost[k].recipients@.contains(c),
        c != conn,
    ensures
        opost[k].message.data.card is None,
{
    let code = data.room_id->0;
    if data.room_id is None {
        assert(opost[k] == opost.last());
    } else if pre.room_index_of(code) is None {
        assert(opost[k] == opost.last());
    } else {
        let i = pre.room_index_of(code)->0;
        let r0 = pre.rooms@[i];
        if !r0.has_member(conn) || r0.draw_deck@.len() == 0 {
            assert(opost[k] == opost.last());
        } else if k == opre.len() {
            // The event that names the card goes to the issuer alone.
            let w = choose|w: int|
                0 <= w < opost[k].recipients@.len() && opost[k].recipients@[w] == c;
            assert(seq![conn][w] == conn);
        }
    }
}

/// Law (visibility of others' cards, toggling): a toggle event either
/// reveals the card intentionally — face-up, under the
/// `ToggleVisibilityOfCard` kind — or carries an anonymous face-down
/// projection; any other reply of the command carries no card at all.
pub proof fn lemma_toggle_privacy(
    pre: MainState,
    post: MainState,
    conn: u64,
    data: MessageData,
    opre: Seq<Outgoing>,
    opost: Seq<Outgoing>,
    k: int,
)
    requires
        toggle_card_post(pre, post, conn, data, opre, opost),
        opre.len() <= k < opost.len(),
    ensures
        opost[k].message.data.card matches Some(cd) ==> {
            &&& cd.visible ==> {
                &&& opost[k].message.action == crate::actions::Action::ToggleVisibilityOfCard
                &&& cd.suite is Some
                &&& cd.value is Some
            }
            &&& !cd.visible ==> cd.suite is None && cd.value is None
        },
{
    let code = data.room_id->0;
    if data.room_id is None || !card_field_named(data) {
        assert(opost[k] == opost.last());
    } else if pre.room_index_of(code) is None {
        assert(opost[k] == opost.last());
    } else {
        let i = pre.room_index_of(code)->0;
        let r0 = pre.rooms@[i];
        if !r0.has_member(conn) {
            assert(opost[k] == opost.last());
        } else {
            let mi = r0.member_index_of(conn)->0;
            let hand = r0.players@[mi].hand@;
            let suite = data.card->0.suite->0;
            let value = data.card->0.value->0;
            if crate::player::hand_index_of(hand, suite, value) is Some {
                assert(opost[k] == opost.last());
            }
        }
    }
}

/// Whether an incoming card payload names a card: both suit and rank
/// present.
pub open spec fn card_field_named(data: MessageData) -> bool {
    data.card matches Some(cd) && cd.suite is Some && cd.value is Some
}

/// What `ToggleVisibilityOfCard` does: errors for a missing field, an
/// unknown room or a foreign connection; a card the issuer's hand does
/// not hold is a silent no-op; otherwise the flip is broadcast with the
/// card's new projection.
pub open spec fn toggle_card_post(
    pre: MainState,
    post: MainState,
    conn: u64,
    data: MessageData,
    opre: Seq<Outgoing>,
    opost: Seq<Outgoing>,
) -> bool {
    let code = data.room_id->0;
    &&& data.room_id is None || !card_field_named(data) ==> {
        &&& post.rooms@ == pre.rooms@
        &&& one_error(opre, opost, conn, ServerError::MissingField, 0)
    }
    &&& data.room_id is Some && card_field_named(data) && pre.room_index_of(code) is None ==> {
        &&& post.rooms@ == pre.rooms@
        &&& one_error(opre, opost, conn, ServerError::RoomNotFound, code as int)
    }
    &&& data.room_id is Some && card_field_named(data) ==> (pre.room_index_of(code)
        matches Some(i) ==> {
        let r0 = pre.rooms@[i];
        let suite = data.card->0.suite->0;
        let value = data.card->0.value->0;
        &&& !r0.has_member(conn) ==> {
            &&& post.rooms@ == pre.rooms@
            &&& one_error(opre, opost, conn, ServerError::NotInRoom, code as int)
        }
        &&& r0.has_member(conn) ==> {
            let mi = r0.member_index_of(conn)->0;
            let hand = r0.players@[mi].hand@;
            &&& post.rooms@.len() == pre.rooms@.len()
            &&& forall|k: int|
                0 <= k < pre.rooms@.len() && k != i ==> post.rooms@[k] == pre.rooms@[k]
            &&& ({
                let r1 = post.rooms@[i];
                &&& r1.wf()
                &&& r1.code == r0.code
                &&& r1.draw_deck@ == r0.draw_deck@
                &&& r1.discard_pile@ == r0.discard_pile@
                &&& r1.players@.len() == r0.players@.len()
                &&& forall|k: int|
                    0 <= k < r0.players@.len() && k != mi ==> r1.players@[k] == r0.players@[k]
                &&& r1.players@[mi].id@ == r0.players@[mi].id@
                &&& r1.players@[mi].name@ == r0.players@[mi].name@
                &&& r1.players@[mi].conn == r0.players@[mi].conn
                &&& r1.players@[mi].hand@ == crate::player::spec_toggle_in_hand(
                    hand,
                    suite,
                    value,
                )
                &&& crate::player::hand_index_of(hand, suite, value) is None ==> opost == opre
                &&& (crate::player::hand_index_of(hand, suite, value) matches Some(j) ==> {
                    &&& opost.len() == opre.len() + 1
                    &&& seq_extends(opre, opost)
                    &&& crate::room::is_toggle_msg(
                        opost.last().message,
                        r0.players@[mi].id@,
                        crate::player::spec_toggle_in_hand(hand, suite, value)[j],
                    )
                    &&& opost.last().recipients@ == conns_of(r0.players@)
                })
            })
        }
    })
}

/// What `DiscardCard` does: errors as for a toggle; a held card moves
/// face-up onto the public discard pile and the whole room is told the
/// card and the issuer's remaining hand.
pub open spec fn discard_card_post(
    pre: MainState,
    post: MainState,
    conn: u64,
    data: MessageData,
    opre: Seq<Outgoing>,
    opost: Seq<Outgoing>,
) -> bool {
    let code = data.room_id->0;
    &&& data.room_id is None || !card_field_named(data) ==> {
        &&& post.rooms@ == pre.rooms@
        &&& one_error(opre, opost, conn, ServerError::MissingField, 0)
    }
    &&& data.room_id is Some && card_field_named(data) && pre.room_index_of(code) is None ==> {
        &&& post.rooms@ == pre.rooms@
        &&& one_error(opre, opost, conn, ServerError::RoomNotFound, code as int)
    }
    &&& data.room_id is Some && card_field_named(data) ==> (pre.room_index_of(code)
        matches Some(i) ==> {
        let r0 = pre.rooms@[i];
        let suite = data.card->0.suite->0;
        let value = data.card->0.value->0;
        &&& !r0.has_member(conn) ==> {
            &&& post.rooms@ == pre.rooms@
            &&& one_error(opre, opost, conn, ServerError::NotInRoom, code as int)
        }
        &&& r0.has_member(conn) ==> {
            let mi = r0.member_index_of(conn)->0;
            let hand = r0.players@[mi].hand@;
            &&& post.rooms@.len() == pre.rooms@.len()
            &&& forall|k: int|
                0 <= k < pre.rooms@.len() && k != i ==> post.rooms@[k] == pre.rooms@[k]
            &&& ({
                let r1 = post.rooms@[i];
                &&& r1.wf()
                &&& r1.code == r0.code
                &&& r1.draw_deck@ == r0.draw_deck@
                &&& r1.players@.len() == r0.players@.len()
                &&& forall|k: int|
                    0 <= k < r0.players@.len() && k != mi ==> r1.players@[k] == r0.players@[k]
                &&& r1.players@[mi].id@ == r0.players@[mi].id@
                &&& r1.players@[mi].name@ == r0.players@[mi].name@
                &&& r1.players@[mi].conn == r0.players@[mi].conn
                &&& crate::player::hand_index_of(hand, suite, value) is None ==> {
                    &&& r1.players@[mi].hand@ == hand
                    &&& r1.discard_pile@ == r0.discard_pile@
                    &&& opost == opre
                }
                &&& (crate::player::hand_index_of(hand, suite, value) matches Some(j) ==> {
                    let revealed = Card { visible: true, ..hand[j] };
                    &&& r1.players@[mi].hand@ == hand.remove(j)
                    &&& r1.discard_pile@ == r0.discard_pile@.push(revealed)
                    &&& opost.len() == opre.len() + 1
                    &&& seq_extends(opre, opost)
                    &&& crate::room::is_discard_msg(
                        opost.last().message,
                        r0.players@[mi].id@,
                        revealed,
                        hand.remove(j),
                    )
                    &&& opost.last().recipients@ == conns_of(r0.players@)
                })
            })
        }
    })
}

/// What `ResetDeck` does: errors for a missing code, an unknown room or
/// a foreign connection; otherwise the room's deck is rebuilt, hands and
/// discard pile emptied, and the whole room told so.
pub open spec fn reset_deck_post(
    pre: MainState,
    post: MainState,
    conn: u64,
    data: MessageData,
    opre: Seq<Outgoing>,
    opost: Seq<Outgoing>,
) -> bool {
    let code = data.room_id->0;
    &&& data.room_id is None ==> {
        &&& post.rooms@ == pre.rooms@
        &&& one_error(opre, opost, conn, ServerError::MissingField, 0)
    }
    &&& data.room_id is Some && pre.room_index_of(code) is None ==> {
        &&& post.rooms@ == pre.rooms@
        &&& one_error(opre, opost, conn, ServerError::RoomNotFound, code as int)
    }
    &&& data.room_id is Some ==> (pre.room_index_of(code) matches Some(i) ==> {
        let r0 = pre.rooms@[i];
        &&& !r0.has_member(conn) ==> {
            &&& post.rooms@ == pre.rooms@
            &&& one_error(opre, opost, conn, ServerError::NotInRoom, code as int)
        }
        &&& r0.has_member(conn) ==> {
            &&& post.rooms@.len() == pre.rooms@.len()
            &&& forall|k: int|
                0 <= k < pre.rooms@.len() && k != i ==> post.rooms@[k] == pre.rooms@[k]
            &&& post.rooms@[i].wf()
            &&& reset_rel(r0, post.rooms@[i])
            &&& opost.len() == opre.len() + 1
            &&& seq_extends(opre, opost)
            &&& is_reset_msg(opost.last().message)
            &&& opost.last().recipients@ == conns_of(r0.players@)
        }
    })
}

/// The common effect of a quit or a disconnect on the room at position
/// `i`: the departing member's hand lands face-up on the discard pile,
/// the remaining members are told, and a room left empty is retired.
pub open spec fn quit_at_post(
    pre: MainState,
    post: MainState,
    i: int,
    conn: u64,
    opre: Seq<Outgoing>,
    opost: Seq<Outgoing>,
) -> bool {
    let r0 = pre.rooms@[i];
    let mi = r0.member_index_of(conn)->0;
    let departed = r0.players@[mi];
    let new_discard = r0.discard_pile@ + reveal_all(departed.hand@);
    &&& opost.len() == opre.len() + 1
    &&& seq_extends(opre, opost)
    &&& is_quit_msg(opost.last().message, departed.id@, new_discard, departed.name@)
    &&& opost.last().recipients@ == conns_of(r0.players@.remove(mi))
    &&& r0.players@.len() == 1 ==> post.rooms@ == pre.rooms@.remove(i)
    &&& r0.players@.len() > 1 ==> {
        &&& post.rooms@.len() == pre.rooms@.len()
        &&& forall|k: int| 0 <= k < pre.rooms@.len() && k != i ==> post.rooms@[k] == pre.rooms@[k]
        &&& ({
            let r1 = post.rooms@[i];
            &&& r1.wf()
            &&& r1.code == r0.code
            &&& r1.draw_deck@ == r0.draw_deck@
            &&& r1.players@ == r0.players@.remove(mi)
            &&& r1.discard_pile@ == new_discard
        })
    }
}

/// What `Quit` does: errors for a missing code, an unknown room or a
/// foreign connection; otherwise the member leaves as `quit_at_post`
/// says.
pub open spec fn quit_post(
    pre: MainState,
    post: MainState,
    conn: u64,
    data: MessageData,
    opre: Seq<Outgoing>,
    opost: Seq<Outgoing>,
) -> bool {
    let code = data.room_id->0;
    &&& data.room_id is None ==> {
        &&& post.rooms@ == pre.rooms@
        &&& one_error(opre, opost, conn, ServerError::MissingField, 0)
    }
    &&& data.room_id is Some && pre.room_index_of(code) is None ==> {
        &&& post.rooms@ == pre.rooms@
        &&& one_error(opre, opost, conn, ServerError::RoomNotFound, code as int)
    }
    &&& data.room_id is Some ==> (pre.room_index_of(code) matches Some(i) ==> {
        &&& !pre.rooms@[i].has_member(conn) ==> {
            &&& post.rooms@ == pre.rooms@
            &&& one_error(opre, opost, conn, ServerError::NotInRoom, code as int)
        }
        &&& pre.rooms@[i].has_member(conn) ==> quit_at_post(pre, post, i, conn, opre, opost)
    })
}

/// The process-wide aggregate: every live room, registered under its
/// code.
#[derive(Debug)]
pub struct MainState {
    pub rooms: Vec<Room>,
}

/// A command that changed one room keeps the hub well-formed, as long as
/// the room stayed well-formed under its code and gained no connection
/// that another room holds.
proof fn lemma_wf_update_room(pre: MainState, post: MainState, i: int)
    requires
        pre.wf(),
        0 <= i < pre.rooms@.len(),
        post.rooms@.len() == pre.rooms@.len(),
        forall|k: int| 0 <= k < pre.rooms@.len() && k != i ==> post.rooms@[k] == pre.rooms@[k],
        post.rooms@[i].wf(),
        post.rooms@[i].code == pre.rooms@[i].code,
        forall|c: u64| #[trigger]
            post.rooms@[i].has_member(c) ==> (pre.rooms@[i].has_member(c) || !rooms_has_conn(
                pre.rooms@,
                c,
            )),
    ensures
        post.wf(),
{
    assert forall|i2: int, j2: int|
        0 <= i2 < j2 < post.rooms@.len() implies (#[trigger] post.rooms@[i2]).code != (
    #[trigger] post.rooms@[j2]).code by {
        assert(pre.rooms@[i2].code != pre.rooms@[j2].code);
    }
    assert forall|i2: int, j2: int, c: u64|
        0 <= i2 < j2 < post.rooms@.len() implies !((#[trigger] post.rooms@[i2].has_member(c)) && (
    #[trigger] post.rooms@[j2].has_member(c))) by {
        if post.rooms@[i2].has_member(c) && post.rooms@[j2].has_member(c) {
            if i2 == i {
                assert(post.rooms@[j2] == pre.rooms@[j2]);
                assert(pre.rooms@[j2].has_member(c));
                assert(rooms_has_conn(pre.rooms@, c));
                assert(pre.rooms@[i].has_member(c));
                assert(!(pre.rooms@[i2].has_member(c) && pre.rooms@[j2].has_member(c)));
            } else if j2 == i {
                assert(post.rooms@[i2] == pre.rooms@[i2]);
                assert(pre.rooms@[i2].has_member(c));
                assert(rooms_has_conn(pre.rooms@, c));
                assert(pre.rooms@[j2].has_member(c));
                assert(!(pre.rooms@[i2].has_member(c) && pre.rooms@[j2].has_member(c)));
            } else {
                assert(!(pre.rooms@[i2].has_member(c) && pre.rooms@[j2].has_member(c)));
            }
        }
    }
}

impl MainState {
    /// Well-formedness of the hub: every room is well-formed, the
    /// code-to-room mapping is injective, and no connection has a player
    /// in two rooms.
    pub open spec fn wf(self) -> bool {
        &&& forall|i: int| 0 <= i < self.rooms@.len() ==> (#[trigger] self.rooms@[i]).wf()
        &&& forall|i: int, j: int|
            0 <= i < j < self.rooms@.len() ==> (#[trigger] self.rooms@[i]).code != (
            #[trigger] self.rooms@[j]).code
        &&& forall|i: int, j: int, c: u64|
            0 <= i < j < self.rooms@.len() ==> !((#[trigger] self.rooms@[i].has_member(c)) && (
            #[trigger] self.rooms@[j].has_member(c)))
    }

    /// The registration position of a code, if it is in use.
    pub open spec fn room_index_of(self, code: u32) -> Option<int> {
        room_codes(self.rooms@).index_of_first(code)
    }

    /// A hub with no rooms.
    pub fn new() -> (s: MainState)
        ensures
            s.wf(),
            s.rooms@.len() == 0,
    {
        MainState { rooms: Vec::new() }
    }

    /// Whether a code is registered.
    fn has_room_code(&self, code: u32) -> (b: bool)
        ensures
            b == room_codes(self.rooms@).contains(code),
    {
        let mut i: usize = 0;
        while i < self.rooms.len()
            invariant
                0 <= i <= self.rooms@.len(),
                forall|k: int| 0 <= k < i ==> room_codes(self.rooms@)[k] != code,
            decreases self.rooms@.len() - i,
        {
            if self.rooms[i].code == code {
                proof {
                    assert(room_codes(self.rooms@)[i as int] == code);
                }
                return true;
            }
            proof {
                assert(room_codes(self.rooms@)[i as int] == self.rooms@[i as int].code);
            }
            i = i + 1;
        }
        false
    }

    /// The registration position of a code, if it is in use.
    fn find_room(&self, code: u32) -> (r: Option<usize>)
        ensures
            self.room_index_of(code) is None ==> r is None,
            self.room_index_of(code) matches Some(i) ==> {
                &&& 0 <= i < self.rooms@.len()
                &&& r matches Some(j) && j == i
                &&& self.rooms@[i].code == code
            },
    {
        let mut i: usize = 0;
        while i < self.rooms.len()
            invariant
                0 <= i <= self.rooms@.len(),
                forall|k: int| 0 <= k < i ==> room_codes(self.rooms@)[k] != code,
            decreases self.rooms@.len() - i,
        {
            if self.rooms[i].code == code {
                proof {
                    assert(room_codes(self.rooms@)[i as int] == code);
                    lemma_index_of_first_is(room_codes(self.rooms@), code, i as int);
                }
                return Some(i);
            }
            proof {
                assert(room_codes(self.rooms@)[i as int] == self.rooms@[i as int].code);
            }
            i = i + 1;
        }
        proof {
            assert(!room_codes(self.rooms@).contains(code));
            room_codes(self.rooms@).index_of_first_ensures(code);
        }
        None
    }

    /// The room that holds a player for this connection, if any.
    fn find_room_of_conn(&self, conn: u64) -> (r: Option<usize>)
        ensures
            r is None ==> !rooms_has_conn(self.rooms@, conn),
            r matches Some(i) ==> {
                &&& (i as int) < self.rooms@.len()
                &&& self.rooms@[i as int].has_member(conn)
            },
    {
        let mut i: usize = 0;
        while i < self.rooms.len()
            invariant
                0 <= i <= self.rooms@.len(),
                forall|k: int| 0 <= k < i ==> !(#[trigger] self.rooms@[k]).has_member(conn),
            decreases self.rooms@.len() - i,
        {
            if self.rooms[i].is_member(conn) {
                return Some(i);
            }
            i = i + 1;
        }
        None
    }

    /// A four-digit code not currently registered, found by bounded
    /// random retry; which code comes back — or whether the attempts run
    /// out — depends on the random draws.
    fn allocate_code(&self) -> (r: Option<u32>)
        ensures
            r matches Some(c) ==> {
                &&& 1000 <= c <= 9999
                &&& !room_codes(self.rooms@).contains(c)
            },
    {
        let mut attempts: usize = 0;
        while attempts < MAX_CODE_ATTEMPTS
            invariant
                true,
            decreases MAX_CODE_ATTEMPTS - attempts,
        {
            let code = random_room_code();
            if !self.has_room_code(code) {
                return Some(code);
            }
            attempts = attempts + 1;
        }
        None
    }

    /// Put a player into the room registered under a code, or answer why
    /// they could not join.
    fn handle_join_room(&mut self, conn: u64, data: &MessageData, outbox: &mut Vec<Outgoing>)
        requires
            old(self).wf(),
        ensures
            final(self).wf(),
            join_room_post(*old(self), *final(self), conn, *data, old(outbox)@, final(outbox)@),
    {
        let code = match data.get_room_id() {
            Ok(c) => c,
            Err(e) => {
                send_to(outbox, conn, error_message(e, 0));
                return ;
            },
        };
        let name = match data.get_player_name() {
            Ok(n) => n,
            Err(e) => {
                send_to(outbox, conn, error_message(e, 0));
                return ;
            },
        };
        if self.find_room_of_conn(conn).is_some() {
            send_to(outbox, conn, error_message(ServerError::AlreadyInRoom, 0));
            return ;
        }
        let i = match self.find_room(code) {
            None => {
                send_to(outbox, conn, error_message(ServerError::RoomNotFound, code));
                return ;
            },
            Some(i) => i,
        };
        let player = Player::new(name.as_str(), conn);
        let ghost pre = *self;
        let room = &mut self.rooms[i];
        match room.join(player, outbox) {
            Err(_) => {
                proof {
                    assert(self.rooms@ =~= pre.rooms@);
                }
                send_to(outbox, conn, error_message(ServerError::AlreadyInRoom, 0));
            },
            Ok(()) => {
                proof {
                    let ii = i as int;
                    let r0 = pre.rooms@[ii];
                    let r1 = self.rooms@[ii];
                    assert(r1.players@.last() == player);
                    assert forall|c: u64| #[trigger]
                        r1.has_member(c) implies (r0.has_member(c) || !rooms_has_conn(
                        pre.rooms@,
                        c,
                    )) by {
                        lemma_conns_of_push(r0.players@, player, c);
                    }
                    lemma_wf_update_room(pre, *self, ii);
                }
            },
        }
    }

    /// Broadcast a chat line through the room named by the command.
    fn handle_chat(&mut self, conn: u64, data: &MessageData, outbox: &mut Vec<Outgoing>)
        requires
            old(self).wf(),
        ensures
            final(self).wf(),
            *final(self) == *old(self),
            chat_post(*old(self), *final(self), conn, *data, old(outbox)@, final(outbox)@),
    {
        let code = match data.get_room_id() {
            Ok(c) => c,
            Err(e) => {
                send_to(outbox, conn, error_message(e, 0));
                return ;
            },
        };
        let text = match data.get_message() {
            Ok(t) => t,
            Err(e) => {
                send_to(outbox, conn, error_message(e, 0));
                return ;
            },
        };
        let i = match self.find_room(code) {
            None => {
                send_to(outbox, conn, error_message(ServerError::RoomNotFound, code));
                return ;
            },
            Some(i) => i,
        };
        let room = &self.rooms[i];
        match room.chat(conn, text.as_str(), outbox) {
            Err(e) => {
                send_to(outbox, conn, error_message(e, code));
            },
            Ok(()) => {},
        }
    }

    /// Move the top deck card into the issuer's hand, privately.
    fn handle_draw_card(&mut self, conn: u64, data: &MessageData, outbox: &mut Vec<Outgoing>)
        requires
            old(self).wf(),
        ensures
            final(self).wf(),
            draw_card_post(*old(self), *final(self), conn, *data, old(outbox)@, final(outbox)@),
    {
        let code = match data.get_room_id() {
            Ok(c) => c,
            Err(e) => {
                send_to(outbox, conn, error_message(e, 0));
                return ;
            },
        };
        let i = match self.find_room(code) {
            None => {
                send_to(outbox, conn, error_message(ServerError::RoomNotFound, code));
                return ;
            },
            Some(i) => i,
        };
        let ghost pre = *self;
        let room = &mut self.rooms[i];
        match room.draw_card(conn, outbox) {
            Err(e) => {
                proof {
                    assert(self.rooms@ =~= pre.rooms@);
                }
                send_to(outbox, conn, error_message(e, code));
            },
            Ok(()) => {
                proof {
                    let ii = i as int;
                    let r0 = pre.rooms@[ii];
                    let r1 = self.rooms@[ii];
                    conns_of(r0.players@).index_of_first_ensures(conn);
                    assert(conns_of(r1.players@) =~= conns_of(r0.players@));
                    lemma_wf_update_room(pre, *self, ii);
                }
            },
        }
    }

    /// Flip the visibility of a card in the issuer's hand, for everyone
    /// to see.
    fn handle_toggle_visibility_of_card(
        &mut self,
        conn: u64,
        data: &MessageData,
        outbox: &mut Vec<Outgoing>,
    )
        requires
            old(self).wf(),
        ensures
            final(self).wf(),
            toggle_card_post(*old(self), *final(self), conn, *data, old(outbox)@, final(outbox)@),
    {
        let code = match data.get_room_id() {
            Ok(c) => c,
            Err(e) => {
                send_to(outbox, conn, error_message(e, 0));
                return ;
            },
        };
        let cd = match data.get_card() {
            Ok(cd) => cd,
            Err(e) => {
                send_to(outbox, conn, error_message(e, 0));
                return ;
            },
        };
        let (suite, value) = match (cd.suite, cd.value) {
            (Some(s), Some(v)) => (s, v),
            _ => {
                send_to(outbox, conn, error_message(ServerError::MissingField, 0));
                return ;
            },
        };
        let i = match self.find_room(code) {
            None => {
                send_to(outbox, conn, error_message(ServerError::RoomNotFound, code));
                return ;
            },
            Some(i) => i,
        };
        let ghost pre = *self;
        let room = &mut self.rooms[i];
        match room.toggle_visibility_of_card(conn, suite, value, outbox) {
            Err(e) => {
                proof {
                    assert(self.rooms@ =~= pre.rooms@);
                }
                send_to(outbox, conn, error_message(e, code));
            },
            Ok(()) => {
                proof {
                    let ii = i as int;
                    let r0 = pre.rooms@[ii];
                    let r1 = self.rooms@[ii];
                    conns_of(r0.players@).index_of_first_ensures(conn);
                    assert(conns_of(r1.players@) =~= conns_of(r0.players@));
                    lemma_wf_update_room(pre, *self, ii);
                }
            },
        }
    }

    /// Move a card from the issuer's hand onto the public discard pile.
    fn handle_discard_card(
        &mut self,
        conn: u64,
        data: &MessageData,
        outbox: &mut Vec<Outgoing>,
    )
        requires
            old(self).wf(),
        ensures
            final(self).wf(),
            discard_card_post(
                *old(self),
                *final(self),
                conn,
                *data,
                old(outbox)@,
                final(outbox)@,
            ),
    {
        let code = match data.get_room_id() {
            Ok(c) => c,
            Err(e) => {
                send_to(outbox, conn, error_message(e, 0));
                return ;
            },
        };
        let cd = match data.get_card() {
            Ok(cd) => cd,
            Err(e) => {
                send_to(outbox, conn, error_message(e, 0));
                return ;
            },
        };
        let (suite, value) = match (cd.suite, cd.value) {
            (Some(s), Some(v)) => (s, v),
            _ => {
                send_to(outbox, conn, error_message(ServerError::MissingField, 0));
                return ;
            },
        };
        let i = match self.find_room(code) {
            None => {
                send_to(outbox, conn, error_message(ServerError::RoomNotFound, code));
                return ;
            },
            Some(i) => i,
        };
        let ghost pre = *self;
        let room = &mut self.rooms[i];
        match room.discard_card(conn, suite, value, outbox) {
            Err(e) => {
                proof {
                    assert(self.rooms@ =~= pre.rooms@);
                }
                send_to(outbox, conn, error_message(e, code));
            },
            Ok(()) => {
                proof {
                    let ii = i as int;
                    let r0 = pre.rooms@[ii];
                    let r1 = self.rooms@[ii];
                    conns_of(r0.players@).index_of_first_ensures(conn);
                    assert(conns_of(r1.players@) =~= conns_of(r0.players@));
                    lemma_wf_update_room(pre, *self, ii);
                }
            },
        }
    }

    /// Rebuild the room's deck and clear every hand and the discard
    /// pile.
    fn handle_reset_deck(&mut self, conn: u64, data: &MessageData, outbox: &mut Vec<Outgoing>)
        requires
            old(self).wf(),
        ensures
            final(self).wf(),
            reset_deck_post(*old(self), *final(self), conn, *data, old(outbox)@, final(outbox)@),
    {
        let code = match data.get_room_id() {
            Ok(c) => c,
            Err(e) => {
                send_to(outbox, conn, error_message(e, 0));
                return ;
            },
        };
        let i = match self.find_room(code) {
            None => {
                send_to(outbox, conn, error_message(ServerError::RoomNotFound, code));
                return ;
            },
            Some(i) => i,
        };
        if !self.rooms[i].is_member(conn) {
            send_to(outbox, conn, error_message(ServerError::NotInRoom, code));
            return ;
        }
        let ghost pre = *self;
        let room = &mut self.rooms[i];
        room.reset_deck(outbox);
        proof {
            let ii = i as int;
            let r0 = pre.rooms@[ii];
            let r1 = self.rooms@[ii];
            assert(conns_of(r1.players@) =~= conns_of(r0.players@));
            lemma_wf_update_room(pre, *self, ii);
        }
    }

    /// Let the member bound to this connection leave the room at
    /// position `i`, retiring the room if nobody is left.
    fn quit_room_at(&mut self, i: usize, conn: u64, outbox: &mut Vec<Outgoing>)
        requires
            old(self).wf(),
            i < old(self).rooms@.len(),
            old(self).rooms@[i as int].has_member(conn),
        ensures
            final(self).wf(),
            quit_at_post(*old(self), *final(self), i as int, conn, old(outbox)@, final(outbox)@),
    {
        let ghost pre = *self;
        let emptied = {
            let room = &mut self.rooms[i];
            match room.quit(conn, outbox) {
                Ok(b) => b,
                Err(_) => unreached(),
            }
        };
        proof {
            let ii = i as int;
            let r0 = pre.rooms@[ii];
            conns_of(r0.players@).index_of_first_ensures(conn);
        }
        if emptied {
            let ghost mid = *self;
            self.rooms.remove(i);
            proof {
                let ii = i as int;
                assert(mid.rooms@ == pre.rooms@.update(ii, mid.rooms@[ii]));
                assert(self.rooms@ == mid.rooms@.remove(ii));
                assert(self.rooms@ =~= pre.rooms@.remove(ii));
                assert forall|i2: int, j2: int|
                    0 <= i2 < j2 < self.rooms@.len() implies (#[trigger] self.rooms@[i2]).code != (
                #[trigger] self.rooms@[j2]).code by {
                    let pi = if i2 < ii { i2 } else { i2 + 1 };
                    let pj = if j2 < ii { j2 } else { j2 + 1 };
                    assert(self.rooms@[i2] == pre.rooms@[pi]);
                    assert(self.rooms@[j2] == pre.rooms@[pj]);
                }
                assert forall|i2: int, j2: int, c: u64|
                    0 <= i2 < j2 < self.rooms@.len() implies !((#[trigger] self.rooms@[i2].has_member(
                    c,
                )) && (#[trigger] self.rooms@[j2].has_member(c))) by {
                    let pi = if i2 < ii { i2 } else { i2 + 1 };
                    let pj = if j2 < ii { j2 } else { j2 + 1 };
                    assert(self.rooms@[i2] == pre.rooms@[pi]);
                    assert(self.rooms@[j2] == pre.rooms@[pj]);
                    assert(!(pre.rooms@[pi].has_member(c) && pre.rooms@[pj].has_member(c)));
                }
                assert(forall|k: int|
                    0 <= k < self.rooms@.len() ==> (#[trigger] self.rooms@[k]).wf());
            }
        } else {
            proof {
                let ii = i as int;
                let r0 = pre.rooms@[ii];
                let r1 = self.rooms@[ii];
                let mi = r0.member_index_of(conn)->0;
                assert forall|c: u64| #[trigger]
                    r1.has_member(c) implies (r0.has_member(c) || !rooms_has_conn(
                    pre.rooms@,
                    c,
                )) by {
                    lemma_conns_of_remove(r0.players@, mi, c);
                }
                lemma_wf_update_room(pre, *self, ii);
            }
        }
    }

    /// Remove a member from the room named by the command.
    fn handle_quit(&mut self, conn: u64, data: &MessageData, outbox: &mut Vec<Outgoing>)
        requires
            old(self).wf(),
        ensures
            final(self).wf(),
            quit_post(*old(self), *final(self), conn, *data, old(outbox)@, final(outbox)@),
    {
        let code = match data.get_room_id() {
            Ok(c) => c,
            Err(e) => {
                send_to(outbox, conn, error_message(e, 0));
                return ;
            },
        };
        let i = match self.find_room(code) {
            None => {
                send_to(outbox, conn, error_message(ServerError::RoomNotFound, code));
                return ;
            },
            Some(i) => i,
        };
        if !self.rooms[i].is_member(conn) {
            send_to(outbox, conn, error_message(ServerError::NotInRoom, code));
            return ;
        }
        self.quit_room_at(i, conn, outbox);
    }

    /// A dropped connection acts like a `Quit` in whichever room holds a
    /// player for it; a connection bound to no room leaves no trace.
    pub fn detach(&mut self, conn: u64, outbox: &mut Vec<Outgoing>)
        requires
            old(self).wf(),
        ensures
            final(self).wf(),
            !rooms_has_conn(old(self).rooms@, conn) ==> {
                &&& final(self).rooms@ == old(self).rooms@
                &&& final(outbox)@ == old(outbox)@
            },
            rooms_has_conn(old(self).rooms@, conn) ==> exists|i: int|
                {
                    &&& 0 <= i < old(self).rooms@.len()
                    &&& (#[trigger] old(self).rooms@[i]).has_member(conn)
                    &&& quit_at_post(
                        *old(self),
                        *final(self),
                        i,
                        conn,
                        old(outbox)@,
                        final(outbox)@,
                    )
                },
    {
        match self.find_room_of_conn(conn) {
            None => {},
            Some(i) => {
                self.quit_room_at(i, conn, outbox);
            },
        }
    }

    /// Dispatch one decoded command from a connection: the room state
    /// changes and the events fan out exactly as the per-command
    /// transition predicates say.
    pub fn handle_incoming_message(
        &mut self,
        conn: u64,
        message: &IncomingMessage,
        outbox: &mut Vec<Outgoing>,
    )
        requires
            old(self).wf(),
        ensures
            final(self).wf(),
            message.command == Command::CreateGame ==> create_game_post(
                *old(self),
                *final(self),
                conn,
                message.data,
                old(outbox)@,
                final(outbox)@,
            ),
            message.command == Command::JoinRoom ==> join_room_post(
                *old(self),
                *final(self),
                conn,
                message.data,
                old(outbox)@,
                final(outbox)@,
            ),
            message.command == Command::Chat ==> chat_post(
                *old(self),
                *final(self),
                conn,
                message.data,
                old(outbox)@,
                final(outbox)@,
            ),
            message.command == Command::DrawCard ==> draw_card_post(
                *old(self),
                *final(self),
                conn,
                message.data,
                old(outbox)@,
                final(outbox)@,
            ),
            message.command == Command::ToggleVisibilityOfCard ==> toggle_card_post(
                *old(self),
                *final(self),
                conn,
                message.data,
                old(outbox)@,
                final(outbox)@,
            ),
            message.command == Command::DiscardCard ==> discard_card_post(
                *old(self),
                *final(self),
                conn,
                message.data,
                old(outbox)@,
                final(outbox)@,
            ),
            message.command == Command::ResetDeck ==> reset_deck_post(
                *old(self),
                *final(self),
                conn,
                message.data,
                old(outbox)@,
                final(outbox)@,
            ),
            message.command == Command::Quit ==> quit_post(
                *old(self),
                *final(self),
                conn,
                message.data,
                old(outbox)@,
                final(outbox)@,
            ),
    {
        match message.command {
            Command::CreateGame => self.handle_create_game(conn, &message.data, outbox),
            Command::JoinRoom => self.handle_join_room(conn, &message.data, outbox),
            Command::Chat => self.handle_chat(conn, &message.data, outbox),
            Command::DrawCard => self.handle_draw_card(conn, &message.data, outbox),
            Command::ToggleVisibilityOfCard => self.handle_toggle_visibility_of_card(
                conn,
                &message.data,
                outbox,
            ),
            Command::DiscardCard => self.handle_discard_card(conn, &message.data, outbox),
            Command::ResetDeck => self.handle_reset_deck(conn, &message.data, outbox),
            Command::Quit => self.handle_quit(conn, &message.data, outbox),
        }
    }

    /// Register a fresh room for the issuer, or answer why none was
    /// created.
    fn handle_create_game(
        &mut self,
        conn: u64,
        data: &MessageData,
        outbox: &mut Vec<Outgoing>,
    )
        requires
            old(self).wf(),
        ensures
            final(self).wf(),
            create_game_post(
                *old(self),
                *final(self),
                conn,
                *data,
                old(outbox)@,
                final(outbox)@,
            ),
    {
        let name = match data.get_player_name() {
            Ok(n) => n,
            Err(e) => {
                send_to(outbox, conn, error_message(e, 0));
                return ;
            },
        };
        if self.find_room_of_conn(conn).is_some() {
            send_to(outbox, conn, error_message(ServerError::AlreadyInRoom, 0));
            return ;
        }
        let code = match self.allocate_code() {
            None => {
                send_to(outbox, conn, error_message(ServerError::CodeSpaceExhausted, 0));
                return ;
            },
            Some(c) => c,
        };
        let player = Player::new(name.as_str(), conn);
        self.create_room(player, code, outbox);
    }

    /// Build and register a room for this creator under a code that is
    /// not in use, and tell the creator.
    fn create_room(&mut self, player: Player, code: u32, outbox: &mut Vec<Outgoing>)
        requires
            old(self).wf(),
            1000 <= code <= 9999,
            !room_codes(old(self).rooms@).contains(code),
            !rooms_has_conn(old(self).rooms@, player.conn),
            player.hand@.len() == 0,
        ensures
            final(self).wf(),
            final(self).rooms@.len() == old(self).rooms@.len() + 1,
            final(self).rooms@.take(old(self).rooms@.len() as int) == old(self).rooms@,
            ({
                let r = final(self).rooms@.last();
                &&& r.wf()
                &&& r.code == code
                &&& r.players@ =~= seq![player]
                &&& r.discard_pile@.len() == 0
                &&& r.draw_deck@.len() == 52
            }),
            final(outbox)@.len() == old(outbox)@.len() + 1,
            seq_extends(old(outbox)@, final(outbox)@),
            is_game_created_msg(final(outbox)@.last().message, code, player),
            final(outbox)@.last().recipients@ == seq![player.conn],
    {
        let conn = player.conn;
        let room = Room::new(player, code, outbox);
        let ghost pre = *self;
        self.rooms.push(room);
        proof {
            let n = pre.rooms@.len() as int;
            assert(self.rooms@.take(n) =~= pre.rooms@);
            assert(conns_of(self.rooms@[n].players@) =~= seq![conn]);
            // The new room is sound on its own; the fresh code and the
            // unbound connection keep the hub's maps injective.
            assert forall|i: int, j: int|
                0 <= i < j < self.rooms@.len() implies (#[trigger] self.rooms@[i]).code != (
            #[trigger] self.rooms@[j]).code by {
                if j == n {
                    assert(room_codes(pre.rooms@)[i] == pre.rooms@[i].code);
                }
            }
            assert forall|i: int, j: int, c: u64|
                0 <= i < j < self.rooms@.len() implies !((#[trigger] self.rooms@[i].has_member(c))
                && (#[trigger] self.rooms@[j].has_member(c))) by {
                if j == n {
                    if self.rooms@[j].has_member(c) {
                        assert(conns_of(self.rooms@[n].players@).contains(c));
                        assert(c == conn);
                        assert(!pre.rooms@[i].has_member(conn));
                    }
                }
            }
        }
    }
}

} // verus!
