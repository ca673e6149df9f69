//! The room: the authoritative state machine of one card-table session.
//! A room owns a roster of players, the draw deck and the discard pile,
//! and every command against it produces outgoing events with an explicit
//! recipient scope.

use vstd::prelude::*;
use vstd::multiset::*;
use vstd::seq_lib::*;

use crate::actions::Action;
use crate::card::{Card, CardData, Suite, Value};
use crate::deck::{
    card_id, full_deck_ids, full_deck_seq, ids_of, lemma_face_down_permutation,
    lemma_ids_of_permutation, Deck,
};
use crate::message::{
    spec_quit_text, spec_reset_text, CustomMessage, CustomMessageBuilder, Outgoing, ServerError,
};
use crate::message::{quit_text, reset_text};
use crate::player::{hand_index_of, spec_toggle_in_hand, Player, PlayerData};
use crate::seq_util::{lemma_index_of_first_is, seq_extends};

verus! {

/// The connection handles of a roster, in roster order.
pub open spec fn conns_of(players: Seq<Player>) -> Seq<u64> {
    players.map_values(|p: Player| p.conn)
}

/// The connection handles of every roster member but the one given, in
/// roster order.
pub open spec fn conns_except(players: Seq<Player>, conn: u64) -> Seq<u64>
    decreases players.len(),
{
    if players.len() == 0 {
        Seq::empty()
    } else if players[0].conn == conn {
        conns_except(players.drop_first(), conn)
    } else {
        seq![players[0].conn] + conns_except(players.drop_first(), conn)
    }
}

/// Who is addressed by the everyone-else scope: exactly the members with
/// another connection handle.
pub proof fn lemma_conns_except(players: Seq<Player>, conn: u64, c: u64)
    ensures
        conns_except(players, conn).contains(c) <==> (c != conn && conns_of(players).contains(c)),
    decreases players.len(),
{
    if players.len() > 0 {
        let rest = players.drop_first();
        lemma_conns_except(rest, conn, c);
        assert(conns_of(players)[0] == players[0].conn);
        assert(forall|k: int| 0 <= k < rest.len() ==> conns_of(rest)[k] == conns_of(players)[k + 1]);
        assert(conns_of(players).contains(c) <==> (players[0].conn == c || conns_of(rest).contains(
            c,
        ))) by {
            if conns_of(players).contains(c) {
                let w = choose|w: int|
                    0 <= w < conns_of(players).len() && conns_of(players)[w] == c;
                if w > 0 {
                    assert(conns_of(rest)[w - 1] == c);
                }
            }
            if conns_of(rest).contains(c) {
                let w = choose|w: int| 0 <= w < conns_of(rest).len() && conns_of(rest)[w] == c;
                assert(conns_of(players)[w + 1] == c);
            }
        }
        if players[0].conn != conn {
            let e = conns_except(players, conn);
            let er = conns_except(rest, conn);
            assert(e == seq![players[0].conn] + er);
            assert(e[0] == players[0].conn);
            assert(forall|k: int| 0 <= k < er.len() ==> e[k + 1] == er[k]);
            assert(e.contains(c) <==> (players[0].conn == c || er.contains(c))) by {
                if e.contains(c) {
                    let w = choose|w: int| 0 <= w < e.len() && e[w] == c;
                    if w > 0 {
                        assert(er[w - 1] == c);
                    }
                }
                if er.contains(c) {
                    let w = choose|w: int| 0 <= w < er.len() && er[w] == c;
                    assert(e[w + 1] == c);
                }
            }
        }
    }
}

/// A joiner adds exactly their connection handle to the roster's set.
pub proof fn lemma_conns_of_push(players: Seq<Player>, p: Player, c: u64)
    ensures
        conns_of(players.push(p)).contains(c) <==> (conns_of(players).contains(c) || c == p.conn),
{
    let grown = conns_of(players.push(p));
    assert(grown.len() == players.len() + 1);
    assert(forall|k: int| 0 <= k < players.len() ==> grown[k] == conns_of(players)[k]);
    assert(grown[players.len() as int] == p.conn);
    if conns_of(players).contains(c) {
        let w = choose|w: int| 0 <= w < players.len() && conns_of(players)[w] == c;
        assert(grown[w] == c);
    }
    if grown.contains(c) {
        let w = choose|w: int| 0 <= w < grown.len() && grown[w] == c;
        if w < players.len() {
            assert(conns_of(players)[w] == c);
        }
    }
}

/// Whoever is connected after a member leaves was connected before.
pub proof fn lemma_conns_of_remove(players: Seq<Player>, i: int, c: u64)
    requires
        0 <= i < players.len(),
    ensures
        conns_of(players.remove(i)).contains(c) ==> conns_of(players).contains(c),
{
    let shrunk = conns_of(players.remove(i));
    if shrunk.contains(c) {
        let w = choose|w: int| 0 <= w < shrunk.len() && shrunk[w] == c;
        if w < i {
            assert(conns_of(players)[w] == c);
        } else {
            assert(conns_of(players)[w + 1] == c);
        }
    }
}

/// The card identities held across the hands of a roster.
pub open spec fn hands_ids(players: Seq<Player>) -> Multiset<(Suite, Value)>
    decreases players.len(),
{
    if players.len() == 0 {
        Multiset::empty()
    } else {
        ids_of(players[0].hand@).to_multiset().add(hands_ids(players.drop_first()))
    }
}

/// Hands contribute independently: the hands of a concatenated roster
/// hold the sum of the parts.
pub proof fn lemma_hands_ids_concat(a: Seq<Player>, b: Seq<Player>)
    ensures
        hands_ids(a + b) == hands_ids(a).add(hands_ids(b)),
    decreases a.len(),
{
    broadcast use group_multiset_axioms;

    if a.len() == 0 {
        assert(a + b =~= b);
        assert(hands_ids(a).add(hands_ids(b)) =~= hands_ids(b));
    } else {
        assert((a + b).drop_first() =~= a.drop_first() + b);
        lemma_hands_ids_concat(a.drop_first(), b);
        assert(hands_ids(a + b) =~= hands_ids(a).add(hands_ids(b)));
    }
}

/// A roster splits around any member: the hands before, that member's
/// hand, and the hands after.
pub proof fn lemma_hands_ids_split(players: Seq<Player>, i: int)
    requires
        0 <= i < players.len(),
    ensures
        hands_ids(players) == hands_ids(players.take(i)).add(
            ids_of(players[i].hand@).to_multiset(),
        ).add(hands_ids(players.skip(i + 1))),
{
    broadcast use group_multiset_axioms;

    let mid = seq![players[i]];
    assert(players =~= players.take(i) + (mid + players.skip(i + 1)));
    lemma_hands_ids_concat(players.take(i), mid + players.skip(i + 1));
    lemma_hands_ids_concat(mid, players.skip(i + 1));
    lemma_hands_ids_singleton(players[i]);
    assert(hands_ids(players) =~= hands_ids(players.take(i)).add(
        ids_of(players[i].hand@).to_multiset(),
    ).add(hands_ids(players.skip(i + 1))));
}

/// A roster of one player holds exactly that player's hand.
pub proof fn lemma_hands_ids_singleton(p: Player)
    ensures
        hands_ids(seq![p]) == ids_of(p.hand@).to_multiset(),
{
    broadcast use group_multiset_axioms;

    let s = seq![p];
    assert(s.len() == 1);
    assert(s[0] == p);
    assert(s.drop_first() =~= Seq::<Player>::empty());
    assert(hands_ids(s.drop_first()) == Multiset::<(Suite, Value)>::empty());
    assert(hands_ids(s) == ids_of(p.hand@).to_multiset().add(
        Multiset::<(Suite, Value)>::empty(),
    ));
    assert(ids_of(p.hand@).to_multiset().add(Multiset::<(Suite, Value)>::empty()) =~= ids_of(
        p.hand@,
    ).to_multiset());
}

/// Replacing one member changes only that member's contribution.
pub proof fn lemma_hands_ids_update(players: Seq<Player>, i: int, p: Player)
    requires
        0 <= i < players.len(),
    ensures
        hands_ids(players.update(i, p)) == hands_ids(players.take(i)).add(
            ids_of(p.hand@).to_multiset(),
        ).add(hands_ids(players.skip(i + 1))),
{
    lemma_hands_ids_split(players.update(i, p), i);
    assert(players.update(i, p).take(i) =~= players.take(i));
    assert(players.update(i, p).skip(i + 1) =~= players.skip(i + 1));
}

/// Removing one member removes exactly that member's contribution.
pub proof fn lemma_hands_ids_remove(players: Seq<Player>, i: int)
    requires
        0 <= i < players.len(),
    ensures
        hands_ids(players.remove(i)) == hands_ids(players.take(i)).add(
            hands_ids(players.skip(i + 1)),
        ),
{
    assert(players.remove(i) =~= players.take(i) + players.skip(i + 1));
    lemma_hands_ids_concat(players.take(i), players.skip(i + 1));
}

/// A new member joins with their hand as their whole contribution.
pub proof fn lemma_hands_ids_push(players: Seq<Player>, p: Player)
    ensures
        hands_ids(players.push(p)) == hands_ids(players).add(ids_of(p.hand@).to_multiset()),
{
    broadcast use group_multiset_axioms;

    assert(players.push(p) =~= players + seq![p]);
    lemma_hands_ids_concat(players, seq![p]);
    lemma_hands_ids_singleton(p);
}

/// A roster of empty hands holds nothing.
pub proof fn lemma_hands_ids_all_empty(players: Seq<Player>)
    requires
        forall|i: int| 0 <= i < players.len() ==> (#[trigger] players[i]).hand@.len() == 0,
    ensures
        hands_ids(players) == Multiset::<(Suite, Value)>::empty(),
    decreases players.len(),
{
    broadcast use group_multiset_axioms;

    if players.len() > 0 {
        let rest = players.drop_first();
        assert(forall|k: int| 0 <= k < rest.len() ==> rest[k] == players[k + 1]);
        lemma_hands_ids_all_empty(rest);
        assert(players[0].hand@.len() == 0);
        to_multiset_len(ids_of(players[0].hand@));
        lemma_multiset_empty_len(ids_of(players[0].hand@).to_multiset());
        assert(hands_ids(players) == ids_of(players[0].hand@).to_multiset().add(hands_ids(rest)));
        assert(hands_ids(players) =~= Multiset::<(Suite, Value)>::empty());
    }
}

/// No two roster members share a connection handle.
pub open spec fn conns_distinct(players: Seq<Player>) -> bool {
    forall|i: int, j: int|
        0 <= i < j < players.len() ==> (#[trigger] players[i]).conn != (#[trigger] players[j]).conn
}

/// No two roster members share a player id.
pub open spec fn ids_distinct(players: Seq<Player>) -> bool {
    forall|i: int, j: int|
        0 <= i < j < players.len() ==> (#[trigger] players[i]).id@ != (#[trigger] players[j]).id@
}

/// Whether a projection list matches a hand card for card.
pub open spec fn card_datas_match(ds: Seq<CardData>, cs: Seq<Card>) -> bool {
    ds.len() == cs.len() && forall|i: int|
        0 <= i < cs.len() ==> ds[i] == (#[trigger] cs[i]).spec_card_data()
}

/// Whether a projection matches a player: same id and name, the hand
/// projected card for card.
pub open spec fn player_data_matches(d: PlayerData, p: Player) -> bool {
    &&& d.id@ == p.id@
    &&& d.name@ == p.name@
    &&& card_datas_match(d.hand@, p.hand@)
}

/// Whether a projection list matches a roster member for member.
pub open spec fn player_datas_match(ds: Seq<PlayerData>, ps: Seq<Player>) -> bool {
    ds.len() == ps.len() && forall|i: int|
        0 <= i < ps.len() ==> player_data_matches(#[trigger] ds[i], ps[i])
}

/// Law (visibility of others' cards, hand lists): a projected hand, as
/// broadcast in joins and discards, names suit and rank only for cards
/// their holder has turned face-up.
pub proof fn lemma_hand_view_privacy(d: PlayerData, p: Player, t: int)
    requires
        player_data_matches(d, p),
        0 <= t < p.hand@.len(),
        !p.hand@[t].visible,
    ensures
        d.hand@[t] == (CardData { suite: None, value: None, visible: false }),
{
}

/// A hand as it lands on the discard pile: every card turned face-up.
pub open spec fn reveal_all(cards: Seq<Card>) -> Seq<Card> {
    cards.map_values(|c: Card| Card { visible: true, ..c })
}

/// An isolated session sharing one deck.
#[derive(Debug)]
pub struct Room {
    /// The four-digit code under which the hub registers this room.
    pub code: u32,
    /// The roster, in join order; the first entry is the creator.
    pub players: Vec<Player>,
    /// The face-down pile that players draw from.
    pub draw_deck: Deck,
    /// The face-up public pile of cards removed from play.
    pub discard_pile: Vec<Card>,
}

impl Room {
    /// Every card identity in the room: draw deck, discard pile and all
    /// hands together.
    pub open spec fn cards_multiset(self) -> Multiset<(Suite, Value)> {
        ids_of(self.draw_deck@).to_multiset().add(ids_of(self.discard_pile@).to_multiset()).add(
            hands_ids(self.players@),
        )
    }

    /// The roster position of the member bound to a connection, if any.
    pub open spec fn member_index_of(self, conn: u64) -> Option<int> {
        conns_of(self.players@).index_of_first(conn)
    }

    /// Whether a connection has a player in this room.
    pub open spec fn has_member(self, conn: u64) -> bool {
        conns_of(self.players@).contains(conn)
    }

    /// Well-formedness of a room at rest: the code is in range, each of
    /// the 52 card identities is present exactly once across deck,
    /// discard and hands, the draw deck is face-down, the discard pile is
    /// face-up, and no two members share a connection or an id.
    pub open spec fn wf(self) -> bool {
        &&& 1000 <= self.code <= 9999
        &&& self.cards_multiset() == full_deck_ids()
        &&& forall|k: int|
            0 <= k < self.draw_deck@.len() ==> !(#[trigger] self.draw_deck@[k]).visible
        &&& forall|k: int|
            0 <= k < self.discard_pile@.len() ==> (#[trigger] self.discard_pile@[k]).visible
        &&& conns_distinct(self.players@)
        &&& ids_distinct(self.players@)
    }

    /// The sizes of the three piles sum to the deck size: 52.
    pub proof fn lemma_wf_sizes(self)
        requires
            self.wf(),
        ensures
            self.draw_deck@.len() <= 52,
            self.discard_pile@.len() <= 52,
    {
        broadcast use group_multiset_axioms;
        broadcast use group_to_multiset_ensures;

        assert(full_deck_ids().len() == 52) by {
            to_multiset_len(ids_of(full_deck_seq()));
        }
        to_multiset_len(ids_of(self.draw_deck@));
        to_multiset_len(ids_of(self.discard_pile@));
        assert(self.cards_multiset().len() == ids_of(self.draw_deck@).to_multiset().len() + ids_of(
            self.discard_pile@,
        ).to_multiset().len() + hands_ids(self.players@).len());
    }
}

/// Law (conservation): in a well-formed room at rest, each of the 52
/// (suit, rank) pairs occurs exactly once across the draw deck, the
/// discard pile, and the players' hands.
pub proof fn lemma_room_conservation(r: Room, suite: Suite, value: Value)
    requires
        r.wf(),
    ensures
        r.cards_multiset().count((suite, value)) == 1,
{
    crate::deck::lemma_full_deck_ids_count(suite, value);
}

/// The `GameCreated` event answered to a room's creator.
pub open spec fn is_game_created_msg(m: CustomMessage, code: u32, creator: Player) -> bool {
    &&& m.action == Action::GameCreated
    &&& m.data.room_id == Some(code)
    &&& m.data.player_id matches Some(p) && p@ == creator.id@
    &&& m.data.player_name matches Some(n) && n@ == creator.name@
    &&& m.data.draw_deck_size == Some(52u8)
    &&& m.data.message is None
    &&& m.data.card is None
    &&& m.data.hand is None
    &&& m.data.other_players is None
    &&& m.data.discard_pile is None
    &&& m.data.error is None
}

/// The `RoomJoined` event answered to a joiner: the room's code, the
/// joiner's identity, the deck size, the projections of everyone already
/// there, and the public discard pile.
pub open spec fn is_room_joined_msg(m: CustomMessage, pre: Room, joiner: Player) -> bool {
    &&& m.action == Action::RoomJoined
    &&& m.data.room_id == Some(pre.code)
    &&& m.data.player_id matches Some(p) && p@ == joiner.id@
    &&& m.data.player_name matches Some(n) && n@ == joiner.name@
    &&& m.data.draw_deck_size matches Some(s) && s == pre.draw_deck@.len()
    &&& m.data.other_players matches Some(v) && player_datas_match(v@, pre.players@)
    &&& m.data.discard_pile matches Some(d) && d@ == pre.discard_pile@
    &&& m.data.message is None
    &&& m.data.card is None
    &&& m.data.hand is None
    &&& m.data.error is None
}

/// The `PlayerJoinedRoomInSession` event broadcast to everyone already in
/// the room: only the joiner's id and name.
pub open spec fn is_player_joined_msg(m: CustomMessage, joiner: Player) -> bool {
    &&& m.action == Action::PlayerJoinedRoomInSession
    &&& m.data.player_id matches Some(p) && p@ == joiner.id@
    &&& m.data.player_name matches Some(n) && n@ == joiner.name@
    &&& m.data.room_id is None
    &&& m.data.message is None
    &&& m.data.draw_deck_size is None
    &&& m.data.card is None
    &&& m.data.hand is None
    &&& m.data.other_players is None
    &&& m.data.discard_pile is None
    &&& m.data.error is None
}

/// The `Chat` event broadcast to the room.
pub open spec fn is_chat_msg(m: CustomMessage, name: Seq<char>, text: Seq<char>, size: int) -> bool {
    &&& m.action == Action::Chat
    &&& m.data.player_name matches Some(n) && n@ == name
    &&& m.data.message matches Some(t) && t@ == text
    &&& m.data.draw_deck_size matches Some(s) && s == size
    &&& m.data.room_id is None
    &&& m.data.player_id is None
    &&& m.data.card is None
    &&& m.data.hand is None
    &&& m.data.other_players is None
    &&& m.data.discard_pile is None
    &&& m.data.error is None
}

/// The `CardDrawn` event answered to the drawer: the full card and the
/// new deck size.
pub open spec fn is_card_drawn_self_msg(m: CustomMessage, card: Card, size: int) -> bool {
    &&& m.action == Action::CardDrawn
    &&& m.data.card == Some(card.spec_full_card_data())
    &&& m.data.draw_deck_size matches Some(s) && s == size
    &&& m.data.player_name is None
    &&& m.data.room_id is None
    &&& m.data.message is None
    &&& m.data.player_id is None
    &&& m.data.hand is None
    &&& m.data.other_players is None
    &&& m.data.discard_pile is None
    &&& m.data.error is None
}

/// The `CardDrawn` event broadcast to everyone else: the card is elided,
/// only the new deck size is told.
pub open spec fn is_card_drawn_others_msg(m: CustomMessage, size: int) -> bool {
    &&& m.action == Action::CardDrawn
    &&& m.data.card is None
    &&& m.data.draw_deck_size matches Some(s) && s == size
    &&& m.data.player_name is None
    &&& m.data.room_id is None
    &&& m.data.message is None
    &&& m.data.player_id is None
    &&& m.data.hand is None
    &&& m.data.other_players is None
    &&& m.data.discard_pile is None
    &&& m.data.error is None
}

/// The `ToggleVisibilityOfCard` event broadcast to the room: the holder
/// and the projection of the toggled card — full identity when it turned
/// face-up, anonymous when it turned back face-down.
pub open spec fn is_toggle_msg(m: CustomMessage, player_id: Seq<char>, card: Card) -> bool {
    &&& m.action == Action::ToggleVisibilityOfCard
    &&& m.data.player_id matches Some(p) && p@ == player_id
    &&& m.data.card == Some(card.spec_card_data())
    &&& m.data.player_name is None
    &&& m.data.room_id is None
    &&& m.data.message is None
    &&& m.data.draw_deck_size is None
    &&& m.data.hand is None
    &&& m.data.other_players is None
    &&& m.data.discard_pile is None
    &&& m.data.error is None
}

/// The `DiscardCard` event broadcast to the room: the discarder, the
/// discarded card face-up, and the discarder's remaining hand projected.
pub open spec fn is_discard_msg(
    m: CustomMessage,
    player_id: Seq<char>,
    card: Card,
    hand: Seq<Card>,
) -> bool {
    &&& m.action == Action::DiscardCard
    &&& m.data.player_id matches Some(p) && p@ == player_id
    &&& m.data.card == Some(card.spec_card_data())
    &&& m.data.hand matches Some(h) && card_datas_match(h@, hand)
    &&& m.data.player_name is None
    &&& m.data.room_id is None
    &&& m.data.message is None
    &&& m.data.draw_deck_size is None
    &&& m.data.other_players is None
    &&& m.data.discard_pile is None
    &&& m.data.error is None
}

/// The `ResetDeck` event broadcast to the room: an empty discard pile, a
/// full deck, and a human-readable note.
pub open spec fn is_reset_msg(m: CustomMessage) -> bool {
    &&& m.action == Action::ResetDeck
    &&& m.data.discard_pile matches Some(d) && d@.len() == 0
    &&& m.data.draw_deck_size == Some(52u8)
    &&& m.data.message matches Some(t) && t@ == spec_reset_text()
    &&& m.data.player_name is None
    &&& m.data.room_id is None
    &&& m.data.player_id is None
    &&& m.data.card is None
    &&& m.data.hand is None
    &&& m.data.other_players is None
    &&& m.data.error is None
}

/// The `Quit` event broadcast to the remaining members: the departed
/// player, the discard pile with their cards, and a human-readable note.
pub open spec fn is_quit_msg(
    m: CustomMessage,
    player_id: Seq<char>,
    discard: Seq<Card>,
    name: Seq<char>,
) -> bool {
    &&& m.action == Action::Quit
    &&& m.data.player_id matches Some(p) && p@ == player_id
    &&& m.data.discard_pile matches Some(d) && d@ == discard
    &&& m.data.message matches Some(t) && t@ == spec_quit_text(name)
    &&& m.data.player_name is None
    &&& m.data.room_id is None
    &&& m.data.draw_deck_size is None
    &&& m.data.card is None
    &&& m.data.hand is None
    &&& m.data.other_players is None
    &&& m.data.error is None
}

/// A copy of a pile of cards, for an event payload.
fn copy_cards(cards: &Vec<Card>) -> (r: Vec<Card>)
    ensures
        r@ == cards@,
{
    let mut r: Vec<Card> = Vec::new();
    let mut i: usize = 0;
    while i < cards.len()
        invariant
            0 <= i <= cards@.len(),
            r@ == cards@.take(i as int),
        decreases cards@.len() - i,
    {
        r.push(cards[i]);
        assert(r@ =~= cards@.take(i + 1 as int));
        i = i + 1;
    }
    assert(r@ =~= cards@);
    r
}

/// A hand projected card for card, for an event payload.
fn hand_views(cards: &Vec<Card>) -> (r: Vec<CardData>)
    ensures
        card_datas_match(r@, cards@),
{
    let mut r: Vec<CardData> = Vec::new();
    let mut i: usize = 0;
    while i < cards.len()
        invariant
            0 <= i <= cards@.len(),
            r@.len() == i,
            forall|k: int| 0 <= k < i ==> r@[k] == (#[trigger] cards@[k]).spec_card_data(),
        decreases cards@.len() - i,
    {
        r.push(cards[i].card_data());
        i = i + 1;
    }
    r
}

impl Room {
    /// The connection handles of the whole roster.
    fn roster_conns(&self) -> (r: Vec<u64>)
        ensures
            r@ == conns_of(self.players@),
    {
        let mut r: Vec<u64> = Vec::new();
        let mut i: usize = 0;
        while i < self.players.len()
            invariant
                0 <= i <= self.players@.len(),
                r@.len() == i,
                forall|k: int| 0 <= k < i ==> r@[k] == conns_of(self.players@)[k],
            decreases self.players@.len() - i,
        {
            r.push(self.players[i].conn);
            i = i + 1;
        }
        assert(r@ =~= conns_of(self.players@));
        r
    }

    /// The connection handles of everyone but the given connection.
    fn roster_conns_except(&self, conn: u64) -> (r: Vec<u64>)
        ensures
            r@ == conns_except(self.players@, conn),
    {
        let mut r: Vec<u64> = Vec::new();
        let mut i: usize = 0;
        while i < self.players.len()
            invariant
                0 <= i <= self.players@.len(),
                r@ == conns_except(self.players@.take(i as int), conn),
            decreases self.players@.len() - i,
        {
            let c = self.players[i].conn;
            proof {
                lemma_conns_except_take_step(self.players@, conn, i as int);
            }
            if c != conn {
                r.push(c);
            }
            i = i + 1;
        }
        assert(self.players@.take(self.players@.len() as int) =~= self.players@);
        r
    }

    /// The projections of the whole roster, for an event payload.
    fn roster_views(&self) -> (r: Vec<PlayerData>)
        ensures
            player_datas_match(r@, self.players@),
    {
        let mut r: Vec<PlayerData> = Vec::new();
        let mut i: usize = 0;
        while i < self.players.len()
            invariant
                0 <= i <= self.players@.len(),
                r@.len() == i,
                forall|k: int| 0 <= k < i ==> player_data_matches(#[trigger] r@[k], self.players@[k]),
            decreases self.players@.len() - i,
        {
            r.push(self.players[i].player_data());
            i = i + 1;
        }
        r
    }

    /// The roster position of the member bound to a connection, if any.
    pub fn find_member(&self, conn: u64) -> (r: Option<usize>)
        ensures
            self.member_index_of(conn) is None ==> r is None,
            self.member_index_of(conn) matches Some(i) ==> {
                &&& 0 <= i < self.players@.len()
                &&& r matches Some(j) && j == i
            },
    {
        let mut i: usize = 0;
        while i < self.players.len()
            invariant
                0 <= i <= self.players@.len(),
                forall|k: int| 0 <= k < i ==> conns_of(self.players@)[k] != conn,
            decreases self.players@.len() - i,
        {
            if self.players[i].conn == conn {
                proof {
                    assert(conns_of(self.players@)[i as int] == conn);
                    lemma_index_of_first_is(conns_of(self.players@), conn, i as int);
                }
                return Some(i);
            }
            proof {
                assert(conns_of(self.players@)[i as int] == self.players@[i as int].conn);
            }
            i = i + 1;
        }
        proof {
            assert(!conns_of(self.players@).contains(conn));
            conns_of(self.players@).index_of_first_ensures(conn);
        }
        None
    }

    /// Whether a connection has a player in this room.
    pub fn is_member(&self, conn: u64) -> (b: bool)
        ensures
            b == self.has_member(conn),
    {
        proof {
            conns_of(self.players@).index_of_first_ensures(conn);
        }
        self.find_member(conn).is_some()
    }

    /// Whether some roster member carries this player id.
    fn has_player_id(&self, id: &String) -> (r: bool)
        ensures
            r == exists|k: int|
                0 <= k < self.players@.len() && (#[trigger] self.players@[k]).id@ == id@,
    {
        let mut i: usize = 0;
        while i < self.players.len()
            invariant
                0 <= i <= self.players@.len(),
                forall|k: int| 0 <= k < i ==> (#[trigger] self.players@[k]).id@ != id@,
            decreases self.players@.len() - i,
        {
            if self.players[i].id == *id {
                return true;
            }
            i = i + 1;
        }
        false
    }

    /// Broadcast one event to every roster member.
    pub fn broadcast_to_room(&self, message: CustomMessage, outbox: &mut Vec<Outgoing>)
        ensures
            final(outbox)@.len() == old(outbox)@.len() + 1,
            seq_extends(old(outbox)@, final(outbox)@),
            final(outbox)@.last().message == message,
            final(outbox)@.last().recipients@ == conns_of(self.players@),
    {
        let recipients = self.roster_conns();
        outbox.push(Outgoing { recipients, message });
        assert(outbox@.take(old(outbox)@.len() as int) =~= old(outbox)@);
    }

    /// Broadcast one event to every roster member except the issuer.
    pub fn broadcast_to_everyone_else(
        &self,
        message: CustomMessage,
        conn: u64,
        outbox: &mut Vec<Outgoing>,
    )
        ensures
            final(outbox)@.len() == old(outbox)@.len() + 1,
            seq_extends(old(outbox)@, final(outbox)@),
            final(outbox)@.last().message == message,
            final(outbox)@.last().recipients@ == conns_except(self.players@, conn),
    {
        let recipients = self.roster_conns_except(conn);
        outbox.push(Outgoing { recipients, message });
        assert(outbox@.take(old(outbox)@.len() as int) =~= old(outbox)@);
    }

    /// Build a room for its creator: a fresh shuffled full deck, an empty
    /// discard pile, the creator as sole roster member, and the
    /// `GameCreated` event answered to them.
    pub fn new(creator: Player, code: u32, outbox: &mut Vec<Outgoing>) -> (r: Room)
        requires
            1000 <= code <= 9999,
            creator.hand@.len() == 0,
        ensures
            r.wf(),
            r.code == code,
            r.players@ =~= seq![creator],
            r.discard_pile@.len() == 0,
            r.draw_deck@.len() == 52,
            final(outbox)@.len() == old(outbox)@.len() + 1,
            seq_extends(old(outbox)@, final(outbox)@),
            is_game_created_msg(final(outbox)@.last().message, code, creator),
            final(outbox)@.last().recipients@ == seq![creator.conn],
    {
        let message = match CustomMessageBuilder::new()
            .set_action(Action::GameCreated)
            .set_room_id(code)
            .set_player_id(creator.id.clone())
            .set_player_name(creator.name.as_str())
            .set_draw_deck_size(52)
            .build() {
            Ok(m) => m,
            Err(_) => unreached(),
        };
        let mut deck = Deck::new();
        deck.shuffle();
        let mut players: Vec<Player> = Vec::new();
        players.push(creator);
        let room = Room { code, players, draw_deck: deck, discard_pile: Vec::new() };
        proof {
            to_multiset_len(full_deck_seq());
            to_multiset_len(room.draw_deck@);
            assert(room.draw_deck@.len() == 52);
            lemma_ids_of_permutation(full_deck_seq(), room.draw_deck@);
            lemma_face_down_permutation(full_deck_seq(), room.draw_deck@);
            lemma_hands_ids_singleton(creator);
            lemma_empty_cards_ids(room.discard_pile@);
            lemma_empty_cards_ids(creator.hand@);
            assert(room.players@ =~= seq![creator]);
            assert(room.cards_multiset() =~= full_deck_ids()) by {
                broadcast use group_multiset_axioms;
            }
        }
        room.broadcast_to_room(message, outbox);
        room
    }
}

/// Whether some member of a roster carries this player id.
pub open spec fn roster_has_id(players: Seq<Player>, id: Seq<char>) -> bool {
    exists|k: int| 0 <= k < players.len() && (#[trigger] players[k]).id@ == id
}

impl Room {
    /// Add a player to the roster: answered with `RoomJoined` to the
    /// joiner and `PlayerJoinedRoomInSession` to everyone already there.
    /// A connection or player id already present is refused.
    pub fn join(&mut self, player: Player, outbox: &mut Vec<Outgoing>) -> (r: Result<
        (),
        ServerError,
    >)
        requires
            old(self).wf(),
            player.hand@.len() == 0,
        ensures
            final(self).wf(),
            old(self).has_member(player.conn) || roster_has_id(old(self).players@, player.id@)
                ==> {
                &&& r == Err::<(), ServerError>(ServerError::AlreadyInRoom)
                &&& *final(self) == *old(self)
                &&& final(outbox)@ == old(outbox)@
            },
            !(old(self).has_member(player.conn) || roster_has_id(old(self).players@, player.id@))
                ==> {
                &&& r == Ok::<(), ServerError>(())
                &&& final(self).code == old(self).code
                &&& final(self).draw_deck@ == old(self).draw_deck@
                &&& final(self).discard_pile@ == old(self).discard_pile@
                &&& final(self).players@ == old(self).players@.push(player)
                &&& final(outbox)@.len() == old(outbox)@.len() + 2
                &&& seq_extends(old(outbox)@, final(outbox)@)
                &&& is_room_joined_msg(
                    final(outbox)@[old(outbox)@.len() as int].message,
                    *old(self),
                    player,
                )
                &&& final(outbox)@[old(outbox)@.len() as int].recipients@ == seq![player.conn]
                &&& is_player_joined_msg(final(outbox)@[old(outbox)@.len() as int + 1].message, player)
                &&& final(outbox)@[old(outbox)@.len() as int + 1].recipients@ == conns_except(
                    old(self).players@.push(player),
                    player.conn,
                )
            },
    {
        proof {
            conns_of(self.players@).index_of_first_ensures(player.conn);
        }
        if self.find_member(player.conn).is_some() {
            return Err(ServerError::AlreadyInRoom);
        }
        if self.has_player_id(&player.id) {
            return Err(ServerError::AlreadyInRoom);
        }
        proof {
            self.lemma_wf_sizes();
        }
        let deck_size = self.draw_deck.get_draw_deck_size();
        let joined = match CustomMessageBuilder::new()
            .set_action(Action::RoomJoined)
            .set_room_id(self.code)
            .set_player_id(player.id.clone())
            .set_player_name(player.name.as_str())
            .set_draw_deck_size(deck_size)
            .set_other_players(self.roster_views())
            .set_discard_pile(copy_cards(&self.discard_pile))
            .build() {
            Ok(m) => m,
            Err(_) => unreached(),
        };
        let conn = player.conn;
        crate::message::send_to(outbox, conn, joined);
        let announce = match CustomMessageBuilder::new()
            .set_action(Action::PlayerJoinedRoomInSession)
            .set_player_id(player.id.clone())
            .set_player_name(player.name.as_str())
            .build() {
            Ok(m) => m,
            Err(_) => unreached(),
        };
        let ghost pre = *self;
        let ghost out_mid = outbox@;
        self.players.push(player);
        self.broadcast_to_everyone_else(announce, conn, outbox);
        proof {
            assert(outbox@[old(outbox)@.len() as int] == out_mid.last());
            crate::seq_util::lemma_seq_extends_trans(old(outbox)@, out_mid, outbox@);
            // Conservation: the joiner's hand is empty.
            lemma_hands_ids_push(pre.players@, player);
            lemma_empty_cards_ids(player.hand@);
            assert(self.cards_multiset() =~= pre.cards_multiset()) by {
                broadcast use group_multiset_axioms;
            }
            // Roster uniqueness: the new connection and id are fresh.
            assert(conns_distinct(self.players@)) by {
                assert(forall|k: int|
                    0 <= k < pre.players@.len() ==> conns_of(pre.players@)[k] == (
                    #[trigger] pre.players@[k]).conn);
            }
            assert(ids_distinct(self.players@));
        }
        Ok(())
    }

    /// Broadcast a chat line from a member to the whole room, together
    /// with the current deck size.
    pub fn chat(&self, conn: u64, text: &str, outbox: &mut Vec<Outgoing>) -> (r: Result<
        (),
        ServerError,
    >)
        requires
            self.wf(),
        ensures
            !self.has_member(conn) ==> {
                &&& r == Err::<(), ServerError>(ServerError::NotInRoom)
                &&& final(outbox)@ == old(outbox)@
            },
            self.has_member(conn) ==> {
                &&& r == Ok::<(), ServerError>(())
                &&& final(outbox)@.len() == old(outbox)@.len() + 1
                &&& seq_extends(old(outbox)@, final(outbox)@)
                &&& is_chat_msg(
                    final(outbox)@.last().message,
                    self.players@[self.member_index_of(conn)->0].name@,
                    text@,
                    self.draw_deck@.len() as int,
                )
                &&& final(outbox)@.last().recipients@ == conns_of(self.players@)
            },
    {
        proof {
            conns_of(self.players@).index_of_first_ensures(conn);
        }
        match self.find_member(conn) {
            None => Err(ServerError::NotInRoom),
            Some(i) => {
                proof {
                    self.lemma_wf_sizes();
                }
                let deck_size = self.draw_deck.get_draw_deck_size();
                let message = match CustomMessageBuilder::new()
                    .set_action(Action::Chat)
                    .set_player_name(self.players[i].name.as_str())
                    .set_message(text)
                    .set_draw_deck_size(deck_size)
                    .build() {
                    Ok(m) => m,
                    Err(_) => unreached(),
                };
                self.broadcast_to_room(message, outbox);
                Ok(())
            },
        }
    }

    /// Draw the top card of the deck into the issuer's hand. The issuer
    /// is told the card; everyone else only sees the deck shrink.
    pub fn draw_card(&mut self, conn: u64, outbox: &mut Vec<Outgoing>) -> (r: Result<
        (),
        ServerError,
    >)
        requires
            old(self).wf(),
        ensures
            final(self).wf(),
            !old(self).has_member(conn) ==> {
                &&& r == Err::<(), ServerError>(ServerError::NotInRoom)
                &&& *final(self) == *old(self)
                &&& final(outbox)@ == old(outbox)@
            },
            old(self).has_member(conn) && old(self).draw_deck@.len() == 0 ==> {
                &&& r == Err::<(), ServerError>(ServerError::EmptyDrawDeck)
                &&& *final(self) == *old(self)
                &&& final(outbox)@ == old(outbox)@
            },
            old(self).has_member(conn) && old(self).draw_deck@.len() > 0 ==> {
                let i = old(self).member_index_of(conn)->0;
                let card = old(self).draw_deck@.last();
                &&& r == Ok::<(), ServerError>(())
                &&& !card.visible
                &&& final(self).code == old(self).code
                &&& final(self).draw_deck@ == old(self).draw_deck@.drop_last()
                &&& final(self).discard_pile@ == old(self).discard_pile@
                &&& final(self).players@.len() == old(self).players@.len()
                &&& final(self).players@[i].id == old(self).players@[i].id
                &&& final(self).players@[i].name == old(self).players@[i].name
                &&& final(self).players@[i].conn == old(self).players@[i].conn
                &&& final(self).players@[i].hand@ == old(self).players@[i].hand@.push(card)
                &&& forall|k: int|
                    0 <= k < old(self).players@.len() && k != i ==> final(self).players@[k] == old(
                        self,
                    ).players@[k]
                &&& final(outbox)@.len() == old(outbox)@.len() + 2
                &&& seq_extends(old(outbox)@, final(outbox)@)
                &&& is_card_drawn_self_msg(
                    final(outbox)@[old(outbox)@.len() as int].message,
                    card,
                    old(self).draw_deck@.len() - 1,
                )
                &&& final(outbox)@[old(outbox)@.len() as int].recipients@ == seq![conn]
                &&& is_card_drawn_others_msg(
                    final(outbox)@[old(outbox)@.len() as int + 1].message,
                    old(self).draw_deck@.len() - 1,
                )
                &&& final(outbox)@[old(outbox)@.len() as int + 1].recipients@ == conns_except(
                    old(self).players@,
                    conn,
                )
            },
    {
        proof {
            conns_of(self.players@).index_of_first_ensures(conn);
        }
        let i = match self.find_member(conn) {
            None => {
                return Err(ServerError::NotInRoom);
            },
            Some(i) => i,
        };
        proof {
            self.lemma_wf_sizes();
        }
        if self.draw_deck.get_draw_deck_size() == 0 {
            return Err(ServerError::EmptyDrawDeck);
        }
        let card = match self.draw_deck.draw() {
            None => unreached(),
            Some(c) => c,
        };
        let deck_size = self.draw_deck.get_draw_deck_size();
        let to_self = match CustomMessageBuilder::new()
            .set_action(Action::CardDrawn)
            .set_card(card.full_card_data())
            .set_draw_deck_size(deck_size)
            .build() {
            Ok(m) => m,
            Err(_) => unreached(),
        };
        crate::message::send_to(outbox, conn, to_self);
        let to_others = match CustomMessageBuilder::new()
            .set_action(Action::CardDrawn)
            .set_draw_deck_size(deck_size)
            .build() {
            Ok(m) => m,
            Err(_) => unreached(),
        };
        let ghost out_mid = outbox@;
        self.broadcast_to_everyone_else(to_others, conn, outbox);
        proof {
            assert(outbox@[old(outbox)@.len() as int] == out_mid.last());
            crate::seq_util::lemma_seq_extends_trans(old(outbox)@, out_mid, outbox@);
        }
        let ghost pre = *old(self);
        let ghost mid = *self;
        let p = &mut self.players[i];
        p.add_card(card);
        proof {
            let ii = i as int;
            let cid = card_id(card);
            // The deck lost the identity of its last card.
            assert(ids_of(pre.draw_deck@) =~= ids_of(mid.draw_deck@).push(cid));
            to_multiset_build(ids_of(mid.draw_deck@), cid);
            // The issuer's hand gained the same identity.
            assert(ids_of(self.players@[ii].hand@) =~= ids_of(pre.players@[ii].hand@).push(cid));
            to_multiset_build(ids_of(pre.players@[ii].hand@), cid);
            lemma_hands_ids_split(pre.players@, ii);
            lemma_hands_ids_update(pre.players@, ii, self.players@[ii]);
            assert(self.players@ == pre.players@.update(ii, self.players@[ii]));
            assert(self.cards_multiset() =~= pre.cards_multiset()) by {
                broadcast use group_multiset_axioms;
                lemma_insert_increases_count_by_1(ids_of(mid.draw_deck@).to_multiset(), cid);
                lemma_insert_increases_count_by_1(
                    ids_of(pre.players@[ii].hand@).to_multiset(),
                    cid,
                );
                assert(forall|y: (Suite, Value)|
                    y != cid ==> ids_of(mid.draw_deck@).to_multiset().insert(cid).count(y)
                        == ids_of(mid.draw_deck@).to_multiset().count(y) && ids_of(
                        pre.players@[ii].hand@,
                    ).to_multiset().insert(cid).count(y) == ids_of(
                        pre.players@[ii].hand@,
                    ).to_multiset().count(y)) by {
                    broadcast use group_multiset_axioms;
                }
            }
            assert(conns_distinct(self.players@));
            assert(ids_distinct(self.players@));
        }
        Ok(())
    }
}

/// Conveniences about empty piles: no cards, no identities.
pub proof fn lemma_empty_cards_ids(cards: Seq<Card>)
    requires
        cards.len() == 0,
    ensures
        ids_of(cards).to_multiset() == Multiset::<(Suite, Value)>::empty(),
{
    to_multiset_len(ids_of(cards));
    lemma_multiset_empty_len(ids_of(cards).to_multiset());
}

/// Two rosters with the same members in the same order: ids, names and
/// connection handles agree; only the hands may differ.
pub open spec fn rosters_meta_eq(a: Seq<Player>, b: Seq<Player>) -> bool {
    a.len() == b.len() && forall|k: int|
        0 <= k < a.len() ==> {
            &&& (#[trigger] a[k]).id@ == (#[trigger] b[k]).id@
            &&& a[k].name@ == b[k].name@
            &&& a[k].conn == b[k].conn
        }
}

/// What `ResetDeck` does to a room: the roster stays, every hand and the
/// discard pile are emptied, and the draw deck is rebuilt as a permutation
/// of the full 52 cards.
pub open spec fn reset_rel(pre: Room, post: Room) -> bool {
    &&& post.code == pre.code
    &&& rosters_meta_eq(pre.players@, post.players@)
    &&& forall|k: int| 0 <= k < post.players@.len() ==> (#[trigger] post.players@[k]).hand@.len() == 0
    &&& post.discard_pile@.len() == 0
    &&& post.draw_deck@.len() == 52
    &&& ids_of(post.draw_deck@).to_multiset() == full_deck_ids()
}

/// Law (idempotent reset): resetting a room twice in a row yields a state
/// that differs from the once-reset state in nothing but the order of the
/// shuffled deck; the second application is observable only through its
/// event.
pub proof fn lemma_reset_idempotent(s0: Room, s1: Room, s2: Room)
    requires
        reset_rel(s0, s1),
        reset_rel(s1, s2),
    ensures
        s2.code == s1.code,
        rosters_meta_eq(s1.players@, s2.players@),
        forall|k: int| 0 <= k < s1.players@.len() ==> (#[trigger] s1.players@[k]).hand@.len() == 0,
        forall|k: int| 0 <= k < s2.players@.len() ==> (#[trigger] s2.players@[k]).hand@.len() == 0,
        s2.discard_pile@ == s1.discard_pile@,
        ids_of(s2.draw_deck@).to_multiset() == ids_of(s1.draw_deck@).to_multiset(),
        s2.draw_deck@.len() == s1.draw_deck@.len(),
{
    assert(s2.discard_pile@ =~= s1.discard_pile@);
}

/// Law: discarding any card and then resetting the deck reaches the same
/// states as resetting alone — the discard leaves no trace past a reset,
/// again up to the order of the shuffled deck.
pub proof fn lemma_discard_then_reset(s0: Room, s1: Room, s2: Room, s3: Room)
    requires
        // `s1` is `s0` after any command that only moves cards around,
        // such as `DiscardCard`: the roster itself is untouched.
        rosters_meta_eq(s0.players@, s1.players@),
        s1.code == s0.code,
        // `s2` comes from resetting `s1`; `s3` from resetting `s0` directly.
        reset_rel(s1, s2),
        reset_rel(s0, s3),
    ensures
        s2.code == s3.code,
        rosters_meta_eq(s2.players@, s3.players@),
        forall|k: int| 0 <= k < s2.players@.len() ==> (#[trigger] s2.players@[k]).hand@.len() == 0,
        forall|k: int| 0 <= k < s3.players@.len() ==> (#[trigger] s3.players@[k]).hand@.len() == 0,
        s2.discard_pile@ == s3.discard_pile@,
        ids_of(s2.draw_deck@).to_multiset() == ids_of(s3.draw_deck@).to_multiset(),
        s2.draw_deck@.len() == s3.draw_deck@.len(),
{
    assert(s2.discard_pile@ =~= s3.discard_pile@);
    assert forall|k: int| 0 <= k < s2.players@.len() implies {
        &&& (#[trigger] s2.players@[k]).id@ == (#[trigger] s3.players@[k]).id@
        &&& s2.players@[k].name@ == s3.players@[k].name@
        &&& s2.players@[k].conn == s3.players@[k].conn
    } by {
        assert(s1.players@[k].id@ == s2.players@[k].id@);
        assert(s0.players@[k].id@ == s1.players@[k].id@);
        assert(s0.players@[k].id@ == s3.players@[k].id@);
        assert(s1.players@[k].name@ == s2.players@[k].name@);
        assert(s0.players@[k].name@ == s1.players@[k].name@);
        assert(s0.players@[k].name@ == s3.players@[k].name@);
        assert(s1.players@[k].conn == s2.players@[k].conn);
        assert(s0.players@[k].conn == s1.players@[k].conn);
        assert(s0.players@[k].conn == s3.players@[k].conn);
    }
}

impl Room {
    /// Flip the visibility of a card in the issuer's hand and announce
    /// the flip, with the card's new projection, to the whole room. A
    /// card the hand does not hold is a silent no-op.
    pub fn toggle_visibility_of_card(
        &mut self,
        conn: u64,
        suite: Suite,
        value: Value,
        outbox: &mut Vec<Outgoing>,
    ) -> (r: Result<(), ServerError>)
        requires
            old(self).wf(),
        ensures
            final(self).wf(),
            final(self).code == old(self).code,
            final(self).draw_deck@ == old(self).draw_deck@,
            final(self).discard_pile@ == old(self).discard_pile@,
            !old(self).has_member(conn) ==> {
                &&& r == Err::<(), ServerError>(ServerError::NotInRoom)
                &&& *final(self) == *old(self)
                &&& final(outbox)@ == old(outbox)@
            },
            old(self).has_member(conn) ==> {
                let i = old(self).member_index_of(conn)->0;
                let hand = old(self).players@[i].hand@;
                &&& r == Ok::<(), ServerError>(())
                &&& final(self).players@.len() == old(self).players@.len()
                &&& forall|k: int|
                    0 <= k < old(self).players@.len() && k != i ==> final(self).players@[k] == old(
                        self,
                    ).players@[k]
                &&& final(self).players@[i].id == old(self).players@[i].id
                &&& final(self).players@[i].name == old(self).players@[i].name
                &&& final(self).players@[i].conn == old(self).players@[i].conn
                &&& final(self).players@[i].hand@ == spec_toggle_in_hand(hand, suite, value)
                &&& hand_index_of(hand, suite, value) is None ==> final(outbox)@ == old(outbox)@
                &&& hand_index_of(hand, suite, value) matches Some(j) ==> {
                    &&& final(outbox)@.len() == old(outbox)@.len() + 1
                    &&& seq_extends(old(outbox)@, final(outbox)@)
                    &&& is_toggle_msg(
                        final(outbox)@.last().message,
                        old(self).players@[i].id@,
                        spec_toggle_in_hand(hand, suite, value)[j],
                    )
                    &&& final(outbox)@.last().recipients@ == conns_of(old(self).players@)
                }
            },
    {
        proof {
            conns_of(self.players@).index_of_first_ensures(conn);
        }
        let i = match self.find_member(conn) {
            None => {
                return Err(ServerError::NotInRoom);
            },
            Some(i) => i,
        };
        let ghost pre = *self;
        let p = &mut self.players[i];
        let toggled = p.toggle_visibility_of_card(suite, value);
        proof {
            let ii = i as int;
            let hand = pre.players@[ii].hand@;
            crate::player::lemma_toggle_keeps_ids(hand, suite, value);
            assert(ids_of(self.players@[ii].hand@) == ids_of(hand));
            lemma_hands_ids_split(pre.players@, ii);
            lemma_hands_ids_update(pre.players@, ii, self.players@[ii]);
            assert(self.players@ == pre.players@.update(ii, self.players@[ii]));
            assert(self.cards_multiset() =~= pre.cards_multiset()) by {
                broadcast use group_multiset_axioms;
            }
            assert(conns_distinct(self.players@));
            assert(ids_distinct(self.players@));
            assert(conns_of(self.players@) =~= conns_of(pre.players@));
        }
        match toggled {
            None => Ok(()),
            Some(card) => {
                let message = match CustomMessageBuilder::new()
                    .set_action(Action::ToggleVisibilityOfCard)
                    .set_player_id(self.players[i].id.clone())
                    .set_card(card.card_data())
                    .build() {
                    Ok(m) => m,
                    Err(_) => unreached(),
                };
                self.broadcast_to_room(message, outbox);
                Ok(())
            },
        }
    }

    /// Move a card from the issuer's hand to the public discard pile,
    /// face-up, and announce it — card and remaining hand — to the whole
    /// room. A card the hand does not hold is a silent no-op.
    pub fn discard_card(
        &mut self,
        conn: u64,
        suite: Suite,
        value: Value,
        outbox: &mut Vec<Outgoing>,
    ) -> (r: Result<(), ServerError>)
        requires
            old(self).wf(),
        ensures
            final(self).wf(),
            final(self).code == old(self).code,
            final(self).draw_deck@ == old(self).draw_deck@,
            !old(self).has_member(conn) ==> {
                &&& r == Err::<(), ServerError>(ServerError::NotInRoom)
                &&& *final(self) == *old(self)
                &&& final(outbox)@ == old(outbox)@
            },
            old(self).has_member(conn) ==> {
                let i = old(self).member_index_of(conn)->0;
                let hand = old(self).players@[i].hand@;
                &&& r == Ok::<(), ServerError>(())
                &&& final(self).players@.len() == old(self).players@.len()
                &&& forall|k: int|
                    0 <= k < old(self).players@.len() && k != i ==> final(self).players@[k] == old(
                        self,
                    ).players@[k]
                &&& final(self).players@[i].id == old(self).players@[i].id
                &&& final(self).players@[i].name == old(self).players@[i].name
                &&& final(self).players@[i].conn == old(self).players@[i].conn
                &&& hand_index_of(hand, suite, value) is None ==> {
                    &&& final(self).players@[i].hand@ == hand
                    &&& final(self).discard_pile@ == old(self).discard_pile@
                    &&& final(outbox)@ == old(outbox)@
                }
                &&& hand_index_of(hand, suite, value) matches Some(j) ==> {
                    let revealed = Card { visible: true, ..hand[j] };
                    &&& final(self).players@[i].hand@ == hand.remove(j)
                    &&& final(self).discard_pile@ == old(self).discard_pile@.push(revealed)
                    &&& final(outbox)@.len() == old(outbox)@.len() + 1
                    &&& seq_extends(old(outbox)@, final(outbox)@)
                    &&& is_discard_msg(
                        final(outbox)@.last().message,
                        old(self).players@[i].id@,
                        revealed,
                        hand.remove(j),
                    )
                    &&& final(outbox)@.last().recipients@ == conns_of(old(self).players@)
                }
            },
    {
        proof {
            conns_of(self.players@).index_of_first_ensures(conn);
        }
        let i = match self.find_member(conn) {
            None => {
                return Err(ServerError::NotInRoom);
            },
            Some(i) => i,
        };
        let ghost pre = *self;
        let p = &mut self.players[i];
        let removed = p.discard(suite, value);
        proof {
            assert(self.players@ == pre.players@.update(i as int, self.players@[i as int]));
        }
        match removed {
            None => {
                proof {
                    let ii = i as int;
                    lemma_hands_ids_split(pre.players@, ii);
                    lemma_hands_ids_update(pre.players@, ii, self.players@[ii]);
                    assert(self.cards_multiset() =~= pre.cards_multiset()) by {
                        broadcast use group_multiset_axioms;
                    }
                    assert(conns_distinct(self.players@));
                    assert(ids_distinct(self.players@));
                }
                Ok(())
            },
            Some(card) => {
                let revealed = Card { suite: card.suite, value: card.value, visible: true };
                self.discard_pile.push(revealed);
                proof {
                    let ii = i as int;
                    let hand = pre.players@[ii].hand@;
                    let j = hand_index_of(hand, suite, value)->0;
                    let cid = card_id(hand[j]);
                    ids_of(hand).index_of_first_ensures((suite, value));
                    // The hand lost the identity at position j.
                    assert(ids_of(hand.remove(j)) =~= ids_of(hand).remove(j));
                    to_multiset_remove(ids_of(hand), j);
                    // The discard pile gained the same identity.
                    assert(ids_of(self.discard_pile@) =~= ids_of(pre.discard_pile@).push(cid));
                    to_multiset_build(ids_of(pre.discard_pile@), cid);
                    lemma_hands_ids_split(pre.players@, ii);
                    lemma_hands_ids_update(pre.players@, ii, self.players@[ii]);
                    to_multiset_contains(ids_of(hand), cid);
                    assert(self.cards_multiset() =~= pre.cards_multiset()) by {
                        broadcast use group_multiset_axioms;
                        lemma_insert_increases_count_by_1(
                            ids_of(pre.discard_pile@).to_multiset(),
                            cid,
                        );
                        assert(forall|y: (Suite, Value)|
                            y != cid ==> ids_of(pre.discard_pile@).to_multiset().insert(
                                cid,
                            ).count(y) == ids_of(pre.discard_pile@).to_multiset().count(y)) by {
                            broadcast use group_multiset_axioms;
                        }
                    }
                    assert(conns_distinct(self.players@));
                    assert(ids_distinct(self.players@));
                }
                let message = match CustomMessageBuilder::new()
                    .set_action(Action::DiscardCard)
                    .set_player_id(self.players[i].id.clone())
                    .set_card(revealed.card_data())
                    .set_hand(hand_views(&self.players[i].hand))
                    .build() {
                    Ok(m) => m,
                    Err(_) => unreached(),
                };
                self.broadcast_to_room(message, outbox);
                proof {
                    assert(conns_of(self.players@) =~= conns_of(pre.players@));
                }
                Ok(())
            },
        }
    }

    /// Rebuild and shuffle a full draw deck, clearing the discard pile
    /// and every hand, and announce the reset to the whole room.
    pub fn reset_deck(&mut self, outbox: &mut Vec<Outgoing>)
        requires
            old(self).wf(),
        ensures
            final(self).wf(),
            reset_rel(*old(self), *final(self)),
            final(outbox)@.len() == old(outbox)@.len() + 1,
            seq_extends(old(outbox)@, final(outbox)@),
            is_reset_msg(final(outbox)@.last().message),
            final(outbox)@.last().recipients@ == conns_of(old(self).players@),
    {
        let ghost pre = *self;
        let n = self.players.len();
        let mut i: usize = 0;
        while i < n
            invariant
                0 <= i <= n,
                n == self.players@.len(),
                self.players@.len() == pre.players@.len(),
                self.code == pre.code,
                self.draw_deck == pre.draw_deck,
                self.discard_pile == pre.discard_pile,
                forall|k: int| i <= k < n ==> self.players@[k] == pre.players@[k],
                forall|k: int| 0 <= k < i ==> (#[trigger] self.players@[k]).hand@.len() == 0,
                forall|k: int| 0 <= k < i ==> (#[trigger] self.players@[k]).id@ == pre.players@[k].id@,
                forall|k: int|
                    0 <= k < i ==> (#[trigger] self.players@[k]).name@ == pre.players@[k].name@,
                forall|k: int|
                    0 <= k < i ==> (#[trigger] self.players@[k]).conn == pre.players@[k].conn,
            decreases n - i,
        {
            let p = &mut self.players[i];
            p.clear_hand();
            i = i + 1;
        }
        self.discard_pile = Vec::new();
        self.draw_deck = Deck::new();
        self.draw_deck.shuffle();
        let message = match CustomMessageBuilder::new()
            .set_action(Action::ResetDeck)
            .set_discard_pile(Vec::new())
            .set_draw_deck_size(52)
            .set_message(reset_text().as_str())
            .build() {
            Ok(m) => m,
            Err(_) => unreached(),
        };
        proof {
            to_multiset_len(full_deck_seq());
            to_multiset_len(self.draw_deck@);
            lemma_ids_of_permutation(full_deck_seq(), self.draw_deck@);
            lemma_face_down_permutation(full_deck_seq(), self.draw_deck@);
            lemma_hands_ids_all_empty(self.players@);
            lemma_empty_cards_ids(self.discard_pile@);
            assert(self.cards_multiset() =~= full_deck_ids()) by {
                broadcast use group_multiset_axioms;
            }
            assert(conns_distinct(self.players@)) by {
                assert(forall|k: int|
                    0 <= k < pre.players@.len() ==> (#[trigger] self.players@[k]).conn == (
                    #[trigger] pre.players@[k]).conn);
            }
            assert(ids_distinct(self.players@)) by {
                assert(forall|k: int|
                    0 <= k < pre.players@.len() ==> (#[trigger] self.players@[k]).id@ == (
                    #[trigger] pre.players@[k]).id@);
            }
            assert(conns_of(self.players@) =~= conns_of(pre.players@));
        }
        self.broadcast_to_room(message, outbox);
    }

    /// Remove the member bound to a connection: their hand moves face-up
    /// onto the discard pile, and the remaining members are told who left
    /// and what the pile now holds. Returns whether the room emptied.
    pub fn quit(&mut self, conn: u64, outbox: &mut Vec<Outgoing>) -> (r: Result<bool, ServerError>)
        requires
            old(self).wf(),
        ensures
            final(self).wf(),
            final(self).code == old(self).code,
            final(self).draw_deck@ == old(self).draw_deck@,
            !old(self).has_member(conn) ==> {
                &&& r == Err::<bool, ServerError>(ServerError::NotInRoom)
                &&& *final(self) == *old(self)
                &&& final(outbox)@ == old(outbox)@
            },
            old(self).has_member(conn) ==> {
                let i = old(self).member_index_of(conn)->0;
                let departed = old(self).players@[i];
                &&& r == Ok::<bool, ServerError>(final(self).players@.len() == 0)
                &&& final(self).players@ == old(self).players@.remove(i)
                &&& final(self).discard_pile@ == old(self).discard_pile@ + reveal_all(
                    departed.hand@,
                )
                &&& final(outbox)@.len() == old(outbox)@.len() + 1
                &&& seq_extends(old(outbox)@, final(outbox)@)
                &&& is_quit_msg(
                    final(outbox)@.last().message,
                    departed.id@,
                    final(self).discard_pile@,
                    departed.name@,
                )
                &&& final(outbox)@.last().recipients@ == conns_of(final(self).players@)
            },
    {
        proof {
            conns_of(self.players@).index_of_first_ensures(conn);
        }
        let i = match self.find_member(conn) {
            None => {
                return Err(ServerError::NotInRoom);
            },
            Some(i) => i,
        };
        let ghost pre = *self;
        let departed = self.players.remove(i);
        let hand_len = departed.hand.len();
        let mut k: usize = 0;
        while k < hand_len
            invariant
                0 <= k <= hand_len,
                hand_len == departed.hand@.len(),
                self.code == pre.code,
                self.draw_deck == pre.draw_deck,
                self.players@ == pre.players@.remove(i as int),
                self.discard_pile@ == pre.discard_pile@ + reveal_all(departed.hand@).take(k as int),
            decreases hand_len - k,
        {
            let c = departed.hand[k];
            self.discard_pile.push(Card { suite: c.suite, value: c.value, visible: true });
            proof {
                assert(reveal_all(departed.hand@)[k as int] == (Card {
                    suite: departed.hand@[k as int].suite,
                    value: departed.hand@[k as int].value,
                    visible: true,
                }));
                assert(self.discard_pile@ =~= pre.discard_pile@ + reveal_all(
                    departed.hand@,
                ).take(k as int + 1));
            }
            k = k + 1;
        }
        proof {
            assert(reveal_all(departed.hand@).take(hand_len as int) =~= reveal_all(
                departed.hand@,
            ));
        }
        let note = quit_text(departed.name.as_str());
        let message = match CustomMessageBuilder::new()
            .set_action(Action::Quit)
            .set_player_id(departed.id.clone())
            .set_discard_pile(copy_cards(&self.discard_pile))
            .set_message(note.as_str())
            .build() {
            Ok(m) => m,
            Err(_) => unreached(),
        };
        self.broadcast_to_room(message, outbox);
        let emptied = self.players.len() == 0;
        proof {
            let ii = i as int;
            let hand = pre.players@[ii].hand@;
            // The departed hand's identities moved from the hands to the
            // discard pile.
            lemma_hands_ids_split(pre.players@, ii);
            lemma_hands_ids_remove(pre.players@, ii);
            assert(ids_of(reveal_all(hand)) =~= ids_of(hand));
            assert(ids_of(self.discard_pile@) =~= ids_of(pre.discard_pile@) + ids_of(hand));
            lemma_multiset_commutative(ids_of(pre.discard_pile@), ids_of(hand));
            assert(self.cards_multiset() =~= pre.cards_multiset()) by {
                broadcast use group_multiset_axioms;
            }
            // Uniqueness survives removal: the remaining members keep
            // their old positions, before or after the gap.
            assert(conns_distinct(self.players@)) by {
                assert(forall|k2: int|
                    0 <= k2 < ii ==> self.players@[k2] == #[trigger] pre.players@[k2]);
                assert(forall|k2: int|
                    ii <= k2 < self.players@.len() ==> #[trigger] self.players@[k2]
                        == pre.players@[k2 + 1]);
            }
            assert(ids_distinct(self.players@)) by {
                assert(forall|k2: int|
                    0 <= k2 < ii ==> self.players@[k2] == #[trigger] pre.players@[k2]);
                assert(forall|k2: int|
                    ii <= k2 < self.players@.len() ==> #[trigger] self.players@[k2]
                        == pre.players@[k2 + 1]);
            }
        }
        Ok(emptied)
    }
}

/// One step of walking a roster while collecting the everyone-else
/// recipients.
proof fn lemma_conns_except_take_step(players: Seq<Player>, conn: u64, i: int)
    requires
        0 <= i < players.len(),
    ensures
        players[i].conn == conn ==> conns_except(players.take(i + 1), conn) == conns_except(
            players.take(i),
            conn,
        ),
        players[i].conn != conn ==> conns_except(players.take(i + 1), conn) == conns_except(
            players.take(i),
            conn,
        ).push(players[i].conn),
    decreases i,
{
    if i == 0 {
        assert(players.take(1) =~= seq![players[0]]);
        assert(players.take(0) =~= Seq::<Player>::empty());
        assert(seq![players[0]].drop_first() =~= Seq::<Player>::empty());
        if players[0].conn != conn {
            assert(conns_except(players.take(1), conn) =~= conns_except(
                players.take(0),
                conn,
            ).push(players[0].conn));
        }
    } else {
        let t1 = players.take(i + 1);
        let t0 = players.take(i);
        assert(t1[0] == players[0]);
        assert(t0[0] == players[0]);
        assert(t1.drop_first() =~= players.drop_first().take(i));
        assert(t0.drop_first() =~= players.drop_first().take(i - 1));
        assert(players.drop_first()[i - 1] == players[i]);
        lemma_conns_except_take_step(players.drop_first(), conn, i - 1);
        if players[i].conn != conn {
            if players[0].conn != conn {
                assert(conns_except(t1, conn) =~= conns_except(t0, conn).push(players[i].conn));
            }
        }
    }
}

} // verus!
