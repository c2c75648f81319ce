//! What the clients of a server can rely on: who may do what, and that games go on.
use crate::ai::{decision, decisions_are_legal};
use crate::game::Action;
use crate::game_laws::{closer_to_the_end, every_action_leads_to_the_end, has_a_turn};
use crate::lobby_laws::{
    joining_keeps_order, leaving_keeps_order, lemma_home, lemma_others, lemma_playing,
    lemma_room_from, lives_at, lives_in, room_ok,
};
use crate::lobby_model::{going_on, goes_on, room_list, LobbyModel, RoomModel};
use crate::net::{ClientMsg, LetterModel, ServerMsgModel};
use crate::playable::playable_hands_can_be_decided;
use crate::room::{RoomGameModel, AI_DELAY, SELECT_TIMEOUT};
use vstd::prelude::*;

verus! {

// ---- Rooms ----

proof fn lemma_listed(rooms: Seq<RoomModel>, n: int, k: int) -> (i: int)
    requires
        0 <= n <= rooms.len(),
        0 <= k < room_list(rooms, n).len(),
    ensures
        0 <= i < n,
        rooms[i].is_listed(),
        room_list(rooms, n)[k] == rooms[i].listed(),
    decreases n,
{
    let rest = room_list(rooms, n - 1);
    if k < rest.len() {
        lemma_listed(rooms, n - 1, k)
    } else {
        n - 1
    }
}

/// Every room that is listed can be joined.
pub proof fn listed_rooms_can_be_joined(l: LobbyModel, k: int)
    requires
        l.wf(),
        0 <= k < room_list(l.rooms, l.rooms.len() as int).len(),
    ensures
        l.refusal(room_list(l.rooms, l.rooms.len() as int)[k].code) is None,
{
    let i = lemma_listed(l.rooms, l.rooms.len() as int, k);
    let code = l.rooms[i].code;
    lemma_room_from(l.rooms, code, 0);
    let j = l.room_at(code)->0;
    if i < j {
        assert(l.rooms[i].code != l.rooms[j].code);
    } else if j < i {
        assert(l.rooms[j].code != l.rooms[i].code);
    }
}

/// A refused join changes nothing, and is answered with its reason and nothing else.
pub proof fn refused_joins_change_nothing(l: LobbyModel, client: u64, code: Seq<char>)
    requires
        l.refusal(code) is Some,
    ensures
        l.joined(client, code) == l,
        l.joined_letters(client, code) == seq![
            LetterModel {
                to: client,
                msg: ServerMsgModel::Error { text: l.refusal(code)->0 },
            },
        ],
{
}

/// A connected client who joins a room is in it, and nobody else moves.
pub proof fn who_joins_is_in_the_room(l: LobbyModel, client: u64, code: Seq<char>)
    requires
        l.wf(),
        l.conns.dom().contains(client),
        l.refusal(code) is None,
        !l.would_close(client, code),
    ensures
        l.joined(client, code).code_of(client) == Some(code),
        lives_in(l.joined(client, code).rooms, client, code),
        forall|c: u64|
            c != client ==> #[trigger] l.joined(client, code).code_of(c) == l.code_of(c),
{
    let after = l.joined(client, code);
    joining_keeps_order(l, client, code);
    leaving_keeps_order(l, client);
    assert(l.left(client).conns.dom().contains(client));
    assert(after.code_of(client) is Some);
    assert forall|c: u64| c != client implies #[trigger] after.code_of(c) == l.code_of(c) by {
        assert(l.left(client).code_of(c) == l.code_of(c));
    }
}

/// A client who leaves is a member of no room any more.
pub proof fn who_leaves_is_in_no_room(l: LobbyModel, client: u64)
    requires
        l.wf(),
        l.members_are_connected(),
    ensures
        l.left(client).code_of(client) is None,
        forall|i: int|
            0 <= i < l.left(client).rooms.len() ==> !(
            #[trigger] l.left(client).rooms[i]).members.contains(client),
{
    let after = l.left(client);
    leaving_keeps_order(l, client);
    assert forall|i: int| 0 <= i < after.rooms.len() implies !(
    #[trigger] after.rooms[i]).members.contains(client) by {
        if l.code_of(client) is Some {
            lemma_home(l, client);
            let code = l.code_of(client)->0;
            let home = l.room_at(code)->0;
            let r = l.rooms[home].without(client);
            lemma_others(l.rooms[home].members, client);
            if r.members.len() == 0 {
                let at = if i < home {
                    i
                } else {
                    i + 1
                };
                assert(after.rooms[i] == l.rooms[at]);
                lemma_one_home(l, client, home, at);
            } else if i != home {
                assert(after.rooms[i] == l.rooms[i]);
                lemma_one_home(l, client, home, i);
            } else {
                assert(after.rooms[i] == r);
            }
        } else {
            assert(after == l);
            if l.rooms[i].members.contains(client) {
                assert(l.code_of(client) == Some(l.rooms[i].code));
            }
        }
    }
}

proof fn lemma_one_home(l: LobbyModel, client: u64, home: int, other: int)
    requires
        l.wf(),
        l.members_are_connected(),
        l.code_of(client) is Some,
        lives_at(l.rooms, client, l.code_of(client)->0, home),
        0 <= other < l.rooms.len(),
        other != home,
    ensures
        !l.rooms[other].members.contains(client),
{
    if l.rooms[other].members.contains(client) {
        assert(l.code_of(client) == Some(l.rooms[other].code));
        if other < home {
            assert(l.rooms[other].code != l.rooms[home].code);
        } else {
            assert(l.rooms[home].code != l.rooms[other].code);
        }
    }
}

// ---- Games ----

/// Only the host starts the game of a room: another member is refused with the reason.
pub proof fn only_the_host_starts(l: LobbyModel, client: u64, seed: u64)
    requires
        l.place_of(client) is Some,
        l.rooms[l.place_of(client)->0].host != client,
    ensures
        l.started(client, seed) == l,
        l.started_letters(client, seed) == seq![
            LetterModel {
                to: client,
                msg: ServerMsgModel::Error { text: "只有房主能开始游戏"@ },
            },
        ],
{
}

/// A game that is filled up has as many seats as the room allows, and every member sits in the
/// seat of the member's turn in the room.
pub proof fn games_seat_everyone(l: LobbyModel, r: RoomModel, seed: u64)
    requires
        room_ok(r),
    ensures
        r.fill_ai ==> l.game_made(r, seed).seat_clients.len() == r.max_players,
        r.members.len() <= l.game_made(r, seed).seat_clients.len(),
        forall|i: int|
            0 <= i < r.members.len() ==> #[trigger] l.game_made(r, seed).seat_clients[i] == Some(
                r.members[i],
            ),
        forall|i: int|
            r.members.len() <= i < l.game_made(r, seed).seat_clients.len()
                ==> #[trigger] l.game_made(r, seed).seat_clients[i] is None,
{
}

/// An action of a client whose turn it is not, or that the rules refuse, changes nothing and is
/// not answered.
pub proof fn only_the_seat_in_turn_acts(l: LobbyModel, client: u64, action: Action, nanos: u64)
    requires
        match l.playing_at(client) {
            Some(i) => {
                let g = l.rooms[i].game->0;
                g.client_to_act() != Some(client) || g.mtch.over() || g.mtch.hand.rejection(
                    action,
                ) is Some
            },
            None => true,
        },
    ensures
        l.answered(client, ClientMsg::Act { action }, nanos) == l,
        l.answers(client, ClientMsg::Act { action }, nanos) == Seq::<LetterModel>::empty(),
{
}

/// Only the host goes on to the next hand, and only once this one is settled: any other request
/// for it changes nothing.
pub proof fn only_the_host_goes_on(l: LobbyModel, client: u64, nanos: u64)
    requires
        l.wf(),
        match l.playing_at(client) {
            Some(i) => client != l.rooms[i].host || !(l.rooms[i].game->0).settled,
            None => true,
        },
    ensures
        l.answered(client, ClientMsg::NextHand, nanos) == l,
{
    if l.playing_at(client) is Some {
        lemma_playing(l, client);
        let i = l.playing_at(client)->0;
        let g = l.rooms[i].game->0;
        assert(!goes_on(g, client));
        assert(going_on(g, client) == g);
        assert(l.with_game(i, g).rooms =~= l.rooms);
    }
}

/// A game never waits for the machine: where a seat of the machine has to act and the time for
/// it has passed, it acts, and the hand comes closer to its end.
pub proof fn the_machine_never_stalls(g: RoomGameModel, dt: u64)
    requires
        g.wf(),
        !g.mtch.over(),
        has_a_turn(g.mtch.hand),
        g.client_to_act() is None,
        dt >= AI_DELAY,
    ensures
        g.advanced(dt).1,
        closer_to_the_end(g.mtch.hand, g.advanced(dt).0.mtch.hand),
        has_a_turn(g.advanced(dt).0.mtch.hand),
{
    let hand = g.mtch.hand;
    playable_hands_can_be_decided(hand, hand.to_act);
    decisions_are_legal(hand);
    every_action_leads_to_the_end(hand, decision(hand, hand.to_act));
}

/// A showdown never waits for ever: it is settled at once when every client in the hand has
/// picked, and at the latest when the time for picks has passed.
pub proof fn showdowns_are_settled(g: RoomGameModel, dt: u64)
    requires
        g.wf(),
        g.mtch.over(),
        !g.settled,
        g.all_selected() || dt >= SELECT_TIMEOUT,
    ensures
        g.advanced(dt).1,
        g.advanced(dt).0.settled,
        g.advanced(dt).0.mtch.settled,
        g.advanced(dt).0.mtch == g.mtch.after_settling(g.picks()),
{
}

} // verus!
