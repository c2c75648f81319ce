//! What holds of a lobby at all times, and that every request keeps it so.
use crate::game::Action;
use crate::lobby_model::{
    all_but, borrowing, code_drawn, going_on, goes_on, played, room_advanced, room_from, seat_freed,
    selecting, LobbyModel, RoomModel, MAX_SEATS, MIN_SEATS,
};
use crate::net::ClientMsg;
use crate::room::{seat_from, RoomGameModel};
use crate::session::{
    actions_keep_the_session, loan_fits, loans_keep_the_session, matches_open_in_session,
    next_hand_fits, next_hands_keep_the_session, settling_keeps_the_session,
};
use crate::text::{ascii_text, is_white, trimmed, upper_letter, uppercase};
use vstd::prelude::*;

verus! {

/// The game of a room with the given host and members: its match is in session, its table is
/// of a fair size, and its seats belong to members, one each, or to the machine.
pub open spec fn game_ok(g: RoomGameModel, host: u64, members: Seq<u64>) -> bool {
    &&& g.wf()
    &&& g.host == host
    &&& MIN_SEATS <= g.seat_clients.len() <= MAX_SEATS
    &&& forall|i: int|
        0 <= i < g.seat_clients.len() && (#[trigger] g.seat_clients[i]) is Some
            ==> members.contains(g.seat_clients[i]->0)
    &&& forall|i: int, j: int|
        0 <= i < j < g.seat_clients.len() && (#[trigger] g.seat_clients[i]) is Some ==> (
        #[trigger] g.seat_clients[j]) != g.seat_clients[i]
}

/// A room: not empty, not overfull, nobody in it twice, its host among its members.
pub open spec fn room_ok(r: RoomModel) -> bool {
    &&& MIN_SEATS <= r.max_players <= MAX_SEATS
    &&& 0 < r.members.len() <= r.max_players
    &&& r.members.no_duplicates()
    &&& r.members.contains(r.host)
    &&& r.in_game == (r.game is Some)
    &&& match r.game {
        Some(g) => game_ok(g, r.host, r.members),
        None => true,
    }
}

/// No two rooms have the same code.
pub open spec fn codes_differ(rooms: Seq<RoomModel>) -> bool {
    forall|i: int, j: int|
        0 <= i < j < rooms.len() ==> (#[trigger] rooms[i]).code != (#[trigger] rooms[j]).code
}

/// The room at the place has the code and the client.
pub open spec fn lives_at(rooms: Seq<RoomModel>, client: u64, code: Seq<char>, i: int) -> bool {
    0 <= i < rooms.len() && rooms[i].code == code && rooms[i].members.contains(client)
}

/// Some room has the code and the client.
pub open spec fn lives_in(rooms: Seq<RoomModel>, client: u64, code: Seq<char>) -> bool {
    exists|i: int| lives_at(rooms, client, code, i)
}

impl LobbyModel {
    /// A lobby in order: rooms are, their codes differ, and who is said to be in a room is.
    pub open spec fn wf(self) -> bool {
        &&& codes_differ(self.rooms)
        &&& forall|i: int| 0 <= i < self.rooms.len() ==> room_ok(#[trigger] self.rooms[i])
        &&& forall|c: u64|
            (#[trigger] self.code_of(c)) is Some ==> lives_in(self.rooms, c, self.code_of(c)->0)
    }

    /// Every member of a room is connected, and said to be in that room and no other.
    pub open spec fn members_are_connected(self) -> bool {
        forall|i: int, m: u64|
            0 <= i < self.rooms.len() && (#[trigger] self.rooms[i]).members.contains(m)
                ==> #[trigger] self.code_of(m) == Some(self.rooms[i].code)
    }
}

pub(crate) proof fn lemma_room_from(rooms: Seq<RoomModel>, code: Seq<char>, from: int)
    requires
        0 <= from,
    ensures
        match room_from(rooms, code, from) {
            Some(k) => from <= k < rooms.len() && rooms[k].code == code,
            None => forall|k: int| from <= k < rooms.len() ==> (#[trigger] rooms[k]).code != code,
        },
    decreases rooms.len() - from,
{
    if from < rooms.len() {
        lemma_room_from(rooms, code, from + 1);
    }
}

pub(crate) proof fn lemma_seat_from(seats: Seq<Option<u64>>, client: u64, from: int)
    requires
        0 <= from,
    ensures
        match seat_from(seats, client, from) {
            Some(k) => from <= k < seats.len() && seats[k] == Some(client),
            None => forall|k: int| from <= k < seats.len() ==> (#[trigger] seats[k]) != Some(
                client,
            ),
        },
    decreases seats.len() - from,
{
    if from < seats.len() {
        lemma_seat_from(seats, client, from + 1);
    }
}

pub(crate) proof fn lemma_others(members: Seq<u64>, client: u64)
    ensures
        all_but(members, client).len() <= members.len(),
        members.no_duplicates() ==> all_but(members, client).no_duplicates(),
        forall|m: u64|
            #[trigger] all_but(members, client).contains(m) <==> members.contains(m)
                && m != client,
    decreases members.len(),
{
    reveal(Seq::filter);
    let kept = all_but(members, client);
    if members.len() > 0 {
        let rest = members.drop_last();
        let last = members.last();
        lemma_others(rest, client);
        let kept_rest = all_but(rest, client);
        assert(members =~= rest.push(last));
        assert forall|m: u64| #[trigger] kept.contains(m) <==> members.contains(m) && m
            != client by {
            assert(rest.push(last).contains(m) <==> rest.contains(m) || m == last) by {
                if rest.contains(m) {
                    let k = choose|k: int| 0 <= k < rest.len() && rest[k] == m;
                    assert(members[k] == m);
                }
                if m == last {
                    assert(members[members.len() - 1] == m);
                }
            }
            assert(kept_rest.contains(m) <==> rest.contains(m) && m != client);
            if last != client {
                assert(kept == kept_rest.push(last));
                assert(kept_rest.push(last).contains(m) <==> kept_rest.contains(m) || m == last)
                    by {
                    if kept_rest.contains(m) {
                        let k = choose|k: int| 0 <= k < kept_rest.len() && kept_rest[k] == m;
                        assert(kept[k] == m);
                    }
                    if m == last {
                        assert(kept[kept.len() - 1] == m);
                    }
                }
            }
        }
        if members.no_duplicates() {
            assert(rest.no_duplicates());
            assert(!rest.contains(last));
            assert(!kept_rest.contains(last));
        }
    }
}

// ---- Rooms ----

proof fn lemma_seat_freed(g: RoomGameModel, host: u64, members: Seq<u64>, client: u64, next: u64)
    requires
        game_ok(g, host, members),
    ensures
        game_ok(
            RoomGameModel { host: next, ..seat_freed(g, client) },
            next,
            all_but(members, client),
        ),
{
    let left = all_but(members, client);
    lemma_others(members, client);
    lemma_seat_from(g.seat_clients, client, 0);
    let f = seat_freed(g, client);
    assert forall|i: int| 0 <= i < f.seat_clients.len() && (
    #[trigger] f.seat_clients[i]) is Some implies left.contains(f.seat_clients[i]->0) by {
        assert(g.seat_clients[i] is Some);
        assert(members.contains(g.seat_clients[i]->0));
        assert(f.seat_clients[i] != Some(client));
    }
}

proof fn lemma_room_without(r: RoomModel, client: u64)
    requires
        room_ok(r),
        r.others(client).len() > 0,
    ensures
        room_ok(r.without(client)),
{
    let w = r.without(client);
    lemma_others(r.members, client);
    assert(w.members[0] == w.members.first());
    assert(w.members.contains(w.members[0]));
    assert(w.members.contains(w.host));
    if let Some(g) = r.game {
        lemma_seat_freed(g, r.host, r.members, client, w.host);
    }
}

/// Another room at a place, with the same code and with all who are said to be in it.
proof fn lemma_with_room(l: LobbyModel, i: int, r: RoomModel)
    requires
        l.wf(),
        0 <= i < l.rooms.len(),
        room_ok(r),
        r.code == l.rooms[i].code,
        forall|c: u64|
            l.rooms[i].members.contains(c) && (#[trigger] l.code_of(c)) == Some(r.code)
                ==> r.members.contains(c),
    ensures
        l.with_room(i, r).wf(),
{
    let w = l.with_room(i, r);
    assert forall|c: u64| (#[trigger] w.code_of(c)) is Some implies lives_in(
        w.rooms,
        c,
        w.code_of(c)->0,
    ) by {
        assert(l.code_of(c) == w.code_of(c));
        let code = l.code_of(c)->0;
        assert(lives_in(l.rooms, c, code));
        let k = choose|k: int| lives_at(l.rooms, c, code, k);
        assert(lives_at(w.rooms, c, code, k));
    }
}

/// Somebody is said to be in no room any more.
proof fn lemma_gone(l: LobbyModel, client: u64)
    requires
        l.wf(),
    ensures
        l.moved(client, None).wf(),
        l.moved(client, None).code_of(client) is None,
        forall|c: u64| c != client ==> #[trigger] l.moved(client, None).code_of(c) == l.code_of(c),
{
    let gone = l.moved(client, None);
    assert forall|c: u64| (#[trigger] gone.code_of(c)) is Some implies lives_in(
        gone.rooms,
        c,
        gone.code_of(c)->0,
    ) by {
        assert(gone.code_of(c) == l.code_of(c));
        assert(lives_in(l.rooms, c, l.code_of(c)->0));
    }
}

/// The place of a room that a client is said to be in.
pub(crate) proof fn lemma_home(l: LobbyModel, client: u64)
    requires
        l.wf(),
        l.code_of(client) is Some,
    ensures
        match l.place_of(client) {
            Some(i) => lives_at(l.rooms, client, l.code_of(client)->0, i) && room_ok(l.rooms[i]),
            None => false,
        },
{
    let code = l.code_of(client)->0;
    assert(lives_in(l.rooms, client, code));
    let k = choose|k: int| lives_at(l.rooms, client, code, k);
    lemma_room_from(l.rooms, code, 0);
    let i = l.room_at(code)->0;
    if i != k {
        let (a, b) = if i < k {
            (i, k)
        } else {
            (k, i)
        };
        assert(l.rooms[a].code != l.rooms[b].code);
    }
}

/// A lobby stays in order when a client leaves its room.
pub proof fn leaving_keeps_order(l: LobbyModel, client: u64)
    requires
        l.wf(),
    ensures
        l.left(client).wf(),
        l.left(client).code_of(client) is None,
        forall|c: u64| c != client ==> #[trigger] l.left(client).code_of(c) == l.code_of(c),
{
    if l.code_of(client) is Some {
        lemma_home(l, client);
        lemma_gone(l, client);
        let code = l.code_of(client)->0;
        let i = l.room_at(code)->0;
        let gone = l.moved(client, None);
        let r = l.rooms[i].without(client);
        lemma_others(l.rooms[i].members, client);
        let left = l.left(client);
        if r.members.len() > 0 {
            lemma_room_without(l.rooms[i], client);
            lemma_with_room(gone, i, r);
            assert forall|c: u64| #[trigger] left.code_of(c) == gone.code_of(c) by {}
        } else {
            assert(left.rooms =~= l.rooms.remove(i));
            assert forall|c: u64| (#[trigger] left.code_of(c)) is Some implies lives_in(
                left.rooms,
                c,
                left.code_of(c)->0,
            ) by {
                assert(gone.code_of(c) == left.code_of(c));
                let home = gone.code_of(c)->0;
                assert(lives_in(gone.rooms, c, home));
                let k = choose|k: int| lives_at(gone.rooms, c, home, k);
                if k == i {
                    assert(c != client);
                    assert(r.members.contains(c));
                }
                let at = if k < i {
                    k
                } else {
                    k - 1
                };
                assert(lives_at(left.rooms, c, home, at));
            }
            assert forall|a: int| 0 <= a < left.rooms.len() implies room_ok(
                #[trigger] left.rooms[a],
            ) by {
                let at = if a < i {
                    a
                } else {
                    a + 1
                };
                assert(left.rooms[a] == l.rooms[at]);
            }
            assert forall|a: int, b: int| 0 <= a < b < left.rooms.len() implies (
            #[trigger] left.rooms[a]).code != (#[trigger] left.rooms[b]).code by {
                let x = if a < i {
                    a
                } else {
                    a + 1
                };
                let y = if b < i {
                    b
                } else {
                    b + 1
                };
                assert(left.rooms[a] == l.rooms[x]);
                assert(left.rooms[b] == l.rooms[y]);
            }
        }
    }
}

/// A lobby stays in order when a client connects.
pub proof fn connecting_keeps_order(l: LobbyModel, client: u64)
    requires
        l.wf(),
    ensures
        l.connected(client).wf(),
        l.members_are_connected() && !l.conns.dom().contains(client) ==> l.connected(
            client,
        ).members_are_connected(),
{
    let w = l.connected(client);
    assert forall|c: u64| (#[trigger] w.code_of(c)) is Some implies lives_in(
        w.rooms,
        c,
        w.code_of(c)->0,
    ) by {
        assert(w.code_of(c) == l.code_of(c));
    }
    if l.members_are_connected() && !l.conns.dom().contains(client) {
        assert forall|i: int, m: u64|
            0 <= i < w.rooms.len() && (
            #[trigger] w.rooms[i]).members.contains(m) implies #[trigger] w.code_of(m) == Some(
            w.rooms[i].code,
        ) by {
            assert(l.code_of(m) == Some(l.rooms[i].code));
        }
    }
}

/// A lobby stays in order when a client disconnects.
pub proof fn disconnecting_keeps_order(l: LobbyModel, client: u64)
    requires
        l.wf(),
    ensures
        l.disconnected(client).wf(),
{
    leaving_keeps_order(l, client);
    let left = l.left(client);
    let w = l.disconnected(client);
    assert forall|c: u64| (#[trigger] w.code_of(c)) is Some implies lives_in(
        w.rooms,
        c,
        w.code_of(c)->0,
    ) by {
        assert(w.code_of(c) == left.code_of(c));
    }
}

proof fn lemma_same_rooms(a: LobbyModel, b: LobbyModel)
    requires
        a.wf(),
        a.rooms == b.rooms,
        forall|c: u64| #[trigger] b.code_of(c) == a.code_of(c),
    ensures
        b.wf(),
{
    assert forall|c: u64| (#[trigger] b.code_of(c)) is Some implies lives_in(
        b.rooms,
        c,
        b.code_of(c)->0,
    ) by {
        assert(a.code_of(c) == b.code_of(c));
    }
}

/// With the client in the room at a place.
proof fn lemma_moved_in(l: LobbyModel, client: u64, i: int)
    requires
        l.wf(),
        0 <= i < l.rooms.len(),
        l.rooms[i].members.contains(client),
    ensures
        l.moved(client, Some(l.rooms[i].code)).wf(),
{
    let code = l.rooms[i].code;
    let w = l.moved(client, Some(code));
    assert forall|c: u64| (#[trigger] w.code_of(c)) is Some implies lives_in(
        w.rooms,
        c,
        w.code_of(c)->0,
    ) by {
        if c == client {
            assert(lives_at(w.rooms, client, code, i));
        } else {
            assert(w.code_of(c) == l.code_of(c));
        }
    }
}

/// A lobby stays in order when a client asks for a room of its own.
pub proof fn creating_keeps_order(
    l: LobbyModel,
    client: u64,
    name: Seq<char>,
    max_players: int,
    fill_ai: bool,
    nanos: u64,
)
    requires
        l.wf(),
    ensures
        l.created(client, name, max_players, fill_ai, nanos).wf(),
{
    leaving_keeps_order(l, client);
    let left = l.left(client);
    let c1 = left.counted();
    lemma_same_rooms(left, c1);
    let code = c1.code_at(nanos);
    lemma_room_from(c1.rooms, code, 0);
    if c1.room_at(code) is None {
        let r = LobbyModel::room_made(client, code, name, max_players, fill_ai);
        assert(r.members.contains(client)) by {
            assert(r.members[0] == client);
        }
        let pushed = LobbyModel { rooms: c1.rooms.push(r), ..c1 };
        assert(pushed.wf()) by {
            assert forall|c: u64| (#[trigger] pushed.code_of(c)) is Some implies lives_in(
                pushed.rooms,
                c,
                pushed.code_of(c)->0,
            ) by {
                assert(c1.code_of(c) == pushed.code_of(c));
                let home = c1.code_of(c)->0;
                assert(lives_in(c1.rooms, c, home));
                let k = choose|k: int| lives_at(c1.rooms, c, home, k);
                assert(lives_at(pushed.rooms, c, home, k));
            }
        }
        let n = c1.rooms.len() as int;
        assert(pushed.rooms[n] == r);
        lemma_moved_in(pushed, client, n);
        assert(c1.opened(client, r) == pushed.moved(client, Some(code)));
    }
}

/// Where a room is after a client has left its own: the room as it was, or without the client.
proof fn lemma_left_room(l: LobbyModel, client: u64, code: Seq<char>)
    requires
        l.wf(),
        l.left(client).room_at(code) is Some,
    ensures
        l.room_at(code) is Some,
        ({
            let now = l.left(client).rooms[l.left(client).room_at(code)->0];
            let before = l.rooms[l.room_at(code)->0];
            now.code == code && (now == before || now == before.without(client))
        }),
{
    let left = l.left(client);
    lemma_room_from(left.rooms, code, 0);
    lemma_room_from(l.rooms, code, 0);
    let a = left.room_at(code)->0;
    if l.code_of(client) is Some {
        lemma_home(l, client);
        let i = l.room_at(l.code_of(client)->0)->0;
        let r = l.rooms[i].without(client);
        let k = if r.members.len() > 0 {
            a
        } else if a < i {
            a
        } else {
            a + 1
        };
        assert(l.rooms[k].code == code);
        let j = l.room_at(code)->0;
        if j != k {
            let (x, y) = if j < k {
                (j, k)
            } else {
                (k, j)
            };
            assert(l.rooms[x].code != l.rooms[y].code);
        }
    }
}

/// Leaving a room to join it again closes it if nobody else is in it, and only then.
pub(crate) proof fn lemma_closing(l: LobbyModel, client: u64, code: Seq<char>)
    requires
        l.wf(),
        l.refusal(code) is None,
        l.code_of(client) is Some,
    ensures
        l.would_close(client, code) == (l.code_of(client) == Some(code) && l.rooms[l.room_at(
            code,
        )->0].others(client).len() == 0),
{
    lemma_home(l, client);
    lemma_room_from(l.rooms, code, 0);
    let j = l.room_at(code)->0;
    let i = l.place_of(client)->0;
    let left = l.left(client);
    lemma_room_from(left.rooms, code, 0);
    let w = l.rooms[i].without(client);
    if l.code_of(client) == Some(code) {
        assert(i == j);
        if w.members.len() == 0 {
            if left.room_at(code) is Some {
                let a = left.room_at(code)->0;
                let b = if a < i {
                    a
                } else {
                    a + 1
                };
                assert(left.rooms[a] == l.rooms[b]);
                let (x, y) = if i < b {
                    (i, b)
                } else {
                    (b, i)
                };
                assert(l.rooms[x].code != l.rooms[y].code);
            }
        } else {
            assert(left.rooms[i].code == code);
        }
    } else {
        assert(i != j);
        if w.members.len() == 0 {
            let b = if j < i {
                j
            } else {
                j - 1
            };
            assert(left.rooms[b] == l.rooms[j]);
        } else {
            assert(left.rooms[j] == l.rooms[j]);
        }
    }
}

/// A lobby stays in order when a client asks to join a room.
pub proof fn joining_keeps_order(l: LobbyModel, client: u64, code: Seq<char>)
    requires
        l.wf(),
        !l.would_close(client, code),
    ensures
        l.joined(client, code).wf(),
{
    if l.refusal(code) is None {
        leaving_keeps_order(l, client);
        lemma_left_room(l, client, code);
        let left = l.left(client);
        let i = left.room_at(code)->0;
        lemma_room_from(left.rooms, code, 0);
        lemma_room_from(l.rooms, code, 0);
        let before = l.rooms[l.room_at(code)->0];
        let now = left.rooms[i];
        assert(room_ok(now));
        lemma_others(before.members, client);
        assert(now.members.len() < now.max_players);
        assert(now.game is None);
        let r = now.with(client);
        assert(room_ok(r)) by {
            lemma_with_member(now.members, client);
        }
        lemma_with_member(now.members, client);
        lemma_with_room(left, i, r);
        let w = left.with_room(i, r);
        assert(w.rooms[i] == r);
        lemma_moved_in(w, client, i);
    }
}

proof fn lemma_with_member(members: Seq<u64>, client: u64)
    requires
        members.no_duplicates(),
    ensures
        members.push(client).contains(client),
        forall|m: u64| members.contains(m) ==> #[trigger] members.push(client).contains(m),
        !members.contains(client) ==> members.push(client).no_duplicates(),
{
    let all = members.push(client);
    assert(all[members.len() as int] == client);
    assert forall|m: u64| members.contains(m) implies #[trigger] all.contains(m) by {
        let k = choose|k: int| 0 <= k < members.len() && members[k] == m;
        assert(all[k] == m);
    }
}

// ---- Games ----

/// The new game of a room is in order.
pub(crate) proof fn lemma_game_made(l: LobbyModel, r: RoomModel, seed: u64)
    requires
        room_ok(r),
    ensures
        game_ok(l.game_made(r, seed), r.host, r.members),
        MIN_SEATS <= LobbyModel::seats_for(r) <= MAX_SEATS,
        r.members.len() <= LobbyModel::seats_for(r),
{
    let defs = l.seat_defs(r);
    let g = l.game_made(r, seed);
    matches_open_in_session(defs, seed);
    assert(g.mtch.seats.len() == defs.len());
    assert forall|i: int| 0 <= i < g.seat_clients.len() && (
    #[trigger] g.seat_clients[i]) is Some implies r.members.contains(g.seat_clients[i]->0) by {
        assert(g.seat_clients[i]->0 == r.members[i]);
    }
    assert forall|i: int, j: int|
        0 <= i < j < g.seat_clients.len() && (#[trigger] g.seat_clients[i]) is Some implies (
    #[trigger] g.seat_clients[j]) != g.seat_clients[i] by {
        if j < r.members.len() {
            assert(r.members[i] != r.members[j]);
        }
    }
}

/// A lobby stays in order when a client asks to start the game.
pub proof fn starting_keeps_order(l: LobbyModel, client: u64, seed: u64)
    requires
        l.wf(),
    ensures
        l.started(client, seed).wf(),
{
    if l.code_of(client) is Some {
        lemma_home(l, client);
        let i = l.place_of(client)->0;
        if l.can_start(client, i) {
            let r = l.rooms[i];
            lemma_game_made(l, r, seed);
            lemma_with_room(
                l,
                i,
                RoomModel { game: Some(l.game_made(r, seed)), in_game: true, ..r },
            );
        }
    }
}

/// A lobby stays in order when the game of a room becomes another one in order.
proof fn lemma_with_game(l: LobbyModel, i: int, g: RoomGameModel)
    requires
        l.wf(),
        0 <= i < l.rooms.len(),
        l.rooms[i].game is Some,
        game_ok(g, l.rooms[i].host, l.rooms[i].members),
    ensures
        l.with_game(i, g).wf(),
{
    lemma_with_room(l, i, RoomModel { game: Some(g), ..l.rooms[i] });
}

/// The place and the game of a client who plays.
pub(crate) proof fn lemma_playing(l: LobbyModel, client: u64)
    requires
        l.wf(),
        l.playing_at(client) is Some,
    ensures
        ({
            let i = l.playing_at(client)->0;
            0 <= i < l.rooms.len() && room_ok(l.rooms[i]) && l.rooms[i].game is Some && game_ok(
                l.rooms[i].game->0,
                l.rooms[i].host,
                l.rooms[i].members,
            )
        }),
{
    lemma_home(l, client);
}

pub(crate) proof fn lemma_played(g: RoomGameModel, action: Action)
    requires
        g.wf(),
        g.mtch.hand.rejection(action) is None,
    ensures
        played(g, action).wf(),
{
    actions_keep_the_session(g.mtch, action);
}

pub(crate) proof fn lemma_borrowing(g: RoomGameModel, client: u64)
    requires
        g.wf(),
        match g.seat_of(client) {
            Some(seat) => loan_fits(g.mtch, seat),
            None => true,
        },
    ensures
        borrowing(g, client).wf(),
{
    if let Some(seat) = g.seat_of(client) {
        loans_keep_the_session(g.mtch, seat);
    }
}

pub(crate) proof fn lemma_going_on(g: RoomGameModel, client: u64)
    requires
        g.wf(),
        goes_on(g, client) ==> next_hand_fits(g.mtch),
    ensures
        going_on(g, client).wf(),
{
    if goes_on(g, client) {
        next_hands_keep_the_session(g.mtch);
    }
}

/// A game stays in order as time passes.
pub proof fn time_keeps_games_in_order(g: RoomGameModel, dt: u64)
    requires
        g.wf(),
        g.advance_fits(),
    ensures
        g.advanced(dt).0.wf(),
        g.advanced(dt).0.seat_clients == g.seat_clients,
        g.advanced(dt).0.host == g.host,
{
    let hand = g.mtch.hand;
    if !g.mtch.over() {
        let action = crate::ai::decision(hand, hand.to_act);
        if hand.rejection(action) is None {
            actions_keep_the_session(g.mtch, action);
        }
    } else if !g.settled {
        settling_keeps_the_session(g.mtch, g.picks());
    }
}

pub(crate) proof fn lemma_rooms_advanced(l: LobbyModel, dt: u64, n: int)
    requires
        0 <= n <= l.rooms.len(),
    ensures
        l.rooms_advanced(dt, n).len() == n,
        forall|i: int|
            0 <= i < n ==> #[trigger] l.rooms_advanced(dt, n)[i] == room_advanced(l.rooms[i], dt),
    decreases n,
{
    if n > 0 {
        lemma_rooms_advanced(l, dt, n - 1);
    }
}

/// A lobby stays in order as time passes.
pub proof fn time_keeps_order(l: LobbyModel, dt: u64)
    requires
        l.wf(),
        l.tick_fits(),
    ensures
        l.ticked(dt).wf(),
{
    let w = l.ticked(dt);
    lemma_rooms_advanced(l, dt, l.rooms.len() as int);
    assert forall|i: int| 0 <= i < w.rooms.len() implies room_ok(#[trigger] w.rooms[i]) by {
        assert(room_ok(l.rooms[i]));
        if let Some(g) = l.rooms[i].game {
            time_keeps_games_in_order(g, dt);
        }
    }
    assert forall|i: int, j: int| 0 <= i < j < w.rooms.len() implies (#[trigger] w.rooms[i]).code
        != (#[trigger] w.rooms[j]).code by {
        assert(l.rooms[i].code != l.rooms[j].code);
    }
    assert forall|c: u64| (#[trigger] w.code_of(c)) is Some implies lives_in(
        w.rooms,
        c,
        w.code_of(c)->0,
    ) by {
        assert(l.code_of(c) == w.code_of(c));
        let home = l.code_of(c)->0;
        assert(lives_in(l.rooms, c, home));
        let k = choose|k: int| lives_at(l.rooms, c, home, k);
        assert(lives_at(w.rooms, c, home, k));
    }
}

/// A lobby stays in order when a client sends an action.
pub proof fn acting_keeps_order(l: LobbyModel, client: u64, action: Action)
    requires
        l.wf(),
    ensures
        l.acted(client, action).wf(),
{
    if l.action_counts(client, action) {
        lemma_playing(l, client);
        let i = l.playing_at(client)->0;
        lemma_played(l.rooms[i].game->0, action);
        lemma_with_game(l, i, played(l.rooms[i].game->0, action));
    }
}

/// A lobby stays in order when a client picks community cards.
pub proof fn picking_keeps_order(l: LobbyModel, client: u64, picks: [usize; 3])
    requires
        l.wf(),
    ensures
        l.replayed(client, |g: RoomGameModel| selecting(g, client, picks)).wf(),
{
    if l.playing_at(client) is Some {
        lemma_playing(l, client);
        let i = l.playing_at(client)->0;
        let g = l.rooms[i].game->0;
        lemma_seat_from(g.seat_clients, client, 0);
        lemma_with_game(l, i, selecting(g, client, picks));
    }
}

/// A lobby stays in order when a client borrows.
pub proof fn lending_keeps_order(l: LobbyModel, client: u64)
    requires
        l.wf(),
        l.borrow_fits(client),
    ensures
        l.replayed(client, |g: RoomGameModel| borrowing(g, client)).wf(),
{
    if l.playing_at(client) is Some {
        lemma_playing(l, client);
        let i = l.playing_at(client)->0;
        lemma_borrowing(l.rooms[i].game->0, client);
        lemma_with_game(l, i, borrowing(l.rooms[i].game->0, client));
    }
}

/// A lobby stays in order when a client asks for the next hand.
pub proof fn going_on_keeps_order(l: LobbyModel, client: u64)
    requires
        l.wf(),
        l.next_fits(client),
    ensures
        l.replayed(client, |g: RoomGameModel| going_on(g, client)).wf(),
{
    if l.playing_at(client) is Some {
        lemma_playing(l, client);
        let i = l.playing_at(client)->0;
        lemma_going_on(l.rooms[i].game->0, client);
        lemma_with_game(l, i, going_on(l.rooms[i].game->0, client));
    }
}

/// Every request that can be carried out leaves the lobby in order.
pub proof fn requests_keep_order(l: LobbyModel, client: u64, msg: ClientMsg, nanos: u64)
    requires
        l.wf(),
        l.fits(client, msg),
    ensures
        l.answered(client, msg, nanos).wf(),
{
    match msg {
        ClientMsg::Hello { name } => {
            lemma_same_rooms(l, l.named(client, name@));
        },
        ClientMsg::CreateRoom { room_name, max_players, fill_ai } => {
            creating_keeps_order(l, client, room_name@, max_players as int, fill_ai, nanos);
        },
        ClientMsg::ListRooms => {},
        ClientMsg::JoinRoom { code } => {
            joining_keeps_order(l, client, uppercase(trimmed(code@)));
        },
        ClientMsg::LeaveRoom => {
            leaving_keeps_order(l, client);
        },
        ClientMsg::StartGame => {
            starting_keeps_order(l, client, crate::lobby_model::seed_at(nanos));
        },
        ClientMsg::Act { action } => {
            acting_keeps_order(l, client, action);
        },
        ClientMsg::SelectCards { picks } => {
            picking_keeps_order(l, client, picks);
        },
        ClientMsg::Borrow => {
            lending_keeps_order(l, client);
        },
        ClientMsg::NextHand => {
            going_on_keeps_order(l, client);
        },
    }
}

// ---- Membership ----

proof fn lemma_leaving_keeps_members(l: LobbyModel, client: u64)
    requires
        l.wf(),
        l.members_are_connected(),
    ensures
        l.left(client).members_are_connected(),
        forall|i: int|
            0 <= i < l.left(client).rooms.len() ==> !(
            #[trigger] l.left(client).rooms[i]).members.contains(client),
{
    leaving_keeps_order(l, client);
    let left = l.left(client);
    if l.code_of(client) is Some {
        lemma_home(l, client);
        let i = l.place_of(client)->0;
        let r = l.rooms[i].without(client);
        lemma_others(l.rooms[i].members, client);
        assert forall|a: int, m: u64|
            0 <= a < left.rooms.len() && (
            #[trigger] left.rooms[a]).members.contains(m) implies #[trigger] left.code_of(m)
            == Some(left.rooms[a].code) && m != client by {
            let k = if r.members.len() > 0 || a < i {
                a
            } else {
                a + 1
            };
            assert(l.rooms[k].members.contains(m));
            assert(l.code_of(m) == Some(l.rooms[k].code));
            if m == client {
                assert(k != i);
                let (x, y) = if i < k {
                    (i, k)
                } else {
                    (k, i)
                };
                assert(l.rooms[x].code != l.rooms[y].code);
            }
        }
    } else {
        assert forall|a: int|
            0 <= a < left.rooms.len() implies !(
        #[trigger] left.rooms[a]).members.contains(client) by {
            if l.rooms[a].members.contains(client) {
                assert(l.code_of(client) == Some(l.rooms[a].code));
            }
        }
    }
}

proof fn lemma_members_moved_in(l: LobbyModel, client: u64, i: int)
    requires
        codes_differ(l.rooms),
        0 <= i < l.rooms.len(),
        l.conns.dom().contains(client),
        forall|a: int, m: u64|
            0 <= a < l.rooms.len() && m != client && (
            #[trigger] l.rooms[a]).members.contains(m) ==> #[trigger] l.code_of(m) == Some(
                l.rooms[a].code,
            ),
        forall|a: int|
            0 <= a < l.rooms.len() && a != i ==> !(#[trigger] l.rooms[a]).members.contains(client),
    ensures
        l.moved(client, Some(l.rooms[i].code)).members_are_connected(),
{
    let w = l.moved(client, Some(l.rooms[i].code));
    assert forall|a: int, m: u64|
        0 <= a < w.rooms.len() && (
        #[trigger] w.rooms[a]).members.contains(m) implies #[trigger] w.code_of(m) == Some(
        w.rooms[a].code,
    ) by {
        if m != client {
            assert(l.code_of(m) == Some(l.rooms[a].code));
            assert(w.code_of(m) == l.code_of(m));
        } else if a != i {
            assert(!l.rooms[a].members.contains(client));
        }
    }
}

proof fn lemma_members_same(a: LobbyModel, b: LobbyModel)
    requires
        a.members_are_connected(),
        a.rooms.len() == b.rooms.len(),
        forall|i: int|
            0 <= i < a.rooms.len() ==> (#[trigger] b.rooms[i]).members == a.rooms[i].members
                && b.rooms[i].code == a.rooms[i].code,
        forall|c: u64| #[trigger] b.code_of(c) == a.code_of(c),
    ensures
        b.members_are_connected(),
{
    assert forall|i: int, m: u64|
        0 <= i < b.rooms.len() && (
        #[trigger] b.rooms[i]).members.contains(m) implies #[trigger] b.code_of(m) == Some(
        b.rooms[i].code,
    ) by {
        assert(a.rooms[i].members.contains(m));
        assert(a.code_of(m) == Some(a.rooms[i].code));
    }
}

/// As long as only connected clients send requests, every member of a room is connected and in
/// no other room.
pub proof fn requests_keep_members_connected(
    l: LobbyModel,
    client: u64,
    msg: ClientMsg,
    nanos: u64,
)
    requires
        l.wf(),
        l.fits(client, msg),
        l.members_are_connected(),
        l.conns.dom().contains(client),
    ensures
        l.answered(client, msg, nanos).members_are_connected(),
{
    requests_keep_order(l, client, msg, nanos);
    let after = l.answered(client, msg, nanos);
    match msg {
        ClientMsg::CreateRoom { room_name, max_players, fill_ai } => {
            lemma_leaving_keeps_members(l, client);
            leaving_keeps_order(l, client);
            let left = l.left(client);
            let c1 = left.counted();
            lemma_members_same(left, c1);
            let code = c1.code_at(nanos);
            lemma_room_from(c1.rooms, code, 0);
            if c1.room_at(code) is None {
                let r = LobbyModel::room_made(
                    client,
                    code,
                    room_name@,
                    max_players as int,
                    fill_ai,
                );
                let n = c1.rooms.len() as int;
                let pushed = LobbyModel { rooms: c1.rooms.push(r), ..c1 };
                assert forall|a: int, m: u64|
                    0 <= a < pushed.rooms.len() && m != client && (
                    #[trigger] pushed.rooms[a]).members.contains(
                        m,
                    ) implies #[trigger] pushed.code_of(m) == Some(pushed.rooms[a].code) by {
                    if a < n {
                        assert(c1.rooms[a].members.contains(m));
                        assert(c1.code_of(m) == Some(c1.rooms[a].code));
                    }
                }
                assert(pushed.rooms[n] == r);
                lemma_members_moved_in(pushed, client, n);
                assert(after == pushed.moved(client, Some(code)));
            }
        },
        ClientMsg::JoinRoom { code } => {
            let code = uppercase(trimmed(code@));
            if l.refusal(code) is None {
                lemma_leaving_keeps_members(l, client);
                leaving_keeps_order(l, client);
                let left = l.left(client);
                let i = left.room_at(code)->0;
                lemma_room_from(left.rooms, code, 0);
                let r = left.rooms[i].with(client);
                let w = left.with_room(i, r);
                assert forall|a: int, m: u64|
                    0 <= a < w.rooms.len() && m != client && (
                    #[trigger] w.rooms[a]).members.contains(m) implies #[trigger] w.code_of(m)
                    == Some(w.rooms[a].code) by {
                    if a == i && !left.rooms[i].members.contains(m) {
                        let k = choose|k: int| 0 <= k < r.members.len() && r.members[k] == m;
                        assert(k < left.rooms[i].members.len());
                        assert(left.rooms[i].members[k] == m);
                    }
                    assert(left.rooms[a].members.contains(m));
                    assert(left.code_of(m) == Some(left.rooms[a].code));
                }
                lemma_members_moved_in(w, client, i);
            }
        },
        ClientMsg::LeaveRoom => {
            lemma_leaving_keeps_members(l, client);
        },
        ClientMsg::StartGame => {
            if l.code_of(client) is Some {
                lemma_home(l, client);
            }
            lemma_members_same(l, after);
        },
        ClientMsg::Act { .. }
        | ClientMsg::SelectCards { .. }
        | ClientMsg::Borrow
        | ClientMsg::NextHand => {
            if l.playing_at(client) is Some {
                lemma_playing(l, client);
            }
            lemma_members_same(l, after);
        },
        ClientMsg::Hello { .. } | ClientMsg::ListRooms => {
            lemma_members_same(l, after);
        },
    }
}

/// Whoever leaves a running game is replaced by the machine: no seat is left to the client, and
/// every other seat is as it was.
pub proof fn the_machine_takes_over(l: LobbyModel, client: u64)
    requires
        l.wf(),
        l.playing_at(client) is Some,
    ensures
        ({
            let before = l.rooms[l.playing_at(client)->0].game->0;
            let after = seat_freed(before, client);
            &&& after.seat_of(client) is None
            &&& after.mtch == before.mtch
            &&& forall|i: int|
                0 <= i < before.seat_clients.len() && before.seat_clients[i] != Some(client)
                    ==> #[trigger] after.seat_clients[i] == before.seat_clients[i]
        }),
{
    lemma_playing(l, client);
    let before = l.rooms[l.playing_at(client)->0].game->0;
    let after = seat_freed(before, client);
    lemma_seat_from(before.seat_clients, client, 0);
    lemma_seat_from(after.seat_clients, client, 0);
}

/// A code is looked up as it was drawn: neither trimming nor upper case changes it.
pub proof fn codes_are_looked_up_as_drawn(state: u64)
    ensures
        trimmed(code_drawn(state)) == code_drawn(state),
        ascii_text(code_drawn(state)),
        code_drawn(state).map_values(|c: char| upper_letter(c)) == code_drawn(state),
{
    let code = code_drawn(state);
    assert forall|i: int| 0 <= i < 4 implies 'A' <= #[trigger] code[i] <= 'Z' by {}
    assert(!is_white(code[0]));
    assert(!is_white(code[3]));
    assert(code.map_values(|c: char| upper_letter(c)) =~= code);
}

} // verus!
