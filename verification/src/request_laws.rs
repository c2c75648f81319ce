//! What holds of the requests of clients: what each does to the rooms and games of a server, and
//! who hears of it.
use crate::ai::decision;
use crate::game::Action;
use crate::lobby_laws::{lemma_room_from, lemma_seat_from};
use crate::lobby_model::{all_but, presentable, room_list, LobbyModel, RoomModel};
use crate::net::{ClientMsg, LetterModel, ServerMsgModel};
use crate::player::PlayerStatus;
use crate::room::RoomGameModel;
use crate::text::{is_control_code, trimmed};
use vstd::prelude::*;

verus! {

// ---- Terms ----

/// The client is connected, and its room is the one at place `i`.
pub open spec fn is_in_room(l: LobbyModel, client: u64, i: int) -> bool {
    &&& l.wf()
    &&& 0 <= i < l.rooms.len()
    &&& l.conns.dom().contains(client)
    &&& l.conns[client].room == Some(l.rooms[i].code)
}

/// The client is in the room at place `i`, whose game is `g`.
pub open spec fn is_in_game(l: LobbyModel, client: u64, i: int, g: RoomGameModel) -> bool {
    is_in_room(l, client, i) && l.rooms[i].game == Some(g)
}

/// The client sits in seat `k` of the game, and in none before it.
pub open spec fn sits_at(g: RoomGameModel, client: u64, k: int) -> bool {
    &&& 0 <= k < g.seat_clients.len()
    &&& g.seat_clients[k] == Some(client)
    &&& forall|j: int| 0 <= j < k ==> (#[trigger] g.seat_clients[j]) != Some(client)
}

/// From `l` to `after` the game of the room at place `i` becomes `g`, and nothing else changes.
pub open spec fn only_the_game_changes(
    l: LobbyModel,
    after: LobbyModel,
    i: int,
    g: RoomGameModel,
) -> bool {
    &&& after.conns == l.conns
    &&& after.seq == l.seq
    &&& after.rooms.len() == l.rooms.len()
    &&& forall|k: int| 0 <= k < l.rooms.len() && k != i ==> #[trigger] after.rooms[k] == l.rooms[k]
    &&& after.rooms[i] == (RoomModel { game: Some(g), ..l.rooms[i] })
}

/// One letter goes to each member of the room, in the order in which they came, and shows the
/// table of the game as that member may see it.
pub open spec fn all_see_the_table(
    letters: Seq<LetterModel>,
    members: Seq<u64>,
    g: RoomGameModel,
) -> bool {
    &&& letters.len() == members.len()
    &&& forall|k: int|
        0 <= k < members.len() ==> #[trigger] letters[k] == (LetterModel {
            to: members[k],
            msg: ServerMsgModel::View { view: g.shown_to(members[k]) },
        })
}

// ---- Helpers ----

proof fn lemma_one_room(l: LobbyModel, i: int)
    requires
        l.wf(),
        0 <= i < l.rooms.len(),
    ensures
        l.room_at(l.rooms[i].code) == Some(i),
{
    let code = l.rooms[i].code;
    lemma_room_from(l.rooms, code, 0);
    let j = l.room_at(code)->0;
    if i < j {
        assert(l.rooms[i].code != l.rooms[j].code);
    } else if j < i {
        assert(l.rooms[j].code != l.rooms[i].code);
    }
}

pub(crate) proof fn lemma_sits_from(seats: Seq<Option<u64>>, client: u64, from: int, k: int)
    requires
        0 <= from <= k < seats.len(),
        seats[k] == Some(client),
        forall|j: int| 0 <= j < k ==> (#[trigger] seats[j]) != Some(client),
    ensures
        crate::room::seat_from(seats, client, from) == Some(k),
    decreases k - from,
{
    if from < k {
        assert(seats[from] != Some(client));
        lemma_sits_from(seats, client, from + 1, k);
    }
}

proof fn lemma_who_stays(members: Seq<u64>, client: u64)
    ensures
        all_but(members, client) == members.filter(|m: u64| m != client),
    decreases members.len(),
{
    reveal(Seq::filter);
    if members.len() > 0 {
        lemma_who_stays(members.drop_last(), client);
    }
}

// ---- Playing ----

/// An action counts exactly when it comes from the client at the seat in turn, while betting goes
/// on, and the rules accept it. It is then played and everyone at the table sees it; else nothing
/// happens and nobody hears of it.
pub proof fn actions_of_the_seat_in_turn_count(
    l: LobbyModel,
    client: u64,
    action: Action,
    nanos: u64,
    i: int,
    g: RoomGameModel,
)
    requires
        is_in_game(l, client, i, g),
        0 <= g.mtch.hand.to_act < g.seat_clients.len(),
    ensures
        ({
            let msg = ClientMsg::Act { action };
            let after = l.answered(client, msg, nanos);
            let letters = l.answers(client, msg, nanos);
            let counts = g.seat_clients[g.mtch.hand.to_act] == Some(client)
                && g.mtch.hand.rejection(action) is None;
            &&& !counts ==> after == l && letters.len() == 0
            &&& counts ==> (after.rooms[i].game matches Some(now) && {
                &&& only_the_game_changes(l, after, i, now)
                &&& all_see_the_table(letters, l.rooms[i].members, now)
                &&& now.mtch.hand == g.mtch.hand.after(action)
                &&& now.ai_timer == 0
                &&& now.mtch.seats == g.mtch.seats
                &&& now.selections == g.selections
                &&& now.seat_clients == g.seat_clients
                &&& now.settled == g.settled
            })
        }),
{
    lemma_one_room(l, i);
    let msg = ClientMsg::Act { action };
    let after = l.answered(client, msg, nanos);
    if l.action_counts(client, action) {
        assert(after.place_of(client) == Some(i)) by {
            crate::lobby_laws::acting_keeps_order(l, client, action);
            lemma_one_room(after, i);
        }
    }
}

/// A pick counts exactly when betting is over, the hand is not settled, the player has not folded
/// and all three cards lie open. It is then kept at the client's seat, and at no other.
pub proof fn picks_are_kept_at_the_seat(
    l: LobbyModel,
    client: u64,
    picks: [usize; 3],
    nanos: u64,
    i: int,
    g: RoomGameModel,
    seat: int,
)
    requires
        is_in_game(l, client, i, g),
        sits_at(g, client, seat),
    ensures
        ({
            let msg = ClientMsg::SelectCards { picks };
            let after = l.answered(client, msg, nanos);
            let open = g.mtch.hand.community.len();
            let counts = g.mtch.over() && !g.settled && g.mtch.hand.players[seat].status
                != PlayerStatus::Folded && picks@[0] < open && picks@[1] < open && picks@[2] < open;
            &&& after.rooms[i].game matches Some(now) && {
                &&& only_the_game_changes(l, after, i, now)
                &&& all_see_the_table(l.answers(client, msg, nanos), l.rooms[i].members, now)
                &&& now == (RoomGameModel { selections: now.selections, ..g })
                &&& !counts ==> now.selections == g.selections
                &&& counts ==> {
                    &&& now.selections.len() == g.selections.len()
                    &&& now.selections[seat] == Some(picks)
                    &&& forall|k: int|
                        0 <= k < g.selections.len() && k != seat ==> #[trigger] now.selections[k]
                            == g.selections[k]
                }
            }
        }),
{
    lemma_one_room(l, i);
    lemma_sits_from(g.seat_clients, client, 0, seat);
    let msg = ClientMsg::SelectCards { picks };
    let after = l.answered(client, msg, nanos);
    crate::lobby_laws::picking_keeps_order(l, client, picks);
    lemma_one_room(after, i);
    assert(crate::lobby_laws::room_ok(l.rooms[i]));
    assert(after.rooms[i].code == l.rooms[i].code);
}

/// A client who asks for a loan gets it at the client's own seat.
pub proof fn loans_go_to_the_seat(
    l: LobbyModel,
    client: u64,
    nanos: u64,
    i: int,
    g: RoomGameModel,
    seat: int,
)
    requires
        is_in_game(l, client, i, g),
        sits_at(g, client, seat),
        l.fits(client, ClientMsg::Borrow),
    ensures
        ({
            let after = l.answered(client, ClientMsg::Borrow, nanos);
            &&& after.rooms[i].game matches Some(now) && {
                &&& only_the_game_changes(l, after, i, now)
                &&& all_see_the_table(
                    l.answers(client, ClientMsg::Borrow, nanos),
                    l.rooms[i].members,
                    now,
                )
                &&& now == (RoomGameModel { mtch: g.mtch.after_borrowing(seat), ..g })
            }
        }),
{
    lemma_one_room(l, i);
    lemma_sits_from(g.seat_clients, client, 0, seat);
    let after = l.answered(client, ClientMsg::Borrow, nanos);
    crate::lobby_laws::lending_keeps_order(l, client);
    lemma_one_room(after, i);
}

/// The host of a game whose hand is settled goes on to the next hand: it is dealt, all picks are
/// taken back and both clocks start again. Anyone else who asks, or a host who asks too early,
/// changes nothing.
pub proof fn the_host_goes_on(
    l: LobbyModel,
    client: u64,
    nanos: u64,
    i: int,
    g: RoomGameModel,
)
    requires
        is_in_game(l, client, i, g),
        l.fits(client, ClientMsg::NextHand),
    ensures
        ({
            let after = l.answered(client, ClientMsg::NextHand, nanos);
            &&& after.rooms[i].game matches Some(now) && {
                &&& only_the_game_changes(l, after, i, now)
                &&& all_see_the_table(
                    l.answers(client, ClientMsg::NextHand, nanos),
                    l.rooms[i].members,
                    now,
                )
                &&& client != g.host || !g.settled || !g.mtch.over() ==> now == g
                &&& client == g.host && g.settled && g.mtch.over() ==> {
                    &&& now.mtch == g.mtch.moved_on().dealt()
                    &&& !now.settled
                    &&& now.select_timer == 0
                    &&& now.ai_timer == 0
                    &&& now.seat_clients == g.seat_clients
                    &&& now.host == g.host
                    &&& now.selections.len() == g.seat_clients.len()
                    &&& forall|k: int|
                        0 <= k < now.selections.len() ==> (#[trigger] now.selections[k]) is None
                }
            }
        }),
{
    lemma_one_room(l, i);
    let after = l.answered(client, ClientMsg::NextHand, nanos);
    crate::lobby_laws::going_on_keeps_order(l, client);
    lemma_one_room(after, i);
}

/// Time passes in every game by itself, and in nothing else.
pub proof fn time_passes_in_every_game(l: LobbyModel, dt: u64, i: int)
    requires
        0 <= i < l.rooms.len(),
    ensures
        l.ticked(dt).rooms.len() == l.rooms.len(),
        l.ticked(dt).conns == l.conns,
        l.rooms[i].game is None ==> l.ticked(dt).rooms[i] == l.rooms[i],
        l.rooms[i].game matches Some(g) ==> l.ticked(dt).rooms[i] == (RoomModel {
            game: Some(g.advanced(dt).0),
            ..l.rooms[i]
        }),
{
    lemma_rooms_advanced(l, dt, l.rooms.len() as int, i);
}

proof fn lemma_rooms_advanced(l: LobbyModel, dt: u64, n: int, i: int)
    requires
        0 <= n <= l.rooms.len(),
    ensures
        l.rooms_advanced(dt, n).len() == n,
        0 <= i < n ==> l.rooms_advanced(dt, n)[i] == crate::lobby_model::room_advanced(
            l.rooms[i],
            dt,
        ),
    decreases n,
{
    if n > 0 {
        lemma_rooms_advanced(l, dt, n - 1, i);
    }
}

/// When time passes, the members of a room hear of it exactly when something at their table has
/// changed that they can see: one more room at the end adds its members' letters, if any.
pub proof fn only_changed_tables_are_sent(l: LobbyModel, r: RoomModel, dt: u64)
    ensures
        ({
            let more = LobbyModel { rooms: l.rooms.push(r), ..l };
            let before = l.tick_letters(dt, l.rooms.len() as int);
            let now = more.tick_letters(dt, l.rooms.len() as int + 1);
            &&& before.len() <= now.len()
            &&& now.take(before.len() as int) == before
            &&& r.game is None ==> now == before
            &&& r.game matches Some(g) ==> {
                &&& !g.advanced(dt).1 ==> now == before
                &&& g.advanced(dt).1 ==> all_see_the_table(
                    now.skip(before.len() as int),
                    r.members,
                    g.advanced(dt).0,
                )
            }
            &&& l.tick_letters(dt, 0).len() == 0
        }),
{
    let more = LobbyModel { rooms: l.rooms.push(r), ..l };
    let n = l.rooms.len() as int;
    lemma_tick_letters(l, more, dt, n);
    let before = l.tick_letters(dt, n);
    let now = more.tick_letters(dt, n + 1);
    assert(more.rooms[n] == r);
    assert(now.take(before.len() as int) =~= before);
}

proof fn lemma_tick_letters(l: LobbyModel, more: LobbyModel, dt: u64, n: int)
    requires
        0 <= n <= l.rooms.len() <= more.rooms.len(),
        forall|k: int| 0 <= k < l.rooms.len() ==> #[trigger] more.rooms[k] == l.rooms[k],
    ensures
        more.tick_letters(dt, n) == l.tick_letters(dt, n),
    decreases n,
{
    if n > 0 {
        lemma_tick_letters(l, more, dt, n - 1);
        assert(more.rooms[n - 1] == l.rooms[n - 1]);
    }
}

/// While a client has to act, a game waits. A seat of the machine waits for eight tenths of a
/// second, then plays what the machine decides, and the clock starts again.
pub proof fn the_machine_takes_its_time(g: RoomGameModel, dt: u64)
    requires
        !g.mtch.over(),
        0 <= g.mtch.hand.to_act < g.seat_clients.len(),
    ensures
        ({
            let hand = g.mtch.hand;
            let (now, changed) = g.advanced(dt);
            let ready = g.ai_timer + dt >= 800_000_000;
            &&& g.seat_clients[hand.to_act] is Some ==> now == g && !changed
            &&& g.seat_clients[hand.to_act] is None && !ready ==> !changed && now == (
            RoomGameModel { ai_timer: (g.ai_timer + dt) as u64, ..g })
            &&& g.seat_clients[hand.to_act] is None && ready ==> {
                &&& changed
                &&& now.ai_timer == 0
                &&& now.seat_clients == g.seat_clients
                &&& now.selections == g.selections
                &&& now.mtch.seats == g.mtch.seats
                &&& hand.rejection(decision(hand, hand.to_act)) is None ==> now.mtch.hand
                    == hand.after(decision(hand, hand.to_act))
                &&& hand.rejection(decision(hand, hand.to_act)) is Some ==> now.mtch.hand == hand
            }
        }),
{
}

// ---- Rooms ----

/// A room is joined exactly when there is one with the code, its game has not started and it has
/// a place left. Otherwise the client is told why not, and nothing changes.
pub proof fn joins_are_refused_for_a_reason(l: LobbyModel, client: u64, code: Seq<char>)
    requires
        l.wf(),
    ensures
        ({
            let no_room = forall|k: int|
                0 <= k < l.rooms.len() ==> (#[trigger] l.rooms[k]).code != code;
            &&& no_room <==> l.refusal(code) == Some("房间号不存在"@)
            &&& forall|k: int|
                #![trigger l.rooms[k]]
                0 <= k < l.rooms.len() && l.rooms[k].code == code ==> {
                    let r = l.rooms[k];
                    &&& r.game is Some ==> l.refusal(code) == Some("该房间已开始游戏"@)
                    &&& r.game is None && r.members.len() >= r.max_players ==> l.refusal(code)
                        == Some("房间已满"@)
                    &&& r.game is None && r.members.len() < r.max_players ==> l.refusal(code)
                        is None
                }
        }),
{
    reveal_strlit("房间号不存在");
    reveal_strlit("该房间已开始游戏");
    reveal_strlit("房间已满");
    assert("房间号不存在"@.len() == 6);
    assert("该房间已开始游戏"@.len() == 8);
    assert("房间已满"@.len() == 4);
    lemma_room_from(l.rooms, code, 0);
    assert forall|k: int|
        #![trigger l.rooms[k]]
        0 <= k < l.rooms.len() && l.rooms[k].code == code implies l.room_at(code) == Some(k)
        && crate::lobby_laws::room_ok(l.rooms[k]) by {
        lemma_one_room(l, k);
    }
    if l.room_at(code) is Some {
        let k = l.room_at(code)->0;
        assert(l.rooms[k].code == code);
    }
}

/// A client without a room who joins one comes last among its members. Everyone who was there
/// hears of it, and the client is told that it is in.
pub proof fn who_joins_comes_last(l: LobbyModel, client: u64, i: int)
    requires
        l.wf(),
        0 <= i < l.rooms.len(),
        l.conns.dom().contains(client),
        l.conns[client].room is None,
        !l.rooms[i].members.contains(client),
        l.rooms[i].game is None,
        l.rooms[i].members.len() < l.rooms[i].max_players,
    ensures
        ({
            let r = l.rooms[i];
            let after = l.joined(client, r.code);
            let letters = l.joined_letters(client, r.code);
            &&& after.rooms.len() == l.rooms.len()
            &&& after.rooms[i] == (RoomModel { members: r.members.push(client), ..r })
            &&& forall|k: int|
                0 <= k < l.rooms.len() && k != i ==> #[trigger] after.rooms[k] == l.rooms[k]
            &&& after.conns.dom() == l.conns.dom()
            &&& after.conns[client].room == Some(r.code)
            &&& after.conns[client].name == l.conns[client].name
            &&& forall|c: u64|
                c != client && l.conns.dom().contains(c) ==> #[trigger] after.conns[c]
                    == l.conns[c]
            &&& letters.len() == r.members.len() + 1
            &&& letters[0].to == client
            &&& letters[0].msg is Joined
            &&& forall|k: int|
                0 <= k < r.members.len() ==> (#[trigger] letters[k + 1]).to == r.members[k]
                    && letters[k + 1].msg is RoomUpdate
        }),
{
    lemma_one_room(l, i);
    let r = l.rooms[i];
    assert(crate::lobby_laws::room_ok(r));
    assert(l.left(client) == l);
    assert(l.left_letters(client).len() == 0);
    let after = l.joined(client, r.code);
    assert(after.rooms[i].members == r.members.push(client));
    lemma_all_but_new(r.members, client);
    assert(after.rooms[i].others(client) == r.members);
    assert(after.conns.dom() =~= l.conns.dom());
}

proof fn lemma_all_but_new(members: Seq<u64>, client: u64)
    requires
        !members.contains(client),
    ensures
        all_but(members.push(client), client) == members,
{
    reveal(Seq::filter);
    assert(members.push(client).drop_last() =~= members);
    lemma_all_stay(members, client);
}

proof fn lemma_all_stay(members: Seq<u64>, client: u64)
    requires
        !members.contains(client),
    ensures
        all_but(members, client) == members,
    decreases members.len(),
{
    reveal(Seq::filter);
    if members.len() > 0 {
        let rest = members.drop_last();
        assert(members[members.len() - 1] != client);
        assert(!rest.contains(client)) by {
            if rest.contains(client) {
                let k = choose|k: int| 0 <= k < rest.len() && rest[k] == client;
                assert(members[k] == client);
            }
        }
        lemma_all_stay(rest, client);
        assert(members =~= rest.push(members.last()));
    }
}

/// When a client leaves a room in which others stay, those keep their order, a host is followed by
/// the one who has been there longest, the machine takes over the client's seat and nobody else's,
/// and the hand is not touched.
pub proof fn who_leaves_is_followed(l: LobbyModel, client: u64, i: int)
    requires
        is_in_room(l, client, i),
        l.rooms[i].members.filter(|m: u64| m != client).len() > 0,
    ensures
        ({
            let r = l.rooms[i];
            let after = l.left(client);
            let stay = r.members.filter(|m: u64| m != client);
            let now = after.rooms[i];
            &&& after.rooms.len() == l.rooms.len()
            &&& forall|k: int|
                0 <= k < l.rooms.len() && k != i ==> #[trigger] after.rooms[k] == l.rooms[k]
            &&& after.conns[client].room is None
            &&& now.members == stay
            &&& r.host == client ==> now.host == stay[0]
            &&& r.host != client ==> now.host == r.host
            &&& now.code == r.code
            &&& now.max_players == r.max_players
            &&& now.fill_ai == r.fill_ai
            &&& now.in_game == r.in_game
            &&& r.game is None ==> now.game is None
            &&& r.game matches Some(g) ==> (now.game matches Some(h) && {
                &&& h.mtch == g.mtch
                &&& h.selections == g.selections
                &&& h.settled == g.settled
                &&& r.host == client ==> h.host == stay[0]
                &&& r.host != client ==> h.host == g.host
                &&& h.seat_clients.len() == g.seat_clients.len()
                &&& forall|k: int|
                    #![trigger h.seat_clients[k]]
                    sits_at(g, client, k) ==> h.seat_clients[k] is None
                &&& forall|k: int|
                    0 <= k < g.seat_clients.len() && g.seat_clients[k] != Some(client)
                        ==> #[trigger] h.seat_clients[k] == g.seat_clients[k]
            })
        }),
{
    lemma_one_room(l, i);
    let r = l.rooms[i];
    lemma_who_stays(r.members, client);
    if let Some(g) = r.game {
        lemma_seat_from(g.seat_clients, client, 0);
        assert forall|k: int| sits_at(g, client, k) implies g.seat_of(client) == Some(k) by {
            lemma_sits_from(g.seat_clients, client, 0, k);
        }
    }
}

/// A room whose last member leaves is closed; the others keep their order.
pub proof fn empty_rooms_are_closed(l: LobbyModel, client: u64, i: int)
    requires
        is_in_room(l, client, i),
        l.rooms[i].members.filter(|m: u64| m != client).len() == 0,
    ensures
        l.left(client).rooms == l.rooms.remove(i),
        l.left(client).conns[client].room is None,
        l.left_letters(client).len() == 0,
{
    lemma_one_room(l, i);
    let r = l.rooms[i];
    lemma_who_stays(r.members, client);
    assert(l.left_letters(client) =~= Seq::empty());
}

/// A client who opens a room is its host and only member. The room has two to six places, as many
/// as were asked for where that is possible, and is open for others.
pub proof fn rooms_open_with_their_host(
    l: LobbyModel,
    client: u64,
    name: Seq<char>,
    places: int,
    fill_ai: bool,
    nanos: u64,
)
    requires
        l.conns.dom().contains(client),
        l.conns[client].room is None,
        !l.code_is_taken(client, nanos),
    ensures
        ({
            let after = l.created(client, name, places, fill_ai, nanos);
            let letters = l.created_letters(client, name, places, fill_ai, nanos);
            let r = after.rooms[l.rooms.len() as int];
            &&& after.rooms.len() == l.rooms.len() + 1
            &&& forall|k: int| 0 <= k < l.rooms.len() ==> #[trigger] after.rooms[k] == l.rooms[k]
            &&& r.host == client
            &&& r.members == seq![client]
            &&& r.fill_ai == fill_ai
            &&& !r.in_game
            &&& r.game is None
            &&& 2 <= r.max_players <= 6
            &&& 2 <= places <= 6 ==> r.max_players == places
            &&& places < 2 ==> r.max_players == 2
            &&& places > 6 ==> r.max_players == 6
            &&& r.code.len() == 4
            &&& after.conns[client].room == Some(r.code)
            &&& letters.len() == 1
            &&& letters[0].to == client
            &&& letters[0].msg matches ServerMsgModel::Joined { room } && room.code == r.code
                && room.host == client
        }),
{
    assert(l.left(client) == l);
    assert(l.left_letters(client).len() == 0);
}

/// The host of a room without a game starts it: every member gets a seat in the order in which
/// they came. Where the room asks for it the machine fills up all places; one member alone always
/// gets an opponent. All members hear that the game starts, and then see the table.
pub proof fn the_host_starts(l: LobbyModel, client: u64, seed: u64, i: int)
    requires
        is_in_room(l, client, i),
        l.rooms[i].host == client,
        l.rooms[i].game is None,
    ensures
        ({
            let r = l.rooms[i];
            let after = l.started(client, seed);
            let letters = l.started_letters(client, seed);
            let n = r.members.len() as int;
            &&& after.rooms[i].in_game
            &&& after.rooms[i].members == r.members
            &&& after.rooms[i].game matches Some(g) && {
                &&& only_the_game_changes(
                    l,
                    LobbyModel {
                        rooms: after.rooms.update(
                            i,
                            RoomModel { in_game: r.in_game, ..after.rooms[i] },
                        ),
                        ..after
                    },
                    i,
                    g,
                )
                &&& g.seat_clients.len() == (if r.fill_ai {
                    r.max_players
                } else if n < 2 {
                    2
                } else {
                    n
                })
                &&& g.mtch.seats.len() == g.seat_clients.len()
                &&& forall|k: int|
                    0 <= k < n ==> #[trigger] g.seat_clients[k] == Some(r.members[k])
                &&& forall|k: int|
                    0 <= k < n ==> !(#[trigger] g.mtch.seats[k]).is_ai && g.mtch.seats[k].name == (
                    if l.conns.dom().contains(r.members[k]) {
                        l.conns[r.members[k]].name
                    } else {
                        "Player"@
                    })
                &&& forall|k: int|
                    n <= k < g.seat_clients.len() ==> (#[trigger] g.mtch.seats[k]).is_ai
                &&& forall|k: int|
                    n <= k < g.seat_clients.len() ==> (#[trigger] g.seat_clients[k]) is None
                &&& g.host == client
                &&& !g.settled
                &&& letters.len() == 2 * n
                &&& forall|k: int|
                    0 <= k < n ==> #[trigger] letters[k] == (LetterModel {
                        to: r.members[k],
                        msg: ServerMsgModel::GameStarting,
                    })
                &&& all_see_the_table(letters.skip(n), r.members, g)
            }
        }),
{
    lemma_one_room(l, i);
    let r = l.rooms[i];
    assert(crate::lobby_laws::room_ok(r));
    let after = l.started(client, seed);
    let g = after.rooms[i].game->0;
    let n = r.members.len() as int;
    let letters = l.started_letters(client, seed);
    assert(letters.skip(n) =~= after.rooms[i].views());
    assert forall|k: int| 0 <= k < g.mtch.seats.len() implies (#[trigger] g.mtch.seats[k]).is_ai
        == (k >= n) && (k < n ==> g.mtch.seats[k].name == l.name_or(r.members[k], "Player"@)) by {
        assert(l.seat_defs(r)[k].is_ai == (k >= n));
    }
}

/// The list shows the rooms that wait for players, in the order in which they were opened: one
/// more room at the end adds one line if it waits, and none if it does not.
pub proof fn waiting_rooms_are_listed(rooms: Seq<RoomModel>, r: RoomModel)
    ensures
        ({
            let before = room_list(rooms, rooms.len() as int);
            let now = room_list(rooms.push(r), rooms.len() as int + 1);
            &&& r.in_game || r.members.len() >= r.max_players ==> now == before
            &&& !r.in_game && r.members.len() < r.max_players ==> {
                let line = now[before.len() as int];
                &&& now == before.push(line)
                &&& line.code == r.code
                &&& line.name == r.name
                &&& line.players == r.members.len()
                &&& line.max_players == r.max_players
                &&& !line.in_game
            }
            &&& room_list(rooms, 0).len() == 0
        }),
{
    lemma_same_list(rooms, rooms.push(r), rooms.len() as int);
    assert(rooms.push(r)[rooms.len() as int] == r);
}

proof fn lemma_same_list(rooms: Seq<RoomModel>, more: Seq<RoomModel>, n: int)
    requires
        0 <= n <= rooms.len() <= more.len(),
        forall|k: int| 0 <= k < rooms.len() ==> #[trigger] more[k] == rooms[k],
    ensures
        room_list(more, n) == room_list(rooms, n),
    decreases n,
{
    if n > 0 {
        lemma_same_list(rooms, more, n - 1);
        assert(more[n - 1] == rooms[n - 1]);
    }
}

// ---- Names ----

/// A name as it is kept is never empty, has sixteen characters at most and no control codes. One
/// that is fit already is kept as it is, and one of which nothing is left becomes `Player`.
pub proof fn names_are_presentable(s: Seq<char>)
    ensures
        0 < presentable(s).len() <= 16,
        forall|k: int|
            0 <= k < presentable(s).len() ==> !is_control_code(#[trigger] presentable(s)[k]),
        trimmed(s) == s && 0 < s.len() <= 16 && (forall|k: int|
            0 <= k < s.len() ==> !is_control_code(#[trigger] s[k])) ==> presentable(s) == s,
        trimmed(s).len() == 0 ==> presentable(s) == "Player"@,
{
    reveal_strlit("Player");
    let keep = |c: char| !is_control_code(c);
    let t = trimmed(s);
    lemma_kept(t, keep);
    assert(!is_control_code('P') && !is_control_code('l') && !is_control_code('a')
        && !is_control_code('y') && !is_control_code('e') && !is_control_code('r'));
}

proof fn lemma_kept(s: Seq<char>, keep: spec_fn(char) -> bool)
    ensures
        s.filter(keep).len() <= s.len(),
        forall|k: int| 0 <= k < s.filter(keep).len() ==> keep(#[trigger] s.filter(keep)[k]),
        (forall|k: int| 0 <= k < s.len() ==> keep(#[trigger] s[k])) ==> s.filter(keep) == s,
    decreases s.len(),
{
    reveal(Seq::filter);
    if s.len() > 0 {
        let rest = s.drop_last();
        lemma_kept(rest, keep);
        if forall|k: int| 0 <= k < s.len() ==> keep(#[trigger] s[k]) {
            assert forall|k: int| 0 <= k < rest.len() implies keep(#[trigger] rest[k]) by {
                assert(keep(s[k]));
            }
            assert(keep(s[s.len() - 1]));
            assert(s =~= rest.push(s.last()));
        }
    }
}

/// A client that gives its name has it from then on. Nobody else's changes, and nobody is told.
pub proof fn names_are_kept(l: LobbyModel, client: u64, name: String, nanos: u64)
    requires
        l.conns.dom().contains(client),
    ensures
        ({
            let msg = ClientMsg::Hello { name };
            let after = l.answered(client, msg, nanos);
            &&& after.conns.dom() == l.conns.dom()
            &&& after.conns[client].name == presentable(name@)
            &&& after.conns[client].room == l.conns[client].room
            &&& forall|c: u64|
                c != client && l.conns.dom().contains(c) ==> #[trigger] after.conns[c]
                    == l.conns[c]
            &&& after.rooms == l.rooms
            &&& l.answers(client, msg, nanos).len() == 0
        }),
{
    let after = l.answered(client, ClientMsg::Hello { name }, nanos);
    assert(after.conns.dom() =~= l.conns.dom());
}

// ---- Coming and going ----

/// A client that connects is in no room, and is called `Player` and its number until it gives a
/// name. Nothing else changes.
pub proof fn clients_come_without_a_room(l: LobbyModel, client: u64)
    ensures
        ({
            let after = l.connected(client);
            &&& after.conns.dom() == l.conns.dom().insert(client)
            &&& after.conns[client].room is None
            &&& after.conns[client].name == "Player"@ + crate::text::dec(client as nat)
            &&& forall|c: u64|
                c != client && l.conns.dom().contains(c) ==> #[trigger] after.conns[c]
                    == l.conns[c]
            &&& after.rooms == l.rooms
        }),
{
    assert(l.connected(client).conns.dom() =~= l.conns.dom().insert(client));
}

/// A client that disconnects leaves its room as one that leaves it does, and is known no more.
pub proof fn clients_go_as_they_leave(l: LobbyModel, client: u64)
    ensures
        ({
            let after = l.disconnected(client);
            &&& !after.conns.dom().contains(client)
            &&& after.rooms == l.left(client).rooms
            &&& forall|c: u64|
                c != client && l.conns.dom().contains(c) ==> after.conns.dom().contains(c)
                    && #[trigger] after.conns[c] == l.conns[c]
        }),
{
}

/// A room shows its code, its size, its host and its members by their names, in the order in which
/// they came.
pub proof fn rooms_show_their_members(l: LobbyModel, r: RoomModel, k: int)
    requires
        0 <= k < r.members.len(),
    ensures
        ({
            let shown = l.state_of(r);
            &&& shown.code == r.code
            &&& shown.name == r.name
            &&& shown.max_players == r.max_players
            &&& shown.fill_ai == r.fill_ai
            &&& shown.host == r.host
            &&& shown.in_game == r.in_game
            &&& shown.players.len() == r.members.len()
            &&& shown.players[k].id == r.members[k]
            &&& l.conns.dom().contains(r.members[k]) ==> shown.players[k].name
                == l.conns[r.members[k]].name
        }),
{
}

/// When a client leaves a room, every member who stays hears of the room as it is now; while a
/// game is on, each then sees the table. The client is told last that it has left.
pub proof fn leaving_is_heard_by_those_who_stay(l: LobbyModel, client: u64, nanos: u64, i: int)
    requires
        is_in_room(l, client, i),
    ensures
        ({
            let stay = l.rooms[i].members.filter(|m: u64| m != client);
            let letters = l.answers(client, ClientMsg::LeaveRoom, nanos);
            let n = stay.len() as int;
            &&& letters.len() == (if l.rooms[i].game is Some {
                2 * n + 1
            } else {
                n + 1
            })
            &&& letters.last() == (LetterModel { to: client, msg: ServerMsgModel::Left })
            &&& forall|k: int|
                0 <= k < n ==> (#[trigger] letters[k]).to == stay[k] && (letters[k].msg matches
                    ServerMsgModel::RoomUpdate { room } && room.players.len() == n && room.code
                    == l.rooms[i].code)
            &&& l.rooms[i].game is Some ==> forall|k: int|
                0 <= k < n ==> (#[trigger] letters[n + k]).to == stay[k] && letters[n + k].msg
                    is View
        }),
{
    lemma_one_room(l, i);
    lemma_who_stays(l.rooms[i].members, client);
    let stay = l.rooms[i].members.filter(|m: u64| m != client);
    let r = l.rooms[i].without(client);
    assert(r.members == stay);
    let n = stay.len() as int;
    let letters = l.answers(client, ClientMsg::LeaveRoom, nanos);
    let update = r.to_all(ServerMsgModel::RoomUpdate { room: l.state_of(r) });
    assert(update.len() == n);
    if l.rooms[i].game is Some {
        assert(r.views().len() == n);
        assert forall|k: int| 0 <= k < n implies (#[trigger] letters[n + k]).to == stay[k]
            && letters[n + k].msg is View by {
            assert(letters[n + k] == r.views()[k]);
        }
    } else {
        assert(r.views().len() == 0);
    }
    assert forall|k: int| 0 <= k < n implies (#[trigger] letters[k]) == update[k] by {}
}

/// A client in no room asks in vain to play: nothing changes and nobody hears of it.
pub proof fn clients_without_a_room_do_not_play(
    l: LobbyModel,
    client: u64,
    msg: ClientMsg,
    nanos: u64,
)
    requires
        l.conns.dom().contains(client) ==> l.conns[client].room is None,
        msg is StartGame || msg is Act || msg is SelectCards || msg is Borrow || msg is NextHand,
    ensures
        l.answered(client, msg, nanos) == l,
        l.answers(client, msg, nanos).len() == 0,
{
}

/// A game that is on is not started again, and nobody hears of the attempt.
pub proof fn games_start_once(l: LobbyModel, client: u64, nanos: u64, i: int, g: RoomGameModel)
    requires
        is_in_game(l, client, i, g),
        l.rooms[i].host == client,
    ensures
        l.answered(client, ClientMsg::StartGame, nanos) == l,
        l.answers(client, ClientMsg::StartGame, nanos).len() == 0,
{
    lemma_one_room(l, i);
}

/// Asking for the list changes nothing. The client alone gets it.
pub proof fn lists_go_to_who_asks(l: LobbyModel, client: u64, nanos: u64)
    ensures
        l.answered(client, ClientMsg::ListRooms, nanos) == l,
        l.answers(client, ClientMsg::ListRooms, nanos) == seq![
            LetterModel {
                to: client,
                msg: ServerMsgModel::RoomList { rooms: room_list(l.rooms, l.rooms.len() as int) },
            },
        ],
{
}

/// White space around a code does not matter.
pub proof fn codes_may_be_padded(l: LobbyModel, client: u64, a: String, b: String, nanos: u64)
    requires
        trimmed(a@) == trimmed(b@),
    ensures
        l.answered(client, ClientMsg::JoinRoom { code: a }, nanos) == l.answered(
            client,
            ClientMsg::JoinRoom { code: b },
            nanos,
        ),
        l.answers(client, ClientMsg::JoinRoom { code: a }, nanos) == l.answers(
            client,
            ClientMsg::JoinRoom { code: b },
            nanos,
        ),
{
}

/// Who joins or opens a room from another one leaves that first: the outcome is that of leaving,
/// and then joining or opening without a room.
pub proof fn joining_leaves_the_other_room(
    l: LobbyModel,
    client: u64,
    code: Seq<char>,
    name: Seq<char>,
    places: int,
    fill_ai: bool,
    nanos: u64,
)
    requires
        l.wf(),
        l.conns.dom().contains(client),
    ensures
        l.left(client).conns[client].room is None,
        l.refusal(code) is None && l.left(client).refusal(code) is None ==> l.joined(client, code)
            == l.left(client).joined(client, code),
        l.created(client, name, places, fill_ai, nanos) == l.left(client).created(
            client,
            name,
            places,
            fill_ai,
            nanos,
        ),
{
    let m = l.left(client);
    assert(m.conns[client].room is None);
    assert(m.left(client) == m);
}

} // verus!
