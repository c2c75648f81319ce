//! The lobby of a server as a mathematical value: who is connected, which rooms there are, and
//! what each request does to them and sends out.
use crate::game::Action;
use crate::net::{
    ClientMsg, LetterModel, LobbyPlayerModel, RoomInfoModel, RoomStateModel, ServerMsgModel,
};
use crate::rng::{first_draw, next_state};
use crate::room::RoomGameModel;
use crate::session::{loan_fits, next_hand_fits};
use crate::table::{MatchModel, SeatDefModel};
use crate::text::{dec, is_control_code, trimmed, uppercase};
use vstd::prelude::*;

verus! {

/// The most characters that a name keeps.
pub const MAX_NAME: usize = 16;

/// The smallest and the largest table.
pub const MIN_SEATS: usize = 2;

pub const MAX_SEATS: usize = 6;

/// What the clock is mixed with for the seed of a match.
pub const SEED_MIX: u64 = 0xD1CE_5EED_1234_ABCD;

/// What the count of rooms is multiplied with for a room code.
pub const CODE_MIX: u64 = 0x9E37_79B9_7F4A_7C15;

/// A name as it is kept: trimmed, without control codes, cut to its first characters.
pub open spec fn cleaned(s: Seq<char>) -> Seq<char> {
    let kept = trimmed(s).filter(|c: char| !is_control_code(c));
    if kept.len() > MAX_NAME {
        kept.take(MAX_NAME as int)
    } else {
        kept
    }
}

/// A name as others see it.
pub open spec fn presentable(s: Seq<char>) -> Seq<char> {
    if cleaned(s).len() == 0 {
        "Player"@
    } else {
        cleaned(s)
    }
}

/// `n`, but no smaller and no larger than a table.
pub open spec fn table_size(n: int) -> int {
    if n < MIN_SEATS {
        MIN_SEATS as int
    } else if n > MAX_SEATS {
        MAX_SEATS as int
    } else {
        n
    }
}

/// A connected client.
pub struct ConnModel {
    pub name: Seq<char>,
    pub room: Option<Seq<char>>,
}

/// The members of a room but one.
pub open spec fn all_but(members: Seq<u64>, client: u64) -> Seq<u64> {
    members.filter(|m: u64| m != client)
}

/// A room.
pub struct RoomModel {
    pub code: Seq<char>,
    pub name: Seq<char>,
    pub max_players: int,
    pub fill_ai: bool,
    pub host: u64,
    pub members: Seq<u64>,
    pub in_game: bool,
    pub game: Option<RoomGameModel>,
}

/// The game after a client has left: the machine takes over the seat.
pub open spec fn seat_freed(g: RoomGameModel, client: u64) -> RoomGameModel {
    match g.seat_of(client) {
        Some(i) => RoomGameModel { seat_clients: g.seat_clients.update(i, None), ..g },
        None => g,
    }
}

impl RoomModel {
    /// The members without one.
    pub open spec fn others(self, client: u64) -> Seq<u64> {
        all_but(self.members, client)
    }

    /// The room after a member has left: the machine takes over the seat, and a host is
    /// followed by the member who has been there longest.
    pub open spec fn without(self, client: u64) -> RoomModel {
        let members = self.others(client);
        let passes = self.host == client && members.len() > 0;
        let host = if passes {
            members[0]
        } else {
            self.host
        };
        RoomModel {
            members,
            host,
            game: match self.game {
                Some(g) => Some(
                    RoomGameModel {
                        host: if passes {
                            members[0]
                        } else {
                            g.host
                        },
                        ..seat_freed(g, client)
                    },
                ),
                None => None,
            },
            ..self
        }
    }

    /// The room after a client has come in.
    pub open spec fn with(self, client: u64) -> RoomModel {
        RoomModel {
            members: if self.members.contains(client) {
                self.members
            } else {
                self.members.push(client)
            },
            ..self
        }
    }

    /// The room can be found in the list.
    pub open spec fn is_listed(self) -> bool {
        !self.in_game && self.members.len() < self.max_players
    }

    /// The room as a line of the list.
    pub open spec fn listed(self) -> RoomInfoModel {
        RoomInfoModel {
            code: self.code,
            name: self.name,
            players: self.members.len() as int,
            max_players: self.max_players,
            in_game: self.in_game,
        }
    }

    /// A message to every member, in the order in which they came.
    pub open spec fn to_all(self, msg: ServerMsgModel) -> Seq<LetterModel> {
        self.members.map_values(|m: u64| LetterModel { to: m, msg })
    }

    /// A message to every member but one.
    pub open spec fn to_others(self, client: u64, msg: ServerMsgModel) -> Seq<LetterModel> {
        self.others(client).map_values(|m: u64| LetterModel { to: m, msg })
    }

    /// The table, to every member as the member may see it.
    pub open spec fn views(self) -> Seq<LetterModel> {
        match self.game {
            Some(g) => self.members.map_values(
                |m: u64| LetterModel { to: m, msg: ServerMsgModel::View { view: g.shown_to(m) } },
            ),
            None => Seq::empty(),
        }
    }
}

/// The place of the room with the code, from `i` on.
pub open spec fn room_from(rooms: Seq<RoomModel>, code: Seq<char>, i: int) -> Option<int>
    decreases rooms.len() - i,
{
    if i >= rooms.len() {
        None
    } else if rooms[i].code == code {
        Some(i)
    } else {
        room_from(rooms, code, i + 1)
    }
}

/// The lines of the rooms among the first `n` that can be joined.
pub open spec fn room_list(rooms: Seq<RoomModel>, n: int) -> Seq<RoomInfoModel>
    decreases n,
{
    if n <= 0 {
        Seq::empty()
    } else if rooms[n - 1].is_listed() {
        room_list(rooms, n - 1).push(rooms[n - 1].listed())
    } else {
        room_list(rooms, n - 1)
    }
}

/// A letter of the alphabet that a drawn number stands for.
pub open spec fn letter_drawn(draw: u64) -> char {
    (('A' as int) + (draw % 26) as int) as char
}

/// The code that a generator in the given state draws: four capital letters.
pub open spec fn code_drawn(state: u64) -> Seq<char> {
    let s1 = next_state(state);
    let s2 = next_state(s1);
    let s3 = next_state(s2);
    seq![
        letter_drawn(first_draw(state)),
        letter_drawn(first_draw(s1)),
        letter_drawn(first_draw(s2)),
        letter_drawn(first_draw(s3)),
    ]
}

/// The seed of a match that starts at the given time.
pub open spec fn seed_at(nanos: u64) -> u64 {
    first_draw(nanos ^ SEED_MIX)
}

/// A lobby.
pub struct LobbyModel {
    pub conns: Map<u64, ConnModel>,
    pub rooms: Seq<RoomModel>,
    pub seq: u64,
}

impl LobbyModel {
    /// The place of the room with the code.
    pub open spec fn room_at(self, code: Seq<char>) -> Option<int> {
        room_from(self.rooms, code, 0)
    }

    /// The code of the room that a client is in.
    pub open spec fn code_of(self, client: u64) -> Option<Seq<char>> {
        if self.conns.dom().contains(client) {
            self.conns[client].room
        } else {
            None
        }
    }

    /// The place of the room that a client is in.
    pub open spec fn place_of(self, client: u64) -> Option<int> {
        match self.code_of(client) {
            Some(code) => self.room_at(code),
            None => None,
        }
    }

    /// The name of a client, or the fallback.
    pub open spec fn name_or(self, client: u64, fallback: Seq<char>) -> Seq<char> {
        if self.conns.dom().contains(client) {
            self.conns[client].name
        } else {
            fallback
        }
    }

    /// A room as its members see it.
    pub open spec fn state_of(self, r: RoomModel) -> RoomStateModel {
        RoomStateModel {
            code: r.code,
            name: r.name,
            max_players: r.max_players,
            fill_ai: r.fill_ai,
            host: r.host,
            players: r.members.map_values(
                |m: u64| LobbyPlayerModel { id: m, name: self.name_or(m, Seq::empty()) },
            ),
            in_game: r.in_game,
        }
    }

    /// With the client, if connected, in the room or in none.
    pub open spec fn moved(self, client: u64, room: Option<Seq<char>>) -> LobbyModel {
        if self.conns.dom().contains(client) {
            LobbyModel {
                conns: self.conns.insert(client, ConnModel { room, ..self.conns[client] }),
                ..self
            }
        } else {
            self
        }
    }

    /// With another room at a place.
    pub open spec fn with_room(self, i: int, r: RoomModel) -> LobbyModel {
        LobbyModel { rooms: self.rooms.update(i, r), ..self }
    }

    // ---- Connections ----

    /// After a client has connected.
    pub open spec fn connected(self, client: u64) -> LobbyModel {
        LobbyModel {
            conns: self.conns.insert(
                client,
                ConnModel { name: "Player"@ + dec(client as nat), room: None },
            ),
            ..self
        }
    }

    /// After a client has left its room. An empty room is closed.
    pub open spec fn left(self, client: u64) -> LobbyModel {
        match self.code_of(client) {
            Some(code) => {
                let gone = self.moved(client, None);
                match self.room_at(code) {
                    Some(i) => {
                        let r = self.rooms[i].without(client);
                        if r.members.len() == 0 {
                            LobbyModel { rooms: gone.rooms.remove(i), ..gone }
                        } else {
                            gone.with_room(i, r)
                        }
                    },
                    None => gone,
                }
            },
            None => self,
        }
    }

    /// What goes out when a client leaves its room: the room and the table as they are now, to
    /// those who stay.
    pub open spec fn left_letters(self, client: u64) -> Seq<LetterModel> {
        match self.place_of(client) {
            Some(i) => {
                let r = self.rooms[i].without(client);
                r.to_all(
                    ServerMsgModel::RoomUpdate { room: self.state_of(r) },
                ) + r.views()
            },
            None => Seq::empty(),
        }
    }

    /// After a client has disconnected.
    pub open spec fn disconnected(self, client: u64) -> LobbyModel {
        let l = self.left(client);
        LobbyModel { conns: l.conns.remove(client), ..l }
    }

    // ---- Rooms ----

    /// After a client has given its name.
    pub open spec fn named(self, client: u64, name: Seq<char>) -> LobbyModel {
        if self.conns.dom().contains(client) {
            LobbyModel {
                conns: self.conns.insert(
                    client,
                    ConnModel { name: presentable(name), ..self.conns[client] },
                ),
                ..self
            }
        } else {
            self
        }
    }

    /// With the next count of rooms.
    pub open spec fn counted(self) -> LobbyModel {
        LobbyModel { seq: self.seq.wrapping_add(1), ..self }
    }

    /// The code that the clock and the count of rooms give.
    pub open spec fn code_at(self, nanos: u64) -> Seq<char> {
        code_drawn(nanos ^ self.seq.wrapping_mul(CODE_MIX))
    }

    /// A new room of a client.
    pub open spec fn room_made(
        client: u64,
        code: Seq<char>,
        name: Seq<char>,
        max_players: int,
        fill_ai: bool,
    ) -> RoomModel {
        RoomModel {
            code,
            name: presentable(name),
            max_players: table_size(max_players),
            fill_ai,
            host: client,
            members: seq![client],
            in_game: false,
            game: None,
        }
    }

    /// With a new room that the client is in.
    pub open spec fn opened(self, client: u64, r: RoomModel) -> LobbyModel {
        LobbyModel { rooms: self.rooms.push(r), ..self.moved(client, Some(r.code)) }
    }

    /// After a client has asked for a room: it leaves the one it is in. If the code that comes
    /// up is taken, no room is opened yet.
    pub open spec fn created(
        self,
        client: u64,
        name: Seq<char>,
        max_players: int,
        fill_ai: bool,
        nanos: u64,
    ) -> LobbyModel {
        let l = self.left(client).counted();
        let code = l.code_at(nanos);
        if l.room_at(code) is Some {
            l
        } else {
            l.opened(client, Self::room_made(client, code, name, max_players, fill_ai))
        }
    }

    pub open spec fn created_letters(
        self,
        client: u64,
        name: Seq<char>,
        max_players: int,
        fill_ai: bool,
        nanos: u64,
    ) -> Seq<LetterModel> {
        let l = self.left(client).counted();
        let code = l.code_at(nanos);
        if l.room_at(code) is Some {
            self.left_letters(client)
        } else {
            let r = Self::room_made(client, code, name, max_players, fill_ai);
            let state = l.opened(client, r).state_of(r);
            self.left_letters(client).push(
                LetterModel { to: client, msg: ServerMsgModel::Joined { room: state } },
            )
        }
    }

    /// The code that comes up for a new room is taken.
    pub open spec fn code_is_taken(self, client: u64, nanos: u64) -> bool {
        let l = self.left(client).counted();
        l.room_at(l.code_at(nanos)) is Some
    }

    /// Why a room cannot be joined, if it cannot.
    pub open spec fn refusal(self, code: Seq<char>) -> Option<Seq<char>> {
        match self.room_at(code) {
            None => Some("房间号不存在"@),
            Some(i) => if self.rooms[i].in_game {
                Some("该房间已开始游戏"@)
            } else if self.rooms[i].members.len() >= self.rooms[i].max_players {
                Some("房间已满"@)
            } else {
                None
            },
        }
    }

    /// The client is the only member of the room with the code: by leaving it to join it again
    /// it would close it.
    pub open spec fn would_close(self, client: u64, code: Seq<char>) -> bool {
        self.refusal(code) is None && self.left(client).room_at(code) is None
    }

    /// After a client has asked to join a room: it leaves the one it is in.
    pub open spec fn joined(self, client: u64, code: Seq<char>) -> LobbyModel {
        if self.refusal(code) is Some {
            self
        } else {
            let l = self.left(client);
            let i = l.room_at(code)->0;
            l.with_room(i, l.rooms[i].with(client)).moved(client, Some(code))
        }
    }

    pub open spec fn joined_letters(self, client: u64, code: Seq<char>) -> Seq<LetterModel> {
        match self.refusal(code) {
            Some(text) => seq![LetterModel { to: client, msg: ServerMsgModel::Error { text } }],
            None => {
                let l = self.joined(client, code);
                let i = self.left(client).room_at(code)->0;
                let r = l.rooms[i];
                let state = l.state_of(r);
                self.left_letters(client).push(
                    LetterModel { to: client, msg: ServerMsgModel::Joined { room: state } },
                ) + r.to_others(client, ServerMsgModel::RoomUpdate { room: state })
            },
        }
    }

    // ---- Games ----

    /// How many seats the game of a room gets: one for each member, filled up by the machine
    /// where the room asks for it, and at least two.
    pub open spec fn seats_for(r: RoomModel) -> int {
        let humans = r.members.len() as int;
        table_size(
            if r.fill_ai && r.max_players > humans {
                r.max_players
            } else {
                humans
            },
        )
    }

    /// The seats of a new game: the members in the order in which they came, then the machine.
    pub open spec fn seat_defs(self, r: RoomModel) -> Seq<SeatDefModel> {
        Seq::new(
            Self::seats_for(r) as nat,
            |i: int|
                if i < r.members.len() {
                    SeatDefModel { name: self.name_or(r.members[i], "Player"@), is_ai: false }
                } else {
                    SeatDefModel {
                        name: "AI-"@ + dec((i - r.members.len() + 1) as nat),
                        is_ai: true,
                    }
                },
        )
    }

    /// The new game of a room.
    pub open spec fn game_made(self, r: RoomModel, seed: u64) -> RoomGameModel {
        let n = Self::seats_for(r) as nat;
        RoomGameModel {
            mtch: MatchModel::fresh(self.seat_defs(r), seed).dealt(),
            seat_clients: Seq::new(
                n,
                |i: int|
                    if i < r.members.len() {
                        Some(r.members[i])
                    } else {
                        None
                    },
            ),
            host: r.host,
            ai_timer: 0,
            selections: Seq::new(n, |i: int| None),
            select_timer: 0,
            settled: false,
        }
    }

    /// The client can start the game of the room at a place.
    pub open spec fn can_start(self, client: u64, i: int) -> bool {
        self.rooms[i].host == client && self.rooms[i].game is None
    }

    /// After a client has asked to start the game.
    pub open spec fn started(self, client: u64, seed: u64) -> LobbyModel {
        match self.place_of(client) {
            Some(i) => if self.can_start(client, i) {
                let r = self.rooms[i];
                self.with_room(
                    i,
                    RoomModel { game: Some(self.game_made(r, seed)), in_game: true, ..r },
                )
            } else {
                self
            },
            None => self,
        }
    }

    pub open spec fn started_letters(self, client: u64, seed: u64) -> Seq<LetterModel> {
        match self.place_of(client) {
            Some(i) => if self.rooms[i].host != client {
                seq![
                    LetterModel {
                        to: client,
                        msg: ServerMsgModel::Error { text: "只有房主能开始游戏"@ },
                    },
                ]
            } else if self.rooms[i].game is Some {
                Seq::empty()
            } else {
                let r = self.started(client, seed).rooms[i];
                r.to_all(ServerMsgModel::GameStarting) + r.views()
            },
            None => Seq::empty(),
        }
    }

    /// The place of the room that a client plays in.
    pub open spec fn playing_at(self, client: u64) -> Option<int> {
        match self.place_of(client) {
            Some(i) => if self.rooms[i].game is Some {
                Some(i)
            } else {
                None
            },
            None => None,
        }
    }

    /// With another game in the room at a place.
    pub open spec fn with_game(self, i: int, g: RoomGameModel) -> LobbyModel {
        self.with_room(i, RoomModel { game: Some(g), ..self.rooms[i] })
    }

    /// After the client's game has become another one.
    pub open spec fn replayed(
        self,
        client: u64,
        f: spec_fn(RoomGameModel) -> RoomGameModel,
    ) -> LobbyModel {
        match self.playing_at(client) {
            Some(i) => self.with_game(i, f(self.rooms[i].game->0)),
            None => self,
        }
    }

    /// The table, to all who are in the client's room.
    pub open spec fn view_letters(self, client: u64) -> Seq<LetterModel> {
        match self.place_of(client) {
            Some(i) => self.rooms[i].views(),
            None => Seq::empty(),
        }
    }

    /// The action of a client counts: it is the client's turn, and the rules accept it.
    pub open spec fn action_counts(self, client: u64, action: Action) -> bool {
        match self.playing_at(client) {
            Some(i) => {
                let g = self.rooms[i].game->0;
                g.client_to_act() == Some(client) && !g.mtch.over() && g.mtch.hand.rejection(
                    action,
                ) is None
            },
            None => false,
        }
    }

    /// After a client has sent an action.
    pub open spec fn acted(self, client: u64, action: Action) -> LobbyModel {
        if self.action_counts(client, action) {
            self.replayed(client, |g: RoomGameModel| played(g, action))
        } else {
            self
        }
    }

    /// The rooms among the first `n` after `dt` has passed.
    pub open spec fn rooms_advanced(self, dt: u64, n: int) -> Seq<RoomModel>
        decreases n,
    {
        if n <= 0 {
            Seq::empty()
        } else {
            self.rooms_advanced(dt, n - 1).push(room_advanced(self.rooms[n - 1], dt))
        }
    }

    /// What goes out when time passes: the tables that have changed.
    pub open spec fn tick_letters(self, dt: u64, n: int) -> Seq<LetterModel>
        decreases n,
    {
        if n <= 0 {
            Seq::empty()
        } else {
            let r = self.rooms[n - 1];
            let before = self.tick_letters(dt, n - 1);
            match r.game {
                Some(g) => if g.advanced(dt).1 {
                    before + room_advanced(r, dt).views()
                } else {
                    before
                },
                None => before,
            }
        }
    }

    /// After `dt` has passed in every game.
    pub open spec fn ticked(self, dt: u64) -> LobbyModel {
        LobbyModel { rooms: self.rooms_advanced(dt, self.rooms.len() as int), ..self }
    }

    /// Time can pass in every game.
    pub open spec fn tick_fits(self) -> bool {
        forall|i: int|
            0 <= i < self.rooms.len() && (#[trigger] self.rooms[i]).game is Some
                ==> (self.rooms[i].game->0).advance_fits()
    }

    // ---- Requests ----

    /// After a request.
    pub open spec fn answered(self, client: u64, msg: ClientMsg, nanos: u64) -> LobbyModel {
        match msg {
            ClientMsg::Hello { name } => self.named(client, name@),
            ClientMsg::CreateRoom { room_name, max_players, fill_ai } => self.created(
                client,
                room_name@,
                max_players as int,
                fill_ai,
                nanos,
            ),
            ClientMsg::ListRooms => self,
            ClientMsg::JoinRoom { code } => self.joined(client, uppercase(trimmed(code@))),
            ClientMsg::LeaveRoom => self.left(client),
            ClientMsg::StartGame => self.started(client, seed_at(nanos)),
            ClientMsg::Act { action } => self.acted(client, action),
            ClientMsg::SelectCards { picks } => self.replayed(
                client,
                |g: RoomGameModel| selecting(g, client, picks),
            ),
            ClientMsg::Borrow => self.replayed(client, |g: RoomGameModel| borrowing(g, client)),
            ClientMsg::NextHand => self.replayed(
                client,
                |g: RoomGameModel| going_on(g, client),
            ),
        }
    }

    /// What goes out on a request.
    pub open spec fn answers(self, client: u64, msg: ClientMsg, nanos: u64) -> Seq<LetterModel> {
        match msg {
            ClientMsg::Hello { .. } => Seq::empty(),
            ClientMsg::CreateRoom { room_name, max_players, fill_ai } => self.created_letters(
                client,
                room_name@,
                max_players as int,
                fill_ai,
                nanos,
            ),
            ClientMsg::ListRooms => seq![
                LetterModel {
                    to: client,
                    msg: ServerMsgModel::RoomList {
                        rooms: room_list(self.rooms, self.rooms.len() as int),
                    },
                },
            ],
            ClientMsg::JoinRoom { code } => self.joined_letters(
                client,
                uppercase(trimmed(code@)),
            ),
            ClientMsg::LeaveRoom => self.left_letters(client).push(
                LetterModel { to: client, msg: ServerMsgModel::Left },
            ),
            ClientMsg::StartGame => self.started_letters(client, seed_at(nanos)),
            ClientMsg::Act { action } => if self.action_counts(client, action) {
                self.acted(client, action).view_letters(client)
            } else {
                Seq::empty()
            },
            ClientMsg::SelectCards { .. } | ClientMsg::Borrow | ClientMsg::NextHand =>
                self.answered(client, msg, nanos).view_letters(client),
        }
    }

    /// The request can be carried out within the limits of the machine, and does not join the
    /// room that it closes.
    pub open spec fn fits(self, client: u64, msg: ClientMsg) -> bool {
        match msg {
            ClientMsg::JoinRoom { code } => !self.would_close(client, uppercase(trimmed(code@))),
            ClientMsg::Borrow => self.borrow_fits(client),
            ClientMsg::NextHand => self.next_fits(client),
            _ => true,
        }
    }

    pub open spec fn borrow_fits(self, client: u64) -> bool {
        match self.playing_at(client) {
            Some(i) => {
                let g = self.rooms[i].game->0;
                match g.seat_of(client) {
                    Some(seat) => loan_fits(g.mtch, seat),
                    None => true,
                }
            },
            None => true,
        }
    }

    pub open spec fn next_fits(self, client: u64) -> bool {
        match self.playing_at(client) {
            Some(i) => {
                let g = self.rooms[i].game->0;
                goes_on(g, client) ==> next_hand_fits(g.mtch)
            },
            None => true,
        }
    }
}

/// A room after `dt` has passed.
pub open spec fn room_advanced(r: RoomModel, dt: u64) -> RoomModel {
    match r.game {
        Some(g) => RoomModel { game: Some(g.advanced(dt).0), ..r },
        None => r,
    }
}

/// A game after an accepted action.
pub open spec fn played(g: RoomGameModel, action: Action) -> RoomGameModel {
    RoomGameModel {
        mtch: MatchModel { hand: g.mtch.hand.after(action), ..g.mtch },
        ai_timer: 0,
        ..g
    }
}

/// A pick counts: it names cards that lie open, at an open showdown, for a seat in the hand.
pub open spec fn pick_counts(g: RoomGameModel, seat: int, picks: [usize; 3]) -> bool {
    &&& forall|k: int| 0 <= k < 3 ==> (#[trigger] picks@[k]) < g.mtch.hand.community.len()
    &&& g.mtch.over()
    &&& !g.settled
    &&& g.mtch.hand.players[seat].in_hand()
}

/// A game after a client has picked community cards.
pub open spec fn selecting(g: RoomGameModel, client: u64, picks: [usize; 3]) -> RoomGameModel {
    match g.seat_of(client) {
        Some(seat) => if pick_counts(g, seat, picks) {
            RoomGameModel { selections: g.selections.update(seat, Some(picks)), ..g }
        } else {
            g
        },
        None => g,
    }
}

/// A game after a client has asked for a loan.
pub open spec fn borrowing(g: RoomGameModel, client: u64) -> RoomGameModel {
    match g.seat_of(client) {
        Some(seat) => RoomGameModel { mtch: g.mtch.after_borrowing(seat), ..g },
        None => g,
    }
}

/// The client is the host of a settled hand.
pub open spec fn goes_on(g: RoomGameModel, client: u64) -> bool {
    client == g.host && g.settled && g.mtch.over()
}

/// A game after a client has asked for the next hand.
pub open spec fn going_on(g: RoomGameModel, client: u64) -> RoomGameModel {
    if goes_on(g, client) {
        RoomGameModel {
            mtch: g.mtch.moved_on().dealt(),
            settled: false,
            selections: Seq::new(g.seat_clients.len(), |i: int| None),
            select_timer: 0,
            ai_timer: 0,
            ..g
        }
    } else {
        g
    }
}

} // verus!
