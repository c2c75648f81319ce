//! The lobby of a server: connections, rooms, and the games that run in them.
//!
//! Nothing is sent from here. Every request gives back the letters that have to go out.
use crate::game::Action;
use crate::lobby_laws::{lemma_home, lemma_playing, lemma_room_from, room_ok};
use crate::lobby_model::{
    borrowing, goes_on, going_on, played, selecting, all_but, cleaned, code_drawn, letter_drawn,
    presentable, room_advanced, room_from, room_list, seat_freed, seed_at, ConnModel, LobbyModel,
    RoomModel, CODE_MIX, MAX_NAME, MAX_SEATS, MIN_SEATS, SEED_MIX,
};
use crate::net::{
    letter_models, seat_number, ClientMsg, Letter, LetterModel, LobbyPlayer, LobbyPlayerModel,
    RoomInfo, RoomState, ServerMsg, ServerMsgModel,
};
use crate::rng::Rng;
use crate::room::{advance_game, RoomGame, RoomGameModel};
use crate::playable::playable_hands_can_be_acted_on;
use crate::session::{
    can_borrow, can_go_on, debts_can_grow, loan_fits, next_hand_fits, next_hands_keep_the_session,
};
use crate::table::{def_models, Match, SeatDef};
use crate::table_view::{build_view, games_in_order_can_be_shown, seat_position};
use crate::text::{
    ascii_text, dec, decimal, is_control_code, letters, trim, trimmed, upper_letter, uppercase,
};
use std::collections::HashMap;
use vstd::prelude::*;

verus! {

broadcast use vstd::std_specs::hash::group_hash_axioms;

/// A connected client.
pub struct Conn {
    pub name: String,
    /// The code of the room that the client is in.
    pub room: Option<String>,
}

/// A room.
pub struct Room {
    pub code: String,
    pub name: String,
    pub max_players: usize,
    pub fill_ai: bool,
    pub host: u64,
    /// In the order in which they came.
    pub members: Vec<u64>,
    pub in_game: bool,
    pub game: Option<RoomGame>,
}

/// All connections and rooms of a server.
pub struct Lobby {
    pub conns: HashMap<u64, Conn>,
    /// In the order in which they were opened. No two have the same code.
    pub rooms: Vec<Room>,
    /// How many codes have been drawn.
    pub seq: u64,
}

/// Text, if there is any, as a mathematical value.
pub open spec fn text_model(text: Option<String>) -> Option<Seq<char>> {
    match text {
        Some(t) => Some(t@),
        None => None,
    }
}

impl View for Conn {
    type V = ConnModel;

    open spec fn view(&self) -> ConnModel {
        ConnModel { name: self.name@, room: text_model(self.room) }
    }
}

/// A game, if there is one, as a mathematical value.
pub open spec fn game_model(game: Option<RoomGame>) -> Option<RoomGameModel> {
    match game {
        Some(g) => Some(g@),
        None => None,
    }
}

impl View for Room {
    type V = RoomModel;

    open spec fn view(&self) -> RoomModel {
        RoomModel {
            code: self.code@,
            name: self.name@,
            max_players: self.max_players as int,
            fill_ai: self.fill_ai,
            host: self.host,
            members: self.members@,
            in_game: self.in_game,
            game: game_model(self.game),
        }
    }
}

impl View for Lobby {
    type V = LobbyModel;

    open spec fn view(&self) -> LobbyModel {
        LobbyModel {
            conns: self.conns@.map_values(|c: Conn| c@),
            rooms: self.rooms@.map_values(|r: Room| r@),
            seq: self.seq,
        }
    }
}

impl Room {
    /// The match of the game, if there is one, has its outcome at hand once it is settled.
    pub open spec fn game_wf(&self) -> bool {
        match self.game {
            Some(g) => g.mtch.wf(),
            None => true,
        }
    }
}

/// Cuts a name to what is shown of it.
pub fn sanitize_name(s: &str) -> (r: String)
    ensures
        r@ == presentable(s@),
{
    let t = trim(s);
    let cs = letters(t);
    let ghost keep = |c: char| !is_control_code(c);
    let ghost kept = trimmed(s@).filter(keep);
    let mut r = String::new();
    let mut count: usize = 0;
    let mut i: usize = 0;
    assert(cs@.take(0).filter(keep) =~= Seq::empty()) by {
        reveal(Seq::filter);
    }
    while i < cs.len() && count < MAX_NAME
        invariant
            i <= cs@.len(),
            cs@ == t@,
            keep == (|c: char| !is_control_code(c)),
            r@ == cs@.take(i as int).filter(keep),
            r@.len() == count,
            count <= MAX_NAME,
        decreases cs@.len() - i,
    {
        assert(cs@.take(i + 1).drop_last() =~= cs@.take(i as int));
        proof {
            reveal(Seq::filter);
        }
        if !cs[i].is_control() {
            let c = t.substring_char(i, i + 1);
            assert(c@ =~= seq![cs@[i as int]]);
            r.append(c);
            count = count + 1;
        }
        assert(r@ =~= cs@.take(i + 1).filter(keep));
        i = i + 1;
    }
    proof {
        assert(cs@ =~= cs@.take(i as int) + cs@.skip(i as int));
        Seq::filter_distributes_over_add(cs@.take(i as int), cs@.skip(i as int), keep);
        if i == cs@.len() {
            assert(cs@.take(i as int) =~= cs@);
        } else {
            assert(kept.take(MAX_NAME as int) =~= r@);
        }
        assert(cleaned(s@) =~= r@);
    }
    if count == 0 {
        "Player".to_owned()
    } else {
        r
    }
}

/// A room code as it is looked up: trimmed and in upper case.
pub fn typed_code(code: &str) -> (r: String)
    ensures
        r@ == uppercase(trimmed(code@)),
        ascii_text(trimmed(code@)) ==> r@ == trimmed(code@).map_values(|c: char| upper_letter(c)),
{
    trim(code).to_uppercase()
}

/// The seed of a match that starts at the given time.
pub fn random_seed(nanos: u64) -> (r: u64)
    ensures
        r == seed_at(nanos),
{
    let mut rng = Rng::new(nanos ^ SEED_MIX);
    rng.next_u64()
}

fn letter_of(draw: u64) -> (r: &'static str)
    ensures
        r@ == seq![letter_drawn(draw)],
{
    let k: usize = (draw % 26) as usize;
    let alphabet = "ABCDEFGHIJKLMNOPQRSTUVWXYZ";
    proof {
        reveal_strlit("ABCDEFGHIJKLMNOPQRSTUVWXYZ");
    }
    let r = alphabet.substring_char(k, k + 1);
    assert(r@ =~= seq![letter_drawn(draw)]);
    r
}

/// The code that a generator with the given seed draws: four capital letters.
fn draw_code(seed: u64) -> (r: String)
    ensures
        r@ == code_drawn(seed),
{
    let mut rng = Rng::new(seed);
    let mut r = String::new();
    r.append(letter_of(rng.next_u64()));
    r.append(letter_of(rng.next_u64()));
    r.append(letter_of(rng.next_u64()));
    r.append(letter_of(rng.next_u64()));
    assert(r@ =~= code_drawn(seed));
    r
}

impl Lobby {
    /// A lobby in order.
    pub open spec fn wf(&self) -> bool {
        &&& self@.wf()
        &&& forall|i: int| 0 <= i < self.rooms@.len() ==> (#[trigger] self.rooms@[i]).game_wf()
    }

    /// A lobby with nobody in it.
    pub fn new() -> (r: Self)
        ensures
            r@.conns == Map::<u64, ConnModel>::empty(),
            r@.rooms == Seq::<RoomModel>::empty(),
            r@.seq == 0,
            r.wf(),
    {
        let r = Lobby { conns: HashMap::new(), rooms: Vec::new(), seq: 0 };
        assert(r@.conns =~= Map::empty());
        assert(r@.rooms =~= Seq::empty());
        r
    }

    fn find_room(&self, code: &String) -> (r: Option<usize>)
        ensures
            seat_number(r) == self@.room_at(code@),
            match r {
                Some(i) => i < self.rooms@.len() && self.rooms@[i as int].code@ == code@,
                None => true,
            },
    {
        let mut i: usize = 0;
        while i < self.rooms.len()
            invariant
                i <= self.rooms@.len(),
                room_from(self@.rooms, code@, 0) == room_from(self@.rooms, code@, i as int),
            decreases self.rooms@.len() - i,
        {
            assert(self@.rooms[i as int] == self.rooms@[i as int]@);
            if self.rooms[i].code == *code {
                return Some(i);
            }
            i = i + 1;
        }
        None
    }

    fn room_code_of(&self, client: u64) -> (r: Option<String>)
        ensures
            text_model(r) == self@.code_of(client),
    {
        match self.conns.get(&client) {
            Some(c) => match &c.room {
                Some(code) => Some(code.clone()),
                None => None,
            },
            None => None,
        }
    }

    /// The place of the room that a client is in.
    fn home_of(&self, client: u64) -> (r: Option<usize>)
        ensures
            seat_number(r) == self@.place_of(client),
            match r {
                Some(i) => i < self.rooms@.len(),
                None => true,
            },
    {
        match self.room_code_of(client) {
            Some(code) => self.find_room(&code),
            None => None,
        }
    }

    fn name_of(&self, client: u64, fallback: &str) -> (r: String)
        ensures
            r@ == self@.name_or(client, fallback@),
    {
        match self.conns.get(&client) {
            Some(c) => c.name.clone(),
            None => fallback.to_owned(),
        }
    }

    fn set_room(&mut self, client: u64, room: Option<String>)
        ensures
            final(self)@ == old(self)@.moved(client, text_model(room)),
            final(self).rooms@ == old(self).rooms@,
    {
        let ghost start = self@;
        if let Some(c) = self.conns.remove(&client) {
            self.conns.insert(client, Conn { name: c.name, room });
            assert(self@.conns =~= start.moved(client, text_model(room)).conns);
        } else {
            assert(self@.conns =~= start.conns);
        }
    }

    fn set_name(&mut self, client: u64, name: &str)
        ensures
            final(self)@ == old(self)@.named(client, name@),
            final(self).rooms@ == old(self).rooms@,
    {
        let ghost start = self@;
        if let Some(c) = self.conns.remove(&client) {
            self.conns.insert(client, Conn { name: sanitize_name(name), room: c.room });
            assert(self@.conns =~= start.named(client, name@).conns);
        } else {
            assert(self@.conns =~= start.conns);
        }
    }
}

// ---- Letters ----

impl Lobby {
    /// The room at a place as its members see it.
    fn room_state(&self, i: usize) -> (r: RoomState)
        requires
            i < self.rooms@.len(),
        ensures
            r@ == self@.state_of(self@.rooms[i as int]),
    {
        let r = &self.rooms[i];
        assert(self@.rooms[i as int] == r@);
        let mut players: Vec<LobbyPlayer> = Vec::new();
        let mut k: usize = 0;
        while k < r.members.len()
            invariant
                k <= r.members@.len(),
                players@.len() == k,
                forall|j: int|
                    0 <= j < k ==> (#[trigger] players@[j])@ == (LobbyPlayerModel {
                        id: r.members@[j],
                        name: self@.name_or(r.members@[j], Seq::empty()),
                    }),
            decreases r.members@.len() - k,
        {
            let id: u64 = r.members[k];
            proof {
                reveal_strlit("");
                assert(""@ =~= Seq::empty());
            }
            players.push(LobbyPlayer { id, name: self.name_of(id, "") });
            k = k + 1;
        }
        let state = RoomState {
            code: r.code.clone(),
            name: r.name.clone(),
            max_players: r.max_players,
            fill_ai: r.fill_ai,
            host: r.host,
            players,
            in_game: r.in_game,
        };
        assert(state@.players =~= self@.state_of(r@).players);
        state
    }

    /// Writes to all members of a room how it is now.
    fn broadcast_update(&self, i: usize, out: &mut Vec<Letter>)
        requires
            i < self.rooms@.len(),
        ensures
            letter_models(final(out)@) == letter_models(old(out)@) + self@.rooms[i as int].to_all(
                ServerMsgModel::RoomUpdate { room: self@.state_of(self@.rooms[i as int]) },
            ),
    {
        let ghost start = letter_models(out@);
        let ghost msg = ServerMsgModel::RoomUpdate {
            room: self@.state_of(self@.rooms[i as int]),
        };
        let ghost goal = self@.rooms[i as int].to_all(msg);
        let mut k: usize = 0;
        assert(letter_models(out@) =~= start + goal.take(0));
        assert(self@.rooms[i as int].members == self.rooms@[i as int].members@);
        while k < self.rooms[i].members.len()
            invariant
                i < self.rooms@.len(),
                k <= self.rooms@[i as int].members@.len(),
                self@.rooms[i as int].members == self.rooms@[i as int].members@,
                msg == (ServerMsgModel::RoomUpdate {
                    room: self@.state_of(self@.rooms[i as int]),
                }),
                goal == self@.rooms[i as int].to_all(msg),
                letter_models(out@) == start + goal.take(k as int),
            decreases self.rooms@[i as int].members@.len() - k,
        {
            let ghost before = out@;
            let letter = Letter {
                to: self.rooms[i].members[k],
                msg: ServerMsg::RoomUpdate { room: self.room_state(i) },
            };
            out.push(letter);
            assert(letter_models(out@) =~= letter_models(before).push(letter@));
            assert(letter@ == goal[k as int]);
            k = k + 1;
            assert(letter_models(out@) =~= start + goal.take(k as int));
        }
        assert(goal.take(k as int) =~= goal);
    }

    /// Writes to the members of a room but one how it is now.
    fn broadcast_update_except(&self, i: usize, except: u64, out: &mut Vec<Letter>)
        requires
            i < self.rooms@.len(),
        ensures
            letter_models(final(out)@) == letter_models(old(out)@)
                + self@.rooms[i as int].to_others(
                except,
                ServerMsgModel::RoomUpdate { room: self@.state_of(self@.rooms[i as int]) },
            ),
    {
        let ghost start = letter_models(out@);
        let ghost msg = ServerMsgModel::RoomUpdate {
            room: self@.state_of(self@.rooms[i as int]),
        };
        let ghost members = self@.rooms[i as int].members;
        let mut k: usize = 0;
        assert(members == self.rooms@[i as int].members@);
        proof {
            reveal(Seq::filter);
            assert(letter_models(out@) =~= start + letters_to(all_but(members.take(0), except), msg));
        }
        while k < self.rooms[i].members.len()
            invariant
                i < self.rooms@.len(),
                k <= members.len(),
                members == self@.rooms[i as int].members,
                members == self.rooms@[i as int].members@,
                msg == (ServerMsgModel::RoomUpdate {
                    room: self@.state_of(self@.rooms[i as int]),
                }),
                letter_models(out@) == start + letters_to(
                    all_but(members.take(k as int), except),
                    msg,
                ),
            decreases members.len() - k,
        {
            let ghost before = out@;
            let m: u64 = self.rooms[i].members[k];
            proof {
                reveal(Seq::filter);
                assert(members.take(k + 1).drop_last() =~= members.take(k as int));
            }
            if m != except {
                let letter = Letter {
                    to: m,
                    msg: ServerMsg::RoomUpdate { room: self.room_state(i) },
                };
                out.push(letter);
                assert(letter_models(out@) =~= letter_models(before).push(letter@));
                assert(letters_to(all_but(members.take(k + 1), except), msg) =~= letters_to(
                    all_but(members.take(k as int), except),
                    msg,
                ).push(letter@));
            }
            k = k + 1;
            assert(letter_models(out@) =~= start + letters_to(
                all_but(members.take(k as int), except),
                msg,
            ));
        }
        assert(members.take(k as int) =~= members);
        assert(letters_to(all_but(members, except), msg) =~= self@.rooms[i as int].to_others(
            except,
            msg,
        ));
    }

    /// Writes to all members of a room that the game begins.
    fn broadcast_starting(&self, i: usize, out: &mut Vec<Letter>)
        requires
            i < self.rooms@.len(),
        ensures
            letter_models(final(out)@) == letter_models(old(out)@) + self@.rooms[i as int].to_all(
                ServerMsgModel::GameStarting,
            ),
    {
        let ghost start = letter_models(out@);
        let ghost goal = self@.rooms[i as int].to_all(ServerMsgModel::GameStarting);
        let mut k: usize = 0;
        assert(letter_models(out@) =~= start + goal.take(0));
        assert(self@.rooms[i as int].members == self.rooms@[i as int].members@);
        while k < self.rooms[i].members.len()
            invariant
                i < self.rooms@.len(),
                k <= self.rooms@[i as int].members@.len(),
                self@.rooms[i as int].members == self.rooms@[i as int].members@,
                goal == self@.rooms[i as int].to_all(ServerMsgModel::GameStarting),
                letter_models(out@) == start + goal.take(k as int),
            decreases self.rooms@[i as int].members@.len() - k,
        {
            let ghost before = out@;
            let letter = Letter { to: self.rooms[i].members[k], msg: ServerMsg::GameStarting };
            out.push(letter);
            assert(letter_models(out@) =~= letter_models(before).push(letter@));
            assert(letter@ == goal[k as int]);
            k = k + 1;
            assert(letter_models(out@) =~= start + goal.take(k as int));
        }
        assert(goal.take(k as int) =~= goal);
    }

    /// Shows the table of a room to all its members, each as the member may see it.
    fn broadcast_views(&self, i: usize, out: &mut Vec<Letter>)
        requires
            i < self.rooms@.len(),
            match self@.rooms[i as int].game {
                Some(g) => g.wf(),
                None => true,
            },
        ensures
            letter_models(final(out)@) == letter_models(old(out)@)
                + self@.rooms[i as int].views(),
    {
        let ghost start = letter_models(out@);
        let ghost goal = self@.rooms[i as int].views();
        let r = &self.rooms[i];
        assert(self@.rooms[i as int] == r@);
        if let Some(g) = &r.game {
            let mut k: usize = 0;
            assert(letter_models(out@) =~= start + goal.take(0));
            proof {
                games_in_order_can_be_shown(g@);
            }
            while k < r.members.len()
                invariant
                    k <= r.members@.len(),
                    g@.can_be_shown(),
                    goal == r@.views(),
                    r@.game == Some(g@),
                    letter_models(out@) == start + goal.take(k as int),
                decreases r.members@.len() - k,
            {
                let ghost before = out@;
                let m: u64 = r.members[k];
                let letter = Letter { to: m, msg: ServerMsg::View { view: build_view(g, m) } };
                out.push(letter);
                assert(letter_models(out@) =~= letter_models(before).push(letter@));
                assert(letter@ == goal[k as int]);
                k = k + 1;
                assert(letter_models(out@) =~= start + goal.take(k as int));
            }
            assert(goal.take(k as int) =~= goal);
        } else {
            assert(letter_models(out@) =~= start + goal);
        }
    }
}

// ---- Rooms ----

/// Gives the seat of a client to the machine.
fn free_seat(g: &mut RoomGame, client: u64)
    ensures
        final(g)@ == seat_freed(old(g)@, client),
        final(g).mtch == old(g).mtch,
{
    if let Some(i) = seat_position(&g.seat_clients, client) {
        g.seat_clients.set(i, None);
    }
}

fn members_but(members: &Vec<u64>, client: u64) -> (r: Vec<u64>)
    ensures
        r@ == all_but(members@, client),
{
    let mut kept: Vec<u64> = Vec::new();
    let mut k: usize = 0;
    proof {
        reveal(Seq::filter);
        assert(kept@ =~= all_but(members@.take(0), client));
    }
    while k < members.len()
        invariant
            k <= members@.len(),
            kept@ == all_but(members@.take(k as int), client),
        decreases members@.len() - k,
    {
        proof {
            reveal(Seq::filter);
            assert(members@.take(k + 1).drop_last() =~= members@.take(k as int));
        }
        if members[k] != client {
            kept.push(members[k]);
        }
        k = k + 1;
    }
    assert(members@.take(k as int) =~= members@);
    kept
}

/// Takes a client out of a room.
fn drop_member(r: &mut Room, client: u64)
    ensures
        final(r)@ == old(r)@.without(client),
        old(r).game_wf() ==> final(r).game_wf(),
{
    let kept = members_but(&r.members, client);
    let passes = r.host == client && kept.len() > 0;
    match &mut r.game {
        Some(g) => {
            free_seat(g, client);
            if passes {
                g.host = kept[0];
            }
        },
        None => {},
    }
    if passes {
        r.host = kept[0];
    }
    r.members = kept;
}

fn has_member(r: &Room, client: u64) -> (found: bool)
    ensures
        found == r@.members.contains(client),
{
    let mut k: usize = 0;
    while k < r.members.len()
        invariant
            k <= r.members@.len(),
            forall|j: int| 0 <= j < k ==> r.members@[j] != client,
        decreases r.members@.len() - k,
    {
        if r.members[k] == client {
            return true;
        }
        k = k + 1;
    }
    false
}

impl Lobby {
    /// Takes a client out of its room and tells those who stay.
    fn leave_room(&mut self, client: u64, out: &mut Vec<Letter>)
        requires
            old(self).wf(),
        ensures
            final(self)@ == old(self)@.left(client),
            final(self).wf(),
            letter_models(final(out)@) == letter_models(old(out)@) + old(self)@.left_letters(
                client,
            ),
    {
        let ghost start = self@;
        let ghost sent = letter_models(out@);
        proof {
            crate::lobby_laws::leaving_keeps_order(start, client);
        }
        let code = match self.room_code_of(client) {
            Some(code) => code,
            None => {
                assert(letter_models(out@) =~= sent + start.left_letters(client));
                return;
            },
        };
        proof {
            lemma_home(start, client);
        }
        self.set_room(client, None);
        let ghost gone = self@;
        assert(gone.rooms == start.rooms);
        if let Some(i) = self.find_room(&code) {
            assert(self@.rooms[i as int] == self.rooms@[i as int]@);
            let ghost w = start.rooms[i as int].without(client);
            drop_member(&mut self.rooms[i], client);
            assert(self@.rooms =~= gone.rooms.update(i as int, w));
            if self.rooms[i].members.len() == 0 {
                self.rooms.remove(i);
                assert(self@.rooms =~= start.left(client).rooms);
                assert(w.to_all(ServerMsgModel::RoomUpdate { room: start.state_of(w) })
                    =~= Seq::empty());
                assert(w.views() =~= Seq::empty());
                assert(letter_models(out@) =~= sent + start.left_letters(client));
            } else {
                assert(self@ == start.left(client));
                assert(room_ok(self@.rooms[i as int]));
                assert(self@.state_of(w) == start.state_of(w)) by {
                    assert(self@.state_of(w).players =~= start.state_of(w).players);
                }
                self.broadcast_update(i, out);
                self.broadcast_views(i, out);
                assert(letter_models(out@) =~= sent + start.left_letters(client));
            }
        }
    }

    /// A client has connected.
    pub fn on_connect(&mut self, client: u64) -> (r: Vec<Letter>)
        requires
            old(self).wf(),
        ensures
            final(self)@ == old(self)@.connected(client),
            final(self).wf(),
            letter_models(r@) == seq![
                LetterModel { to: client, msg: ServerMsgModel::Welcome { your_id: client } },
            ],
    {
        let ghost start = self@;
        proof {
            crate::lobby_laws::connecting_keeps_order(start, client);
        }
        let mut name = "Player".to_owned();
        name.append(decimal(client).as_str());
        self.conns.insert(client, Conn { name, room: None });
        assert(self@.conns =~= start.connected(client).conns);
        let mut out: Vec<Letter> = Vec::new();
        out.push(Letter { to: client, msg: ServerMsg::Welcome { your_id: client } });
        assert(letter_models(out@) =~= seq![
            LetterModel { to: client, msg: ServerMsgModel::Welcome { your_id: client } },
        ]);
        out
    }

    /// A client has disconnected.
    pub fn on_disconnect(&mut self, client: u64) -> (r: Vec<Letter>)
        requires
            old(self).wf(),
        ensures
            final(self)@ == old(self)@.disconnected(client),
            final(self).wf(),
            letter_models(r@) == old(self)@.left_letters(client),
    {
        let ghost start = self@;
        proof {
            crate::lobby_laws::disconnecting_keeps_order(start, client);
        }
        let mut out: Vec<Letter> = Vec::new();
        self.leave_room(client, &mut out);
        self.conns.remove(&client);
        assert(self@.conns =~= start.disconnected(client).conns);
        assert(letter_models(out@) =~= start.left_letters(client));
        out
    }
}

impl Lobby {
    /// Draws a code for a new room from the clock and the count of codes. Gives none if it is
    /// taken.
    fn gen_code(&mut self, nanos: u64) -> (r: Option<String>)
        ensures
            final(self)@ == old(self)@.counted(),
            final(self).rooms@ == old(self).rooms@,
            match r {
                Some(code) => code@ == old(self)@.counted().code_at(nanos) && old(
                    self,
                )@.counted().room_at(code@) is None,
                None => old(self)@.counted().room_at(old(self)@.counted().code_at(nanos)) is Some,
            },
    {
        self.seq = self.seq.wrapping_add(1);
        let code = draw_code(nanos ^ self.seq.wrapping_mul(CODE_MIX));
        match self.find_room(&code) {
            Some(_) => None,
            None => Some(code),
        }
    }

    /// Opens a room for a client, who leaves the one it is in. Tells whether the room was
    /// opened; it was not if the code that came up is taken.
    fn create_room(
        &mut self,
        client: u64,
        room_name: &str,
        max_players: usize,
        fill_ai: bool,
        nanos: u64,
        out: &mut Vec<Letter>,
    ) -> (r: bool)
        requires
            old(self).wf(),
        ensures
            final(self)@ == old(self)@.created(
                client,
                room_name@,
                max_players as int,
                fill_ai,
                nanos,
            ),
            final(self).wf(),
            r == !old(self)@.code_is_taken(client, nanos),
            letter_models(final(out)@) == letter_models(old(out)@) + old(self)@.created_letters(
                client,
                room_name@,
                max_players as int,
                fill_ai,
                nanos,
            ),
    {
        let ghost start = self@;
        let ghost sent = letter_models(out@);
        proof {
            crate::lobby_laws::creating_keeps_order(
                start,
                client,
                room_name@,
                max_players as int,
                fill_ai,
                nanos,
            );
        }
        self.leave_room(client, out);
        let code = match self.gen_code(nanos) {
            Some(code) => code,
            None => {
                return false;
            },
        };
        let ghost l = self@;
        let size: usize = if max_players < MIN_SEATS {
            MIN_SEATS
        } else if max_players > MAX_SEATS {
            MAX_SEATS
        } else {
            max_players
        };
        let mut members: Vec<u64> = Vec::new();
        members.push(client);
        assert(members@ =~= seq![client]);
        let room = Room {
            code: code.clone(),
            name: sanitize_name(room_name),
            max_players: size,
            fill_ai,
            host: client,
            members,
            in_game: false,
            game: None,
        };
        let ghost made = LobbyModel::room_made(
            client,
            code@,
            room_name@,
            max_players as int,
            fill_ai,
        );
        assert(room@ == made);
        let ghost rooms_before = self.rooms@;
        self.rooms.push(room);
        let n: usize = self.rooms.len() - 1;
        self.set_room(client, Some(code));
        assert(self@.rooms =~= l.rooms.push(made));
        assert(self@ == l.opened(client, made));
        let ghost before = letter_models(out@);
        let letter = Letter { to: client, msg: ServerMsg::Joined { room: self.room_state(n) } };
        out.push(letter);
        assert(letter_models(out@) =~= before.push(letter@));
        assert(letter_models(out@) =~= sent + start.created_letters(
            client,
            room_name@,
            max_players as int,
            fill_ai,
            nanos,
        ));
        assert forall|i: int| 0 <= i < self.rooms@.len() implies (
        #[trigger] self.rooms@[i]).game_wf() by {
            if i < rooms_before.len() {
                assert(rooms_before[i].game_wf());
            }
        }
        true
    }

    /// The rooms that can be joined.
    fn list_rooms(&self) -> (r: Vec<RoomInfo>)
        ensures
            r@.map_values(|x: RoomInfo| x@) == room_list(self@.rooms, self@.rooms.len() as int),
    {
        let mut list: Vec<RoomInfo> = Vec::new();
        let mut i: usize = 0;
        assert(list@.map_values(|x: RoomInfo| x@) =~= room_list(self@.rooms, 0));
        while i < self.rooms.len()
            invariant
                i <= self.rooms@.len(),
                list@.map_values(|x: RoomInfo| x@) == room_list(self@.rooms, i as int),
            decreases self.rooms@.len() - i,
        {
            let r = &self.rooms[i];
            assert(self@.rooms[i as int] == r@);
            if !r.in_game && r.members.len() < r.max_players {
                let ghost before = list@;
                let line = RoomInfo {
                    code: r.code.clone(),
                    name: r.name.clone(),
                    players: r.members.len(),
                    max_players: r.max_players,
                    in_game: r.in_game,
                };
                assert(line@ == r@.listed());
                list.push(line);
                assert(list@.map_values(|x: RoomInfo| x@) =~= before.map_values(
                    |x: RoomInfo| x@,
                ).push(line@));
            }
            i = i + 1;
        }
        list
    }

    /// Why the room with the code cannot be joined, if it cannot.
    fn refusal_of(&self, code: &String) -> (r: Option<&'static str>)
        ensures
            match r {
                Some(text) => self@.refusal(code@) == Some(text@),
                None => self@.refusal(code@) is None,
            },
    {
        match self.find_room(code) {
            None => Some("房间号不存在"),
            Some(i) => {
                assert(self@.rooms[i as int] == self.rooms@[i as int]@);
                if self.rooms[i].in_game {
                    Some("该房间已开始游戏")
                } else if self.rooms[i].members.len() >= self.rooms[i].max_players {
                    Some("房间已满")
                } else {
                    None
                }
            },
        }
    }

    /// Joins the room with exactly the given code. The client leaves the room it is in.
    pub fn join_room(&mut self, client: u64, code: String) -> (r: Vec<Letter>)
        requires
            old(self).wf(),
            !old(self)@.would_close(client, code@),
        ensures
            final(self)@ == old(self)@.joined(client, code@),
            final(self).wf(),
            letter_models(r@) == old(self)@.joined_letters(client, code@),
    {
        let ghost start = self@;
        proof {
            crate::lobby_laws::joining_keeps_order(start, client, code@);
        }
        let mut out: Vec<Letter> = Vec::new();
        if let Some(text) = self.refusal_of(&code) {
            out.push(Letter { to: client, msg: ServerMsg::Error { text: text.to_owned() } });
            assert(letter_models(out@) =~= start.joined_letters(client, code@));
            return out;
        }
        self.leave_room(client, &mut out);
        let ghost left = self@;
        let ghost rooms_before = self.rooms@;
        proof {
            lemma_room_from(left.rooms, code@, 0);
        }
        if let Some(i) = self.find_room(&code) {
            assert(self@.rooms[i as int] == self.rooms@[i as int]@);
            if !has_member(&self.rooms[i], client) {
                self.rooms[i].members.push(client);
            }
            assert(self@.rooms =~= left.rooms.update(i as int, left.rooms[i as int].with(client)));
            self.set_room(client, Some(code));
            assert(self@ == start.joined(client, code@));
            let ghost before = letter_models(out@);
            let letter = Letter { to: client, msg: ServerMsg::Joined { room: self.room_state(i) } };
            out.push(letter);
            assert(letter_models(out@) =~= before.push(letter@));
            self.broadcast_update_except(i, client, &mut out);
            assert(letter_models(out@) =~= start.joined_letters(client, code@));
            assert forall|k: int| 0 <= k < self.rooms@.len() implies (
            #[trigger] self.rooms@[k]).game_wf() by {
                assert(rooms_before[k].game_wf());
            }
        }
        out
    }
}

// ---- Games ----

fn machine_name(k: usize) -> (r: String)
    ensures
        r@ == "AI-"@ + dec(k as nat),
{
    let mut r = "AI-".to_owned();
    r.append(decimal(k as u64).as_str());
    r
}

/// How many seats the game of a room gets.
fn seats_needed(r: &Room) -> (n: usize)
    ensures
        n == LobbyModel::seats_for(r@),
{
    let humans: usize = r.members.len();
    let wanted: usize = if r.fill_ai && r.max_players > humans {
        r.max_players
    } else {
        humans
    };
    if wanted < MIN_SEATS {
        MIN_SEATS
    } else if wanted > MAX_SEATS {
        MAX_SEATS
    } else {
        wanted
    }
}

impl Lobby {
    /// The seats of a new game in the room at a place.
    fn seat_list(&self, i: usize, total: usize) -> (r: Vec<SeatDef>)
        requires
            i < self.rooms@.len(),
            total == LobbyModel::seats_for(self@.rooms[i as int]),
            self@.rooms[i as int].members.len() <= total,
        ensures
            def_models(r@) == self@.seat_defs(self@.rooms[i as int]),
    {
        let r = &self.rooms[i];
        assert(self@.rooms[i as int] == r@);
        let humans: usize = r.members.len();
        let ghost goal = self@.seat_defs(r@);
        let mut defs: Vec<SeatDef> = Vec::new();
        let mut k: usize = 0;
        while k < total
            invariant
                k <= total,
                humans == r.members@.len(),
                humans <= total,
                total == goal.len(),
                goal == self@.seat_defs(r@),
                defs@.len() == k,
                forall|j: int| 0 <= j < k ==> (#[trigger] defs@[j])@ == goal[j],
            decreases total - k,
        {
            if k < humans {
                defs.push(SeatDef::new(self.name_of(r.members[k], "Player"), false));
            } else {
                defs.push(SeatDef::new(machine_name(k - humans + 1), true));
            }
            assert(defs@[k as int]@ == goal[k as int]);
            k = k + 1;
        }
        assert(def_models(defs@) =~= goal);
        defs
    }

    /// A new game for the room at a place.
    fn make_game(&self, i: usize, seed: u64) -> (g: RoomGame)
        requires
            i < self.rooms@.len(),
            room_ok(self@.rooms[i as int]),
        ensures
            g@ == self@.game_made(self@.rooms[i as int], seed),
            g.mtch.wf(),
    {
        proof {
            crate::lobby_laws::lemma_game_made(self@, self@.rooms[i as int], seed);
        }
        let total: usize = seats_needed(&self.rooms[i]);
        let defs = self.seat_list(i, total);
        let r = &self.rooms[i];
        assert(self@.rooms[i as int] == r@);
        let ghost goal = self@.game_made(r@, seed);
        let mut seat_clients: Vec<Option<u64>> = Vec::new();
        let mut selections: Vec<Option<[usize; 3]>> = Vec::new();
        let mut k: usize = 0;
        while k < total
            invariant
                k <= total,
                total == goal.seat_clients.len(),
                total == goal.selections.len(),
                goal == self@.game_made(r@, seed),
                seat_clients@ == goal.seat_clients.take(k as int),
                selections@ == goal.selections.take(k as int),
            decreases total - k,
        {
            if k < r.members.len() {
                seat_clients.push(Some(r.members[k]));
            } else {
                seat_clients.push(None);
            }
            selections.push(None);
            k = k + 1;
            assert(seat_clients@ =~= goal.seat_clients.take(k as int));
            assert(selections@ =~= goal.selections.take(k as int));
        }
        assert(goal.seat_clients.take(k as int) =~= goal.seat_clients);
        assert(goal.selections.take(k as int) =~= goal.selections);
        RoomGame {
            mtch: Match::new(defs, seed),
            seat_clients,
            host: r.host,
            ai_timer: 0,
            selections,
            select_timer: 0,
            settled: false,
        }
    }

    /// A client wants to start the game of its room.
    pub fn start_game(&mut self, client: u64, seed: u64) -> (out: Vec<Letter>)
        requires
            old(self).wf(),
        ensures
            final(self)@ == old(self)@.started(client, seed),
            final(self).wf(),
            letter_models(out@) == old(self)@.started_letters(client, seed),
    {
        let ghost start = self@;
        let ghost rooms_before = self.rooms@;
        proof {
            crate::lobby_laws::starting_keeps_order(start, client, seed);
        }
        let mut out: Vec<Letter> = Vec::new();
        let i = match self.home_of(client) {
            Some(i) => i,
            None => {
                assert(letter_models(out@) =~= start.started_letters(client, seed));
                return out;
            },
        };
        proof {
            lemma_home(start, client);
        }
        assert(self@.rooms[i as int] == self.rooms@[i as int]@);
        if self.rooms[i].host != client {
            out.push(
                Letter {
                    to: client,
                    msg: ServerMsg::Error { text: "只有房主能开始游戏".to_owned() },
                },
            );
            assert(letter_models(out@) =~= start.started_letters(client, seed));
            return out;
        }
        if self.rooms[i].game.is_some() {
            assert(letter_models(out@) =~= start.started_letters(client, seed));
            return out;
        }
        let g = self.make_game(i, seed);
        self.rooms[i].game = Some(g);
        self.rooms[i].in_game = true;
        assert(self@.rooms =~= start.started(client, seed).rooms);
        assert(room_ok(self@.rooms[i as int]));
        self.broadcast_starting(i, &mut out);
        self.broadcast_views(i, &mut out);
        assert(letter_models(out@) =~= start.started_letters(client, seed));
        assert forall|k: int| 0 <= k < self.rooms@.len() implies (
        #[trigger] self.rooms@[k]).game_wf() by {
            assert(rooms_before[k].game_wf());
        }
        out
    }

    /// The place of the room that a client plays in.
    fn table_of(&self, client: u64) -> (r: Option<usize>)
        ensures
            seat_number(r) == self@.playing_at(client),
            match r {
                Some(i) => i < self.rooms@.len() && self.rooms@[i as int].game is Some,
                None => true,
            },
    {
        match self.home_of(client) {
            Some(i) => {
                assert(self@.rooms[i as int] == self.rooms@[i as int]@);
                if self.rooms[i].game.is_some() {
                    Some(i)
                } else {
                    None
                }
            },
            None => None,
        }
    }

    /// The table, to all who are in a client's room.
    fn show_table(&self, client: u64) -> (out: Vec<Letter>)
        requires
            self.wf(),
        ensures
            letter_models(out@) == self@.view_letters(client),
    {
        let mut out: Vec<Letter> = Vec::new();
        if let Some(i) = self.home_of(client) {
            proof {
                lemma_home(self@, client);
            }
            self.broadcast_views(i, &mut out);
        }
        assert(letter_models(out@) =~= self@.view_letters(client));
        out
    }
}

/// Carries out a client's action at a table. Tells whether it counted.
fn act_at(g: &mut RoomGame, client: u64, action: Action) -> (r: bool)
    requires
        old(g).wf(),
    ensures
        r == (old(g)@.client_to_act() == Some(client) && !old(g)@.mtch.over() && old(
            g,
        )@.mtch.hand.rejection(action) is None),
        final(g)@ == (if r {
            played(old(g)@, action)
        } else {
            old(g)@
        }),
        final(g).mtch.wf(),
{
    let to_act: usize = g.mtch.hand.to_act;
    let is_their_turn = to_act < g.seat_clients.len() && g.seat_clients[to_act] == Some(client);
    if !is_their_turn || g.mtch.hand_over() {
        return false;
    }
    proof {
        playable_hands_can_be_acted_on(g.mtch.hand@, action);
    }
    match g.mtch.hand.apply(action) {
        Ok(_) => {
            g.ai_timer = 0;
            true
        },
        Err(_) => false,
    }
}

/// Takes down the community cards that a client has picked.
fn select_at(g: &mut RoomGame, client: u64, picks: [usize; 3])
    requires
        old(g).wf(),
    ensures
        final(g)@ == selecting(old(g)@, client, picks),
        final(g).mtch == old(g).mtch,
{
    if let Some(seat) = seat_position(&g.seat_clients, client) {
        assert(g@.mtch.hand.players[seat as int] == g.mtch.hand.players@[seat as int]@);
        let n: usize = g.mtch.hand.community.len();
        let valid = picks[0] < n && picks[1] < n && picks[2] < n;
        assert(valid == (forall|k: int| 0 <= k < 3 ==> (#[trigger] picks@[k]) < n)) by {
            if !valid {
                assert(!(picks@[0] < n) || !(picks@[1] < n) || !(picks@[2] < n));
            }
        }
        if valid && g.mtch.hand_over() && !g.settled && g.mtch.hand.players[seat].is_in_hand() {
            g.selections.set(seat, Some(picks));
        }
    }
}

/// Lends a client a buy-in.
fn lend_at(g: &mut RoomGame, client: u64)
    requires
        old(g).wf(),
        match old(g)@.seat_of(client) {
            Some(seat) => loan_fits(old(g)@.mtch, seat),
            None => true,
        },
    ensures
        final(g)@ == borrowing(old(g)@, client),
        final(g).mtch.wf(),
{
    if let Some(seat) = seat_position(&g.seat_clients, client) {
        g.mtch.borrow(seat);
    }
}

/// Goes on to the next hand, if the client may ask for it.
fn go_on_at(g: &mut RoomGame, client: u64)
    requires
        old(g).wf(),
        goes_on(old(g)@, client) ==> next_hand_fits(old(g)@.mtch),
    ensures
        final(g)@ == going_on(old(g)@, client),
        final(g).mtch.wf(),
{
    if client == g.host && g.settled && g.mtch.hand_over() {
        proof {
            next_hands_keep_the_session(g.mtch@);
        }
        g.mtch.next_hand();
        g.settled = false;
        let n: usize = g.seat_clients.len();
        g.selections = no_picks(n);
        g.select_timer = 0;
        g.ai_timer = 0;
    }
}

fn no_picks(n: usize) -> (r: Vec<Option<[usize; 3]>>)
    ensures
        r@ == Seq::new(n as nat, |i: int| None::<[usize; 3]>),
{
    let mut r: Vec<Option<[usize; 3]>> = Vec::new();
    let mut k: usize = 0;
    while k < n
        invariant
            k <= n,
            r@.len() == k,
            forall|j: int| 0 <= j < k ==> (#[trigger] r@[j]) is None,
        decreases n - k,
    {
        r.push(None);
        k = k + 1;
    }
    assert(r@ =~= Seq::new(n as nat, |i: int| None::<[usize; 3]>));
    r
}

impl Lobby {
    /// A client acts at its table.
    pub fn on_act(&mut self, client: u64, action: Action) -> (out: Vec<Letter>)
        requires
            old(self).wf(),
        ensures
            final(self)@ == old(self)@.acted(client, action),
            final(self).wf(),
            letter_models(out@) == (if old(self)@.action_counts(client, action) {
                old(self)@.acted(client, action).view_letters(client)
            } else {
                Seq::empty()
            }),
    {
        let ghost start = self@;
        let ghost rooms_before = self.rooms@;
        proof {
            crate::lobby_laws::acting_keeps_order(start, client, action);
        }
        let mut ok = false;
        if let Some(i) = self.table_of(client) {
            proof {
                lemma_playing(start, client);
            }
            assert(self@.rooms[i as int] == self.rooms@[i as int]@);
            assert(rooms_before[i as int].game_wf());
            match &mut self.rooms[i].game {
                Some(g) => {
                    ok = act_at(g, client, action);
                },
                None => {},
            }
            assert(self@.rooms =~= start.acted(client, action).rooms);
            assert forall|k: int| 0 <= k < self.rooms@.len() implies (
            #[trigger] self.rooms@[k]).game_wf() by {
                assert(rooms_before[k].game_wf());
            }
        }
        if ok {
            self.show_table(client)
        } else {
            let out: Vec<Letter> = Vec::new();
            assert(letter_models(out@) =~= Seq::empty());
            out
        }
    }

    /// A client picks its community cards.
    pub fn on_select(&mut self, client: u64, picks: [usize; 3]) -> (out: Vec<Letter>)
        requires
            old(self).wf(),
        ensures
            final(self)@ == old(self)@.replayed(
                client,
                |g: RoomGameModel| selecting(g, client, picks),
            ),
            final(self).wf(),
            letter_models(out@) == final(self)@.view_letters(client),
    {
        let ghost start = self@;
        let ghost rooms_before = self.rooms@;
        proof {
            crate::lobby_laws::picking_keeps_order(start, client, picks);
        }
        if let Some(i) = self.table_of(client) {
            proof {
                lemma_playing(start, client);
            }
            assert(self@.rooms[i as int] == self.rooms@[i as int]@);
            assert(rooms_before[i as int].game_wf());
            match &mut self.rooms[i].game {
                Some(g) => {
                    select_at(g, client, picks);
                },
                None => {},
            }
            assert(self@.rooms =~= start.replayed(
                client,
                |g: RoomGameModel| selecting(g, client, picks),
            ).rooms);
            assert forall|k: int| 0 <= k < self.rooms@.len() implies (
            #[trigger] self.rooms@[k]).game_wf() by {
                assert(rooms_before[k].game_wf());
            }
        }
        self.show_table(client)
    }

    /// A client borrows a buy-in.
    pub fn on_borrow(&mut self, client: u64) -> (out: Vec<Letter>)
        requires
            old(self).wf(),
            old(self)@.borrow_fits(client),
        ensures
            final(self)@ == old(self)@.replayed(client, |g: RoomGameModel| borrowing(g, client)),
            final(self).wf(),
            letter_models(out@) == final(self)@.view_letters(client),
    {
        let ghost start = self@;
        let ghost rooms_before = self.rooms@;
        proof {
            crate::lobby_laws::lending_keeps_order(start, client);
        }
        if let Some(i) = self.table_of(client) {
            proof {
                lemma_playing(start, client);
            }
            assert(self@.rooms[i as int] == self.rooms@[i as int]@);
            assert(rooms_before[i as int].game_wf());
            match &mut self.rooms[i].game {
                Some(g) => {
                    lend_at(g, client);
                },
                None => {},
            }
            assert(self@.rooms =~= start.replayed(
                client,
                |g: RoomGameModel| borrowing(g, client),
            ).rooms);
            assert forall|k: int| 0 <= k < self.rooms@.len() implies (
            #[trigger] self.rooms@[k]).game_wf() by {
                assert(rooms_before[k].game_wf());
            }
        }
        self.show_table(client)
    }

    /// A client asks for the next hand.
    pub fn on_next_hand(&mut self, client: u64) -> (out: Vec<Letter>)
        requires
            old(self).wf(),
            old(self)@.next_fits(client),
        ensures
            final(self)@ == old(self)@.replayed(client, |g: RoomGameModel| going_on(g, client)),
            final(self).wf(),
            letter_models(out@) == final(self)@.view_letters(client),
    {
        let ghost start = self@;
        let ghost rooms_before = self.rooms@;
        proof {
            crate::lobby_laws::going_on_keeps_order(start, client);
        }
        if let Some(i) = self.table_of(client) {
            proof {
                lemma_playing(start, client);
            }
            assert(self@.rooms[i as int] == self.rooms@[i as int]@);
            assert(rooms_before[i as int].game_wf());
            match &mut self.rooms[i].game {
                Some(g) => {
                    go_on_at(g, client);
                },
                None => {},
            }
            assert(self@.rooms =~= start.replayed(
                client,
                |g: RoomGameModel| going_on(g, client),
            ).rooms);
            assert forall|k: int| 0 <= k < self.rooms@.len() implies (
            #[trigger] self.rooms@[k]).game_wf() by {
                assert(rooms_before[k].game_wf());
            }
        }
        self.show_table(client)
    }
}

// ---- Time ----

/// Lets time pass in the game of a room. Tells whether its table has to be shown again.
fn tick_room(r: &mut Room, dt: u64) -> (changed: bool)
    requires
        old(r).game_wf(),
        match old(r)@.game {
            Some(g) => g.wf() && g.advance_fits(),
            None => true,
        },
    ensures
        final(r)@ == room_advanced(old(r)@, dt),
        final(r).game_wf(),
        changed == (match old(r)@.game {
            Some(g) => g.advanced(dt).1,
            None => false,
        }),
{
    match &mut r.game {
        Some(g) => advance_game(g, dt),
        None => false,
    }
}

impl Lobby {
    /// Lets `dt` nanoseconds pass in every game.
    pub fn tick_games(&mut self, dt: u64) -> (out: Vec<Letter>)
        requires
            old(self).wf(),
            old(self)@.tick_fits(),
        ensures
            final(self)@ == old(self)@.ticked(dt),
            final(self).wf(),
            letter_models(out@) == old(self)@.tick_letters(dt, old(self)@.rooms.len() as int),
    {
        let ghost start = self@;
        proof {
            crate::lobby_laws::time_keeps_order(start, dt);
        }
        let mut out: Vec<Letter> = Vec::new();
        let n: usize = self.rooms.len();
        let mut i: usize = 0;
        assert(letter_models(out@) =~= start.tick_letters(dt, 0));
        while i < n
            invariant
                i <= n,
                n == self.rooms@.len(),
                n == start.rooms.len(),
                start.wf(),
                start.tick_fits(),
                self@ == (LobbyModel { rooms: self@.rooms, ..start }),
                forall|k: int|
                    0 <= k < n ==> #[trigger] self@.rooms[k] == (if k < i {
                        room_advanced(start.rooms[k], dt)
                    } else {
                        start.rooms[k]
                    }),
                forall|k: int| 0 <= k < n ==> (#[trigger] self.rooms@[k]).game_wf(),
                letter_models(out@) == start.tick_letters(dt, i as int),
            decreases n - i,
        {
            let ghost before = self.rooms@;
            let ghost known = self@.rooms;
            assert(self@.rooms[i as int] == self.rooms@[i as int]@);
            assert(room_ok(start.rooms[i as int]));
            assert(before[i as int].game_wf());
            let dirty = tick_room(&mut self.rooms[i], dt);
            assert(self@.rooms[i as int] == room_advanced(start.rooms[i as int], dt));
            assert forall|k: int| 0 <= k < n && k != i implies #[trigger] self.rooms@[k]
                == before[k] by {}
            assert forall|k: int| 0 <= k < n implies #[trigger] self@.rooms[k] == (if k < i + 1 {
                room_advanced(start.rooms[k], dt)
            } else {
                start.rooms[k]
            }) by {
                if k != i {
                    assert(self.rooms@[k] == before[k]);
                    assert(before[k]@ == known[k]);
                }
            }
            if dirty {
                proof {
                    crate::lobby_laws::time_keeps_games_in_order(
                        start.rooms[i as int].game->0,
                        dt,
                    );
                }
                self.broadcast_views(i, &mut out);
            }
            i = i + 1;
        }
        proof {
            crate::lobby_laws::lemma_rooms_advanced(start, dt, n as int);
        }
        assert(self@.rooms =~= start.ticked(dt).rooms);
        out
    }

    /// Time can pass in every game.
    pub fn can_tick(&self) -> (r: bool)
        ensures
            r == self@.tick_fits(),
    {
        let mut i: usize = 0;
        while i < self.rooms.len()
            invariant
                i <= self.rooms@.len(),
                forall|k: int|
                    0 <= k < i && (#[trigger] self@.rooms[k]).game is Some ==> (
                    self@.rooms[k].game->0).advance_fits(),
            decreases self.rooms@.len() - i,
        {
            assert(self@.rooms[i as int] == self.rooms@[i as int]@);
            if let Some(g) = &self.rooms[i].game {
                if g.mtch.hand_over() && !g.settled && !debts_can_grow(&g.mtch) {
                    assert(self@.rooms[i as int].game == Some(g@));
                    return false;
                }
            }
            i = i + 1;
        }
        true
    }
}

// ---- Requests ----

/// What a request leads to.
pub struct Outcome {
    /// What has to be sent, in order.
    pub letters: Vec<Letter>,
    /// The request, if it has to be made again at a later time: the code that came up for a
    /// room was taken.
    pub again: Option<ClientMsg>,
}

impl Lobby {
    /// The request can be carried out.
    pub fn fits(&self, client: u64, msg: &ClientMsg) -> (r: bool)
        requires
            self.wf(),
        ensures
            r == self@.fits(client, *msg),
    {
        match msg {
            ClientMsg::JoinRoom { code } => {
                let code = typed_code(code.as_str());
                !self.closes_by_joining(client, &code)
            },
            ClientMsg::Borrow => match self.table_of(client) {
                Some(i) => {
                    proof {
                        lemma_playing(self@, client);
                    }
                    assert(self@.rooms[i as int] == self.rooms@[i as int]@);
                    match &self.rooms[i].game {
                        Some(g) => match seat_position(&g.seat_clients, client) {
                            Some(seat) => can_borrow(&g.mtch, seat),
                            None => true,
                        },
                        None => true,
                    }
                },
                None => true,
            },
            ClientMsg::NextHand => match self.table_of(client) {
                Some(i) => {
                    proof {
                        lemma_playing(self@, client);
                    }
                    assert(self@.rooms[i as int] == self.rooms@[i as int]@);
                    match &self.rooms[i].game {
                        Some(g) => !(client == g.host && g.settled && g.mtch.hand_over())
                            || can_go_on(&g.mtch),
                        None => true,
                    }
                },
                None => true,
            },
            _ => true,
        }
    }

    /// The client is the only member of the room that it wants to join.
    fn closes_by_joining(&self, client: u64, code: &String) -> (r: bool)
        requires
            self.wf(),
        ensures
            r == self@.would_close(client, code@),
    {
        if self.refusal_of(code).is_some() {
            return false;
        }
        let home = match self.room_code_of(client) {
            Some(home) => home,
            None => {
                return false;
            },
        };
        proof {
            lemma_home(self@, client);
            crate::lobby_laws::lemma_closing(self@, client, code@);
        }
        if home != *code {
            return false;
        }
        match self.find_room(code) {
            Some(i) => {
                assert(self@.rooms[i as int] == self.rooms@[i as int]@);
                members_but(&self.rooms[i].members, client).len() == 0
            },
            None => false,
        }
    }

    /// Carries out the request of a client. `nanos` is the time on the clock.
    pub fn handle(&mut self, client: u64, msg: ClientMsg, nanos: u64) -> (r: Outcome)
        requires
            old(self).wf(),
            old(self)@.fits(client, msg),
        ensures
            final(self)@ == old(self)@.answered(client, msg, nanos),
            final(self).wf(),
            letter_models(r.letters@) == old(self)@.answers(client, msg, nanos),
            r.again == (if msg is CreateRoom && old(self)@.code_is_taken(client, nanos) {
                Some(msg)
            } else {
                None
            }),
    {
        let ghost start = self@;
        proof {
            crate::lobby_laws::requests_keep_order(start, client, msg, nanos);
        }
        let mut again: Option<ClientMsg> = None;
        let letters = match msg {
            ClientMsg::Hello { name } => {
                self.set_name(client, name.as_str());
                let out: Vec<Letter> = Vec::new();
                assert(letter_models(out@) =~= Seq::empty());
                out
            },
            ClientMsg::CreateRoom { room_name, max_players, fill_ai } => {
                let mut out: Vec<Letter> = Vec::new();
                let made = self.create_room(
                    client,
                    room_name.as_str(),
                    max_players,
                    fill_ai,
                    nanos,
                    &mut out,
                );
                if !made {
                    again = Some(ClientMsg::CreateRoom { room_name, max_players, fill_ai });
                }
                assert(letter_models(out@) =~= start.answers(client, msg, nanos));
                out
            },
            ClientMsg::ListRooms => {
                let mut out: Vec<Letter> = Vec::new();
                out.push(
                    Letter { to: client, msg: ServerMsg::RoomList { rooms: self.list_rooms() } },
                );
                assert(letter_models(out@) =~= start.answers(client, msg, nanos));
                out
            },
            ClientMsg::JoinRoom { code } => self.join_room(client, typed_code(code.as_str())),
            ClientMsg::LeaveRoom => {
                let mut out: Vec<Letter> = Vec::new();
                self.leave_room(client, &mut out);
                out.push(Letter { to: client, msg: ServerMsg::Left });
                assert(letter_models(out@) =~= start.answers(client, msg, nanos));
                out
            },
            ClientMsg::StartGame => self.start_game(client, random_seed(nanos)),
            ClientMsg::Act { action } => self.on_act(client, action),
            ClientMsg::SelectCards { picks } => self.on_select(client, picks),
            ClientMsg::Borrow => self.on_borrow(client),
            ClientMsg::NextHand => self.on_next_hand(client),
        };
        Outcome { letters, again }
    }

    /// Carries out the request of a client if it can be carried out; gives none, and changes
    /// nothing, if it cannot.
    pub fn receive(&mut self, client: u64, msg: ClientMsg, nanos: u64) -> (r: Option<Outcome>)
        requires
            old(self).wf(),
        ensures
            final(self).wf(),
            match r {
                Some(o) => {
                    &&& old(self)@.fits(client, msg)
                    &&& final(self)@ == old(self)@.answered(client, msg, nanos)
                    &&& letter_models(o.letters@) == old(self)@.answers(client, msg, nanos)
                    &&& o.again == (if msg is CreateRoom && old(self)@.code_is_taken(
                        client,
                        nanos,
                    ) {
                        Some(msg)
                    } else {
                        None
                    })
                },
                None => !old(self)@.fits(client, msg) && final(self)@ == old(self)@,
            },
    {
        if self.fits(client, &msg) {
            Some(self.handle(client, msg, nanos))
        } else {
            None
        }
    }
}

/// The same message to each of some clients.
spec fn letters_to(clients: Seq<u64>, msg: ServerMsgModel) -> Seq<LetterModel> {
    clients.map_values(|m: u64| LetterModel { to: m, msg })
}

} // verus!
