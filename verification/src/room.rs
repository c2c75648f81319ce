//! The game in one room: who sits where, how it moves on, and what each client may see of it.
use crate::ai::{decide, decision};
use crate::game::Action;
use crate::game_model::GameModel;
use crate::playable::{playable_hands_can_be_acted_on, playable_hands_can_be_decided};
use crate::player::PlayerId;
use crate::session::{
    actions_keep_the_session, debts_fit, in_session, settling_keeps_the_session,
};
use crate::table::{Match, MatchModel};
use vstd::prelude::*;

verus! {

/// How long a seat of the machine waits before it acts, in nanoseconds.
pub const AI_DELAY: u64 = 800_000_000;

/// How long the showdown waits for picks, in nanoseconds.
pub const SELECT_TIMEOUT: u64 = 30_000_000_000;

/// Chips below which a player may always borrow.
pub const LOW_CHIPS: u32 = 100;

/// The game that runs in a room.
pub struct RoomGame {
    pub mtch: Match,
    /// The client in each seat; none for a seat of the machine.
    pub seat_clients: Vec<Option<u64>>,
    pub host: u64,
    /// How long the seat whose turn it is has waited, in nanoseconds.
    pub ai_timer: u64,
    /// The picks that seats have made at showdown.
    pub selections: Vec<Option<[usize; 3]>>,
    /// How long the showdown has waited, in nanoseconds.
    pub select_timer: u64,
    pub settled: bool,
}

/// The game of a room as a mathematical value.
pub struct RoomGameModel {
    pub mtch: MatchModel,
    pub seat_clients: Seq<Option<u64>>,
    pub host: u64,
    pub ai_timer: u64,
    pub selections: Seq<Option<[usize; 3]>>,
    pub select_timer: u64,
    pub settled: bool,
}

impl View for RoomGame {
    type V = RoomGameModel;

    open spec fn view(&self) -> RoomGameModel {
        RoomGameModel {
            mtch: self.mtch@,
            seat_clients: self.seat_clients@,
            host: self.host,
            ai_timer: self.ai_timer,
            selections: self.selections@,
            select_timer: self.select_timer,
            settled: self.settled,
        }
    }
}

/// A clock that has gone on by `dt`.
pub open spec fn later(timer: u64, dt: u64) -> u64 {
    if timer + dt > u64::MAX {
        u64::MAX
    } else {
        (timer + dt) as u64
    }
}

/// The hand after a player has tried an action: a refused one changes nothing.
pub open spec fn tried(g: GameModel, action: Action) -> GameModel {
    if g.rejection(action) is None {
        g.after(action)
    } else {
        g
    }
}

/// The first seat from `i` on that the client sits in.
pub open spec fn seat_from(seats: Seq<Option<u64>>, client: u64, i: int) -> Option<int>
    decreases seats.len() - i,
{
    if i >= seats.len() {
        None
    } else if seats[i] == Some(client) {
        Some(i)
    } else {
        seat_from(seats, client, i + 1)
    }
}

impl RoomGameModel {
    /// The seat of a client.
    pub open spec fn seat_of(self, client: u64) -> Option<int> {
        seat_from(self.seat_clients, client, 0)
    }

    /// The client whose turn it is, if the turn is a client's.
    pub open spec fn client_to_act(self) -> Option<u64> {
        if 0 <= self.mtch.hand.to_act < self.seat_clients.len() {
            self.seat_clients[self.mtch.hand.to_act]
        } else {
            None
        }
    }

    /// Seat `i` belongs to a client who is in the hand and has not picked yet.
    pub open spec fn waits_for(self, i: int) -> bool {
        self.seat_clients[i] is Some && self.mtch.hand.players[i].in_hand() && self.selections[i]
            is None
    }

    /// Every client in the hand has picked.
    pub open spec fn all_selected(self) -> bool {
        forall|i: int| 0 <= i < self.seat_clients.len() ==> !(#[trigger] self.waits_for(i))
    }

    /// The picks of the first `n` seats, under the names of their players.
    pub open spec fn submitted(self, n: int) -> Seq<(PlayerId, [usize; 3])>
        decreases n,
    {
        if n <= 0 {
            Seq::empty()
        } else {
            match self.selections[n - 1] {
                Some(p) => self.submitted(n - 1).push((self.mtch.hand.players[n - 1].id, p)),
                None => self.submitted(n - 1),
            }
        }
    }

    /// All picks.
    pub open spec fn picks(self) -> Seq<(PlayerId, [usize; 3])> {
        self.submitted(self.seat_clients.len() as int)
    }

    /// The game after `dt` has passed, and whether anything changed that clients can see. A
    /// seat of the machine acts after a while; a showdown is settled once all have picked, or
    /// after a longer while.
    pub open spec fn advanced(self, dt: u64) -> (RoomGameModel, bool) {
        if !self.mtch.over() {
            if self.client_to_act() is Some {
                (self, false)
            } else if later(self.ai_timer, dt) < AI_DELAY {
                (RoomGameModel { ai_timer: later(self.ai_timer, dt), ..self }, false)
            } else {
                let hand = self.mtch.hand;
                let mtch = MatchModel {
                    hand: tried(hand, decision(hand, hand.to_act)),
                    ..self.mtch
                };
                (RoomGameModel { mtch, ai_timer: 0, ..self }, true)
            }
        } else if !self.settled {
            let waited = RoomGameModel { select_timer: later(self.select_timer, dt), ..self };
            if self.all_selected() || waited.select_timer >= SELECT_TIMEOUT {
                let mtch = self.mtch.after_settling(self.picks());
                (RoomGameModel { mtch, settled: true, ..waited }, true)
            } else {
                (waited, false)
            }
        } else {
            (self, false)
        }
    }

    /// A game whose lists fit together and whose match is in session.
    pub open spec fn wf(self) -> bool {
        &&& in_session(self.mtch)
        &&& self.seat_clients.len() == self.mtch.seats.len()
        &&& self.selections.len() == self.mtch.seats.len()
        &&& self.settled == self.mtch.settled
    }

    /// Time can go on: where a showdown is open, the debts can bear interest.
    pub open spec fn advance_fits(self) -> bool {
        self.mtch.over() && !self.settled ==> debts_fit(self.mtch)
    }
}

impl RoomGame {
    pub open spec fn wf(&self) -> bool {
        self@.wf() && self.mtch.wf()
    }
}

fn everyone_selected(g: &RoomGame) -> (r: bool)
    requires
        g@.wf(),
    ensures
        r == g@.all_selected(),
{
    let mut i: usize = 0;
    while i < g.seat_clients.len()
        invariant
            i <= g.seat_clients@.len(),
            g@.wf(),
            forall|j: int| 0 <= j < i ==> !(#[trigger] g@.waits_for(j)),
        decreases g.seat_clients@.len() - i,
    {
        assert(g@.mtch.hand.players[i as int] == g.mtch.hand.players@[i as int]@);
        if g.seat_clients[i].is_some() && g.mtch.hand.players[i].is_in_hand()
            && g.selections[i].is_none() {
            assert(g@.waits_for(i as int));
            return false;
        }
        assert(!g@.waits_for(i as int));
        i = i + 1;
    }
    true
}

fn gather_picks(g: &RoomGame) -> (r: Vec<(PlayerId, [usize; 3])>)
    requires
        g@.wf(),
    ensures
        r@ == g@.picks(),
{
    let mut picks: Vec<(PlayerId, [usize; 3])> = Vec::new();
    let mut i: usize = 0;
    while i < g.seat_clients.len()
        invariant
            i <= g.seat_clients@.len(),
            g@.wf(),
            picks@ == g@.submitted(i as int),
        decreases g.seat_clients@.len() - i,
    {
        assert(g@.mtch.hand.players[i as int] == g.mtch.hand.players@[i as int]@);
        if let Some(p) = g.selections[i] {
            picks.push((g.mtch.hand.players[i].id, p));
        }
        i = i + 1;
    }
    picks
}

/// Lets the machine act for the seat whose turn it is.
pub(crate) fn act_for_seat(mtch: &mut Match)
    requires
        old(mtch).wf(),
        in_session(old(mtch)@),
        !old(mtch)@.over(),
    ensures
        final(mtch)@ == (MatchModel {
            hand: tried(
                old(mtch)@.hand,
                decision(old(mtch)@.hand, old(mtch)@.hand.to_act),
            ),
            ..old(mtch)@
        }),
        in_session(final(mtch)@),
        final(mtch).wf(),
{
    let ghost hand = mtch.hand@;
    let to_act: usize = mtch.hand.to_act;
    proof {
        playable_hands_can_be_decided(hand, to_act as int);
    }
    let action = decide(&mtch.hand, to_act);
    proof {
        playable_hands_can_be_acted_on(hand, action);
        if hand.rejection(action) is None {
            actions_keep_the_session(mtch@, action);
        }
    }
    let _played = mtch.hand.apply(action);
    assert(mtch.hand@ == tried(hand, action));
}

/// Settles a showdown with the picks that have been made.
fn settle_room(g: &mut RoomGame)
    requires
        old(g).wf(),
        debts_fit(old(g)@.mtch),
        old(g)@.mtch.over(),
        !old(g).settled,
    ensures
        final(g)@ == (RoomGameModel {
            mtch: old(g)@.mtch.after_settling(old(g)@.picks()),
            settled: true,
            ..old(g)@
        }),
        final(g).wf(),
{
    let picks = gather_picks(g);
    proof {
        settling_keeps_the_session(g.mtch@, picks@);
    }
    let _settlement = g.mtch.settle_hand(picks.as_slice());
    g.settled = true;
}

/// Lets time pass while a hand is being bet on.
fn advance_turn(g: &mut RoomGame, dt: u64) -> (r: bool)
    requires
        old(g).wf(),
        !old(g)@.mtch.over(),
    ensures
        (final(g)@, r) == old(g)@.advanced(dt),
        final(g).wf(),
{
    let to_act: usize = g.mtch.hand.to_act;
    if to_act < g.seat_clients.len() && g.seat_clients[to_act].is_some() {
        return false;
    }
    assert(g@.client_to_act() is None);
    let waited: u64 = g.ai_timer.saturating_add(dt);
    if waited < AI_DELAY {
        g.ai_timer = waited;
        return false;
    }
    g.ai_timer = 0;
    act_for_seat(&mut g.mtch);
    true
}

/// Lets time pass while a showdown waits for picks.
fn advance_showdown(g: &mut RoomGame, dt: u64) -> (r: bool)
    requires
        old(g).wf(),
        old(g)@.mtch.over(),
        !old(g).settled,
        debts_fit(old(g)@.mtch),
    ensures
        (final(g)@, r) == old(g)@.advanced(dt),
        final(g).wf(),
{
    let ghost start = g@;
    let ready = everyone_selected(g);
    g.select_timer = g.select_timer.saturating_add(dt);
    if ready || g.select_timer >= SELECT_TIMEOUT {
        proof {
            lemma_same_picks(start, g@, start.seat_clients.len() as int);
        }
        settle_room(g);
        return true;
    }
    false
}

proof fn lemma_same_picks(a: RoomGameModel, b: RoomGameModel, n: int)
    requires
        a.selections == b.selections,
        a.mtch == b.mtch,
    ensures
        a.submitted(n) == b.submitted(n),
    decreases n,
{
    if n > 0 {
        lemma_same_picks(a, b, n - 1);
    }
}

/// Lets `dt` nanoseconds pass in a game. Tells whether clients have to be shown the table again.
pub fn advance_game(g: &mut RoomGame, dt: u64) -> (r: bool)
    requires
        old(g).wf(),
        old(g)@.advance_fits(),
    ensures
        (final(g)@, r) == old(g)@.advanced(dt),
        final(g).wf(),
{
    if !g.mtch.hand_over() {
        advance_turn(g, dt)
    } else if !g.settled {
        advance_showdown(g, dt)
    } else {
        false
    }
}

} // verus!
