//! A match of many hands: bank, loans, bookkeeping and scenes.
//!
//! A `Game` is one hand. A `Match` keeps the chips and the debts of every seat from hand to
//! hand. Nobody is ever eliminated: a player without chips borrows a buy-in from the bank, at
//! interest.
use crate::cards::{Adventurer, Class, Scene};
use crate::game::{
    adventurer_kinds, sample_adventurer_deck, Game, Phase, Settlement,
};
use crate::game_model::{models, total_ante, GameModel, SettlementModel};
use crate::player::{Player, PlayerId, PlayerModel, PlayerStatus};
use crate::rng::{first_draw, next_state, shuffled, state_after_shuffle, Rng};
use vstd::prelude::*;

verus! {

/// The chips of one buy-in, and of one loan.
pub const BUY_IN: u32 = 1000;

/// Interest on a debt for each hand, in percent.
pub const INTEREST_PCT: u32 = 5;

/// The ante of the first hands.
pub const BASE_ANTE: u32 = 10;

/// What a seat is opened with. Its chips come from the match.
pub struct SeatDef {
    pub name: String,
    pub is_ai: bool,
}

/// What a `SeatDef` is, as a mathematical value.
pub struct SeatDefModel {
    pub name: Seq<char>,
    pub is_ai: bool,
}

impl View for SeatDef {
    type V = SeatDefModel;

    open spec fn view(&self) -> SeatDefModel {
        SeatDefModel { name: self.name@, is_ai: self.is_ai }
    }
}

/// The seats of a new match as mathematical values.
pub open spec fn def_models(defs: Seq<SeatDef>) -> Seq<SeatDefModel> {
    defs.map_values(|d: SeatDef| d@)
}

impl SeatDef {
    pub fn new(name: String, is_ai: bool) -> (r: Self)
        ensures
            r@ == (SeatDefModel { name: name@, is_ai }),
    {
        Self { name, is_ai }
    }
}

/// A seat: its chips and its debt last from hand to hand.
#[derive(Debug, Clone)]
pub struct Seat {
    pub id: PlayerId,
    pub name: String,
    pub is_ai: bool,
    pub chips: u32,
    /// What the seat owes the bank: loans and the interest on them.
    pub debt: u32,
    /// How many buy-ins the seat has borrowed.
    pub loans: u32,
}

/// What a `Seat` is, as a mathematical value.
pub struct SeatModel {
    pub id: PlayerId,
    pub name: Seq<char>,
    pub is_ai: bool,
    pub chips: int,
    pub debt: int,
    pub loans: int,
}

impl SeatModel {
    /// Chips less debt.
    pub open spec fn worth(self) -> int {
        self.chips - self.debt
    }

    /// After another loan of one buy-in.
    pub open spec fn borrowing(self) -> SeatModel {
        SeatModel {
            chips: self.chips + BUY_IN,
            debt: self.debt + BUY_IN,
            loans: self.loans + 1,
            ..self
        }
    }

    /// The seat is played by the machine and cannot pay the ante.
    pub open spec fn is_broke(self, ante: int) -> bool {
        self.is_ai && self.chips < ante
    }

    /// After the bank has staked a broke seat.
    pub open spec fn staked(self, ante: int) -> SeatModel {
        if self.is_broke(ante) {
            self.borrowing()
        } else {
            self
        }
    }

    /// After the interest of one hand.
    pub open spec fn charged(self) -> SeatModel {
        SeatModel { debt: self.debt + interest(self.debt), ..self }
    }

    pub open spec fn borrowing_fits(self) -> bool {
        &&& self.chips + BUY_IN <= u32::MAX
        &&& self.debt + BUY_IN <= u32::MAX
        &&& self.loans + 1 <= u32::MAX
    }
}

/// The interest on a debt for one hand: at least one chip, nothing without a debt.
pub open spec fn interest(debt: int) -> int {
    if debt <= 0 {
        0
    } else if debt * INTEREST_PCT / 100 > 1 {
        debt * INTEREST_PCT / 100
    } else {
        1
    }
}

impl View for Seat {
    type V = SeatModel;

    open spec fn view(&self) -> SeatModel {
        SeatModel {
            id: self.id,
            name: self.name@,
            is_ai: self.is_ai,
            chips: self.chips as int,
            debt: self.debt as int,
            loans: self.loans as int,
        }
    }
}

impl Seat {
    /// Chips less debt.
    pub fn net_worth(&self) -> (r: i64)
        ensures
            r == self@.worth(),
    {
        self.chips as i64 - self.debt as i64
    }

    /// Net worth less the first buy-in: above zero the seat has won, below it has lost.
    pub fn profit(&self) -> (r: i64)
        ensures
            r == self@.worth() - BUY_IN,
    {
        self.net_worth() - BUY_IN as i64
    }
}

/// The part of a match that only dealing touches.
pub struct Dealer {
    rng: Rng,
    adv_deck: Vec<Adventurer>,
}

impl Dealer {
    /// The state of the generator.
    pub closed spec fn state(&self) -> u64 {
        self.rng@
    }

    /// The hole cards, in the order of the last shuffle.
    pub closed spec fn deck(&self) -> Seq<Adventurer> {
        self.adv_deck@
    }
}

/// A match of many hands.
pub struct Match {
    pub seats: Vec<Seat>,
    /// The hand that is being played.
    pub hand: Game,
    /// How many hands have been played before this one.
    pub hand_no: u32,
    /// The ante of this hand. It rises with the hands.
    pub ante: u32,
    /// The seat of the dealer, which moves on with every hand.
    pub button: usize,
    /// The scene of this hand.
    pub scene: Scene,
    /// A pot that nobody won, which goes into the pot of the next hand.
    pub carry: u32,
    /// This hand has been booked.
    pub settled: bool,
    /// The outcome of this hand, once it has been booked.
    pub last: Option<Settlement>,
    /// What only dealing touches: the generator and the hole cards.
    pub dealer: Dealer,
}

/// The seats as mathematical values.
pub open spec fn seat_models(seats: Seq<Seat>) -> Seq<SeatModel> {
    seats.map_values(|s: Seat| s@)
}

/// The outcome, if there is one, as a mathematical value.
pub open spec fn outcome_model(last: Option<Settlement>) -> Option<SettlementModel> {
    match last {
        Some(s) => Some(s@),
        None => None,
    }
}

/// A match as a mathematical value.
pub struct MatchModel {
    pub seats: Seq<SeatModel>,
    pub hand: GameModel,
    pub hand_no: int,
    pub ante: int,
    pub button: int,
    pub scene: Scene,
    pub carry: int,
    pub settled: bool,
    pub last: Option<SettlementModel>,
    pub state: u64,
    pub deck: Seq<Adventurer>,
}

impl View for Match {
    type V = MatchModel;

    open spec fn view(&self) -> MatchModel {
        MatchModel {
            seats: seat_models(self.seats@),
            hand: self.hand@,
            hand_no: self.hand_no as int,
            ante: self.ante as int,
            button: self.button as int,
            scene: self.scene,
            carry: self.carry as int,
            settled: self.settled,
            last: outcome_model(self.last),
            state: self.dealer.state(),
            deck: self.dealer.deck(),
        }
    }
}

/// The ante of a hand: one more base ante for every five hands played.
pub open spec fn ante_of(hand_no: int) -> int {
    BASE_ANTE * (1 + hand_no / 5)
}

/// The scene that a drawn number stands for.
pub open spec fn scene_drawn(draw: u64) -> Scene {
    Scene::ALL@[(draw as usize % 6) as int]
}

/// The card at a place of the deck, or the fallback where the deck has run out.
pub open spec fn card_or(deck: Seq<Adventurer>, place: int, fallback: Adventurer) -> Adventurer {
    if place < deck.len() {
        deck[place]
    } else {
        fallback
    }
}

/// The hole cards of seat `i`: the next two of the deck.
pub open spec fn hole_dealt(deck: Seq<Adventurer>, i: int) -> Seq<Adventurer> {
    seq![
        card_or(
            deck,
            2 * i,
            Adventurer { class: Class::Warrior, power: 3, health: 9, art: "Warrior" },
        ),
        card_or(
            deck,
            2 * i + 1,
            Adventurer { class: Class::Mage, power: 6, health: 3, art: "Mage" },
        ),
    ]
}

/// The players of a new hand.
pub open spec fn players_dealt(
    seats: Seq<SeatModel>,
    deck: Seq<Adventurer>,
) -> Seq<PlayerModel> {
    Seq::new(
        seats.len(),
        |i: int|
            PlayerModel {
                id: seats[i].id,
                name: seats[i].name,
                is_ai: seats[i].is_ai,
                chips: seats[i].chips,
                hole: hole_dealt(deck, i),
                status: PlayerStatus::Active,
                committed: 0,
            },
    )
}

/// The first place from `i` on of the player with the given name.
pub open spec fn place_of(players: Seq<PlayerModel>, id: PlayerId, i: int) -> Option<int>
    decreases players.len() - i,
{
    if i >= players.len() {
        None
    } else if players[i].id == id {
        Some(i)
    } else {
        place_of(players, id, i + 1)
    }
}

/// The players after the pot has gone to the winner.
pub open spec fn paid_out(
    players: Seq<PlayerModel>,
    winner: Option<PlayerId>,
    pot: int,
) -> Seq<PlayerModel> {
    match winner {
        Some(id) => match place_of(players, id, 0) {
            Some(i) => players.update(
                i,
                PlayerModel { chips: players[i].chips + pot, ..players[i] },
            ),
            None => players,
        },
        None => players,
    }
}

/// The seats after the chips of the hand have been written back and interest has been charged.
pub open spec fn booked(seats: Seq<SeatModel>, players: Seq<PlayerModel>) -> Seq<SeatModel> {
    Seq::new(
        seats.len(),
        |i: int|
            if i < players.len() {
                SeatModel { chips: players[i].chips, ..seats[i] }.charged()
            } else {
                seats[i].charged()
            },
    )
}

impl MatchModel {
    /// The hand has come to its showdown.
    pub open spec fn over(self) -> bool {
        self.hand.over()
    }

    /// The seats after broke ones have been staked for the next hand.
    pub open spec fn seats_staked(self) -> Seq<SeatModel> {
        let ante = ante_of(self.hand_no);
        self.seats.map_values(|s: SeatModel| s.staked(ante))
    }

    /// The deck of hole cards after the shuffle of the next hand.
    pub open spec fn deck_shuffled(self) -> Seq<Adventurer> {
        shuffled(self.deck, next_state(self.state))
    }

    /// The state of the generator after that shuffle.
    pub open spec fn state_shuffled(self) -> u64 {
        state_after_shuffle(next_state(self.state), self.deck.len())
    }

    /// The match after a new hand has been dealt: broke seats of the machine are staked, the
    /// scene and the cards are drawn, antes are taken, and what was carried over joins the pot.
    pub open spec fn dealt(self) -> MatchModel {
        let seats = self.seats_staked();
        let ante = ante_of(self.hand_no);
        let scene = scene_drawn(first_draw(self.state));
        let deck = self.deck_shuffled();
        let opened = GameModel::opening(
            players_dealt(seats, deck),
            ante,
            first_draw(self.state_shuffled()),
        );
        MatchModel {
            seats,
            hand: GameModel { scene, pot: opened.pot + self.carry, ..opened },
            hand_no: self.hand_no,
            ante,
            button: self.button,
            scene,
            carry: 0,
            settled: false,
            last: None,
            state: next_state(self.state_shuffled()),
            deck,
        }
    }

    /// The numbers of a deal fit the registers they are kept in.
    pub open spec fn deal_fits(self) -> bool {
        let ante = ante_of(self.hand_no);
        &&& ante <= u32::MAX
        &&& forall|i: int|
            0 <= i < self.seats.len() && (#[trigger] self.seats[i]).is_broke(ante)
                ==> self.seats[i].borrowing_fits()
        &&& total_ante(players_dealt(self.seats_staked(), self.deck_shuffled()), ante) + self.carry
            <= u32::MAX
    }

    /// A match before its first hand.
    pub open spec fn fresh(defs: Seq<SeatDefModel>, seed: u64) -> MatchModel {
        MatchModel {
            seats: Seq::new(
                defs.len(),
                |i: int|
                    SeatModel {
                        id: PlayerId(i as u32),
                        name: defs[i].name,
                        is_ai: defs[i].is_ai,
                        chips: BUY_IN as int,
                        debt: 0,
                        loans: 0,
                    },
            ),
            hand: GameModel::opening(Seq::empty(), 0, 0),
            hand_no: 0,
            ante: BASE_ANTE as int,
            button: 0,
            scene: Scene::StoneArena,
            carry: 0,
            settled: false,
            last: None,
            state: seed,
            deck: adventurer_kinds() + adventurer_kinds() + adventurer_kinds(),
        }
    }

    /// What settling the hand gives: the outcome that was booked, or the outcome as it stands.
    pub open spec fn outcome(self, picks: Seq<(PlayerId, [usize; 3])>) -> SettlementModel {
        if self.settled {
            self.last->0
        } else {
            self.hand.settlement(picks)
        }
    }

    /// Settling now would book the hand.
    pub open spec fn books_now(self) -> bool {
        !self.settled && self.hand.phase == Phase::Showdown
    }

    /// The match after settling. A hand is booked once, at its showdown: the pot goes to the
    /// winner or is carried over, chips are written back, debts bear interest.
    pub open spec fn after_settling(self, picks: Seq<(PlayerId, [usize; 3])>) -> MatchModel {
        if self.books_now() {
            let s = self.hand.settlement(picks);
            let players = paid_out(self.hand.players, s.winner, self.hand.pot);
            MatchModel {
                seats: booked(self.seats, players),
                hand: GameModel { players, phase: Phase::Done, ..self.hand },
                carry: if s.winner is None {
                    self.carry + self.hand.pot
                } else {
                    self.carry
                },
                settled: true,
                last: Some(s),
                ..self
            }
        } else {
            self
        }
    }

    /// The numbers of the settlement fit the registers they are kept in.
    pub open spec fn settling_fits(self, picks: Seq<(PlayerId, [usize; 3])>) -> bool {
        &&& !self.settled ==> self.hand.settlement_fits(picks)
        &&& self.books_now() ==> {
            let s = self.hand.settlement(picks);
            &&& s.winner is None ==> self.carry + self.hand.pot <= u32::MAX
            &&& s.winner is Some ==> forall|i: int|
                0 <= i < self.hand.players.len() && (#[trigger] self.hand.players[i]).id
                    == s.winner->0 ==> self.hand.players[i].chips + self.hand.pot <= u32::MAX
            &&& forall|i: int|
                0 <= i < self.seats.len() ==> (#[trigger] self.seats[i]).debt * INTEREST_PCT
                    <= u32::MAX
        }
    }

    /// The match after a seat has borrowed a buy-in, which it can use in the hand at once unless
    /// the hand is done.
    pub open spec fn after_borrowing(self, seat: int) -> MatchModel {
        let seats = if 0 <= seat < self.seats.len() {
            self.seats.update(seat, self.seats[seat].borrowing())
        } else {
            self.seats
        };
        let players = if self.hand.phase != Phase::Done && 0 <= seat < self.hand.players.len() {
            self.hand.players.update(
                seat,
                PlayerModel {
                    chips: self.hand.players[seat].chips + BUY_IN,
                    ..self.hand.players[seat]
                },
            )
        } else {
            self.hand.players
        };
        MatchModel { seats, hand: GameModel { players, ..self.hand }, ..self }
    }

    /// The loan fits the seat, and the hand where the hand sees it.
    pub open spec fn borrowing_fits(self, seat: int) -> bool {
        &&& 0 <= seat < self.seats.len() ==> self.seats[seat].borrowing_fits()
        &&& self.hand.phase != Phase::Done && 0 <= seat < self.hand.players.len()
            ==> self.hand.players[seat].chips + BUY_IN <= u32::MAX
    }

    /// The match with the button moved on and the hand counted, before the deal.
    pub open spec fn moved_on(self) -> MatchModel {
        MatchModel {
            button: if self.seats.len() > 0 {
                (self.button + 1) % (self.seats.len() as int)
            } else {
                self.button
            },
            hand_no: self.hand_no + 1,
            ..self
        }
    }

    /// `order` lists all seats from the richest to the poorest.
    pub open spec fn is_ranking(self, order: Seq<usize>) -> bool {
        &&& order.len() == self.seats.len()
        &&& forall|i: int| 0 <= i < order.len() ==> (#[trigger] order[i]) < self.seats.len()
        &&& forall|i: int, j: int|
            0 <= i < j < order.len() ==> self.ranks_above(
                #[trigger] order[i] as int,
                #[trigger] order[j] as int,
            )
    }

    /// Seat `a` stands above seat `b`: it is worth more, or as much and sits before it.
    pub open spec fn ranks_above(self, a: int, b: int) -> bool {
        self.seats[a].worth() > self.seats[b].worth() || (self.seats[a].worth()
            == self.seats[b].worth() && a < b)
    }
}

impl Match {
    /// A booked hand has its outcome at hand, and the button is at a seat.
    pub open spec fn wf(&self) -> bool {
        &&& self.settled ==> self.last is Some
        &&& self.button < self.seats@.len() || self.button == 0
    }

    /// Opens a match: every seat buys in, and the first hand is dealt.
    pub fn new(defs: Vec<SeatDef>, seed: u64) -> (r: Self)
        requires
            BASE_ANTE * defs@.len() <= u32::MAX,
        ensures
            r@ == MatchModel::fresh(def_models(defs@), seed).dealt(),
            r.wf(),
    {
        let ghost start = MatchModel::fresh(def_models(defs@), seed);
        let mut seats: Vec<Seat> = Vec::new();
        let n: usize = defs.len();
        let mut k: usize = 0;
        while k < n
            invariant
                k <= n,
                n == defs@.len(),
                start == MatchModel::fresh(def_models(defs@), seed),
                seat_models(seats@) == start.seats.take(k as int),
            decreases n - k,
        {
            let ghost before = seats@;
            let seat = Seat {
                id: PlayerId(k as u32),
                name: defs[k].name.clone(),
                is_ai: defs[k].is_ai,
                chips: BUY_IN,
                debt: 0,
                loans: 0,
            };
            seats.push(seat);
            assert(seat@ == start.seats[k as int]);
            assert(seat_models(seats@) =~= seat_models(before).push(seat@));
            k = k + 1;
            assert(seat_models(seats@) =~= start.seats.take(k as int));
        }
        assert(start.seats.take(n as int) =~= start.seats);
        let nobody: Vec<Player> = Vec::new();
        assert(models(nobody@) =~= Seq::empty());
        let mut m = Match {
            seats,
            hand: Game::new(nobody, 0, 0),
            hand_no: 0,
            ante: BASE_ANTE,
            button: 0,
            scene: Scene::StoneArena,
            carry: 0,
            settled: false,
            last: None,
            dealer: Dealer { rng: Rng::new(seed), adv_deck: sample_adventurer_deck() },
        };
        assert(m@ == start);
        proof {
            let ps = players_dealt(start.seats_staked(), start.deck_shuffled());
            lemma_ante_at_most(ps, ante_of(0));
        }
        m.deal_hand();
        m
    }

    /// Stakes the broke seats of the machine.
    fn stake_seats(&mut self)
        requires
            old(self).ante == ante_of(old(self).hand_no as int),
            forall|i: int|
                0 <= i < old(self)@.seats.len() && (#[trigger] old(self)@.seats[i]).is_broke(
                    old(self).ante as int,
                ) ==> old(self)@.seats[i].borrowing_fits(),
        ensures
            final(self)@ == (MatchModel { seats: old(self)@.seats_staked(), ..old(self)@ }),
    {
        let ghost start = self@;
        let n: usize = self.seats.len();
        let mut i: usize = 0;
        while i < n
            invariant
                i <= n,
                n == self.seats@.len(),
                n == start.seats.len(),
                start.ante == ante_of(start.hand_no),
                self.ante == start.ante,
                self@ == (MatchModel { seats: self@.seats, ..start }),
                forall|j: int|
                    0 <= j < n ==> #[trigger] self@.seats[j] == (if j < i {
                        start.seats[j].staked(start.ante)
                    } else {
                        start.seats[j]
                    }),
                forall|j: int|
                    0 <= j < n && (#[trigger] start.seats[j]).is_broke(start.ante)
                        ==> start.seats[j].borrowing_fits(),
            decreases n - i,
        {
            let ghost before = self@.seats;
            assert(before[i as int] == start.seats[i as int]);
            if self.seats[i].is_ai && self.seats[i].chips < self.ante {
                assert(start.seats[i as int].is_broke(start.ante));
                self.seats[i].chips = self.seats[i].chips + BUY_IN;
                self.seats[i].debt = self.seats[i].debt + BUY_IN;
                self.seats[i].loans = self.seats[i].loans + 1;
                assert(self@.seats =~= before.update(i as int, before[i as int].borrowing()));
            }
            i = i + 1;
        }
        assert(self@.seats =~= start.seats_staked());
    }

    fn card_at(&self, place: usize, fallback: Adventurer) -> (r: Adventurer)
        ensures
            r == card_or(self@.deck, place as int, fallback),
    {
        if place < self.dealer.adv_deck.len() {
            self.dealer.adv_deck[place]
        } else {
            fallback
        }
    }

    /// Seats the players of a new hand, with two hole cards each.
    fn seat_players(&self) -> (r: Vec<Player>)
        requires
            2 * self.seats@.len() + 1 <= usize::MAX,
        ensures
            models(r@) == players_dealt(self@.seats, self@.deck),
    {
        let mut players: Vec<Player> = Vec::new();
        let ghost goal = players_dealt(self@.seats, self@.deck);
        let mut i: usize = 0;
        while i < self.seats.len()
            invariant
                i <= self.seats@.len(),
                2 * self.seats@.len() + 1 <= usize::MAX,
                goal == players_dealt(self@.seats, self@.deck),
                models(players@) == goal.take(i as int),
            decreases self.seats@.len() - i,
        {
            let a = self.card_at(2 * i, Adventurer::new(Class::Warrior, 3, 9, "Warrior"));
            let b = self.card_at(2 * i + 1, Adventurer::new(Class::Mage, 6, 3, "Mage"));
            let s = &self.seats[i];
            let hole = [a, b];
            assert(hole@ =~= hole_dealt(self@.deck, i as int));
            let ghost before = players@;
            players.push(Player::new(s.id.0, s.name.clone(), s.is_ai, s.chips, hole));
            i = i + 1;
            assert(models(players@) =~= models(before).push(players@.last()@));
            assert(self@.seats[i - 1] == self.seats@[i - 1]@);
            assert(models(players@) =~= goal.take(i as int));
        }
        assert(goal.take(i as int) =~= goal);
        players
    }

    /// Deals a new hand.
    fn deal_hand(&mut self)
        requires
            old(self)@.deal_fits(),
            2 * old(self).seats@.len() + 1 <= usize::MAX,
            old(self).button < old(self).seats@.len() || old(self).button == 0,
        ensures
            final(self)@ == old(self)@.dealt(),
            final(self).wf(),
            final(self).seats@.len() == old(self).seats@.len(),
    {
        let ghost start = self@;
        self.ante = BASE_ANTE * (1 + self.hand_no / 5);
        self.stake_seats();
        let draw: u64 = self.dealer.rng.next_u64();
        let scene = Scene::ALL[draw as usize % 6];
        self.scene = scene;
        self.dealer.rng.shuffle(&mut self.dealer.adv_deck);
        let players = self.seat_players();
        let hand_seed: u64 = self.dealer.rng.next_u64();
        let mut game = Game::new(players, self.ante, hand_seed);
        game.set_scene(scene);
        if self.carry > 0 {
            game.add_to_pot(self.carry);
            self.carry = 0;
        }
        self.hand = game;
        self.settled = false;
        self.last = None;
    }

    /// The hand has come to its showdown and can be settled.
    pub fn hand_over(&self) -> (r: bool)
        ensures
            r == self@.over(),
    {
        self.hand.phase == Phase::Showdown || self.hand.phase == Phase::Done
    }
}

impl Match {
    fn find_player(&self, id: PlayerId) -> (r: Option<usize>)
        ensures
            match r {
                Some(i) => i < self.hand.players@.len() && place_of(self@.hand.players, id, 0)
                    == Some(i as int) && self@.hand.players[i as int].id == id,
                None => place_of(self@.hand.players, id, 0) is None,
            },
    {
        let mut i: usize = 0;
        while i < self.hand.players.len()
            invariant
                i <= self.hand.players@.len(),
                place_of(self@.hand.players, id, 0) == place_of(self@.hand.players, id, i as int),
            decreases self.hand.players@.len() - i,
        {
            if self.hand.players[i].id == id {
                return Some(i);
            }
            i = i + 1;
        }
        None
    }

    /// Gives the pot to the winner, or carries it over.
    fn pay_pot(&mut self, winner: Option<PlayerId>)
        requires
            winner is None ==> old(self).carry + old(self).hand.pot <= u32::MAX,
            winner is Some ==> forall|i: int|
                0 <= i < old(self)@.hand.players.len() && (#[trigger] old(
                    self,
                )@.hand.players[i]).id == winner->0 ==> old(self)@.hand.players[i].chips + old(
                    self,
                ).hand.pot <= u32::MAX,
        ensures
            final(self)@ == (MatchModel {
                hand: GameModel {
                    players: paid_out(old(self)@.hand.players, winner, old(self)@.hand.pot),
                    ..old(self)@.hand
                },
                carry: if winner is None {
                    old(self)@.carry + old(self)@.hand.pot
                } else {
                    old(self)@.carry
                },
                ..old(self)@
            }),
    {
        let ghost start = self@;
        match winner {
            Some(id) => {
                if let Some(i) = self.find_player(id) {
                    assert(start.hand.players[i as int] == self.hand.players@[i as int]@);
                    self.hand.players[i].chips = self.hand.players[i].chips + self.hand.pot;
                    assert(self@.hand.players =~= paid_out(
                        start.hand.players,
                        winner,
                        start.hand.pot,
                    ));
                }
            },
            None => {
                self.carry = self.carry + self.hand.pot;
            },
        }
    }

    /// Writes the chips of the hand back to the seats and charges interest.
    fn book_seats(&mut self)
        requires
            forall|i: int|
                0 <= i < old(self)@.seats.len() ==> (#[trigger] old(self)@.seats[i]).debt
                    * INTEREST_PCT <= u32::MAX,
        ensures
            final(self)@ == (MatchModel {
                seats: booked(old(self)@.seats, old(self)@.hand.players),
                ..old(self)@
            }),
    {
        let ghost start = self@;
        let ghost goal = booked(start.seats, start.hand.players);
        let n: usize = self.seats.len();
        let mut i: usize = 0;
        while i < n
            invariant
                i <= n,
                n == self.seats@.len(),
                n == start.seats.len(),
                goal == booked(start.seats, start.hand.players),
                self@ == (MatchModel { seats: self@.seats, ..start }),
                forall|j: int|
                    0 <= j < n ==> #[trigger] self@.seats[j] == (if j < i {
                        goal[j]
                    } else {
                        start.seats[j]
                    }),
                forall|j: int|
                    0 <= j < n ==> (#[trigger] start.seats[j]).debt * INTEREST_PCT <= u32::MAX,
            decreases n - i,
        {
            let ghost before = self@.seats;
            assert(before[i as int] == start.seats[i as int]);
            if i < self.hand.players.len() {
                assert(start.hand.players[i as int] == self.hand.players@[i as int]@);
                self.seats[i].chips = self.hand.players[i].chips;
            }
            let debt: u32 = self.seats[i].debt;
            if debt > 0 {
                let share: u32 = debt * INTEREST_PCT / 100;
                let due: u32 = if share > 1 {
                    share
                } else {
                    1
                };
                self.seats[i].debt = debt + due;
            }
            assert(self@.seats =~= before.update(i as int, goal[i as int]));
            i = i + 1;
        }
        assert(self@.seats =~= goal);
    }

    /// Settles the hand. It is booked once, at its showdown; after that the same outcome is
    /// given again. `picks` are the community cards that players have picked by hand.
    pub fn settle_hand(&mut self, picks: &[(PlayerId, [usize; 3])]) -> (r: Settlement)
        requires
            old(self).wf(),
            old(self)@.settling_fits(picks@),
        ensures
            r@ == old(self)@.outcome(picks@),
            final(self)@ == old(self)@.after_settling(picks@),
            final(self).wf(),
    {
        if self.settled {
            if let Some(last) = &self.last {
                return last.clone();
            }
        }
        let s = self.hand.settle_with(picks);
        if self.hand.phase != Phase::Showdown {
            return s;
        }
        assert(self@.seats.len() == self.seats@.len());
        self.pay_pot(s.winner);
        self.book_seats();
        assert(self@.seats.len() == self.seats@.len());
        self.hand.finish();
        self.settled = true;
        self.last = Some(s.clone());
        s
    }

    /// Borrows one buy-in for a seat. The hand sees the chips at once, unless it is done.
    pub fn borrow(&mut self, seat_idx: usize)
        requires
            old(self)@.borrowing_fits(seat_idx as int),
            old(self).wf(),
        ensures
            final(self)@ == old(self)@.after_borrowing(seat_idx as int),
            final(self).wf(),
    {
        let ghost start = self@;
        if seat_idx < self.seats.len() {
            assert(start.seats[seat_idx as int] == self.seats@[seat_idx as int]@);
            self.seats[seat_idx].chips = self.seats[seat_idx].chips + BUY_IN;
            self.seats[seat_idx].debt = self.seats[seat_idx].debt + BUY_IN;
            self.seats[seat_idx].loans = self.seats[seat_idx].loans + 1;
        }
        assert(self@.seats =~= start.after_borrowing(seat_idx as int).seats);
        if self.hand.phase != Phase::Done && seat_idx < self.hand.players.len() {
            assert(start.hand.players[seat_idx as int] == self.hand.players@[seat_idx as int]@);
            self.hand.players[seat_idx].chips = self.hand.players[seat_idx].chips + BUY_IN;
        }
        assert(self@.hand.players =~= start.after_borrowing(seat_idx as int).hand.players);
    }

    /// Goes on to the next hand: the button moves on, and cards are dealt.
    pub fn next_hand(&mut self)
        requires
            old(self).wf(),
            old(self).hand_no + 1 <= u32::MAX,
            old(self)@.moved_on().deal_fits(),
            2 * old(self).seats@.len() + 1 <= usize::MAX,
        ensures
            final(self)@ == old(self)@.moved_on().dealt(),
            final(self).wf(),
    {
        if self.seats.len() > 0 {
            self.button = (self.button + 1) % self.seats.len();
        }
        self.hand_no = self.hand_no + 1;
        self.deal_hand();
    }

    /// The seats from the richest to the poorest, by net worth. Seats of equal worth keep their
    /// order.
    pub fn ranking(&self) -> (r: Vec<usize>)
        ensures
            self@.is_ranking(r@),
    {
        let mut order: Vec<usize> = Vec::new();
        let mut k: usize = 0;
        while k < self.seats.len()
            invariant
                k <= self.seats@.len(),
                self.ranked(order@, k as int),
            decreases self.seats@.len() - k,
        {
            self.rank_in(&mut order, k);
            k = k + 1;
        }
        order
    }

    /// `order` ranks the first `k` seats.
    spec fn ranked(&self, order: Seq<usize>, k: int) -> bool {
        &&& order.len() == k
        &&& forall|i: int| 0 <= i < order.len() ==> (#[trigger] order[i]) < k
        &&& forall|i: int, j: int|
            0 <= i < j < order.len() ==> self@.ranks_above(
                #[trigger] order[i] as int,
                #[trigger] order[j] as int,
            )
    }

    fn rank_in(&self, order: &mut Vec<usize>, k: usize)
        requires
            k < self.seats@.len(),
            self.ranked(old(order)@, k as int),
        ensures
            self.ranked(final(order)@, k + 1),
    {
        let worth: i64 = self.seats[k].net_worth();
        let mut at: usize = 0;
        while at < order.len() && self.seats[order[at]].net_worth() >= worth
            invariant
                at <= order@.len(),
                k < self.seats@.len(),
                self.ranked(order@, k as int),
                worth == self@.seats[k as int].worth(),
                forall|i: int|
                    0 <= i < at ==> self@.ranks_above(#[trigger] order@[i] as int, k as int),
            decreases order@.len() - at,
        {
            assert(self@.seats[order@[at as int] as int] == self.seats@[order@[at as int] as int]@);
            at = at + 1;
        }
        let ghost before = order@;
        proof {
            assert forall|j: int| at <= j < before.len() implies self@.ranks_above(
                k as int,
                #[trigger] before[j] as int,
            ) by {
                assert(self@.seats[before[at as int] as int]
                    == self.seats@[before[at as int] as int]@);
                if j > at {
                    assert(self@.ranks_above(before[at as int] as int, before[j] as int));
                }
            }
        }
        order.insert(at, k);
        assert forall|i: int, j: int| 0 <= i < j < order@.len() implies self@.ranks_above(
            #[trigger] order@[i] as int,
            #[trigger] order@[j] as int,
        ) by {
            let a = if i < at {
                before[i]
            } else if i == at {
                k
            } else {
                before[i - 1]
            };
            let b = if j < at {
                before[j]
            } else if j == at {
                k
            } else {
                before[j - 1]
            };
            assert(order@[i] == a);
            assert(order@[j] == b);
        }
    }
}

pub(crate) proof fn lemma_ante_at_most(players: Seq<PlayerModel>, ante: int)
    requires
        ante >= 0,
    ensures
        total_ante(players, ante) <= ante * players.len(),
    decreases players.len(),
{
    if players.len() > 0 {
        lemma_ante_at_most(players.drop_last(), ante);
        assert(ante * players.len() == ante * (players.len() - 1) + ante) by (nonlinear_arith);
    }
}

} // verus!
