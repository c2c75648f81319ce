//! One hand: betting rounds, phases, showdown.
//!
//! Pre-flop, flop, turn, river, showdown. Everything is deterministic.
use crate::cards::{Adventurer, Class, CommunityCard, ConsumKind, EquipKind, Monster, MonsterKind, Scene};
use crate::combat::{report_fits, resolve, Report};
use crate::game_model::{
    anted, best_triple_is_unique, cards_at, comes_before, count_in_hand, first_actor, is_triple,
    least, models, pick_of, rounds_left, selected, someone_can_act, total_ante, winner_place,
    GameModel, SettlementModel,
};
use crate::player::{Player, PlayerId, PlayerModel, PlayerStatus};
use crate::rng::Rng;
use vstd::prelude::*;

verus! {

/// The smallest all-in that drives the boss berserk.
pub const BIG_ALLIN: u32 = 500;

/// Betting phases. Each one turns up its community cards and its dungeon node.
#[derive(Debug, Clone, Copy, PartialEq, Eq, Structural)]
pub enum Phase {
    /// Only the hole cards are known.
    PreFlop,
    /// Three community cards, one goblin node.
    Flop,
    /// One more community card, one elite node.
    Turn,
    /// One more community card, the boss.
    River,
    /// Teams are built and walk the dungeon.
    Showdown,
    /// The hand is settled.
    Done,
}

/// What a player can do in a betting round.
#[derive(Debug, Clone, Copy, PartialEq, Eq, Structural)]
pub enum Action {
    Fold,
    Check,
    Call,
    /// Moves the line to `to`, the total of this round.
    Raise { to: u32 },
    AllIn,
}

#[derive(Debug, Clone, Copy, PartialEq, Eq, Structural)]
pub enum ActionError {
    NotPlayersTurn,
    /// There is a bet to answer.
    CannotCheck,
    /// A raise has to go above the line.
    RaiseTooSmall,
    NotEnoughChips,
    HandOver,
}

/// The part of a hand that only the rules themselves touch.
pub struct Backroom {
    /// Whether a seat has acted since the last raise.
    acted: Vec<bool>,
    community_deck: Vec<CommunityCard>,
    // The dungeon comes in three tiers: goblins on the flop, elites on the turn, the boss on
    // the river.
    small_deck: Vec<Monster>,
    elite_deck: Vec<Monster>,
    boss_deck: Vec<Monster>,
}

impl Backroom {
    /// Which seats have acted since the last raise.
    pub closed spec fn acted_marks(&self) -> Seq<bool> {
        self.acted@
    }

    /// The community cards still in the deck.
    pub closed spec fn community_left(&self) -> Seq<CommunityCard> {
        self.community_deck@
    }

    /// The goblin nodes still in the deck.
    pub closed spec fn small_left(&self) -> Seq<Monster> {
        self.small_deck@
    }

    /// The elite nodes still in the deck.
    pub closed spec fn elite_left(&self) -> Seq<Monster> {
        self.elite_deck@
    }

    /// The bosses still in the deck.
    pub closed spec fn boss_left(&self) -> Seq<Monster> {
        self.boss_deck@
    }
}

/// One hand.
pub struct Game {
    pub players: Vec<Player>,
    pub phase: Phase,
    pub pot: u32,
    /// The line that players have to match in this round.
    pub current_bet: u32,
    /// The seat whose turn it is.
    pub to_act: usize,
    pub scene: Scene,
    /// How much the betting has stirred the dungeon, in half points.
    pub aggro: u32,
    /// A big all-in has driven the boss berserk.
    pub boss_berserk: bool,
    /// Community cards that lie open, at most five.
    pub community: Vec<CommunityCard>,
    /// Dungeon nodes that lie open, at most three.
    pub dungeon: Vec<Monster>,
    /// What only the rules touch: marks and decks.
    pub backroom: Backroom,
}

impl View for Game {
    type V = GameModel;

    open spec fn view(&self) -> GameModel {
        GameModel {
            players: models(self.players@),
            phase: self.phase,
            pot: self.pot as int,
            current_bet: self.current_bet as int,
            to_act: self.to_act as int,
            acted: self.backroom.acted_marks(),
            scene: self.scene,
            aggro: self.aggro,
            boss_berserk: self.boss_berserk,
            community: self.community@,
            dungeon: self.dungeon@,
            community_deck: self.backroom.community_left(),
            small_deck: self.backroom.small_left(),
            elite_deck: self.backroom.elite_left(),
            boss_deck: self.backroom.boss_left(),
        }
    }
}

impl Game {
    /// Sets the scene of the hand.
    pub fn set_scene(&mut self, scene: Scene)
        ensures
            final(self)@ == (GameModel { scene, ..old(self)@ }),
    {
        self.scene = scene;
    }

    /// Adds chips from outside to the pot.
    pub fn add_to_pot(&mut self, amount: u32)
        requires
            old(self).pot + amount <= u32::MAX,
        ensures
            final(self)@ == (GameModel { pot: old(self)@.pot + amount, ..old(self)@ }),
    {
        self.pot = self.pot + amount;
    }

    /// Marks the hand as settled.
    pub fn finish(&mut self)
        ensures
            final(self)@ == (GameModel { phase: Phase::Done, ..old(self)@ }),
    {
        self.phase = Phase::Done;
    }

    fn first_to_act(&self) -> (r: usize)
        ensures
            r == first_actor(self@.players, 0),
    {
        let mut i: usize = 0;
        while i < self.players.len()
            invariant
                i <= self.players@.len(),
                first_actor(self@.players, 0) == first_actor(self@.players, i as int),
            decreases self.players@.len() - i,
        {
            if self.players[i].can_act() {
                return i;
            }
            i = i + 1;
        }
        0
    }

    fn needs_action(&self, i: usize) -> (r: bool)
        requires
            i < self.players@.len(),
            self@.acted.len() == self.players@.len(),
        ensures
            r == self@.needs_action(i as int),
    {
        let p = &self.players[i];
        p.can_act() && (!self.backroom.acted[i] || p.committed < self.current_bet)
    }

    /// How many players have not folded.
    pub fn players_in_hand(&self) -> (r: usize)
        ensures
            r == count_in_hand(self@.players),
    {
        let mut n: usize = 0;
        let mut i: usize = 0;
        while i < self.players.len()
            invariant
                i <= self.players@.len(),
                n <= i,
                n == count_in_hand(self@.players.take(i as int)),
            decreases self.players@.len() - i,
        {
            assert(self@.players.take(i + 1).drop_last() =~= self@.players.take(i as int));
            if self.players[i].is_in_hand() {
                n = n + 1;
            }
            i = i + 1;
        }
        assert(self@.players.take(i as int) =~= self@.players);
        n
    }

    /// The player whose turn it is.
    pub fn active_player(&self) -> (r: Option<&Player>)
        ensures
            match r {
                Some(p) => self.to_act < self.players@.len() && *p == self.players@[
                    self.to_act as int
                ],
                None => self.to_act >= self.players@.len(),
            },
    {
        if self.to_act < self.players.len() {
            Some(&self.players[self.to_act])
        } else {
            None
        }
    }

    fn anyone_can_act(&self) -> (r: bool)
        ensures
            r == someone_can_act(self@.players),
    {
        let mut i: usize = 0;
        while i < self.players.len()
            invariant
                i <= self.players@.len(),
                forall|j: int| 0 <= j < i ==> !(#[trigger] self@.players[j]).can_act(),
            decreases self.players@.len() - i,
        {
            if self.players[i].can_act() {
                assert(self@.players[i as int].can_act());
                return true;
            }
            i = i + 1;
        }
        false
    }

    // ---- Dealing ----

    fn deal_community(&mut self, n: usize)
        ensures
            final(self)@ == old(self)@.dealing(n as int),
    {
        let ghost start = self@;
        let mut k: usize = 0;
        assert(self@ == start.dealing(0)) by {
            assert(start.dealing(0).community =~= start.community);
            assert(start.dealing(0).community_deck =~= start.community_deck);
        }
        while k < n
            invariant
                k <= n,
                self@ == start.dealing(k as int),
            decreases n - k,
        {
            if let Some(c) = self.backroom.community_deck.pop() {
                self.community.push(c);
            }
            k = k + 1;
            assert(self@.community =~= start.dealing(k as int).community);
            assert(self@.community_deck =~= start.dealing(k as int).community_deck);
        }
    }

    fn meet_small(&mut self)
        ensures
            final(self)@ == old(self)@.meeting_small(),
    {
        if let Some(m) = self.backroom.small_deck.pop() {
            self.dungeon.push(m);
        }
    }

    fn meet_elite(&mut self)
        ensures
            final(self)@ == old(self)@.meeting_elite(),
    {
        if let Some(m) = self.backroom.elite_deck.pop() {
            self.dungeon.push(m);
        }
    }

    fn meet_boss(&mut self)
        ensures
            final(self)@ == old(self)@.meeting_boss(),
    {
        if let Some(m) = self.backroom.boss_deck.pop() {
            self.dungeon.push(m);
        }
    }

    // ---- Phases ----

    fn goto_showdown(&mut self)
        ensures
            final(self)@ == old(self)@.showdown(),
    {
        let open: usize = self.community.len();
        let missing: usize = if open < 5 {
            5 - open
        } else {
            0
        };
        self.deal_community(missing);
        if self.dungeon.len() == 0 {
            self.meet_small();
        }
        if self.dungeon.len() < 2 {
            self.meet_elite();
        }
        if self.dungeon.len() < 3 {
            self.meet_boss();
        }
        self.phase = Phase::Showdown;
    }

    fn reset_round(&mut self)
        ensures
            final(self)@ == old(self)@.fresh_round(),
    {
        let ghost start = self@;
        self.current_bet = 0;
        let mut i: usize = 0;
        let n: usize = self.players.len();
        while i < n
            invariant
                i <= n,
                n == self.players@.len(),
                self@.players.len() == start.players.len(),
                forall|j: int|
                    0 <= j < n ==> #[trigger] self@.players[j] == (if j < i {
                        PlayerModel { committed: 0, ..start.players[j] }
                    } else {
                        start.players[j]
                    }),
                self@ == (GameModel { players: self@.players, current_bet: 0, ..start }),
            decreases n - i,
        {
            let ghost before = self@.players;
            self.players[i].committed = 0;
            assert(self@.players =~= before.update(
                i as int,
                PlayerModel { committed: 0, ..before[i as int] },
            ));
            i = i + 1;
        }
        let m: usize = self.backroom.acted.len();
        let mut j: usize = 0;
        while j < m
            invariant
                j <= m,
                m == self.backroom.acted@.len(),
                m == start.acted.len(),
                forall|k: int| 0 <= k < j ==> !(#[trigger] self.backroom.acted@[k]),
                self@ == (GameModel {
                    players: self@.players,
                    current_bet: 0,
                    acted: self@.acted,
                    ..start
                }),
                self@.players == start.fresh_round().players,
            decreases m - j,
        {
            self.backroom.acted.set(j, false);
            j = j + 1;
        }
        assert(self@.acted =~= start.fresh_round().acted);
        self.to_act = self.first_to_act();
    }

    fn start_betting_round(&mut self)
        ensures
            final(self)@ == (if old(self)@.fresh_round().betting_is_idle() {
                old(self)@.fresh_round().next_phase()
            } else {
                old(self)@.fresh_round()
            }),
        decreases rounds_left(old(self).phase), 1nat,
    {
        self.reset_round();
        if !self.anyone_can_act() || self.players_in_hand() <= 1 {
            self.next_phase();
        }
    }

    fn next_phase(&mut self)
        ensures
            final(self)@ == old(self)@.next_phase(),
        decreases rounds_left(old(self).phase), 0nat,
    {
        if self.scene == Scene::Volcano && (self.phase == Phase::PreFlop || self.phase
            == Phase::Flop || self.phase == Phase::Turn) {
            self.aggro = self.aggro.saturating_add(2);
        }
        match self.phase {
            Phase::PreFlop => {
                self.phase = Phase::Flop;
                self.deal_community(3);
                self.meet_small();
                self.start_betting_round();
            },
            Phase::Flop => {
                self.phase = Phase::Turn;
                self.deal_community(1);
                self.meet_elite();
                self.start_betting_round();
            },
            Phase::Turn => {
                self.phase = Phase::River;
                self.deal_community(1);
                self.meet_boss();
                self.start_betting_round();
            },
            Phase::River => {
                self.goto_showdown();
            },
            Phase::Showdown | Phase::Done => {},
        }
    }

    fn advance_turn(&mut self)
        requires
            old(self)@.acted.len() == old(self)@.players.len(),
            old(self).to_act < old(self)@.players.len(),
        ensures
            final(self)@ == old(self)@.turn_passed(),
    {
        if self.players_in_hand() <= 1 {
            self.goto_showdown();
            return;
        }
        let n: usize = self.players.len();
        let mut passed: usize = 0;
        let mut idx: usize = self.to_act;
        proof {
            vstd::arithmetic::div_mod::lemma_small_mod(idx as nat, n as nat);
        }
        while passed < n
            invariant
                passed <= n,
                n == self.players@.len(),
                self@ == old(self)@,
                self@.acted.len() == n,
                self.to_act < n,
                idx < n,
                idx == (self.to_act + passed) % (n as int),
                self@.next_actor(1) == self@.next_actor(passed + 1),
                count_in_hand(self@.players) > 1,
            decreases n - passed,
        {
            proof {
                lemma_next_seat(self.to_act + passed, idx as int, n as int);
            }
            idx = if idx + 1 == n {
                0
            } else {
                idx + 1
            };
            if self.needs_action(idx) {
                self.to_act = idx;
                return;
            }
            passed = passed + 1;
        }
        assert(self@.next_actor(1) is None);
        self.next_phase();
    }

    fn commit(&mut self, i: usize, amount: u32)
        requires
            i == old(self).to_act,
            i < old(self).players@.len(),
            old(self).pot + least(amount as int, old(self)@.actor().chips) <= u32::MAX,
            old(self)@.actor().committed + least(amount as int, old(self)@.actor().chips)
                <= u32::MAX,
        ensures
            final(self)@ == old(self)@.paid(amount as int),
            final(self).to_act == old(self).to_act,
    {
        let paid: u32 = if amount < self.players[i].chips {
            amount
        } else {
            self.players[i].chips
        };
        let ghost before = self@;
        self.players[i].chips = self.players[i].chips - paid;
        self.players[i].committed = self.players[i].committed + paid;
        self.pot = self.pot + paid;
        assert(self@.players =~= before.paid(amount as int).players);
    }

    fn set_status(&mut self, i: usize, status: PlayerStatus)
        requires
            i == old(self).to_act,
            i < old(self).players@.len(),
        ensures
            final(self)@ == old(self)@.marked(status),
            final(self).to_act == old(self).to_act,
    {
        let ghost before = self@;
        self.players[i].status = status;
        assert(self@.players =~= before.marked(status).players);
    }

    /// Moves the line; everyone but the raiser has to respond again.
    fn reset_acted_after_raise(&mut self, raiser: usize, line: u32)
        requires
            raiser == old(self).to_act,
            raiser < old(self)@.acted.len(),
        ensures
            final(self)@ == old(self)@.line_raised(line as int),
            final(self).to_act == old(self).to_act,
    {
        let ghost start = self@;
        self.current_bet = line;
        let m: usize = self.backroom.acted.len();
        let mut j: usize = 0;
        while j < m
            invariant
                j <= m,
                m == self.backroom.acted@.len(),
                m == start.acted.len(),
                forall|k: int| 0 <= k < j ==> !(#[trigger] self.backroom.acted@[k]),
                self@ == (GameModel { current_bet: line as int, acted: self@.acted, ..start }),
                self.to_act == start.to_act,
            decreases m - j,
        {
            self.backroom.acted.set(j, false);
            j = j + 1;
        }
        self.backroom.acted.set(raiser, true);
        assert(self@.acted =~= start.line_raised(line as int).acted);
    }

    /// Carries out an action of the player whose turn it is, and moves the hand on when the
    /// betting round ends. A refused action changes nothing.
    pub fn apply(&mut self, action: Action) -> (r: Result<(), ActionError>)
        requires
            old(self)@.wf(),
            old(self)@.over() || old(self).players@.len() > 0,
            old(self)@.price_fits(action),
        ensures
            match r {
                Ok(_) => old(self)@.rejection(action) is None && final(self)@ == old(self)@.after(
                    action,
                ),
                Err(e) => old(self)@.rejection(action) == Some(e) && final(self)@ == old(self)@,
            },
    {
        if self.phase == Phase::Showdown || self.phase == Phase::Done {
            return Err(ActionError::HandOver);
        }
        let i: usize = self.to_act;
        if !self.players[i].can_act() {
            return Err(ActionError::NotPlayersTurn);
        }
        match action {
            Action::Fold => {
                self.set_status(i, PlayerStatus::Folded);
            },
            Action::Check => {
                if self.players[i].committed < self.current_bet {
                    return Err(ActionError::CannotCheck);
                }
            },
            Action::Call => {
                let need: u32 = self.current_bet.saturating_sub(self.players[i].committed);
                let pay: u32 = if need < self.players[i].chips {
                    need
                } else {
                    self.players[i].chips
                };
                self.commit(i, pay);
                if self.players[i].chips == 0 {
                    self.set_status(i, PlayerStatus::AllIn);
                }
                self.aggro = self.aggro.saturating_add(1);
            },
            Action::Raise { to } => {
                if to <= self.current_bet {
                    return Err(ActionError::RaiseTooSmall);
                }
                let need: u32 = to - self.players[i].committed;
                if need > self.players[i].chips {
                    return Err(ActionError::NotEnoughChips);
                }
                self.commit(i, need);
                self.reset_acted_after_raise(i, to);
                self.aggro = self.aggro.saturating_add(2);
            },
            Action::AllIn => {
                let shove: u32 = self.players[i].chips;
                self.commit(i, shove);
                self.set_status(i, PlayerStatus::AllIn);
                let line: u32 = self.players[i].committed;
                let raised = line > self.current_bet;
                if raised {
                    self.reset_acted_after_raise(i, line);
                }
                if shove >= BIG_ALLIN {
                    self.aggro = self.aggro.saturating_add(6);
                    self.boss_berserk = true;
                } else if raised {
                    self.aggro = self.aggro.saturating_add(2);
                } else {
                    self.aggro = self.aggro.saturating_add(1);
                }
            },
        }
        assert(self@ == old(self)@.bet(action));
        self.backroom.acted.set(i, true);
        self.advance_turn();
        Ok(())
    }
}

impl Game {
    /// Opens a hand: takes the antes into the pot and shuffles the decks with the seed.
    pub fn new(players: Vec<Player>, ante: u32, seed: u64) -> (r: Self)
        requires
            total_ante(models(players@), ante as int) <= u32::MAX,
        ensures
            r@ == GameModel::opening(models(players@), ante as int, seed),
    {
        let ghost given = models(players@);
        let mut players = players;
        let mut pot: u32 = 0;
        let n: usize = players.len();
        let mut i: usize = 0;
        while i < n
            invariant
                i <= n,
                n == players@.len(),
                n == given.len(),
                pot == total_ante(given.take(i as int), ante as int),
                total_ante(given, ante as int) <= u32::MAX,
                forall|j: int| 0 <= j < n ==> (#[trigger] given[j]).chips >= 0,
                forall|j: int|
                    0 <= j < n ==> #[trigger] models(players@)[j] == (if j < i {
                        anted(given[j], ante as int)
                    } else {
                        given[j]
                    }),
            decreases n - i,
        {
            proof {
                assert(given.take(i + 1).drop_last() =~= given.take(i as int));
                lemma_ante_grows(given, ante as int, i + 1);
                assert(models(players@)[i as int] == given[i as int]);
            }
            let ghost before = models(players@);
            let a: u32 = if ante < players[i].chips {
                ante
            } else {
                players[i].chips
            };
            players[i].chips = players[i].chips - a;
            players[i].committed = a;
            pot = pot + a;
            assert(models(players@) =~= before.update(
                i as int,
                anted(given[i as int], ante as int),
            ));
            i = i + 1;
        }
        assert(given.take(i as int) =~= given);
        let mut rng = Rng::new(seed);
        let mut community_deck = sample_community_deck();
        let (mut small_deck, mut elite_deck, mut boss_deck) = sample_dungeon_decks();
        rng.shuffle(&mut community_deck);
        rng.shuffle(&mut small_deck);
        rng.shuffle(&mut elite_deck);
        rng.shuffle(&mut boss_deck);
        let acted = vec![false; n];
        let mut game = Game {
            players,
            phase: Phase::PreFlop,
            pot,
            current_bet: ante,
            to_act: 0,
            scene: Scene::StoneArena,
            aggro: 0,
            boss_berserk: false,
            community: Vec::new(),
            dungeon: Vec::new(),
            backroom: Backroom { acted, community_deck, small_deck, elite_deck, boss_deck },
        };
        game.to_act = game.first_to_act();
        let ghost goal = GameModel::opening(given, ante as int, seed);
        assert(game@.players =~= goal.players);
        assert(game@.acted =~= goal.acted);
        game
    }

    // ---- Showdown ----

    /// The outcome of the hand, with the best team for every player who has not folded.
    pub fn settle(&self) -> (r: Settlement)
        requires
            self@.settlement_fits(Seq::empty()),
        ensures
            r@ == self@.settlement(Seq::empty()),
    {
        let picks: [(PlayerId, [usize; 3]); 0] = [];
        assert(picks@ =~= Seq::empty());
        self.settle_with(&picks)
    }

    /// The outcome of the hand, with the three community cards that `who` has picked by hand;
    /// everyone else takes the best team.
    pub fn settle_with_selection(&self, who: PlayerId, picks: [usize; 3]) -> (r: Settlement)
        requires
            self@.settlement_fits(seq![(who, picks)]),
        ensures
            r@ == self@.settlement(seq![(who, picks)]),
    {
        let all = [(who, picks)];
        assert(all@ =~= seq![(who, picks)]);
        self.settle_with(&all)
    }

    fn hand_pick(picks: &[(PlayerId, [usize; 3])], id: PlayerId) -> (r: Option<[usize; 3]>)
        ensures
            match r {
                Some(p) => pick_of(picks@, id) == Some(p@),
                None => pick_of(picks@, id) is None,
            },
    {
        let mut i: usize = 0;
        assert(picks@.skip(0) =~= picks@);
        while i < picks.len()
            invariant
                i <= picks@.len(),
                pick_of(picks@, id) == pick_of(picks@.skip(i as int), id),
            decreases picks@.len() - i,
        {
            let (who, chosen) = picks[i];
            assert(picks@.skip(i as int)[0] == picks@[i as int]);
            assert(picks@.skip(i as int).drop_first() =~= picks@.skip(i + 1));
            if who == id {
                return Some(chosen);
            }
            i = i + 1;
        }
        None
    }

    /// The outcome of the hand, with the community cards that some players have picked by hand.
    pub fn settle_with(&self, picks: &[(PlayerId, [usize; 3])]) -> (r: Settlement)
        requires
            self@.settlement_fits(picks@),
        ensures
            r@ == self@.settlement(picks@),
    {
        let mut results: Vec<PlayerResult> = Vec::new();
        let mut best: Option<usize> = None;
        let mut i: usize = 0;
        while i < self.players.len()
            invariant
                i <= self.players@.len(),
                self@.settlement_fits(picks@),
                results@ == self@.results(picks@, i as int),
                match best {
                    Some(b) => winner_place(results@) == Some(b as int) && b < results@.len(),
                    None => winner_place(results@) is None,
                },
            decreases self.players@.len() - i,
        {
            assert(self@.players[i as int] == self.players@[i as int]@);
            if self.players[i].is_in_hand() {
                let p = &self.players[i];
                let r = match Self::hand_pick(picks, p.id) {
                    Some(chosen) => self.clear_with_selection(&p.hole, chosen.as_slice()),
                    None => self.simulate_clear(&p.hole),
                };
                let line = PlayerResult {
                    id: p.id,
                    cleared: r.cleared,
                    remaining_health: r.remaining_health,
                    remaining_power: r.remaining_power,
                    advantage: r.advantage(),
                    team_power: r.team_power,
                    team_health: r.team_health,
                };
                let ghost before = results@;
                results.push(line);
                assert(results@.drop_last() =~= before);
                if line.cleared {
                    let ahead = match best {
                        Some(b) => line.advantage >= results[b].advantage,
                        None => true,
                    };
                    if ahead {
                        best = Some(results.len() - 1);
                    }
                }
            }
            i = i + 1;
        }
        let winner = match best {
            Some(b) => Some(results[b].id),
            None => None,
        };
        Settlement { pot: self.pot, winner, results }
    }

    /// The report of the team with the community cards that `indices` name. Indices beyond the
    /// pool are ignored.
    pub fn clear_with_selection(&self, hole: &[Adventurer; 2], indices: &[usize]) -> (r: Report)
        requires
            self@.report_fits(hole@, selected(self.community@, indices@)),
        ensures
            r == self@.report(hole@, selected(self.community@, indices@)),
            report_fits(r),
    {
        let mut picks: Vec<CommunityCard> = Vec::new();
        let mut i: usize = 0;
        while i < indices.len()
            invariant
                i <= indices@.len(),
                picks@ == selected(self.community@, indices@.take(i as int)),
            decreases indices@.len() - i,
        {
            assert(indices@.take(i + 1).drop_last() =~= indices@.take(i as int));
            let at: usize = indices[i];
            if at < self.community.len() {
                picks.push(self.community[at]);
            }
            i = i + 1;
        }
        assert(indices@.take(i as int) =~= indices@);
        resolve(
            hole,
            picks.as_slice(),
            self.scene,
            self.dungeon.as_slice(),
            self.aggro,
            self.boss_berserk,
        )
    }

    /// The report of the best team with the given hole cards: up to three open community cards
    /// are all taken, of more the three with the highest score.
    pub fn simulate_clear(&self, hole: &[Adventurer; 2]) -> (r: Report)
        requires
            self@.best_fits(hole@),
        ensures
            r == self@.best_report(hole@),
            report_fits(r),
            self@.community.len() > 3 ==> exists|t: (int, int, int)|
                #[trigger] self@.is_best_triple(hole@, t),
            self@.community.len() > 3 ==> forall|t: (int, int, int)|
                is_triple(t, self@.community.len() as int) ==> #[trigger] self@.triple_score(
                    hole@,
                    t,
                ) <= r.spec_pick_score(),
    {
        let n: usize = self.community.len();
        if n <= 3 {
            return resolve(
                hole,
                self.community.as_slice(),
                self.scene,
                self.dungeon.as_slice(),
                self.aggro,
                self.boss_berserk,
            );
        }
        let mut best = self.report_at(hole, 0, 1, 2);
        let ghost mut at = (0int, 1int, 2int);
        let mut i: usize = 0;
        while i < n
            invariant
                i <= n,
                n == self.community@.len(),
                n > 3,
                self@.best_fits(hole@),
                self.best_so_far(hole@, best, at, (i as int, i + 1, i + 2)),
            decreases n - i,
        {
            let mut j: usize = i + 1;
            while j < n
                invariant
                    i < n,
                    i + 1 <= j <= n,
                    n == self.community@.len(),
                    n > 3,
                    self@.best_fits(hole@),
                    self.best_so_far(hole@, best, at, (i as int, j as int, j + 1)),
                decreases n - j,
            {
                let mut k: usize = j + 1;
                while k < n
                    invariant
                        i < j < n,
                        j + 1 <= k <= n,
                        n == self.community@.len(),
                        n > 3,
                        self@.best_fits(hole@),
                        self.best_so_far(hole@, best, at, (i as int, j as int, k as int)),
                    decreases n - k,
                {
                    let r = self.report_at(hole, i, j, k);
                    let ghost here = (i as int, j as int, k as int);
                    proof {
                        lemma_next_triple(here, (i as int, j as int, k + 1), n as int);
                    }
                    if r.pick_score() > best.pick_score() {
                        best = r;
                        proof {
                            at = here;
                        }
                    }
                    k = k + 1;
                }
                j = j + 1;
            }
            i = i + 1;
        }
        proof {
            let n = n as int;
            assert forall|u: (int, int, int)| is_triple(u, n) implies comes_before(
                u,
                (n, n + 1, n + 2),
            ) by {}
            assert(self@.is_best_triple(hole@, at));
            best_triple_is_unique(
                self@,
                hole@,
                at,
                choose|t: (int, int, int)| self@.is_best_triple(hole@, t),
            );
        }
        best
    }

    /// `best` is the report of the triple `at`, the best of the first triple and all that come
    /// before `end`.
    spec fn best_so_far(
        &self,
        hole: Seq<Adventurer>,
        best: Report,
        at: (int, int, int),
        end: (int, int, int),
    ) -> bool {
        let n = self.community@.len() as int;
        &&& is_triple(at, n)
        &&& at == (0int, 1int, 2int) || comes_before(at, end)
        &&& best == self@.report(hole, cards_at(self.community@, at))
        &&& report_fits(best)
        &&& forall|u: (int, int, int)|
            is_triple(u, n) && comes_before(u, end) ==> #[trigger] self@.triple_score(hole, u)
                <= self@.triple_score(hole, at)
        &&& forall|u: (int, int, int)|
            is_triple(u, n) && comes_before(u, at) ==> #[trigger] self@.triple_score(hole, u)
                < self@.triple_score(hole, at)
    }

    fn report_at(&self, hole: &[Adventurer; 2], i: usize, j: usize, k: usize) -> (r: Report)
        requires
            i < j < k < self.community@.len(),
            self.community@.len() > 3,
            self@.best_fits(hole@),
        ensures
            r == self@.report(hole@, cards_at(self.community@, (i as int, j as int, k as int))),
            report_fits(r),
    {
        let picks = [self.community[i], self.community[j], self.community[k]];
        let ghost t = (i as int, j as int, k as int);
        assert(picks@ =~= cards_at(self.community@, t));
        assert(self@.report_fits(hole@, cards_at(self@.community, t)));
        resolve(
            hole,
            picks.as_slice(),
            self.scene,
            self.dungeon.as_slice(),
            self.aggro,
            self.boss_berserk,
        )
    }
}

/// A player's line on the scoreboard.
#[derive(Debug, Clone, Copy)]
pub struct PlayerResult {
    pub id: PlayerId,
    pub cleared: bool,
    pub remaining_health: u32,
    pub remaining_power: u32,
    /// Decides who wins.
    pub advantage: u32,
    /// The team that started, also of a wiped one.
    pub team_power: u32,
    pub team_health: u32,
}

/// The outcome of a hand.
#[derive(Debug)]
pub struct Settlement {
    pub pot: u32,
    /// Who takes the pot; nobody when no team cleared the dungeon.
    pub winner: Option<PlayerId>,
    pub results: Vec<PlayerResult>,
}

impl View for Settlement {
    type V = SettlementModel;

    open spec fn view(&self) -> SettlementModel {
        SettlementModel { pot: self.pot as int, winner: self.winner, results: self.results@ }
    }
}

impl Clone for Settlement {
    fn clone(&self) -> (r: Self)
        ensures
            r@ == self@,
    {
        let mut results: Vec<PlayerResult> = Vec::new();
        let mut i: usize = 0;
        while i < self.results.len()
            invariant
                i <= self.results@.len(),
                results@ == self.results@.take(i as int),
            decreases self.results@.len() - i,
        {
            results.push(self.results[i]);
            i = i + 1;
            assert(results@ =~= self.results@.take(i as int));
        }
        assert(self.results@.take(i as int) =~= self.results@);
        Settlement { pot: self.pot, winner: self.winner, results }
    }
}

// ---- Decks ----

/// A unit card of the community deck.
pub open spec fn unit_card(class: Class, power: u32, health: u32, art: &'static str) -> CommunityCard {
    CommunityCard::Unit(Adventurer { class, power, health, art })
}

/// The community deck in its printed order.
pub open spec fn community_cards() -> Seq<CommunityCard> {
    seq![
        unit_card(Class::Warrior, 4, 12, "Warrior"),
        unit_card(Class::Warrior, 5, 11, "Knight"),
        unit_card(Class::Warrior, 6, 10, "Knight"),
        unit_card(Class::Cleric, 3, 10, "Cleric"),
        unit_card(Class::Cleric, 4, 9, "Cleric"),
        unit_card(Class::Cleric, 3, 11, "Cleric"),
        unit_card(Class::Mage, 10, 4, "Mage"),
        unit_card(Class::Mage, 9, 5, "Mage"),
        unit_card(Class::Mage, 11, 3, "Mage"),
        unit_card(Class::Rogue, 8, 6, "Rogue"),
        unit_card(Class::Rogue, 7, 7, "Rogue"),
        unit_card(Class::Rogue, 9, 5, "Rogue"),
        unit_card(Class::Ranger, 7, 7, "Archer"),
        unit_card(Class::Ranger, 8, 6, "Scout"),
        unit_card(Class::Ranger, 6, 9, "Archer"),
        CommunityCard::Equip(EquipKind::IronShield),
        CommunityCard::Equip(EquipKind::Dagger),
        CommunityCard::Equip(EquipKind::ArcaneStaff),
        CommunityCard::Equip(EquipKind::Longbow),
        CommunityCard::Equip(EquipKind::HolyChalice),
        CommunityCard::Consum(ConsumKind::Fireball),
        CommunityCard::Consum(ConsumKind::HealingPotion),
        CommunityCard::Consum(ConsumKind::Purify),
        CommunityCard::Consum(ConsumKind::SmokeBomb),
    ]
}

/// The eight kinds of hole cards.
pub open spec fn adventurer_kinds() -> Seq<Adventurer> {
    seq![
        Adventurer { class: Class::Warrior, power: 5, health: 12, art: "Warrior" },
        Adventurer { class: Class::Warrior, power: 6, health: 11, art: "Knight" },
        Adventurer { class: Class::Cleric, power: 4, health: 10, art: "Cleric" },
        Adventurer { class: Class::Mage, power: 10, health: 4, art: "Mage" },
        Adventurer { class: Class::Mage, power: 9, health: 5, art: "Mage" },
        Adventurer { class: Class::Rogue, power: 8, health: 6, art: "Rogue" },
        Adventurer { class: Class::Ranger, power: 7, health: 7, art: "Archer" },
        Adventurer { class: Class::Ranger, power: 8, health: 6, art: "Scout" },
    ]
}

/// The goblin nodes in their printed order.
pub open spec fn small_monsters() -> Seq<Monster> {
    seq![
        Monster { kind: MonsterKind::Goblin, threat: 4, health: 5, art: "Goblin" },
        Monster { kind: MonsterKind::Goblin, threat: 5, health: 6, art: "Skeleton_Soldier" },
        Monster { kind: MonsterKind::Goblin, threat: 6, health: 5, art: "Dire_Wolf" },
    ]
}

/// The elite nodes in their printed order.
pub open spec fn elite_monsters() -> Seq<Monster> {
    seq![
        Monster { kind: MonsterKind::Elite, threat: 8, health: 10, art: "Elite_Goblin-Chief" },
        Monster { kind: MonsterKind::Elite, threat: 7, health: 11, art: "Elite_Mimic" },
        Monster { kind: MonsterKind::PoisonSwamp, threat: 8, health: 12, art: "Elite_Swamp_Witch" },
    ]
}

/// The bosses in their printed order.
pub open spec fn boss_monsters() -> Seq<Monster> {
    seq![
        Monster { kind: MonsterKind::Boss, threat: 13, health: 20, art: "Boss_Ancient_Dragon" },
        Monster { kind: MonsterKind::Boss, threat: 12, health: 18, art: "Boss_Troll_King" },
        Monster { kind: MonsterKind::Boss, threat: 11, health: 19, art: "Boss_lich" },
        Monster { kind: MonsterKind::Boss, threat: 12, health: 19, art: "Boss_Corrupted_Tree_Lord" },
    ]
}

fn unit(class: Class, power: u32, health: u32, art: &'static str) -> (r: CommunityCard)
    ensures
        r == unit_card(class, power, health, art),
{
    CommunityCard::Unit(Adventurer::new(class, power, health, art))
}

/// The community deck: three units of each class, bound equipment, consumables.
pub fn sample_community_deck() -> (r: Vec<CommunityCard>)
    ensures
        r@ == community_cards(),
{
    let r = vec![
        unit(Class::Warrior, 4, 12, "Warrior"),
        unit(Class::Warrior, 5, 11, "Knight"),
        unit(Class::Warrior, 6, 10, "Knight"),
        unit(Class::Cleric, 3, 10, "Cleric"),
        unit(Class::Cleric, 4, 9, "Cleric"),
        unit(Class::Cleric, 3, 11, "Cleric"),
        unit(Class::Mage, 10, 4, "Mage"),
        unit(Class::Mage, 9, 5, "Mage"),
        unit(Class::Mage, 11, 3, "Mage"),
        unit(Class::Rogue, 8, 6, "Rogue"),
        unit(Class::Rogue, 7, 7, "Rogue"),
        unit(Class::Rogue, 9, 5, "Rogue"),
        unit(Class::Ranger, 7, 7, "Archer"),
        unit(Class::Ranger, 8, 6, "Scout"),
        unit(Class::Ranger, 6, 9, "Archer"),
        CommunityCard::Equip(EquipKind::IronShield),
        CommunityCard::Equip(EquipKind::Dagger),
        CommunityCard::Equip(EquipKind::ArcaneStaff),
        CommunityCard::Equip(EquipKind::Longbow),
        CommunityCard::Equip(EquipKind::HolyChalice),
        CommunityCard::Consum(ConsumKind::Fireball),
        CommunityCard::Consum(ConsumKind::HealingPotion),
        CommunityCard::Consum(ConsumKind::Purify),
        CommunityCard::Consum(ConsumKind::SmokeBomb),
    ];
    assert(r@ =~= community_cards());
    r
}

/// The deck of hole cards: three of each kind.
pub fn sample_adventurer_deck() -> (r: Vec<Adventurer>)
    ensures
        r@ == adventurer_kinds() + adventurer_kinds() + adventurer_kinds(),
{
    let kinds = vec![
        Adventurer::new(Class::Warrior, 5, 12, "Warrior"),
        Adventurer::new(Class::Warrior, 6, 11, "Knight"),
        Adventurer::new(Class::Cleric, 4, 10, "Cleric"),
        Adventurer::new(Class::Mage, 10, 4, "Mage"),
        Adventurer::new(Class::Mage, 9, 5, "Mage"),
        Adventurer::new(Class::Rogue, 8, 6, "Rogue"),
        Adventurer::new(Class::Ranger, 7, 7, "Archer"),
        Adventurer::new(Class::Ranger, 8, 6, "Scout"),
    ];
    assert(kinds@ =~= adventurer_kinds());
    let ghost all = adventurer_kinds() + adventurer_kinds() + adventurer_kinds();
    let mut deck: Vec<Adventurer> = Vec::new();
    let mut i: usize = 0;
    while i < 24
        invariant
            i <= 24,
            kinds@ == adventurer_kinds(),
            kinds@.len() == 8,
            all == adventurer_kinds() + adventurer_kinds() + adventurer_kinds(),
            deck@ == all.take(i as int),
        decreases 24 - i,
    {
        deck.push(kinds[i % 8]);
        i = i + 1;
        assert(deck@ =~= all.take(i as int));
    }
    assert(all.take(24) =~= all);
    deck
}

/// The dungeon decks: goblins, elites, bosses.
pub fn sample_dungeon_decks() -> (r: (Vec<Monster>, Vec<Monster>, Vec<Monster>))
    ensures
        r.0@ == small_monsters(),
        r.1@ == elite_monsters(),
        r.2@ == boss_monsters(),
{
    let smalls = vec![
        Monster::new(MonsterKind::Goblin, 4, 5, "Goblin"),
        Monster::new(MonsterKind::Goblin, 5, 6, "Skeleton_Soldier"),
        Monster::new(MonsterKind::Goblin, 6, 5, "Dire_Wolf"),
    ];
    let elites = vec![
        Monster::new(MonsterKind::Elite, 8, 10, "Elite_Goblin-Chief"),
        Monster::new(MonsterKind::Elite, 7, 11, "Elite_Mimic"),
        Monster::new(MonsterKind::PoisonSwamp, 8, 12, "Elite_Swamp_Witch"),
    ];
    let bosses = vec![
        Monster::new(MonsterKind::Boss, 13, 20, "Boss_Ancient_Dragon"),
        Monster::new(MonsterKind::Boss, 12, 18, "Boss_Troll_King"),
        Monster::new(MonsterKind::Boss, 11, 19, "Boss_lich"),
        Monster::new(MonsterKind::Boss, 12, 19, "Boss_Corrupted_Tree_Lord"),
    ];
    assert(smalls@ =~= small_monsters());
    assert(elites@ =~= elite_monsters());
    assert(bosses@ =~= boss_monsters());
    (smalls, elites, bosses)
}

/// Triples before the one after `here` are those before `here`, and `here`.
proof fn lemma_next_triple(here: (int, int, int), next: (int, int, int), n: int)
    requires
        next == (here.0, here.1, here.2 + 1),
    ensures
        forall|u: (int, int, int)|
            #[trigger] comes_before(u, next) == (comes_before(u, here) || u == here),
{
}

proof fn lemma_ante_grows(players: Seq<PlayerModel>, ante: int, k: int)
    requires
        0 <= k <= players.len(),
        ante >= 0,
        forall|i: int| 0 <= i < players.len() ==> (#[trigger] players[i]).chips >= 0,
    ensures
        total_ante(players.take(k), ante) <= total_ante(players, ante),
    decreases players.len(),
{
    if k == players.len() {
        assert(players.take(k) =~= players);
    } else {
        lemma_ante_grows(players.drop_last(), ante, k);
        assert(players.drop_last().take(k) =~= players.take(k));
    }
}

proof fn lemma_next_seat(k: int, seat: int, n: int)
    requires
        n > 0,
        k >= 0,
        seat == k % n,
    ensures
        (k + 1) % n == (if seat + 1 == n {
            0
        } else {
            seat + 1
        }),
{
    vstd::arithmetic::div_mod::lemma_add_mod_noop(k, 1, n);
    if n == 1 {
        assert((k + 1) % 1 == 0);
    } else {
        vstd::arithmetic::div_mod::lemma_small_mod(1, n as nat);
        if seat + 1 == n {
            vstd::arithmetic::div_mod::lemma_mod_self_0(n);
        } else {
            vstd::arithmetic::div_mod::lemma_small_mod((seat + 1) as nat, n as nat);
        }
    }
}

} // verus!
