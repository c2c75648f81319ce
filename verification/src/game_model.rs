//! What a hand is, as a mathematical value, and what each step does to it.
use crate::cards::{Adventurer, CommunityCard, Monster, Scene};
use crate::combat::{battle, battle_fits, Report};
use crate::game::{
    community_cards, boss_monsters, elite_monsters, small_monsters, Action, ActionError, Phase,
    PlayerResult, BIG_ALLIN,
};
use crate::player::{Player, PlayerId, PlayerModel, PlayerStatus};
use crate::rng::{shuffled, state_after_shuffle};
use vstd::prelude::*;

verus! {

/// The players as mathematical values.
pub open spec fn models(players: Seq<Player>) -> Seq<PlayerModel> {
    players.map_values(|p: Player| p@)
}

/// The smaller of two numbers.
pub open spec fn least(a: int, b: int) -> int {
    if a < b {
        a
    } else {
        b
    }
}

/// `a - b`, but not below zero.
pub open spec fn shortfall(a: int, b: int) -> int {
    if a < b {
        0
    } else {
        a - b
    }
}

/// How many players have not folded.
pub open spec fn count_in_hand(players: Seq<PlayerModel>) -> nat
    decreases players.len(),
{
    if players.len() == 0 {
        0
    } else {
        count_in_hand(players.drop_last()) + (if players.last().in_hand() {
            1nat
        } else {
            0nat
        })
    }
}

/// Some player can act.
pub open spec fn someone_can_act(players: Seq<PlayerModel>) -> bool {
    exists|i: int| 0 <= i < players.len() && (#[trigger] players[i]).can_act()
}

/// The first seat from `i` on whose player can act; seat 0 when there is none.
pub open spec fn first_actor(players: Seq<PlayerModel>, i: int) -> int
    decreases players.len() - i,
{
    if i >= players.len() {
        0
    } else if players[i].can_act() {
        i
    } else {
        first_actor(players, i + 1)
    }
}

/// All chips of all players.
pub open spec fn total_chips(players: Seq<PlayerModel>) -> int
    decreases players.len(),
{
    if players.len() == 0 {
        0
    } else {
        total_chips(players.drop_last()) + players.last().chips
    }
}

/// Aggro after a rise, in half points.
pub open spec fn risen(aggro: u32, rise: int) -> u32 {
    if aggro + rise > u32::MAX {
        u32::MAX
    } else {
        (aggro + rise) as u32
    }
}

/// How many betting rounds are still to come, this one included.
pub open spec fn rounds_left(phase: Phase) -> nat {
    match phase {
        Phase::PreFlop => 4,
        Phase::Flop => 3,
        Phase::Turn => 2,
        Phase::River => 1,
        Phase::Showdown | Phase::Done => 0,
    }
}

/// A player after the ante.
pub open spec fn anted(p: PlayerModel, ante: int) -> PlayerModel {
    PlayerModel { chips: p.chips - least(ante, p.chips), committed: least(ante, p.chips), ..p }
}

/// All antes together. A player with fewer chips than the ante gives what there is.
pub open spec fn total_ante(players: Seq<PlayerModel>, ante: int) -> int
    decreases players.len(),
{
    if players.len() == 0 {
        0
    } else {
        total_ante(players.drop_last(), ante) + least(ante, players.last().chips)
    }
}

/// The community cards that the indices name, in order. Indices beyond the pool name nothing.
pub open spec fn selected(community: Seq<CommunityCard>, indices: Seq<usize>) -> Seq<CommunityCard>
    decreases indices.len(),
{
    if indices.len() == 0 {
        Seq::empty()
    } else {
        let rest = selected(community, indices.drop_last());
        if indices.last() < community.len() {
            rest.push(community[indices.last() as int])
        } else {
            rest
        }
    }
}

/// Three different places of the community pool, in order.
pub open spec fn is_triple(t: (int, int, int), n: int) -> bool {
    0 <= t.0 < t.1 < t.2 < n
}

/// `a` comes before `b` in dictionary order.
pub open spec fn comes_before(a: (int, int, int), b: (int, int, int)) -> bool {
    a.0 < b.0 || (a.0 == b.0 && (a.1 < b.1 || (a.1 == b.1 && a.2 < b.2)))
}

/// The cards at three places of the pool.
pub open spec fn cards_at(community: Seq<CommunityCard>, t: (int, int, int)) -> Seq<CommunityCard> {
    seq![community[t.0], community[t.1], community[t.2]]
}

/// What a player has picked by hand, if anything: the first entry under the player's name.
pub open spec fn pick_of(picks: Seq<(PlayerId, [usize; 3])>, id: PlayerId) -> Option<Seq<usize>>
    decreases picks.len(),
{
    if picks.len() == 0 {
        None
    } else if picks[0].0 == id {
        Some(picks[0].1@)
    } else {
        pick_of(picks.drop_first(), id)
    }
}

/// A player's line on the scoreboard.
pub open spec fn result_of(id: PlayerId, r: Report) -> PlayerResult {
    PlayerResult {
        id,
        cleared: r.cleared,
        remaining_health: r.remaining_health,
        remaining_power: r.remaining_power,
        advantage: r.spec_advantage() as u32,
        team_power: r.team_power,
        team_health: r.team_health,
    }
}

/// The place of the winner: the highest advantage among those who cleared the dungeon, and of
/// several the last.
pub open spec fn winner_place(results: Seq<PlayerResult>) -> Option<int>
    decreases results.len(),
{
    if results.len() == 0 {
        None
    } else {
        let rest = winner_place(results.drop_last());
        let last = results.last();
        match rest {
            Some(i) if !last.cleared || last.advantage < results[i].advantage => Some(i),
            None if !last.cleared => None,
            _ => Some(results.len() - 1),
        }
    }
}

/// The winner.
pub open spec fn winner_of(results: Seq<PlayerResult>) -> Option<PlayerId> {
    match winner_place(results) {
        Some(i) => Some(results[i].id),
        None => None,
    }
}

/// The outcome of a hand as a mathematical value.
pub struct SettlementModel {
    pub pot: int,
    pub winner: Option<PlayerId>,
    pub results: Seq<PlayerResult>,
}

/// A hand as a mathematical value.
pub struct GameModel {
    pub players: Seq<PlayerModel>,
    pub phase: Phase,
    pub pot: int,
    pub current_bet: int,
    pub to_act: int,
    pub acted: Seq<bool>,
    pub scene: Scene,
    pub aggro: u32,
    pub boss_berserk: bool,
    pub community: Seq<CommunityCard>,
    pub dungeon: Seq<Monster>,
    pub community_deck: Seq<CommunityCard>,
    pub small_deck: Seq<Monster>,
    pub elite_deck: Seq<Monster>,
    pub boss_deck: Seq<Monster>,
}

impl GameModel {
    /// Betting is over.
    pub open spec fn over(self) -> bool {
        self.phase == Phase::Showdown || self.phase == Phase::Done
    }

    /// Seat `i` still has to act in this betting round.
    pub open spec fn needs_action(self, i: int) -> bool {
        self.players[i].can_act() && (!self.acted[i] || self.players[i].committed
            < self.current_bet)
    }

    /// The first seat after the current one, in turn order, that still has to act, from
    /// `step` seats on.
    pub open spec fn next_actor(self, step: int) -> Option<int>
        decreases self.players.len() + 1 - step,
    {
        if step > self.players.len() {
            None
        } else {
            let i = (self.to_act + step) % (self.players.len() as int);
            if self.needs_action(i) {
                Some(i)
            } else {
                self.next_actor(step + 1)
            }
        }
    }

    // ---- Dealing ----

    /// After up to `n` cards have gone from the deck to the community pool.
    pub open spec fn dealing(self, n: int) -> GameModel {
        let k = least(n, self.community_deck.len() as int);
        let top = self.community_deck.len() as int;
        GameModel {
            community: self.community + Seq::new(k as nat, |i: int| self.community_deck[top - 1 - i]),
            community_deck: self.community_deck.take(top - k),
            ..self
        }
    }

    /// After the next goblin node, if there is one left, has joined the dungeon.
    pub open spec fn meeting_small(self) -> GameModel {
        if self.small_deck.len() > 0 {
            GameModel {
                dungeon: self.dungeon.push(self.small_deck.last()),
                small_deck: self.small_deck.drop_last(),
                ..self
            }
        } else {
            self
        }
    }

    /// After the next elite node, if there is one left, has joined the dungeon.
    pub open spec fn meeting_elite(self) -> GameModel {
        if self.elite_deck.len() > 0 {
            GameModel {
                dungeon: self.dungeon.push(self.elite_deck.last()),
                elite_deck: self.elite_deck.drop_last(),
                ..self
            }
        } else {
            self
        }
    }

    /// After the next boss, if there is one left, has joined the dungeon.
    pub open spec fn meeting_boss(self) -> GameModel {
        if self.boss_deck.len() > 0 {
            GameModel {
                dungeon: self.dungeon.push(self.boss_deck.last()),
                boss_deck: self.boss_deck.drop_last(),
                ..self
            }
        } else {
            self
        }
    }

    // ---- Phases ----

    /// At showdown, with the board completed: five community cards and one node of each tier.
    pub open spec fn showdown(self) -> GameModel {
        let a = self.dealing(shortfall(5, self.community.len() as int));
        let b = if a.dungeon.len() == 0 {
            a.meeting_small()
        } else {
            a
        };
        let c = if b.dungeon.len() < 2 {
            b.meeting_elite()
        } else {
            b
        };
        let d = if c.dungeon.len() < 3 {
            c.meeting_boss()
        } else {
            c
        };
        GameModel { phase: Phase::Showdown, ..d }
    }

    /// A volcano heats up with every betting round that ends before the river.
    pub open spec fn heated(self) -> GameModel {
        if self.scene == Scene::Volcano && (self.phase == Phase::PreFlop || self.phase
            == Phase::Flop || self.phase == Phase::Turn) {
            GameModel { aggro: risen(self.aggro, 2), ..self }
        } else {
            self
        }
    }

    /// The next street: its phase, its community cards and its dungeon node.
    pub open spec fn next_street(self) -> GameModel {
        match self.phase {
            Phase::PreFlop => GameModel { phase: Phase::Flop, ..self }.dealing(3).meeting_small(),
            Phase::Flop => GameModel { phase: Phase::Turn, ..self }.dealing(1).meeting_elite(),
            Phase::Turn => GameModel { phase: Phase::River, ..self }.dealing(1).meeting_boss(),
            _ => self,
        }
    }

    /// A fresh betting round: nothing put in, nobody has acted, the first who can act begins.
    pub open spec fn fresh_round(self) -> GameModel {
        let players = self.players.map_values(
            |p: PlayerModel| PlayerModel { committed: 0, ..p },
        );
        GameModel {
            players,
            current_bet: 0,
            acted: Seq::new(self.acted.len(), |i: int| false),
            to_act: first_actor(players, 0),
            ..self
        }
    }

    /// Nobody is left to bet against: everyone is all in, or one player remains.
    pub open spec fn betting_is_idle(self) -> bool {
        !someone_can_act(self.players) || count_in_hand(self.players) <= 1
    }

    /// The hand after the betting round has ended. Streets on which there is nothing to bet
    /// are dealt and passed over.
    pub open spec fn next_phase(self) -> GameModel
        decreases rounds_left(self.phase),
    {
        match self.phase {
            Phase::PreFlop | Phase::Flop | Phase::Turn => {
                let g = self.heated().next_street().fresh_round();
                if g.betting_is_idle() {
                    g.next_phase()
                } else {
                    g
                }
            },
            Phase::River => self.showdown(),
            Phase::Showdown | Phase::Done => self,
        }
    }

    /// The hand after the current player has acted: showdown when one player remains, else the
    /// next player who has to act, else the end of the round.
    pub open spec fn turn_passed(self) -> GameModel {
        if count_in_hand(self.players) <= 1 {
            self.showdown()
        } else {
            match self.next_actor(1) {
                Some(i) => GameModel { to_act: i, ..self },
                None => self.next_phase(),
            }
        }
    }

    // ---- Actions ----

    /// The player whose turn it is.
    pub open spec fn actor(self) -> PlayerModel {
        self.players[self.to_act]
    }

    /// Why the action is refused, if it is.
    pub open spec fn rejection(self, action: Action) -> Option<ActionError> {
        if self.over() {
            Some(ActionError::HandOver)
        } else if !self.actor().can_act() {
            Some(ActionError::NotPlayersTurn)
        } else {
            match action {
                Action::Check if self.actor().committed < self.current_bet => Some(
                    ActionError::CannotCheck,
                ),
                Action::Raise { to } if to <= self.current_bet => Some(ActionError::RaiseTooSmall),
                Action::Raise { to } if to - self.actor().committed > self.actor().chips => Some(
                    ActionError::NotEnoughChips,
                ),
                _ => None,
            }
        }
    }

    /// What the action costs the player whose turn it is.
    pub open spec fn price(self, action: Action) -> int {
        match action {
            Action::Fold | Action::Check => 0,
            Action::Call => least(
                shortfall(self.current_bet, self.actor().committed),
                self.actor().chips,
            ),
            Action::Raise { to } => to - self.actor().committed,
            Action::AllIn => self.actor().chips,
        }
    }

    /// After the player whose turn it is has put in `amount` chips.
    pub open spec fn paid(self, amount: int) -> GameModel {
        GameModel {
            players: self.players.update(self.to_act, self.actor().paying(amount)),
            pot: self.pot + least(amount, self.actor().chips),
            ..self
        }
    }

    /// After the player whose turn it is has taken the status.
    pub open spec fn marked(self, status: PlayerStatus) -> GameModel {
        GameModel {
            players: self.players.update(self.to_act, self.actor().with_status(status)),
            ..self
        }
    }

    /// After the line has moved to `line`: everyone but the raiser has to respond again.
    pub open spec fn line_raised(self, line: int) -> GameModel {
        GameModel {
            current_bet: line,
            acted: Seq::new(self.acted.len(), |i: int| i == self.to_act),
            ..self
        }
    }

    pub open spec fn stirred(self, rise: int) -> GameModel {
        GameModel { aggro: risen(self.aggro, rise), ..self }
    }

    /// What an accepted action does to the bets, before the turn passes on.
    pub open spec fn bet(self, action: Action) -> GameModel {
        match action {
            Action::Fold => self.marked(PlayerStatus::Folded),
            Action::Check => self,
            Action::Call => {
                let g = self.paid(self.price(action));
                let h = if g.actor().chips == 0 {
                    g.marked(PlayerStatus::AllIn)
                } else {
                    g
                };
                h.stirred(1)
            },
            Action::Raise { to } => self.paid(self.price(action)).line_raised(
                to as int,
            ).stirred(2),
            Action::AllIn => {
                let g = self.paid(self.price(action)).marked(PlayerStatus::AllIn);
                let raised = g.actor().committed > self.current_bet;
                let h = if raised {
                    g.line_raised(g.actor().committed)
                } else {
                    g
                };
                if self.price(action) >= BIG_ALLIN {
                    GameModel { boss_berserk: true, ..h.stirred(6) }
                } else if raised {
                    h.stirred(2)
                } else {
                    h.stirred(1)
                }
            },
        }
    }

    /// The hand after an accepted action.
    pub open spec fn after(self, action: Action) -> GameModel {
        let g = self.bet(action);
        GameModel { acted: g.acted.update(self.to_act, true), ..g }.turn_passed()
    }

    /// A hand that is in order: one mark for each player, a seat whose turn it is, no debts,
    /// and nobody has put in more than the line.
    pub open spec fn wf(self) -> bool {
        &&& self.acted.len() == self.players.len()
        &&& 0 <= self.pot
        &&& 0 <= self.current_bet
        &&& 0 <= self.to_act
        &&& self.players.len() > 0 ==> self.to_act < self.players.len()
        &&& forall|i: int|
            0 <= i < self.players.len() ==> 0 <= (#[trigger] self.players[i]).committed
                <= self.current_bet
        &&& forall|i: int| 0 <= i < self.players.len() ==> 0 <= (#[trigger] self.players[i]).chips
    }

    /// The sums that the action makes fit the registers they are kept in.
    pub open spec fn price_fits(self, action: Action) -> bool {
        self.rejection(action) is None ==> self.pot + self.price(action) <= u32::MAX
            && self.actor().committed + self.price(action) <= u32::MAX
    }

    /// A new hand: antes taken, decks shuffled with the seed, the first who can act begins.
    pub open spec fn opening(players: Seq<PlayerModel>, ante: int, seed: u64) -> GameModel {
        let seated = players.map_values(|p: PlayerModel| anted(p, ante));
        let s1 = state_after_shuffle(seed, community_cards().len());
        let s2 = state_after_shuffle(s1, small_monsters().len());
        let s3 = state_after_shuffle(s2, elite_monsters().len());
        GameModel {
            players: seated,
            phase: Phase::PreFlop,
            pot: total_ante(players, ante),
            current_bet: ante,
            to_act: first_actor(seated, 0),
            acted: Seq::new(players.len(), |i: int| false),
            scene: Scene::StoneArena,
            aggro: 0,
            boss_berserk: false,
            community: Seq::empty(),
            dungeon: Seq::empty(),
            community_deck: shuffled(community_cards(), seed),
            small_deck: shuffled(small_monsters(), s1),
            elite_deck: shuffled(elite_monsters(), s2),
            boss_deck: shuffled(boss_monsters(), s3),
        }
    }

    // ---- Showdown ----

    /// The report of a team of `hole` and `picks` in this hand.
    pub open spec fn report(self, hole: Seq<Adventurer>, picks: Seq<CommunityCard>) -> Report {
        battle(hole, picks, self.scene, self.dungeon, self.aggro, self.boss_berserk)
    }

    pub open spec fn report_fits(self, hole: Seq<Adventurer>, picks: Seq<CommunityCard>) -> bool {
        battle_fits(hole, picks, self.scene, self.dungeon, self.aggro, self.boss_berserk)
    }

    /// The score of the team with the community cards at three places.
    pub open spec fn triple_score(self, hole: Seq<Adventurer>, t: (int, int, int)) -> int {
        self.report(hole, cards_at(self.community, t)).spec_pick_score()
    }

    /// The three places whose cards make the best team: none scores higher, and none that
    /// comes before them scores as high.
    pub open spec fn is_best_triple(self, hole: Seq<Adventurer>, t: (int, int, int)) -> bool {
        let n = self.community.len() as int;
        &&& is_triple(t, n)
        &&& forall|u: (int, int, int)|
            is_triple(u, n) ==> #[trigger] self.triple_score(hole, u) <= self.triple_score(hole, t)
        &&& forall|u: (int, int, int)|
            is_triple(u, n) && comes_before(u, t) ==> #[trigger] self.triple_score(hole, u)
                < self.triple_score(hole, t)
    }

    /// The community cards that a team takes: all of up to three, else the best three.
    pub open spec fn best_cards(self, hole: Seq<Adventurer>) -> Seq<CommunityCard> {
        if self.community.len() <= 3 {
            self.community
        } else {
            cards_at(self.community, choose|t: (int, int, int)| self.is_best_triple(hole, t))
        }
    }

    /// The report of the best team with the given hole cards.
    pub open spec fn best_report(self, hole: Seq<Adventurer>) -> Report {
        self.report(hole, self.best_cards(hole))
    }

    /// The numbers of every team that has to be tried fit.
    pub open spec fn best_fits(self, hole: Seq<Adventurer>) -> bool {
        if self.community.len() <= 3 {
            self.report_fits(hole, self.community)
        } else {
            forall|t: (int, int, int)|
                is_triple(t, self.community.len() as int) ==> #[trigger] self.report_fits(
                    hole,
                    cards_at(self.community, t),
                )
        }
    }

    /// The report that counts for a player: of the picks made by hand, else of the best team.
    pub open spec fn player_report(
        self,
        p: PlayerModel,
        picks: Seq<(PlayerId, [usize; 3])>,
    ) -> Report {
        match pick_of(picks, p.id) {
            Some(indices) => self.report(p.hole, selected(self.community, indices)),
            None => self.best_report(p.hole),
        }
    }

    pub open spec fn player_fits(self, p: PlayerModel, picks: Seq<(PlayerId, [usize; 3])>) -> bool {
        match pick_of(picks, p.id) {
            Some(indices) => self.report_fits(p.hole, selected(self.community, indices)),
            None => self.best_fits(p.hole),
        }
    }

    /// The scoreboard of the first `n` seats: one line for each player who has not folded.
    pub open spec fn results(self, picks: Seq<(PlayerId, [usize; 3])>, n: int) -> Seq<PlayerResult>
        decreases n,
    {
        if n <= 0 {
            Seq::empty()
        } else {
            let rest = self.results(picks, n - 1);
            let p = self.players[n - 1];
            if p.in_hand() {
                rest.push(result_of(p.id, self.player_report(p, picks)))
            } else {
                rest
            }
        }
    }

    /// The outcome of the hand.
    pub open spec fn settlement(self, picks: Seq<(PlayerId, [usize; 3])>) -> SettlementModel {
        let results = self.results(picks, self.players.len() as int);
        SettlementModel { pot: self.pot, winner: winner_of(results), results }
    }

    /// The numbers of every battle that the outcome rests on fit.
    pub open spec fn settlement_fits(self, picks: Seq<(PlayerId, [usize; 3])>) -> bool {
        forall|i: int|
            0 <= i < self.players.len() && (#[trigger] self.players[i]).in_hand()
                ==> self.player_fits(self.players[i], picks)
    }
}

/// There is only one best triple.
pub proof fn best_triple_is_unique(
    g: GameModel,
    hole: Seq<Adventurer>,
    a: (int, int, int),
    b: (int, int, int),
)
    requires
        g.is_best_triple(hole, a),
        g.is_best_triple(hole, b),
    ensures
        a == b,
{
    assert(g.triple_score(hole, a) <= g.triple_score(hole, b));
    assert(g.triple_score(hole, b) <= g.triple_score(hole, a));
    assert(comes_before(a, b) || comes_before(b, a) || a == b);
}

} // verus!
