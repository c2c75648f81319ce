//! What holds of the betting: what each action costs, whom the turn goes to, when a street ends
//! and what comes after it.
use crate::cards::{Monster, Scene};
use crate::game::{
    boss_monsters, community_cards, elite_monsters, small_monsters, Action, ActionError, Phase,
};
use crate::game_laws::{acted_upon, lemma_acted_upon, lemma_fresh_round, lemma_turn_passed};
use crate::game_model::{count_in_hand, first_actor, rounds_left, someone_can_act, GameModel};
use crate::player::{PlayerModel, PlayerStatus};
use crate::rng::{shuffle_keeps_the_cards, state_after_shuffle};
use vstd::prelude::*;

verus! {

// ---- Terms ----

/// How many streets of a hand have been dealt.
pub open spec fn streets_dealt(phase: Phase) -> int {
    match phase {
        Phase::PreFlop => 0,
        Phase::Flop => 1,
        Phase::Turn => 2,
        Phase::River | Phase::Showdown | Phase::Done => 3,
    }
}

/// The phase that a finished betting round leads to.
pub open spec fn phase_after(phase: Phase) -> Phase {
    match phase {
        Phase::PreFlop => Phase::Flop,
        Phase::Flop => Phase::Turn,
        Phase::Turn => Phase::River,
        Phase::River | Phase::Showdown => Phase::Showdown,
        Phase::Done => Phase::Done,
    }
}

/// Two players at least have not folded.
pub open spec fn contested(players: Seq<PlayerModel>) -> bool {
    exists|a: int, b: int|
        0 <= a < b < players.len() && (#[trigger] players[a]).status != PlayerStatus::Folded && (
        #[trigger] players[b]).status != PlayerStatus::Folded
}

/// A player who is neither out of the hand nor out of chips.
pub open spec fn may_bet(p: PlayerModel) -> bool {
    p.status == PlayerStatus::Active && p.chips > 0
}

/// The action moves the line.
pub open spec fn moves_the_line(g: GameModel, action: Action) -> bool {
    match action {
        Action::Fold | Action::Check | Action::Call => false,
        Action::Raise { to } => true,
        Action::AllIn => g.players[g.to_act].committed + g.players[g.to_act].chips > g.current_bet,
    }
}

/// After the action, seat `k` still owes the table an answer: its player may bet, and has not
/// spoken since the line last moved or has put in less than the line.
pub open spec fn owes_an_answer(g: GameModel, action: Action, k: int) -> bool {
    k != g.to_act && may_bet(g.players[k]) && (moves_the_line(g, action) || !g.acted[k]
        || g.players[k].committed < g.current_bet)
}

// ---- Helpers ----

proof fn lemma_nobody(players: Seq<PlayerModel>, i: int)
    requires
        count_in_hand(players) == 0,
        0 <= i < players.len(),
    ensures
        players[i].status == PlayerStatus::Folded,
    decreases players.len(),
{
    if i < players.len() - 1 {
        lemma_nobody(players.drop_last(), i);
    }
}

proof fn lemma_somebody(players: Seq<PlayerModel>) -> (i: int)
    requires
        count_in_hand(players) > 0,
    ensures
        0 <= i < players.len(),
        players[i].status != PlayerStatus::Folded,
    decreases players.len(),
{
    if players.last().in_hand() {
        players.len() - 1
    } else {
        lemma_somebody(players.drop_last())
    }
}

pub(crate) proof fn lemma_contested(players: Seq<PlayerModel>)
    ensures
        contested(players) == (count_in_hand(players) > 1),
    decreases players.len(),
{
    if players.len() > 0 {
        let rest = players.drop_last();
        lemma_contested(rest);
        let n = players.len() - 1;
        if contested(rest) {
            let (a, b) = choose|a: int, b: int|
                0 <= a < b < rest.len() && (#[trigger] rest[a]).status != PlayerStatus::Folded && (
                #[trigger] rest[b]).status != PlayerStatus::Folded;
            assert(players[a].status != PlayerStatus::Folded && players[b].status
                != PlayerStatus::Folded);
        } else if count_in_hand(players) > 1 {
            let a = lemma_somebody(rest);
            assert(players[a].status != PlayerStatus::Folded && players[n].status
                != PlayerStatus::Folded);
        } else if contested(players) {
            let (a, b) = choose|a: int, b: int|
                0 <= a < b < players.len() && (#[trigger] players[a]).status
                    != PlayerStatus::Folded && (#[trigger] players[b]).status
                    != PlayerStatus::Folded;
            if b < n {
                assert(rest[a].status != PlayerStatus::Folded && rest[b].status
                    != PlayerStatus::Folded);
            } else {
                assert(count_in_hand(rest) == 0);
                lemma_nobody(rest, a);
            }
        }
    }
}

proof fn lemma_same_count(a: Seq<PlayerModel>, b: Seq<PlayerModel>)
    requires
        a.len() == b.len(),
        forall|i: int| 0 <= i < a.len() ==> (#[trigger] a[i]).status == b[i].status,
    ensures
        count_in_hand(a) == count_in_hand(b),
    decreases a.len(),
{
    if a.len() > 0 {
        lemma_same_count(a.drop_last(), b.drop_last());
    }
}

proof fn lemma_first_actor_is_first(players: Seq<PlayerModel>, i: int)
    requires
        0 <= i,
        someone_can_act(players),
        forall|k: int| 0 <= k < i && k < players.len() ==> !may_bet(#[trigger] players[k]),
    ensures
        0 <= first_actor(players, i) < players.len(),
        may_bet(players[first_actor(players, i)]),
        forall|k: int|
            0 <= k < first_actor(players, i) ==> !may_bet(#[trigger] players[k]),
    decreases players.len() - i,
{
    let j = choose|j: int| 0 <= j < players.len() && (#[trigger] players[j]).can_act();
    assert(may_bet(players[j]));
    if i < players.len() && !players[i].can_act() {
        lemma_first_actor_is_first(players, i + 1);
    }
}

/// Aggro never passes what its register holds.
pub open spec fn within_register(aggro: int) -> int {
    if aggro > u32::MAX {
        u32::MAX as int
    } else {
        aggro
    }
}

/// The heat that a volcano adds between two phases of a hand, in half points.
pub open spec fn heat(scene: Scene, from: Phase, to: Phase) -> int {
    if scene == Scene::Volcano {
        2 * (streets_dealt(to) - streets_dealt(from))
    } else {
        0
    }
}

/// A betting round in which nothing has been said yet.
pub open spec fn untouched(g: GameModel) -> bool {
    &&& g.current_bet == 0
    &&& forall|k: int| 0 <= k < g.players.len() ==> (#[trigger] g.players[k]).committed == 0
    &&& forall|k: int| 0 <= k < g.acted.len() ==> !(#[trigger] g.acted[k])
    &&& 0 <= g.to_act < g.players.len()
    &&& may_bet(g.players[g.to_act])
    &&& forall|k: int| 0 <= k < g.to_act ==> !may_bet(#[trigger] g.players[k])
}

proof fn lemma_next_phase_is(g: GameModel)
    requires
        g.wf(),
        !g.over(),
        count_in_hand(g.players) > 1,
    ensures
        g.next_phase().phase == (if someone_can_act(g.players) {
            phase_after(g.phase)
        } else {
            Phase::Showdown
        }),
        g.next_phase().aggro == within_register(
            g.aggro + heat(g.scene, g.phase, g.next_phase().phase),
        ),
        g.next_phase().phase != Phase::Showdown ==> untouched(g.next_phase()),
    decreases rounds_left(g.phase),
{
    match g.phase {
        Phase::PreFlop | Phase::Flop | Phase::Turn => {
            let s = g.heated().next_street();
            assert(s.wf());
            lemma_fresh_round(s);
            let f = s.fresh_round();
            lemma_same_count(g.players, f.players);
            if someone_can_act(g.players) {
                let j = choose|j: int|
                    0 <= j < g.players.len() && (#[trigger] g.players[j]).can_act();
                assert(f.players[j].can_act());
                lemma_first_actor_is_first(f.players, 0);
            } else {
                assert forall|j: int| 0 <= j < f.players.len() implies !(
                #[trigger] f.players[j]).can_act() by {
                    assert(!g.players[j].can_act());
                }
                lemma_next_phase_is(f);
            }
        },
        _ => {},
    }
}

proof fn lemma_next_actor_is_next(g: GameModel, step: int)
    requires
        g.players.len() > 0,
        1 <= step <= g.players.len() + 1,
        g.to_act >= 0,
    ensures
        match g.next_actor(step) {
            Some(j) => exists|s: int|
                step <= s <= g.players.len() && j == #[trigger] ((g.to_act + s) % (
                g.players.len() as int)) && g.needs_action(j) && forall|r: int|
                    step <= r < s ==> !#[trigger] g.needs_action(
                        (g.to_act + r) % (g.players.len() as int),
                    ),
            None => forall|r: int|
                step <= r <= g.players.len() ==> !#[trigger] g.needs_action(
                    (g.to_act + r) % (g.players.len() as int),
                ),
        },
    decreases g.players.len() + 1 - step,
{
    let n = g.players.len() as int;
    if step <= n {
        let i = (g.to_act + step) % n;
        if g.needs_action(i) {
            assert(g.next_actor(step) == Some(i));
        } else {
            lemma_next_actor_is_next(g, step + 1);
        }
    }
}

proof fn lemma_who_owes_an_answer(g: GameModel, action: Action, k: int)
    requires
        g.wf(),
        g.rejection(action) is None,
        0 <= k < g.players.len(),
    ensures
        acted_upon(g, action).needs_action(k) == owes_an_answer(g, action, k),
{
    lemma_acted_upon(g, action);
    assert(g.players[g.to_act].committed <= g.current_bet);
    assert(acted_upon(g, action).players[k] == g.players[k] || k == g.to_act);
}

/// Every seat but the current one is met on the way round.
proof fn lemma_way_round(at: int, k: int, n: int) -> (s: int)
    requires
        0 <= at < n,
        0 <= k < n,
        k != at,
    ensures
        1 <= s < n,
        (at + s) % n == k,
{
    if at < k {
        assert((at + (k - at)) % n == k) by (nonlinear_arith)
            requires
                0 <= k < n,
        ;
        k - at
    } else {
        assert((at + (k - at + n)) % n == k) by (nonlinear_arith)
            requires
                0 <= k < n,
        ;
        k - at + n
    }
}

proof fn lemma_players_after(g: GameModel, action: Action)
    requires
        g.wf(),
        g.rejection(action) is None,
        0 <= g.to_act < g.players.len(),
    ensures
        count_in_hand(g.after(action).players) == count_in_hand(acted_upon(g, action).players),
        someone_can_act(g.after(action).players) == someone_can_act(acted_upon(g, action).players),
{
    lemma_acted_upon(g, action);
    let m = acted_upon(g, action);
    lemma_turn_passed(m);
    let h = g.after(action);
    lemma_same_count(m.players, h.players);
    if someone_can_act(m.players) {
        let j = choose|j: int| 0 <= j < m.players.len() && (#[trigger] m.players[j]).can_act();
        assert(h.players[j].can_act());
    }
    if someone_can_act(h.players) {
        let j = choose|j: int| 0 <= j < h.players.len() && (#[trigger] h.players[j]).can_act();
        assert(m.players[j].can_act());
    }
}

// ---- What is accepted ----

/// Once betting is over everything is refused. Before, a player who has folded, is all in or has
/// no chips left is refused. Anyone else may always fold, call and go all in; may check where
/// nothing is owed; and may raise to more than the line, as far as the chips reach.
pub proof fn refusals_have_their_reasons(g: GameModel, action: Action)
    ensures
        g.rejection(action) == Some(ActionError::HandOver) <==> g.phase == Phase::Showdown
            || g.phase == Phase::Done,
        g.phase != Phase::Showdown && g.phase != Phase::Done ==> (g.rejection(action) == Some(
            ActionError::NotPlayersTurn,
        ) <==> !may_bet(g.players[g.to_act])),
        g.phase != Phase::Showdown && g.phase != Phase::Done && may_bet(g.players[g.to_act]) ==> {
            let p = g.players[g.to_act];
            match action {
                Action::Fold | Action::Call | Action::AllIn => g.rejection(action) is None,
                Action::Check => {
                    &&& p.committed >= g.current_bet ==> g.rejection(action) is None
                    &&& p.committed < g.current_bet ==> g.rejection(action) == Some(
                        ActionError::CannotCheck,
                    )
                },
                Action::Raise { to } => {
                    &&& to <= g.current_bet ==> g.rejection(action) == Some(
                        ActionError::RaiseTooSmall,
                    )
                    &&& g.current_bet < to && p.committed + p.chips < to ==> g.rejection(action)
                        == Some(ActionError::NotEnoughChips)
                    &&& g.current_bet < to <= p.committed + p.chips ==> g.rejection(action) is None
                },
            }
        },
{
}

// ---- What it costs ----

/// On every street, a fold and a check cost nothing, a call brings the player up to the line or
/// takes the last chip, a raise brings the player up to the new line, and going all in takes
/// everything. What the player pays is in the pot, and nobody else pays.
pub proof fn actions_cost_what_they_say(g: GameModel, action: Action)
    requires
        g.wf(),
        0 <= g.to_act < g.players.len(),
        g.rejection(action) is None,
    ensures
        ({
            let h = g.after(action);
            let before = g.players[g.to_act];
            let now = h.players[g.to_act];
            let paid = before.chips - now.chips;
            &&& h.pot == g.pot + paid
            &&& h.players.len() == g.players.len()
            &&& forall|k: int|
                0 <= k < g.players.len() && k != g.to_act ==> (#[trigger] h.players[k]).chips
                    == g.players[k].chips
            &&& match action {
                Action::Fold | Action::Check => paid == 0,
                Action::Call => {
                    &&& 0 <= now.chips
                    &&& before.committed + paid <= g.current_bet
                    &&& before.committed + paid == g.current_bet || now.chips == 0
                },
                Action::Raise { to } => before.committed + paid == to,
                Action::AllIn => now.chips == 0,
            }
        }),
{
    lemma_acted_upon(g, action);
    lemma_turn_passed(acted_upon(g, action));
    assert(g.players[g.to_act].committed <= g.current_bet);
    let h = g.after(action);
    assert forall|k: int| 0 <= k < g.players.len() && k != g.to_act implies (
    #[trigger] h.players[k]).chips == g.players[k].chips by {
        assert(acted_upon(g, action).players[k] == g.players[k]);
    }
}

/// A fold takes the player out of the hand; going all in, and a call that takes the last chip,
/// leave the player in it without a further say. No other action changes the status, and nobody
/// else's status changes. Names, hands and seats stay as they are.
pub proof fn actions_mark_the_player(g: GameModel, action: Action)
    requires
        g.wf(),
        0 <= g.to_act < g.players.len(),
        g.rejection(action) is None,
    ensures
        ({
            let h = g.after(action);
            let before = g.players[g.to_act];
            let now = h.players[g.to_act];
            &&& match action {
                Action::Fold => now.status == PlayerStatus::Folded,
                Action::Check | Action::Raise { .. } => now.status == PlayerStatus::Active,
                Action::Call => {
                    &&& now.chips == 0 ==> now.status == PlayerStatus::AllIn
                    &&& now.chips > 0 ==> now.status == PlayerStatus::Active
                },
                Action::AllIn => now.status == PlayerStatus::AllIn,
            }
            &&& forall|k: int|
                0 <= k < g.players.len() ==> (#[trigger] h.players[k]).id == g.players[k].id
                    && h.players[k].name == g.players[k].name && h.players[k].is_ai
                    == g.players[k].is_ai && h.players[k].hole == g.players[k].hole
            &&& forall|k: int|
                0 <= k < g.players.len() && k != g.to_act ==> (#[trigger] h.players[k]).status
                    == g.players[k].status
        }),
{
    lemma_acted_upon(g, action);
    lemma_turn_passed(acted_upon(g, action));
    let m = acted_upon(g, action);
    let h = g.after(action);
    assert(m.players[g.to_act] == m.actor());
    assert forall|k: int| 0 <= k < g.players.len() implies (#[trigger] h.players[k]).id
        == g.players[k].id && h.players[k].name == g.players[k].name && h.players[k].is_ai
        == g.players[k].is_ai && h.players[k].hole == g.players[k].hole && (k != g.to_act
        ==> h.players[k].status == g.players[k].status) by {
        assert(k != g.to_act ==> m.players[k] == g.players[k]);
    }
}

/// While a street goes on, the line moves only with a raise and with an all-in above it, and then
/// to all that the player has put in. Who has moved the line is the only one who has spoken since;
/// any other action adds the player to those who have spoken. What the others have put in stays.
pub proof fn the_line_follows_the_highest_bet(g: GameModel, action: Action)
    requires
        g.wf(),
        0 <= g.to_act < g.players.len(),
        g.rejection(action) is None,
        g.after(action).phase == g.phase,
    ensures
        ({
            let h = g.after(action);
            let before = g.players[g.to_act];
            let now = h.players[g.to_act];
            &&& now.committed - before.committed == before.chips - now.chips
            &&& forall|k: int|
                0 <= k < g.players.len() && k != g.to_act ==> (#[trigger] h.players[k]).committed
                    == g.players[k].committed
            &&& match action {
                Action::Fold | Action::Check | Action::Call => h.current_bet == g.current_bet,
                Action::Raise { to } => h.current_bet == to,
                Action::AllIn => {
                    &&& h.current_bet >= g.current_bet
                    &&& h.current_bet >= before.committed + before.chips
                    &&& h.current_bet == g.current_bet || h.current_bet == before.committed
                        + before.chips
                },
            }
            &&& h.acted.len() == g.acted.len()
            &&& h.acted[g.to_act]
            &&& h.current_bet > g.current_bet ==> forall|k: int|
                0 <= k < g.acted.len() && k != g.to_act ==> !#[trigger] h.acted[k]
            &&& h.current_bet == g.current_bet ==> forall|k: int|
                0 <= k < g.acted.len() && k != g.to_act ==> #[trigger] h.acted[k] == g.acted[k]
        }),
{
    lemma_acted_upon(g, action);
    let m = acted_upon(g, action);
    lemma_the_street_goes_on(g, action);
    let h = g.after(action);
    assert(h.players == m.players);
}

proof fn lemma_the_street_goes_on(g: GameModel, action: Action)
    requires
        g.wf(),
        0 <= g.to_act < g.players.len(),
        g.rejection(action) is None,
        g.after(action).phase == g.phase,
    ensures
        acted_upon(g, action).next_actor(1) is Some,
        g.after(action) == (GameModel {
            to_act: acted_upon(g, action).next_actor(1)->0,
            ..acted_upon(g, action)
        }),
{
    lemma_acted_upon(g, action);
    let m = acted_upon(g, action);
    if count_in_hand(m.players) > 1 && m.next_actor(1) is None {
        lemma_next_phase_is(m);
    }
}

// ---- Whose turn it is ----

/// The street goes on exactly as long as two players are left and someone still owes the table
/// an answer. The turn then goes round the table to the next seat that owes one: all seats on the
/// way there owe none.
pub proof fn the_turn_goes_round(g: GameModel, action: Action)
    requires
        g.wf(),
        0 <= g.to_act < g.players.len(),
        g.rejection(action) is None,
    ensures
        g.after(action).phase == g.phase <==> contested(g.after(action).players) && exists|k: int|
            0 <= k < g.players.len() && #[trigger] owes_an_answer(g, action, k),
        g.after(action).phase == g.phase ==> owes_an_answer(g, action, g.after(action).to_act)
            && exists|s: int|
            1 <= s < g.players.len() && g.after(action).to_act == #[trigger] ((g.to_act + s) % (
            g.players.len() as int)) && forall|r: int|
                1 <= r < s ==> !#[trigger] owes_an_answer(
                    g,
                    action,
                    (g.to_act + r) % (g.players.len() as int),
                ),
{
    lemma_acted_upon(g, action);
    let m = acted_upon(g, action);
    let h = g.after(action);
    let n = g.players.len() as int;
    lemma_next_actor_is_next(m, 1);
    lemma_players_after(g, action);
    lemma_contested(h.players);
    assert forall|r: int| 1 <= r <= n implies #[trigger] m.needs_action((g.to_act + r) % n)
        == owes_an_answer(g, action, (g.to_act + r) % n) by {
        lemma_who_owes_an_answer(g, action, (g.to_act + r) % n);
    }
    if count_in_hand(m.players) > 1 {
        if m.next_actor(1) is Some {
            let j = m.next_actor(1)->0;
            let s = choose|s: int|
                1 <= s <= m.players.len() && j == #[trigger] ((m.to_act + s) % (
                m.players.len() as int)) && m.needs_action(j) && forall|r: int|
                    1 <= r < s ==> !#[trigger] m.needs_action(
                        (m.to_act + r) % (m.players.len() as int),
                    );
            assert(m.needs_action((g.to_act + s) % n));
            assert(owes_an_answer(g, action, j));
            if s == n {
                assert((g.to_act + n) % n == g.to_act) by (nonlinear_arith)
                    requires
                        0 <= g.to_act < n,
                ;
            }
            assert(h.to_act == (g.to_act + s) % n);
            assert forall|r: int| 1 <= r < s implies !#[trigger] owes_an_answer(
                g,
                action,
                (g.to_act + r) % n,
            ) by {
                assert(!m.needs_action((m.to_act + r) % (m.players.len() as int)));
            }
        } else {
            lemma_next_phase_is(m);
            assert forall|k: int| 0 <= k < n implies !#[trigger] owes_an_answer(g, action, k) by {
                if k != g.to_act {
                    let s = lemma_way_round(g.to_act, k, n);
                    assert(!m.needs_action((m.to_act + s) % (m.players.len() as int)));
                }
            }
        }
    }
}

/// Once nobody owes an answer, or one player is left, the hand moves on: to the showdown when one
/// player is left or nobody can bet any more, else to the next street, or after the river to the
/// showdown. A new street starts with nothing put in, and the first seat whose player may bet
/// speaks first.
pub proof fn streets_follow_each_other(g: GameModel, action: Action)
    requires
        g.wf(),
        0 <= g.to_act < g.players.len(),
        g.rejection(action) is None,
        g.after(action).phase != g.phase,
    ensures
        ({
            let h = g.after(action);
            let nobody_may_bet = forall|k: int|
                0 <= k < h.players.len() ==> !may_bet(#[trigger] h.players[k]);
            &&& h.phase == (if !contested(h.players) || nobody_may_bet {
                Phase::Showdown
            } else {
                phase_after(g.phase)
            })
            &&& h.phase != Phase::Showdown ==> untouched(h)
        }),
{
    lemma_acted_upon(g, action);
    let m = acted_upon(g, action);
    let h = g.after(action);
    lemma_players_after(g, action);
    lemma_contested(h.players);
    if count_in_hand(m.players) > 1 && m.next_actor(1) is None {
        lemma_next_phase_is(m);
    }
    if someone_can_act(h.players) {
        let j = choose|j: int| 0 <= j < h.players.len() && (#[trigger] h.players[j]).can_act();
        assert(may_bet(h.players[j]));
    } else {
        assert forall|k: int| 0 <= k < h.players.len() implies !may_bet(
            #[trigger] h.players[k],
        ) by {
            assert(!h.players[k].can_act());
        }
    }
}

// ---- Aggro and rage ----

/// A call stirs the dungeon by one half point, a raise by two. Going all in stirs it by six with
/// 500 chips or more, else like a raise or a call, as it moves the line or not. Folds and checks
/// stir nothing. A volcano adds two for every street that is dealt while the hand is contested.
pub proof fn bets_stir_the_dungeon(g: GameModel, action: Action)
    requires
        g.wf(),
        0 <= g.to_act < g.players.len(),
        g.rejection(action) is None,
    ensures
        ({
            let h = g.after(action);
            let p = g.players[g.to_act];
            let stir: int = match action {
                Action::Fold | Action::Check => 0,
                Action::Call => 1,
                Action::Raise { .. } => 2,
                Action::AllIn => if p.chips >= 500 {
                    6
                } else if p.committed + p.chips > g.current_bet {
                    2
                } else {
                    1
                },
            };
            let heat = if contested(h.players) {
                heat(g.scene, g.phase, h.phase)
            } else {
                0
            };
            h.aggro == within_register(g.aggro + stir + heat)
        }),
{
    lemma_acted_upon(g, action);
    let m = acted_upon(g, action);
    let h = g.after(action);
    lemma_players_after(g, action);
    lemma_contested(h.players);
    assert(m.scene == g.scene);
    if count_in_hand(m.players) > 1 && m.next_actor(1) is None {
        lemma_next_phase_is(m);
    }
}

/// The boss goes berserk when someone goes all in with 500 chips or more, and never calms down.
/// The scene stays.
pub proof fn large_all_ins_enrage_the_boss(g: GameModel, action: Action)
    requires
        g.wf(),
        0 <= g.to_act < g.players.len(),
        g.rejection(action) is None,
    ensures
        g.after(action).boss_berserk <==> g.boss_berserk || (action == Action::AllIn
            && g.players[g.to_act].chips >= 500),
        g.after(action).scene == g.scene,
{
    lemma_acted_upon(g, action);
    lemma_turn_passed(acted_upon(g, action));
}

// ---- The start of a hand ----

/// Everyone antes what the hand asks for, or all there is; what is missing from the stacks is in
/// the pot. Nobody has spoken, no card is open, the dungeon is calm, and the first seat whose
/// player may bet speaks first.
pub proof fn hands_open_with_an_ante(players: Seq<PlayerModel>, ante: int, seed: u64)
    requires
        0 <= ante,
        forall|i: int| 0 <= i < players.len() ==> 0 <= (#[trigger] players[i]).chips,
    ensures
        ({
            let g = GameModel::opening(players, ante, seed);
            &&& g.players.len() == players.len()
            &&& forall|i: int|
                0 <= i < players.len() ==> {
                    let before = players[i];
                    let now = #[trigger] g.players[i];
                    &&& now.committed == before.chips - now.chips
                    &&& 0 <= now.chips
                    &&& 0 <= now.committed <= ante
                    &&& now.committed == ante || now.chips == 0
                    &&& now.id == before.id
                    &&& now.name == before.name
                    &&& now.is_ai == before.is_ai
                    &&& now.hole == before.hole
                    &&& now.status == before.status
                }
            &&& g.current_bet == ante
            &&& g.phase == Phase::PreFlop
            &&& g.scene == Scene::StoneArena
            &&& g.aggro == 0
            &&& !g.boss_berserk
            &&& g.community.len() == 0
            &&& g.dungeon.len() == 0
            &&& g.acted.len() == players.len()
            &&& forall|i: int| 0 <= i < g.acted.len() ==> !(#[trigger] g.acted[i])
            &&& (exists|i: int| 0 <= i < players.len() && may_bet(#[trigger] g.players[i]))
                ==> 0 <= g.to_act < players.len() && may_bet(g.players[g.to_act]) && forall|k: int|
                0 <= k < g.to_act ==> !may_bet(#[trigger] g.players[k])
        }),
{
    let g = GameModel::opening(players, ante, seed);
    if exists|i: int| 0 <= i < players.len() && may_bet(#[trigger] g.players[i]) {
        let i = choose|i: int| 0 <= i < players.len() && may_bet(#[trigger] g.players[i]);
        assert(g.players[i].can_act());
        lemma_first_actor_is_first(g.players, 0);
    }
}

/// One more player at the table adds that player's ante to the pot.
pub proof fn every_ante_is_in_the_pot(
    players: Seq<PlayerModel>,
    more: PlayerModel,
    ante: int,
    seed: u64,
)
    ensures
        GameModel::opening(Seq::empty(), ante, seed).pot == 0,
        more.chips >= ante ==> GameModel::opening(players.push(more), ante, seed).pot
            == GameModel::opening(players, ante, seed).pot + ante,
        more.chips < ante ==> GameModel::opening(players.push(more), ante, seed).pot
            == GameModel::opening(players, ante, seed).pot + more.chips,
{
    assert(players.push(more).drop_last() =~= players);
}

/// All printed cards and nodes are in the decks of a new hand, each as often as it is printed.
pub proof fn hands_open_with_full_decks(players: Seq<PlayerModel>, ante: int, seed: u64)
    ensures
        ({
            let g = GameModel::opening(players, ante, seed);
            &&& g.community_deck.to_multiset() == community_cards().to_multiset()
            &&& g.small_deck.to_multiset() == small_monsters().to_multiset()
            &&& g.elite_deck.to_multiset() == elite_monsters().to_multiset()
            &&& g.boss_deck.to_multiset() == boss_monsters().to_multiset()
            &&& g.community_deck.len() == 24
            &&& g.small_deck.len() == 3
            &&& g.elite_deck.len() == 3
            &&& g.boss_deck.len() == 4
        }),
{
    let s1 = state_after_shuffle(seed, community_cards().len());
    let s2 = state_after_shuffle(s1, small_monsters().len());
    let s3 = state_after_shuffle(s2, elite_monsters().len());
    shuffle_keeps_the_cards(community_cards(), seed);
    shuffle_keeps_the_cards(small_monsters(), s1);
    shuffle_keeps_the_cards(elite_monsters(), s2);
    shuffle_keeps_the_cards(boss_monsters(), s3);
}

// ---- Nodes ----

/// The node that comes next at a place of the dungeon: the top of the goblins, of the elites and of
/// the bosses, in this order.
pub open spec fn next_node(g: GameModel, place: int) -> Monster {
    if place == 0 {
        g.small_deck.last()
    } else if place == 1 {
        g.elite_deck.last()
    } else {
        g.boss_deck.last()
    }
}

/// Every betting round has met its nodes, and there are nodes left for those to come.
pub open spec fn nodes_ready(g: GameModel) -> bool {
    &&& g.dungeon.len() == streets_dealt(g.phase)
    &&& g.dungeon.len() < 1 ==> g.small_deck.len() > 0
    &&& g.dungeon.len() < 2 ==> g.elite_deck.len() > 0
    &&& g.dungeon.len() < 3 ==> g.boss_deck.len() > 0
}

/// From `g` to `h` the dungeon has only grown, by the nodes that come next.
pub open spec fn grown_from_the_top(g: GameModel, h: GameModel) -> bool {
    &&& g.dungeon.len() <= h.dungeon.len() <= 3
    &&& forall|k: int| 0 <= k < g.dungeon.len() ==> #[trigger] h.dungeon[k] == g.dungeon[k]
    &&& forall|k: int|
        g.dungeon.len() <= k < h.dungeon.len() ==> #[trigger] h.dungeon[k] == next_node(g, k)
    &&& h.dungeon.len() < 1 ==> h.small_deck == g.small_deck
    &&& h.dungeon.len() < 2 ==> h.elite_deck == g.elite_deck
    &&& h.dungeon.len() < 3 ==> h.boss_deck == g.boss_deck
}

proof fn lemma_nodes_of_showdown(g: GameModel)
    requires
        nodes_ready(g),
    ensures
        grown_from_the_top(g, g.showdown()),
        g.showdown().dungeon.len() == 3,
{
}

proof fn lemma_nodes_of_next_phase(g: GameModel)
    requires
        nodes_ready(g),
        !g.over(),
    ensures
        grown_from_the_top(g, g.next_phase()),
        nodes_ready(g.next_phase()),
    decreases rounds_left(g.phase),
{
    match g.phase {
        Phase::PreFlop | Phase::Flop | Phase::Turn => {
            let f = g.heated().next_street().fresh_round();
            assert(nodes_ready(f));
            assert(grown_from_the_top(g, f));
            if f.betting_is_idle() {
                lemma_nodes_of_next_phase(f);
                let h = f.next_phase();
                assert forall|k: int| g.dungeon.len() <= k < h.dungeon.len() implies
                    #[trigger] h.dungeon[k] == next_node(g, k) by {
                    if k < f.dungeon.len() {
                        assert(h.dungeon[k] == f.dungeon[k]);
                    }
                }
                assert forall|k: int| 0 <= k < g.dungeon.len() implies #[trigger] h.dungeon[k]
                    == g.dungeon[k] by {
                    assert(h.dungeon[k] == f.dungeon[k]);
                }
            }
        },
        _ => {
            lemma_nodes_of_showdown(g);
        },
    }
}

/// With each street the next node joins the dungeon, from the top of its deck: a goblin on the
/// flop, an elite on the turn, a boss on the river. At the showdown all three lie open. Those that
/// were met stay.
pub proof fn streets_meet_the_next_node(g: GameModel, action: Action)
    requires
        g.wf(),
        0 <= g.to_act < g.players.len(),
        g.rejection(action) is None,
        nodes_ready(g),
    ensures
        grown_from_the_top(g, g.after(action)),
        g.after(action).dungeon.len() == streets_dealt(g.after(action).phase),
        nodes_ready(g.after(action)),
{
    lemma_acted_upon(g, action);
    let m = acted_upon(g, action);
    assert(nodes_ready(m) && m.dungeon == g.dungeon);
    assert(m.small_deck == g.small_deck && m.elite_deck == g.elite_deck && m.boss_deck
        == g.boss_deck);
    if count_in_hand(m.players) <= 1 {
        lemma_nodes_of_showdown(m);
    } else if m.next_actor(1) is None {
        lemma_nodes_of_next_phase(m);
    }
    let h = g.after(action);
    assert forall|k: int| g.dungeon.len() <= k < h.dungeon.len() implies #[trigger] h.dungeon[k]
        == next_node(g, k) by {
        assert(next_node(m, k) == next_node(g, k));
    }
}

// ---- Players ----

/// Everyone who has not folded is counted; who has chips and is neither folded nor all in can act.
pub proof fn everyone_who_stays_is_counted(players: Seq<PlayerModel>, p: PlayerModel)
    ensures
        count_in_hand(Seq::empty()) == 0,
        p.status == PlayerStatus::Folded ==> count_in_hand(players.push(p)) == count_in_hand(
            players,
        ),
        p.status != PlayerStatus::Folded ==> count_in_hand(players.push(p)) == count_in_hand(
            players,
        ) + 1,
        p.in_hand() <==> p.status == PlayerStatus::Active || p.status == PlayerStatus::AllIn,
        p.can_act() <==> p.status == PlayerStatus::Active && p.chips > 0,
{
    assert(players.push(p).drop_last() =~= players);
}

} // verus!
