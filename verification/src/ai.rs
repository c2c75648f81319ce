//! A heuristic player.
//!
//! It tries out whether its best team would clear the dungeon as it lies open, and weighs the
//! outcome against what it has to pay. It bluffs now and then. Equal positions give equal
//! decisions.
use crate::game::{Action, Game, Phase};
use crate::game_model::{shortfall, GameModel};
use crate::player::{Player, PlayerModel};
use crate::rng::{first_draw, Rng};
use vstd::prelude::*;

verus! {

/// Chance, in percent, of raising with a weak hand when nobody has bet.
pub const STEAL_PCT: u64 = 15;

/// Chance, in percent, of staying in with a weak hand against a small bet.
pub const FLOAT_PCT: u64 = 10;

/// How far a raise moves the line.
pub const RAISE_STEP: u32 = 20;

/// Advantage from which a hand is strong.
pub const STRONG_ADV: u32 = 25;

/// Advantage from which a hand is decent.
pub const DECENT_ADV: u32 = 12;

/// Chance, in percent, of raising with a hand of the given advantage: the stronger, the higher.
pub open spec fn raise_chance(adv: int) -> u64 {
    if adv <= 11 {
        8
    } else if adv <= 24 {
        22
    } else if adv <= 39 {
        42
    } else if adv <= 59 {
        60
    } else {
        72
    }
}

pub fn strength_to_raise_chance(adv: u32) -> (r: u64)
    ensures
        r == raise_chance(adv as int),
{
    if adv <= 11 {
        8
    } else if adv <= 24 {
        22
    } else if adv <= 39 {
        42
    } else if adv <= 59 {
        60
    } else {
        72
    }
}

/// The number that the dice of a position start from.
pub open spec fn bluff_seed(pot: u32, idx: usize, open_cards: usize, line: u32, chips: u32) -> u64 {
    (pot as u64).wrapping_mul(0x9E37_79B9_7F4A_7C15) ^ (idx as u64).wrapping_mul(
        0xD1B5_4A32_D192_ED03,
    ) ^ ((open_cards as u64) << 17) ^ ((line as u64) << 5) ^ (chips as u64).wrapping_mul(
        0x2545_F491_4F6C_DD1D,
    )
}

/// The dice of a position: below 100, and the same whenever the position is the same.
pub open spec fn bluff_dice(g: GameModel, idx: int) -> u64 {
    (first_draw(
        bluff_seed(
            g.pot as u32,
            idx as usize,
            g.community.len() as usize,
            g.current_bet as u32,
            g.players[idx].chips as u32,
        ),
    ) % 100) as u64
}

fn bluff_roll(game: &Game, idx: usize) -> (r: u64)
    requires
        idx < game.players@.len(),
    ensures
        r == bluff_dice(game@, idx as int),
        r < 100,
{
    let p = &game.players[idx];
    let seed: u64 = (game.pot as u64).wrapping_mul(0x9E37_79B9_7F4A_7C15) ^ (
    idx as u64).wrapping_mul(0xD1B5_4A32_D192_ED03) ^ ((game.community.len() as u64) << 17) ^ ((
    game.current_bet as u64) << 5) ^ (p.chips as u64).wrapping_mul(0x2545_F491_4F6C_DD1D);
    let mut rng = Rng::new(seed);
    rng.next_u64() % 100
}

/// What a player still has to pay to stay in.
pub open spec fn owed(g: GameModel, p: PlayerModel) -> int {
    shortfall(g.current_bet, p.committed)
}

/// A raise by one step if it leaves the player some chips; else the fallback, where a call that
/// cannot be paid becomes a fold.
pub open spec fn raise_else(g: GameModel, p: PlayerModel, fallback: Action) -> Action {
    if shortfall(g.current_bet + RAISE_STEP, p.committed) < p.chips {
        Action::Raise { to: (g.current_bet + RAISE_STEP) as u32 }
    } else if fallback == Action::Call && owed(g, p) > p.chips {
        Action::Fold
    } else {
        fallback
    }
}

fn raise_or(game: &Game, p: &Player, need: u32, fallback: Action) -> (r: Action)
    requires
        game.current_bet + RAISE_STEP <= u32::MAX,
        need == owed(game@, p@),
    ensures
        r == raise_else(game@, p@, fallback),
{
    let target: u32 = game.current_bet + RAISE_STEP;
    if target.saturating_sub(p.committed) < p.chips {
        return Action::Raise { to: target };
    }
    match fallback {
        Action::Call => if need <= p.chips {
            Action::Call
        } else {
            Action::Fold
        },
        other => other,
    }
}

/// The best team clears the dungeon as it lies open.
pub open spec fn can_clear(g: GameModel, idx: int) -> bool {
    g.best_report(g.players[idx].hole).cleared
}

/// How strong the hand is.
pub open spec fn strength(g: GameModel, idx: int) -> int {
    g.best_report(g.players[idx].hole).spec_advantage()
}

/// Chance of raising in this position, in percent: halved before the flop.
pub open spec fn position_raise_chance(g: GameModel, idx: int) -> u64 {
    let c = raise_chance(strength(g, idx));
    if g.phase == Phase::PreFlop {
        (c / 2) as u64
    } else {
        c
    }
}

/// The line already takes a third of what the player has.
pub open spec fn bet_heavy(g: GameModel, p: PlayerModel) -> bool {
    triple_capped(g.current_bet) >= p.chips + p.committed
}

/// Three times a number, cut off at what the register holds.
pub open spec fn triple_capped(x: int) -> int {
    if x * 3 > u32::MAX {
        u32::MAX as int
    } else {
        x * 3
    }
}

/// The bet is cheap against the pot.
pub open spec fn good_odds(g: GameModel, p: PlayerModel) -> bool {
    triple_capped(owed(g, p)) <= (if g.pot > 1 {
        g.pot
    } else {
        1
    })
}

/// The player will try to raise.
pub open spec fn tries_to_raise(g: GameModel, idx: int) -> bool {
    let p = g.players[idx];
    let dice = bluff_dice(g, idx);
    if !can_clear(g, idx) {
        owed(g, p) == 0 && g.phase != Phase::PreFlop && dice < STEAL_PCT
    } else {
        !bet_heavy(g, p) && dice < position_raise_chance(g, idx) && (owed(g, p) == 0 || strength(
            g,
            idx,
        ) >= STRONG_ADV)
    }
}

/// The decision of a player who does not try to raise.
pub open spec fn passive_decision(g: GameModel, idx: int) -> Action {
    let p = g.players[idx];
    let need = owed(g, p);
    if need == 0 {
        Action::Check
    } else if !can_clear(g, idx) {
        // A losing hand pays for nothing, but for a float against a small bet.
        if need <= p.chips / 10 && bluff_dice(g, idx) < FLOAT_PCT {
            Action::Call
        } else {
            Action::Fold
        }
    } else if need < p.chips {
        if good_odds(g, p) || strength(g, idx) >= DECENT_ADV || need <= p.chips / 5 {
            Action::Call
        } else {
            Action::Fold
        }
    } else if strength(g, idx) >= STRONG_ADV {
        // The call takes everything: only a strong hand goes all in.
        Action::AllIn
    } else {
        Action::Fold
    }
}

/// What the player in seat `idx` does.
pub open spec fn decision(g: GameModel, idx: int) -> Action {
    let p = g.players[idx];
    if tries_to_raise(g, idx) {
        raise_else(
            g,
            p,
            if owed(g, p) == 0 {
                Action::Check
            } else {
                Action::Call
            },
        )
    } else {
        passive_decision(g, idx)
    }
}

/// The sums that the decision makes fit the registers they are kept in.
pub open spec fn decision_fits(g: GameModel, idx: int) -> bool {
    &&& g.best_fits(g.players[idx].hole)
    &&& can_clear(g, idx) ==> g.players[idx].chips + g.players[idx].committed <= u32::MAX
    &&& tries_to_raise(g, idx) ==> g.current_bet + RAISE_STEP <= u32::MAX
}

fn capped_triple(x: u32) -> (r: u32)
    ensures
        r == triple_capped(x as int),
{
    if x > u32::MAX / 3 {
        u32::MAX
    } else {
        x * 3
    }
}

/// Decides what the player in seat `idx` does.
pub fn decide(game: &Game, idx: usize) -> (r: Action)
    requires
        idx < game.players@.len(),
        decision_fits(game@, idx as int),
    ensures
        r == decision(game@, idx as int),
{
    let p = &game.players[idx];
    assert(game@.players[idx as int] == p@);
    let need: u32 = game.current_bet.saturating_sub(p.committed);
    let roll: u64 = bluff_roll(game, idx);
    let report = game.simulate_clear(&p.hole);
    if !report.cleared {
        if need == 0 {
            if game.phase != Phase::PreFlop && roll < STEAL_PCT {
                return raise_or(game, p, need, Action::Check);
            }
            return Action::Check;
        }
        if need <= p.chips / 10 && roll < FLOAT_PCT {
            return Action::Call;
        }
        return Action::Fold;
    }
    let adv: u32 = report.advantage();
    let mut chance: u64 = strength_to_raise_chance(adv);
    if game.phase == Phase::PreFlop {
        chance = chance / 2;
    }
    let stack: u32 = p.chips + p.committed;
    let heavy = capped_triple(game.current_bet) >= stack;
    if need == 0 {
        if !heavy && roll < chance {
            return raise_or(game, p, need, Action::Check);
        }
        return Action::Check;
    }
    if !heavy && adv >= STRONG_ADV && roll < chance {
        return raise_or(game, p, need, Action::Call);
    }
    let pot: u32 = if game.pot > 1 {
        game.pot
    } else {
        1
    };
    let odds_ok = capped_triple(need) <= pot;
    if need < p.chips {
        if odds_ok || adv >= DECENT_ADV || need <= p.chips / 5 {
            return Action::Call;
        }
        return Action::Fold;
    }
    if adv >= STRONG_ADV {
        Action::AllIn
    } else {
        Action::Fold
    }
}

/// Every decision of a player whose turn it is, and who can act, is accepted.
pub proof fn decisions_are_legal(g: GameModel)
    requires
        g.wf(),
        !g.over(),
        g.to_act < g.players.len(),
        g.actor().can_act(),
        decision_fits(g, g.to_act),
    ensures
        g.rejection(decision(g, g.to_act)) is None,
{
}

/// The machine stakes everything it has only where a call takes it and the hand is strong,
/// whether it goes all in or calls.
pub proof fn the_machine_goes_all_in_only_to_call(g: GameModel, idx: int)
    requires
        decision(g, idx) == Action::AllIn || (decision(g, idx) == Action::Call && owed(
            g,
            g.players[idx],
        ) >= g.players[idx].chips),
    ensures
        owed(g, g.players[idx]) >= g.players[idx].chips,
        can_clear(g, idx),
        strength(g, idx) >= STRONG_ADV,
{
}

/// The machine never raises with everything it has: a raise leaves it some chips.
pub proof fn raises_leave_the_machine_chips(g: GameModel, idx: int)
    requires
        0 <= g.current_bet,
        tries_to_raise(g, idx) ==> g.current_bet + RAISE_STEP <= u32::MAX,
    ensures
        decision(g, idx) matches Action::Raise { to } ==> to - g.players[idx].committed
            < g.players[idx].chips,
{
}

/// Where nothing has to be paid, the machine never folds.
pub proof fn what_is_free_is_never_folded(g: GameModel, idx: int)
    requires
        owed(g, g.players[idx]) == 0,
    ensures
        decision(g, idx) != Action::Fold,
{
}

/// The stronger a hand, the higher the chance that the machine raises with it.
pub proof fn stronger_hands_raise_more(weaker: int, stronger: int)
    requires
        weaker <= stronger,
    ensures
        raise_chance(weaker) <= raise_chance(stronger),
{
}

} // verus!
