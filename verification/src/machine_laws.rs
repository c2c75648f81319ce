//! What holds of the machine's decisions: when it raises and how far, when it stays in, and when
//! it gives up. The laws speak of the report of the best team at the seat, whichever it is.
use crate::ai::{bluff_dice, bluff_seed, decision, decision_fits};
use crate::cards::Adventurer;
use crate::combat::Report;
use crate::game::{Action, Phase};
use crate::game_model::GameModel;
use crate::player::PlayerModel;
use crate::showdown_laws::{best_of, the_best_team_is_one, trials_show_the_team};
use vstd::prelude::*;

verus! {

// ---- Terms ----

/// The report is that of the best team at the seat, and the numbers of the position fit.
pub open spec fn knows_its_hand(g: GameModel, idx: int, r: Report) -> bool {
    &&& g.wf()
    &&& 0 <= idx < g.players.len()
    &&& decision_fits(g, idx)
    &&& best_of(g, g.players[idx].hole, r)
}

/// What is left of the team, taken together.
pub open spec fn left(r: Report) -> int {
    r.remaining_health + r.remaining_power
}

/// The position in which the player at the seat holds other cards.
pub open spec fn with_hole(g: GameModel, idx: int, hole: Seq<Adventurer>) -> GameModel {
    GameModel {
        players: g.players.update(idx, PlayerModel { hole, ..g.players[idx] }),
        ..g
    }
}

proof fn lemma_hand(g: GameModel, idx: int, r: Report)
    requires
        best_of(g, g.players[idx].hole, r),
    ensures
        r == g.best_report(g.players[idx].hole),
{
    let hole = g.players[idx].hole;
    trials_show_the_team(g, hole, Seq::empty());
    the_best_team_is_one(g, hole, r, g.best_report(hole));
}

// ---- Staying in ----

/// A team that comes through with twelve or more left is never folded as long as staying in
/// costs less than the stack.
pub proof fn decent_hands_are_never_folded(g: GameModel, idx: int, r: Report)
    requires
        knows_its_hand(g, idx, r),
        r.cleared,
        left(r) >= 12,
        g.current_bet - g.players[idx].committed < g.players[idx].chips,
    ensures
        decision(g, idx) != Action::Fold,
{
    lemma_hand(g, idx, r);
}

/// In the same position, a better hand never folds where a worse one stays in: neither a team
/// that comes through with more left, nor a team that comes through against one that does not.
pub proof fn better_hands_stay_in_longer(
    g: GameModel,
    idx: int,
    hole: Seq<Adventurer>,
    worse: Report,
    better: Report,
)
    requires
        knows_its_hand(g, idx, worse),
        knows_its_hand(with_hole(g, idx, hole), idx, better),
        better.cleared,
        !worse.cleared || left(worse) <= left(better),
        decision(g, idx) != Action::Fold,
    ensures
        decision(with_hole(g, idx, hole), idx) != Action::Fold,
{
    lemma_hand(g, idx, worse);
    lemma_hand(with_hole(g, idx, hole), idx, better);
    assert(with_hole(g, idx, hole).players[idx].chips == g.players[idx].chips);
    assert(bluff_dice(g, idx) == bluff_dice(with_hole(g, idx, hole), idx));
}

/// A team that comes through stays in wherever that is cheap: for up to a third of the pot, or a
/// fifth of the stack.
pub proof fn cheap_bets_are_paid(g: GameModel, idx: int, r: Report)
    requires
        knows_its_hand(g, idx, r),
        r.cleared,
        g.current_bet - g.players[idx].committed < g.players[idx].chips,
        3 * (g.current_bet - g.players[idx].committed) <= g.pot || 5 * (g.current_bet
            - g.players[idx].committed) <= g.players[idx].chips,
    ensures
        decision(g, idx) != Action::Fold,
{
    lemma_hand(g, idx, r);
}

/// A team that comes through with less than twelve left gives up a bet that is less than the
/// stack and yet dear: more than a third of the pot and more than a fifth of the stack.
pub proof fn thin_hands_fold_to_dear_bets(g: GameModel, idx: int, r: Report)
    requires
        knows_its_hand(g, idx, r),
        r.cleared,
        left(r) < 12,
        0 < g.current_bet - g.players[idx].committed < g.players[idx].chips,
        3 * (g.current_bet - g.players[idx].committed) > g.pot,
        5 * (g.current_bet - g.players[idx].committed) > g.players[idx].chips,
        g.pot < u32::MAX,
    ensures
        decision(g, idx) == Action::Fold,
{
    lemma_hand(g, idx, r);
}

/// Where a call takes the whole stack, a team that comes through with twenty-five or more left
/// goes all in, and any other folds.
pub proof fn stacks_are_staked_on_strong_hands(g: GameModel, idx: int, r: Report)
    requires
        knows_its_hand(g, idx, r),
        0 < g.players[idx].chips <= g.current_bet - g.players[idx].committed,
    ensures
        r.cleared && left(r) >= 25 ==> decision(g, idx) == Action::AllIn,
        !r.cleared || left(r) < 25 ==> decision(g, idx) == Action::Fold,
{
    lemma_hand(g, idx, r);
}

/// The machine goes all in nowhere else.
pub proof fn all_in_is_a_last_resort(g: GameModel, idx: int, r: Report)
    requires
        knows_its_hand(g, idx, r),
        decision(g, idx) == Action::AllIn,
    ensures
        g.players[idx].chips <= g.current_bet - g.players[idx].committed,
        r.cleared,
        left(r) >= 25,
{
    lemma_hand(g, idx, r);
}

/// Where nothing is owed, the machine checks or raises; where something is, it never checks.
pub proof fn checks_are_for_what_is_free(g: GameModel, idx: int)
    requires
        g.wf(),
        0 <= idx < g.players.len(),
    ensures
        g.current_bet == g.players[idx].committed ==> decision(g, idx) == Action::Check
            || decision(g, idx) is Raise,
        g.current_bet > g.players[idx].committed ==> decision(g, idx) != Action::Check,
{
}

// ---- Hands that would not come through ----

/// A team that would be wiped never raises a bet and never goes all in. It pays at most a tenth
/// of the stack, and that in ten positions of a hundred; else it folds.
pub proof fn losing_hands_pay_next_to_nothing(g: GameModel, idx: int, r: Report)
    requires
        knows_its_hand(g, idx, r),
        !r.cleared,
        g.current_bet > g.players[idx].committed,
    ensures
        decision(g, idx) == (if 10 * (g.current_bet - g.players[idx].committed)
            <= g.players[idx].chips && bluff_dice(g, idx) < 10 {
            Action::Call
        } else {
            Action::Fold
        }),
{
    lemma_hand(g, idx, r);
}

/// A team that would be wiped raises only where nobody has bet, never before the flop, and in
/// fifteen positions of a hundred.
pub proof fn losing_hands_steal_now_and_then(g: GameModel, idx: int, r: Report)
    requires
        knows_its_hand(g, idx, r),
        !r.cleared,
        g.current_bet == g.players[idx].committed,
    ensures
        decision(g, idx) == (if g.phase != Phase::PreFlop && bluff_dice(g, idx) < 15 && 20
            < g.players[idx].chips {
            Action::Raise { to: (g.current_bet + 20) as u32 }
        } else {
            Action::Check
        }),
{
    lemma_hand(g, idx, r);
}

// ---- Raising ----

/// In how many positions of a hundred a team with so much left raises.
pub open spec fn boldness(phase: Phase, left: int) -> int {
    let bold: int = if left < 12 {
        8
    } else if left < 25 {
        22
    } else if left < 40 {
        42
    } else if left < 60 {
        60
    } else {
        72
    };
    if phase == Phase::PreFlop {
        bold / 2
    } else {
        bold
    }
}

/// A team that comes through raises in as many positions of a hundred as its strength gives it,
/// half as many before the flop: as long as the line is below a third of all the player brought,
/// a raise leaves some chips, and, against a bet, twenty-five or more are left of the team.
pub proof fn winning_hands_raise(g: GameModel, idx: int, r: Report)
    requires
        knows_its_hand(g, idx, r),
        r.cleared,
    ensures
        decision(g, idx) is Raise <==> {
            let p = g.players[idx];
            &&& bluff_dice(g, idx) < boldness(g.phase, left(r))
            &&& 3 * g.current_bet < p.chips + p.committed
            &&& g.current_bet + 20 - p.committed < p.chips
            &&& g.current_bet == p.committed || left(r) >= 25
        },
{
    lemma_hand(g, idx, r);
}

/// Every raise moves the line up by twenty, and leaves the player some chips.
pub proof fn raises_are_by_twenty(g: GameModel, idx: int)
    requires
        g.wf(),
        0 <= idx < g.players.len(),
        decision_fits(g, idx),
    ensures
        decision(g, idx) matches Action::Raise { to } ==> to == g.current_bet + 20 && to
            - g.players[idx].committed < g.players[idx].chips,
{
}

/// The dice show a number below a hundred, and the same one in every position with the same pot,
/// seat, number of open cards, line and stack: what the machine holds does not move them.
pub proof fn dice_do_not_see_the_cards(g: GameModel, other: GameModel, idx: int)
    requires
        g.pot == other.pot,
        g.community.len() == other.community.len(),
        g.current_bet == other.current_bet,
        g.players[idx].chips == other.players[idx].chips,
    ensures
        0 <= bluff_dice(g, idx) < 100,
        bluff_dice(g, idx) == bluff_dice(other, idx),
{
}

/// A factor that has an inverse among the numbers of 64 bits keeps different numbers apart.
proof fn lemma_factor_keeps_apart(x: u64, y: u64, factor: u64, inverse: u64)
    requires
        (factor as int * inverse as int) % 0x1_0000_0000_0000_0000 == 1,
        x.wrapping_mul(factor) == y.wrapping_mul(factor),
    ensures
        x == y,
{
    let n: int = 0x1_0000_0000_0000_0000;
    let f = factor as int;
    let i = inverse as int;
    lemma_unfactored(x as int, f, i, n);
    lemma_unfactored(y as int, f, i, n);
    assert((x as int * f) % n == x.wrapping_mul(factor));
    assert((y as int * f) % n == y.wrapping_mul(factor));
}

proof fn lemma_unfactored(x: int, f: int, i: int, n: int)
    requires
        0 <= x < n,
        1 < n,
        (f * i) % n == 1,
    ensures
        (((x * f) % n) * i) % n == x,
{
    vstd::arithmetic::div_mod::lemma_mul_mod_noop_left(x * f, i, n);
    vstd::arithmetic::mul::lemma_mul_is_associative(x, f, i);
    vstd::arithmetic::div_mod::lemma_mul_mod_noop_right(x, f * i, n);
    vstd::arithmetic::div_mod::lemma_small_mod(x as nat, n as nat);
}

/// Every number of a position moves the dice: positions that differ in the pot alone, in the seat,
/// in how many cards are open, in the line or in the stack roll their dice from different starts.
pub proof fn every_number_moves_the_dice(
    pot: u32,
    idx: usize,
    open_cards: usize,
    line: u32,
    chips: u32,
)
    requires
        open_cards < 1000,
    ensures
        forall|other: u32|
            other != pot ==> #[trigger] bluff_seed(other, idx, open_cards, line, chips)
                != bluff_seed(pot, idx, open_cards, line, chips),
        forall|other: usize|
            other != idx ==> #[trigger] bluff_seed(pot, other, open_cards, line, chips)
                != bluff_seed(pot, idx, open_cards, line, chips),
        forall|other: usize|
            other != open_cards && other < 1000 ==> #[trigger] bluff_seed(
                pot,
                idx,
                other,
                line,
                chips,
            ) != bluff_seed(pot, idx, open_cards, line, chips),
        forall|other: u32|
            other != line ==> #[trigger] bluff_seed(pot, idx, open_cards, other, chips)
                != bluff_seed(pot, idx, open_cards, line, chips),
        forall|other: u32|
            other != chips ==> #[trigger] bluff_seed(pot, idx, open_cards, line, other)
                != bluff_seed(pot, idx, open_cards, line, chips),
{
    let p = (pot as u64).wrapping_mul(0x9E37_79B9_7F4A_7C15);
    let i = (idx as u64).wrapping_mul(0xD1B5_4A32_D192_ED03);
    let o = (open_cards as u64) << 17;
    let l = (line as u64) << 5;
    let c = (chips as u64).wrapping_mul(0x2545_F491_4F6C_DD1D);
    assert forall|other: u32| other != pot implies #[trigger] bluff_seed(
        other,
        idx,
        open_cards,
        line,
        chips,
    ) != bluff_seed(pot, idx, open_cards, line, chips) by {
        let q = (other as u64).wrapping_mul(0x9E37_79B9_7F4A_7C15);
        assert(q ^ i ^ o ^ l ^ c == p ^ i ^ o ^ l ^ c ==> q == p) by (bit_vector);
        if q == p {
            lemma_factor_keeps_apart(
                pot as u64,
                other as u64,
                0x9E37_79B9_7F4A_7C15,
                0xF1DE_83E1_9937_733D,
            );
        }
    }
    assert forall|other: usize| other != idx implies #[trigger] bluff_seed(
        pot,
        other,
        open_cards,
        line,
        chips,
    ) != bluff_seed(pot, idx, open_cards, line, chips) by {
        let q = (other as u64).wrapping_mul(0xD1B5_4A32_D192_ED03);
        assert(p ^ q ^ o ^ l ^ c == p ^ i ^ o ^ l ^ c ==> q == i) by (bit_vector);
        if q == i {
            lemma_factor_keeps_apart(
                idx as u64,
                other as u64,
                0xD1B5_4A32_D192_ED03,
                0x0610_6CCF_A448_E5AB,
            );
        }
    }
    assert forall|other: usize| other != open_cards && other < 1000 implies #[trigger] bluff_seed(
        pot,
        idx,
        other,
        line,
        chips,
    ) != bluff_seed(pot, idx, open_cards, line, chips) by {
        let a = open_cards as u64;
        let b = other as u64;
        assert(p ^ i ^ (b << 17) ^ l ^ c == p ^ i ^ (a << 17) ^ l ^ c ==> a == b) by (bit_vector)
            requires
                a < 1000,
                b < 1000,
        ;
    }
    assert forall|other: u32| other != line implies #[trigger] bluff_seed(
        pot,
        idx,
        open_cards,
        other,
        chips,
    ) != bluff_seed(pot, idx, open_cards, line, chips) by {
        let a = line as u64;
        let b = other as u64;
        assert(p ^ i ^ o ^ (b << 5) ^ c == p ^ i ^ o ^ (a << 5) ^ c ==> a == b) by (bit_vector)
            requires
                a <= 0xffff_ffff,
                b <= 0xffff_ffff,
        ;
    }
    assert forall|other: u32| other != chips implies #[trigger] bluff_seed(
        pot,
        idx,
        open_cards,
        line,
        other,
    ) != bluff_seed(pot, idx, open_cards, line, chips) by {
        let q = (other as u64).wrapping_mul(0x2545_F491_4F6C_DD1D);
        assert(p ^ i ^ o ^ l ^ q == p ^ i ^ o ^ l ^ c ==> q == c) by (bit_vector);
        if q == c {
            lemma_factor_keeps_apart(
                chips as u64,
                other as u64,
                0x2545_F491_4F6C_DD1D,
                0x5907_1D96_D81E_CD35,
            );
        }
    }
}

} // verus!
