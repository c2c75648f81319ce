//! What holds of a match from hand to hand: where the pot goes, what debts cost, and what a new
//! hand starts with.
use crate::cards::{Class, Scene};
use crate::game::Phase;
use crate::player::{PlayerId, PlayerModel, PlayerStatus};
use crate::rng::{first_draw, shuffle_keeps_the_cards};
use crate::session::{in_session, winners_sit_at_the_table};
use crate::table::{place_of, players_dealt, MatchModel, SeatDefModel, SeatModel};
use vstd::prelude::*;

verus! {

// ---- Booking a hand ----

proof fn lemma_place_is_at(players: Seq<PlayerModel>, id: PlayerId, from: int)
    requires
        0 <= from,
    ensures
        match place_of(players, id, from) {
            Some(i) => from <= i < players.len() && players[i].id == id,
            None => forall|k: int| from <= k < players.len() ==> (#[trigger] players[k]).id != id,
        },
    decreases players.len() - from,
{
    if from < players.len() && players[from].id != id {
        lemma_place_is_at(players, id, from + 1);
    }
}

/// When a hand is booked, the winner's seat gets the whole pot on top of what the player has left,
/// and every other seat gets what its player has left. Where nobody wins, the pot is carried over.
/// The outcome is kept.
pub proof fn the_pot_goes_to_the_winner(m: MatchModel, picks: Seq<(PlayerId, [usize; 3])>, i: int)
    requires
        in_session(m),
        !m.settled,
        m.hand.phase == Phase::Showdown,
        0 <= i < m.seats.len(),
    ensures
        ({
            let after = m.after_settling(picks);
            let winner = m.hand.settlement(picks).winner;
            &&& after.seats.len() == m.seats.len()
            &&& after.seats[i].chips == m.hand.players[i].chips + (if winner == Some(
                m.seats[i].id,
            ) {
                m.hand.pot
            } else {
                0
            })
            &&& after.hand.players.len() == m.hand.players.len()
            &&& after.hand.players[i] == (PlayerModel {
                chips: after.seats[i].chips,
                ..m.hand.players[i]
            })
            &&& winner is None ==> after.carry == m.carry + m.hand.pot
            &&& winner is Some ==> after.carry == m.carry
            &&& after.settled
            &&& after.hand.phase == Phase::Done
            &&& after.last == Some(m.hand.settlement(picks))
            &&& m.outcome(picks) == m.hand.settlement(picks)
            &&& after.outcome(picks) == m.hand.settlement(picks)
            &&& after.hand_no == m.hand_no
            &&& after.button == m.button
            &&& after.ante == m.ante
            &&& after.scene == m.scene
            &&& after.hand.community == m.hand.community
            &&& after.hand.dungeon == m.hand.dungeon
            &&& after.hand.pot == m.hand.pot
        }),
{
    let s = m.hand.settlement(picks);
    assert(m.seats[i].id == PlayerId(i as u32) && m.hand.players[i].id == m.seats[i].id);
    assert(m.seats.len() <= u32::MAX);
    if let Some(id) = s.winner {
        winners_sit_at_the_table(m, picks);
        lemma_place_is_at(m.hand.players, id, 0);
        let w = place_of(m.hand.players, id, 0)->0;
        assert(m.seats[w].id == PlayerId(w as u32) && m.hand.players[w].id == m.seats[w].id);
        assert(w == i || m.hand.players[i].id != id);
    }
}

/// With every booked hand a debt grows by a twentieth, rounded down, and by one chip at least.
/// Who owes nothing pays nothing. Nothing else about a seat changes but its chips.
pub proof fn debts_grow_by_a_twentieth(m: MatchModel, picks: Seq<(PlayerId, [usize; 3])>, i: int)
    requires
        !m.settled,
        m.hand.phase == Phase::Showdown,
        0 <= i < m.seats.len(),
        0 <= m.seats[i].debt,
    ensures
        ({
            let before = m.seats[i];
            let now = m.after_settling(picks).seats[i];
            let grown = now.debt - before.debt;
            &&& before.debt == 0 ==> grown == 0
            &&& 0 < before.debt < 40 ==> grown == 1
            &&& before.debt >= 40 ==> 20 * grown <= before.debt < 20 * (grown + 1)
            &&& now.loans == before.loans
            &&& now.id == before.id
            &&& now.name == before.name
            &&& now.is_ai == before.is_ai
        }),
{
    let d = m.seats[i].debt;
    assert(d * 5 / 100 == d / 20);
}

/// A hand that is booked already, or has not come to its showdown, is not booked.
pub proof fn hands_are_booked_once(m: MatchModel, picks: Seq<(PlayerId, [usize; 3])>)
    requires
        m.settled || m.hand.phase != Phase::Showdown,
    ensures
        m.after_settling(picks) == m,
        m.settled && m.last is Some ==> m.last == Some(m.outcome(picks)),
        !m.settled ==> m.outcome(picks) == m.hand.settlement(picks),
{
}

// ---- Loans ----

/// A loan is a thousand chips, owed in full and counted. The player has them in the hand at once,
/// unless the hand is done. Nobody else sees anything of it, and a seat that does not exist
/// borrows nothing.
pub proof fn loans_are_a_thousand(m: MatchModel, seat: int)
    ensures
        ({
            let after = m.after_borrowing(seat);
            &&& after.seats.len() == m.seats.len()
            &&& after.hand.players.len() == m.hand.players.len()
            &&& 0 <= seat < m.seats.len() ==> after.seats[seat] == (SeatModel {
                chips: m.seats[seat].chips + 1000,
                debt: m.seats[seat].debt + 1000,
                loans: m.seats[seat].loans + 1,
                ..m.seats[seat]
            })
            &&& forall|k: int|
                0 <= k < m.seats.len() && k != seat ==> #[trigger] after.seats[k] == m.seats[k]
            &&& 0 <= seat < m.hand.players.len() && m.hand.phase != Phase::Done
                ==> after.hand.players[seat] == (PlayerModel {
                chips: m.hand.players[seat].chips + 1000,
                ..m.hand.players[seat]
            })
            &&& m.hand.phase == Phase::Done ==> after.hand.players == m.hand.players
            &&& forall|k: int|
                0 <= k < m.hand.players.len() && k != seat ==> #[trigger] after.hand.players[k]
                    == m.hand.players[k]
            &&& after.hand.pot == m.hand.pot
            &&& after.hand.phase == m.hand.phase
            &&& after.hand.to_act == m.hand.to_act
            &&& after.hand.current_bet == m.hand.current_bet
            &&& after.carry == m.carry
            &&& after.settled == m.settled
            &&& after.last == m.last
        }),
{
}

// ---- A new hand ----

/// The match from one hand to the next: the hand is counted, the button moves one seat on and
/// from the last seat to the first, and the ante is ten chips, ten more after every five hands.
/// The pot that was carried over is in the new pot.
pub proof fn hands_are_counted(m: MatchModel)
    requires
        0 <= m.hand_no,
        0 <= m.button < m.seats.len(),
    ensures
        ({
            let next = m.moved_on().dealt();
            &&& next.hand_no == m.hand_no + 1
            &&& next.button == (if m.button + 1 == m.seats.len() {
                0
            } else {
                m.button + 1
            })
            &&& next.ante == 10 * (1 + next.hand_no / 5)
            &&& next.hand.current_bet == next.ante
            &&& next.hand.scene == next.scene
            &&& next.carry == 0
            &&& !next.settled
            &&& next.last is None
            &&& next.hand.phase == Phase::PreFlop
            &&& next.deck.to_multiset() == m.deck.to_multiset()
        }),
{
    if m.button + 1 < m.seats.len() {
        vstd::arithmetic::div_mod::lemma_small_mod(
            (m.button + 1) as nat,
            m.seats.len() as nat,
        );
    } else {
        vstd::arithmetic::div_mod::lemma_mod_self_0(m.seats.len() as int);
    }
    shuffle_keeps_the_cards(m.deck, crate::rng::next_state(m.state));
}

/// Before a new hand the bank lends a thousand chips to every seat of the machine that cannot pay
/// the ante, and to nobody else.
pub proof fn the_bank_stakes_the_machine(m: MatchModel, i: int)
    requires
        0 <= m.hand_no,
        0 <= i < m.seats.len(),
    ensures
        ({
            let next = m.moved_on().dealt();
            let before = m.seats[i];
            &&& next.seats.len() == m.seats.len()
            &&& next.seats[i] == (if before.is_ai && before.chips < 10 * (1 + (m.hand_no + 1)
                / 5) {
                SeatModel {
                    chips: before.chips + 1000,
                    debt: before.debt + 1000,
                    loans: before.loans + 1,
                    ..before
                }
            } else {
                before
            })
        }),
{
}

/// Every seat is dealt in with all its chips, less the ante or all there is, and with the two
/// cards of the shuffled deck that are its own: seat by seat, two at a time, so that no card is
/// dealt twice.
pub proof fn every_seat_is_dealt_in(m: MatchModel, i: int)
    requires
        0 <= m.hand_no,
        0 <= i < m.seats.len(),
        0 <= m.seats[i].chips,
    ensures
        ({
            let next = m.dealt();
            let seat = next.seats[i];
            let p = next.hand.players[i];
            &&& next.hand.players.len() == m.seats.len()
            &&& p.id == seat.id
            &&& p.name == seat.name
            &&& p.is_ai == seat.is_ai
            &&& p.status == PlayerStatus::Active
            &&& p.committed == seat.chips - p.chips
            &&& 0 <= p.chips
            &&& 0 <= p.committed <= next.ante
            &&& p.committed == next.ante || p.chips == 0
            &&& p.hole.len() == 2
            &&& 2 * i + 1 < next.deck.len() ==> p.hole[0] == next.deck[2 * i] && p.hole[1]
                == next.deck[2 * i + 1]
            &&& next.hand.acted.len() == m.seats.len()
            &&& !next.hand.acted[i]
        }),
{
    let seats = m.seats_staked();
    assert(seats[i].chips >= 0);
}

/// The new pot is what was carried over and the antes: with one more chip carried over it is one
/// chip larger, and everything else about the hand is the same.
pub proof fn carried_pots_are_played_for(m: MatchModel, carry: int)
    ensures
        ({
            let other = MatchModel { carry, ..m };
            &&& other.dealt().hand.pot == m.dealt().hand.pot - m.carry + carry
            &&& other.dealt().hand.players == m.dealt().hand.players
            &&& other.dealt().seats == m.dealt().seats
            &&& m.seats.len() == 0 ==> m.dealt().hand.pot == m.carry
        }),
{
    let other = MatchModel { carry, ..m };
    assert(other.seats_staked() =~= m.seats_staked());
    if m.seats.len() == 0 {
        assert(players_dealt(m.seats_staked(), m.deck_shuffled()).len() == 0);
    }
}

// ---- A new match ----

/// Everyone buys in for a thousand chips and owes nothing. Seats keep the order in which they
/// were given, and are numbered from zero. The first hand is hand zero, with the button at the
/// first seat and an ante of ten.
pub proof fn matches_start_even(defs: Seq<SeatDefModel>, seed: u64, i: int)
    requires
        0 <= i < defs.len(),
    ensures
        ({
            let m = MatchModel::fresh(defs, seed).dealt();
            &&& m.seats.len() == defs.len()
            &&& m.seats[i] == (SeatModel {
                id: PlayerId(i as u32),
                name: defs[i].name,
                is_ai: defs[i].is_ai,
                chips: 1000,
                debt: 0,
                loans: 0,
            })
            &&& m.hand_no == 0
            &&& m.button == 0
            &&& m.ante == 10
            &&& m.carry == 0
            &&& !m.settled
            &&& m.last is None
            &&& m.hand.players[i].chips == 990
            &&& m.hand.players[i].committed == 10
        }),
{
}

// ---- Standing ----

/// A ranking lists every seat once, from the one with the most chips less debts to the one with
/// the least; of equals the one that sits first comes first.
pub proof fn rankings_go_by_chips_less_debts(m: MatchModel, order: Seq<usize>, i: int, j: int)
    requires
        m.is_ranking(order),
        0 <= i < j < order.len(),
    ensures
        ({
            let a = m.seats[order[i] as int];
            let b = m.seats[order[j] as int];
            &&& order.len() == m.seats.len()
            &&& order[i] < m.seats.len()
            &&& order[j] < m.seats.len()
            &&& a.chips - a.debt >= b.chips - b.debt
            &&& a.chips - a.debt == b.chips - b.debt ==> order[i] < order[j]
            &&& order[i] != order[j]
        }),
{
    assert(m.ranks_above(order[i] as int, order[j] as int));
}

/// The scene of a hand is drawn, each of the six with its share of the draws.
pub proof fn scenes_are_drawn(m: MatchModel)
    ensures
        ({
            let draw = first_draw(m.state) as usize % 6;
            m.dealt().scene == (if draw == 0 {
                Scene::IceField
            } else if draw == 1 {
                Scene::StoneArena
            } else if draw == 2 {
                Scene::Marsh
            } else if draw == 3 {
                Scene::Tomb
            } else if draw == 4 {
                Scene::Volcano
            } else {
                Scene::WheatField
            })
        }),
{
}

/// Where the deck has run out, a warrior of three power and nine health and a mage of six power
/// and three health stand in.
pub proof fn missing_cards_are_made_up(m: MatchModel, i: int)
    requires
        0 <= i < m.seats.len(),
    ensures
        ({
            let next = m.dealt();
            let hole = next.hand.players[i].hole;
            &&& 2 * i >= next.deck.len() ==> hole[0].class == Class::Warrior && hole[0].power == 3
                && hole[0].health == 9
            &&& 2 * i + 1 >= next.deck.len() ==> hole[1].class == Class::Mage && hole[1].power == 6
                && hole[1].health == 3
            &&& 2 * i < next.deck.len() ==> hole[0] == next.deck[2 * i]
        }),
{
}

} // verus!
