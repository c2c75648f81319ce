//! What holds of a match from hand to hand, and what keeps it within the limits of the machine.
use crate::ai::RAISE_STEP;
use crate::game::{adventurer_kinds, Action, Phase};
use crate::game_laws::{
    lemma_shuffled_member, lemma_total_of_update, money, opening_keeps_the_money,
    the_scoreboard_lists_who_stayed, the_winner_cleared_with_the_most,
};
use crate::game_model::{total_chips, winner_place, GameModel};
use crate::playable::{
    actions_keep_hands_playable, affordable, modest_hole, modest_unit, modest_units,
    openings_are_playable, playable_hands_settle, steady,
};
use crate::player::{PlayerId, PlayerModel};
use crate::rng::{first_draw, next_state};
use crate::table::{
    ante_of, hole_dealt, paid_out, place_of, players_dealt, Match, MatchModel, SeatDefModel,
    SeatModel, BASE_ANTE, BUY_IN, INTEREST_PCT,
};
use vstd::prelude::*;

verus! {

/// All chips of all seats.
pub open spec fn seat_chips(seats: Seq<SeatModel>) -> int
    decreases seats.len(),
{
    if seats.len() == 0 {
        0
    } else {
        seat_chips(seats.drop_last()) + seats.last().chips
    }
}

/// All money of a match: what the hand holds until it is booked, what the seats hold from then
/// on, and what has been carried over.
pub open spec fn match_money(m: MatchModel) -> int {
    m.carry + (if m.settled {
        seat_chips(m.seats)
    } else {
        money(m.hand)
    })
}

proof fn lemma_seats_hold_players(seats: Seq<SeatModel>, players: Seq<PlayerModel>)
    requires
        seats.len() == players.len(),
        forall|i: int| 0 <= i < seats.len() ==> (#[trigger] seats[i]).chips == players[i].chips,
    ensures
        seat_chips(seats) == total_chips(players),
    decreases seats.len(),
{
    if seats.len() > 0 {
        assert forall|i: int| 0 <= i < seats.drop_last().len() implies (
        #[trigger] seats.drop_last()[i]).chips == players.drop_last()[i].chips by {
            assert(seats.drop_last()[i] == seats[i]);
        }
        assert(seats[seats.len() - 1].chips == players[players.len() - 1].chips);
        lemma_seats_hold_players(seats.drop_last(), players.drop_last());
    }
}

proof fn lemma_place_found(players: Seq<PlayerModel>, id: PlayerId, from: int, at: int)
    requires
        0 <= from <= at < players.len(),
        players[at].id == id,
    ensures
        match place_of(players, id, from) {
            Some(i) => 0 <= i < players.len() && players[i].id == id,
            None => false,
        },
    decreases players.len() - from,
{
    if players[from].id != id {
        lemma_place_found(players, id, from + 1, at);
    }
}

proof fn lemma_place_in_range(players: Seq<PlayerModel>, id: PlayerId, from: int)
    requires
        0 <= from,
    ensures
        match place_of(players, id, from) {
            Some(i) => from <= i < players.len(),
            None => true,
        },
    decreases players.len() - from,
{
    if from < players.len() {
        lemma_place_in_range(players, id, from + 1);
    }
}

proof fn lemma_paid_out(players: Seq<PlayerModel>, winner: Option<PlayerId>, pot: int)
    requires
        0 <= pot,
    ensures
        paid_out(players, winner, pot).len() == players.len(),
        forall|i: int|
            0 <= i < players.len() ==> (#[trigger] paid_out(players, winner, pot)[i]) == (
            PlayerModel { chips: paid_out(players, winner, pot)[i].chips, ..players[i] })
                && players[i].chips <= paid_out(players, winner, pot)[i].chips,
{
    if let Some(id) = winner {
        lemma_place_in_range(players, id, 0);
    }
}

/// A winner is one of the players.
pub proof fn winners_sit_at_the_table(m: MatchModel, picks: Seq<(PlayerId, [usize; 3])>)
    requires
        m.hand.settlement(picks).winner is Some,
    ensures
        match place_of(m.hand.players, m.hand.settlement(picks).winner->0, 0) {
            Some(i) => 0 <= i < m.hand.players.len() && m.hand.players[i].id
                == m.hand.settlement(picks).winner->0,
            None => false,
        },
{
    let g = m.hand;
    let n = g.players.len() as int;
    let results = g.results(picks, n);
    the_winner_cleared_with_the_most(results);
    the_scoreboard_lists_who_stayed(g, picks, n);
    let w = winner_place(results)->0;
    let line = results[w];
    let i = choose|i: int|
        0 <= i < n && g.players[i].in_hand() && line == crate::game_model::result_of(
            g.players[i].id,
            #[trigger] g.player_report(g.players[i], picks),
        );
    lemma_place_found(g.players, line.id, 0, i);
}

/// Booking a hand neither makes money nor loses it: the winner gets the pot, or it is carried
/// over.
pub proof fn settling_keeps_the_money(m: MatchModel, picks: Seq<(PlayerId, [usize; 3])>)
    requires
        m.seats.len() == m.hand.players.len(),
    ensures
        match_money(m.after_settling(picks)) == match_money(m),
{
    if m.books_now() {
        let s = m.hand.settlement(picks);
        let after = m.after_settling(picks);
        if let Some(id) = s.winner {
            lemma_place_in_range(m.hand.players, id, 0);
        }
        lemma_seats_hold_players(after.seats, after.hand.players);
        if let Some(id) = s.winner {
            winners_sit_at_the_table(m, picks);
            let i = place_of(m.hand.players, id, 0)->0;
            lemma_total_of_update(m.hand.players, i, after.hand.players[i]);
        }
    }
}

/// Settling a second time changes nothing and gives the same outcome, whatever is picked then.
pub proof fn settling_again_changes_nothing(
    m: MatchModel,
    first: Seq<(PlayerId, [usize; 3])>,
    second: Seq<(PlayerId, [usize; 3])>,
)
    requires
        m.books_now(),
    ensures
        m.after_settling(first).after_settling(second) == m.after_settling(first),
        m.after_settling(first).outcome(second) == m.outcome(first),
{
}

/// Before the showdown nothing is booked.
pub proof fn nothing_is_booked_before_the_showdown(
    m: MatchModel,
    picks: Seq<(PlayerId, [usize; 3])>,
)
    requires
        m.hand.phase != Phase::Showdown,
    ensures
        m.after_settling(picks) == m,
{
}

/// A new hand holds what the seats hold after the bank has staked broke ones, and what was
/// carried over.
pub proof fn dealing_keeps_the_money(m: MatchModel)
    requires
        m.hand_no >= 0,
        forall|i: int| 0 <= i < m.seats.len() ==> 0 <= (#[trigger] m.seats[i]).chips,
    ensures
        match_money(m.dealt()) == seat_chips(m.seats_staked()) + m.carry,
{
    let seats = m.seats_staked();
    let players = players_dealt(seats, m.deck_shuffled());
    assert forall|i: int| 0 <= i < players.len() implies 0 <= (#[trigger] players[i]).chips by {
        assert(seats[i] == m.seats[i].staked(ante_of(m.hand_no)));
    }
    opening_keeps_the_money(players, ante_of(m.hand_no), first_draw(m.state_shuffled()));
    lemma_seats_hold_players(seats, players);
}

/// A loan leaves the net worth of the seat as it was, every other seat untouched, and a hand that
/// is done as it is.
pub proof fn borrowing_keeps_net_worth(m: MatchModel, seat: int)
    ensures
        m.after_borrowing(seat).seats.len() == m.seats.len(),
        forall|i: int|
            0 <= i < m.seats.len() ==> (#[trigger] m.after_borrowing(seat).seats[i]).worth()
                == m.seats[i].worth(),
        forall|i: int|
            0 <= i < m.seats.len() && i != seat ==> #[trigger] m.after_borrowing(seat).seats[i]
                == m.seats[i],
        m.hand.phase == Phase::Done ==> m.after_borrowing(seat).hand == m.hand,
{
}

/// The bank stakes seats at no change of their net worth.
pub proof fn staking_keeps_net_worth(m: MatchModel)
    ensures
        m.seats_staked().len() == m.seats.len(),
        forall|i: int|
            0 <= i < m.seats.len() ==> (#[trigger] m.seats_staked()[i]).worth()
                == m.seats[i].worth(),
{
}

/// A debt grows with every booked hand; without a debt there is no interest.
pub proof fn debts_grow(m: MatchModel, picks: Seq<(PlayerId, [usize; 3])>, i: int)
    requires
        m.books_now(),
        0 <= i < m.seats.len(),
        0 <= m.seats[i].debt,
    ensures
        m.seats[i].debt > 0 ==> m.after_settling(picks).seats[i].debt > m.seats[i].debt,
        m.seats[i].debt == 0 ==> m.after_settling(picks).seats[i].debt == 0,
{
}

// ---- Limits ----

/// Seats and players belong to each other, and are named by their places.
pub open spec fn seated(seats: Seq<SeatModel>, players: Seq<PlayerModel>) -> bool {
    &&& seats.len() == players.len()
    &&& forall|i: int|
        0 <= i < seats.len() ==> (#[trigger] seats[i]).id == PlayerId(i as u32)
            && players[i].id == PlayerId(i as u32)
}

/// No account is below zero.
pub open spec fn accounts_in_order(seats: Seq<SeatModel>) -> bool {
    forall|i: int|
        0 <= i < seats.len() ==> 0 <= (#[trigger] seats[i]).chips && 0 <= seats[i].debt && 0
            <= seats[i].loans
}

/// A match in which no number can outgrow its register until the hand is booked.
pub open spec fn in_session(m: MatchModel) -> bool {
    &&& 0 < m.seats.len()
    &&& BASE_ANTE * m.seats.len() <= u32::MAX
    &&& seated(m.seats, m.hand.players)
    &&& accounts_in_order(m.seats)
    &&& modest_units(m.deck)
    &&& steady(m.hand)
    &&& 0 <= m.hand_no
    &&& 0 <= m.carry
    &&& 0 <= m.button < m.seats.len()
    &&& if m.settled {
        m.hand.phase == Phase::Done && m.last is Some
    } else {
        m.hand.phase != Phase::Done && affordable(m.hand) && m.carry == 0
    }
}

/// The debts of all seats can bear interest.
pub open spec fn debts_fit(m: MatchModel) -> bool {
    forall|i: int|
        0 <= i < m.seats.len() ==> (#[trigger] m.seats[i]).debt * INTEREST_PCT <= u32::MAX
}

/// A further loan fits: in the seat, and in the hand as long as it is open.
pub open spec fn loan_fits(m: MatchModel, seat: int) -> bool {
    &&& m.borrowing_fits(seat)
    &&& !m.settled ==> money(m.hand) + BUY_IN + RAISE_STEP <= u32::MAX
}

/// Another hand can be dealt, and will stay within the limits.
pub open spec fn next_hand_fits(m: MatchModel) -> bool {
    let next = m.moved_on();
    let ante = ante_of(next.hand_no);
    &&& next.hand_no <= u32::MAX
    &&& ante + RAISE_STEP <= u32::MAX
    &&& forall|i: int|
        0 <= i < m.seats.len() && (#[trigger] m.seats[i]).is_broke(ante)
            ==> m.seats[i].borrowing_fits()
    &&& seat_chips(next.seats_staked()) + m.carry + RAISE_STEP <= u32::MAX
}

proof fn lemma_modest_deal(m: MatchModel)
    requires
        modest_units(m.deck),
    ensures
        modest_units(m.deck_shuffled()),
        forall|i: int| modest_hole(#[trigger] hole_dealt(m.deck_shuffled(), i)) || i < 0,
{
    let deck = m.deck_shuffled();
    assert forall|i: int| 0 <= i < deck.len() implies modest_unit(#[trigger] deck[i]) by {
        lemma_shuffled_member(m.deck, next_state(m.state), i);
        let k = choose|k: int| 0 <= k < m.deck.len() && m.deck[k] == deck[i];
        assert(modest_unit(m.deck[k]));
    }
    assert forall|i: int| modest_hole(#[trigger] hole_dealt(deck, i)) || i < 0 by {
        if i >= 0 {
            let hole = hole_dealt(deck, i);
            assert forall|j: int| 0 <= j < hole.len() implies modest_unit(#[trigger] hole[j]) by {
                if 2 * i + j < deck.len() {
                    assert(hole[j] == deck[2 * i + j]);
                }
            }
        }
    }
}

proof fn lemma_dealt_in_session(m: MatchModel)
    requires
        0 < m.seats.len(),
        BASE_ANTE * m.seats.len() <= u32::MAX,
        forall|i: int| 0 <= i < m.seats.len() ==> (#[trigger] m.seats[i]).id == PlayerId(i as u32),
        forall|i: int|
            0 <= i < m.seats.len() ==> 0 <= (#[trigger] m.seats[i]).chips && 0 <= m.seats[i].debt
                && 0 <= m.seats[i].loans,
        modest_units(m.deck),
        0 <= m.hand_no,
        0 <= m.carry,
        0 <= m.button < m.seats.len(),
        ante_of(m.hand_no) + RAISE_STEP <= u32::MAX,
        forall|i: int|
            0 <= i < m.seats.len() && (#[trigger] m.seats[i]).is_broke(ante_of(m.hand_no))
                ==> m.seats[i].borrowing_fits(),
        seat_chips(m.seats_staked()) + m.carry + RAISE_STEP <= u32::MAX,
    ensures
        m.deal_fits(),
        in_session(m.dealt()),
{
    let ante = ante_of(m.hand_no);
    let seats = m.seats_staked();
    let players = players_dealt(seats, m.deck_shuffled());
    let seed = first_draw(m.state_shuffled());
    lemma_modest_deal(m);
    assert forall|i: int| 0 <= i < players.len() implies 0 <= (#[trigger] players[i]).chips
        && modest_hole(players[i].hole) by {
        assert(seats[i] == m.seats[i].staked(ante));
        assert(modest_hole(hole_dealt(m.deck_shuffled(), i)));
    }
    lemma_seats_hold_players(seats, players);
    opening_keeps_the_money(players, ante, seed);
    openings_are_playable(players, ante, seed);
    let opened = GameModel::opening(players, ante, seed);
    crate::game_laws::lemma_total_not_negative(opened.players);
    let d = m.dealt();
    assert(d.hand.players == opened.players);
    assert forall|i: int| 0 <= i < d.seats.len() implies (#[trigger] d.seats[i]).id == PlayerId(
        i as u32,
    ) && d.hand.players[i].id == PlayerId(i as u32) by {
        assert(d.seats[i] == m.seats[i].staked(ante));
    }
    assert forall|i: int| 0 <= i < d.hand.players.len() implies (
    #[trigger] d.hand.players[i]).committed <= d.hand.pot by {
        assert(opened.players[i].committed <= opened.pot);
    }
}

/// A match opens in session, whoever sits down: up to four million seats, whose buy-ins together
/// fit the register of a pot.
pub proof fn matches_open_in_session(defs: Seq<SeatDefModel>, seed: u64)
    requires
        0 < defs.len() <= 4_000_000,
    ensures
        in_session(MatchModel::fresh(defs, seed).dealt()),
{
    let m = MatchModel::fresh(defs, seed);
    let kinds = adventurer_kinds();
    assert forall|i: int| 0 <= i < m.deck.len() implies modest_unit(#[trigger] m.deck[i]) by {
        assert(m.deck[i] == kinds[i % 8]);
    }
    assert(m.seats_staked() =~= m.seats);
    lemma_buy_ins(m.seats);
    lemma_dealt_in_session(m);
}

proof fn lemma_buy_ins(seats: Seq<SeatModel>)
    requires
        forall|i: int| 0 <= i < seats.len() ==> (#[trigger] seats[i]).chips == BUY_IN,
    ensures
        seat_chips(seats) == BUY_IN * seats.len(),
    decreases seats.len(),
{
    if seats.len() > 0 {
        let rest = seats.drop_last();
        assert forall|i: int| 0 <= i < rest.len() implies (#[trigger] rest[i]).chips == BUY_IN by {
            assert(rest[i] == seats[i]);
        }
        lemma_buy_ins(rest);
        assert(seats[seats.len() - 1].chips == BUY_IN);
    }
}

proof fn lemma_still_seated(
    seats: Seq<SeatModel>,
    players: Seq<PlayerModel>,
    new_seats: Seq<SeatModel>,
    new_players: Seq<PlayerModel>,
)
    requires
        seated(seats, players),
        new_seats.len() == seats.len(),
        new_players.len() == players.len(),
        forall|i: int| 0 <= i < seats.len() ==> (#[trigger] new_seats[i]).id == seats[i].id,
        forall|i: int| 0 <= i < players.len() ==> (#[trigger] new_players[i]).id == players[i].id,
    ensures
        seated(new_seats, new_players),
{
    assert forall|i: int| 0 <= i < new_seats.len() implies (#[trigger] new_seats[i]).id
        == PlayerId(i as u32) && new_players[i].id == PlayerId(i as u32) by {
        assert(seats[i].id == PlayerId(i as u32));
        assert(new_players[i].id == players[i].id);
    }
}

/// Playing a hand keeps the match in session.
pub proof fn actions_keep_the_session(m: MatchModel, action: Action)
    requires
        in_session(m),
        m.hand.rejection(action) is None,
    ensures
        in_session(MatchModel { hand: m.hand.after(action), ..m }),
{
    let after = m.hand.after(action);
    actions_keep_hands_playable(m.hand, action);
    crate::game_laws::lemma_acted_upon(m.hand, action);
    let h = crate::game_laws::acted_upon(m.hand, action);
    crate::game_laws::lemma_turn_passed(h);
    crate::game_laws::lemma_never_done(m.hand, action);
    assert(after == h.turn_passed());
    assert forall|i: int| 0 <= i < m.hand.players.len() implies (#[trigger] after.players[i]).id
        == m.hand.players[i].id by {
        if i == m.hand.to_act {
            assert(h.players[i] == h.actor());
        } else {
            assert(h.players[i] == m.hand.players[i]);
        }
        assert(after.players[i].id == h.players[i].id);
    }
    lemma_still_seated(m.seats, m.hand.players, m.seats, after.players);
}

/// Settling a match in session fits as long as the debts do, and keeps it in session.
pub proof fn settling_keeps_the_session(m: MatchModel, picks: Seq<(PlayerId, [usize; 3])>)
    requires
        in_session(m),
        debts_fit(m),
    ensures
        m.settling_fits(picks),
        in_session(m.after_settling(picks)),
{
    if !m.settled {
        playable_hands_settle(m.hand, picks);
        crate::game_laws::lemma_total_not_negative(m.hand.players);
    }
    if m.books_now() {
        let s = m.hand.settlement(picks);
        let after = m.after_settling(picks);
        lemma_paid_out(m.hand.players, s.winner, m.hand.pot);
        assert forall|i: int| 0 <= i < m.hand.players.len() implies (
        #[trigger] m.hand.players[i]).chips + m.hand.pot <= u32::MAX by {
            crate::game_laws::lemma_chips_within_total(m.hand.players, i);
        }
        assert forall|i: int| 0 <= i < m.seats.len() implies 0 <= (
        #[trigger] after.seats[i]).chips && 0 <= after.seats[i].debt && 0
            <= after.seats[i].loans by {
            assert(0 <= m.seats[i].debt);
            assert(m.hand.players[i].chips >= 0);
        }
        lemma_still_seated(m.seats, m.hand.players, after.seats, after.hand.players);
        assert forall|i: int| 0 <= i < after.hand.players.len() implies modest_hole(
            (#[trigger] after.hand.players[i]).hole,
        ) && 0 <= after.hand.players[i].committed <= after.hand.current_bet && 0
            <= after.hand.players[i].chips by {
            assert(modest_hole(m.hand.players[i].hole));
            assert(m.hand.players[i].chips >= 0);
        }
        assert(accounts_in_order(after.seats));
        assert(steady(after.hand));
    }
}

/// A loan that fits keeps the match in session.
pub proof fn loans_keep_the_session(m: MatchModel, seat: int)
    requires
        in_session(m),
        loan_fits(m, seat),
    ensures
        in_session(m.after_borrowing(seat)),
{
    let after = m.after_borrowing(seat);
    if m.hand.phase != Phase::Done && 0 <= seat < m.hand.players.len() {
        lemma_total_of_update(m.hand.players, seat, after.hand.players[seat]);
    }
    assert forall|i: int| 0 <= i < m.seats.len() implies 0 <= (#[trigger] after.seats[i]).chips && 0
        <= after.seats[i].debt && 0 <= after.seats[i].loans by {
        assert(0 <= m.seats[i].debt);
    }
    lemma_still_seated(m.seats, m.hand.players, after.seats, after.hand.players);
    assert forall|i: int| 0 <= i < after.hand.players.len() implies modest_hole(
        (#[trigger] after.hand.players[i]).hole,
    ) && 0 <= after.hand.players[i].committed <= after.hand.current_bet && 0
        <= after.hand.players[i].chips by {
        assert(modest_hole(m.hand.players[i].hole));
        assert(m.hand.players[i].chips >= 0);
    }
    assert(accounts_in_order(after.seats));
    assert(steady(after.hand));
    if !m.settled {
        assert forall|i: int| 0 <= i < after.hand.players.len() implies (
        #[trigger] after.hand.players[i]).committed <= after.hand.pot by {
            assert(m.hand.players[i].committed <= m.hand.pot);
        }
    }
}

/// A next hand that fits can be dealt, and keeps the match in session.
pub proof fn next_hands_keep_the_session(m: MatchModel)
    requires
        in_session(m),
        next_hand_fits(m),
    ensures
        m.moved_on().deal_fits(),
        in_session(m.moved_on().dealt()),
{
    let next = m.moved_on();
    vstd::arithmetic::div_mod::lemma_mod_bound(m.button + 1, m.seats.len() as int);
    lemma_dealt_in_session(next);
}

// ---- Checking the limits ----

/// The debts of all seats can bear interest.
pub fn debts_can_grow(m: &Match) -> (r: bool)
    ensures
        r == debts_fit(m@),
{
    let mut i: usize = 0;
    while i < m.seats.len()
        invariant
            i <= m.seats@.len(),
            forall|j: int| 0 <= j < i ==> (#[trigger] m@.seats[j]).debt * INTEREST_PCT <= u32::MAX,
        decreases m.seats@.len() - i,
    {
        assert(m@.seats[i as int] == m.seats@[i as int]@);
        if m.seats[i].debt as u64 * INTEREST_PCT as u64 > u32::MAX as u64 {
            return false;
        }
        i = i + 1;
    }
    true
}

/// All chips of the players in the hand.
fn chips_in_hand(m: &Match) -> (r: u64)
    requires
        BASE_ANTE * m.hand.players@.len() <= u32::MAX,
    ensures
        r == total_chips(m@.hand.players),
        r <= m.hand.players@.len() * u32::MAX,
{
    let mut sum: u64 = 0;
    let mut i: usize = 0;
    while i < m.hand.players.len()
        invariant
            i <= m.hand.players@.len(),
            BASE_ANTE * m.hand.players@.len() <= u32::MAX,
            sum == total_chips(m@.hand.players.take(i as int)),
            sum <= i * u32::MAX,
        decreases m.hand.players@.len() - i,
    {
        assert(m@.hand.players.take(i + 1).drop_last() =~= m@.hand.players.take(i as int));
        assert(m@.hand.players[i as int] == m.hand.players@[i as int]@);
        assert((i + 1) * u32::MAX == i * u32::MAX + u32::MAX);
        sum = sum + m.hand.players[i].chips as u64;
        i = i + 1;
    }
    assert(m@.hand.players.take(i as int) =~= m@.hand.players);
    sum
}

fn seat_can_borrow(s: &crate::table::Seat) -> (r: bool)
    ensures
        r == s@.borrowing_fits(),
{
    s.chips <= u32::MAX - BUY_IN && s.debt <= u32::MAX - BUY_IN && s.loans < u32::MAX
}

/// The seat can take a further loan.
pub fn can_borrow(m: &Match, seat: usize) -> (r: bool)
    requires
        in_session(m@),
    ensures
        r == loan_fits(m@, seat as int),
{
    if seat < m.seats.len() {
        assert(m@.seats[seat as int] == m.seats@[seat as int]@);
        if !seat_can_borrow(&m.seats[seat]) {
            return false;
        }
    }
    if m.hand.phase != Phase::Done && seat < m.hand.players.len() {
        assert(m@.hand.players[seat as int] == m.hand.players@[seat as int]@);
        if m.hand.players[seat].chips > u32::MAX - BUY_IN {
            return false;
        }
    }
    if m.settled {
        return true;
    }
    let all: u64 = chips_in_hand(m) + m.hand.pot as u64;
    all + BUY_IN as u64 + RAISE_STEP as u64 <= u32::MAX as u64
}

/// Another hand can be dealt.
pub fn can_go_on(m: &Match) -> (r: bool)
    requires
        in_session(m@),
    ensures
        r == next_hand_fits(m@),
{
    if m.hand_no == u32::MAX {
        return false;
    }
    let ante: u64 = BASE_ANTE as u64 * (1 + (m.hand_no + 1) as u64 / 5);
    if ante + RAISE_STEP as u64 > u32::MAX as u64 {
        return false;
    }
    let ghost next = m@.moved_on();
    let ghost staked = next.seats_staked();
    let mut sum: u64 = 0;
    let mut i: usize = 0;
    while i < m.seats.len()
        invariant
            i <= m.seats@.len(),
            in_session(m@),
            next == m@.moved_on(),
            staked == next.seats_staked(),
            ante == ante_of(next.hand_no),
            ante + RAISE_STEP <= u32::MAX,
            next.hand_no <= u32::MAX,
            sum == seat_chips(staked.take(i as int)),
            sum <= i * u32::MAX,
            forall|j: int|
                0 <= j < i && (#[trigger] m@.seats[j]).is_broke(ante as int)
                    ==> m@.seats[j].borrowing_fits(),
        decreases m.seats@.len() - i,
    {
        assert(staked.take(i + 1).drop_last() =~= staked.take(i as int));
        assert(m@.seats[i as int] == m.seats@[i as int]@);
        assert((i + 1) * u32::MAX == i * u32::MAX + u32::MAX);
        let s = &m.seats[i];
        let mut chips: u64 = s.chips as u64;
        if s.is_ai && (s.chips as u64) < ante {
            if !seat_can_borrow(s) {
                assert(m@.seats[i as int].is_broke(ante as int));
                return false;
            }
            chips = chips + BUY_IN as u64;
        }
        sum = sum + chips;
        i = i + 1;
    }
    assert(staked.take(i as int) =~= staked);
    sum + m.carry as u64 + RAISE_STEP as u64 <= u32::MAX as u64
}

} // verus!
