//! A match on one machine: the machine's turns, the player's actions and picks, the showdown.
use crate::ai::decision;
use crate::game::Action;
use crate::game_model::shortfall;
use crate::playable::playable_hands_can_be_acted_on;
use crate::player::{PlayerId, PlayerModel};
use crate::room::{act_for_seat, later, tried, LOW_CHIPS};
use crate::session::{
    actions_keep_the_session, debts_fit, in_session, loan_fits, loans_keep_the_session,
    settling_keeps_the_session,
};
use crate::table::{Match, MatchModel, SeatModel};
use crate::text::{count_text, dec};
use vstd::prelude::*;

verus! {

/// How long the machine waits before it acts, in nanoseconds.
pub const LOCAL_AI_DELAY: u64 = 700_000_000;

/// How many community cards a player picks.
pub const PICKS: usize = 3;

// ---- Turns ----

/// The match and the clock of the machine after `dt` has passed: the machine acts after a while
/// where it is its turn, and the clock stands still at zero where it is the player's.
pub open spec fn auto_played(m: MatchModel, delay: u64, dt: u64) -> (MatchModel, u64) {
    let g = m.hand;
    if g.over() {
        (m, delay)
    } else if !g.actor().is_ai {
        (m, 0)
    } else if later(delay, dt) < LOCAL_AI_DELAY {
        (m, later(delay, dt))
    } else {
        (MatchModel { hand: tried(g, decision(g, g.to_act)), ..m }, 0)
    }
}

/// Lets `dt` nanoseconds pass for the machine's players.
pub fn ai_auto_play(m: &mut Match, delay: &mut u64, dt: u64)
    requires
        old(m).wf(),
        in_session(old(m)@),
    ensures
        (final(m)@, *final(delay)) == auto_played(old(m)@, *old(delay), dt),
        final(m).wf(),
        in_session(final(m)@),
{
    if m.hand_over() {
        return;
    }
    let idx: usize = m.hand.to_act;
    assert(m@.hand.players[idx as int] == m.hand.players@[idx as int]@);
    if !m.hand.players[idx].is_ai {
        *delay = 0;
        return;
    }
    let waited: u64 = delay.saturating_add(dt);
    if waited < LOCAL_AI_DELAY {
        *delay = waited;
        return;
    }
    *delay = 0;
    act_for_seat(m);
}

/// The match after the player has sent an action: it counts only where it is the player's turn
/// and the rules accept it.
pub open spec fn player_acted(m: MatchModel, action: Action) -> MatchModel {
    if m.hand.over() || m.hand.actor().is_ai {
        m
    } else {
        MatchModel { hand: tried(m.hand, action), ..m }
    }
}

/// Carries out an action of the player.
pub fn apply_bet(m: &mut Match, action: Action)
    requires
        old(m).wf(),
        in_session(old(m)@),
    ensures
        final(m)@ == player_acted(old(m)@, action),
        final(m).wf(),
        in_session(final(m)@),
{
    if m.hand_over() {
        return;
    }
    let idx: usize = m.hand.to_act;
    assert(m@.hand.players[idx as int] == m.hand.players@[idx as int]@);
    if m.hand.players[idx].is_ai {
        return;
    }
    let ghost hand = m.hand@;
    proof {
        playable_hands_can_be_acted_on(hand, action);
        if hand.rejection(action) is None {
            actions_keep_the_session(m@, action);
        }
    }
    let _done = m.hand.apply(action);
    assert(m.hand@ == tried(hand, action));
}

// ---- Picks ----

/// The community cards that the player has picked so far.
pub struct Selection {
    pub picks: Vec<usize>,
}

/// The first place from `i` on of a pick.
pub open spec fn pick_place(picks: Seq<usize>, card: usize, i: int) -> Option<int>
    decreases picks.len() - i,
{
    if i >= picks.len() {
        None
    } else if picks[i] == card {
        Some(i)
    } else {
        pick_place(picks, card, i + 1)
    }
}

/// The picks after a click on a card: a picked card is put back, another is taken as long as
/// there is room.
pub open spec fn toggled(picks: Seq<usize>, card: usize) -> Seq<usize> {
    match pick_place(picks, card, 0) {
        Some(i) => picks.remove(i),
        None => if picks.len() < PICKS {
            picks.push(card)
        } else {
            picks
        },
    }
}

impl Selection {
    pub fn new() -> (r: Self)
        ensures
            r.picks@ == Seq::<usize>::empty(),
    {
        Selection { picks: Vec::new() }
    }

    fn place(&self, card: usize) -> (r: Option<usize>)
        ensures
            match r {
                Some(i) => pick_place(self.picks@, card, 0) == Some(i as int) && i
                    < self.picks@.len(),
                None => pick_place(self.picks@, card, 0) is None,
            },
    {
        let mut i: usize = 0;
        while i < self.picks.len()
            invariant
                i <= self.picks@.len(),
                pick_place(self.picks@, card, 0) == pick_place(self.picks@, card, i as int),
            decreases self.picks@.len() - i,
        {
            if self.picks[i] == card {
                return Some(i);
            }
            i = i + 1;
        }
        None
    }

    /// A click on a card.
    pub fn toggle(&mut self, card: usize)
        ensures
            final(self).picks@ == toggled(old(self).picks@, card),
    {
        match self.place(card) {
            Some(i) => {
                self.picks.remove(i);
            },
            None => {
                if self.picks.len() < PICKS {
                    self.picks.push(card);
                }
            },
        }
    }

    /// The card is picked.
    pub fn contains(&self, card: usize) -> (r: bool)
        ensures
            r == (pick_place(self.picks@, card, 0) is Some),
    {
        self.place(card).is_some()
    }

    /// The picks, once there are enough.
    pub fn complete(&self) -> (r: Option<[usize; 3]>)
        ensures
            match r {
                Some(p) => self.picks@.len() == PICKS && p@ == self.picks@,
                None => self.picks@.len() != PICKS,
            },
    {
        if self.picks.len() == PICKS {
            let p = [self.picks[0], self.picks[1], self.picks[2]];
            assert(p@ =~= self.picks@);
            Some(p)
        } else {
            None
        }
    }

    /// How many cards are picked, as the player reads it.
    pub fn caption(&self) -> (r: String)
        ensures
            r@ == "点选 3 张公共牌组队  (已选 "@ + dec(self.picks@.len()) + "/3)"@,
    {
        let mut r = "点选 3 张公共牌组队  (已选 ".to_owned();
        r.append(count_text(self.picks.len()).as_str());
        r.append("/3)");
        r
    }
}

proof fn lemma_pick_place(picks: Seq<usize>, card: usize, from: int)
    requires
        0 <= from,
    ensures
        match pick_place(picks, card, from) {
            Some(i) => from <= i < picks.len() && picks[i] == card,
            None => forall|i: int| from <= i < picks.len() ==> picks[i] != card,
        },
    decreases picks.len() - from,
{
    if from < picks.len() {
        lemma_pick_place(picks, card, from + 1);
    }
}

/// No card is ever picked twice, and never more than three are.
pub proof fn picks_stay_apart(picks: Seq<usize>, card: usize)
    requires
        picks.no_duplicates(),
        picks.len() <= PICKS,
    ensures
        toggled(picks, card).no_duplicates(),
        toggled(picks, card).len() <= PICKS,
{
    lemma_pick_place(picks, card, 0);
}

/// A second click on a card undoes the first, if there was room for it.
pub proof fn a_second_click_undoes_the_first(picks: Seq<usize>, card: usize)
    requires
        !picks.contains(card),
        picks.len() < PICKS,
    ensures
        toggled(toggled(picks, card), card) == picks,
{
    lemma_pick_place(picks, card, 0);
    let more = picks.push(card);
    lemma_pick_place(more, card, 0);
    assert(more[picks.len() as int] == card);
    assert(more.remove(picks.len() as int) =~= picks);
}

// ---- The showdown ----

/// What the showdown needs next.
#[derive(Debug, Clone, Copy, PartialEq, Eq, Structural)]
pub enum ShowdownStep {
    /// Nothing: the hand goes on, or its result is already shown.
    Nothing,
    /// The player has to pick community cards.
    Pick,
    /// The result can be shown.
    Show,
}

/// The first player from `i` on who is no machine has not folded.
pub open spec fn human_stays(players: Seq<PlayerModel>, i: int) -> bool
    decreases players.len() - i,
{
    if i >= players.len() {
        false
    } else if !players[i].is_ai {
        players[i].in_hand()
    } else {
        human_stays(players, i + 1)
    }
}

/// What the showdown of a local match needs next. A player who stayed in picks before the hand
/// is booked.
pub open spec fn showdown_step(m: MatchModel, shown: bool) -> ShowdownStep {
    if !m.over() || shown {
        ShowdownStep::Nothing
    } else if human_stays(m.hand.players, 0) && m.hand.community.len() >= 3 && !m.settled {
        ShowdownStep::Pick
    } else {
        ShowdownStep::Show
    }
}

fn human_is_in(m: &Match) -> (r: bool)
    ensures
        r == human_stays(m@.hand.players, 0),
{
    let mut i: usize = 0;
    while i < m.hand.players.len()
        invariant
            i <= m.hand.players@.len(),
            human_stays(m@.hand.players, 0) == human_stays(m@.hand.players, i as int),
        decreases m.hand.players@.len() - i,
    {
        assert(m@.hand.players[i as int] == m.hand.players@[i as int]@);
        if !m.hand.players[i].is_ai {
            return m.hand.players[i].is_in_hand();
        }
        i = i + 1;
    }
    false
}

/// Drives the showdown of a local match on: a hand that nobody has to pick for is booked.
pub fn direct_showdown(m: &mut Match, shown: bool) -> (r: ShowdownStep)
    requires
        old(m).wf(),
        in_session(old(m)@),
        showdown_step(old(m)@, shown) == ShowdownStep::Show && !old(m).settled ==> debts_fit(
            old(m)@,
        ),
    ensures
        r == showdown_step(old(m)@, shown),
        final(m)@ == (if r == ShowdownStep::Show {
            old(m)@.after_settling(Seq::empty())
        } else {
            old(m)@
        }),
        final(m).wf(),
        in_session(final(m)@),
{
    if !m.hand_over() || shown {
        return ShowdownStep::Nothing;
    }
    if human_is_in(m) && m.hand.community.len() >= 3 && !m.settled {
        return ShowdownStep::Pick;
    }
    if !m.settled {
        let none: [(PlayerId, [usize; 3]); 0] = [];
        assert(none@ =~= Seq::empty());
        proof {
            settling_keeps_the_session(m@, none@);
        }
        let _outcome = m.settle_hand(&none);
    }
    ShowdownStep::Show
}

/// The first seat from `i` on that is no machine's.
pub open spec fn human_seat(seats: Seq<SeatModel>, i: int) -> Option<PlayerId>
    decreases seats.len() - i,
{
    if i >= seats.len() {
        None
    } else if !seats[i].is_ai {
        Some(seats[i].id)
    } else {
        human_seat(seats, i + 1)
    }
}

/// The picks of the player, under the player's name.
pub open spec fn players_picks(seats: Seq<SeatModel>, picks: [usize; 3]) -> Seq<
    (PlayerId, [usize; 3]),
> {
    match human_seat(seats, 0) {
        Some(id) => seq![(id, picks)],
        None => Seq::empty(),
    }
}

fn find_human(m: &Match) -> (r: Option<PlayerId>)
    ensures
        r == human_seat(m@.seats, 0),
{
    let mut i: usize = 0;
    while i < m.seats.len()
        invariant
            i <= m.seats@.len(),
            human_seat(m@.seats, 0) == human_seat(m@.seats, i as int),
        decreases m.seats@.len() - i,
    {
        assert(m@.seats[i as int] == m.seats@[i as int]@);
        if !m.seats[i].is_ai {
            return Some(m.seats[i].id);
        }
        i = i + 1;
    }
    None
}

/// Settles the hand with the cards that the player has picked.
pub fn confirm_selection(m: &mut Match, picks: [usize; 3])
    requires
        old(m).wf(),
        in_session(old(m)@),
        debts_fit(old(m)@),
    ensures
        final(m)@ == old(m)@.after_settling(players_picks(old(m)@.seats, picks)),
        final(m).wf(),
        in_session(final(m)@),
{
    let mut all: Vec<(PlayerId, [usize; 3])> = Vec::new();
    if let Some(id) = find_human(m) {
        all.push((id, picks));
    }
    assert(all@ =~= players_picks(m@.seats, picks));
    proof {
        settling_keeps_the_session(m@, all@);
    }
    let _outcome = m.settle_hand(all.as_slice());
}

// ---- Loans ----

/// The player, in the first seat, is short of chips.
pub open spec fn player_is_short(m: MatchModel) -> bool {
    let chips = if m.seats.len() > 0 {
        m.seats[0].chips
    } else {
        0
    };
    let committed = if m.hand.players.len() > 0 {
        m.hand.players[0].committed
    } else {
        0
    };
    let need = shortfall(m.hand.current_bet, committed);
    chips < (if need > LOW_CHIPS {
        need
    } else {
        LOW_CHIPS as int
    })
}

/// The player can borrow.
pub fn low_chips(m: &Match) -> (r: bool)
    ensures
        r == player_is_short(m@),
{
    let chips: u32 = if m.seats.len() > 0 {
        assert(m@.seats[0] == m.seats@[0]@);
        m.seats[0].chips
    } else {
        0
    };
    let committed: u32 = if m.hand.players.len() > 0 {
        assert(m@.hand.players[0] == m.hand.players@[0]@);
        m.hand.players[0].committed
    } else {
        0
    };
    let need: u32 = m.hand.current_bet.saturating_sub(committed);
    chips < (if need > LOW_CHIPS {
        need
    } else {
        LOW_CHIPS
    })
}

/// The button for a loan is pressed, or held. A press lends once, and only to a player who is
/// short.
pub fn press_borrow(m: &mut Match, pressed: bool, was_pressed: bool)
    requires
        old(m).wf(),
        in_session(old(m)@),
        pressed && !was_pressed && player_is_short(old(m)@) ==> loan_fits(old(m)@, 0),
    ensures
        final(m)@ == (if pressed && !was_pressed && player_is_short(old(m)@) {
            old(m)@.after_borrowing(0)
        } else {
            old(m)@
        }),
        final(m).wf(),
        in_session(final(m)@),
{
    if pressed && !was_pressed && low_chips(m) {
        proof {
            loans_keep_the_session(m@, 0);
        }
        m.borrow(0);
    }
}

} // verus!
