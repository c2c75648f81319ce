//! The betting controls of a player: what can be pressed, and which action comes of it.
use crate::game::Action;
use crate::game_model::{least, shortfall, GameModel};
use crate::net::{GameView, GameViewModel};
use crate::table::Match;
use crate::text::{dec, decimal};
use vstd::prelude::*;

verus! {

/// How far one notch of the wheel, and the smallest raise, move the line.
pub const RAISE_NOTCH: u32 = 20;

/// The four buttons.
#[derive(Debug, Clone, Copy, PartialEq, Eq, Structural)]
pub enum BetButton {
    Check,
    Call,
    Fold,
    Raise,
}

/// What the controls know of the hand, and where the raise slider stands.
#[derive(Debug, Clone, Copy, PartialEq, Eq, Structural)]
pub struct Bet {
    /// It is the player's turn.
    pub active: bool,
    pub current_bet: u32,
    pub committed: u32,
    pub chips: u32,
    pub can_check: bool,
    /// The line that the slider stands at.
    pub raise_to: u32,
    pub min_raise: u32,
    /// Everything the player has: a slider at its end goes all in.
    pub max_raise: u32,
}

impl Bet {
    /// What the player has to pay to stay in.
    pub open spec fn spec_need(self) -> int {
        shortfall(self.current_bet as int, self.committed as int)
    }

    /// The player can move the line.
    pub open spec fn spec_can_raise(self) -> bool {
        self.max_raise > self.current_bet && self.chips > self.spec_need()
    }

    /// The sums of the controls fit their registers.
    pub open spec fn sums_fit(self) -> bool {
        self.committed + self.chips <= u32::MAX && self.current_bet + RAISE_NOTCH <= u32::MAX
    }

    /// With the ends of the slider worked out anew. The slider goes back to its start at the
    /// beginning of a turn, or where it stands outside its ends.
    pub open spec fn recomputed(self, turn_start: bool) -> Bet {
        let max = self.committed + self.chips;
        let min = least(self.current_bet + RAISE_NOTCH, max);
        Bet {
            max_raise: max as u32,
            min_raise: min as u32,
            raise_to: if turn_start || self.raise_to < min || self.raise_to > max {
                min as u32
            } else {
                self.raise_to
            },
            ..self
        }
    }

    /// The controls of a player whose turn it is.
    pub open spec fn turned(self, current_bet: u32, committed: u32, chips: u32) -> Bet {
        Bet {
            active: true,
            current_bet,
            committed,
            chips,
            can_check: committed >= current_bet,
            ..self
        }.recomputed(!self.active)
    }

    /// The action of a button.
    pub open spec fn action_of(self, kind: BetButton) -> Option<Action> {
        match kind {
            BetButton::Check => if self.can_check {
                Some(Action::Check)
            } else {
                None
            },
            BetButton::Call => Some(Action::Call),
            BetButton::Fold => Some(Action::Fold),
            BetButton::Raise => if !self.spec_can_raise() {
                None
            } else if self.raise_to >= self.max_raise {
                Some(Action::AllIn)
            } else {
                Some(Action::Raise { to: self.raise_to })
            },
        }
    }

    /// The button is lit.
    pub open spec fn is_lit(self, kind: BetButton) -> bool {
        match kind {
            BetButton::Check => self.can_check,
            BetButton::Call => self.spec_need() > 0,
            BetButton::Fold => true,
            BetButton::Raise => self.spec_can_raise(),
        }
    }

    /// The text of a button, where it changes with the hand.
    pub open spec fn caption_of(self, kind: BetButton) -> Option<Seq<char>> {
        match kind {
            BetButton::Call => Some(
                if self.spec_need() > 0 {
                    "跟注 "@ + dec(self.spec_need() as nat)
                } else {
                    "跟注"@
                },
            ),
            BetButton::Raise => Some(
                if self.raise_to >= self.max_raise {
                    "全下 "@ + dec(self.max_raise as nat)
                } else {
                    "加注到 "@ + dec(self.raise_to as nat)
                },
            ),
            _ => None,
        }
    }

    /// With the slider moved by notches, as far as its ends.
    pub open spec fn scrolled(self, notches: int) -> Bet {
        let at = self.raise_to + notches * RAISE_NOTCH;
        Bet {
            raise_to: if at < self.min_raise {
                self.min_raise
            } else if at > self.max_raise {
                self.max_raise
            } else {
                at as u32
            },
            ..self
        }
    }

    /// The controls of nobody.
    pub fn new() -> (r: Self)
        ensures
            !r.active,
            !r.can_check,
            r.current_bet == 0,
            r.committed == 0,
            r.chips == 0,
            r.raise_to == 0,
            r.min_raise == 0,
            r.max_raise == 0,
    {
        Bet {
            active: false,
            current_bet: 0,
            committed: 0,
            chips: 0,
            can_check: false,
            raise_to: 0,
            min_raise: 0,
            max_raise: 0,
        }
    }

    pub fn need(&self) -> (r: u32)
        ensures
            r == self.spec_need(),
    {
        self.current_bet.saturating_sub(self.committed)
    }

    pub fn can_raise(&self) -> (r: bool)
        ensures
            r == self.spec_can_raise(),
    {
        self.max_raise > self.current_bet && self.chips > self.need()
    }

    /// Works the ends of the slider out anew.
    pub fn recompute(&mut self, turn_start: bool)
        requires
            old(self).sums_fit(),
        ensures
            *final(self) == old(self).recomputed(turn_start),
    {
        self.max_raise = self.committed + self.chips;
        let step: u32 = self.current_bet + RAISE_NOTCH;
        self.min_raise = if step < self.max_raise {
            step
        } else {
            self.max_raise
        };
        if turn_start || self.raise_to < self.min_raise || self.raise_to > self.max_raise {
            self.raise_to = self.min_raise;
        }
    }

    fn take_turn(&mut self, current_bet: u32, committed: u32, chips: u32)
        requires
            committed + chips <= u32::MAX,
            current_bet + RAISE_NOTCH <= u32::MAX,
        ensures
            *final(self) == old(self).turned(current_bet, committed, chips),
    {
        let was = self.active;
        self.active = true;
        self.current_bet = current_bet;
        self.committed = committed;
        self.chips = chips;
        self.can_check = committed >= current_bet;
        self.recompute(!was);
    }

    /// The button is lit.
    pub fn enabled(&self, kind: BetButton) -> (r: bool)
        ensures
            r == self.is_lit(kind),
    {
        match kind {
            BetButton::Check => self.can_check,
            BetButton::Call => self.need() > 0,
            BetButton::Fold => true,
            BetButton::Raise => self.can_raise(),
        }
    }

    /// The text of a button, where it changes with the hand.
    pub fn label(&self, kind: BetButton) -> (r: Option<String>)
        ensures
            match r {
                Some(text) => self.caption_of(kind) == Some(text@),
                None => self.caption_of(kind) is None,
            },
    {
        match kind {
            BetButton::Call => {
                let need: u32 = self.need();
                if need > 0 {
                    let mut text = "跟注 ".to_owned();
                    text.append(decimal(need as u64).as_str());
                    Some(text)
                } else {
                    Some("跟注".to_owned())
                }
            },
            BetButton::Raise => {
                if self.raise_to >= self.max_raise {
                    let mut text = "全下 ".to_owned();
                    text.append(decimal(self.max_raise as u64).as_str());
                    Some(text)
                } else {
                    let mut text = "加注到 ".to_owned();
                    text.append(decimal(self.raise_to as u64).as_str());
                    Some(text)
                }
            },
            _ => None,
        }
    }

    /// The slider can be moved: it is the player's turn, and its ends are apart.
    pub fn can_slide(&self) -> (r: bool)
        ensures
            r == (self.active && self.max_raise > self.min_raise),
    {
        self.active && self.max_raise > self.min_raise
    }

    /// Moves the slider by notches of the wheel.
    pub fn scroll(&mut self, notches: i32)
        requires
            old(self).min_raise <= old(self).max_raise,
        ensures
            *final(self) == (if notches == 0 {
                *old(self)
            } else {
                old(self).scrolled(notches as int)
            }),
    {
        if notches != 0 {
            let at: i64 = self.raise_to as i64 + notches as i64 * RAISE_NOTCH as i64;
            self.raise_to = if at < self.min_raise as i64 {
                self.min_raise
            } else if at > self.max_raise as i64 {
                self.max_raise
            } else {
                at as u32
            };
        }
    }

    /// Moves the slider to a place above its start.
    pub fn slide_to(&mut self, above: u32)
        requires
            old(self).min_raise <= old(self).max_raise,
        ensures
            *final(self) == (Bet {
                raise_to: least(
                    old(self).min_raise + above,
                    old(self).max_raise as int,
                ) as u32,
                ..*old(self)
            }),
    {
        let span: u32 = self.max_raise - self.min_raise;
        self.raise_to = if above < span {
            self.min_raise + above
        } else {
            self.max_raise
        };
    }

    /// The turn of a local match is a human player's.
    pub open spec fn is_human_turn(g: GameModel) -> bool {
        !g.over() && g.to_act < g.players.len() && !g.actor().is_ai
    }

    /// Follows a local match.
    pub fn follow_match(&mut self, m: &Match)
        requires
            Self::is_human_turn(m@.hand) ==> m@.hand.actor().committed + m@.hand.actor().chips
                <= u32::MAX && m@.hand.current_bet + RAISE_NOTCH <= u32::MAX,
        ensures
            *final(self) == (if Self::is_human_turn(m@.hand) {
                old(self).turned(
                    m@.hand.current_bet as u32,
                    m@.hand.actor().committed as u32,
                    m@.hand.actor().chips as u32,
                )
            } else {
                Bet { active: false, ..*old(self) }
            }),
    {
        let g = &m.hand;
        let to_act: usize = g.to_act;
        if !m.hand_over() && to_act < g.players.len() && !g.players[to_act].is_ai {
            let p = &g.players[to_act];
            assert(m@.hand.players[to_act as int] == p@);
            self.take_turn(g.current_bet, p.committed, p.chips);
        } else {
            assert(to_act < g.players@.len() ==> m@.hand.players[to_act as int]
                == g.players@[to_act as int]@);
            self.active = false;
        }
    }

    /// The turn of a table on a server is the viewer's.
    pub open spec fn is_viewers_turn(v: GameViewModel) -> bool {
        match (v.to_act_seat, v.you_seat) {
            (Some(a), Some(b)) => a == b && b < v.seats.len(),
            _ => false,
        }
    }

    /// The sums of the controls fit for a table on a server.
    pub open spec fn view_fits(v: GameViewModel) -> bool {
        Self::is_viewers_turn(v) ==> v.seats[v.you_seat->0].committed + v.seats[v.you_seat->0].chips
            <= u32::MAX && v.current_bet + RAISE_NOTCH <= u32::MAX
    }

    fn viewers_seat(view: &GameView) -> (r: Option<usize>)
        ensures
            match r {
                Some(i) => Self::is_viewers_turn(view@) && view@.you_seat == Some(i as int) && i
                    < view.seats@.len(),
                None => !Self::is_viewers_turn(view@),
            },
    {
        match (view.to_act_seat, view.you_seat) {
            (Some(a), Some(b)) => if a == b && b < view.seats.len() {
                Some(b)
            } else {
                None
            },
            _ => None,
        }
    }

    /// The controls can follow the table.
    pub fn can_follow(view: &GameView) -> (r: bool)
        ensures
            r == Self::view_fits(view@),
    {
        match Self::viewers_seat(view) {
            Some(i) => {
                let s = &view.seats[i];
                assert(view@.seats[i as int] == s@);
                s.committed as u64 + s.chips as u64 <= u32::MAX as u64 && view.current_bet
                    <= u32::MAX - RAISE_NOTCH
            },
            None => true,
        }
    }

    /// Follows a table on a server.
    pub fn follow_view(&mut self, view: &GameView)
        requires
            Self::view_fits(view@),
        ensures
            *final(self) == (if Self::is_viewers_turn(view@) {
                old(self).turned(
                    view@.current_bet as u32,
                    view@.seats[view@.you_seat->0].committed as u32,
                    view@.seats[view@.you_seat->0].chips as u32,
                )
            } else {
                Bet { active: false, ..*old(self) }
            }),
    {
        match Self::viewers_seat(view) {
            Some(i) => {
                let s = &view.seats[i];
                assert(view@.seats[i as int] == s@);
                self.take_turn(view.current_bet, s.committed, s.chips);
            },
            None => {
                self.active = false;
            },
        }
    }
}

/// The action that a button stands for, if it can be pressed.
pub fn intent_for(kind: BetButton, bet: &Bet) -> (r: Option<Action>)
    ensures
        r == bet.action_of(kind),
{
    match kind {
        BetButton::Check => if bet.can_check {
            Some(Action::Check)
        } else {
            None
        },
        BetButton::Call => Some(Action::Call),
        BetButton::Fold => Some(Action::Fold),
        BetButton::Raise => {
            if !bet.can_raise() {
                None
            } else if bet.raise_to >= bet.max_raise {
                Some(Action::AllIn)
            } else {
                Some(Action::Raise { to: bet.raise_to })
            }
        },
    }
}

/// The keys that bet.
#[derive(Debug, Clone, Copy, PartialEq, Eq, Structural)]
pub struct BetKeys {
    pub check: bool,
    pub call: bool,
    pub raise: bool,
    pub fold: bool,
    pub all_in: bool,
}

/// An action together with the button that stands for it.
pub open spec fn with_button(action: Option<Action>, kind: BetButton) -> Option<
    (Action, BetButton),
> {
    match action {
        Some(a) => Some((a, kind)),
        None => None,
    }
}

/// The action of the first key that has been pressed, in the order of their places.
pub open spec fn keyed(keys: BetKeys, bet: Bet) -> Option<(Action, BetButton)> {
    if !bet.active {
        None
    } else if keys.check {
        with_button(bet.action_of(BetButton::Check), BetButton::Check)
    } else if keys.call {
        Some((Action::Call, BetButton::Call))
    } else if keys.raise {
        with_button(bet.action_of(BetButton::Raise), BetButton::Raise)
    } else if keys.fold {
        Some((Action::Fold, BetButton::Fold))
    } else if keys.all_in && bet.spec_can_raise() {
        Some((Action::AllIn, BetButton::Raise))
    } else {
        None
    }
}

/// The action that the pressed keys stand for.
pub fn key_intent(keys: &BetKeys, bet: &Bet) -> (r: Option<(Action, BetButton)>)
    ensures
        r == keyed(*keys, *bet),
{
    if !bet.active {
        return None;
    }
    let kind = if keys.check {
        BetButton::Check
    } else if keys.call {
        BetButton::Call
    } else if keys.raise {
        BetButton::Raise
    } else if keys.fold {
        BetButton::Fold
    } else {
        return if keys.all_in && bet.can_raise() {
            Some((Action::AllIn, BetButton::Raise))
        } else {
            None
        };
    };
    match intent_for(kind, bet) {
        Some(action) => Some((action, kind)),
        None => None,
    }
}

/// The word that rises from the table when an action is sent.
pub open spec fn effect_word(kind: BetButton, action: Action) -> Seq<char> {
    match kind {
        BetButton::Check => "过牌"@,
        BetButton::Call => "跟注!"@,
        BetButton::Fold => "弃牌"@,
        BetButton::Raise => if action == Action::AllIn {
            "全下!!"@
        } else {
            "加注!"@
        },
    }
}

pub fn effect_text(kind: BetButton, action: Action) -> (r: &'static str)
    ensures
        r@ == effect_word(kind, action),
{
    match kind {
        BetButton::Check => "过牌",
        BetButton::Call => "跟注!",
        BetButton::Fold => "弃牌",
        BetButton::Raise => if action == Action::AllIn {
            "全下!!"
        } else {
            "加注!"
        },
    }
}

/// Whatever a player presses when it is the player's turn, the rules accept.
pub proof fn offered_actions_are_accepted(g: GameModel, before: Bet, kind: BetButton)
    requires
        g.wf(),
        !g.over(),
        g.to_act < g.players.len(),
        g.actor().can_act(),
        g.current_bet + RAISE_NOTCH <= u32::MAX,
        g.actor().committed + g.actor().chips <= u32::MAX,
    ensures
        ({
            let bet = before.turned(
                g.current_bet as u32,
                g.actor().committed as u32,
                g.actor().chips as u32,
            );
            match bet.action_of(kind) {
                Some(action) => g.rejection(action) is None,
                None => true,
            }
        }),
{
}

/// The slider always stands between its ends.
pub proof fn the_slider_stays_between_its_ends(bet: Bet, turn_start: bool, notches: int)
    requires
        bet.sums_fit(),
    ensures
        ({
            let b = bet.recomputed(turn_start);
            &&& b.min_raise <= b.raise_to <= b.max_raise
            &&& b.min_raise <= b.scrolled(notches).raise_to <= b.max_raise
        }),
{
}

} // verus!
