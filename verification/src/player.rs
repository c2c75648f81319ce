//! The state of one player within a hand.
use crate::cards::Adventurer;
use vstd::prelude::*;

verus! {

#[derive(Debug, Clone, Copy, PartialEq, Eq, Structural, Hash)]
pub struct PlayerId(pub u32);

#[derive(Debug, Clone, Copy, PartialEq, Eq, Structural)]
pub enum PlayerStatus {
    /// Still in the hand, may act.
    Active,
    /// Has left the hand.
    Folded,
    /// Has put in every chip and acts no more.
    AllIn,
}

#[derive(Debug, Clone)]
pub struct Player {
    pub id: PlayerId,
    pub name: String,
    pub is_ai: bool,
    /// Chips left.
    pub chips: u32,
    /// The two hidden hole cards.
    pub hole: [Adventurer; 2],
    pub status: PlayerStatus,
    /// Chips put in during the current betting round.
    pub committed: u32,
}

/// What a `Player` is, as a mathematical value.
pub struct PlayerModel {
    pub id: PlayerId,
    pub name: Seq<char>,
    pub is_ai: bool,
    pub chips: int,
    pub hole: Seq<Adventurer>,
    pub status: PlayerStatus,
    pub committed: int,
}

impl PlayerModel {
    /// Has not folded.
    pub open spec fn in_hand(self) -> bool {
        self.status != PlayerStatus::Folded
    }

    /// Has neither folded nor gone all in, and has chips left.
    pub open spec fn can_act(self) -> bool {
        self.status == PlayerStatus::Active && self.chips > 0
    }

    /// After putting in up to `amount` chips.
    pub open spec fn paying(self, amount: int) -> PlayerModel {
        let paid = if amount < self.chips {
            amount
        } else {
            self.chips
        };
        PlayerModel { chips: self.chips - paid, committed: self.committed + paid, ..self }
    }

    pub open spec fn with_status(self, status: PlayerStatus) -> PlayerModel {
        PlayerModel { status, ..self }
    }
}

impl View for Player {
    type V = PlayerModel;

    open spec fn view(&self) -> PlayerModel {
        PlayerModel {
            id: self.id,
            name: self.name@,
            is_ai: self.is_ai,
            chips: self.chips as int,
            hole: self.hole@,
            status: self.status,
            committed: self.committed as int,
        }
    }
}

impl Player {
    pub fn new(id: u32, name: String, is_ai: bool, chips: u32, hole: [Adventurer; 2]) -> (r: Self)
        ensures
            r@ == (PlayerModel {
                id: PlayerId(id),
                name: name@,
                is_ai,
                chips: chips as int,
                hole: hole@,
                status: PlayerStatus::Active,
                committed: 0,
            }),
    {
        Self {
            id: PlayerId(id),
            name,
            is_ai,
            chips,
            hole,
            status: PlayerStatus::Active,
            committed: 0,
        }
    }

    pub fn is_in_hand(&self) -> (r: bool)
        ensures
            r == self@.in_hand(),
    {
        self.status != PlayerStatus::Folded
    }

    /// Can still act of their own will.
    pub fn can_act(&self) -> (r: bool)
        ensures
            r == self@.can_act(),
    {
        self.status == PlayerStatus::Active && self.chips > 0
    }
}

} // verus!
