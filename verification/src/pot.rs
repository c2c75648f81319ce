//! The chips that show a pot: how many, where they lie, and how new ones fall in.
use crate::rng::{first_draw, next_state, Rng};
use vstd::prelude::*;

verus! {

/// The most chips that are shown.
pub const MAX_CHIPS: usize = 18;

/// The worth of one shown chip.
pub const CHIP_WORTH: u32 = 100;

/// How many chips lie in a column.
pub const COLUMN: usize = 6;

/// How many colours there are.
pub const COLOURS: usize = 4;

/// How many chips show a pot: one, and one more for each full hundred, up to a limit; none for
/// an empty pot.
pub open spec fn chips_for(pot: int) -> int {
    if pot <= 0 {
        0
    } else if pot / 100 + 1 > MAX_CHIPS {
        MAX_CHIPS as int
    } else {
        pot / 100 + 1
    }
}

pub fn chip_count(pot: u32) -> (r: usize)
    ensures
        r == chips_for(pot as int),
{
    if pot == 0 {
        0
    } else {
        let n: u32 = pot / CHIP_WORTH;
        if n as usize >= MAX_CHIPS {
            MAX_CHIPS
        } else {
            n as usize + 1
        }
    }
}

/// Where a chip of the stack lies.
#[derive(Debug, Clone, Copy, PartialEq, Eq, Structural)]
pub struct ChipPlace {
    pub column: usize,
    /// From the bottom up.
    pub row: usize,
    pub colour: usize,
}

/// Where chip `i` of the stack lies.
pub fn chip_place(i: usize) -> (r: ChipPlace)
    ensures
        r.column == i / COLUMN,
        r.row == i % COLUMN,
        r.colour == i % COLOURS,
{
    ChipPlace { column: i / COLUMN, row: i % COLUMN, colour: i % COLOURS }
}

/// How a pot has changed.
#[derive(Debug, Clone, Copy, PartialEq, Eq, Structural)]
pub enum PotChange {
    Same,
    /// Chips fall in.
    Rise,
    /// A new hand: the number is shown at once.
    Drop,
}

pub fn pot_change(before: u32, now: u32) -> (r: PotChange)
    ensures
        r == (if now == before {
            PotChange::Same
        } else if now > before {
            PotChange::Rise
        } else {
            PotChange::Drop
        }),
{
    if now == before {
        PotChange::Same
    } else if now > before {
        PotChange::Rise
    } else {
        PotChange::Drop
    }
}

/// How a chip falls into the pot.
#[derive(Debug, Clone, Copy, PartialEq, Eq, Structural)]
pub struct ChipDrop {
    /// How far to the right of the middle it falls, in pixels.
    pub aside: i32,
    pub colour: usize,
    /// How far above its start line it starts.
    pub above: u32,
    /// How far below its end line it ends.
    pub below: u32,
}

/// The chip that a generator in the given state draws.
pub open spec fn chip_drawn(state: u64) -> ChipDrop {
    let s1 = next_state(state);
    let s2 = next_state(s1);
    let s3 = next_state(s2);
    ChipDrop {
        aside: ((first_draw(state) % 140) - 70) as i32,
        colour: (first_draw(s1) % 4) as usize,
        above: (first_draw(s2) % 50) as u32,
        below: (first_draw(s3) % 34) as u32,
    }
}

/// The state after so many chips have been drawn.
pub open spec fn state_after_chips(state: u64, n: nat) -> u64
    decreases n,
{
    if n == 0 {
        state
    } else {
        next_state(next_state(next_state(next_state(state_after_chips(state, (n - 1) as nat)))))
    }
}

/// The five chips that fall into a pot when it rises.
pub fn pot_chips(seed: u64) -> (r: Vec<ChipDrop>)
    ensures
        r@ == Seq::new(5, |i: int| chip_drawn(state_after_chips(seed, i as nat))),
{
    let mut rng = Rng::new(seed);
    let mut r: Vec<ChipDrop> = Vec::new();
    let mut i: usize = 0;
    while i < 5
        invariant
            i <= 5,
            rng@ == state_after_chips(seed, i as nat),
            r@.len() == i,
            forall|j: int|
                0 <= j < i ==> #[trigger] r@[j] == chip_drawn(state_after_chips(seed, j as nat)),
        decreases 5 - i,
    {
        let aside: i32 = (rng.next_u64() % 140) as i32 - 70;
        let colour: usize = (rng.next_u64() % 4) as usize;
        let above: u32 = (rng.next_u64() % 50) as u32;
        let below: u32 = (rng.next_u64() % 34) as u32;
        r.push(ChipDrop { aside, colour, above, below });
        i = i + 1;
    }
    assert(r@ =~= Seq::new(5, |i: int| chip_drawn(state_after_chips(seed, i as nat))));
    r
}

/// A larger pot never shows fewer chips.
pub proof fn more_pot_more_chips(less: int, more: int)
    requires
        less <= more,
    ensures
        chips_for(less) <= chips_for(more) <= MAX_CHIPS,
{
}

} // verus!
