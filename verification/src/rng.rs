//! A small deterministic generator (SplitMix64) and the shuffle built on it.
use vstd::prelude::*;

verus! {

/// What each draw adds to the state.
pub const STEP: u64 = 0x9E37_79B9_7F4A_7C15;

/// The state after one draw.
pub open spec fn next_state(state: u64) -> u64 {
    state.wrapping_add(STEP)
}

/// The state after `n` draws.
pub open spec fn state_after(state: u64, n: nat) -> u64
    decreases n,
{
    if n == 0 {
        state
    } else {
        next_state(state_after(state, (n - 1) as nat))
    }
}

/// The number that a draw gives out, from the state that the draw leaves behind.
pub open spec fn mixed(state: u64) -> u64 {
    let a = (state ^ (state >> 30)).wrapping_mul(0xBF58_476D_1CE4_E5B9);
    let b = (a ^ (a >> 27)).wrapping_mul(0x94D0_49BB_1331_11EB);
    b ^ (b >> 31)
}

/// The first number that a generator in the given state gives out.
pub open spec fn first_draw(state: u64) -> u64 {
    mixed(next_state(state))
}

/// `s` with the elements at `i` and `j` exchanged.
pub open spec fn exchanged<T>(s: Seq<T>, i: int, j: int) -> Seq<T> {
    s.update(i, s[j]).update(j, s[i])
}

/// `s` after a shuffle that has already placed the elements from `n` on: each element below,
/// from the last one down, changes places with one drawn from those up to it.
pub open spec fn shuffled_below<T>(s: Seq<T>, n: int, state: u64) -> Seq<T>
    decreases n,
{
    if n <= 1 {
        s
    } else {
        shuffled_below(
            exchanged(s, n - 1, first_draw(state) as int % n),
            n - 1,
            next_state(state),
        )
    }
}

/// `s` shuffled by a generator in the given state.
pub open spec fn shuffled<T>(s: Seq<T>, state: u64) -> Seq<T> {
    shuffled_below(s, s.len() as int, state)
}

/// The state after a shuffle of `n` elements.
pub open spec fn state_after_shuffle(state: u64, n: nat) -> u64 {
    if n == 0 {
        state
    } else {
        state_after(state, (n - 1) as nat)
    }
}

/// A deterministic source of numbers: equal seeds give equal sequences.
#[derive(Debug, Clone, Copy, PartialEq, Eq)]
pub struct Rng {
    state: u64,
}

impl View for Rng {
    type V = u64;

    closed spec fn view(&self) -> u64 {
        self.state
    }
}

impl Rng {
    pub fn new(seed: u64) -> (r: Self)
        ensures
            r@ == seed,
    {
        Self { state: seed }
    }

    /// Draws the next number.
    pub fn next_u64(&mut self) -> (r: u64)
        ensures
            final(self)@ == next_state(old(self)@),
            r == first_draw(old(self)@),
    {
        self.state = self.state.wrapping_add(STEP);
        let mut z: u64 = self.state;
        z = (z ^ (z >> 30)).wrapping_mul(0xBF58_476D_1CE4_E5B9);
        z = (z ^ (z >> 27)).wrapping_mul(0x94D0_49BB_1331_11EB);
        z ^ (z >> 31)
    }

    /// Shuffles `items` in place (Fisher-Yates).
    pub fn shuffle<T: Copy>(&mut self, items: &mut Vec<T>)
        ensures
            final(items)@ == shuffled(old(items)@, old(self)@),
            final(self)@ == state_after_shuffle(old(self)@, old(items)@.len()),
    {
        let mut n: usize = items.len();
        let ghost start = self@;
        let ghost whole = items@;
        while n > 1
            invariant
                n <= items@.len(),
                items@.len() == whole.len(),
                shuffled(whole, start) == shuffled_below(items@, n as int, self@),
                n >= 1 ==> self@ == state_after(start, (whole.len() - n) as nat),
                whole.len() == 0 ==> self@ == start,
                n == 0 ==> whole.len() == 0,
            decreases n,
        {
            let j: usize = (self.next_u64() % (n as u64)) as usize;
            n = n - 1;
            let a = items[n];
            let b = items[j];
            items.set(n, b);
            items.set(j, a);
        }
    }
}

proof fn lemma_exchange_keeps_multiset<T>(s: Seq<T>, i: int, j: int)
    requires
        0 <= i < s.len(),
        0 <= j < s.len(),
    ensures
        exchanged(s, i, j).to_multiset() == s.to_multiset(),
{
    broadcast use vstd::seq_lib::group_to_multiset_ensures;
    let a = s.update(i, s[j]);
    assert(a.to_multiset() =~= s.to_multiset().insert(s[j]).remove(s[i]));
    let b = a.update(j, s[i]);
    assert(b.to_multiset() =~= a.to_multiset().insert(s[i]).remove(a[j]));
    assert(a[j] == s[j]);
    assert(b.to_multiset() =~= s.to_multiset());
}

proof fn lemma_shuffled_below<T>(s: Seq<T>, n: int, state: u64)
    requires
        n <= s.len(),
    ensures
        shuffled_below(s, n, state).to_multiset() == s.to_multiset(),
        shuffled_below(s, n, state).len() == s.len(),
    decreases n,
{
    if n > 1 {
        let j = first_draw(state) as int % n;
        lemma_exchange_keeps_multiset(s, n - 1, j);
        lemma_shuffled_below(exchanged(s, n - 1, j), n - 1, next_state(state));
    }
}

/// A shuffle neither adds nor loses a card.
pub proof fn shuffle_keeps_the_cards<T>(s: Seq<T>, state: u64)
    ensures
        shuffled(s, state).to_multiset() == s.to_multiset(),
        shuffled(s, state).len() == s.len(),
{
    lemma_shuffled_below(s, s.len() as int, state);
}

} // verus!
