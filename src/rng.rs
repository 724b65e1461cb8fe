use vstd::prelude::*;

verus! {

/// A small seeded xorshift generator: the same seed gives the same sequence.
#[derive(Debug)]
pub struct Rng {
    state: u64,
}

/// The state that a seed starts from; zero, a fixed point of the step, is replaced.
pub closed spec fn seed_state(seed: usize) -> u64 {
    if seed as u64 == 0 {
        0x9E37_79B9_7F4A_7C15
    } else {
        seed as u64
    }
}

/// One xorshift step.
pub closed spec fn next_state(s: u64) -> u64 {
    let a = s ^ (s << 13u64);
    let b = a ^ (a >> 7u64);
    b ^ (b << 17u64)
}

/// `s` after `k` steps.
pub open spec fn advance(s: u64, k: nat) -> u64
    decreases k,
{
    if k == 0 {
        s
    } else {
        next_state(advance(s, (k - 1) as nat))
    }
}

/// The number in `[low, high]` drawn from state `s`: the next state, reduced onto the range.
pub closed spec fn draw(s: u64, low: usize, high: usize) -> usize {
    let v = next_state(s) as usize;
    if high - low == usize::MAX {
        v
    } else {
        (low + v % ((high - low) as usize + 1) as usize) as usize
    }
}

impl Rng {
    /// The current state.
    pub closed spec fn state(&self) -> u64 {
        self.state
    }

    /// Creates a generator from a seed.
    pub fn new(seed: usize) -> (r: Rng)
        ensures
            r.state() == seed_state(seed),
    {
        let s = seed as u64;
        if s == 0 {
            Rng { state: 0x9E37_79B9_7F4A_7C15 }
        } else {
            Rng { state: s }
        }
    }

    /// Advances the generator and returns its next 64 bits.
    pub fn next_u64(&mut self) -> (r: u64)
        ensures
            r == next_state(old(self).state()),
            final(self).state() == r,
    {
        let mut x = self.state;
        x = x ^ (x << 13u64);
        x = x ^ (x >> 7u64);
        x = x ^ (x << 17u64);
        self.state = x;
        x
    }

    /// Returns a number in `[low, high]`, both ends included, and advances the generator by
    /// one step.
    pub fn range(&mut self, low: usize, high: usize) -> (r: usize)
        requires
            low <= high,
        ensures
            low <= r <= high,
            r == draw(old(self).state(), low, high),
            final(self).state() == next_state(old(self).state()),
    {
        let v = self.next_u64() as usize;
        let span = high - low;
        if span == usize::MAX {
            v
        } else {
            low + v % (span + 1)
        }
    }
}

} // verus!
