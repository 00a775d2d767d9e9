//! A small seedable random stream.
//!
//! Every probabilistic decision of the generator draws from this stream, so a
//! run is a pure function of the seed and the configuration: the contracts
//! below pin each draw and the successor state exactly.

use vstd::prelude::*;

verus! {

/// The state transition of the stream: one xorshift round.
pub open spec fn next_state(s: u64) -> u64 {
    let a = s ^ (s << 13);
    let b = a ^ (a >> 7);
    b ^ (b << 17)
}

/// The value drawn from `[lo, hi)` at state `s`; `lo` itself when the range
/// is empty or a single point.
pub open spec fn range_val(s: u64, lo: i32, hi: i32) -> i32 {
    if lo >= hi {
        lo
    } else {
        (lo as int + next_state(s) as int % (hi as int - lo as int)) as i32
    }
}

/// The stream state after a draw from `[lo, hi)`: unchanged when the range is
/// empty or a single point, advanced one round otherwise.
pub open spec fn range_state(s: u64, lo: i32, hi: i32) -> u64 {
    if lo >= hi {
        s
    } else {
        next_state(s)
    }
}

/// The fair coin drawn at state `s`.
pub open spec fn coin_val(s: u64) -> bool {
    next_state(s) % 2 == 0
}

/// A deterministic, seedable xorshift random stream.
#[derive(Clone, Copy, PartialEq, Eq, Structural, Debug)]
pub struct RandomStream {
    pub state: u64,
}

impl RandomStream {
    pub fn new(seed: u64) -> (r: RandomStream)
        ensures
            r.state == seed,
    {
        RandomStream { state: seed }
    }

    /// Advance one round and return the new state as the raw draw.
    pub fn next(&mut self) -> (r: u64)
        ensures
            final(self).state == next_state(old(self).state),
            r == next_state(old(self).state),
    {
        let s = self.state;
        let a = s ^ (s << 13u64);
        let b = a ^ (a >> 7u64);
        let n = b ^ (b << 17u64);
        self.state = n;
        n
    }

    /// Draw an integer from `[lo, hi)`; `lo` when the range is a single point.
    pub fn gen_range(&mut self, lo: i32, hi: i32) -> (r: i32)
        requires
            lo <= hi,
        ensures
            r == range_val(old(self).state, lo, hi),
            final(self).state == range_state(old(self).state, lo, hi),
            lo <= r,
            lo < hi ==> r < hi,
            lo == hi ==> r == lo && final(self).state == old(self).state,
    {
        if lo == hi {
            return lo;
        }
        let x = self.next();
        let span = (hi as i64 - lo as i64) as u64;
        let off = x % span;
        let r = (lo as i64 + off as i64) as i32;
        r
    }

    /// Flip a fair coin.
    pub fn gen_bool(&mut self) -> (r: bool)
        ensures
            r == coin_val(old(self).state),
            final(self).state == next_state(old(self).state),
    {
        let x = self.next();
        x % 2 == 0
    }
}

} // verus!
