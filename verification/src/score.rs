//! Score, level and the speed curve. The score counts cleared rows, one
//! point per row. The level is the score divided by five, and each level
//! multiplies the gravity interval by 3/4: the interval in seconds is
//! `0.75 ^ level`. The interval is kept here as the exact fraction
//! `(3 ^ level, 4 ^ level)`; the presentation layer divides.

use vstd::arithmetic::power::{lemma_pow_increases, lemma_pow_multiplies, lemma_pow_positive, pow};
use vstd::arithmetic::power2::{lemma2_to64_rest, pow2};
use vstd::prelude::*;

verus! {

/// The largest level whose speed fraction fits in 64-bit integers:
/// `4 ^ 32` is already `2 ^ 64`.
pub const MAX_FRACTION_LEVEL: u32 = 31;

/// The running score: a monotonically increasing count of cleared rows.
#[derive(Debug, Clone, Copy, PartialEq, Eq, Structural)]
pub struct Score {
    pub score: u32,
}

impl Score {
    /// The level a score stands for: one level for every five cleared rows.
    pub open spec fn spec_level(self) -> int {
        self.score as int / 5
    }

    pub fn new() -> (s: Score)
        ensures
            s.score == 0,
    {
        Score { score: 0 }
    }

    pub fn level(&self) -> (l: u32)
        ensures
            l == self.spec_level(),
    {
        self.score / 5
    }

    /// The gravity interval `0.75 ^ level`, as the exact fraction
    /// `(3 ^ level, 4 ^ level)`. Levels past `MAX_FRACTION_LEVEL` no longer
    /// fit in 64 bits and yield an empty result.
    pub fn speed_fraction(&self) -> (f: Option<(u64, u64)>)
        ensures
            self.spec_level() <= MAX_FRACTION_LEVEL ==> (f matches Some(p)
                && p.0 == pow(3, self.spec_level() as nat) && p.1 == pow(
                4,
                self.spec_level() as nat,
            )),
            self.spec_level() > MAX_FRACTION_LEVEL ==> f is None,
    {
        let level = self.score / 5;
        if level > MAX_FRACTION_LEVEL {
            return None;
        }
        proof {
            lemma_pow4_max_fits();
        }
        let mut num: u64 = 1;
        let mut den: u64 = 1;
        let mut k: u32 = 0;
        proof {
            reveal(pow);
        }
        while k < level
            invariant
                k <= level <= MAX_FRACTION_LEVEL,
                num == pow(3, k as nat),
                den == pow(4, k as nat),
                num <= den,
                pow(4, MAX_FRACTION_LEVEL as nat) == 0x4000_0000_0000_0000,
            decreases level - k,
        {
            proof {
                reveal(pow);
                assert(pow(3, (k + 1) as nat) == 3 * pow(3, k as nat));
                assert(pow(4, (k + 1) as nat) == 4 * pow(4, k as nat));
                lemma_pow_increases(4, (k + 1) as nat, MAX_FRACTION_LEVEL as nat);
            }
            num = num * 3;
            den = den * 4;
            k = k + 1;
        }
        Some((num, den))
    }
}

/// `4 ^ 31` is `2 ^ 62`, which fits in 64 bits.
proof fn lemma_pow4_max_fits()
    ensures
        pow(4, MAX_FRACTION_LEVEL as nat) == 0x4000_0000_0000_0000,
{
    assert(pow(2, 2) == 4) by {
        reveal_with_fuel(pow, 3);
    }
    lemma_pow_multiplies(2, 2, 31);
    lemma_pow_positive(2, 62);
    assert(pow(4, 31) == pow(2, 62));
    assert(pow2(62) == 0x4000_0000_0000_0000) by {
        lemma2_to64_rest();
    }
}

} // verus!
