//! The source of randomness: the thread-local generator of `rand`.

use crate::lattice::CERTAIN;
use crate::types_def::Index;
use rand::rngs::ThreadRng;
use rand::Rng;
use vstd::prelude::*;

verus! {

/// `rand::rngs::ThreadRng`, carried through as an opaque value.
#[verifier::external_type_specification]
#[verifier::external_body]
pub struct ExThreadRng(ThreadRng);

/// The numerator over 2^53 of the uniform draw that a 64-bit word stands
/// for: its top 53 bits.
pub fn numerator(word: u64) -> (draw: u64)
    ensures
        draw == word / 2048,
        draw < CERTAIN,
{
    assert(word >> 11 == word / 2048 && word >> 11 < 0x20_0000_0000_0000u64) by (bit_vector);
    word >> 11
}

/// A handle to the random number generator of the current thread.
pub struct RandomGenerator {
    rng: ThreadRng,
}

impl RandomGenerator {
    /// `rand::thread_rng`: a handle to the thread-local generator, which the
    /// system seeds on first use. Nothing is claimed of its state. The call
    /// panics if the operating system cannot provide the seed.
    #[verifier::external_body]
    pub fn new() -> (r: RandomGenerator) {
        RandomGenerator { rng: rand::thread_rng() }
    }

    /// `Rng::gen::<u64>`: the next 64 uniform bits. Any value may come.
    #[verifier::external_body]
    fn word(&mut self) -> (w: u64) {
        self.rng.gen::<u64>()
    }

    /// `Rng::gen_range` on `0..n`, which panics on an empty range. The value
    /// lies in the range.
    #[verifier::external_body]
    fn below(&mut self, n: usize) -> (k: usize)
        requires
            0 < n,
        ensures
            k < n,
    {
        self.rng.gen_range(0..n)
    }

    /// `Rng::gen::<bool>`: a fair coin. Either value may come.
    #[verifier::external_body]
    pub fn bran(&mut self) -> (b: bool) {
        self.rng.gen::<bool>()
    }

    /// A uniform draw from `[0, 1)` with 53 bits of precision, returned as
    /// its integer numerator over 2^53: the numerator of one uniform 64-bit
    /// word. Every numerator below `CERTAIN` may come.
    pub fn fran(&mut self) -> (draw: u64)
        ensures
            draw < CERTAIN,
    {
        let w: u64 = self.word();
        numerator(w)
    }

    /// A uniformly random cell of a lattice of the given side: the row is
    /// drawn first, then the column.
    pub fn index(&mut self, side: usize) -> (idx: Index)
        requires
            0 < side,
        ensures
            idx.0 < side,
            idx.1 < side,
    {
        let row: usize = self.below(side);
        let col: usize = self.below(side);
        (row, col)
    }
}

} // verus!
