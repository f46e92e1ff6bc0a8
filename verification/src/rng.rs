//! The pseudo-random generator whose stream drives value generation.
//!
//! The generator is `rand`'s `XorShiftRng`. But for the test of a seed,
//! nothing in this module is proved: each function below wraps one call into
//! `rand`, and its contract says what the source of `rand` shows of that
//! call.

use vstd::prelude::*;
use rand::{Rand, Rng, SeedableRng, XorShiftRng};

verus! {

/// A seed: four 32-bit words, which fix the stream of one generated case.
pub type Seed = [u32; 4];

/// `rand::XorShiftRng`, whose fields are private: a value of it is carried
/// through, and spoken of by `rng_words` only.
#[verifier::external_type_specification]
#[verifier::external_body]
pub struct ExXorShiftRng(XorShiftRng);

/// The four words of state that an `XorShiftRng` holds, in the order of its
/// fields `x`, `y`, `z`, `w`.
pub uninterp spec fn rng_words(rng: XorShiftRng) -> Seq<u32>;

/// The four words that `<[u32; 4] as rand::Rand>::rand` draws from a
/// generator in the state `words`: the results of four calls of `next_u32`.
pub uninterp spec fn drawn_seed(words: Seq<u32>) -> Seq<u32>;

/// What `Rng::gen_range(low, high)` gives on a generator in the state
/// `words`: the number drawn, and the state in which the generator is left.
pub uninterp spec fn drawn_in_range(words: Seq<u32>, low: u32, high: u32) -> (u32, Seq<u32>);

/// Whether a seed can start a generator: `XorShiftRng` refuses the seed whose
/// words are all zero.
pub open spec fn usable_seed(seed: Seq<u32>) -> bool {
    &&& seed.len() == 4
    &&& !(seed[0] == 0 && seed[1] == 0 && seed[2] == 0 && seed[3] == 0)
}

/// Whether `seed` can start a generator.
pub fn is_usable_seed(seed: &Seed) -> (usable: bool)
    ensures
        usable == usable_seed(seed@),
{
    !(seed[0] == 0 && seed[1] == 0 && seed[2] == 0 && seed[3] == 0)
}

/// `rand::weak_rng`: a generator seeded from the thread's source of
/// randomness, which panics where the operating system offers none. The
/// contract claims nothing of the state of the generator.
#[verifier::external_body]
pub(crate) fn fresh_rng() -> (rng: XorShiftRng) {
    rand::weak_rng()
}

/// `<XorShiftRng as SeedableRng<[u32; 4]>>::from_seed`, which panics on the
/// all-zero seed and otherwise stores the four words of the seed as the
/// state of the new generator.
#[verifier::external_body]
pub(crate) fn seeded_rng(seed: Seed) -> (rng: XorShiftRng)
    requires
        usable_seed(seed@),
    ensures
        rng_words(rng) == seed@,
{
    XorShiftRng::from_seed(seed)
}

/// `<XorShiftRng as Clone>::clone`, which `rand` derives: the copy holds the
/// same four words.
pub assume_specification[ <XorShiftRng as Clone>::clone ](rng: &XorShiftRng) -> (copy: XorShiftRng)
    ensures
        rng_words(copy) == rng_words(*rng),
;

/// `<[u32; 4] as rand::Rand>::rand`, which calls `next_u32` four times, in
/// the order of the array. Each call of `next_u32` shifts the state by one
/// word and appends the word that it returns, so after four calls the state
/// consists of the four words drawn.
#[verifier::external_body]
pub(crate) fn draw_seed(rng: &mut XorShiftRng) -> (seed: Seed)
    ensures
        seed@ == drawn_seed(rng_words(*old(rng))),
        rng_words(*final(rng)) == seed@,
{
    <[u32; 4] as Rand>::rand(rng)
}

/// `Rng::gen_range`, which panics unless `low < high` and returns a number
/// from `low` up to, but not including, `high`. The number, and the state in
/// which the generator is left, are fixed by the state of the generator
/// before and by the bounds.
#[verifier::external_body]
pub(crate) fn draw_in_range(rng: &mut XorShiftRng, low: u32, high: u32) -> (n: u32)
    requires
        low < high,
    ensures
        low <= n < high,
        (n, rng_words(*final(rng))) == drawn_in_range(rng_words(*old(rng)), low, high),
{
    rng.gen_range(low, high)
}

} // verus!
