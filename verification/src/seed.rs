//! The pseudo-random generator that a plane is seeded from.

use vstd::prelude::*;
use rand::rngs::SmallRng;
use rand::{Rng, SeedableRng};
use crate::plane::Plane;

verus! {

/// `rand::rngs::SmallRng`, a small pseudo-random generator. Nothing of its
/// inside is known here.
#[verifier::external_type_specification]
#[verifier::external_body]
pub struct ExSmallRng(rand::rngs::SmallRng);

/// The `k`-th boolean, counted from zero, that a `SmallRng` made by
/// `SeedableRng::seed_from_u64(seed)` hands out through `Rng::gen::<bool>()`.
/// The generator is deterministic; which algorithm it runs is fixed by the
/// version of `rand` and the pointer width that the crate is built for.
pub uninterp spec fn seeded_bool(seed: u64, k: nat) -> bool;

/// The `k`-th boolean, counted from zero, that the generator will hand out
/// next through `Rng::gen::<bool>()`, if nothing else is drawn from it.
pub uninterp spec fn coming_bool(rng: SmallRng, k: nat) -> bool;

/// Calls `SmallRng::seed_from_u64`. The contract says that the booleans to
/// come from the new generator are those that belong to the seed: that the
/// generator's state is a function of the seed alone.
#[verifier::external_body]
pub(crate) fn seeded_rng(seed: u64) -> (rng: SmallRng)
    ensures
        forall|k: nat| #[trigger] coming_bool(rng, k) == seeded_bool(seed, k),
{
    SmallRng::seed_from_u64(seed)
}

/// Calls `Rng::gen::<bool>()`. The contract says that the generator hands out
/// the first of the booleans to come and that the others come after it:
/// that the result and the next state are functions of the state alone.
#[verifier::external_body]
pub(crate) fn draw_bool(rng: &mut SmallRng) -> (drawn: bool)
    ensures
        drawn == coming_bool(*old(rng), 0),
        forall|k: nat| #[trigger] coming_bool(*final(rng), k) == coming_bool(*old(rng), k + 1),
{
    rng.gen::<bool>()
}

impl<const N: usize> Plane<N> {
    /// Fills the grid with the pseudo-random booleans that belong to `seed`,
    /// row by row and each row from left to right. The same seed gives the
    /// same cells.
    pub fn randomize(&mut self, seed: u64)
        requires
            old(self).wf(),
            old(self).padded(),
        ensures
            final(self).wf(),
            final(self)@ == old(self)@.seeded(seed),
            final(self).spare() == old(self).spare(),
    {
        let width = self.width();
        let height = self.height();
        let mut rng = seeded_rng(seed);
        let ghost want = old(self)@.seeded(seed).now;
        proof {
            assert(0 * width == 0) by (nonlinear_arith);
        }
        for y in 0..height
            invariant
                self.wf(),
                self.padded(),
                self@.width == width == old(self)@.width,
                self@.height == height == old(self)@.height,
                self@.before == old(self)@.before,
                self.spare() == old(self).spare(),
                self@.magnification == old(self)@.magnification,
                self@.color == old(self)@.color,
                want == old(self)@.seeded(seed).now,
                forall|a: int, b: int|
                    0 <= a < width && 0 <= b < y ==> self@.now[b][a] == want[b][a],
                forall|k: nat| #[trigger]
                    coming_bool(rng, k) == seeded_bool(seed, (y * width + k) as nat),
        {
            for x in 0..width
                invariant
                    y < height,
                    self.wf(),
                    self.padded(),
                    self@.width == width == old(self)@.width,
                    self@.height == height == old(self)@.height,
                    self@.before == old(self)@.before,
                    self.spare() == old(self).spare(),
                    self@.magnification == old(self)@.magnification,
                    self@.color == old(self)@.color,
                    want == old(self)@.seeded(seed).now,
                    forall|a: int, b: int|
                        0 <= a < width && 0 <= b < y ==> self@.now[b][a] == want[b][a],
                    forall|a: int| 0 <= a < x ==> self@.now[y as int][a] == want[y as int][a],
                    forall|k: nat| #[trigger]
                        coming_bool(rng, k) == seeded_bool(seed, (y * width + x + k) as nat),
            {
                let ghost earlier = rng;
                let value = draw_bool(&mut rng);
                self.set(x, y, value);
                proof {
                    assert(value == want[y as int][x as int]);
                    assert forall|k: nat| #[trigger]
                        coming_bool(rng, k) == seeded_bool(
                            seed,
                            (y * width + (x + 1) + k) as nat,
                        ) by {
                        assert(coming_bool(rng, k) == coming_bool(earlier, k + 1));
                    }
                }
            }
            proof {
                assert((y + 1) * width == y * width + width) by (nonlinear_arith);
            }
        }
        proof {
            assert forall|b: int| 0 <= b < height implies #[trigger] self@.now[b] =~= want[b] by {}
            assert(self@.now =~= want);
        }
    }
}

} // verus!
