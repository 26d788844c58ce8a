//! Numbers drawn from the load tester's random generator.

use rand::rngs::SmallRng;
use vstd::prelude::*;

verus! {

/// A number drawn below a bound from a random generator, with the bound it
/// was drawn below.  Only [`draw_below`] makes one.
pub struct Drawn {
    value: usize,
    bound: Ghost<usize>,
}

impl Drawn {
    /// The number drawn.
    pub closed spec fn value(self) -> usize {
        self.value
    }

    /// The bound it was drawn below.
    pub closed spec fn bound(self) -> usize {
        self.bound@
    }

    /// The number drawn.
    pub fn get(&self) -> (v: usize)
        ensures
            v == self.value(),
    {
        self.value
    }
}

/// `Rng::gen_range(0..high)`: a number drawn below `high` (rand documents the
/// half-open range; it panics on an empty one, which `requires` rules out),
/// recorded with the bound it was drawn below.
#[verifier::external_body]
pub(crate) fn draw_below(rng: &mut SmallRng, high: usize) -> (d: Drawn)
    requires
        high > 0,
    ensures
        d.value() < high,
        d.bound() == high,
{
    let bound = Ghost(high);
    Drawn { value: rand::Rng::gen_range(rng, 0..high), bound }
}

} // verus!
