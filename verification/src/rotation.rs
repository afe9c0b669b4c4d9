//! The four discrete rotation states of a falling piece.

use vstd::prelude::*;

verus! {

/// One of the four rotation states, cyclic under a clockwise step:
/// `R0 -> R90 -> R180 -> R270 -> R0`. There is no free-angle rotation.
#[derive(Debug, Clone, Copy, PartialEq, Eq, Structural)]
pub enum Rotation {
    R0,
    R90,
    R180,
    R270,
}

impl Rotation {
    /// The next state one clockwise step away.
    pub open spec fn spec_next_cw(self) -> Rotation {
        match self {
            Rotation::R0 => Rotation::R90,
            Rotation::R90 => Rotation::R180,
            Rotation::R180 => Rotation::R270,
            Rotation::R270 => Rotation::R0,
        }
    }

    pub fn next_cw(self) -> (r: Rotation)
        ensures
            r == self.spec_next_cw(),
    {
        match self {
            Rotation::R0 => Rotation::R90,
            Rotation::R90 => Rotation::R180,
            Rotation::R180 => Rotation::R270,
            Rotation::R270 => Rotation::R0,
        }
    }

    /// Rotates an origin-relative offset by this state, one quarter turn
    /// per step: `R0: (x,y)`, `R90: (-y,x)`, `R180: (-x,-y)`, `R270: (y,-x)`.
    pub open spec fn spec_rotate(self, o: (int, int)) -> (int, int) {
        match self {
            Rotation::R0 => (o.0, o.1),
            Rotation::R90 => (-o.1, o.0),
            Rotation::R180 => (-o.0, -o.1),
            Rotation::R270 => (o.1, -o.0),
        }
    }

    /// A quarter-turn rotation maps distinct offsets to distinct offsets.
    pub proof fn lemma_rotate_injective(self, a: (int, int), b: (int, int))
        ensures
            self.spec_rotate(a) == self.spec_rotate(b) ==> a == b,
    {
    }
}

impl Default for Rotation {
    /// A freshly spawned piece starts unrotated.
    fn default() -> (r: Self)
        ensures
            r == Rotation::R0,
    {
        Rotation::R0
    }
}

} // verus!
