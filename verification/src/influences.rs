//! Markers for the influences that act on every cell each tick. The forces
//! themselves are continuous arithmetic and live with the front end; these
//! types name the influences so a world can register them in order.

use vstd::prelude::*;

verus! {

/// Elastic forces along every bond, from strain to equal-and-opposite pulls.
#[derive(Clone, Copy, Debug, PartialEq)]
pub struct BondForces {}

impl BondForces {
    pub fn new() -> (r: Self)
        ensures
            r == (BondForces {}),
    {
        BondForces {}
    }
}

/// Torques that push each gusseted bond pair toward its desired angle.
#[derive(Clone, Copy, Debug, PartialEq)]
pub struct BondAngleForces {}

impl BondAngleForces {
    pub fn new() -> (r: Self)
        ensures
            r == (BondAngleForces {}),
    {
        BondAngleForces {}
    }
}

} // verus!
