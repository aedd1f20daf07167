use vstd::prelude::*;

verus! {

/// One of the three coordinate axes.
#[derive(Debug, PartialEq, Eq, Structural)]
pub enum Axis {
    X,
    Y,
    Z,
}

impl Clone for Axis {
    fn clone(&self) -> (r: Axis)
        ensures
            r == *self,
    {
        *self
    }
}

impl Copy for Axis {}

} // verus!
