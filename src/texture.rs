use vstd::prelude::*;

verus! {

/// The texture that shows its own coordinates: red follows `u`, green
/// follows `v`, blue what is left of one. Its colours are computed by the
/// renderer.
pub struct Test;

} // verus!
