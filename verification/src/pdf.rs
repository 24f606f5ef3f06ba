use vstd::prelude::*;

verus! {

/// The uniform density over all directions of the unit sphere.
#[derive(Debug, Clone, Copy)]
pub struct SpherePDF;

} // verus!
