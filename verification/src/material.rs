use vstd::prelude::*;

use crate::ray::Ray;

verus! {

/// What a material hands back when it scatters a ray: the color by which the
/// scattered light is attenuated, and the scattered ray.
#[derive(Debug, Clone)]
pub struct ScatterRecord<V> {
    pub attenuation: V,
    pub scattered: Ray<V>,
}

} // verus!
