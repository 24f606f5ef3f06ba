use vstd::prelude::*;

verus! {

/// A ray: an origin point and a direction. The point and vector type `V` is the
/// caller's (the renderer uses three `f64` coordinates).
#[derive(Debug, Default, Clone, PartialEq)]
pub struct Ray<V> {
    orig: V,
    dir: V,
}

impl<V> Ray<V> {
    /// The point the ray starts from.
    pub closed spec fn origin_point(&self) -> V {
        self.orig
    }

    /// The direction the ray travels in.
    pub closed spec fn direction_vector(&self) -> V {
        self.dir
    }

    pub fn new(origin: V, direction: V) -> (r: Self)
        ensures
            r.origin_point() == origin,
            r.direction_vector() == direction,
    {
        Ray { orig: origin, dir: direction }
    }

    pub fn origin(&self) -> (o: &V)
        ensures
            *o == self.origin_point(),
    {
        &self.orig
    }

    /// A handle to the origin; the direction stays as it was.
    pub fn origin_mut(&mut self) -> (o: &mut V)
        ensures
            *o == old(self).origin_point(),
            final(self).origin_point() == *final(o),
            final(self).direction_vector() == old(self).direction_vector(),
    {
        &mut self.orig
    }

    pub fn direction(&self) -> (d: &V)
        ensures
            *d == self.direction_vector(),
    {
        &self.dir
    }

    /// A handle to the direction; the origin stays as it was.
    pub fn direction_mut(&mut self) -> (d: &mut V)
        ensures
            *d == old(self).direction_vector(),
            final(self).direction_vector() == *final(d),
            final(self).origin_point() == old(self).origin_point(),
    {
        &mut self.dir
    }
}

} // verus!
