use vstd::prelude::*;

use crate::image::RTWImage;

verus! {

/// A texture of one color everywhere. The color type `C` is the caller's.
#[derive(Debug, Clone)]
pub struct SolidColor<C> {
    albedo: C,
}

impl<C> SolidColor<C> {
    /// The color the texture gives at every point.
    pub closed spec fn albedo_spec(&self) -> C {
        self.albedo
    }

    pub fn new(albedo: &C) -> (r: Self) where C: Copy
        ensures
            r.albedo_spec() == *albedo,
    {
        SolidColor { albedo: *albedo }
    }

    /// The texture's value, the same at every point.
    pub fn albedo(&self) -> (c: C) where C: Copy
        ensures
            c == self.albedo_spec(),
    {
        self.albedo
    }
}

/// A texture looked up in an image.
#[derive(Debug, Clone)]
pub struct ImageTexture<P> {
    image: RTWImage<P>,
}

impl<P> ImageTexture<P> {
    pub closed spec fn image_spec(&self) -> RTWImage<P> {
        self.image
    }

    pub fn new(image: RTWImage<P>) -> (r: Self)
        ensures
            r.image_spec() == image,
    {
        ImageTexture { image }
    }

    pub fn image(&self) -> (i: &RTWImage<P>)
        ensures
            *i == self.image_spec(),
    {
        &self.image
    }
}

/// Whether the checker cell with integer coordinates `(x, y, z)` shows the
/// even texture: the sum of its coordinates is even.
pub fn checker_is_even(x: i32, y: i32, z: i32) -> (even: bool)
    requires
        i32::MIN <= x + y <= i32::MAX,
        i32::MIN <= x + y + z <= i32::MAX,
    ensures
        even == ((x + y + z) % 2 == 0),
{
    (x + y + z) % 2 == 0
}

} // verus!
