use vstd::prelude::*;

verus! {

/// A decoded image: its size and its texels in row-major order, the texel
/// `(x, y)` at index `y * width + x`. The texel type `P` is the caller's (the
/// renderer stores three `f32` channels).
#[derive(Debug)]
pub struct RTWImage<P> {
    width: u32,
    height: u32,
    pixels: Vec<P>,
}

/// The position of texel `(x, y)` in a row-major image `width` texels wide.
pub open spec fn texel_index(width: int, x: int, y: int) -> int {
    y * width + x
}

impl<P> RTWImage<P> {
    pub closed spec fn width_spec(&self) -> u32 {
        self.width
    }

    pub closed spec fn height_spec(&self) -> u32 {
        self.height
    }

    /// The texels, row after row.
    pub closed spec fn texels(&self) -> Seq<P> {
        self.pixels@
    }

    #[verifier::type_invariant]
    closed spec fn well_formed(self) -> bool {
        self.pixels@.len() == self.width * self.height
    }

    /// Holds `pixels` as an image `width` texels wide and `height` high; `None`
    /// when the number of texels does not match.
    pub fn from_pixels(width: u32, height: u32, pixels: Vec<P>) -> (r: Option<Self>)
        ensures
            r is Some <==> pixels@.len() == width * height,
            r matches Some(img) ==> {
                &&& img.width_spec() == width
                &&& img.height_spec() == height
                &&& img.texels() == pixels@
            },
    {
        assert((width as int) * (height as int) <= 0xffff_fffe_0000_0001) by (nonlinear_arith)
            requires
                width <= 0xffff_ffff,
                height <= 0xffff_ffff,
        ;
        let area: u64 = (width as u64) * (height as u64);
        if pixels.len() as u64 == area {
            Some(RTWImage { width, height, pixels })
        } else {
            None
        }
    }

    pub fn height(&self) -> (h: u32)
        ensures
            h == self.height_spec(),
    {
        self.height
    }

    pub fn width(&self) -> (w: u32)
        ensures
            w == self.width_spec(),
    {
        self.width
    }

    /// The texel in column `x` of row `y`.
    pub fn pixel_data(&self, x: u32, y: u32) -> (c: P) where P: Copy
        requires
            x < self.width_spec(),
            y < self.height_spec(),
        ensures
            c == self.texels()[texel_index(self.width_spec() as int, x as int, y as int)],
    {
        proof {
            use_type_invariant(self);
        }
        let w: usize = self.width as usize;
        let h: usize = self.height as usize;
        let xi: usize = x as usize;
        let yi: usize = y as usize;
        assert(yi * w + xi < h * w) by (nonlinear_arith)
            requires
                xi < w,
                yi < h,
        {
            assert(yi * w + w <= h * w);
        }
        assert(h * w == self.pixels@.len()) by (nonlinear_arith)
            requires
                h == self.height,
                w == self.width,
                self.pixels@.len() == self.width * self.height,
        ;
        let n: usize = self.pixels.len();
        assert(yi * w + xi < n);
        let idx: usize = yi * w + xi;
        self.pixels[idx]
    }
}

impl<P: Clone> Clone for RTWImage<P> {
    /// The same size, and a clone of each texel.
    fn clone(&self) -> (r: Self)
        ensures
            r.width_spec() == self.width_spec(),
            r.height_spec() == self.height_spec(),
            r.texels().len() == self.texels().len(),
            forall|n: int|
                0 <= n < self.texels().len() ==> cloned::<P>(self.texels()[n], #[trigger] r.texels()[n]),
    {
        proof {
            use_type_invariant(self);
        }
        RTWImage { width: self.width, height: self.height, pixels: self.pixels.clone() }
    }
}

} // verus!
