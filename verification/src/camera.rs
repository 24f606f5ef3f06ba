use vstd::prelude::*;

use crate::color::{color_line, decimal, write_color, write_decimal};

verus! {

/// The header of a plain (ASCII) PPM image: the magic `P3`, the width and the
/// height, and the largest component value 255, each on its own line.
pub open spec fn ppm_header(image_width: int, image_height: int) -> Seq<u8> {
    seq![80u8, 51u8, 10u8] + decimal(image_width) + seq![32u8] + decimal(image_height) + seq![
        10u8,
        50u8,
        53u8,
        53u8,
        10u8,
    ]
}

/// Appends the header that starts a rendered image: `P3`, then
/// `image_width image_height`, then `255`, one per line.
pub fn write_ppm_header(out: &mut Vec<u8>, image_width: i32, image_height: i32)
    ensures
        final(out)@ == old(out)@ + ppm_header(image_width as int, image_height as int),
{
    out.push(80u8);
    out.push(51u8);
    out.push(10u8);
    write_decimal(out, image_width);
    out.push(32u8);
    write_decimal(out, image_height);
    out.push(10u8);
    out.push(50u8);
    out.push(53u8);
    out.push(53u8);
    out.push(10u8);
    assert(out@ =~= old(out)@ + ppm_header(image_width as int, image_height as int));
}

/// The pixel in column `i` of row `j` of an image `width` pixels wide whose
/// pixels are listed row after row, top row first.
pub open spec fn pixel_at(pixels: Seq<(i32, i32, i32)>, width: int, i: int, j: int) -> (i32, i32, i32) {
    pixels[j * width + i]
}

/// The PPM lines of `pixels`, one per pixel, in order.
pub open spec fn pixel_lines(pixels: Seq<(i32, i32, i32)>) -> Seq<u8>
    decreases pixels.len(),
{
    if pixels.len() == 0 {
        Seq::empty()
    } else {
        let p = pixels.last();
        pixel_lines(pixels.drop_last()) + color_line(p.0 as int, p.1 as int, p.2 as int)
    }
}

/// The number of pixels of an image; none when a side is not positive.
pub open spec fn pixel_count(image_width: int, image_height: int) -> int {
    if image_width > 0 && image_height > 0 {
        image_height * image_width
    } else {
        0
    }
}

proof fn lemma_earlier_row(width: int, ii: int, jj: int, j: int)
    requires
        0 <= ii < width,
        0 <= jj < j,
    ensures
        jj * width + ii < j * width,
        0 <= jj * width + ii,
{
    assert(jj * width + ii < j * width) by (nonlinear_arith)
        requires
            0 <= ii < width,
            0 <= jj < j,
    {
        assert(jj * width + width <= j * width);
    }
    assert(0 <= jj * width) by (nonlinear_arith)
        requires
            0 <= jj,
            0 <= width,
    ;
}

/// Renders an image as plain PPM text appended to `out`: the header, then one
/// line per pixel, the rows from the top down and each row from left to right.
/// `shade(i, j)` gives the byte values of the pixel in column `i` of row `j`
/// and is called once for each pixel, in that order.
pub fn render<F: Fn(i32, i32) -> (i32, i32, i32)>(
    out: &mut Vec<u8>,
    image_width: i32,
    image_height: i32,
    shade: F,
)
    requires
        forall|i: i32, j: i32|
            0 <= i < image_width && 0 <= j < image_height ==> call_requires(shade, (i, j)),
    ensures
        exists|pixels: Seq<(i32, i32, i32)>|
            {
                &&& pixels.len() == pixel_count(image_width as int, image_height as int)
                &&& forall|i: i32, j: i32|
                    0 <= i < image_width && 0 <= j < image_height ==> call_ensures(
                        shade,
                        (i, j),
                        #[trigger] pixel_at(pixels, image_width as int, i as int, j as int),
                    )
                &&& final(out)@ == old(out)@ + ppm_header(image_width as int, image_height as int)
                    + pixel_lines(pixels)
            },
{
    write_ppm_header(out, image_width, image_height);
    let ghost base: Seq<u8> = out@;
    let ghost mut pixels: Seq<(i32, i32, i32)> = Seq::empty();
    if image_width > 0 && image_height > 0 {
        let w: i32 = image_width;
        let h: i32 = image_height;
        let mut j: i32 = 0;
        while j < h
            invariant
                w == image_width,
                h == image_height,
                0 < w,
                0 <= j <= h,
                base == old(out)@ + ppm_header(w as int, h as int),
                out@ == base + pixel_lines(pixels),
                pixels.len() == j * w,
                forall|i: i32, j: i32| 0 <= i < w && 0 <= j < h ==> call_requires(shade, (i, j)),
                forall|ii: i32, jj: i32|
                    0 <= ii < w && 0 <= jj < j ==> call_ensures(
                        shade,
                        (ii, jj),
                        #[trigger] pixel_at(pixels, w as int, ii as int, jj as int),
                    ),
            decreases h - j,
        {
            let mut i: i32 = 0;
            while i < w
                invariant
                    w == image_width,
                    h == image_height,
                    0 < w,
                    0 <= j < h,
                    0 <= i <= w,
                    base == old(out)@ + ppm_header(w as int, h as int),
                    out@ == base + pixel_lines(pixels),
                    pixels.len() == j * w + i,
                    forall|i: i32, j: i32| 0 <= i < w && 0 <= j < h ==> call_requires(shade, (i, j)),
                    forall|ii: i32, jj: i32|
                        (0 <= ii < w && 0 <= jj < j) || (0 <= ii < i && jj == j) ==> call_ensures(
                            shade,
                            (ii, jj),
                            #[trigger] pixel_at(pixels, w as int, ii as int, jj as int),
                        ),
                decreases w - i,
            {
                let (r, g, b) = shade(i, j);
                let ghost prev: Seq<(i32, i32, i32)> = pixels;
                proof {
                    pixels = pixels.push((r, g, b));
                    assert(pixels.drop_last() =~= prev);
                    assert forall|ii: i32, jj: i32|
                        (0 <= ii < w && 0 <= jj < j) || (0 <= ii <= i && jj == j) implies call_ensures(
                            shade,
                            (ii, jj),
                            #[trigger] pixel_at(pixels, w as int, ii as int, jj as int),
                        ) by {
                        if jj < j {
                            lemma_earlier_row(w as int, ii as int, jj as int, j as int);
                            assert(pixel_at(pixels, w as int, ii as int, jj as int) == pixel_at(
                                prev,
                                w as int,
                                ii as int,
                                jj as int,
                            ));
                        } else if ii < i {
                            assert(pixel_at(pixels, w as int, ii as int, jj as int) == pixel_at(
                                prev,
                                w as int,
                                ii as int,
                                jj as int,
                            ));
                        }
                    }
                }
                write_color(out, r, g, b);
                assert(out@ =~= base + pixel_lines(pixels));
                i = i + 1;
            }
            assert((j + 1) * w == j * w + w) by (nonlinear_arith);
            j = j + 1;
        }
        assert(pixels.len() == pixel_count(image_width as int, image_height as int));
    }
    assert(out@ == old(out)@ + ppm_header(image_width as int, image_height as int) + pixel_lines(
        pixels,
    ));
}

} // verus!
