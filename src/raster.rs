use vstd::prelude::*;

verus! {

/// A pixel of the image: column `x` from the left, row `y` from the bottom.
#[derive(Clone, Copy, Debug, PartialEq, Eq, Structural)]
pub struct Pixel {
    pub x: u32,
    pub y: u32,
}

/// The pixel emitted at position `index` of an image `width` wide and
/// `height` high: rows from the top one down, each from left to right.
pub open spec fn raster_spec(index: int, width: int, height: int) -> (int, int) {
    (index % width, height - 1 - index / width)
}

/// The number of pixels of an image.
pub fn pixel_count(width: u32, height: u32) -> (r: u64)
    ensures
        r == width * height,
{
    proof {
        vstd::arithmetic::mul::lemma_mul_upper_bound(width as int, u32::MAX as int, height as int, u32::MAX as int);
    }
    width as u64 * height as u64
}

/// The pixel emitted at position `index` of the output.
pub fn raster_pixel(index: u64, width: u32, height: u32) -> (r: Pixel)
    requires
        index < width * height,
    ensures
        (r.x as int, r.y as int) == raster_spec(index as int, width as int, height as int),
{
    let w: u64 = width as u64;
    let row: u64 = index / w;
    proof {
        vstd::arithmetic::div_mod::lemma_div_is_ordered_by_denominator(index as int, 1, w as int);
        assert(row < height) by (nonlinear_arith)
            requires row == index / w, index < w * height, w > 0;
    }
    Pixel { x: (index % w) as u32, y: height - 1 - row as u32 }
}

/// The output lists every pixel of the image exactly once: each pixel is
/// emitted at one position, and no two positions emit the same pixel.
pub proof fn lemma_raster_covers_image(width: int, height: int, x: int, y: int)
    requires
        0 <= x < width,
        0 <= y < height,
    ensures
        0 <= (height - 1 - y) * width + x < width * height,
        raster_spec((height - 1 - y) * width + x, width, height) == (x, y),
        forall|i: int| 0 <= i < width * height && #[trigger] raster_spec(i, width, height) == (x, y)
            ==> i == (height - 1 - y) * width + x,
{
    let i0 = (height - 1 - y) * width + x;
    assert(0 <= i0 < width * height) by (nonlinear_arith)
        requires i0 == (height - 1 - y) * width + x, 0 <= x < width, 0 <= y < height;
    vstd::arithmetic::div_mod::lemma_fundamental_div_mod_converse(i0, width, height - 1 - y, x);
    assert forall|i: int| 0 <= i < width * height && #[trigger] raster_spec(i, width, height) == (x, y)
        implies i == i0 by {
        vstd::arithmetic::div_mod::lemma_fundamental_div_mod(i, width);
        assert(i / width == height - 1 - y && i % width == x);
        vstd::arithmetic::mul::lemma_mul_is_commutative(width, i / width);
    }
}

/// Rows come from the top down, and within a row pixels go left to right.
pub proof fn lemma_raster_order(width: int, height: int, i: int, j: int)
    requires
        width > 0,
        0 <= i < j,
    ensures
        raster_spec(i, width, height).1 > raster_spec(j, width, height).1
            || (raster_spec(i, width, height).1 == raster_spec(j, width, height).1
                && raster_spec(i, width, height).0 < raster_spec(j, width, height).0),
{
    vstd::arithmetic::div_mod::lemma_div_is_ordered(i, j, width);
    vstd::arithmetic::div_mod::lemma_fundamental_div_mod(i, width);
    vstd::arithmetic::div_mod::lemma_fundamental_div_mod(j, width);
}

} // verus!
