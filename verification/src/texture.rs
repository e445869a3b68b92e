use vstd::prelude::*;

verus! {

/// Whether the checker cell with integer coordinates `(xi, yi, zi)` shows the even texture:
/// the coordinate sum is even.
pub fn checker_is_even(xi: i32, yi: i32, zi: i32) -> (even: bool)
    requires
        i32::MIN <= xi + yi + zi <= i32::MAX,
        i32::MIN <= xi + yi <= i32::MAX,
    ensures
        even == ((xi + yi + zi) % 2 == 0),
{
    (xi + yi + zi) % 2 == 0
}

/// Offset of the first byte of texel `(i, j)` in RGB bytes stored row by row, `width` texels
/// per row, three bytes per texel; coordinates past the last column or row are moved onto it.
pub open spec fn texel_offset(i: int, j: int, width: int, height: int) -> int {
    let ci = if i < width - 1 {
        i
    } else {
        width - 1
    };
    let cj = if j < height - 1 {
        j
    } else {
        height - 1
    };
    (cj * width + ci) * 3
}

/// The offset of the RGB bytes of texel `(i, j)` in an image of `width x height` texels.
pub fn image_texel_offset(i: u32, j: u32, width: u32, height: u32) -> (offset: usize)
    requires
        width > 0,
        height > 0,
        texel_offset(i as int, j as int, width as int, height as int) <= u32::MAX,
    ensures
        offset == texel_offset(i as int, j as int, width as int, height as int),
        offset + 3 <= width * height * 3,
        i < width && j < height ==> offset == (j * width + i) * 3,
        i >= width && j < height ==> offset == (j * width + width - 1) * 3,
        i < width && j >= height ==> offset == ((height - 1) * width + i) * 3,
        i >= width && j >= height ==> offset == (height * width - 1) * 3,
{
    let ci = if i < width - 1 {
        i
    } else {
        width - 1
    };
    let cj = if j < height - 1 {
        j
    } else {
        height - 1
    };
    proof {
        assert((cj * width + ci) * 3 + 3 <= width * height * 3) by (nonlinear_arith)
            requires
                0 <= cj < height,
                0 <= ci < width,
        ;
        assert(0 <= cj * width) by (nonlinear_arith)
            requires
                0 <= cj,
                0 <= width,
        ;
        assert((height - 1) * width + width - 1 == height * width - 1) by (nonlinear_arith);
    }
    ((cj * width + ci) * 3) as usize
}

/// Texel addressing is row-major with no padding: inside the image, the next texel of a row
/// is 3 bytes further on, and the same column of the next row is `3 * width` bytes further on.
pub proof fn lemma_texel_offset_strides(i: int, j: int, width: int, height: int)
    requires
        0 <= i,
        0 <= j,
        0 < width,
        0 < height,
    ensures
        i + 1 < width ==> texel_offset(i + 1, j, width, height) == texel_offset(i, j, width, height)
            + 3,
        j + 1 < height ==> texel_offset(i, j + 1, width, height) == texel_offset(i, j, width, height)
            + 3 * width,
        texel_offset(0, 0, width, height) == 0,
{
    let ci = if i < width - 1 {
        i
    } else {
        width - 1
    };
    assert(((j + 1) * width + ci) * 3 == (j * width + ci) * 3 + 3 * width) by (nonlinear_arith);
    assert(0 * width == 0);
}

} // verus!
