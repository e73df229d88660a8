use vstd::prelude::*;

verus! {

/// The square side length a version yields: 21 modules for version 1, and 4
/// more for every further version step.
pub open spec fn dim_of_version(version: u32) -> int {
    21 + 4 * (version as int - 1)
}

/// The slot that coordinate `(x, y)` occupies inside the flat pixel buffer of
/// a grid whose columns hold `h` cells each: the layout is x-major, so a whole
/// column of `h` cells precedes the column of `x`.
pub open spec fn flat_index(x: int, y: int, h: int) -> int {
    y + x * h
}

/// Every in-range coordinate of a `w` by `h` grid lands inside the buffer of
/// `w * h` slots.
pub proof fn lemma_flat_index_in_range(x: int, y: int, w: int, h: int)
    requires
        0 <= x < w,
        0 <= y < h,
    ensures
        0 <= flat_index(x, y, h) < w * h,
{
    assert(0 <= y + x * h < w * h) by (nonlinear_arith)
        requires
            0 <= x < w,
            0 <= y < h,
    ;
}

/// No two distinct in-range coordinates collide: the flat index determines
/// both coordinates whenever the column coordinates are in range.
pub proof fn lemma_flat_index_injective(x1: int, y1: int, x2: int, y2: int, h: int)
    requires
        0 <= y1 < h,
        0 <= y2 < h,
        flat_index(x1, y1, h) == flat_index(x2, y2, h),
    ensures
        x1 == x2,
        y1 == y2,
{
    assert(x1 == x2 && y1 == y2) by (nonlinear_arith)
        requires
            0 <= y1 < h,
            0 <= y2 < h,
            y1 + x1 * h == y2 + x2 * h,
    ;
}

/// Every slot of the buffer is reached: each index below `w * h` is the flat
/// index of some in-range coordinate, so the mapping is onto the buffer.
pub proof fn lemma_flat_index_surjective(i: int, w: int, h: int)
    requires
        0 < h,
        0 <= i < w * h,
    ensures
        exists|x: int, y: int|
            0 <= x < w && 0 <= y < h && i == flat_index(x, y, h),
{
    let x = i / h;
    let y = i % h;
    assert(0 <= x < w && 0 <= y < h && i == y + x * h) by (nonlinear_arith)
        requires
            0 < h,
            0 <= i < w * h,
            x == i / h,
            y == i % h,
    ;
    assert(i == flat_index(x, y, h));
}

} // verus!
