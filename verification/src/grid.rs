use vstd::prelude::*;

verus! {

/// Flat row-major offset of the cell (x, y) in a grid `w` cells wide.
pub open spec fn flat_index(x: int, y: int, w: int) -> int {
    y * w + x
}

/// A cell inside a `w` by `h` grid maps to an offset inside its buffer.
pub proof fn lemma_flat_index_bounds(x: int, y: int, w: int, h: int)
    requires
        0 <= x < w,
        0 <= y < h,
    ensures
        0 <= flat_index(x, y, w) < w * h,
{
    assert(0 <= y * w + x < w * h) by (nonlinear_arith)
        requires
            0 <= x < w,
            0 <= y < h,
    ;
}

/// Distinct cells whose columns lie inside the grid map to distinct offsets.
pub proof fn lemma_flat_index_injective(x1: int, y1: int, x2: int, y2: int, w: int)
    requires
        0 <= x1 < w,
        0 <= x2 < w,
        0 <= y1,
        0 <= y2,
        x1 != x2 || y1 != y2,
    ensures
        flat_index(x1, y1, w) != flat_index(x2, y2, w),
{
    assert(y1 * w + x1 != y2 * w + x2) by (nonlinear_arith)
        requires
            0 <= x1 < w,
            0 <= x2 < w,
            0 <= y1,
            0 <= y2,
            x1 != x2 || y1 != y2,
    ;
}

/// The row-major offset of a cell with 16-bit coordinates in a grid of
/// 16-bit width stays well inside `usize`.
pub proof fn lemma_flat_index_fits_usize(x: int, y: int, w: int)
    requires
        0 <= x <= 0xffff,
        0 <= y <= 0xffff,
        0 <= w <= 0xffff,
    ensures
        0 <= y * w <= y * w + x <= 0xffff0000,
{
    assert(0 <= y * w && y * w + x <= 0xffff0000) by (nonlinear_arith)
        requires
            0 <= x <= 0xffff,
            0 <= y <= 0xffff,
            0 <= w <= 0xffff,
    ;
}

/// Dividing a row-major offset by the width recovers the coordinates.
pub proof fn lemma_flat_index_div_mod(x: int, y: int, w: int)
    requires
        0 <= x < w,
        0 <= y,
    ensures
        (y * w + x) / w == y,
        (y * w + x) % w == x,
{
    assert((y * w + x) / w == y && (y * w + x) % w == x) by (nonlinear_arith)
        requires
            0 <= x < w,
            0 <= y,
    ;
}

/// A vector holding `n` copies of `value`.
pub fn filled<T: Copy>(n: usize, value: T) -> (r: Vec<T>)
    ensures
        r@.len() == n,
        forall|i: int| 0 <= i < n ==> r@[i] == value,
{
    let mut r: Vec<T> = Vec::new();
    let mut i: usize = 0;
    while i < n
        invariant
            i <= n,
            r@.len() == i,
            forall|j: int| 0 <= j < i ==> r@[j] == value,
        decreases n - i,
    {
        r.push(value);
        i += 1;
    }
    r
}

} // verus!
