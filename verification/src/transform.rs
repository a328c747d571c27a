use vstd::prelude::*;
use crate::matrix::Matrix;

verus! {

/// The entry of the identity matrix in row `r`, column `c`.
pub open spec fn unit_cell<T>(zero: T, one: T, r: int, c: int) -> T {
    if r == c {
        one
    } else {
        zero
    }
}

/// Whether `a` is a well-formed 4 by 4 matrix that holds `cell(r, c)` in
/// every place.
pub open spec fn is_filled<T: Copy>(a: Matrix<T>, cell: spec_fn(int, int) -> T) -> bool {
    &&& a.wf()
    &&& a.rows == 4
    &&& a.cols == 4
    &&& forall|r: int, c: int| 0 <= r < 4 && 0 <= c < 4 ==> a.at(r, c) == cell(r, c)
}

/// Puts `val` in one place of a 4 by 4 matrix that is filled by `cell`.
fn place<T: Copy>(
    a: &mut Matrix<T>,
    row: usize,
    col: usize,
    val: T,
    Ghost(cell): Ghost<spec_fn(int, int) -> T>,
)
    requires
        is_filled(*old(a), cell),
        row < 4,
        col < 4,
    ensures
        is_filled(
            *final(a),
            |r: int, c: int|
                if r == row && c == col {
                    val
                } else {
                    cell(r, c)
                },
        ),
{
    let ghost prev = *a;
    a.set(row, col, val);
    assert forall|r: int, c: int| 0 <= r < 4 && 0 <= c < 4 implies a.at(r, c) == (if r == row && c
        == col {
        val
    } else {
        cell(r, c)
    }) by {
        assert(prev.at(r, c) == cell(r, c));
        if r != row {
            assert(a.m@[r] == prev.m@[r]);
        }
    }
}

/// The matrix that moves a point by `x`, `y`, `z`: the identity with the
/// three amounts down the last column.
pub fn translation<T: Copy>(zero: T, one: T, x: T, y: T, z: T) -> (t: Matrix<T>)
    ensures
        is_filled(
            t,
            |r: int, c: int|
                if r == 0 && c == 3 {
                    x
                } else if r == 1 && c == 3 {
                    y
                } else if r == 2 && c == 3 {
                    z
                } else {
                    unit_cell(zero, one, r, c)
                },
        ),
{
    let mut t = Matrix::identity(zero, one);
    let ghost c0 = |r: int, c: int| unit_cell(zero, one, r, c);
    assert(is_filled(t, c0));
    place(&mut t, 0, 3, x, Ghost(c0));
    let ghost c1 = |r: int, c: int| if r == 0 && c == 3 { x } else { c0(r, c) };
    place(&mut t, 1, 3, y, Ghost(c1));
    let ghost c2 = |r: int, c: int| if r == 1 && c == 3 { y } else { c1(r, c) };
    place(&mut t, 2, 3, z, Ghost(c2));
    t
}

/// The matrix that scales by `x`, `y`, `z` along the axes: the identity with
/// the three factors down the diagonal.
pub fn scaling<T: Copy>(zero: T, one: T, x: T, y: T, z: T) -> (t: Matrix<T>)
    ensures
        is_filled(
            t,
            |r: int, c: int|
                if r == 0 && c == 0 {
                    x
                } else if r == 1 && c == 1 {
                    y
                } else if r == 2 && c == 2 {
                    z
                } else {
                    unit_cell(zero, one, r, c)
                },
        ),
{
    let mut t = Matrix::identity(zero, one);
    let ghost c0 = |r: int, c: int| unit_cell(zero, one, r, c);
    assert(is_filled(t, c0));
    place(&mut t, 0, 0, x, Ghost(c0));
    let ghost c1 = |r: int, c: int| if r == 0 && c == 0 { x } else { c0(r, c) };
    place(&mut t, 1, 1, y, Ghost(c1));
    let ghost c2 = |r: int, c: int| if r == 1 && c == 1 { y } else { c1(r, c) };
    place(&mut t, 2, 2, z, Ghost(c2));
    t
}

/// A turn in the plane of the axes `lo` and `hi`: the identity with `cos` at
/// their two places on the diagonal, and off the diagonal `sin` in row
/// `sin_row` and `minus_sin` in the other of the two rows.
fn rotation<T: Copy>(
    zero: T,
    one: T,
    cos: T,
    sin: T,
    minus_sin: T,
    lo: usize,
    hi: usize,
    sin_row: usize,
) -> (t: Matrix<T>)
    requires
        lo < hi < 4,
        sin_row == lo || sin_row == hi,
    ensures
        is_filled(
            t,
            |r: int, c: int|
                if (r == lo && c == lo) || (r == hi && c == hi) {
                    cos
                } else if (r == lo && c == hi) || (r == hi && c == lo) {
                    if r == sin_row {
                        sin
                    } else {
                        minus_sin
                    }
                } else {
                    unit_cell(zero, one, r, c)
                },
        ),
{
    let other: usize = if sin_row == lo { hi } else { lo };
    let mut t = Matrix::identity(zero, one);
    let ghost c0 = |r: int, c: int| unit_cell(zero, one, r, c);
    assert(is_filled(t, c0));
    place(&mut t, lo, lo, cos, Ghost(c0));
    let ghost c1 = |r: int, c: int| if r == lo && c == lo { cos } else { c0(r, c) };
    place(&mut t, hi, hi, cos, Ghost(c1));
    let ghost c2 = |r: int, c: int| if r == hi && c == hi { cos } else { c1(r, c) };
    place(&mut t, sin_row, other, sin, Ghost(c2));
    let ghost c3 = |r: int, c: int| if r == sin_row && c == other { sin } else { c2(r, c) };
    place(&mut t, other, sin_row, minus_sin, Ghost(c3));
    t
}

/// The matrix that turns about the x axis by an angle, given the angle's
/// cosine, its sine and the sine negated.
pub fn rotation_x<T: Copy>(zero: T, one: T, cos: T, sin: T, minus_sin: T) -> (t: Matrix<T>)
    ensures
        is_filled(
            t,
            |r: int, c: int|
                if (r == 1 && c == 1) || (r == 2 && c == 2) {
                    cos
                } else if r == 1 && c == 2 {
                    minus_sin
                } else if r == 2 && c == 1 {
                    sin
                } else {
                    unit_cell(zero, one, r, c)
                },
        ),
{
    rotation(zero, one, cos, sin, minus_sin, 1, 2, 2)
}

/// The matrix that turns about the y axis by an angle, given the angle's
/// cosine, its sine and the sine negated.
pub fn rotation_y<T: Copy>(zero: T, one: T, cos: T, sin: T, minus_sin: T) -> (t: Matrix<T>)
    ensures
        is_filled(
            t,
            |r: int, c: int|
                if (r == 0 && c == 0) || (r == 2 && c == 2) {
                    cos
                } else if r == 0 && c == 2 {
                    sin
                } else if r == 2 && c == 0 {
                    minus_sin
                } else {
                    unit_cell(zero, one, r, c)
                },
        ),
{
    rotation(zero, one, cos, sin, minus_sin, 0, 2, 0)
}

/// The matrix that turns about the z axis by an angle, given the angle's
/// cosine, its sine and the sine negated.
pub fn rotation_z<T: Copy>(zero: T, one: T, cos: T, sin: T, minus_sin: T) -> (t: Matrix<T>)
    ensures
        is_filled(
            t,
            |r: int, c: int|
                if (r == 0 && c == 0) || (r == 1 && c == 1) {
                    cos
                } else if r == 0 && c == 1 {
                    minus_sin
                } else if r == 1 && c == 0 {
                    sin
                } else {
                    unit_cell(zero, one, r, c)
                },
        ),
{
    rotation(zero, one, cos, sin, minus_sin, 0, 1, 1)
}

/// The matrix that moves each coordinate in proportion to the two others:
/// `xy` is how far x moves per unit of y, and so on. The identity with the
/// six proportions off the diagonal of the upper three rows.
pub fn shearing<T: Copy>(zero: T, one: T, xy: T, xz: T, yx: T, yz: T, zx: T, zy: T) -> (t: Matrix<
    T,
>)
    ensures
        is_filled(
            t,
            |r: int, c: int|
                if r == 0 && c == 1 {
                    xy
                } else if r == 0 && c == 2 {
                    xz
                } else if r == 1 && c == 0 {
                    yx
                } else if r == 1 && c == 2 {
                    yz
                } else if r == 2 && c == 0 {
                    zx
                } else if r == 2 && c == 1 {
                    zy
                } else {
                    unit_cell(zero, one, r, c)
                },
        ),
{
    let mut t = Matrix::identity(zero, one);
    let ghost c0 = |r: int, c: int| unit_cell(zero, one, r, c);
    assert(is_filled(t, c0));
    place(&mut t, 0, 1, xy, Ghost(c0));
    let ghost c1 = |r: int, c: int| if r == 0 && c == 1 { xy } else { c0(r, c) };
    place(&mut t, 0, 2, xz, Ghost(c1));
    let ghost c2 = |r: int, c: int| if r == 0 && c == 2 { xz } else { c1(r, c) };
    place(&mut t, 1, 0, yx, Ghost(c2));
    let ghost c3 = |r: int, c: int| if r == 1 && c == 0 { yx } else { c2(r, c) };
    place(&mut t, 1, 2, yz, Ghost(c3));
    let ghost c4 = |r: int, c: int| if r == 1 && c == 2 { yz } else { c3(r, c) };
    place(&mut t, 2, 0, zx, Ghost(c4));
    let ghost c5 = |r: int, c: int| if r == 2 && c == 0 { zx } else { c4(r, c) };
    place(&mut t, 2, 1, zy, Ghost(c5));
    t
}

} // verus!
