//! The integer lattice on which the scene's spheres are placed.
//!
//! Along each axis the coordinates run from `-half_width` up to, but not
//! including, `half_width`. The points are counted with `x` outermost, then
//! `y`, then `z`, each in rising order.

use vstd::prelude::*;

verus! {

/// The number of points of the lattice: `2 * half_width` coordinates along
/// each of the three axes, or none when `half_width` is zero or less.
pub open spec fn lattice_count(half_width: int) -> int {
    if half_width <= 0 {
        0
    } else {
        8 * half_width * half_width * half_width
    }
}

/// The point with index `index` in a lattice with `side` coordinates along
/// each axis, the lowest of them `-half_width`.
pub open spec fn point_at(half_width: int, side: int, index: int) -> (int, int, int) {
    ((index / side) / side - half_width, (index / side) % side - half_width, index % side
        - half_width)
}

/// The lattice point with index `index`.
pub open spec fn lattice_point(half_width: int, index: int) -> (int, int, int) {
    point_at(half_width, 2 * half_width, index)
}

/// The index of the point `(x, y, z)` in a lattice with `side` coordinates
/// along each axis, the lowest of them `-half_width`.
pub open spec fn index_at(half_width: int, side: int, x: int, y: int, z: int) -> int {
    ((x + half_width) * side + (y + half_width)) * side + (z + half_width)
}

/// The place of the point `(x, y, z)` in counting order: the number of
/// lattice points that come before it.
pub open spec fn lattice_index(half_width: int, x: int, y: int, z: int) -> int {
    index_at(half_width, 2 * half_width, x, y, z)
}

/// A point with machine coordinates as a triple of unbounded integers.
pub open spec fn as_point(point: (i32, i32, i32)) -> (int, int, int) {
    (point.0 as int, point.1 as int, point.2 as int)
}

/// The index `(a * side + b) * side + c` with `b` and `c` below `side`
/// splits back into `a`, `b` and `c`.
proof fn lemma_index_digits(side: int, a: int, b: int, c: int)
    requires
        0 < side,
        0 <= a,
        0 <= b < side,
        0 <= c < side,
    ensures
        0 <= (a * side + b) * side + c,
        (((a * side + b) * side + c) / side) / side == a,
        (((a * side + b) * side + c) / side) % side == b,
        ((a * side + b) * side + c) % side == c,
{
    let row = a * side + b;
    let index = row * side + c;
    assert(0 <= a * side) by (nonlinear_arith)
        requires
            0 <= a,
            0 < side,
    ;
    assert(0 <= row * side) by (nonlinear_arith)
        requires
            0 <= row,
            0 < side,
    ;
    vstd::arithmetic::div_mod::lemma_fundamental_div_mod_converse(index, side, row, c);
    vstd::arithmetic::div_mod::lemma_fundamental_div_mod_converse(row, side, a, b);
}

/// An index below `side * side * side` splits into three digits below
/// `side`, which give the index back.
proof fn lemma_digits_index(side: int, index: int)
    requires
        0 < side,
        0 <= index < side * side * side,
    ensures
        0 <= (index / side) / side < side,
        0 <= (index / side) % side < side,
        0 <= index % side < side,
        (((index / side) / side) * side + (index / side) % side) * side + index % side == index,
{
    let c = index % side;
    let row = index / side;
    let b = row % side;
    let a = row / side;
    assert(index == side * row + c && 0 <= c < side && 0 <= row) by (nonlinear_arith)
        requires
            0 < side,
            0 <= index,
            row == index / side,
            c == index % side,
    ;
    assert(row == side * a + b && 0 <= b < side && 0 <= a) by (nonlinear_arith)
        requires
            0 < side,
            0 <= row,
            a == row / side,
            b == row % side,
    ;
    assert(a < side) by (nonlinear_arith)
        requires
            0 < side,
            0 <= b,
            0 <= c,
            index == side * row + c,
            row == side * a + b,
            index < side * side * side,
    ;
    assert((a * side + b) * side + c == index) by (nonlinear_arith)
        requires
            index == side * row + c,
            row == side * a + b,
    ;
}

/// A lattice with `2 * half_width` coordinates along each axis has
/// `8 * half_width * half_width * half_width` points.
proof fn lemma_side_cubed(half_width: int)
    ensures
        (2 * half_width) * (2 * half_width) * (2 * half_width) == 8 * half_width * half_width
            * half_width,
{
    assert((2 * half_width) * (2 * half_width) * (2 * half_width) == 8 * half_width * half_width
        * half_width) by (nonlinear_arith);
}

/// Every point whose coordinates all lie in the lattice's range is a point
/// of the lattice: it is the one at its `lattice_index`.
pub proof fn lemma_lattice_contains(half_width: int, x: int, y: int, z: int)
    requires
        -half_width <= x < half_width,
        -half_width <= y < half_width,
        -half_width <= z < half_width,
    ensures
        0 <= lattice_index(half_width, x, y, z) < lattice_count(half_width),
        lattice_point(half_width, lattice_index(half_width, x, y, z)) == (x, y, z),
{
    let side = 2 * half_width;
    let (a, b, c) = (x + half_width, y + half_width, z + half_width);
    lemma_side_cubed(half_width);
    lemma_index_digits(side, a, b, c);
    assert((a * side + b) * side + c < side * side * side) by (nonlinear_arith)
        requires
            0 < side,
            0 <= a < side,
            0 <= b < side,
            0 <= c < side,
    ;
}

/// Every point of the lattice has all its coordinates in the lattice's
/// range, and its `lattice_index` is its index: no point comes twice.
pub proof fn lemma_lattice_point_in_range(half_width: int, index: int)
    requires
        0 <= index < lattice_count(half_width),
    ensures
        -half_width <= lattice_point(half_width, index).0 < half_width,
        -half_width <= lattice_point(half_width, index).1 < half_width,
        -half_width <= lattice_point(half_width, index).2 < half_width,
        lattice_index(
            half_width,
            lattice_point(half_width, index).0,
            lattice_point(half_width, index).1,
            lattice_point(half_width, index).2,
        ) == index,
{
    lemma_side_cubed(half_width);
    lemma_digits_index(2 * half_width, index);
}

/// Lists the points of the lattice on which the spheres stand: every
/// `(x, y, z)` whose coordinates are at least `-half_width` and less than
/// `half_width`, with `x` outermost and `z` innermost, each in rising order.
/// A `half_width` of zero or less gives no points.
pub fn lattice(half_width: i32) -> (points: Vec<(i32, i32, i32)>)
    requires
        lattice_count(half_width as int) <= usize::MAX,
    ensures
        points@.len() == lattice_count(half_width as int),
        forall|i: int|
            0 <= i < points@.len() ==> as_point(#[trigger] points@[i]) == lattice_point(
                half_width as int,
                i,
            ),
{
    let mut points: Vec<(i32, i32, i32)> = Vec::new();
    if half_width <= 0 {
        return points;
    }
    let ghost h = half_width as int;
    let ghost side = 2 * h;
    let mut x: i32 = -half_width;
    proof {
        assert((x + h) * side * side == 0) by (nonlinear_arith)
            requires
                x + h == 0,
        ;
    }
    while x < half_width
        invariant
            0 < half_width,
            h == half_width,
            side == 2 * h,
            -h <= x <= h,
            points@.len() == (x + h) * side * side,
            forall|i: int|
                0 <= i < points@.len() ==> as_point(#[trigger] points@[i]) == lattice_point(h, i),
        decreases h - x,
    {
        let mut y: i32 = -half_width;
        while y < half_width
            invariant
                0 < half_width,
                h == half_width,
                side == 2 * h,
                -h <= x < h,
                -h <= y <= h,
                points@.len() == ((x + h) * side + (y + h)) * side,
                forall|i: int|
                    0 <= i < points@.len() ==> as_point(#[trigger] points@[i]) == lattice_point(
                        h,
                        i,
                    ),
            decreases h - y,
        {
            let mut z: i32 = -half_width;
            while z < half_width
                invariant
                    0 < half_width,
                    h == half_width,
                    side == 2 * h,
                    -h <= x < h,
                    -h <= y < h,
                    -h <= z <= h,
                    points@.len() == ((x + h) * side + (y + h)) * side + (z + h),
                    forall|i: int|
                        0 <= i < points@.len() ==> as_point(#[trigger] points@[i])
                            == lattice_point(h, i),
                decreases h - z,
            {
                proof {
                    lemma_index_digits(side, x + h, y + h, z + h);
                }
                points.push((x, y, z));
                z = z + 1;
            }
            proof {
                assert(((x + h) * side + (y + h)) * side + side == ((x + h) * side + (y + 1 + h))
                    * side) by (nonlinear_arith);
            }
            y = y + 1;
        }
        proof {
            assert(((x + h) * side + side) * side == (x + 1 + h) * side * side)
                by (nonlinear_arith);
        }
        x = x + 1;
    }
    proof {
        lemma_side_cubed(h);
        assert(points@.len() == side * side * side) by (nonlinear_arith)
            requires
                points@.len() == (x + h) * side * side,
                x + h == side,
        ;
    }
    points
}

} // verus!
