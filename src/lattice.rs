//! Lattice arithmetic shared by the one-, two- and three-dimensional kernels.
use vstd::prelude::*;
use vstd::arithmetic::div_mod::{lemma_fundamental_div_mod, lemma_fundamental_div_mod_converse_mod};

verus! {

/// The remainder of `x` modulo `m`, always in `0..m`.
pub fn modulo(x: i32, m: i32) -> (r: usize)
    requires
        m > 0,
    ensures
        r as int == x as int % m as int,
        r < m,
{
    let a = x % m;
    proof {
        let (xi, mi) = (x as int, m as int);
        if xi < 0 {
            let y = -xi;
            let q = y / mi;
            let rem = y % mi;
            lemma_fundamental_div_mod(y, mi);
            if rem > 0 {
                assert(xi == (-q - 1) * mi + (mi - rem)) by (nonlinear_arith)
                    requires y == mi * q + rem, xi == -y;
                lemma_fundamental_div_mod_converse_mod(xi, mi, -q - 1, mi - rem);
            } else {
                assert(xi == (-q) * mi + 0) by (nonlinear_arith)
                    requires y == mi * q + rem, xi == -y, rem == 0;
                lemma_fundamental_div_mod_converse_mod(xi, mi, -q, 0);
            }
        }
    }
    if 0 > a {
        (a + m) as usize
    } else {
        a as usize
    }
}

/// A corner offset of a lattice cell, one unit or none along each axis.
#[derive(Clone, Copy, Debug, PartialEq, Eq, Structural)]
pub struct Offset3 {
    pub i: usize,
    pub j: usize,
    pub k: usize,
}

/// The second and third corners of the tetrahedron that holds a point in its
/// cube, for each of the six orders of the point's offsets `x0`, `y0`, `z0`.
/// `x_ge_y` is `x0 >= y0`, `y_ge_z` is `y0 >= z0`, `x_ge_z` is `x0 >= z0`.
pub open spec fn corner_order_3d(x_ge_y: bool, y_ge_z: bool, x_ge_z: bool) -> (Offset3, Offset3) {
    let (a, b) = if x_ge_y {
        if y_ge_z {
            ((1usize, 0usize, 0usize), (1usize, 1usize, 0usize))
        } else if x_ge_z {
            ((1, 0, 0), (1, 0, 1))
        } else {
            ((0, 0, 1), (1, 0, 1))
        }
    } else {
        if !y_ge_z {
            ((0, 0, 1), (0, 1, 1))
        } else if !x_ge_z {
            ((0, 1, 0), (0, 1, 1))
        } else {
            ((0, 1, 0), (1, 1, 0))
        }
    };
    (Offset3 { i: a.0, j: a.1, k: a.2 }, Offset3 { i: b.0, j: b.1, k: b.2 })
}

/// The number of unit steps in a corner offset.
pub open spec fn steps(o: Offset3) -> int {
    o.i + o.j + o.k
}

/// Chooses the second and third corners of the simplex that holds a point of
/// a cube: the walk from the first corner to the last takes one unit step at a
/// time, along the axis of largest offset first.
pub fn corners_3d(x_ge_y: bool, y_ge_z: bool, x_ge_z: bool) -> (r: (Offset3, Offset3))
    ensures
        r == corner_order_3d(x_ge_y, y_ge_z, x_ge_z),
        r.0.i <= 1 && r.0.j <= 1 && r.0.k <= 1,
        r.1.i <= 1 && r.1.j <= 1 && r.1.k <= 1,
        steps(r.0) == 1,
        steps(r.1) == 2,
        r.0.i <= r.1.i && r.0.j <= r.1.j && r.0.k <= r.1.k,
{
    if x_ge_y {
        if y_ge_z {
            (Offset3 { i: 1, j: 0, k: 0 }, Offset3 { i: 1, j: 1, k: 0 })
        } else if x_ge_z {
            (Offset3 { i: 1, j: 0, k: 0 }, Offset3 { i: 1, j: 0, k: 1 })
        } else {
            (Offset3 { i: 0, j: 0, k: 1 }, Offset3 { i: 1, j: 0, k: 1 })
        }
    } else {
        if !y_ge_z {
            (Offset3 { i: 0, j: 0, k: 1 }, Offset3 { i: 0, j: 1, k: 1 })
        } else if !x_ge_z {
            (Offset3 { i: 0, j: 1, k: 0 }, Offset3 { i: 0, j: 1, k: 1 })
        } else {
            (Offset3 { i: 0, j: 1, k: 0 }, Offset3 { i: 1, j: 1, k: 0 })
        }
    }
}

/// When the three offsets are distinct, the second corner steps along the
/// axis of largest offset, and the third corner along every axis but the one
/// of smallest offset.
pub proof fn lemma_corners_follow_offsets(x: int, y: int, z: int)
    requires
        x != y,
        y != z,
        x != z,
    ensures
        ({
            let (a, b) = corner_order_3d(x >= y, y >= z, x >= z);
            &&& (a.i == 1) == (x > y && x > z)
            &&& (a.j == 1) == (y > x && y > z)
            &&& (a.k == 1) == (z > x && z > y)
            &&& (b.i == 0) == (x < y && x < z)
            &&& (b.j == 0) == (y < x && y < z)
            &&& (b.k == 0) == (z < x && z < y)
        }),
{
}

/// The middle corner of the triangle that holds a point in its square: one
/// step along x when `x0 > y0`, else one step along y.
pub fn corner_2d(x_gt_y: bool) -> (r: (usize, usize))
    ensures
        r == (if x_gt_y { (1usize, 0usize) } else { (0usize, 1usize) }),
{
    if x_gt_y {
        (1, 0)
    } else {
        (0, 1)
    }
}

/// The signed slope that a hash selects in one dimension: its low three bits
/// give a magnitude from 1 to 8, its fourth bit the sign.
pub open spec fn slope_1d(hash: u8) -> int {
    let h = hash % 16;
    if h >= 8 {
        -(1 + h % 8)
    } else {
        1 + h % 8
    }
}

/// The slope of the one-dimensional gradient for `hash`.
pub fn gradient_1d(hash: u8) -> (r: i32)
    ensures
        r == slope_1d(hash),
        1 <= r <= 8 || -8 <= r <= -1,
{
    let h = hash & 15;
    let m = h & 7;
    let neg = (h & 8) != 0;
    assert(h == hash % 16 && m == h % 8 && neg == (h >= 8)) by (bit_vector)
        requires
            h == hash & 15,
            m == h & 7,
            neg == ((h & 8) != 0),
    ;
    let grad: i32 = 1 + m as i32;
    if neg {
        -grad
    } else {
        grad
    }
}

/// How a hash turns a two-dimensional offset `(x, y)` into a gradient value:
/// `u` is x when `u_is_x` and y otherwise, `v` is the other one, and the value
/// is `±u ± 2v` with the signs given.
#[derive(Clone, Copy, Debug, PartialEq, Eq, Structural)]
pub struct Gradient2 {
    pub u_is_x: bool,
    pub negate_u: bool,
    pub negate_v: bool,
}

/// The low three bits of the hash: below four `u` is x; bit zero negates
/// `u`, bit one negates `v`.
pub open spec fn gradient_2d_spec(hash: u8) -> Gradient2 {
    let h = hash % 8;
    Gradient2 { u_is_x: h < 4, negate_u: h % 2 == 1, negate_v: (h / 2) % 2 == 1 }
}

/// The gradient selector of a two-dimensional corner.
pub fn gradient_2d(hash: u8) -> (r: Gradient2)
    ensures
        r == gradient_2d_spec(hash),
{
    let h = hash & 7;
    let nu = (h & 1) != 0;
    let nv = (h & 2) != 0;
    assert(h == hash % 8 && nu == (h % 2 == 1) && nv == ((h / 2) % 2 == 1)) by (bit_vector)
        requires
            h == hash & 7,
            nu == ((h & 1) != 0),
            nv == ((h & 2) != 0),
    ;
    Gradient2 { u_is_x: 4 > h, negate_u: nu, negate_v: nv }
}

/// The axes of a three-dimensional offset.
#[derive(Clone, Copy, Debug, PartialEq, Eq, Structural)]
pub enum Axis {
    X,
    Y,
    Z,
}

/// How a hash turns a three-dimensional offset into a gradient value: the
/// value is `±u ± v`, where `u` and `v` are the offset's components along
/// the axes given.
#[derive(Clone, Copy, Debug, PartialEq, Eq, Structural)]
pub struct Gradient3 {
    pub u: Axis,
    pub v: Axis,
    pub negate_u: bool,
    pub negate_v: bool,
}

/// The low four bits of the hash: `u` is x below eight, else y; `v` is y
/// below four, x at twelve and fourteen, else z; bit zero negates `u`, bit one
/// negates `v`.
pub open spec fn gradient_3d_spec(hash: u8) -> Gradient3 {
    let h = hash % 16;
    Gradient3 {
        u: if h < 8 { Axis::X } else { Axis::Y },
        v: if h < 4 { Axis::Y } else if h == 12 || h == 14 { Axis::X } else { Axis::Z },
        negate_u: h % 2 == 1,
        negate_v: (h / 2) % 2 == 1,
    }
}

/// The gradient selector of a three-dimensional corner.
pub fn gradient_3d(hash: u8) -> (r: Gradient3)
    ensures
        r == gradient_3d_spec(hash),
{
    let h = hash & 15;
    let nu = (h & 1) != 0;
    let nv = (h & 2) != 0;
    assert(h == hash % 16 && nu == (h % 2 == 1) && nv == ((h / 2) % 2 == 1)) by (bit_vector)
        requires
            h == hash & 15,
            nu == ((h & 1) != 0),
            nv == ((h & 2) != 0),
    ;
    let u = if h < 8 {
        Axis::X
    } else {
        Axis::Y
    };
    let v = if h < 4 {
        Axis::Y
    } else if h == 12 || h == 14 {
        Axis::X
    } else {
        Axis::Z
    };
    Gradient3 { u, v, negate_u: nu, negate_v: nv }
}

} // verus!
