//! Three-component vectors in 64-bit fixed point, with their mathematical
//! counterpart `V3i` used by every contract in the crate.

use vstd::prelude::*;
use vstd::arithmetic::mul::lemma_mul_is_distributive_add;
use crate::num::{div_trunc, div_trunc_i64, isqrt_spec, isqrt_u64, lemma_isqrt_bounds,
    lemma_div_trunc_props, lemma_div_trunc_mag};

verus! {

/// Largest magnitude a position coordinate may take, in thousandths of a
/// world unit; keeps every dot product in this crate inside `i64`.
pub const COORD_LIMIT: i64 = 1_000_000_000_000_000;

/// Mathematical (ghost) counterpart of `Vec3`: unbounded integers.
pub struct V3i {
    pub x: int,
    pub y: int,
    pub z: int,
}

/// A vector in thousandths of a world unit; a unit vector has length `1000`.
#[derive(Clone, Copy, PartialEq, Eq, Structural, Debug)]
pub struct Vec3 {
    pub x: i64,
    pub y: i64,
    pub z: i64,
}

impl View for Vec3 {
    type V = V3i;

    open spec fn view(&self) -> V3i {
        V3i { x: self.x as int, y: self.y as int, z: self.z as int }
    }
}

pub open spec fn dot(a: V3i, b: V3i) -> int {
    a.x * b.x + a.y * b.y + a.z * b.z
}

pub open spec fn cross(a: V3i, b: V3i) -> V3i {
    V3i {
        x: a.y * b.z - a.z * b.y,
        y: a.z * b.x - a.x * b.z,
        z: a.x * b.y - a.y * b.x,
    }
}

pub open spec fn norm2(a: V3i) -> int {
    dot(a, a)
}

pub open spec fn vadd(a: V3i, b: V3i) -> V3i {
    V3i { x: a.x + b.x, y: a.y + b.y, z: a.z + b.z }
}

pub open spec fn vneg(a: V3i) -> V3i {
    V3i { x: -a.x, y: -a.y, z: -a.z }
}

/// Every component lies in `[-m, m]`.
pub open spec fn in_bounds(a: V3i, m: int) -> bool {
    &&& -m <= a.x <= m
    &&& -m <= a.y <= m
    &&& -m <= a.z <= m
}

/// Rescaling to length `1000` with truncating division; the zero vector,
/// which has no direction, is left as it is.
pub open spec fn normalize_spec(v: V3i) -> V3i {
    let l = isqrt_spec(norm2(v));
    if l == 0 {
        v
    } else {
        V3i {
            x: div_trunc(v.x * 1000, l),
            y: div_trunc(v.y * 1000, l),
            z: div_trunc(v.z * 1000, l),
        }
    }
}

/// A cross product is exactly orthogonal to both of its factors.
pub proof fn lemma_cross_orthogonal(a: V3i, b: V3i)
    ensures
        dot(a, cross(a, b)) == 0,
        dot(b, cross(a, b)) == 0,
{
    assert(a.x * (a.y * b.z - a.z * b.y) + a.y * (a.z * b.x - a.x * b.z) + a.z * (a.x * b.y
        - a.y * b.x) == 0) by (nonlinear_arith);
    assert(b.x * (a.y * b.z - a.z * b.y) + b.y * (a.z * b.x - a.x * b.z) + b.z * (a.x * b.y
        - a.y * b.x) == 0) by (nonlinear_arith);
}

/// A squared norm is nonnegative, bounds each component's square, and
/// vanishes only on the zero vector.
pub proof fn lemma_norm2_basics(v: V3i)
    ensures
        norm2(v) >= 0,
        v.x * v.x <= norm2(v),
        v.y * v.y <= norm2(v),
        v.z * v.z <= norm2(v),
        norm2(v) == 0 ==> v == (V3i { x: 0, y: 0, z: 0 }),
{
    assert(v.x * v.x >= 0) by (nonlinear_arith);
    assert(v.y * v.y >= 0) by (nonlinear_arith);
    assert(v.z * v.z >= 0) by (nonlinear_arith);
    if norm2(v) == 0 {
        assert(v.x == 0) by (nonlinear_arith)
            requires
                v.x * v.x == 0,
        ;
        assert(v.y == 0) by (nonlinear_arith)
            requires
                v.y * v.y == 0,
        ;
        assert(v.z == 0) by (nonlinear_arith)
            requires
                v.z * v.z == 0,
        ;
    }
}

/// Each component's magnitude is at most the floor square root of the
/// squared norm.
pub proof fn lemma_comp_le_isqrt(v: V3i)
    ensures
        -isqrt_spec(norm2(v)) <= v.x <= isqrt_spec(norm2(v)),
        -isqrt_spec(norm2(v)) <= v.y <= isqrt_spec(norm2(v)),
        -isqrt_spec(norm2(v)) <= v.z <= isqrt_spec(norm2(v)),
{
    lemma_norm2_basics(v);
    lemma_isqrt_bounds(norm2(v));
    let l = isqrt_spec(norm2(v));
    assert(-l <= v.x <= l) by (nonlinear_arith)
        requires
            v.x * v.x <= norm2(v),
            norm2(v) < (l + 1) * (l + 1),
            l >= 0,
    ;
    assert(-l <= v.y <= l) by (nonlinear_arith)
        requires
            v.y * v.y <= norm2(v),
            norm2(v) < (l + 1) * (l + 1),
            l >= 0,
    ;
    assert(-l <= v.z <= l) by (nonlinear_arith)
        requires
            v.z * v.z <= norm2(v),
            norm2(v) < (l + 1) * (l + 1),
            l >= 0,
    ;
}

/// A normalized vector never has a component beyond the unit scale.
pub proof fn lemma_normalize_in_bounds(v: V3i)
    ensures
        in_bounds(normalize_spec(v), 1000),
{
    lemma_norm2_basics(v);
    lemma_isqrt_bounds(norm2(v));
    lemma_comp_le_isqrt(v);
    let l = isqrt_spec(norm2(v));
    if l == 0 {
        assert(norm2(v) == 0);
    } else {
        lemma_div_trunc_mag(v.x * 1000, l, l * 1000);
        lemma_div_trunc_mag(v.y * 1000, l, l * 1000);
        lemma_div_trunc_mag(v.z * 1000, l, l * 1000);
        vstd::arithmetic::div_mod::lemma_div_multiples_vanish(1000, l);
    }
}

/// One rescaled component: its remainder against `l` is small, and its
/// square sits just below the square of the exactly rescaled component.
proof fn lemma_norm_comp(c: int, l: int)
    requires
        l >= 1,
        -l <= c <= l,
    ensures
        -(l - 1) <= c * 1000 - l * div_trunc(c * 1000, l) <= l - 1,
        (l * div_trunc(c * 1000, l)) * (l * div_trunc(c * 1000, l)) <= (1000 * c) * (1000 * c),
        (l * div_trunc(c * 1000, l)) * (l * div_trunc(c * 1000, l)) >= (1000 * c) * (1000 * c)
            - 2000 * l * (l - 1),
{
    lemma_div_trunc_props(c * 1000, l);
    let q = div_trunc(c * 1000, l);
    let r = c * 1000 - l * q;
    if c >= 0 {
        assert(l * q >= 0) by (nonlinear_arith)
            requires
                l >= 1,
                q >= 0,
        ;
        assert((l * q) * (l * q) <= (1000 * c) * (1000 * c) && (l * q) * (l * q) >= (1000 * c) * (
        1000 * c) - 2000 * l * (l - 1)) by (nonlinear_arith)
            requires
                l >= 1,
                0 <= c <= l,
                0 <= r <= l - 1,
                l * q == c * 1000 - r,
                l * q >= 0,
        ;
    } else {
        assert(l * q <= 0) by (nonlinear_arith)
            requires
                l >= 1,
                q <= 0,
        ;
        assert((l * q) * (l * q) <= (1000 * c) * (1000 * c) && (l * q) * (l * q) >= (1000 * c) * (
        1000 * c) - 2000 * l * (l - 1)) by (nonlinear_arith)
            requires
                l >= 1,
                -l <= c < 0,
                -(l - 1) <= r <= 0,
                l * q == c * 1000 - r,
                l * q <= 0,
        ;
    }
}

/// Normalizing keeps near-orthogonality exact up to rounding: a vector
/// orthogonal to `c` has a dot product with `normalize_spec(c)` whose
/// magnitude stays below three times its own component bound.
pub proof fn lemma_normalize_dot(a: V3i, c: V3i, bound: int)
    requires
        dot(a, c) == 0,
        in_bounds(a, bound),
        bound >= 1,
    ensures
        -3 * bound < dot(a, normalize_spec(c)) < 3 * bound,
{
    lemma_norm2_basics(c);
    lemma_isqrt_bounds(norm2(c));
    lemma_comp_le_isqrt(c);
    let l = isqrt_spec(norm2(c));
    if l == 0 {
        assert(dot(a, normalize_spec(c)) == 0);
    } else {
        lemma_norm_comp(c.x, l);
        lemma_norm_comp(c.y, l);
        lemma_norm_comp(c.z, l);
        let qx = div_trunc(c.x * 1000, l);
        let qy = div_trunc(c.y * 1000, l);
        let qz = div_trunc(c.z * 1000, l);
        let rx = c.x * 1000 - l * qx;
        let ry = c.y * 1000 - l * qy;
        let rz = c.z * 1000 - l * qz;
        let s = a.x * qx + a.y * qy + a.z * qz;
        let tx = a.x * qx;
        let ty = a.y * qy;
        let tz = a.z * qz;
        lemma_mul_is_distributive_add(l, tx + ty, tz);
        lemma_mul_is_distributive_add(l, tx, ty);
        assert(l * tx == 1000 * (a.x * c.x) - a.x * rx) by (nonlinear_arith)
            requires
                tx == a.x * qx,
                rx == c.x * 1000 - l * qx,
        ;
        assert(l * ty == 1000 * (a.y * c.y) - a.y * ry) by (nonlinear_arith)
            requires
                ty == a.y * qy,
                ry == c.y * 1000 - l * qy,
        ;
        assert(l * tz == 1000 * (a.z * c.z) - a.z * rz) by (nonlinear_arith)
            requires
                tz == a.z * qz,
                rz == c.z * 1000 - l * qz,
        ;
        assert(l * s == 1000 * (a.x * c.x + a.y * c.y + a.z * c.z) - (a.x * rx + a.y * ry + a.z
            * rz));
        assert(a.x * c.x + a.y * c.y + a.z * c.z == 0);
        assert(l * s == -(a.x * rx + a.y * ry + a.z * rz));
        let t = 3 * bound * (l - 1);
        assert(-t <= a.x * rx + a.y * ry + a.z * rz <= t) by (nonlinear_arith)
            requires
                t == 3 * bound * (l - 1),
                -bound <= a.x <= bound,
                -bound <= a.y <= bound,
                -bound <= a.z <= bound,
                -(l - 1) <= rx <= l - 1,
                -(l - 1) <= ry <= l - 1,
                -(l - 1) <= rz <= l - 1,
                bound >= 1,
                l >= 1,
        ;
        assert(-t <= l * s <= t);
        assert(-3 * bound < s < 3 * bound) by (nonlinear_arith)
            requires
                l >= 1,
                bound >= 1,
                t == 3 * bound * (l - 1),
                -t <= l * s <= t,
        ;
        assert(dot(a, normalize_spec(c)) == s);
    }
}

/// A vector of squared norm at least `497 * 497` normalizes to squared
/// norm within a quarter percent of `1000 * 1000`.
pub proof fn lemma_normalize_norm2(v: V3i)
    requires
        norm2(v) >= 247009,
    ensures
        994000 <= norm2(normalize_spec(v)) <= 1004025,
{
    lemma_norm2_basics(v);
    lemma_isqrt_bounds(norm2(v));
    lemma_comp_le_isqrt(v);
    let n2 = norm2(v);
    let l = isqrt_spec(n2);
    assert(l >= 497) by (nonlinear_arith)
        requires
            n2 >= 247009,
            n2 < (l + 1) * (l + 1),
            l >= 0,
    ;
    lemma_norm_comp(v.x, l);
    lemma_norm_comp(v.y, l);
    lemma_norm_comp(v.z, l);
    let qx = div_trunc(v.x * 1000, l);
    let qy = div_trunc(v.y * 1000, l);
    let qz = div_trunc(v.z * 1000, l);
    let xx = norm2(normalize_spec(v));
    assert(xx == qx * qx + qy * qy + qz * qz);
    let sx = qx * qx;
    let sy = qy * qy;
    let sz = qz * qz;
    lemma_mul_is_distributive_add(l * l, sx + sy, sz);
    lemma_mul_is_distributive_add(l * l, sx, sy);
    assert((l * l) * sx == (l * qx) * (l * qx)) by (nonlinear_arith)
        requires
            sx == qx * qx,
    ;
    assert((l * l) * sy == (l * qy) * (l * qy)) by (nonlinear_arith)
        requires
            sy == qy * qy,
    ;
    assert((l * l) * sz == (l * qz) * (l * qz)) by (nonlinear_arith)
        requires
            sz == qz * qz,
    ;
    assert(l * l * xx == (l * qx) * (l * qx) + (l * qy) * (l * qy) + (l * qz) * (l * qz));
    assert((1000 * v.x) * (1000 * v.x) + (1000 * v.y) * (1000 * v.y) + (1000 * v.z) * (1000 * v.z)
        == 1000000 * n2) by (nonlinear_arith)
        requires
            n2 == v.x * v.x + v.y * v.y + v.z * v.z,
    ;
    assert(l * l <= n2 <= l * l + 2 * l) by (nonlinear_arith)
        requires
            l * l <= n2,
            n2 < (l + 1) * (l + 1),
    ;
    assert(xx <= 1004025) by (nonlinear_arith)
        requires
            l >= 497,
            l * l * xx <= 1000000 * (l * l + 2 * l),
    ;
    assert(xx >= 994000) by (nonlinear_arith)
        requires
            l >= 497,
            l * l * xx >= 1000000 * (l * l) - 3 * (2000 * l * (l - 1)),
    ;
}

/// The identity of Lagrange: the squared norm of a cross product is the
/// product of the squared norms less the square of the dot product.
pub proof fn lemma_lagrange(a: V3i, b: V3i)
    ensures
        norm2(cross(a, b)) == norm2(a) * norm2(b) - dot(a, b) * dot(a, b),
{
    let axx = a.x * a.x;
    let ayy = a.y * a.y;
    let azz = a.z * a.z;
    let bxx = b.x * b.x;
    let byy = b.y * b.y;
    let bzz = b.z * b.z;
    let dx = a.x * b.x;
    let dy = a.y * b.y;
    let dz = a.z * b.z;
    let t1 = a.y * b.z;
    let u1 = a.z * b.y;
    let t2 = a.z * b.x;
    let u2 = a.x * b.z;
    let t3 = a.x * b.y;
    let u3 = a.y * b.x;
    assert((t1 - u1) * (t1 - u1) == t1 * t1 - 2 * (t1 * u1) + u1 * u1) by (nonlinear_arith);
    assert((t2 - u2) * (t2 - u2) == t2 * t2 - 2 * (t2 * u2) + u2 * u2) by (nonlinear_arith);
    assert((t3 - u3) * (t3 - u3) == t3 * t3 - 2 * (t3 * u3) + u3 * u3) by (nonlinear_arith);
    assert(t1 * t1 == ayy * bzz && u1 * u1 == azz * byy && t1 * u1 == dy * dz)
        by (nonlinear_arith)
        requires
            t1 == a.y * b.z,
            u1 == a.z * b.y,
            ayy == a.y * a.y,
            azz == a.z * a.z,
            byy == b.y * b.y,
            bzz == b.z * b.z,
            dy == a.y * b.y,
            dz == a.z * b.z,
    ;
    assert(t2 * t2 == azz * bxx && u2 * u2 == axx * bzz && t2 * u2 == dz * dx)
        by (nonlinear_arith)
        requires
            t2 == a.z * b.x,
            u2 == a.x * b.z,
            axx == a.x * a.x,
            azz == a.z * a.z,
            bxx == b.x * b.x,
            bzz == b.z * b.z,
            dx == a.x * b.x,
            dz == a.z * b.z,
    ;
    assert(t3 * t3 == axx * byy && u3 * u3 == ayy * bxx && t3 * u3 == dx * dy)
        by (nonlinear_arith)
        requires
            t3 == a.x * b.y,
            u3 == a.y * b.x,
            axx == a.x * a.x,
            ayy == a.y * a.y,
            bxx == b.x * b.x,
            byy == b.y * b.y,
            dx == a.x * b.x,
            dy == a.y * b.y,
    ;
    assert(dx * dx == axx * bxx && dy * dy == ayy * byy && dz * dz == azz * bzz)
        by (nonlinear_arith)
        requires
            dx == a.x * b.x,
            dy == a.y * b.y,
            dz == a.z * b.z,
            axx == a.x * a.x,
            ayy == a.y * a.y,
            azz == a.z * a.z,
            bxx == b.x * b.x,
            byy == b.y * b.y,
            bzz == b.z * b.z,
    ;
    let na = axx + ayy + azz;
    let nb = bxx + byy + bzz;
    let d = dx + dy + dz;
    assert(na * nb == axx * bxx + axx * byy + axx * bzz + ayy * bxx + ayy * byy + ayy * bzz + azz
        * bxx + azz * byy + azz * bzz) by (nonlinear_arith)
        requires
            na == axx + ayy + azz,
            nb == bxx + byy + bzz,
    ;
    assert(d * d == dx * dx + dy * dy + dz * dz + 2 * (dx * dy) + 2 * (dz * dx) + 2 * (dy * dz))
        by (nonlinear_arith)
        requires
            d == dx + dy + dz,
    ;
    assert(norm2(cross(a, b)) == (t1 - u1) * (t1 - u1) + (t2 - u2) * (t2 - u2) + (t3 - u3) * (t3
        - u3));
    assert(norm2(a) * norm2(b) == na * nb);
    assert(dot(a, b) * dot(a, b) == d * d);
}

/// Cross product on fixed-point vectors; the factors are a unit-scale
/// vector and a reference vector of modest magnitude.
pub fn cross_milli(a: &Vec3, b: &Vec3) -> (r: Vec3)
    requires
        in_bounds(a@, 2000),
        in_bounds(b@, 100_000),
    ensures
        r@ == cross(a@, b@),
        in_bounds(r@, 400_000_000),
{
    proof {
        assert(-200_000_000 <= (a.y as int) * (b.z as int) <= 200_000_000 && -200_000_000 <= (
        a.z as int) * (b.y as int) <= 200_000_000 && -200_000_000 <= (a.z as int) * (b.x as int)
            <= 200_000_000 && -200_000_000 <= (a.x as int) * (b.z as int) <= 200_000_000
            && -200_000_000 <= (a.x as int) * (b.y as int) <= 200_000_000 && -200_000_000 <= (
        a.y as int) * (b.x as int) <= 200_000_000) by (nonlinear_arith)
            requires
                -2000 <= a.x as int <= 2000,
                -2000 <= a.y as int <= 2000,
                -2000 <= a.z as int <= 2000,
                -100_000 <= b.x as int <= 100_000,
                -100_000 <= b.y as int <= 100_000,
                -100_000 <= b.z as int <= 100_000,
        ;
    }
    Vec3 {
        x: a.y * b.z - a.z * b.y,
        y: a.z * b.x - a.x * b.z,
        z: a.x * b.y - a.y * b.x,
    }
}

/// Dot product of a unit-scale vector with a position vector.
pub fn dot_milli(a: &Vec3, b: &Vec3) -> (r: i64)
    requires
        in_bounds(a@, 2000),
        in_bounds(b@, COORD_LIMIT as int),
    ensures
        r == dot(a@, b@),
{
    proof {
        assert(-2_000_000_000_000_000_000 <= (a.x as int) * (b.x as int) <= 2_000_000_000_000_000_000
            && -2_000_000_000_000_000_000 <= (a.y as int) * (b.y as int)
            <= 2_000_000_000_000_000_000 && -2_000_000_000_000_000_000 <= (a.z as int) * (
        b.z as int) <= 2_000_000_000_000_000_000) by (nonlinear_arith)
            requires
                -2000 <= a.x as int <= 2000,
                -2000 <= a.y as int <= 2000,
                -2000 <= a.z as int <= 2000,
                -1_000_000_000_000_000 <= b.x as int <= 1_000_000_000_000_000,
                -1_000_000_000_000_000 <= b.y as int <= 1_000_000_000_000_000,
                -1_000_000_000_000_000 <= b.z as int <= 1_000_000_000_000_000,
        ;
    }
    a.x * b.x + a.y * b.y + a.z * b.z
}

/// Squared norm, computed through unsigned magnitudes.
pub fn norm2_u64(v: &Vec3) -> (n: u64)
    requires
        in_bounds(v@, 2_000_000_000),
    ensures
        n == norm2(v@),
{
    let xm: u64 = if v.x >= 0 { v.x as u64 } else { (-v.x) as u64 };
    let ym: u64 = if v.y >= 0 { v.y as u64 } else { (-v.y) as u64 };
    let zm: u64 = if v.z >= 0 { v.z as u64 } else { (-v.z) as u64 };
    proof {
        assert((xm as int) * (xm as int) == (v.x as int) * (v.x as int) && (xm as int) * (
        xm as int) <= 4_000_000_000_000_000_000) by (nonlinear_arith)
            requires
                xm as int == (if v.x as int >= 0 { v.x as int } else { -(v.x as int) }),
                -2_000_000_000 <= v.x as int <= 2_000_000_000,
        ;
        assert((ym as int) * (ym as int) == (v.y as int) * (v.y as int) && (ym as int) * (
        ym as int) <= 4_000_000_000_000_000_000) by (nonlinear_arith)
            requires
                ym as int == (if v.y as int >= 0 { v.y as int } else { -(v.y as int) }),
                -2_000_000_000 <= v.y as int <= 2_000_000_000,
        ;
        assert((zm as int) * (zm as int) == (v.z as int) * (v.z as int) && (zm as int) * (
        zm as int) <= 4_000_000_000_000_000_000) by (nonlinear_arith)
            requires
                zm as int == (if v.z as int >= 0 { v.z as int } else { -(v.z as int) }),
                -2_000_000_000 <= v.z as int <= 2_000_000_000,
        ;
    }
    xm * xm + ym * ym + zm * zm
}

/// Rescales a vector to length `1000`; the zero vector stays zero.
pub fn normalize_milli(v: &Vec3) -> (r: Vec3)
    requires
        in_bounds(v@, 2_000_000_000),
    ensures
        r@ == normalize_spec(v@),
        in_bounds(r@, 1000),
{
    proof {
        lemma_normalize_in_bounds(v@);
    }
    let n2: u64 = norm2_u64(v);
    let l: u64 = isqrt_u64(n2);
    if l == 0 {
        proof {
            lemma_norm2_basics(v@);
        }
        *v
    } else {
        proof {
            lemma_comp_le_isqrt(v@);
            assert(l <= 4_294_967_296) by (nonlinear_arith)
                requires
                    (l as int) * (l as int) <= n2 as int,
                    n2 as int <= u64::MAX as int,
                    u64::MAX as int == 0xffff_ffff_ffff_ffff,
                    l as int >= 0,
            ;
        }
        let li: i64 = l as i64;
        let rx: i64 = div_trunc_i64(v.x * 1000, li);
        let ry: i64 = div_trunc_i64(v.y * 1000, li);
        let rz: i64 = div_trunc_i64(v.z * 1000, li);
        Vec3 { x: rx, y: ry, z: rz }
    }
}

} // verus!
