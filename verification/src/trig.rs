//! Sine and cosine in fixed point: angles in microdegrees, results in
//! thousandths, computed with the rational approximation of Bhāskara I.
//! The specification states the computed value exactly, so every caller's
//! contract is exact over these functions.

use vstd::prelude::*;
use vstd::arithmetic::div_mod::{lemma_fundamental_div_mod, lemma_fundamental_div_mod_converse,
    lemma_div_is_ordered, lemma_div_is_ordered_by_denominator, lemma_div_pos_is_pos,
    lemma_mod_bound, lemma_div_by_multiple, lemma_multiply_divide_le};
use vstd::arithmetic::mul::lemma_mul_is_commutative;

verus! {

/// A full turn, in microdegrees.
pub const DEG_FULL_TURN: i64 = 360_000_000;

/// Half a turn, in microdegrees.
pub const DEG_HALF_TURN: i64 = 180_000_000;

/// A quarter turn, in microdegrees.
pub const DEG_QUARTER_TURN: i64 = 90_000_000;

/// The rational sine approximation of Bhāskara I on `[0°, 180°]`,
/// in thousandths: `4 x (180 - x) / (40500 - x (180 - x))` with the
/// angle `x` in degrees; here the angle is in microdegrees and the
/// product is brought back to a workable scale first.
pub open spec fn bhaskara(x: int) -> int
    recommends
        0 <= x <= 180_000_000,
{
    let p = (x * (180_000_000 - x)) / 1_000_000;
    (4000 * p) / (40_500_000_000 - p)
}

/// Sine of an angle in microdegrees, in thousandths of the unit.
pub open spec fn sin_milli(a: int) -> int {
    let r = a % 360_000_000;
    if r <= 180_000_000 {
        bhaskara(r)
    } else {
        -bhaskara(r - 180_000_000)
    }
}

/// Cosine of an angle in microdegrees, in thousandths of the unit.
pub open spec fn cos_milli(a: int) -> int {
    sin_milli(a + 90_000_000)
}

/// The scaled angle product stays within `[0, 8_100_000_000]`.
proof fn lemma_p_range(x: int)
    requires
        0 <= x <= 180_000_000,
    ensures
        0 <= (x * (180_000_000 - x)) / 1_000_000 <= 8_100_000_000,
{
    let prod = x * (180_000_000 - x);
    assert(0 <= x * (180_000_000 - x) <= 8_100_000_000_000_000) by (nonlinear_arith)
        requires
            0 <= x <= 180_000_000,
    ;
    lemma_div_pos_is_pos(prod, 1_000_000);
    lemma_div_is_ordered(prod, 8_100_000_000_000_000, 1_000_000);
    lemma_div_by_multiple(8_100_000_000, 1_000_000);
}

/// The approximation stays within `[0, 1000]`.
pub proof fn lemma_bhaskara_range(x: int)
    requires
        0 <= x <= 180_000_000,
    ensures
        0 <= bhaskara(x) <= 1000,
{
    lemma_p_range(x);
    let p = (x * (180_000_000 - x)) / 1_000_000;
    lemma_div_pos_is_pos(4000 * p, 40_500_000_000 - p);
    lemma_multiply_divide_le(4000 * p, 40_500_000_000 - p, 1000);
}

/// The approximation is symmetric about the quarter turn.
pub proof fn lemma_bhaskara_symmetric(x: int)
    requires
        0 <= x <= 180_000_000,
    ensures
        bhaskara(x) == bhaskara(180_000_000 - x),
{
    lemma_mul_is_commutative(x, 180_000_000 - x);
}

/// The approximation grows with the angle on the first quarter turn.
pub proof fn lemma_bhaskara_monotonic(a: int, b: int)
    requires
        0 <= a <= b <= 90_000_000,
    ensures
        bhaskara(a) <= bhaskara(b),
{
    lemma_p_range(a);
    lemma_p_range(b);
    let proda = a * (180_000_000 - a);
    let prodb = b * (180_000_000 - b);
    assert(a * (180_000_000 - a) <= b * (180_000_000 - b)) by (nonlinear_arith)
        requires
            0 <= a <= b <= 90_000_000,
    ;
    lemma_div_is_ordered(proda, prodb, 1_000_000);
    let pa = proda / 1_000_000;
    let pb = prodb / 1_000_000;
    lemma_div_is_ordered(4000 * pa, 4000 * pb, 40_500_000_000 - pa);
    lemma_div_is_ordered_by_denominator(4000 * pb, 40_500_000_000 - pb, 40_500_000_000 - pa);
}

/// The approximation at a few exact angles.
pub proof fn lemma_bhaskara_values()
    ensures
        bhaskara(0) == 0,
        bhaskara(45_000_000) == 705,
        bhaskara(90_000_000) == 1000,
        bhaskara(180_000_000) == 0,
{
    lemma_fundamental_div_mod_converse(0, 1_000_000, 0, 0);
    lemma_fundamental_div_mod_converse(0, 40_500_000_000, 0, 0);
    assert(45_000_000int * (180_000_000 - 45_000_000) == 6_075_000_000_000_000);
    lemma_fundamental_div_mod_converse(6_075_000_000_000_000, 1_000_000, 6_075_000_000, 0);
    lemma_fundamental_div_mod_converse(
        4000int * 6_075_000_000,
        40_500_000_000 - 6_075_000_000,
        705,
        30_375_000_000,
    );
    assert(90_000_000int * (180_000_000 - 90_000_000) == 8_100_000_000_000_000);
    lemma_fundamental_div_mod_converse(8_100_000_000_000_000, 1_000_000, 8_100_000_000, 0);
    lemma_fundamental_div_mod_converse(
        4000int * 8_100_000_000,
        40_500_000_000 - 8_100_000_000,
        1000,
        0,
    );
    assert(180_000_000int * (180_000_000 - 180_000_000) == 0);
}

/// Sine and cosine stay within the unit scale.
pub proof fn lemma_sin_cos_range(a: int)
    ensures
        -1000 <= sin_milli(a) <= 1000,
        -1000 <= cos_milli(a) <= 1000,
{
    lemma_mod_bound(a, 360_000_000);
    let r = a % 360_000_000;
    if r <= 180_000_000 {
        lemma_bhaskara_range(r);
    } else {
        lemma_bhaskara_range(r - 180_000_000);
    }
    lemma_mod_bound(a + 90_000_000, 360_000_000);
    let rc = (a + 90_000_000) % 360_000_000;
    if rc <= 180_000_000 {
        lemma_bhaskara_range(rc);
    } else {
        lemma_bhaskara_range(rc - 180_000_000);
    }
}

/// Shifting a reduced angle by a quarter turn, reduced again.
proof fn lemma_quarter_shift(a: int)
    ensures
        (a + 90_000_000) % 360_000_000 == (if a % 360_000_000 < 270_000_000 {
            a % 360_000_000 + 90_000_000
        } else {
            a % 360_000_000 - 270_000_000
        }),
{
    lemma_mod_bound(a, 360_000_000);
    let r = a % 360_000_000;
    lemma_fundamental_div_mod(a, 360_000_000);
    let q = a / 360_000_000;
    if r < 270_000_000 {
        lemma_fundamental_div_mod_converse(a + 90_000_000, 360_000_000, q, r + 90_000_000);
    } else {
        lemma_fundamental_div_mod_converse(a + 90_000_000, 360_000_000, q + 1, r - 270_000_000);
    }
}

/// At every angle, at least one of sine and cosine has magnitude `705`
/// (the value a quarter-turn in) or more.
pub proof fn lemma_sin_cos_coverage(a: int)
    ensures
        sin_milli(a) >= 705 || sin_milli(a) <= -705 || cos_milli(a) >= 705 || cos_milli(a)
            <= -705,
{
    lemma_mod_bound(a, 360_000_000);
    lemma_quarter_shift(a);
    lemma_bhaskara_values();
    let r = a % 360_000_000;
    let rc = (a + 90_000_000) % 360_000_000;
    if r <= 90_000_000 {
        // sine is bhaskara(r), cosine is bhaskara(90M - r)
        lemma_bhaskara_symmetric(r + 90_000_000);
        if r >= 45_000_000 {
            lemma_bhaskara_monotonic(45_000_000, r);
        } else {
            lemma_bhaskara_monotonic(45_000_000, 90_000_000 - r);
        }
    } else if r <= 180_000_000 {
        // sine is bhaskara(180M - r), cosine is -bhaskara(r - 90M)
        lemma_bhaskara_symmetric(r);
        if r - 90_000_000 >= 45_000_000 {
            lemma_bhaskara_monotonic(45_000_000, r - 90_000_000);
        } else {
            lemma_bhaskara_monotonic(45_000_000, 180_000_000 - r);
        }
    } else if r <= 270_000_000 {
        // sine is -bhaskara(r - 180M), cosine is -bhaskara(270M - r)
        if rc > 180_000_000 {
            lemma_bhaskara_symmetric(rc - 180_000_000);
        }
        if r - 180_000_000 >= 45_000_000 {
            lemma_bhaskara_monotonic(45_000_000, r - 180_000_000);
        } else {
            lemma_bhaskara_monotonic(45_000_000, 270_000_000 - r);
        }
    } else {
        // sine is -bhaskara(360M - r), cosine is bhaskara(r - 270M)
        lemma_bhaskara_symmetric(r - 180_000_000);
        if r - 270_000_000 >= 45_000_000 {
            lemma_bhaskara_monotonic(45_000_000, r - 270_000_000);
        } else {
            lemma_bhaskara_monotonic(45_000_000, 360_000_000 - r);
        }
    }
}

/// Within the clamped pitch range the cosine keeps a positive floor:
/// the approximation's value one degree away from the pole.
pub proof fn lemma_cos_away_from_pole(pitch: int)
    requires
        -89_000_000 <= pitch <= 89_000_000,
    ensures
        17 <= cos_milli(pitch) <= 1000,
{
    let x = pitch + 90_000_000;
    lemma_fundamental_div_mod_converse(x, 360_000_000, 0, x);
    assert(1_000_000int * (180_000_000 - 1_000_000) == 179_000_000_000_000);
    lemma_fundamental_div_mod_converse(179_000_000_000_000, 1_000_000, 179_000_000, 0);
    lemma_fundamental_div_mod_converse(
        4000int * 179_000_000,
        40_500_000_000 - 179_000_000,
        17,
        30_543_000_000,
    );
    assert(bhaskara(1_000_000) == 17);
    if x <= 90_000_000 {
        lemma_bhaskara_monotonic(1_000_000, x);
    } else {
        lemma_bhaskara_symmetric(x);
        lemma_bhaskara_monotonic(1_000_000, 180_000_000 - x);
    }
    lemma_bhaskara_range(x);
}

/// Reduces an angle in microdegrees to `[0°, 360°)`.
pub fn reduce_angle(a: i64) -> (r: i64)
    ensures
        r == (a as int) % 360_000_000,
        0 <= r < 360_000_000,
{
    proof {
        lemma_mod_bound(a as int, 360_000_000);
    }
    if a >= 0 {
        let m: u64 = (a as u64) % 360_000_000;
        m as i64
    } else {
        let n: u128 = (-(a as i128)) as u128;
        let m: u64 = (n % 360_000_000) as u64;
        proof {
            let ni = -(a as int);
            lemma_fundamental_div_mod(ni, 360_000_000);
            let qn = ni / 360_000_000;
            let rn = ni % 360_000_000;
            lemma_mod_bound(ni, 360_000_000);
            if rn == 0 {
                lemma_fundamental_div_mod_converse(a as int, 360_000_000, -qn, 0);
            } else {
                lemma_fundamental_div_mod_converse(
                    a as int,
                    360_000_000,
                    -qn - 1,
                    360_000_000 - rn,
                );
            }
        }
        if m == 0 {
            0
        } else {
            360_000_000 - (m as i64)
        }
    }
}

/// An angle reduced to `[-180°, 180°)`, the form in which the pitch is
/// stored.
pub open spec fn reduce_half_turn(p: int) -> int {
    (p + 180_000_000) % 360_000_000 - 180_000_000
}

/// Reduces an angle in microdegrees to `[-180°, 180°)`.
pub fn reduce_half_angle(p: i64) -> (r: i64)
    ensures
        r == reduce_half_turn(p as int),
        -180_000_000 <= r < 180_000_000,
{
    if p <= 9_223_372_036_674_775_807 {
        let t: i64 = reduce_angle(p + 180_000_000);
        t - 180_000_000
    } else {
        proof {
            vstd::arithmetic::div_mod::lemma_mod_add_multiples_vanish(
                p as int - 180_000_000,
                360_000_000,
            );
        }
        let t: i64 = reduce_angle(p - 180_000_000);
        t - 180_000_000
    }
}

/// The Bhāskara approximation, executable.
fn bhaskara_i64(x: i64) -> (s: i64)
    requires
        0 <= x <= 180_000_000,
    ensures
        s == bhaskara(x as int),
        0 <= s <= 1000,
{
    proof {
        lemma_p_range(x as int);
        lemma_bhaskara_range(x as int);
        assert((x as int) * (180_000_000 - x as int) <= 8_100_000_000_000_000) by (nonlinear_arith)
            requires
                0 <= x as int <= 180_000_000,
        ;
    }
    let xu: u64 = x as u64;
    let prod: u64 = xu * (180_000_000 - xu);
    let p: u64 = prod / 1_000_000;
    let s: u64 = (4000 * p) / (40_500_000_000 - p);
    s as i64
}

/// Sine and cosine of an angle in microdegrees, in thousandths.
pub fn sin_cos_milli(a: i64) -> (sc: (i64, i64))
    ensures
        sc.0 == sin_milli(a as int),
        sc.1 == cos_milli(a as int),
        -1000 <= sc.0 <= 1000,
        -1000 <= sc.1 <= 1000,
{
    proof {
        lemma_sin_cos_range(a as int);
        lemma_quarter_shift(a as int);
    }
    let r: i64 = reduce_angle(a);
    let s: i64 = if r <= 180_000_000 {
        bhaskara_i64(r)
    } else {
        -bhaskara_i64(r - 180_000_000)
    };
    let rc: i64 = if r < 270_000_000 {
        r + 90_000_000
    } else {
        r - 270_000_000
    };
    let c: i64 = if rc <= 180_000_000 {
        bhaskara_i64(rc)
    } else {
        -bhaskara_i64(rc - 180_000_000)
    };
    (s, c)
}

} // verus!
