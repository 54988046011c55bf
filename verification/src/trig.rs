//! Sine and cosine of fixed-point angles.
//!
//! An angle is a fraction of a full turn in 16.16 format; whole turns are
//! dropped. Each half wave of the sine is the rational arch
//! `16 p (H - p) / (5 H^2 - 4 p (H - p))` over the half turn `H`, which
//! meets the sine at the ends and in the middle of the half turn and stays
//! within about two thousandths of it in between.

use vstd::prelude::*;
use crate::fixed::ONE;

verus! {

/// Half a turn.
pub const HALF_TURN: u32 = 32_768;

/// A quarter of a turn.
pub const QUARTER_TURN: u32 = 16_384;

/// The height of the arch at phase `p` of a half turn, as a fixed-point
/// number between zero and one.
pub open spec fn arch(p: int) -> int {
    let h = HALF_TURN as int;
    let q = p * (h - p);
    16 * q * (ONE as int) / (5 * h * h - 4 * q)
}

/// The sine of an angle, as a fixed-point number between minus one and one.
pub open spec fn sin_spec(angle: u32) -> int {
    let a = angle as int % (ONE as int);
    if a <= HALF_TURN {
        arch(a)
    } else {
        -arch(a - HALF_TURN)
    }
}

/// The cosine of an angle: the sine a quarter turn further on.
pub open spec fn cos_spec(angle: u32) -> int {
    sin_spec((angle % ONE + QUARTER_TURN) as u32)
}

/// The arch rises from zero to one and stays in between.
pub proof fn lemma_arch_range(p: int)
    requires
        0 <= p <= HALF_TURN,
    ensures
        0 <= arch(p) <= ONE,
        0 <= p * (HALF_TURN - p) <= 268_435_456,
        arch(0) == 0,
        arch(HALF_TURN as int) == 0,
        arch(QUARTER_TURN as int) == ONE,
{
    let h = HALF_TURN as int;
    let q = p * (h - p);
    assert(0 <= q && 4 * q <= h * h) by (nonlinear_arith)
        requires
            0 <= p <= h,
            q == p * (h - p),
    ;
    assert(h * h == 1_073_741_824) by (nonlinear_arith)
        requires
            h == 32_768,
    ;
    let den = 5 * h * h - 4 * q;
    let num = 16 * q * (ONE as int);
    assert(5 * h * h == 5_368_709_120) by (nonlinear_arith)
        requires
            h * h == 1_073_741_824,
    ;
    assert(16 * q * 65536 == q * 1_048_576) by (nonlinear_arith);
    assert(den >= 4_294_967_296 && num <= 65536 * den && num >= 0);
    assert(0 <= num / den <= 65536) by (nonlinear_arith)
        requires
            den > 0,
            0 <= num <= 65536 * den,
    ;
    let z: int = 0;
    let top: int = 268_435_456;
    assert(16 * z * 65536 / (5 * h * h - 4 * z) == 0) by (nonlinear_arith)
        requires
            z == 0,
            5 * h * h == 5_368_709_120,
    ;
    assert(16 * top * 65536 / (5 * h * h - 4 * top) == 65536) by (nonlinear_arith)
        requires
            top == 268_435_456,
            5 * h * h == 5_368_709_120,
    ;
    assert(z * (h - z) == z && h * (h - h) == z && 16_384 * (h - 16_384) == top)
        by (nonlinear_arith)
        requires
            z == 0,
            h == 32_768,
            top == 268_435_456,
    ;
}

/// Sine and cosine lie between minus one and one.
pub proof fn lemma_trig_range(angle: u32)
    ensures
        -(ONE as int) <= sin_spec(angle) <= ONE,
        -(ONE as int) <= cos_spec(angle) <= ONE,
{
    let a = angle as int % (ONE as int);
    if a <= HALF_TURN {
        lemma_arch_range(a);
    } else {
        lemma_arch_range(a - HALF_TURN);
    }
    let shifted = (angle % ONE + QUARTER_TURN) as u32;
    let b = shifted as int % (ONE as int);
    if b <= HALF_TURN {
        lemma_arch_range(b);
    } else {
        lemma_arch_range(b - HALF_TURN);
    }
}

/// Half a turn further on, the sine has the opposite sign.
pub proof fn lemma_sin_half_turn(angle: u32)
    requires
        angle + HALF_TURN <= u32::MAX,
    ensures
        sin_spec((angle + HALF_TURN) as u32) == -sin_spec(angle),
{
    lemma_arch_range(0);
}

/// The height of the arch at phase `p` of a half turn.
fn arch_of(p: u32) -> (v: i64)
    requires
        p <= HALF_TURN,
    ensures
        v == arch(p as int),
        0 <= v <= ONE,
{
    proof {
        lemma_arch_range(p as int);
    }
    let h: u64 = HALF_TURN as u64;
    let q: u64 = (p as u64) * (h - p as u64);
    let num: u64 = 16 * q * (ONE as u64);
    let den: u64 = 5 * h * h - 4 * q;
    (num / den) as i64
}

/// The sine of an angle.
pub fn sin(angle: u32) -> (v: i64)
    ensures
        v == sin_spec(angle),
        -(ONE as int) <= v <= ONE,
{
    let a: u32 = angle % ONE;
    if a <= HALF_TURN {
        arch_of(a)
    } else {
        -arch_of(a - HALF_TURN)
    }
}

/// The cosine of an angle.
pub fn cos(angle: u32) -> (v: i64)
    ensures
        v == cos_spec(angle),
        -(ONE as int) <= v <= ONE,
{
    sin(angle % ONE + QUARTER_TURN)
}

} // verus!
