//! 16.16 fixed-point arithmetic.
//!
//! A quantity `q` is stored as the integer `q * 65536`, so `ONE` stands for
//! `1.0`. Angles are stored as fractions of a full turn in the same format:
//! `ONE` is one full turn, and only the fractional part matters.

use vstd::prelude::*;

verus! {

/// The fixed-point representation of `1.0`, and of one full turn.
pub const ONE: u32 = 65_536;

/// The product of two fixed-point numbers, rounded down.
pub open spec fn scale_spec(a: int, b: int) -> int {
    a * b / (ONE as int)
}

/// The product of two non-negative fixed-point numbers is non-negative. It
/// is at most `a` where `b` is at most one, and at most `b` where `a` is at
/// most one.
pub proof fn lemma_scale_bounds(a: int, b: int)
    requires
        0 <= a,
        0 <= b,
    ensures
        0 <= scale_spec(a, b) <= a * b,
        b <= ONE ==> scale_spec(a, b) <= a,
        a <= ONE ==> scale_spec(a, b) <= b,
{
    let one = ONE as int;
    assert(0 <= a * b) by (nonlinear_arith)
        requires
            0 <= a,
            0 <= b,
    ;
    let p = a * b;
    assert(0 <= p / one <= p) by (nonlinear_arith)
        requires
            0 <= p,
            one == 65536,
    ;
    if b <= one {
        assert(a * b <= a * one) by (nonlinear_arith)
            requires
                0 <= a,
                0 <= b <= one,
        ;
        assert(p / one <= a) by (nonlinear_arith)
            requires
                p <= a * one,
                0 <= p,
                one == 65536,
        ;
    }
    if a <= one {
        assert(a * b <= one * b) by (nonlinear_arith)
            requires
                0 <= b,
                0 <= a <= one,
        ;
        assert(p / one <= b) by (nonlinear_arith)
            requires
                p <= one * b,
                0 <= p,
                one == 65536,
        ;
    }
}

/// Multiplies two fixed-point numbers.
pub fn scale(a: u32, b: u32) -> (p: u64)
    ensures
        p == scale_spec(a as int, b as int),
        p <= 0xffff_ffff_ffff,
{
    assert(a as int * b as int <= 0xffff_fffe_0000_0001) by (nonlinear_arith)
        requires
            0 <= a <= 0xffff_ffff,
            0 <= b <= 0xffff_ffff,
    ;
    let wide: u64 = (a as u64) * (b as u64);
    assert(wide / 65536 <= 0xffff_ffff_ffff);
    wide / (ONE as u64)
}

/// Largest `r` with `r * r <= n`.
pub open spec fn is_sqrt_of(r: int, n: int) -> bool {
    &&& 0 <= r
    &&& r * r <= n
    &&& n < (r + 1) * (r + 1)
}

/// The integer square root of `n`.
pub open spec fn sqrt_spec(n: int) -> int {
    choose|r: int| is_sqrt_of(r, n)
}

/// The integer square root is unique.
pub proof fn lemma_sqrt_unique(r1: int, r2: int, n: int)
    requires
        is_sqrt_of(r1, n),
        is_sqrt_of(r2, n),
    ensures
        r1 == r2,
{
    if r1 < r2 {
        assert((r1 + 1) * (r1 + 1) <= r2 * r2) by (nonlinear_arith)
            requires
                0 <= r1,
                r1 + 1 <= r2,
        ;
    }
    if r2 < r1 {
        assert((r2 + 1) * (r2 + 1) <= r1 * r1) by (nonlinear_arith)
            requires
                0 <= r2,
                r2 + 1 <= r1,
        ;
    }
}

/// Every natural number has an integer square root.
pub proof fn lemma_sqrt_exists(n: int)
    requires
        n >= 0,
    ensures
        is_sqrt_of(sqrt_spec(n), n),
    decreases n,
{
    if n == 0 {
        assert(is_sqrt_of(0, 0));
    } else {
        lemma_sqrt_exists(n - 1);
        let r = sqrt_spec(n - 1);
        if (r + 1) * (r + 1) <= n {
            assert(n < (r + 2) * (r + 2)) by (nonlinear_arith)
                requires
                    n - 1 < (r + 1) * (r + 1),
                    r >= 0,
            ;
            assert(is_sqrt_of(r + 1, n));
        } else {
            assert(is_sqrt_of(r, n));
        }
    }
}

/// Integer square root, rounded down.
pub fn isqrt(n: u64) -> (r: u64)
    ensures
        is_sqrt_of(r as int, n as int),
        r == sqrt_spec(n as int),
        r <= 0xffff_ffff,
{
    let mut lo: u64 = 0;
    let mut hi: u64 = 0x1_0000_0000;
    assert(0x1_0000_0000int * 0x1_0000_0000int > n) by (nonlinear_arith)
        requires
            n <= 0xffff_ffff_ffff_ffff,
    ;
    while hi - lo > 1
        invariant
            lo < hi <= 0x1_0000_0000,
            lo as int * lo as int <= n as int,
            (n as int) < hi as int * hi as int,
        decreases hi - lo,
    {
        let mid: u64 = lo + (hi - lo) / 2;
        assert(mid as int * mid as int <= 0xffff_ffff * 0xffff_ffff) by (nonlinear_arith)
            requires
                0 <= mid <= 0xffff_ffff,
        ;
        if mid * mid <= n {
            lo = mid;
        } else {
            hi = mid;
        }
    }
    proof {
        assert(is_sqrt_of(lo as int, n as int));
        lemma_sqrt_unique(lo as int, sqrt_spec(n as int), n as int);
    }
    lo
}

} // verus!
