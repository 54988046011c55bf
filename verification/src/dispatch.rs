//! Sizing of dispatch grids: how many workgroups cover a range of items.

use vstd::prelude::*;

verus! {

/// Invocations per workgroup along each axis of a dispatch.
pub const WORKGROUP_SIZE: u32 = 32;

/// Species layers stored in one slice of a packed trail texture.
pub const LAYERS_PER_TEXTURE: u32 = 4;

/// The least number of groups of `div` items that together hold `val` items.
pub open spec fn div_ceil_spec(val: int, div: int) -> int
    recommends
        val >= 0,
        div > 0,
{
    if val % div > 0 {
        val / div + 1
    } else {
        val / div
    }
}

/// The group count is the least `g` with `g * div >= val`.
pub proof fn lemma_div_ceil_is_least_cover(val: int, div: int)
    requires
        val >= 0,
        div > 0,
    ensures
        div_ceil_spec(val, div) * div >= val,
        (div_ceil_spec(val, div) - 1) * div < val || val == 0,
        div_ceil_spec(val, div) >= 0,
        val == 0 <==> div_ceil_spec(val, div) == 0,
        div_ceil_spec(val, div) <= val,
{
    let q = val / div;
    let r = val % div;
    assert(val == q * div + r && 0 <= r < div) by (nonlinear_arith)
        requires
            val >= 0,
            div > 0,
            q == val / div,
            r == val % div,
    ;
    assert(q >= 0 && q <= val && (q == val ==> (div == 1 || val == 0))) by (nonlinear_arith)
        requires
            val >= 0,
            div > 0,
            q == val / div,
            val == q * div + r,
            0 <= r < div,
    ;
    assert((q + 1) * div == q * div + div && (q - 1) * div == q * div - div) by (nonlinear_arith);
    if r > 0 && q == val {
        assert(false) by (nonlinear_arith)
            requires
                val == q * div + r,
                q == val,
                r > 0,
                div > 0,
                val >= 0,
        ;
    }
}

/// Number of workgroups of `div` invocations needed to cover `val` items.
pub fn div_ceil(val: u32, div: u32) -> (groups: u32)
    requires
        div > 0,
    ensures
        groups == div_ceil_spec(val as int, div as int),
        groups as int * div as int >= val as int,
        val > 0 ==> (groups as int - 1) * (div as int) < val as int,
{
    proof {
        lemma_div_ceil_is_least_cover(val as int, div as int);
    }
    let excess: u32 = val % div;
    if excess > 0 {
        val / div + 1
    } else {
        val / div
    }
}

} // verus!
