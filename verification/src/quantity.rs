//! Integer quantities and arithmetic that saturates at the bounds of `i64`.
//!
//! Weights are whole thousandths of the configured weight unit, distances
//! whole metres. Sums and products of such quantities are taken exactly and
//! then brought into the range of `i64`.

use vstd::prelude::*;

verus! {

/// `x` brought into the range of `i64`: itself where it fits, else the
/// nearer bound.
pub open spec fn clamp_i64(x: int) -> i64 {
    if x < i64::MIN {
        i64::MIN
    } else if x > i64::MAX {
        i64::MAX
    } else {
        x as i64
    }
}

/// An optional quantity read as a number, an absent one counting as zero.
pub open spec fn or_zero(x: Option<i64>) -> int {
    match x {
        Some(v) => v as int,
        None => 0,
    }
}

/// The larger of two optional quantities, an absent one giving way to a
/// present one.
pub open spec fn spec_max_opt(a: Option<i64>, b: Option<i64>) -> Option<i64> {
    match (a, b) {
        (None, _) => b,
        (_, None) => a,
        (Some(x), Some(y)) => if x >= y {
            a
        } else {
            b
        },
    }
}

/// Brings a wide integer into the range of `i64`.
pub fn saturate(x: i128) -> (r: i64)
    ensures
        r == clamp_i64(x as int),
{
    if x < i64::MIN as i128 {
        i64::MIN
    } else if x > i64::MAX as i128 {
        i64::MAX
    } else {
        x as i64
    }
}

/// The sum of two quantities, saturating.
pub fn saturating_sum(a: i64, b: i64) -> (r: i64)
    ensures
        r == clamp_i64(a + b),
{
    saturate(a as i128 + b as i128)
}

/// The product of three quantities, saturating once at the end: the exact
/// product is formed first.
pub fn saturating_product3(a: i64, b: i64, c: i64) -> (r: i64)
    ensures
        r == clamp_i64(a * b * c),
{
    let limit: i128 = 0x8000_0000_0000_0000;
    assert(-limit * limit <= a * b <= limit * limit) by (nonlinear_arith)
        requires
            -limit <= a < limit,
            -limit <= b < limit,
            limit > 0,
    ;
    let p: i128 = a as i128 * b as i128;
    if p == 0 || c == 0 {
        assert(a * b * c == 0) by (nonlinear_arith)
            requires
                a * b == 0 || c == 0,
        ;
        0
    } else if p >= limit {
        if c > 0 {
            assert(a * b * c >= limit) by (nonlinear_arith)
                requires
                    a * b >= limit,
                    c >= 1,
                    limit > 0,
            ;
            i64::MAX
        } else {
            assert(a * b * c <= -limit) by (nonlinear_arith)
                requires
                    a * b >= limit,
                    c <= -1,
                    limit > 0,
            ;
            i64::MIN
        }
    } else if p < -limit {
        if c > 0 {
            assert(a * b * c < -limit) by (nonlinear_arith)
                requires
                    a * b < -limit,
                    c >= 1,
                    limit > 0,
            ;
            i64::MIN
        } else {
            assert(a * b * c > limit) by (nonlinear_arith)
                requires
                    a * b < -limit,
                    c <= -1,
                    limit > 0,
            ;
            i64::MAX
        }
    } else {
        assert(-limit * limit <= (a * b) * c <= limit * limit) by (nonlinear_arith)
            requires
                -limit <= a * b < limit,
                -limit <= c < limit,
                limit > 0,
        ;
        saturate(p * (c as i128))
    }
}

/// The larger of two optional quantities.
pub fn max_opt(a: Option<i64>, b: Option<i64>) -> (r: Option<i64>)
    ensures
        r == spec_max_opt(a, b),
{
    match (a, b) {
        (None, _) => b,
        (_, None) => a,
        (Some(x), Some(y)) => if x >= y {
            a
        } else {
            b
        },
    }
}

} // verus!
