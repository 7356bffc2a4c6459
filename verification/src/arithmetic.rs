//! Arithmetic on machine numbers: division that rounds toward zero, and
//! results taken modulo a power of two.
use vstd::prelude::*;

verus! {

/// The size of a number.
pub open spec fn abs(x: int) -> int {
    if x < 0 {
        -x
    } else {
        x
    }
}

/// The quotient, rounded toward zero.
pub open spec fn trunc_div(a: int, b: int) -> int {
    if a >= 0 && b >= 0 {
        a / b
    } else if a >= 0 {
        -(a / -b)
    } else if b >= 0 {
        -(-a / b)
    } else {
        -a / -b
    }
}

/// A number modulo 2^32, as 32 bits without a sign.
pub open spec fn wrap_u32(x: int) -> int {
    x % 0x1_0000_0000
}

/// A number modulo 2^64, as 64 bits with a sign.
pub open spec fn wrap_i64(x: int) -> int {
    let m = x % 0x1_0000_0000_0000_0000;
    if m >= 0x8000_0000_0000_0000 {
        m - 0x1_0000_0000_0000_0000
    } else {
        m
    }
}

/// Divides, rounding toward zero.
pub fn divide(a: i128, b: i128) -> (r: i128)
    requires
        b != 0,
        a > i128::MIN,
        b > i128::MIN,
    ensures
        r == trunc_div(a as int, b as int),
        -abs(a as int) <= r <= abs(a as int),
{
    let n: i128 = if a < 0 {
        -a
    } else {
        a
    };
    let d: i128 = if b < 0 {
        -b
    } else {
        b
    };
    let q: i128 = n / d;
    assert(0 <= n as int / d as int <= n as int) by (nonlinear_arith)
        requires
            n >= 0,
            d > 0,
    ;
    if (a < 0) == (b < 0) {
        q
    } else {
        -q
    }
}

/// Takes a number modulo 2^32.
pub fn to_u32_wrapping(x: i128) -> (r: u32)
    requires
        x > i128::MIN,
    ensures
        r == wrap_u32(x as int),
{
    if x >= 0 {
        (x % 0x1_0000_0000) as u32
    } else {
        let m: i128 = (-x) % 0x1_0000_0000;
        if m == 0 {
            0
        } else {
            (0x1_0000_0000 - m) as u32
        }
    }
}

/// Takes a number modulo 2^64, with a sign.
pub fn to_i64_wrapping(x: i128) -> (r: i64)
    requires
        x > i128::MIN,
    ensures
        r == wrap_i64(x as int),
{
    let m: i128 = if x >= 0 {
        x % 0x1_0000_0000_0000_0000
    } else {
        let n: i128 = (-x) % 0x1_0000_0000_0000_0000;
        if n == 0 {
            0
        } else {
            0x1_0000_0000_0000_0000 - n
        }
    };
    if m >= 0x8000_0000_0000_0000 {
        (m - 0x1_0000_0000_0000_0000) as i64
    } else {
        m as i64
    }
}

/// A number that fits in 64 bits with a sign stays as it is.
pub proof fn lemma_wrap_i64_fits(x: int)
    requires
        i64::MIN <= x <= i64::MAX,
    ensures
        wrap_i64(x) == x,
{
}

/// The size of a product.
pub(crate) proof fn lemma_product_bound(a: int, b: int, a_max: int, b_max: int)
    by (nonlinear_arith)
    requires
        -a_max <= a <= a_max,
        -b_max <= b <= b_max,
    ensures
        -(a_max * b_max) <= a * b <= a_max * b_max,
{
}

/// A quotient is the largest number of times that the divisor goes into the
/// dividend; with a sign it is that of the sizes, with the sign of the two.
pub proof fn lemma_quotient_toward_zero(a: int, b: int)
    requires
        a >= 0,
        b > 0,
    ensures
        trunc_div(a, b) * b <= a < (trunc_div(a, b) + 1) * b,
        trunc_div(-a, b) == -trunc_div(a, b),
        trunc_div(a, -b) == -trunc_div(a, b),
        trunc_div(-a, -b) == trunc_div(a, b),
{
    assert(a / b * b <= a < (a / b + 1) * b) by (nonlinear_arith)
        requires
            b > 0,
    ;
    if a == 0 {
        assert(0int / b == 0) by (nonlinear_arith)
            requires
                b > 0,
        ;
    }
}

/// A number that is taken modulo a power of two stays in its range and differs
/// from what it was by a multiple of that power.
pub proof fn lemma_wrapping(x: int, times: int)
    ensures
        0 <= wrap_u32(x) <= u32::MAX,
        (x - wrap_u32(x)) % 0x1_0000_0000 == 0,
        wrap_u32(x + times * 0x1_0000_0000) == wrap_u32(x),
        i64::MIN <= wrap_i64(x) <= i64::MAX,
        (x - wrap_i64(x)) % 0x1_0000_0000_0000_0000 == 0,
        wrap_i64(x + times * 0x1_0000_0000_0000_0000) == wrap_i64(x),
{
}

} // verus!
