use vstd::prelude::*;

verus! {

/// Reduces an integer to the `i32` with the same value modulo 2^32, as
/// two's-complement wrap-around does.
pub open spec fn wrap_i32(x: int) -> int {
    let m = x % 0x1_0000_0000;
    if m >= 0x8000_0000 {
        m - 0x1_0000_0000
    } else {
        m
    }
}

pub open spec fn abs(x: int) -> int {
    if x < 0 {
        -x
    } else {
        x
    }
}

/// Division rounding toward zero, as Rust's `/` on integers.
pub open spec fn trunc_div(a: int, b: int) -> int {
    let q = abs(a) / abs(b);
    if (a < 0) != (b < 0) {
        -q
    } else {
        q
    }
}

/// The remainder of `trunc_div`, with the sign of the dividend, as Rust's `%`.
pub open spec fn trunc_rem(a: int, b: int) -> int {
    let r = abs(a) % abs(b);
    if a < 0 {
        -r
    } else {
        r
    }
}

/// `a / b` on `i32`, rounding toward zero; the one quotient that does not fit,
/// `i32::MIN / -1`, wraps around to `i32::MIN`.
pub fn div_i32(a: i32, b: i32) -> (r: i32)
    requires
        b != 0,
    ensures
        r == wrap_i32(trunc_div(a as int, b as int)),
{
    let ua: u32 = if a == i32::MIN { 2147483648u32 } else if a < 0 { (-a) as u32 } else { a as u32 };
    let ub: u32 = if b == i32::MIN { 2147483648u32 } else if b < 0 { (-b) as u32 } else { b as u32 };
    let q: u32 = ua / ub;
    assert(ua as int == abs(a as int));
    assert(ub as int == abs(b as int));
    assert(q <= ua) by (nonlinear_arith)
        requires
            ub >= 1,
            q == ua / ub,
    ;
    if (a < 0) != (b < 0) {
        let r: i64 = -(q as i64);
        assert(r >= -2147483648);
        assert(wrap_i32(r as int) == r) by {
            assert(r as int % 0x1_0000_0000 == r + 0x1_0000_0000 || r == 0);
        }
        r as i32
    } else if q == 2147483648u32 {
        assert(wrap_i32(2147483648) == -2147483648);
        i32::MIN
    } else {
        assert(wrap_i32(q as int) == q);
        q as i32
    }
}

/// `a % b` on `i32`, with the sign of `a`; `i32::MIN % -1` is 0.
pub fn rem_i32(a: i32, b: i32) -> (r: i32)
    requires
        b != 0,
    ensures
        r == trunc_rem(a as int, b as int),
{
    let ua: u32 = if a == i32::MIN { 2147483648u32 } else if a < 0 { (-a) as u32 } else { a as u32 };
    let ub: u32 = if b == i32::MIN { 2147483648u32 } else if b < 0 { (-b) as u32 } else { b as u32 };
    let m: u32 = ua % ub;
    assert(ua as int == abs(a as int));
    assert(ub as int == abs(b as int));
    assert(m < ub);
    if a < 0 {
        assert(m <= 2147483647) by {
            if ub == 2147483648u32 {
                assert(m < 2147483648);
            } else {
                assert(ub <= 2147483647);
            }
        }
        -(m as i32)
    } else {
        assert(m <= ua) by (nonlinear_arith)
            requires
                ub >= 1,
                m == ua % ub,
        ;
        assert(ua <= 2147483647);
        m as i32
    }
}

} // verus!
