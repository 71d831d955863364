//! Fixed-width integer arithmetic as the player performs it on `i64`:
//! products and quotients that must stay within `i64`, with division and
//! remainder rounding toward zero as Rust's operators do.
use vstd::prelude::*;

verus! {

/// `x` is representable as an `i64`.
pub open spec fn fits_i64(x: int) -> bool {
    i64::MIN <= x <= i64::MAX
}

/// Quotient rounded toward zero (the meaning of `/` on Rust's signed integers).
pub open spec fn div_trunc(a: int, b: int) -> int {
    if a >= 0 && b > 0 {
        a / b
    } else if a < 0 && b > 0 {
        -((-a) / b)
    } else if a >= 0 && b < 0 {
        -(a / (-b))
    } else {
        (-a) / (-b)
    }
}

/// Remainder whose sign follows the dividend (the meaning of `%` on Rust's signed integers).
pub open spec fn rem_trunc(a: int, b: int) -> int {
    a - b * div_trunc(a, b)
}

/// The product `a * b` when it fits in an `i64`.
pub open spec fn mul_i64(a: int, b: int) -> Option<int> {
    if fits_i64(a * b) { Some(a * b) } else { None }
}

/// The quotient `a / b` of `i64` division, when it is defined: `b` is non-zero
/// and the quotient fits (only `i64::MIN / -1` does not).
pub open spec fn div_i64(a: int, b: int) -> Option<int> {
    if b != 0 && fits_i64(div_trunc(a, b)) { Some(div_trunc(a, b)) } else { None }
}

/// Multiplies two `i64` values; `None` when the product leaves `i64`.
pub fn mul_checked(a: i64, b: i64) -> (r: Option<i64>)
    ensures
        r == (match mul_i64(a as int, b as int) {
            Some(v) => Some(v as i64),
            None => None::<i64>,
        }),
{
    proof {
        lemma_mul_magnitude(a as int, b as int, 0x8000_0000_0000_0000, 0x8000_0000_0000_0000);
    }
    let wide: i128 = (a as i128) * (b as i128);
    if wide < i64::MIN as i128 || wide > i64::MAX as i128 {
        None
    } else {
        Some(wide as i64)
    }
}

/// Divides two `i64` values rounding toward zero; `None` when `b` is zero or the
/// quotient leaves `i64`.
pub fn div_checked(a: i64, b: i64) -> (r: Option<i64>)
    ensures
        r == (match div_i64(a as int, b as int) {
            Some(v) => Some(v as i64),
            None => None::<i64>,
        }),
{
    if b == 0 {
        return None;
    }
    let x: i128 = a as i128;
    let y: i128 = b as i128;
    let q: i128 = if x >= 0 && y > 0 {
        x / y
    } else if x < 0 && y > 0 {
        -((-x) / y)
    } else if x >= 0 && y < 0 {
        -(x / (-y))
    } else {
        (-x) / (-y)
    };
    proof {
        assert(q == div_trunc(a as int, b as int));
    }
    if q < i64::MIN as i128 || q > i64::MAX as i128 {
        None
    } else {
        Some(q as i64)
    }
}

/// Remainder of `a / b` with the sign of `a`; `None` when `b` is zero or the
/// division overflows (Rust's `%` panics on exactly those inputs).
pub fn rem_checked(a: i64, b: i64) -> (r: Option<i64>)
    ensures
        r == (if b != 0 && fits_i64(div_trunc(a as int, b as int)) {
            Some(rem_trunc(a as int, b as int) as i64)
        } else {
            None::<i64>
        }),
        r matches Some(v) ==> v == rem_trunc(a as int, b as int),
{
    match div_checked(a, b) {
        None => None,
        Some(q) => {
            proof {
                lemma_mul_magnitude(b as int, q as int, 0x8000_0000_0000_0000, 0x8000_0000_0000_0000);
            }
            let prod: i128 = (b as i128) * (q as i128);
            let rem: i128 = (a as i128) - prod;
            proof {
                lemma_rem_trunc_bounds(a as int, b as int);
            }
            Some(rem as i64)
        },
    }
}

/// A bound on the magnitude of a product from bounds on its factors.
pub proof fn lemma_mul_magnitude(x: int, y: int, bx: int, by: int)
    requires
        -bx <= x <= bx,
        -by <= y <= by,
    ensures
        -(bx * by) <= x * y <= bx * by,
{
    assert(-(bx * by) <= x * y <= bx * by) by (nonlinear_arith)
        requires
            -bx <= x <= bx,
            -by <= y <= by,
    ;
}

/// The remainder of truncating division is smaller in magnitude than the divisor.
pub proof fn lemma_rem_trunc_bounds(a: int, b: int)
    requires
        b != 0,
    ensures
        -(if b > 0 { b } else { -b }) < rem_trunc(a, b) < (if b > 0 { b } else { -b }),
        a >= 0 ==> rem_trunc(a, b) >= 0,
        a < 0 ==> rem_trunc(a, b) <= 0,
{
    if a >= 0 && b > 0 {
        assert(a == b * (a / b) + a % b) by (nonlinear_arith) requires b > 0;
        assert(0 <= a % b < b) by (nonlinear_arith) requires b > 0;
    } else if a < 0 && b > 0 {
        assert((-a) == b * ((-a) / b) + (-a) % b) by (nonlinear_arith) requires b > 0;
        assert(0 <= (-a) % b < b) by (nonlinear_arith) requires b > 0;
        assert(b * (-((-a) / b)) == -(b * ((-a) / b))) by (nonlinear_arith);
    } else if a >= 0 && b < 0 {
        assert(a == (-b) * (a / (-b)) + a % (-b)) by (nonlinear_arith) requires b < 0;
        assert(0 <= a % (-b) < -b) by (nonlinear_arith) requires b < 0;
        assert(b * (-(a / (-b))) == (-b) * (a / (-b))) by (nonlinear_arith);
    } else {
        assert((-a) == (-b) * ((-a) / (-b)) + (-a) % (-b)) by (nonlinear_arith) requires b < 0;
        assert(0 <= (-a) % (-b) < -b) by (nonlinear_arith) requires b < 0;
        assert(b * ((-a) / (-b)) == -((-b) * ((-a) / (-b)))) by (nonlinear_arith);
    }
}

} // verus!

verus! {

/// Truncating division of `i64` values stays within `i64` except for `i64::MIN / -1`.
pub proof fn lemma_div_trunc_fits(a: int, b: int)
    requires
        fits_i64(a),
        b != 0,
        fits_i64(b),
        !(a == i64::MIN && b == -1),
    ensures
        fits_i64(div_trunc(a, b)),
{
    lemma_rem_trunc_bounds(a, b);
    if a >= 0 && b > 0 {
        assert(a / b <= a) by (nonlinear_arith) requires a >= 0, b > 0;
        assert(a / b >= 0) by (nonlinear_arith) requires a >= 0, b > 0;
    } else if a < 0 && b > 0 {
        assert((-a) / b <= -a) by (nonlinear_arith) requires a < 0, b > 0;
        assert((-a) / b >= 0) by (nonlinear_arith) requires a < 0, b > 0;
    } else if a >= 0 && b < 0 {
        assert(a / (-b) <= a) by (nonlinear_arith) requires a >= 0, b < 0;
        assert(a / (-b) >= 0) by (nonlinear_arith) requires a >= 0, b < 0;
    } else {
        if b == -1 {
            assert((-a) / 1 == -a);
        } else {
            assert((-a) / (-b) <= (-a) / 2) by (nonlinear_arith) requires a < 0, b <= -2;
            assert((-a) / (-b) >= 0) by (nonlinear_arith) requires a < 0, b < 0;
            assert((-a) / 2 <= -a) by (nonlinear_arith) requires a < 0;
        }
    }
}

/// Floor quotients of two equal non-negative ratios are equal.
pub proof fn lemma_floor_same_ratio(x: int, y: int, x2: int, y2: int)
    requires
        x >= 0,
        x2 >= 0,
        y > 0,
        y2 > 0,
        x * y2 == x2 * y,
    ensures
        x / y == x2 / y2,
{
    let d = x / y;
    assert(d * y <= x < (d + 1) * y) by (nonlinear_arith)
        requires
            x >= 0,
            y > 0,
            d == x / y,
    ;
    assert(d * y * y2 <= x * y2 < (d + 1) * y * y2) by (nonlinear_arith)
        requires
            d * y <= x < (d + 1) * y,
            y2 > 0,
    ;
    assert(d * y2 <= x2 < (d + 1) * y2) by (nonlinear_arith)
        requires
            d * y * y2 <= x * y2 < (d + 1) * y * y2,
            x * y2 == x2 * y,
            y > 0,
    ;
    assert(x2 / y2 == d) by (nonlinear_arith)
        requires
            d * y2 <= x2 < (d + 1) * y2,
            y2 > 0,
    ;
}

/// Truncating quotients of two equal ratios `p / q == p2 / q2` are equal.
pub proof fn lemma_div_trunc_same_ratio(p: int, q: int, p2: int, q2: int)
    requires
        q != 0,
        q2 != 0,
        p * q2 == p2 * q,
    ensures
        div_trunc(p, q) == div_trunc(p2, q2),
{
    let ap = if p >= 0 { p } else { -p };
    let aq = if q >= 0 { q } else { -q };
    let ap2 = if p2 >= 0 { p2 } else { -p2 };
    let aq2 = if q2 >= 0 { q2 } else { -q2 };
    assert(ap * aq2 == ap2 * aq) by (nonlinear_arith)
        requires
            p * q2 == p2 * q,
            ap == (if p >= 0 { p } else { -p }),
            aq == (if q >= 0 { q } else { -q }),
            ap2 == (if p2 >= 0 { p2 } else { -p2 }),
            aq2 == (if q2 >= 0 { q2 } else { -q2 }),
    ;
    lemma_floor_same_ratio(ap, aq, ap2, aq2);
    if p == 0 {
        assert(p2 == 0) by (nonlinear_arith)
            requires
                p * q2 == p2 * q,
                p == 0,
                q != 0,
        ;
    } else {
        assert(p2 != 0) by (nonlinear_arith)
            requires
                p * q2 == p2 * q,
                p != 0,
                q2 != 0,
        ;
        assert(((p > 0) == (q2 > 0)) == ((p2 > 0) == (q > 0))) by (nonlinear_arith)
            requires
                p * q2 == p2 * q,
                p != 0,
                p2 != 0,
                q != 0,
                q2 != 0,
        ;
    }
}

} // verus!
