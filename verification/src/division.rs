//! Exact integer division with its failure cases spelled out.
use vstd::prelude::*;
use crate::arith::{div_checked, div_trunc, rem_checked, rem_trunc};

verus! {

/// Why `divide` could not produce an exact quotient.
#[derive(Debug, PartialEq, Eq, Structural, Clone, Copy)]
pub enum DivisionError {
    /// The divisor is zero, as in `42 / 0`.
    DivideByZero,
    /// `i64::MIN / -1`, whose quotient is `i64::MAX + 1`.
    IntegerOverflow,
    /// The division leaves a remainder, as in `5 / 2`.
    NotDivisible,
}

/// The outcome of `divide` as a mathematical statement.
pub open spec fn divide_spec(a: int, b: int) -> Result<int, DivisionError> {
    if b == 0 {
        Err(DivisionError::DivideByZero)
    } else if a == i64::MIN && b == -1 {
        Err(DivisionError::IntegerOverflow)
    } else if rem_trunc(a, b) != 0 {
        Err(DivisionError::NotDivisible)
    } else {
        Ok(div_trunc(a, b))
    }
}

/// Divides `a` by `b` when `b` divides `a` exactly.
pub fn divide(a: i64, b: i64) -> (r: Result<i64, DivisionError>)
    ensures
        match divide_spec(a as int, b as int) {
            Ok(q) => r == Ok::<i64, DivisionError>(q as i64) && q * b == a,
            Err(e) => r == Err::<i64, DivisionError>(e),
        },
        b == 0 <==> r == Err::<i64, DivisionError>(DivisionError::DivideByZero),
        (a == i64::MIN && b == -1) <==> r == Err::<i64, DivisionError>(DivisionError::IntegerOverflow),
        (b != 0 && a as int % b as int != 0) <==> r == Err::<i64, DivisionError>(DivisionError::NotDivisible),
        r is Ok <==> (b != 0 && a as int % b as int == 0 && !(a == i64::MIN && b == -1)),
        r matches Ok(q) ==> q * b == a,
{
    proof {
        if b != 0 {
            lemma_divisible_iff_rem_zero(a as int, b as int);
        }
    }
    if b == 0 {
        return Err(DivisionError::DivideByZero);
    }
    if a == i64::MIN && b == -1 {
        return Err(DivisionError::IntegerOverflow);
    }
    proof {
        crate::arith::lemma_div_trunc_fits(a as int, b as int);
    }
    match rem_checked(a, b) {
        Some(rem) => {
            if rem != 0 {
                return Err(DivisionError::NotDivisible);
            }
        },
        None => {
            return Err(DivisionError::IntegerOverflow);
        },
    }
    match div_checked(a, b) {
        Some(q) => {
            assert(q * b == a) by (nonlinear_arith)
                requires
                    a - b * q == 0,
            ;
            Ok(q)
        },
        None => Err(DivisionError::IntegerOverflow),
    }
}

/// For a non-zero divisor, the remainder of truncating division is zero exactly when the
/// divisor divides the dividend (`a % b == 0` with Euclidean `%`).
pub proof fn lemma_divisible_iff_rem_zero(a: int, b: int)
    requires
        b != 0,
    ensures
        rem_trunc(a, b) == 0 <==> a % b == 0,
{
    crate::arith::lemma_rem_trunc_bounds(a, b);
    let d = div_trunc(a, b);
    if rem_trunc(a, b) == 0 {
        assert(a == d * b) by (nonlinear_arith)
            requires
                rem_trunc(a, b) == a - b * d,
                rem_trunc(a, b) == 0,
        ;
        vstd::arithmetic::div_mod::lemma_fundamental_div_mod(a, b);
        let babs = if b > 0 { b } else { -b };
        assert(0 <= a % b < babs) by (nonlinear_arith)
            requires
                b != 0,
                babs == (if b > 0 { b } else { -b }),
        ;
        let m = a % b;
        let q = a / b;
        assert(m == b * (d - q)) by (nonlinear_arith)
            requires
                a == d * b,
                a == b * q + m,
        ;
        assert(m == 0) by (nonlinear_arith)
            requires
                m == b * (d - q),
                0 <= m < babs,
                babs == (if b > 0 { b } else { -b }),
                b != 0,
        ;
    }
    if a % b == 0 {
        vstd::arithmetic::div_mod::lemma_fundamental_div_mod(a, b);
        let q = a / b;
        let rem = rem_trunc(a, b);
        let babs = if b > 0 { b } else { -b };
        assert(rem == b * (q - d)) by (nonlinear_arith)
            requires
                rem == a - b * d,
                a == b * q + a % b,
                a % b == 0,
        ;
        assert(rem == 0) by (nonlinear_arith)
            requires
                rem == b * (q - d),
                -babs < rem < babs,
                babs == (if b > 0 { b } else { -b }),
                b != 0,
        ;
    }
}

/// The outcome of exact division, stated on the inputs alone: dividing by zero is
/// `DivideByZero`; `i64::MIN / -1` (and only it) is `IntegerOverflow`; a divisor that does not
/// divide the dividend gives `NotDivisible`; otherwise the quotient `q` satisfies `q * b == a`.
pub proof fn lemma_divide_outcomes(a: i64, b: i64)
    ensures
        b == 0 ==> divide_spec(a as int, b as int) == Err::<int, DivisionError>(DivisionError::DivideByZero),
        (divide_spec(a as int, b as int) == Err::<int, DivisionError>(DivisionError::IntegerOverflow))
            <==> (a == i64::MIN && b == -1),
        b != 0 && a as int % b as int != 0 ==> divide_spec(a as int, b as int) == Err::<int, DivisionError>(
            DivisionError::NotDivisible,
        ),
        b != 0 && a as int % b as int == 0 && !(a == i64::MIN && b == -1) ==> (divide_spec(
            a as int,
            b as int,
        ) matches Ok(q) && q * b == a),
{
    if b != 0 {
        lemma_divisible_iff_rem_zero(a as int, b as int);
        crate::arith::lemma_rem_trunc_bounds(a as int, b as int);
    }
    if b != 0 && a as int % b as int == 0 && !(a == i64::MIN && b == -1) {
        let d = div_trunc(a as int, b as int);
        assert(d * b == a) by (nonlinear_arith)
            requires
                rem_trunc(a as int, b as int) == a - b * d,
                rem_trunc(a as int, b as int) == 0,
        ;
    }
    if a == i64::MIN && b == -1 {
        assert(i64::MIN as int % -1int == 0) by (nonlinear_arith);
    }
}

} // verus!
