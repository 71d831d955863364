//! Time bases and the conversions between stream timestamps, milliseconds,
//! seconds and microsecond durations that the player performs on `i64`.
use vstd::prelude::*;
use crate::arith::{div_checked, div_i64, mul_checked, mul_i64};

verus! {

/// A stream time base: one timestamp tick lasts `num / den` seconds.
#[derive(Debug, Clone, Copy, PartialEq, Eq, Structural)]
pub struct Rational {
    pub num: i32,
    pub den: i32,
}

impl Rational {
    /// The time base `num / den`.
    pub fn new(num: i32, den: i32) -> (r: Rational)
        ensures
            r.num == num,
            r.den == den,
    {
        Rational { num, den }
    }

    pub fn numerator(&self) -> (r: i32)
        ensures
            r == self.num,
    {
        self.num
    }

    pub fn denominator(&self) -> (r: i32)
        ensures
            r == self.den,
    {
        self.den
    }
}

/// Narrows an optional mathematical integer to an optional `i64`.
pub open spec fn as_i64(o: Option<int>) -> Option<i64> {
    match o {
        Some(v) => Some(v as i64),
        None => None,
    }
}

/// `pts * 1000 * num / den`: a timestamp in milliseconds, computed step by step in `i64`;
/// `None` when a step overflows or divides by zero.
pub open spec fn millis_spec(pts: int, tb: Rational) -> Option<int> {
    match mul_i64(pts, 1000) {
        None => None,
        Some(p) => match mul_i64(p, tb.num as int) {
            None => None,
            Some(q) => div_i64(q, tb.den as int),
        },
    }
}

/// `pts * num / den`: a timestamp in whole seconds, computed in `i64`.
pub open spec fn seconds_spec(pts: int, tb: Rational) -> Option<int> {
    match mul_i64(pts, tb.num as int) {
        None => None,
        Some(q) => div_i64(q, tb.den as int),
    }
}

/// `duration * den / num / 1_000_000`: a duration in microseconds as a number of
/// time-base ticks, computed in `i64`.
pub open spec fn duration_ticks_spec(duration_us: int, tb: Rational) -> Option<int> {
    match mul_i64(duration_us, tb.den as int) {
        None => None,
        Some(q) => match div_i64(q, tb.num as int) {
            None => None,
            Some(t) => div_i64(t, 1_000_000),
        },
    }
}

/// `den / num`: the number of ticks in one second, rounded toward zero.
pub open spec fn ticks_per_second_spec(tb: Rational) -> Option<int> {
    div_i64(tb.den as int, tb.num as int)
}

/// A timestamp in milliseconds (`pts * 1000 * num / den`).
pub fn pts_to_millis(pts: i64, tb: Rational) -> (r: Option<i64>)
    ensures
        r == as_i64(millis_spec(pts as int, tb)),
{
    match mul_checked(pts, 1000) {
        None => None,
        Some(p) => match mul_checked(p, tb.num as i64) {
            None => None,
            Some(q) => div_checked(q, tb.den as i64),
        },
    }
}

/// A timestamp in whole seconds (`pts * num / den`).
pub fn pts_to_seconds(pts: i64, tb: Rational) -> (r: Option<i64>)
    ensures
        r == as_i64(seconds_spec(pts as int, tb)),
{
    match mul_checked(pts, tb.num as i64) {
        None => None,
        Some(q) => div_checked(q, tb.den as i64),
    }
}

/// A duration in microseconds converted to time-base ticks (`duration * den / num / 1_000_000`).
pub fn duration_to_ticks(duration_us: i64, tb: Rational) -> (r: Option<i64>)
    ensures
        r == as_i64(duration_ticks_spec(duration_us as int, tb)),
{
    match mul_checked(duration_us, tb.den as i64) {
        None => None,
        Some(q) => match div_checked(q, tb.num as i64) {
            None => None,
            Some(t) => div_checked(t, 1_000_000),
        },
    }
}

/// The number of ticks in one second (`den / num`).
pub fn ticks_per_second(tb: Rational) -> (r: Option<i64>)
    ensures
        r == as_i64(ticks_per_second_spec(tb)),
{
    div_checked(tb.den as i64, tb.num as i64)
}

/// A timestamp in milliseconds, when computable, is `pts * 1000 * num / den` rounded toward
/// zero, with a non-zero denominator.
pub proof fn lemma_millis_value(pts: int, tb: Rational)
    ensures
        millis_spec(pts, tb) matches Some(x) ==> tb.den != 0 && x == crate::arith::div_trunc(
            pts * 1000 * tb.num,
            tb.den as int,
        ),
{
}

} // verus!
