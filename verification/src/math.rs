//! Fixed-point arithmetic: multiply first, divide last, never overflow.

use vstd::prelude::*;
use crate::error::Error;

verus! {

/// Quotient rounded toward zero, as the machine divides signed integers.
pub open spec fn trunc_div(x: int, d: int) -> int {
    if x >= 0 && d > 0 {
        x / d
    } else if x < 0 && d > 0 {
        -((-x) / d)
    } else if x >= 0 && d < 0 {
        -(x / (-d))
    } else {
        (-x) / (-d)
    }
}

/// Whether `x` is a value of `u128`.
pub open spec fn fits_u128(x: int) -> bool {
    0 <= x <= u128::MAX
}

/// Whether `x` is a value of `i128`.
pub open spec fn fits_i128(x: int) -> bool {
    i128::MIN <= x <= i128::MAX
}

/// `x` where it is a value of `i128`, an overflow otherwise.
pub open spec fn checked_i128(x: int) -> Result<i128, Error> {
    if fits_i128(x) {
        Ok(x as i128)
    } else {
        Err(Error::Overflow)
    }
}

/// `x` where it is a value of `u128`, an overflow otherwise.
pub open spec fn checked_u128(x: int) -> Result<u128, Error> {
    if fits_u128(x) {
        Ok(x as u128)
    } else {
        Err(Error::Overflow)
    }
}

/// `a + b`, checked.
pub fn add_i128(a: i128, b: i128) -> (r: Result<i128, Error>)
    ensures
        r == checked_i128(a + b),
{
    match a.checked_add(b) {
        Some(v) => Ok(v),
        None => Err(Error::Overflow),
    }
}

/// `a - b`, checked.
pub fn sub_i128(a: i128, b: i128) -> (r: Result<i128, Error>)
    ensures
        r == checked_i128(a - b),
{
    match a.checked_sub(b) {
        Some(v) => Ok(v),
        None => Err(Error::Overflow),
    }
}

/// `a * b`, checked.
pub fn mul_i128(a: i128, b: i128) -> (r: Result<i128, Error>)
    ensures
        r == checked_i128(a * b),
{
    match a.checked_mul(b) {
        Some(v) => Ok(v),
        None => Err(Error::Overflow),
    }
}

/// `a + b`, checked.
pub fn add_u128(a: u128, b: u128) -> (r: Result<u128, Error>)
    ensures
        r == checked_u128(a + b),
{
    match a.checked_add(b) {
        Some(v) => Ok(v),
        None => Err(Error::Overflow),
    }
}

/// `a * b`, checked.
pub fn mul_u128(a: u128, b: u128) -> (r: Result<u128, Error>)
    ensures
        r == checked_u128(a * b),
{
    match a.checked_mul(b) {
        Some(v) => Ok(v),
        None => Err(Error::Overflow),
    }
}

/// `x` as a signed number, checked.
pub fn signed(x: u128) -> (r: Result<i128, Error>)
    ensures
        r == checked_i128(x as int),
{
    if x <= i128::MAX as u128 {
        Ok(x as i128)
    } else {
        Err(Error::Overflow)
    }
}

/// `a * b / d` rounded toward zero for a positive `d`, checked.
pub fn mul_div_signed(a: i128, b: i128, d: i128) -> (r: Result<i128, Error>)
    requires
        d > 0,
    ensures
        r == (if fits_i128(a * b) {
            Ok::<i128, Error>(trunc_div(a * b, d as int) as i128)
        } else {
            Err(Error::Overflow)
        }),
        fits_i128(a * b) ==> fits_i128(trunc_div(a * b, d as int)),
{
    proof {
        lemma_trunc_div_bounded(a * b, d as int);
    }
    let p = mul_i128(a, b)?;
    Ok(p / d)
}

/// Dividing by a positive number brings a number no further from zero.
pub proof fn lemma_trunc_div_bounded(x: int, d: int)
    requires
        d > 0,
    ensures
        x >= 0 ==> 0 <= trunc_div(x, d) <= x,
        x <= 0 ==> x <= trunc_div(x, d) <= 0,
{
    if x >= 0 {
        assert(0 <= x / d <= x) by (nonlinear_arith)
            requires
                x >= 0,
                d > 0,
        ;
    } else {
        let y = -x;
        assert(0 <= y / d <= y) by (nonlinear_arith)
            requires
                y >= 0,
                d > 0,
        ;
    }
}

/// A part `s` of a whole `w` takes a part of `d` that is no more than `d`:
/// all of it where `s` is all of `w`, and less than all of a positive `d`
/// otherwise.
pub proof fn lemma_share(s: int, w: int, d: int)
    requires
        0 <= s <= w,
        0 < w,
        0 <= d,
    ensures
        0 <= s * d,
        0 <= s * d / w <= d,
        s == w ==> s * d / w == d,
        s < w && d > 0 ==> s * d / w < d,
{
    assert(0 <= s * d) by (nonlinear_arith)
        requires
            0 <= s,
            0 <= d,
    ;
    assert(s * d <= w * d) by (nonlinear_arith)
        requires
            0 <= s <= w,
            0 <= d,
    ;
    vstd::arithmetic::div_mod::lemma_div_multiples_vanish(d, w);
    assert(w * d / w == d);
    vstd::arithmetic::div_mod::lemma_div_is_ordered(s * d, w * d, w);
    vstd::arithmetic::div_mod::lemma_div_pos_is_pos(s * d, w);
    if s < w && d > 0 {
        assert(s * d < w * d) by (nonlinear_arith)
            requires
                0 <= s < w,
                0 < d,
        ;
        vstd::arithmetic::div_mod::lemma_fundamental_div_mod(s * d, w);
        let q = s * d / w;
        assert(w * q <= s * d);
        if q >= d {
            assert(w * q >= w * d) by (nonlinear_arith)
                requires
                    q >= d,
                    w > 0,
            ;
        }
    }
}

} // verus!
