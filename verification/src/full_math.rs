//! Overflow-safe multiply-then-divide over 128-bit operands, carried
//! out with a 256-bit intermediate so the product can never be lost.

use vstd::prelude::*;
use vstd::arithmetic::div_mod::lemma_fundamental_div_mod_converse;

use crate::big_num::{U256, mul_u128, div_rem};
use crate::error::ClmmError;

verus! {

/// `floor(a * b / denominator)`, exact over a 256-bit intermediate.
///
/// Fails with `DivisionByZero` when the denominator is zero, and with
/// `MathOverflow` exactly when the floored quotient does not fit in
/// 128 bits.
pub fn mul_div(a: u128, b: u128, denominator: u128) -> (res: Result<u128, ClmmError>)
    ensures
        denominator == 0 ==> res == Err::<u128, ClmmError>(ClmmError::DivisionByZero),
        denominator != 0 && (a * b) / (denominator as int) > u128::MAX
            ==> res == Err::<u128, ClmmError>(ClmmError::MathOverflow),
        denominator != 0 && (a * b) / (denominator as int) <= u128::MAX
            ==> res == Ok::<u128, ClmmError>((((a * b) / (denominator as int)) as u128)),
{
    if denominator == 0 {
        return Err(ClmmError::DivisionByZero);
    }
    let n = mul_u128(a, b);
    let d = U256::from_u128(denominator);
    let qr = div_rem(&n, &d);
    let q = qr.0;
    proof {
        lemma_fundamental_div_mod_converse(
            (a * b) as int,
            denominator as int,
            qr.0.val(),
            qr.1.val(),
        );
    }
    if q.fits_u128() {
        Ok(q.to_u128())
    } else {
        Err(ClmmError::MathOverflow)
    }
}

/// `ceil(a * b / denominator)`: the floored quotient, plus one whenever
/// the division leaves a remainder.
///
/// Fails with `DivisionByZero` when the denominator is zero, and with
/// `MathOverflow` exactly when the rounded-up quotient does not fit in
/// 128 bits.
pub fn mul_div_round_up(a: u128, b: u128, denominator: u128) -> (res: Result<u128, ClmmError>)
    ensures
        denominator == 0 ==> res == Err::<u128, ClmmError>(ClmmError::DivisionByZero),
        denominator != 0 && (a * b) % (denominator as int) == 0
            ==> res == mul_div_spec_result(a, b, denominator),
        denominator != 0 && (a * b) % (denominator as int) != 0
            && (a * b) / (denominator as int) + 1 > u128::MAX
            ==> res == Err::<u128, ClmmError>(ClmmError::MathOverflow),
        denominator != 0 && (a * b) % (denominator as int) != 0
            && (a * b) / (denominator as int) + 1 <= u128::MAX
            ==> res == Ok::<u128, ClmmError>((((a * b) / (denominator as int) + 1) as u128)),
{
    if denominator == 0 {
        return Err(ClmmError::DivisionByZero);
    }
    let n = mul_u128(a, b);
    let d = U256::from_u128(denominator);
    let qr = div_rem(&n, &d);
    let q = qr.0;
    let rem = qr.1;
    proof {
        lemma_fundamental_div_mod_converse(
            (a * b) as int,
            denominator as int,
            qr.0.val(),
            qr.1.val(),
        );
    }
    if !q.fits_u128() {
        return Err(ClmmError::MathOverflow);
    }
    let quotient = q.to_u128();
    if rem.fits_u64() && rem.to_u64() == 0 {
        Ok(quotient)
    } else {
        if quotient == u128::MAX {
            Err(ClmmError::MathOverflow)
        } else {
            Ok(quotient + 1)
        }
    }
}

/// What `mul_div` returns when the denominator is not zero.
pub open spec fn mul_div_spec_result(a: u128, b: u128, denominator: u128) -> Result<u128, ClmmError> {
    if (a * b) / (denominator as int) > u128::MAX {
        Err(ClmmError::MathOverflow)
    } else {
        Ok((((a * b) / (denominator as int)) as u128))
    }
}

} // verus!
