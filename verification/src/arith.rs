//! Checked arithmetic on currency units.
//!
//! Every operation either returns the exact mathematical result or fails
//! with [`ErrorCode::MathOverflow`]; nothing wraps and nothing saturates.

use crate::error::ErrorCode;
use vstd::prelude::*;

verus! {

/// Sum of two amounts, or `MathOverflow` if it does not fit.
pub fn try_add(a: u64, b: u64) -> (r: Result<u64, ErrorCode>)
    ensures
        a + b <= u64::MAX ==> r == Ok::<u64, ErrorCode>((a + b) as u64),
        a + b > u64::MAX ==> r == Err::<u64, ErrorCode>(ErrorCode::MathOverflow),
{
    match a.checked_add(b) {
        Some(v) => Ok(v),
        None => Err(ErrorCode::MathOverflow),
    }
}

/// Difference of two amounts, or `MathOverflow` if it would be negative.
pub fn try_sub(a: u64, b: u64) -> (r: Result<u64, ErrorCode>)
    ensures
        b <= a ==> r == Ok::<u64, ErrorCode>((a - b) as u64),
        b > a ==> r == Err::<u64, ErrorCode>(ErrorCode::MathOverflow),
{
    match a.checked_sub(b) {
        Some(v) => Ok(v),
        None => Err(ErrorCode::MathOverflow),
    }
}

/// Product of two amounts, or `MathOverflow` if it does not fit.
pub fn try_mul(a: u64, b: u64) -> (r: Result<u64, ErrorCode>)
    ensures
        a * b <= u64::MAX ==> r == Ok::<u64, ErrorCode>((a * b) as u64),
        a * b > u64::MAX ==> r == Err::<u64, ErrorCode>(ErrorCode::MathOverflow),
{
    match a.checked_mul(b) {
        Some(v) => Ok(v),
        None => Err(ErrorCode::MathOverflow),
    }
}

/// Quotient of two amounts, truncated, or `MathOverflow` on a zero divisor.
pub fn try_div(a: u64, b: u64) -> (r: Result<u64, ErrorCode>)
    ensures
        b != 0 ==> r == Ok::<u64, ErrorCode>((a / b) as u64),
        b == 0 ==> r == Err::<u64, ErrorCode>(ErrorCode::MathOverflow),
{
    match a.checked_div(b) {
        Some(v) => Ok(v),
        None => Err(ErrorCode::MathOverflow),
    }
}

} // verus!
