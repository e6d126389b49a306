//! Decimal precision checks, relying on arrow's validation.

use vstd::prelude::*;

verus! {

pub open spec fn pow10(n: nat) -> int
    decreases n,
{
    if n == 0 {
        1
    } else {
        10 * pow10((n - 1) as nat)
    }
}

/// `v` has at most `precision` decimal digits.
pub open spec fn fits_precision(v: int, precision: nat) -> bool {
    -(pow10(precision) - 1) <= v <= pow10(precision) - 1
}

/// Relies on arrow's `is_validate_decimal_precision`: true exactly when
/// `precision` is at most 38 and `value` lies within plus or minus
/// `10^precision - 1`.
#[verifier::external_body]
pub(crate) fn decimal128_fits(value: i128, precision: u8) -> (r: bool)
    ensures
        r == (precision <= 38 && fits_precision(value as int, precision as nat)),
{
    arrow::datatypes::is_validate_decimal_precision(value, precision)
}

/// Relies on arrow's `is_validate_decimal256_precision` on the 256-bit integer
/// `high * 2^128 + low` (built by `i256::from_parts`): true exactly when
/// `precision` is at most 76 and the value lies within plus or minus
/// `10^precision - 1`.
#[verifier::external_body]
pub(crate) fn decimal256_fits(high: i128, low: u128, precision: u8) -> (r: bool)
    ensures
        r == (precision <= 76 && fits_precision(
            crate::column::int256_value(high, low),
            precision as nat,
        )),
{
    arrow::datatypes::is_validate_decimal256_precision(
        arrow::datatypes::i256::from_parts(low, high),
        precision,
    )
}

} // verus!
