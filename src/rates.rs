use vstd::prelude::*;
use crate::decimal::{decimal_div, decimal_mul, div_spec, mul_spec, MathError, DECIMAL_ONE};

verus! {

/// Share of the reserve's funds that is lent out: `debt / (available + debt)`, zero when
/// the reserve holds nothing.
pub open spec fn utilization_spec(debt_real: int, available: int) -> Result<int, MathError> {
    if available + debt_real > u128::MAX {
        Err(MathError::Overflow)
    } else if available + debt_real == 0 {
        Ok(0)
    } else {
        div_spec(debt_real, available + debt_real)
    }
}

/// Per-second borrow and liquidity rates of a linear model.
pub open spec fn rates_spec(
    borrow_slope: int,
    reserve_factor: int,
    debt_total_scaled: int,
    borrow_index: int,
    available: int,
) -> Result<(int, int), MathError> {
    match mul_spec(debt_total_scaled, borrow_index) {
        Err(e) => Err(e),
        Ok(debt_real) => match utilization_spec(debt_real, available) {
            Err(e) => Err(e),
            Ok(u) => match mul_spec(u, borrow_slope) {
                Err(e) => Err(e),
                Ok(borrow_rate) => match mul_spec(borrow_rate, u) {
                    Err(e) => Err(e),
                    Ok(earned) => match mul_spec(earned, DECIMAL_ONE - reserve_factor) {
                        Err(e) => Err(e),
                        Ok(liquidity_rate) => Ok((borrow_rate, liquidity_rate)),
                    },
                },
            },
        },
    }
}

/// Computes `(borrow_rate, liquidity_rate)` from the utilization of a reserve:
/// `borrow_rate = utilization * borrow_slope` and
/// `liquidity_rate = borrow_rate * utilization * (1 - reserve_factor)`.
pub fn compute_rates(
    borrow_slope: u128,
    reserve_factor: u128,
    debt_total_scaled: u128,
    borrow_index: u128,
    available_liquidity: u128,
) -> (r: Result<(u128, u128), MathError>)
    requires
        reserve_factor <= DECIMAL_ONE,
    ensures
        match r {
            Ok((b, l)) => rates_spec(
                borrow_slope as int,
                reserve_factor as int,
                debt_total_scaled as int,
                borrow_index as int,
                available_liquidity as int,
            ) == Ok::<(int, int), MathError>((b as int, l as int)),
            Err(e) => rates_spec(
                borrow_slope as int,
                reserve_factor as int,
                debt_total_scaled as int,
                borrow_index as int,
                available_liquidity as int,
            ) == Err::<(int, int), MathError>(e),
        },
{
    let debt_real = decimal_mul(debt_total_scaled, borrow_index)?;
    let total = match available_liquidity.checked_add(debt_real) {
        Some(t) => t,
        None => return Err(MathError::Overflow),
    };
    let u = if total == 0 {
        0
    } else {
        decimal_div(debt_real, total)?
    };
    let borrow_rate = decimal_mul(u, borrow_slope)?;
    let earned = decimal_mul(borrow_rate, u)?;
    let liquidity_rate = decimal_mul(earned, DECIMAL_ONE - reserve_factor)?;
    Ok((borrow_rate, liquidity_rate))
}

} // verus!
