use vstd::prelude::*;
use crate::decimal::{as_int, decimal_mul, mul_spec, MathError};
use crate::reserve::Reserve;

verus! {

/// A user's holdings in one asset, in scaled units.
#[derive(Debug, Clone, Copy, PartialEq, Eq, Structural)]
pub struct UserAssetPosition {
    pub scaled_collateral_amount: u128,
    pub scaled_debt_amount: u128,
    /// Whether this asset counts toward the user's borrowing power.
    pub collateral_enabled: bool,
    /// Where set, the user may borrow this asset without collateral up to this real amount of
    /// debt, and such a borrow is not held to the health check.
    pub uncollateralized_loan_limit: Option<u128>,
}

/// Risk-weighted value of a position's collateral: `amount × price × liquidation_threshold`,
/// zero when the asset is not enabled as collateral.
pub open spec fn collateral_term(r: Reserve, p: UserAssetPosition, price: int) -> Result<int, MathError> {
    if !p.collateral_enabled {
        Ok(0)
    } else {
        match mul_spec(p.scaled_collateral_amount as int, r.liquidity_index as int) {
            Err(e) => Err(e),
            Ok(amount) => match mul_spec(amount, price) {
                Err(e) => Err(e),
                Ok(value) => mul_spec(value, r.liquidation_threshold as int),
            },
        }
    }
}

/// Value of a position's debt: `amount × price`.
pub open spec fn debt_term(r: Reserve, p: UserAssetPosition, price: int) -> Result<int, MathError> {
    match mul_spec(p.scaled_debt_amount as int, r.borrow_index as int) {
        Err(e) => Err(e),
        Ok(amount) => mul_spec(amount, price),
    }
}

/// The debt term or the collateral term of one position.
pub open spec fn term(r: Reserve, p: UserAssetPosition, price: int, debt: bool) -> Result<int, MathError> {
    if debt {
        debt_term(r, p, price)
    } else {
        collateral_term(r, p, price)
    }
}

/// Sum of the first `n` terms, added left to right; fails at the first term or partial sum
/// that does not fit.
pub open spec fn sum_terms(
    rs: Seq<Reserve>,
    ps: Seq<UserAssetPosition>,
    prices: Seq<u128>,
    n: nat,
    debt: bool,
) -> Result<int, MathError>
    decreases n,
{
    if n == 0 {
        Ok(0)
    } else {
        match sum_terms(rs, ps, prices, (n - 1) as nat, debt) {
            Err(e) => Err(e),
            Ok(s) => match term(rs[n - 1], ps[n - 1], prices[n - 1] as int, debt) {
                Err(e) => Err(e),
                Ok(t) => if s + t > u128::MAX {
                    Err(MathError::Overflow)
                } else {
                    Ok(s + t)
                },
            },
        }
    }
}

/// Whether the health factor `weighted collateral / debt` is at least one (or there is no
/// debt): the weighted collateral covers the debt.
pub open spec fn health_spec(rs: Seq<Reserve>, ps: Seq<UserAssetPosition>, prices: Seq<u128>) -> Result<bool, MathError> {
    match sum_terms(rs, ps, prices, rs.len(), false) {
        Err(e) => Err(e),
        Ok(c) => match sum_terms(rs, ps, prices, rs.len(), true) {
            Err(e) => Err(e),
            Ok(d) => Ok(c >= d),
        },
    }
}

proof fn lemma_sum_err_sticks(
    rs: Seq<Reserve>,
    ps: Seq<UserAssetPosition>,
    prices: Seq<u128>,
    i: nat,
    n: nat,
    debt: bool,
)
    requires
        i <= n,
        sum_terms(rs, ps, prices, i, debt) is Err,
    ensures
        sum_terms(rs, ps, prices, n, debt) == sum_terms(rs, ps, prices, i, debt),
    decreases n - i,
{
    if i < n {
        lemma_sum_err_sticks(rs, ps, prices, i, (n - 1) as nat, debt);
    }
}

fn term_exec(r: &Reserve, p: &UserAssetPosition, price: u128, debt: bool) -> (t: Result<u128, MathError>)
    ensures
        as_int(t) == term(*r, *p, price as int, debt),
{
    if debt {
        let amount = decimal_mul(p.scaled_debt_amount, r.borrow_index)?;
        decimal_mul(amount, price)
    } else if !p.collateral_enabled {
        Ok(0)
    } else {
        let amount = decimal_mul(p.scaled_collateral_amount, r.liquidity_index)?;
        let value = decimal_mul(amount, price)?;
        decimal_mul(value, r.liquidation_threshold)
    }
}

fn sum_exec(
    rs: &Vec<Reserve>,
    ps: &Vec<UserAssetPosition>,
    prices: &Vec<u128>,
    debt: bool,
) -> (s: Result<u128, MathError>)
    requires
        ps@.len() == rs@.len(),
        prices@.len() == rs@.len(),
    ensures
        as_int(s) == sum_terms(rs@, ps@, prices@, rs@.len(), debt),
{
    let mut acc: u128 = 0;
    let mut i: usize = 0;
    while i < rs.len()
        invariant
            i <= rs@.len(),
            ps@.len() == rs@.len(),
            prices@.len() == rs@.len(),
            sum_terms(rs@, ps@, prices@, i as nat, debt) == Ok::<int, MathError>(acc as int),
        decreases rs@.len() - i,
    {
        let t = term_exec(&rs[i], &ps[i], prices[i], debt);
        match t {
            Err(e) => {
                proof {
                    lemma_sum_err_sticks(rs@, ps@, prices@, (i + 1) as nat, rs@.len(), debt);
                }
                return Err(e);
            },
            Ok(t) => match acc.checked_add(t) {
                Some(a) => {
                    acc = a;
                },
                None => {
                    proof {
                        lemma_sum_err_sticks(rs@, ps@, prices@, (i + 1) as nat, rs@.len(), debt);
                    }
                    return Err(MathError::Overflow);
                },
            },
        }
        i = i + 1;
    }
    Ok(acc)
}

/// Whether a user's weighted collateral covers their debt, at the reserves' current indices
/// and the given prices (one per asset).
pub fn is_healthy(rs: &Vec<Reserve>, ps: &Vec<UserAssetPosition>, prices: &Vec<u128>) -> (r: Result<bool, MathError>)
    requires
        ps@.len() == rs@.len(),
        prices@.len() == rs@.len(),
    ensures
        match r {
            Ok(b) => health_spec(rs@, ps@, prices@) == Ok::<bool, MathError>(b),
            Err(e) => health_spec(rs@, ps@, prices@) == Err::<bool, MathError>(e),
        },
{
    let c = sum_exec(rs, ps, prices, false)?;
    let d = sum_exec(rs, ps, prices, true)?;
    Ok(c >= d)
}

} // verus!
