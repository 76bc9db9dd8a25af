use vstd::prelude::*;
use crate::decimal::{
    compound_spec, decimal_mul, div_spec, lemma_compound_at_least_one, lemma_mul_not_below,
    lemma_pow_of_one, mul_spec, one_plus_rate_pow, MathError, DECIMAL_ONE,
};
use crate::error::LendingError;
use crate::msg::{AssetType, InitAssetParams};
use crate::rates::{compute_rates, rates_spec};

verus! {

/// Interest-accrual state of one asset. Indices, rates and ratios are fixed-point decimals;
/// amounts are integers in the asset's smallest unit.
#[derive(Debug, Clone, Copy, PartialEq, Eq, Structural)]
pub struct Reserve {
    pub asset_type: AssetType,
    /// Multiplier from scaled collateral to real collateral.
    pub liquidity_index: u128,
    /// Multiplier from scaled debt to real debt.
    pub borrow_index: u128,
    /// Current borrow rate per second.
    pub borrow_rate: u128,
    /// Current liquidity rate per second.
    pub liquidity_rate: u128,
    /// Time of the last accrual, in seconds.
    pub interests_last_updated: u64,
    /// Sum of all users' scaled debt.
    pub debt_total_scaled: u128,
    /// Funds held by the reserve and not lent out.
    pub available_liquidity: u128,
    pub borrow_slope: u128,
    pub loan_to_value: u128,
    pub liquidation_threshold: u128,
    pub liquidation_bonus: u128,
    pub reserve_factor: u128,
}

/// The parameter ranges a reserve is created with.
pub open spec fn params_valid(p: InitAssetParams) -> bool {
    &&& p.loan_to_value <= p.liquidation_threshold
    &&& p.liquidation_bonus < DECIMAL_ONE
    &&& p.reserve_factor <= DECIMAL_ONE
}

impl Reserve {
    /// Well-formedness: indices at least one and parameters in range.
    pub open spec fn wf(self) -> bool {
        &&& self.liquidity_index >= DECIMAL_ONE
        &&& self.borrow_index >= DECIMAL_ONE
        &&& self.loan_to_value <= self.liquidation_threshold
        &&& self.liquidation_bonus < DECIMAL_ONE
        &&& self.reserve_factor <= DECIMAL_ONE
    }

    /// Real amount of `scaled` collateral at the current liquidity index.
    pub open spec fn collateral_real(self, scaled: int) -> Result<int, MathError> {
        mul_spec(scaled, self.liquidity_index as int)
    }

    /// Real amount of `scaled` debt at the current borrow index.
    pub open spec fn debt_real(self, scaled: int) -> Result<int, MathError> {
        mul_spec(scaled, self.borrow_index as int)
    }
}

/// The reserve with its rates recomputed from its current indices and totals.
pub open spec fn refresh_spec(r: Reserve) -> Result<Reserve, LendingError> {
    match rates_spec(
        r.borrow_slope as int,
        r.reserve_factor as int,
        r.debt_total_scaled as int,
        r.borrow_index as int,
        r.available_liquidity as int,
    ) {
        Err(_) => Err(LendingError::AccrualOverflow),
        Ok((b, l)) => Ok(Reserve { borrow_rate: b as u128, liquidity_rate: l as u128, ..r }),
    }
}

/// The reserve brought forward to time `now`: both indices compound at their rates over the
/// elapsed seconds, then the rates are recomputed. A time not after the last accrual changes
/// nothing.
pub open spec fn accrue_spec(r: Reserve, now: u64) -> Result<Reserve, LendingError> {
    if now <= r.interests_last_updated {
        Ok(r)
    } else {
        let elapsed = (now - r.interests_last_updated) as nat;
        let bi = match compound_spec(r.borrow_rate as int, elapsed) {
            Err(e) => Err(e),
            Ok(f) => mul_spec(r.borrow_index as int, f),
        };
        let li = match compound_spec(r.liquidity_rate as int, elapsed) {
            Err(e) => Err(e),
            Ok(f) => mul_spec(r.liquidity_index as int, f),
        };
        match (bi, li) {
            (Ok(bi), Ok(li)) => refresh_spec(
                Reserve {
                    borrow_index: bi as u128,
                    liquidity_index: li as u128,
                    interests_last_updated: now,
                    ..r
                },
            ),
            _ => Err(LendingError::AccrualOverflow),
        }
    }
}

/// A new reserve at time `now` with both indices at one and nothing lent, or `InvalidParams`.
pub open spec fn init_reserve_spec(asset_type: AssetType, params: InitAssetParams, now: u64) -> Result<
    Reserve,
    LendingError,
> {
    if !params_valid(params) {
        Err(LendingError::InvalidParams)
    } else {
        Ok(
            Reserve {
                asset_type,
                liquidity_index: DECIMAL_ONE,
                borrow_index: DECIMAL_ONE,
                borrow_rate: 0,
                liquidity_rate: 0,
                interests_last_updated: now,
                debt_total_scaled: 0,
                available_liquidity: 0,
                borrow_slope: params.borrow_slope,
                loan_to_value: params.loan_to_value,
                liquidation_threshold: params.liquidation_threshold,
                liquidation_bonus: params.liquidation_bonus,
                reserve_factor: params.reserve_factor,
            },
        )
    }
}

/// Creates a reserve at time `now` with both indices at one and nothing lent.
pub fn init_reserve(asset_type: AssetType, params: InitAssetParams, now: u64) -> (r: Result<
    Reserve,
    LendingError,
>)
    ensures
        r == init_reserve_spec(asset_type, params, now),
        r is Ok ==> r->Ok_0.wf(),
{
    if params.loan_to_value > params.liquidation_threshold || params.liquidation_bonus
        >= DECIMAL_ONE || params.reserve_factor > DECIMAL_ONE {
        return Err(LendingError::InvalidParams);
    }
    Ok(
        Reserve {
            asset_type,
            liquidity_index: DECIMAL_ONE,
            borrow_index: DECIMAL_ONE,
            borrow_rate: 0,
            liquidity_rate: 0,
            interests_last_updated: now,
            debt_total_scaled: 0,
            available_liquidity: 0,
            borrow_slope: params.borrow_slope,
            loan_to_value: params.loan_to_value,
            liquidation_threshold: params.liquidation_threshold,
            liquidation_bonus: params.liquidation_bonus,
            reserve_factor: params.reserve_factor,
        },
    )
}

impl Reserve {
    /// Recomputes the rates from the current indices and totals; on failure nothing changes.
    pub fn refresh_rates(&mut self) -> (r: Result<(), LendingError>)
        requires
            old(self).wf(),
        ensures
            match r {
                Ok(()) => refresh_spec(*old(self)) == Ok::<Reserve, LendingError>(*final(self)),
                Err(e) => refresh_spec(*old(self)) == Err::<Reserve, LendingError>(e) && *final(self) == *old(self),
            },
            final(self).wf(),
    {
        match compute_rates(
            self.borrow_slope,
            self.reserve_factor,
            self.debt_total_scaled,
            self.borrow_index,
            self.available_liquidity,
        ) {
            Ok((b, l)) => {
                self.borrow_rate = b;
                self.liquidity_rate = l;
                Ok(())
            },
            Err(_) => Err(LendingError::AccrualOverflow),
        }
    }

    /// Brings the reserve forward to `now`; on failure nothing changes.
    pub fn accrue(&mut self, now: u64) -> (r: Result<(), LendingError>)
        requires
            old(self).wf(),
        ensures
            match r {
                Ok(()) => accrue_spec(*old(self), now) == Ok::<Reserve, LendingError>(*final(self)),
                Err(e) => accrue_spec(*old(self), now) == Err::<Reserve, LendingError>(e) && *final(self) == *old(self),
            },
            final(self).wf(),
            final(self).liquidity_index >= old(self).liquidity_index,
            final(self).borrow_index >= old(self).borrow_index,
            final(self).interests_last_updated >= old(self).interests_last_updated,
    {
        proof {
            lemma_accrue_monotone(*self, now);
        }
        if now <= self.interests_last_updated {
            return Ok(());
        }
        let elapsed = now - self.interests_last_updated;
        let bi = match one_plus_rate_pow(self.borrow_rate, elapsed) {
            Ok(f) => decimal_mul(self.borrow_index, f),
            Err(e) => Err(e),
        };
        let li = match one_plus_rate_pow(self.liquidity_rate, elapsed) {
            Ok(f) => decimal_mul(self.liquidity_index, f),
            Err(e) => Err(e),
        };
        match (bi, li) {
            (Ok(bi), Ok(li)) => {
                proof {
                    let e = elapsed as nat;
                    lemma_compound_at_least_one(self.borrow_rate as int, e);
                    lemma_compound_at_least_one(self.liquidity_rate as int, e);
                    if let Ok(f) = compound_spec(self.borrow_rate as int, e) {
                        lemma_mul_not_below(self.borrow_index as int, f);
                    }
                    if let Ok(f) = compound_spec(self.liquidity_rate as int, e) {
                        lemma_mul_not_below(self.liquidity_index as int, f);
                    }
                }
                let mut next = *self;
                next.borrow_index = bi;
                next.liquidity_index = li;
                next.interests_last_updated = now;
                next.refresh_rates()?;
                *self = next;
                Ok(())
            },
            _ => Err(LendingError::AccrualOverflow),
        }
    }
}

/// Accrual never lowers an index, never moves the accrual time back, and keeps the reserve
/// well-formed.
pub proof fn lemma_accrue_monotone(r: Reserve, now: u64)
    requires
        r.wf(),
    ensures
        accrue_spec(r, now) is Ok ==> {
            let n = accrue_spec(r, now)->Ok_0;
            &&& n.wf()
            &&& n.liquidity_index >= r.liquidity_index
            &&& n.borrow_index >= r.borrow_index
            &&& n.interests_last_updated >= r.interests_last_updated
        },
{
    if now > r.interests_last_updated {
        let elapsed = (now - r.interests_last_updated) as nat;
        lemma_compound_at_least_one(r.borrow_rate as int, elapsed);
        lemma_compound_at_least_one(r.liquidity_rate as int, elapsed);
        if let Ok(f) = compound_spec(r.borrow_rate as int, elapsed) {
            lemma_mul_not_below(r.borrow_index as int, f);
        }
        if let Ok(f) = compound_spec(r.liquidity_rate as int, elapsed) {
            lemma_mul_not_below(r.liquidity_index as int, f);
        }
    }
}

/// Indices never decrease over any sequence of accruals, and accruing a second time at the
/// same moment changes nothing.
pub proof fn lemma_accrue_sequence(r: Reserve, t1: u64, t2: u64)
    requires
        r.wf(),
        accrue_spec(r, t1) is Ok,
    ensures
        ({
            let r1 = accrue_spec(r, t1)->Ok_0;
            &&& r1.liquidity_index >= r.liquidity_index
            &&& r1.borrow_index >= r.borrow_index
            &&& accrue_spec(r1, t1) == Ok::<Reserve, LendingError>(r1)
            &&& accrue_spec(r1, t2) is Ok ==> {
                let r2 = accrue_spec(r1, t2)->Ok_0;
                &&& r2.liquidity_index >= r.liquidity_index
                &&& r2.borrow_index >= r.borrow_index
            }
        }),
{
    lemma_accrue_monotone(r, t1);
    let r1 = accrue_spec(r, t1)->Ok_0;
    lemma_accrue_monotone(r1, t2);
}

/// A reserve that lends nothing at zero rates.
pub open spec fn idle(r: Reserve) -> bool {
    r.borrow_rate == 0 && r.liquidity_rate == 0 && r.debt_total_scaled == 0
}

/// An idle reserve accrues to the same state in two steps as in one: only its accrual time
/// moves.
pub proof fn lemma_idle_two_steps(r: Reserve, t1: u64, t2: u64)
    requires
        r.wf(),
        idle(r),
        r.interests_last_updated <= t1 <= t2,
    ensures
        accrue_spec(r, t1) is Ok,
        accrue_spec(accrue_spec(r, t1)->Ok_0, t2) == accrue_spec(r, t2),
        accrue_spec(r, t2) == Ok::<Reserve, LendingError>(Reserve { interests_last_updated: t2, ..r }),
{
    lemma_idle_accrue(r, t1);
    lemma_idle_accrue(Reserve { interests_last_updated: t1, ..r }, t2);
    lemma_idle_accrue(r, t2);
}

proof fn lemma_idle_accrue(r: Reserve, t: u64)
    requires
        r.wf(),
        idle(r),
        r.interests_last_updated <= t,
    ensures
        accrue_spec(r, t) == Ok::<Reserve, LendingError>(Reserve { interests_last_updated: t, ..r }),
{
    if t > r.interests_last_updated {
        let e = (t - r.interests_last_updated) as nat;
        lemma_pow_of_one(e);
        let one = DECIMAL_ONE as int;
        assert(r.borrow_index as int * one / one == r.borrow_index) by (nonlinear_arith)
            requires
                one > 0,
        ;
        assert(r.liquidity_index as int * one / one == r.liquidity_index) by (nonlinear_arith)
            requires
                one > 0,
        ;
        assert(mul_spec(0, r.borrow_index as int) == Ok::<int, MathError>(0));
        assert(mul_spec(0, r.borrow_slope as int) == Ok::<int, MathError>(0));
        assert(mul_spec(0, 0) == Ok::<int, MathError>(0));
        assert(mul_spec(0, DECIMAL_ONE - r.reserve_factor) == Ok::<int, MathError>(0));
        if r.available_liquidity > 0 {
            assert(div_spec(0, r.available_liquidity as int) == Ok::<int, MathError>(0));
        }
        assert(Reserve { interests_last_updated: t, ..r } == Reserve {
            borrow_index: r.borrow_index as int as u128,
            liquidity_index: r.liquidity_index as int as u128,
            interests_last_updated: t,
            ..r
        });
    }
}

} // verus!
