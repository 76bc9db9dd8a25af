use vstd::prelude::*;
use crate::decimal::{decimal_div, decimal_mul, div_spec, mul_spec, MathError, DECIMAL_ONE};
use crate::error::LendingError;
use crate::position::{health_spec, is_healthy, UserAssetPosition};
use crate::pool::{lemma_div_back, lemma_update_wf, repaid_scaled, Pool, UserAccount};
use crate::reserve::{accrue_spec, lemma_accrue_monotone, refresh_spec, Reserve};

verus! {

/// The error of the pool that a fixed-point failure becomes.
pub open spec fn from_math(e: MathError) -> LendingError {
    match e {
        MathError::Overflow => LendingError::Overflow,
        MathError::DivisionByZero => LendingError::DivisionByZero,
    }
}

/// `(actual_debt_repaid, collateral_seized)` of a liquidation. The repayment is the smaller of
/// `repay` and `debt × close_factor`; it buys `repaid × debt_price / collateral_price ×
/// (1 + bonus)` of collateral. Where that exceeds the collateral available, all of it is
/// seized and the repayment shrinks in the same proportion.
pub open spec fn liquidation_amounts_spec(
    debt: int,
    close_factor: int,
    repay: int,
    debt_price: int,
    collateral_price: int,
    bonus: int,
    available: int,
) -> Result<(int, int), LendingError> {
    match mul_spec(debt, close_factor) {
        Err(e) => Err(from_math(e)),
        Ok(max_repayable) => {
            let actual = if repay < max_repayable {
                repay
            } else {
                max_repayable
            };
            match mul_spec(actual, debt_price) {
                Err(e) => Err(from_math(e)),
                Ok(value) => match div_spec(value, collateral_price) {
                    Err(e) => Err(from_math(e)),
                    Ok(base) => match mul_spec(base, DECIMAL_ONE + bonus) {
                        Err(e) => Err(from_math(e)),
                        Ok(seized) => if seized <= available {
                            Ok((actual, seized))
                        } else if actual * available > u128::MAX {
                            Err(LendingError::Overflow)
                        } else {
                            Ok((actual * available / seized, available))
                        },
                    },
                },
            }
        },
    }
}

proof fn lemma_scale_back(actual: int, available: int, seized: int)
    requires
        0 <= actual,
        0 <= available < seized,
    ensures
        actual * available / seized <= actual,
        0 <= actual * available / seized,
{
    assert(actual * available <= actual * seized) by (nonlinear_arith)
        requires
            0 <= actual,
            0 <= available < seized,
    ;
    assert(actual * available / seized <= actual * seized / seized) by (nonlinear_arith)
        requires
            actual * available <= actual * seized,
            seized > 0,
    ;
    assert(actual * seized / seized == actual) by (nonlinear_arith)
        requires
            seized > 0,
    ;
    assert(0 <= actual * available / seized) by (nonlinear_arith)
        requires
            0 <= actual,
            0 <= available,
            seized > 0,
    ;
}

/// Computes `(actual_debt_repaid, collateral_seized)` of a liquidation from the borrower's real
/// debt and available collateral. Nothing beyond the collateral is seized, and no more is
/// repaid than `debt × close_factor` or than was offered.
pub fn compute_liquidation_amounts(
    debt: u128,
    close_factor: u128,
    repay_amount: u128,
    debt_price: u128,
    collateral_price: u128,
    liquidation_bonus: u128,
    available_collateral: u128,
) -> (r: Result<(u128, u128), LendingError>)
    requires
        liquidation_bonus < DECIMAL_ONE,
    ensures
        match r {
            Ok((a, s)) => liquidation_amounts_spec(
                debt as int,
                close_factor as int,
                repay_amount as int,
                debt_price as int,
                collateral_price as int,
                liquidation_bonus as int,
                available_collateral as int,
            ) == Ok::<(int, int), LendingError>((a as int, s as int)),
            Err(e) => liquidation_amounts_spec(
                debt as int,
                close_factor as int,
                repay_amount as int,
                debt_price as int,
                collateral_price as int,
                liquidation_bonus as int,
                available_collateral as int,
            ) == Err::<(int, int), LendingError>(e),
        },
        r is Ok ==> {
            &&& r->Ok_0.1 <= available_collateral
            &&& r->Ok_0.0 <= repay_amount
            &&& mul_spec(debt as int, close_factor as int) is Ok
            &&& r->Ok_0.0 <= mul_spec(debt as int, close_factor as int)->Ok_0
        },
{
    let max_repayable = match decimal_mul(debt, close_factor) {
        Ok(m) => m,
        Err(_) => return Err(LendingError::Overflow),
    };
    let actual = if repay_amount < max_repayable {
        repay_amount
    } else {
        max_repayable
    };
    let value = match decimal_mul(actual, debt_price) {
        Ok(v) => v,
        Err(_) => return Err(LendingError::Overflow),
    };
    let base = match decimal_div(value, collateral_price) {
        Ok(b) => b,
        Err(MathError::DivisionByZero) => return Err(LendingError::DivisionByZero),
        Err(MathError::Overflow) => return Err(LendingError::Overflow),
    };
    let seized = match decimal_mul(base, DECIMAL_ONE + liquidation_bonus) {
        Ok(s) => s,
        Err(_) => return Err(LendingError::Overflow),
    };
    if seized <= available_collateral {
        return Ok((actual, seized));
    }
    match actual.checked_mul(available_collateral) {
        Some(p) => {
            proof {
                lemma_scale_back(actual as int, available_collateral as int, seized as int);
            }
            Ok((p / seized, available_collateral))
        },
        None => Err(LendingError::Overflow),
    }
}

/// Liquidation never seizes more collateral than is available, nor repays more than
/// `close_factor` of the debt.
pub proof fn lemma_liquidation_bounded(
    debt: int,
    close_factor: int,
    repay: int,
    debt_price: int,
    collateral_price: int,
    bonus: int,
    available: int,
)
    requires
        0 <= debt,
        0 <= close_factor,
        0 <= repay,
        0 <= debt_price,
        0 <= collateral_price,
        0 <= bonus,
        0 <= available,
    ensures
        liquidation_amounts_spec(debt, close_factor, repay, debt_price, collateral_price, bonus, available) is Ok
            ==> {
            let (a, s) = liquidation_amounts_spec(
                debt,
                close_factor,
                repay,
                debt_price,
                collateral_price,
                bonus,
                available,
            )->Ok_0;
            &&& 0 <= s <= available
            &&& 0 <= a <= repay
            &&& a <= debt * close_factor / DECIMAL_ONE as int
        },
{
    if let Ok(max_repayable) = mul_spec(debt, close_factor) {
        let actual = if repay < max_repayable {
            repay
        } else {
            max_repayable
        };
        assert(0 <= max_repayable) by (nonlinear_arith)
            requires
                max_repayable == debt * close_factor / DECIMAL_ONE as int,
                0 <= debt,
                0 <= close_factor,
        ;
        if let Ok(value) = mul_spec(actual, debt_price) {
            assert(0 <= value) by (nonlinear_arith)
                requires
                    value == actual * debt_price / DECIMAL_ONE as int,
                    0 <= actual,
                    0 <= debt_price,
            ;
            if let Ok(base) = div_spec(value, collateral_price) {
                assert(0 <= base) by (nonlinear_arith)
                    requires
                        base == value * DECIMAL_ONE as int / collateral_price,
                        0 <= value,
                        0 < collateral_price,
                ;
                if let Ok(seized) = mul_spec(base, DECIMAL_ONE + bonus) {
                    assert(0 <= seized) by (nonlinear_arith)
                        requires
                            seized == base * (DECIMAL_ONE + bonus) / DECIMAL_ONE as int,
                            0 <= base,
                            0 <= bonus,
                    ;
                    if seized > available {
                        lemma_scale_back(actual, available, seized);
                    }
                }
            }
        }
    }
}

/// Pool state, borrower and liquidator positions, and `(actual_debt_repaid, collateral_seized)`
/// after a liquidation, or why it is rejected.
pub type LiquidationOutcome = Result<
    (Seq<Reserve>, Seq<UserAssetPosition>, Seq<UserAssetPosition>, (int, int)),
    LendingError,
>;

/// `a - b`, or zero where `b` is larger.
pub open spec fn sat_sub(a: int, b: int) -> int {
    if a >= b {
        a - b
    } else {
        0
    }
}

/// Liquidation once both reserves are accrued and the preconditions hold. The borrower loses
/// the repaid debt and the seized collateral, in scaled units; the debt reserve receives the
/// repayment. The liquidator receives the seized collateral as scaled collateral credit when
/// `receive_ma_token` is set, else as funds paid out of the collateral reserve.
pub open spec fn liquidation_effects(
    rs: Seq<Reserve>,
    borrower: Seq<UserAssetPosition>,
    liquidator: Seq<UserAssetPosition>,
    close_factor: u128,
    prices: Seq<u128>,
    d: int,
    c: int,
    repay: u128,
    receive_ma_token: bool,
) -> LiquidationOutcome {
    let rd = rs[d];
    let rc = rs[c];
    let pd = borrower[d];
    let pc = borrower[c];
    match mul_spec(pd.scaled_debt_amount as int, rd.borrow_index as int) {
        Err(e) => Err(from_math(e)),
        Ok(debt) => match mul_spec(pc.scaled_collateral_amount as int, rc.liquidity_index as int) {
            Err(e) => Err(from_math(e)),
            Ok(avail) => match liquidation_amounts_spec(
                debt,
                close_factor as int,
                repay as int,
                prices[d] as int,
                prices[c] as int,
                rc.liquidation_bonus as int,
                avail,
            ) {
                Err(e) => Err(e),
                Ok((a, s)) => match div_spec(a, rd.borrow_index as int) {
                    Err(e) => Err(from_math(e)),
                    Ok(ds) => match div_spec(s, rc.liquidity_index as int) {
                        Err(e) => Err(from_math(e)),
                        Ok(cs) => {
                            let debt_removed = repaid_scaled(debt, a, pd.scaled_debt_amount as int, ds);
                            let coll_removed = repaid_scaled(
                                avail,
                                s,
                                pc.scaled_collateral_amount as int,
                                cs,
                            );
                            let b1 = borrower.update(
                                d,
                                UserAssetPosition {
                                    scaled_debt_amount: (pd.scaled_debt_amount - debt_removed) as u128,
                                    ..pd
                                },
                            );
                            let b2 = b1.update(
                                c,
                                UserAssetPosition {
                                    scaled_collateral_amount: (b1[c].scaled_collateral_amount
                                        - coll_removed) as u128,
                                    ..b1[c]
                                },
                            );
                            if rd.available_liquidity + a > u128::MAX {
                                Err(LendingError::Overflow)
                            } else {
                                match refresh_spec(
                                    Reserve {
                                        available_liquidity: (rd.available_liquidity + a) as u128,
                                        debt_total_scaled: sat_sub(
                                            rd.debt_total_scaled as int,
                                            debt_removed,
                                        ) as u128,
                                        ..rd
                                    },
                                ) {
                                    Err(e) => Err(e),
                                    Ok(rd2) => {
                                        let rs3 = rs.update(d, rd2);
                                        if receive_ma_token {
                                            let lc = liquidator[c];
                                            if lc.scaled_collateral_amount + coll_removed > u128::MAX {
                                                Err(LendingError::Overflow)
                                            } else {
                                                Ok(
                                                    (
                                                        rs3,
                                                        b2,
                                                        liquidator.update(
                                                            c,
                                                            UserAssetPosition {
                                                                scaled_collateral_amount: (
                                                                lc.scaled_collateral_amount
                                                                    + coll_removed) as u128,
                                                                ..lc
                                                            },
                                                        ),
                                                        (a, s),
                                                    ),
                                                )
                                            }
                                        } else {
                                            let rc3 = rs3[c];
                                            if s > rc3.available_liquidity {
                                                Err(LendingError::InsufficientLiquidity)
                                            } else {
                                                match refresh_spec(
                                                    Reserve {
                                                        available_liquidity: (rc3.available_liquidity
                                                            - s) as u128,
                                                        ..rc3
                                                    },
                                                ) {
                                                    Err(e) => Err(e),
                                                    Ok(rc4) => Ok(
                                                        (rs3.update(c, rc4), b2, liquidator, (a, s)),
                                                    ),
                                                }
                                            }
                                        }
                                    },
                                }
                            }
                        },
                    },
                },
            },
        },
    }
}

/// Liquidation of `borrower`'s debt in asset `d` against their collateral in asset `c`: both
/// reserves are accrued to `now`; the borrower must be unhealthy, owe something in `d` and
/// hold enabled collateral in `c`.
pub open spec fn liquidate_spec(
    rs: Seq<Reserve>,
    borrower: Seq<UserAssetPosition>,
    liquidator: Seq<UserAssetPosition>,
    close_factor: u128,
    prices: Seq<u128>,
    d: int,
    c: int,
    repay: u128,
    receive_ma_token: bool,
    now: u64,
) -> LiquidationOutcome {
    if !(0 <= d < rs.len()) || !(0 <= c < rs.len()) {
        Err(LendingError::UnknownAsset)
    } else if repay == 0 {
        Err(LendingError::InvalidAmount)
    } else {
        match accrue_spec(rs[d], now) {
            Err(e) => Err(e),
            Ok(rd) => {
                let rs1 = rs.update(d, rd);
                match accrue_spec(rs1[c], now) {
                    Err(e) => Err(e),
                    Ok(rc) => {
                        let rs2 = rs1.update(c, rc);
                        match health_spec(rs2, borrower, prices) {
                            Err(_) => Err(LendingError::Overflow),
                            Ok(true) => Err(LendingError::BorrowerSolvent),
                            Ok(false) => if borrower[d].scaled_debt_amount == 0 {
                                Err(LendingError::NoDebt)
                            } else if !borrower[c].collateral_enabled
                                || borrower[c].scaled_collateral_amount == 0 {
                                Err(LendingError::NoCollateral)
                            } else {
                                liquidation_effects(
                                    rs2,
                                    borrower,
                                    liquidator,
                                    close_factor,
                                    prices,
                                    d,
                                    c,
                                    repay,
                                    receive_ma_token,
                                )
                            },
                        }
                    },
                }
            },
        }
    }
}

proof fn lemma_mul_not_above(a: int, b: int)
    requires
        0 <= a,
        0 <= b <= DECIMAL_ONE,
    ensures
        a * b / DECIMAL_ONE as int <= a,
{
    let one = DECIMAL_ONE as int;
    assert(a * b <= a * one) by (nonlinear_arith)
        requires
            0 <= a,
            0 <= b <= one,
    ;
    assert(a * b / one <= a * one / one) by (nonlinear_arith)
        requires
            a * b <= a * one,
            one > 0,
    ;
    assert(a * one / one == a) by (nonlinear_arith)
        requires
            one > 0,
    ;
}

impl Pool {
    /// Liquidates part of `borrower`'s debt in `debt_asset`, seizing their collateral in
    /// `collateral_asset` for `liquidator`, at time `now` and the given prices. Returns
    /// `(actual_debt_repaid, collateral_seized)`.
    #[verifier::rlimit(100)]
    pub fn liquidate(
        &mut self,
        borrower: &mut UserAccount,
        liquidator: &mut UserAccount,
        debt_asset: usize,
        collateral_asset: usize,
        repay_amount: u128,
        prices: &Vec<u128>,
        receive_ma_token: bool,
        now: u64,
    ) -> (r: Result<(u128, u128), LendingError>)
        requires
            old(self).wf(),
            old(borrower).positions@.len() == old(self).reserves@.len(),
            old(liquidator).positions@.len() == old(self).reserves@.len(),
            prices@.len() == old(self).reserves@.len(),
        ensures
            final(self).wf(),
            final(self).close_factor == old(self).close_factor,
            final(borrower).positions@.len() == final(self).reserves@.len(),
            final(liquidator).positions@.len() == final(self).reserves@.len(),
            ({
                let o = liquidate_spec(
                    old(self).reserves@,
                    old(borrower).positions@,
                    old(liquidator).positions@,
                    old(self).close_factor,
                    prices@,
                    debt_asset as int,
                    collateral_asset as int,
                    repay_amount,
                    receive_ma_token,
                    now,
                );
                match r {
                    Ok((a, s)) => o == LiquidationOutcome::Ok(
                        (
                            final(self).reserves@,
                            final(borrower).positions@,
                            final(liquidator).positions@,
                            (a as int, s as int),
                        ),
                    ),
                    Err(e) => o == LiquidationOutcome::Err(e) && final(self).reserves@ == old(
                        self,
                    ).reserves@ && final(borrower).positions@ == old(borrower).positions@
                        && final(liquidator).positions@ == old(liquidator).positions@,
                }
            }),
    {
        let d = debt_asset;
        let c = collateral_asset;
        if d >= self.reserves.len() || c >= self.reserves.len() {
            return Err(LendingError::UnknownAsset);
        }
        if repay_amount == 0 {
            return Err(LendingError::InvalidAmount);
        }
        let ghost rs0 = self.reserves@;
        let mut rd = self.reserves[d];
        proof {
            lemma_accrue_monotone(rd, now);
        }
        rd.accrue(now)?;
        let mut rc = if c == d {
            rd
        } else {
            self.reserves[c]
        };
        proof {
            lemma_accrue_monotone(rc, now);
        }
        rc.accrue(now)?;
        // Health is judged on the accrued reserves; the pool is put back right after.
        let od = self.reserves[d];
        let oc = self.reserves[c];
        self.reserves.set(d, rd);
        self.reserves.set(c, rc);
        let ghost rs2 = self.reserves@;
        assert(rs2 =~= rs0.update(d as int, rd).update(c as int, rc));
        let healthy = is_healthy(&self.reserves, &borrower.positions, prices);
        self.reserves.set(c, oc);
        self.reserves.set(d, od);
        assert(self.reserves@ =~= rs0);
        match healthy {
            Err(_) => return Err(LendingError::Overflow),
            Ok(true) => return Err(LendingError::BorrowerSolvent),
            Ok(false) => {},
        }
        let pd = borrower.positions[d];
        if pd.scaled_debt_amount == 0 {
            return Err(LendingError::NoDebt);
        }
        let pc = borrower.positions[c];
        if !pc.collateral_enabled || pc.scaled_collateral_amount == 0 {
            return Err(LendingError::NoCollateral);
        }
        proof {
            lemma_update_wf(rs0, d as int, rd);
            lemma_update_wf(rs0.update(d as int, rd), c as int, rc);
            assert(rs2[d as int].wf() && rs2[c as int].wf());
            assert(rd == rs2[d as int] || c == d);
        }
        let rd = if c == d {
            rc
        } else {
            rd
        };
        let debt = match decimal_mul(pd.scaled_debt_amount, rd.borrow_index) {
            Ok(v) => v,
            Err(_) => return Err(LendingError::Overflow),
        };
        let avail = match decimal_mul(pc.scaled_collateral_amount, rc.liquidity_index) {
            Ok(v) => v,
            Err(_) => return Err(LendingError::Overflow),
        };
        let (a, s) = compute_liquidation_amounts(
            debt,
            self.close_factor,
            repay_amount,
            prices[d],
            prices[c],
            rc.liquidation_bonus,
            avail,
        )?;
        let ds = match decimal_div(a, rd.borrow_index) {
            Ok(v) => v,
            Err(_) => return Err(LendingError::Overflow),
        };
        let cs = match decimal_div(s, rc.liquidity_index) {
            Ok(v) => v,
            Err(_) => return Err(LendingError::Overflow),
        };
        proof {
            lemma_mul_not_above(debt as int, self.close_factor as int);
            lemma_div_back(a as int, pd.scaled_debt_amount as int, rd.borrow_index as int);
            lemma_div_back(s as int, pc.scaled_collateral_amount as int, rc.liquidity_index as int);
        }
        let debt_removed = if a == debt {
            pd.scaled_debt_amount
        } else {
            ds
        };
        let coll_removed = if s == avail {
            pc.scaled_collateral_amount
        } else {
            cs
        };
        let bd = UserAssetPosition { scaled_debt_amount: pd.scaled_debt_amount - debt_removed, ..pd };
        let b1c = if c == d {
            bd
        } else {
            pc
        };
        let bc = UserAssetPosition {
            scaled_collateral_amount: b1c.scaled_collateral_amount - coll_removed,
            ..b1c
        };
        let mut rd2 = rd;
        rd2.available_liquidity = match rd.available_liquidity.checked_add(a) {
            Some(v) => v,
            None => return Err(LendingError::Overflow),
        };
        rd2.debt_total_scaled = rd.debt_total_scaled.saturating_sub(debt_removed);
        rd2.refresh_rates()?;
        if receive_ma_token {
            let lc = liquidator.positions[c];
            let credited = match lc.scaled_collateral_amount.checked_add(coll_removed) {
                Some(v) => v,
                None => return Err(LendingError::Overflow),
            };
            proof {
                lemma_update_wf(rs2, d as int, rd2);
            }
            self.reserves.set(c, rc);
            self.reserves.set(d, rd2);
            borrower.positions.set(d, bd);
            borrower.positions.set(c, bc);
            liquidator.positions.set(c, UserAssetPosition { scaled_collateral_amount: credited, ..lc });
            assert(self.reserves@ =~= rs2.update(d as int, rd2));
        } else {
            let mut rc4 = if c == d {
                rd2
            } else {
                rc
            };
            if s > rc4.available_liquidity {
                return Err(LendingError::InsufficientLiquidity);
            }
            rc4.available_liquidity = rc4.available_liquidity - s;
            rc4.refresh_rates()?;
            proof {
                lemma_update_wf(rs2, d as int, rd2);
                lemma_update_wf(rs2.update(d as int, rd2), c as int, rc4);
            }
            self.reserves.set(d, rd2);
            self.reserves.set(c, rc4);
            borrower.positions.set(d, bd);
            borrower.positions.set(c, bc);
            assert(self.reserves@ =~= rs2.update(d as int, rd2).update(c as int, rc4));
        }
        Ok((a, s))
    }
}

} // verus!
