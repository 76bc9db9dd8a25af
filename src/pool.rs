use vstd::prelude::*;
use crate::decimal::{decimal_div, decimal_mul, div_spec, mul_spec, MathError, DECIMAL_ONE};
use crate::error::LendingError;
use crate::position::{health_spec, is_healthy, UserAssetPosition};
use crate::msg::{AssetType, InitAssetParams};
use crate::reserve::{
    accrue_spec, init_reserve as init_reserve_exec, init_reserve_spec, lemma_accrue_monotone, refresh_spec,
    Reserve,
};

verus! {

/// All reserves of the pool, indexed by asset, with the pool's global risk parameter.
#[derive(Debug, Clone)]
pub struct Pool {
    pub reserves: Vec<Reserve>,
    /// Largest share of one debt position that a single liquidation may repay.
    pub close_factor: u128,
}

/// One user's positions, indexed by asset like the pool's reserves.
#[derive(Debug, Clone)]
pub struct UserAccount {
    pub positions: Vec<UserAssetPosition>,
}

/// Every reserve is well-formed.
pub open spec fn reserves_wf(rs: Seq<Reserve>) -> bool {
    forall|i: int| 0 <= i < rs.len() ==> #[trigger] rs[i].wf()
}

/// The pool and user state that an operation produces, or why it is rejected.
pub type Outcome = Result<(Seq<Reserve>, Seq<UserAssetPosition>), LendingError>;

impl Pool {
    /// Every reserve is well-formed and the close factor is at most one.
    pub open spec fn wf(&self) -> bool {
        &&& reserves_wf(self.reserves@)
        &&& self.close_factor <= DECIMAL_ONE
    }

    /// An empty pool with the given close factor, which must not exceed one.
    pub fn new(close_factor: u128) -> (r: Result<Pool, LendingError>)
        ensures
            match r {
                Ok(p) => close_factor <= DECIMAL_ONE && p.wf() && p.reserves@.len() == 0
                    && p.close_factor == close_factor,
                Err(e) => close_factor > DECIMAL_ONE && e == LendingError::InvalidParams,
            },
    {
        if close_factor > DECIMAL_ONE {
            return Err(LendingError::InvalidParams);
        }
        Ok(Pool { reserves: Vec::new(), close_factor })
    }

    /// Registers a new asset at time `now`; returns its index.
    pub fn init_reserve(&mut self, asset_type: AssetType, params: InitAssetParams, now: u64) -> (r:
        Result<usize, LendingError>)
        requires
            old(self).wf(),
        ensures
            final(self).wf(),
            final(self).close_factor == old(self).close_factor,
            match r {
                Ok(i) => i == old(self).reserves@.len() && init_reserve_spec(asset_type, params, now)
                    == Ok::<Reserve, LendingError>(final(self).reserves@[i as int])
                    && final(self).reserves@ == old(self).reserves@.push(final(self).reserves@[i as int]),
                Err(e) => init_reserve_spec(asset_type, params, now) == Err::<Reserve, LendingError>(e)
                    && final(self).reserves@ == old(self).reserves@,
            },
    {
        let r = init_reserve_exec(asset_type, params, now)?;
        let i = self.reserves.len();
        self.reserves.push(r);
        proof {
            assert forall|j: int| 0 <= j < self.reserves@.len() implies #[trigger] self.reserves@[j].wf() by {
                if j < i {
                    assert(self.reserves@[j] == old(self).reserves@[j]);
                }
            }
        }
        Ok(i)
    }
}

impl UserAccount {
    /// An account with empty positions in `n` assets.
    pub fn new(n: usize) -> (r: UserAccount)
        ensures
            r.positions@ == Seq::new(n as nat, |i: int| empty_position()),
    {
        let mut v: Vec<UserAssetPosition> = Vec::new();
        let mut i: usize = 0;
        while i < n
            invariant
                i <= n,
                v@ == Seq::new(i as nat, |j: int| empty_position()),
            decreases n - i,
        {
            v.push(
                UserAssetPosition {
                    scaled_collateral_amount: 0,
                    scaled_debt_amount: 0,
                    collateral_enabled: false,
                    uncollateralized_loan_limit: None,
                },
            );
            i = i + 1;
            assert(v@ =~= Seq::new(i as nat, |j: int| empty_position()));
        }
        UserAccount { positions: v }
    }

    /// Sets or clears the uncollateralized loan limit of this user's position in `asset`.
    pub fn set_uncollateralized_loan_limit(&mut self, asset: usize, limit: Option<u128>) -> (r: Result<
        (),
        LendingError,
    >)
        ensures
            match r {
                Ok(()) => asset < old(self).positions@.len() && final(self).positions@
                    == old(self).positions@.update(
                    asset as int,
                    UserAssetPosition {
                        uncollateralized_loan_limit: limit,
                        ..old(self).positions@[asset as int]
                    },
                ),
                Err(e) => asset >= old(self).positions@.len() && e == LendingError::UnknownAsset
                    && final(self).positions@ == old(self).positions@,
            },
    {
        if asset >= self.positions.len() {
            return Err(LendingError::UnknownAsset);
        }
        let p = UserAssetPosition { uncollateralized_loan_limit: limit, ..self.positions[asset] };
        self.positions.set(asset, p);
        Ok(())
    }
}

/// A position with nothing in it.
pub open spec fn empty_position() -> UserAssetPosition {
    UserAssetPosition {
        scaled_collateral_amount: 0,
        scaled_debt_amount: 0,
        collateral_enabled: false,
        uncollateralized_loan_limit: None,
    }
}

/// Deposit: `amount / liquidity_index` is added to the user's scaled collateral and `amount`
/// to the reserve's funds. A first deposit enables the asset as collateral.
pub open spec fn deposit_spec(
    rs: Seq<Reserve>,
    ps: Seq<UserAssetPosition>,
    asset: int,
    amount: u128,
    now: u64,
) -> Outcome {
    if !(0 <= asset < rs.len()) {
        Err(LendingError::UnknownAsset)
    } else if amount == 0 {
        Err(LendingError::InvalidAmount)
    } else {
        match accrue_spec(rs[asset], now) {
            Err(e) => Err(e),
            Ok(r) => match div_spec(amount as int, r.liquidity_index as int) {
                Err(_) => Err(LendingError::Overflow),
                Ok(scaled) => {
                    let p = ps[asset];
                    if p.scaled_collateral_amount + scaled > u128::MAX || r.available_liquidity
                        + amount > u128::MAX {
                        Err(LendingError::Overflow)
                    } else {
                        match refresh_spec(
                            Reserve {
                                available_liquidity: (r.available_liquidity + amount) as u128,
                                ..r
                            },
                        ) {
                            Err(e) => Err(e),
                            Ok(r2) => Ok(
                                (
                                    rs.update(asset, r2),
                                    ps.update(
                                        asset,
                                        UserAssetPosition {
                                            scaled_collateral_amount: (p.scaled_collateral_amount
                                                + scaled) as u128,
                                            collateral_enabled: p.collateral_enabled
                                                || p.scaled_collateral_amount == 0,
                                            ..p
                                        },
                                    ),
                                ),
                            ),
                        }
                    }
                },
            },
        }
    }
}

/// Withdraw: `amount / liquidity_index` leaves the user's scaled collateral and `amount` the
/// reserve's funds; where the asset is enabled as collateral the user must stay healthy.
pub open spec fn withdraw_spec(
    rs: Seq<Reserve>,
    ps: Seq<UserAssetPosition>,
    prices: Seq<u128>,
    asset: int,
    amount: u128,
    now: u64,
) -> Outcome {
    if !(0 <= asset < rs.len()) {
        Err(LendingError::UnknownAsset)
    } else if amount == 0 {
        Err(LendingError::InvalidAmount)
    } else {
        match accrue_spec(rs[asset], now) {
            Err(e) => Err(e),
            Ok(r) => match div_spec(amount as int, r.liquidity_index as int) {
                Err(_) => Err(LendingError::Overflow),
                Ok(scaled) => {
                    let p = ps[asset];
                    if scaled > p.scaled_collateral_amount {
                        Err(LendingError::InsufficientBalance)
                    } else if amount > r.available_liquidity {
                        Err(LendingError::InsufficientLiquidity)
                    } else {
                        match refresh_spec(
                            Reserve {
                                available_liquidity: (r.available_liquidity - amount) as u128,
                                ..r
                            },
                        ) {
                            Err(e) => Err(e),
                            Ok(r2) => {
                                let rs2 = rs.update(asset, r2);
                                let ps2 = ps.update(
                                    asset,
                                    UserAssetPosition {
                                        scaled_collateral_amount: (p.scaled_collateral_amount
                                            - scaled) as u128,
                                        ..p
                                    },
                                );
                                gate_on_health(rs2, ps2, prices, p.collateral_enabled)
                            },
                        }
                    }
                },
            },
        }
    }
}

/// Borrow: `amount` leaves the reserve's funds and `amount / borrow_index` is added to the
/// user's and the reserve's scaled debt; the user must stay healthy, or, where the position has
/// an uncollateralized loan limit, its real debt must stay within the limit.
pub open spec fn borrow_spec(
    rs: Seq<Reserve>,
    ps: Seq<UserAssetPosition>,
    prices: Seq<u128>,
    asset: int,
    amount: u128,
    now: u64,
) -> Outcome {
    if !(0 <= asset < rs.len()) {
        Err(LendingError::UnknownAsset)
    } else if amount == 0 {
        Err(LendingError::InvalidAmount)
    } else {
        match accrue_spec(rs[asset], now) {
            Err(e) => Err(e),
            Ok(r) => if amount > r.available_liquidity {
                Err(LendingError::InsufficientLiquidity)
            } else {
                match div_spec(amount as int, r.borrow_index as int) {
                    Err(_) => Err(LendingError::Overflow),
                    Ok(scaled) => {
                        let p = ps[asset];
                        if p.scaled_debt_amount + scaled > u128::MAX || r.debt_total_scaled + scaled
                            > u128::MAX {
                            Err(LendingError::Overflow)
                        } else {
                            match refresh_spec(
                                Reserve {
                                    available_liquidity: (r.available_liquidity - amount) as u128,
                                    debt_total_scaled: (r.debt_total_scaled + scaled) as u128,
                                    ..r
                                },
                            ) {
                                Err(e) => Err(e),
                                Ok(r2) => {
                                    let new_debt = p.scaled_debt_amount + scaled;
                                    let rs2 = rs.update(asset, r2);
                                    let ps2 = ps.update(
                                        asset,
                                        UserAssetPosition {
                                            scaled_debt_amount: new_debt as u128,
                                            ..p
                                        },
                                    );
                                    match p.uncollateralized_loan_limit {
                                        None => gate_on_health(rs2, ps2, prices, true),
                                        Some(limit) => match mul_spec(new_debt, r2.borrow_index as int) {
                                            Err(_) => Err(LendingError::Overflow),
                                            Ok(debt) => if debt > limit {
                                                Err(LendingError::LoanLimitExceeded)
                                            } else {
                                                Ok((rs2, ps2))
                                            },
                                        },
                                    }
                                },
                            }
                        }
                    },
                }
            },
        }
    }
}

/// Scaled debt that a repayment of `amount` removes: all of it when the whole real debt is
/// repaid, else `amount / borrow_index`.
pub open spec fn repaid_scaled(debt: int, amount: int, scaled_debt: int, scaled: int) -> int {
    if amount == debt {
        scaled_debt
    } else {
        scaled
    }
}

/// Repay: `amount` returns to the reserve's funds and its scaled value leaves the user's and
/// the reserve's scaled debt. Repaying more than the real debt is rejected.
pub open spec fn repay_spec(
    rs: Seq<Reserve>,
    ps: Seq<UserAssetPosition>,
    asset: int,
    amount: u128,
    now: u64,
) -> Outcome {
    if !(0 <= asset < rs.len()) {
        Err(LendingError::UnknownAsset)
    } else if amount == 0 {
        Err(LendingError::InvalidAmount)
    } else {
        match accrue_spec(rs[asset], now) {
            Err(e) => Err(e),
            Ok(r) => {
                let p = ps[asset];
                match mul_spec(p.scaled_debt_amount as int, r.borrow_index as int) {
                    Err(_) => Err(LendingError::Overflow),
                    Ok(debt) => if amount > debt {
                        Err(LendingError::RepayExceedsDebt)
                    } else {
                        match div_spec(amount as int, r.borrow_index as int) {
                            Err(_) => Err(LendingError::Overflow),
                            Ok(scaled) => {
                                let removed = repaid_scaled(
                                    debt,
                                    amount as int,
                                    p.scaled_debt_amount as int,
                                    scaled,
                                );
                                if r.available_liquidity + amount > u128::MAX {
                                    Err(LendingError::Overflow)
                                } else {
                                    match refresh_spec(
                                        Reserve {
                                            available_liquidity: (r.available_liquidity + amount) as u128,
                                            debt_total_scaled: if r.debt_total_scaled >= removed {
                                                (r.debt_total_scaled - removed) as u128
                                            } else {
                                                0
                                            },
                                            ..r
                                        },
                                    ) {
                                        Err(e) => Err(e),
                                        Ok(r2) => Ok(
                                            (
                                                rs.update(asset, r2),
                                                ps.update(
                                                    asset,
                                                    UserAssetPosition {
                                                        scaled_debt_amount: (p.scaled_debt_amount
                                                            - removed) as u128,
                                                        ..p
                                                    },
                                                ),
                                            ),
                                        ),
                                    }
                                }
                            },
                        }
                    },
                }
            },
        }
    }
}

/// Enabling or disabling an asset as collateral; disabling must leave the user healthy.
pub open spec fn set_collateral_spec(
    rs: Seq<Reserve>,
    ps: Seq<UserAssetPosition>,
    prices: Seq<u128>,
    asset: int,
    enabled: bool,
    now: u64,
) -> Outcome {
    if !(0 <= asset < rs.len()) {
        Err(LendingError::UnknownAsset)
    } else {
        match accrue_spec(rs[asset], now) {
            Err(e) => Err(e),
            Ok(r) => gate_on_health(
                rs.update(asset, r),
                ps.update(asset, UserAssetPosition { collateral_enabled: enabled, ..ps[asset] }),
                prices,
                !enabled,
            ),
        }
    }
}

/// A deposit followed at the same moment by a withdrawal of the same amount leaves the user's
/// scaled collateral exactly where it was.
pub proof fn lemma_deposit_withdraw_round_trip(
    rs: Seq<Reserve>,
    ps: Seq<UserAssetPosition>,
    prices: Seq<u128>,
    asset: int,
    amount: u128,
    now: u64,
)
    requires
        reserves_wf(rs),
        ps.len() == rs.len(),
        deposit_spec(rs, ps, asset, amount, now) is Ok,
        withdraw_spec(
            deposit_spec(rs, ps, asset, amount, now)->Ok_0.0,
            deposit_spec(rs, ps, asset, amount, now)->Ok_0.1,
            prices,
            asset,
            amount,
            now,
        ) is Ok,
    ensures
        withdraw_spec(
            deposit_spec(rs, ps, asset, amount, now)->Ok_0.0,
            deposit_spec(rs, ps, asset, amount, now)->Ok_0.1,
            prices,
            asset,
            amount,
            now,
        )->Ok_0.1[asset].scaled_collateral_amount == ps[asset].scaled_collateral_amount,
{
    let r = accrue_spec(rs[asset], now)->Ok_0;
    let (rs1, ps1) = deposit_spec(rs, ps, asset, amount, now)->Ok_0;
    assert(r.interests_last_updated >= now);
    assert(rs1[asset].interests_last_updated == r.interests_last_updated);
    assert(rs1[asset].liquidity_index == r.liquidity_index);
    assert(accrue_spec(rs1[asset], now) == Ok::<Reserve, LendingError>(rs1[asset]));
}

/// Dividing back what a multiplication by `b` produced gives no more than the start.
pub proof fn lemma_div_back(a: int, s: int, b: int)
    requires
        0 <= a,
        0 <= s,
        DECIMAL_ONE <= b,
        a <= s * b / DECIMAL_ONE as int,
    ensures
        a * DECIMAL_ONE as int / b <= s,
{
    let one = DECIMAL_ONE as int;
    assert(a * one <= s * b) by (nonlinear_arith)
        requires
            a <= s * b / one,
            one > 0,
            s >= 0,
            b >= 0,
    ;
    assert(a * one / b <= s) by (nonlinear_arith)
        requires
            a * one <= s * b,
            b > 0,
            a >= 0,
    ;
}

/// Accepts the new state when no check is asked for or the user is healthy in it.
pub open spec fn gate_on_health(
    rs: Seq<Reserve>,
    ps: Seq<UserAssetPosition>,
    prices: Seq<u128>,
    check: bool,
) -> Outcome {
    if !check {
        Ok((rs, ps))
    } else {
        match health_spec(rs, ps, prices) {
            Err(_) => Err(LendingError::Overflow),
            Ok(false) => Err(LendingError::HealthCheckFailed),
            Ok(true) => Ok((rs, ps)),
        }
    }
}

/// The pool and account views are unchanged.
pub open spec fn unchanged(p0: Pool, p1: Pool, u0: UserAccount, u1: UserAccount) -> bool {
    &&& p1.reserves@ == p0.reserves@
    &&& u1.positions@ == u0.positions@
}

/// The pool and account views are the given outcome's state.
pub open spec fn produced(o: Outcome, p1: Pool, u1: UserAccount) -> bool {
    o == Outcome::Ok((p1.reserves@, u1.positions@))
}

pub proof fn lemma_update_wf(rs: Seq<Reserve>, i: int, r: Reserve)
    requires
        reserves_wf(rs),
        r.wf(),
        0 <= i < rs.len(),
    ensures
        reserves_wf(rs.update(i, r)),
{
    assert forall|j: int| 0 <= j < rs.len() implies #[trigger] rs.update(i, r)[j].wf() by {
        if j != i {
            assert(rs.update(i, r)[j] == rs[j]);
        }
    }
}

impl Pool {
    /// Writes an operation's result into the pool and the account; when `check` is set the user
    /// must be healthy in the new state, or everything is put back.
    fn commit(
        &mut self,
        user: &mut UserAccount,
        asset: usize,
        r: Reserve,
        p: UserAssetPosition,
        prices: &Vec<u128>,
        check: bool,
    ) -> (res: Result<(), LendingError>)
        requires
            old(self).wf(),
            r.wf(),
            asset < old(self).reserves@.len(),
            old(user).positions@.len() == old(self).reserves@.len(),
            check ==> prices@.len() == old(self).reserves@.len(),
        ensures
            final(self).wf(),
            final(self).close_factor == old(self).close_factor,
            final(user).positions@.len() == final(self).reserves@.len(),
            ({
                let o = gate_on_health(
                    old(self).reserves@.update(asset as int, r),
                    old(user).positions@.update(asset as int, p),
                    prices@,
                    check,
                );
                match res {
                    Ok(()) => produced(o, *final(self), *final(user)),
                    Err(e) => o == Outcome::Err(e) && unchanged(
                        *old(self),
                        *final(self),
                        *old(user),
                        *final(user),
                    ),
                }
            }),
    {
        let old_r = self.reserves[asset];
        let old_p = user.positions[asset];
        proof {
            lemma_update_wf(self.reserves@, asset as int, r);
        }
        self.reserves.set(asset, r);
        user.positions.set(asset, p);
        if check {
            let ok = match is_healthy(&self.reserves, &user.positions, prices) {
                Ok(b) => if b {
                    Ok(())
                } else {
                    Err(LendingError::HealthCheckFailed)
                },
                Err(_) => Err(LendingError::Overflow),
            };
            if ok.is_err() {
                self.reserves.set(asset, old_r);
                user.positions.set(asset, old_p);
                assert(self.reserves@ =~= old(self).reserves@);
                assert(user.positions@ =~= old(user).positions@);
            }
            ok
        } else {
            Ok(())
        }
    }

    /// Deposits `amount` of `asset` for `user` at time `now`.
    pub fn deposit(&mut self, user: &mut UserAccount, asset: usize, amount: u128, now: u64) -> (r:
        Result<(), LendingError>)
        requires
            old(self).wf(),
            old(user).positions@.len() == old(self).reserves@.len(),
        ensures
            final(self).wf(),
            final(self).close_factor == old(self).close_factor,
            final(user).positions@.len() == final(self).reserves@.len(),
            ({
                let o = deposit_spec(old(self).reserves@, old(user).positions@, asset as int, amount, now);
                match r {
                    Ok(()) => produced(o, *final(self), *final(user)),
                    Err(e) => o == Outcome::Err(e) && unchanged(*old(self), *final(self), *old(user), *final(user)),
                }
            }),
    {
        if asset >= self.reserves.len() {
            return Err(LendingError::UnknownAsset);
        }
        if amount == 0 {
            return Err(LendingError::InvalidAmount);
        }
        let mut r = self.reserves[asset];
        proof {
            lemma_accrue_monotone(r, now);
        }
        r.accrue(now)?;
        let scaled = match decimal_div(amount, r.liquidity_index) {
            Ok(s) => s,
            Err(_) => return Err(LendingError::Overflow),
        };
        let p = user.positions[asset];
        let coll = match p.scaled_collateral_amount.checked_add(scaled) {
            Some(v) => v,
            None => return Err(LendingError::Overflow),
        };
        let avail = match r.available_liquidity.checked_add(amount) {
            Some(v) => v,
            None => return Err(LendingError::Overflow),
        };
        r.available_liquidity = avail;
        r.refresh_rates()?;
        let np = UserAssetPosition {
            scaled_collateral_amount: coll,
            collateral_enabled: p.collateral_enabled || p.scaled_collateral_amount == 0,
            ..p
        };
        let no_prices: Vec<u128> = Vec::new();
        self.commit(user, asset, r, np, &no_prices, false)
    }
    /// Withdraws `amount` of `asset` for `user` at time `now`, at the given prices.
    pub fn withdraw(
        &mut self,
        user: &mut UserAccount,
        asset: usize,
        amount: u128,
        prices: &Vec<u128>,
        now: u64,
    ) -> (r: Result<(), LendingError>)
        requires
            old(self).wf(),
            old(user).positions@.len() == old(self).reserves@.len(),
            prices@.len() == old(self).reserves@.len(),
        ensures
            final(self).wf(),
            final(self).close_factor == old(self).close_factor,
            final(user).positions@.len() == final(self).reserves@.len(),
            ({
                let o = withdraw_spec(old(self).reserves@, old(user).positions@, prices@, asset as int, amount, now);
                match r {
                    Ok(()) => produced(o, *final(self), *final(user)),
                    Err(e) => o == Outcome::Err(e) && unchanged(*old(self), *final(self), *old(user), *final(user)),
                }
            }),
            r is Ok && old(user).positions@[asset as int].collateral_enabled ==> health_spec(
                final(self).reserves@,
                final(user).positions@,
                prices@,
            ) == Ok::<bool, MathError>(true),
    {
        if asset >= self.reserves.len() {
            return Err(LendingError::UnknownAsset);
        }
        if amount == 0 {
            return Err(LendingError::InvalidAmount);
        }
        let mut r = self.reserves[asset];
        proof {
            lemma_accrue_monotone(r, now);
        }
        r.accrue(now)?;
        let scaled = match decimal_div(amount, r.liquidity_index) {
            Ok(s) => s,
            Err(_) => return Err(LendingError::Overflow),
        };
        let p = user.positions[asset];
        if scaled > p.scaled_collateral_amount {
            return Err(LendingError::InsufficientBalance);
        }
        if amount > r.available_liquidity {
            return Err(LendingError::InsufficientLiquidity);
        }
        r.available_liquidity = r.available_liquidity - amount;
        r.refresh_rates()?;
        let np = UserAssetPosition {
            scaled_collateral_amount: p.scaled_collateral_amount - scaled,
            ..p
        };
        self.commit(user, asset, r, np, prices, p.collateral_enabled)
    }

    /// Borrows `amount` of `asset` for `user` at time `now`, at the given prices.
    pub fn borrow(
        &mut self,
        user: &mut UserAccount,
        asset: usize,
        amount: u128,
        prices: &Vec<u128>,
        now: u64,
    ) -> (r: Result<(), LendingError>)
        requires
            old(self).wf(),
            old(user).positions@.len() == old(self).reserves@.len(),
            prices@.len() == old(self).reserves@.len(),
        ensures
            final(self).wf(),
            final(self).close_factor == old(self).close_factor,
            final(user).positions@.len() == final(self).reserves@.len(),
            ({
                let o = borrow_spec(old(self).reserves@, old(user).positions@, prices@, asset as int, amount, now);
                match r {
                    Ok(()) => produced(o, *final(self), *final(user)),
                    Err(e) => o == Outcome::Err(e) && unchanged(*old(self), *final(self), *old(user), *final(user)),
                }
            }),
            r is Ok && old(user).positions@[asset as int].uncollateralized_loan_limit is None
                ==> health_spec(final(self).reserves@, final(user).positions@, prices@) == Ok::<
                bool,
                MathError,
            >(true),
    {
        if asset >= self.reserves.len() {
            return Err(LendingError::UnknownAsset);
        }
        if amount == 0 {
            return Err(LendingError::InvalidAmount);
        }
        let mut r = self.reserves[asset];
        proof {
            lemma_accrue_monotone(r, now);
        }
        r.accrue(now)?;
        if amount > r.available_liquidity {
            return Err(LendingError::InsufficientLiquidity);
        }
        let scaled = match decimal_div(amount, r.borrow_index) {
            Ok(s) => s,
            Err(_) => return Err(LendingError::Overflow),
        };
        let p = user.positions[asset];
        let debt = match p.scaled_debt_amount.checked_add(scaled) {
            Some(v) => v,
            None => return Err(LendingError::Overflow),
        };
        let total = match r.debt_total_scaled.checked_add(scaled) {
            Some(v) => v,
            None => return Err(LendingError::Overflow),
        };
        r.available_liquidity = r.available_liquidity - amount;
        r.debt_total_scaled = total;
        r.refresh_rates()?;
        let np = UserAssetPosition { scaled_debt_amount: debt, ..p };
        match p.uncollateralized_loan_limit {
            None => self.commit(user, asset, r, np, prices, true),
            Some(limit) => {
                let owed = match decimal_mul(debt, r.borrow_index) {
                    Ok(v) => v,
                    Err(_) => return Err(LendingError::Overflow),
                };
                if owed > limit {
                    return Err(LendingError::LoanLimitExceeded);
                }
                self.commit(user, asset, r, np, prices, false)
            },
        }
    }

    /// Repays `amount` of `user`'s debt in `asset` at time `now`.
    pub fn repay(&mut self, user: &mut UserAccount, asset: usize, amount: u128, now: u64) -> (r:
        Result<(), LendingError>)
        requires
            old(self).wf(),
            old(user).positions@.len() == old(self).reserves@.len(),
        ensures
            final(self).wf(),
            final(self).close_factor == old(self).close_factor,
            final(user).positions@.len() == final(self).reserves@.len(),
            ({
                let o = repay_spec(old(self).reserves@, old(user).positions@, asset as int, amount, now);
                match r {
                    Ok(()) => produced(o, *final(self), *final(user)),
                    Err(e) => o == Outcome::Err(e) && unchanged(*old(self), *final(self), *old(user), *final(user)),
                }
            }),
    {
        if asset >= self.reserves.len() {
            return Err(LendingError::UnknownAsset);
        }
        if amount == 0 {
            return Err(LendingError::InvalidAmount);
        }
        let mut r = self.reserves[asset];
        proof {
            lemma_accrue_monotone(r, now);
        }
        r.accrue(now)?;
        let p = user.positions[asset];
        let debt = match decimal_mul(p.scaled_debt_amount, r.borrow_index) {
            Ok(d) => d,
            Err(_) => return Err(LendingError::Overflow),
        };
        if amount > debt {
            return Err(LendingError::RepayExceedsDebt);
        }
        let scaled = match decimal_div(amount, r.borrow_index) {
            Ok(s) => s,
            Err(_) => return Err(LendingError::Overflow),
        };
        proof {
            lemma_div_back(amount as int, p.scaled_debt_amount as int, r.borrow_index as int);
        }
        let removed = if amount == debt {
            p.scaled_debt_amount
        } else {
            scaled
        };
        let avail = match r.available_liquidity.checked_add(amount) {
            Some(v) => v,
            None => return Err(LendingError::Overflow),
        };
        r.available_liquidity = avail;
        r.debt_total_scaled = r.debt_total_scaled.saturating_sub(removed);
        r.refresh_rates()?;
        let np = UserAssetPosition { scaled_debt_amount: p.scaled_debt_amount - removed, ..p };
        let no_prices: Vec<u128> = Vec::new();
        self.commit(user, asset, r, np, &no_prices, false)
    }

    /// Enables or disables `asset` as collateral for `user` at time `now`.
    pub fn set_collateral_enabled(
        &mut self,
        user: &mut UserAccount,
        asset: usize,
        enabled: bool,
        prices: &Vec<u128>,
        now: u64,
    ) -> (r: Result<(), LendingError>)
        requires
            old(self).wf(),
            old(user).positions@.len() == old(self).reserves@.len(),
            prices@.len() == old(self).reserves@.len(),
        ensures
            final(self).wf(),
            final(self).close_factor == old(self).close_factor,
            final(user).positions@.len() == final(self).reserves@.len(),
            ({
                let o = set_collateral_spec(old(self).reserves@, old(user).positions@, prices@, asset as int, enabled, now);
                match r {
                    Ok(()) => produced(o, *final(self), *final(user)),
                    Err(e) => o == Outcome::Err(e) && unchanged(*old(self), *final(self), *old(user), *final(user)),
                }
            }),
            r is Ok && !enabled ==> health_spec(final(self).reserves@, final(user).positions@, prices@)
                == Ok::<bool, MathError>(true),
    {
        if asset >= self.reserves.len() {
            return Err(LendingError::UnknownAsset);
        }
        let mut r = self.reserves[asset];
        proof {
            lemma_accrue_monotone(r, now);
        }
        r.accrue(now)?;
        let np = UserAssetPosition { collateral_enabled: enabled, ..user.positions[asset] };
        self.commit(user, asset, r, np, prices, !enabled)
    }
}

} // verus!
