use mars::decimal::{decimal_div, decimal_mul, decimal_pow, one_plus_rate_pow, MathError, DECIMAL_ONE};
use mars::error::LendingError;
use mars::incentives::{claim_rewards, AssetIncentive, UserRewards};
use mars::liquidation::compute_liquidation_amounts;
use mars::msg::{Asset, AssetType, InitAssetParams, MigrateMsg};
use mars::pool::{Pool, UserAccount};
use mars::position::{is_healthy, UserAssetPosition};
use mars::rates::compute_rates;
use mars::reserve::init_reserve;
use mars::vesting::Schedule;

const ONE: u128 = DECIMAL_ONE;

fn params(slope: u128) -> InitAssetParams {
    InitAssetParams {
        borrow_slope: slope,
        loan_to_value: ONE / 2,
        reserve_factor: 0,
        liquidation_threshold: ONE * 6 / 10,
        liquidation_bonus: ONE / 10,
    }
}

/// Asset 0 is the collateral asset, asset 1 the debt asset; both with zero rates.
fn two_asset_pool() -> Pool {
    let mut pool = Pool::new(ONE / 2).unwrap();
    assert_eq!(pool.init_reserve(AssetType::Native, params(0), 0), Ok(0));
    assert_eq!(pool.init_reserve(AssetType::Cw20, params(0), 0), Ok(1));
    pool
}

#[test]
fn decimal_mul_rounds_down() {
    assert_eq!(decimal_mul(3 * ONE / 2, 3 * ONE / 2), Ok(9 * ONE / 4));
    assert_eq!(decimal_mul(1, ONE / 2), Ok(0));
    assert_eq!(decimal_mul(u128::MAX, 2 * ONE), Err(MathError::Overflow));
    // The raw product exceeds 128 bits, the result does not.
    assert_eq!(decimal_mul(512 * ONE, 2 * ONE), Ok(1024 * ONE));
    assert_eq!(decimal_mul(u128::MAX, 2), Ok(u128::MAX / ONE * 2 + (u128::MAX % ONE) * 2 / ONE));
}

#[test]
fn decimal_div_exact_and_errors() {
    assert_eq!(decimal_div(1, 3), Ok(333_333_333_333_333_333));
    assert_eq!(decimal_div(500, 10 * ONE), Ok(50));
    assert_eq!(decimal_div(5, 0), Err(MathError::DivisionByZero));
    assert_eq!(decimal_div(u128::MAX / 2, 1), Err(MathError::Overflow));
}

#[test]
fn decimal_pow_integer_exponent() {
    assert_eq!(decimal_pow(2 * ONE, 10), Ok(1024 * ONE));
    assert_eq!(decimal_pow(7 * ONE, 0), Ok(ONE));
    assert_eq!(decimal_pow(3 * ONE / 2, 3), Ok(3375 * ONE / 1000));
    assert_eq!(one_plus_rate_pow(ONE / 10, 2), Ok(121 * ONE / 100));
    assert_eq!(one_plus_rate_pow(0, 1_000_000), Ok(ONE));
    assert_eq!(decimal_pow(ONE * 1_000_000, 5), Err(MathError::Overflow));
}

#[test]
fn rates_follow_utilization() {
    // debt 500, funds 500: utilization one half.
    let r = compute_rates(ONE / 5, ONE / 10, 500, ONE, 500);
    assert_eq!(r, Ok((ONE / 10, ONE * 45 / 1000)));
    assert_eq!(compute_rates(ONE, 0, 0, ONE, 0), Ok((0, 0)));
}

#[test]
fn init_reserve_checks_params() {
    let mut p = params(0);
    p.liquidation_threshold = ONE / 4;
    assert_eq!(init_reserve(AssetType::Native, p, 0), Err(LendingError::InvalidParams));
    let r = init_reserve(AssetType::Cw20, params(0), 7).unwrap();
    assert_eq!(r.liquidity_index, ONE);
    assert_eq!(r.borrow_index, ONE);
    assert_eq!(r.interests_last_updated, 7);
    assert_eq!(Pool::new(ONE + 1).unwrap_err(), LendingError::InvalidParams);
}

fn busy_pool() -> (Pool, UserAccount) {
    let mut pool = Pool::new(ONE / 2).unwrap();
    pool.init_reserve(AssetType::Native, params(ONE / 50_000_000), 0).unwrap();
    let mut user = UserAccount::new(1);
    pool.deposit(&mut user, 0, 1_000_000_000, 0).unwrap();
    pool.borrow(&mut user, 0, 500_000_000, &vec![ONE], 0).unwrap();
    (pool, user)
}

#[test]
fn accrual_indices_never_decrease_and_repeat_is_noop() {
    let (pool, _) = busy_pool();
    let mut r = pool.reserves[0];
    assert!(r.borrow_rate > 0);
    let before = r;
    r.accrue(1000).unwrap();
    assert!(r.borrow_index > before.borrow_index);
    assert!(r.liquidity_index > before.liquidity_index);
    let once = r;
    r.accrue(1000).unwrap();
    assert_eq!(r, once);
    r.accrue(500).unwrap();
    assert_eq!(r, once);
}

#[test]
fn accrual_two_steps_close_to_one_step() {
    let (pool, _) = busy_pool();
    let mut direct = pool.reserves[0];
    direct.accrue(100_000).unwrap();
    let mut stepped = pool.reserves[0];
    stepped.accrue(50_000).unwrap();
    stepped.accrue(100_000).unwrap();
    let diff = direct.borrow_index.abs_diff(stepped.borrow_index);
    assert!(diff <= direct.borrow_index / 1_000_000);
    let diff = direct.liquidity_index.abs_diff(stepped.liquidity_index);
    assert!(diff <= direct.liquidity_index / 1_000_000);
}

#[test]
fn borrow_rate_compounds_exactly() {
    let mut pool = Pool::new(ONE / 2).unwrap();
    pool.init_reserve(AssetType::Native, params(ONE / 5), 0).unwrap();
    let mut user = UserAccount::new(1);
    pool.deposit(&mut user, 0, 1000, 0).unwrap();
    let mut r = pool.reserves[0];
    // No debt: no interest.
    r.accrue(3600).unwrap();
    assert_eq!(r.borrow_index, ONE);
    assert_eq!(r.borrow_rate, 0);
    // Set a rate of one tenth per second and accrue two seconds.
    r.borrow_rate = ONE / 10;
    r.accrue(3602).unwrap();
    assert_eq!(r.borrow_index, 121 * ONE / 100);
    assert_eq!(r.liquidity_index, ONE);
}

#[test]
fn deposit_then_withdraw_restores_scaled_balance() {
    let (mut pool, mut user) = busy_pool();
    let mut r = pool.reserves[0];
    r.accrue(12_345).unwrap();
    let before = user.positions[0].scaled_collateral_amount;
    pool.deposit(&mut user, 0, 777_777, 12_345).unwrap();
    assert!(user.positions[0].scaled_collateral_amount > before);
    pool.withdraw(&mut user, 0, 777_777, &vec![ONE], 12_345).unwrap();
    assert_eq!(user.positions[0].scaled_collateral_amount, before);
}

#[test]
fn deposit_rejects_bad_input() {
    let mut pool = two_asset_pool();
    let mut user = UserAccount::new(2);
    assert_eq!(pool.deposit(&mut user, 5, 10, 0), Err(LendingError::UnknownAsset));
    assert_eq!(pool.deposit(&mut user, 0, 0, 0), Err(LendingError::InvalidAmount));
    pool.deposit(&mut user, 0, 10, 0).unwrap();
    assert!(user.positions[0].collateral_enabled);
    assert_eq!(pool.reserves[0].available_liquidity, 10);
    assert_eq!(
        pool.withdraw(&mut user, 0, 11, &vec![ONE, ONE], 0),
        Err(LendingError::InsufficientBalance)
    );
}

fn funded(pool: &mut Pool) -> (UserAccount, UserAccount) {
    let mut lender = UserAccount::new(2);
    pool.deposit(&mut lender, 1, 10_000, 0).unwrap();
    let mut borrower = UserAccount::new(2);
    pool.deposit(&mut borrower, 0, 100, 0).unwrap();
    (lender, borrower)
}

#[test]
fn borrow_beyond_health_is_rejected_without_change() {
    let mut pool = two_asset_pool();
    let (_, mut borrower) = funded(&mut pool);
    let prices = vec![10 * ONE, ONE];
    let pool_before = pool.reserves.clone();
    let user_before = borrower.positions.clone();
    assert_eq!(pool.borrow(&mut borrower, 1, 601, &prices, 0), Err(LendingError::HealthCheckFailed));
    assert_eq!(pool.reserves, pool_before);
    assert_eq!(borrower.positions, user_before);
    pool.borrow(&mut borrower, 1, 600, &prices, 0).unwrap();
    assert_eq!(borrower.positions[1].scaled_debt_amount, 600);
    assert_eq!(pool.reserves[1].available_liquidity, 9_400);
    assert_eq!(pool.reserves[1].debt_total_scaled, 600);
    assert_eq!(is_healthy(&pool.reserves, &borrower.positions, &prices), Ok(true));
    assert_eq!(
        pool.borrow(&mut borrower, 1, 20_000, &prices, 0),
        Err(LendingError::InsufficientLiquidity)
    );
}

#[test]
fn withdraw_and_disable_guard_health() {
    let mut pool = two_asset_pool();
    let (_, mut borrower) = funded(&mut pool);
    let prices = vec![10 * ONE, ONE];
    pool.borrow(&mut borrower, 1, 300, &prices, 0).unwrap();
    assert_eq!(
        pool.withdraw(&mut borrower, 0, 60, &prices, 0),
        Err(LendingError::HealthCheckFailed)
    );
    pool.withdraw(&mut borrower, 0, 50, &prices, 0).unwrap();
    assert_eq!(borrower.positions[0].scaled_collateral_amount, 50);
    assert_eq!(
        pool.set_collateral_enabled(&mut borrower, 0, false, &prices, 0),
        Err(LendingError::HealthCheckFailed)
    );
    assert!(borrower.positions[0].collateral_enabled);
}

#[test]
fn repay_limits_and_full_repay() {
    let mut pool = two_asset_pool();
    let (_, mut borrower) = funded(&mut pool);
    let prices = vec![10 * ONE, ONE];
    pool.borrow(&mut borrower, 1, 300, &prices, 0).unwrap();
    assert_eq!(pool.repay(&mut borrower, 1, 301, 0), Err(LendingError::RepayExceedsDebt));
    pool.repay(&mut borrower, 1, 100, 0).unwrap();
    assert_eq!(borrower.positions[1].scaled_debt_amount, 200);
    pool.repay(&mut borrower, 1, 200, 0).unwrap();
    assert_eq!(borrower.positions[1].scaled_debt_amount, 0);
    assert_eq!(pool.reserves[1].debt_total_scaled, 0);
    assert_eq!(pool.reserves[1].available_liquidity, 10_000);
    pool.set_collateral_enabled(&mut borrower, 0, false, &prices, 0).unwrap();
    assert!(!borrower.positions[0].collateral_enabled);
}

#[test]
fn liquidation_caps_repayment_at_close_factor() {
    let r = compute_liquidation_amounts(1000, ONE / 2, 800, ONE, ONE, 0, 1_000_000);
    assert_eq!(r, Ok((500, 500)));
    let r = compute_liquidation_amounts(1000, ONE / 2, 200, ONE, ONE, 0, 1_000_000);
    assert_eq!(r, Ok((200, 200)));
}

#[test]
fn liquidation_seizes_with_bonus() {
    let r = compute_liquidation_amounts(1000, ONE / 2, 500, ONE, 10 * ONE, ONE / 10, 1000);
    assert_eq!(r, Ok((500, 55)));
}

#[test]
fn liquidation_scales_back_when_collateral_short() {
    // 55 would be seized, only 11 is there: a fifth of the repayment goes through.
    let r = compute_liquidation_amounts(1000, ONE / 2, 500, ONE, 10 * ONE, ONE / 10, 11);
    assert_eq!(r, Ok((100, 11)));
    let r = compute_liquidation_amounts(1000, ONE / 2, 500, ONE, 0, 0, 11);
    assert_eq!(r, Err(LendingError::DivisionByZero));
}

#[test]
fn pool_liquidation_moves_debt_and_collateral() {
    let mut pool = two_asset_pool();
    let (_, mut borrower) = funded(&mut pool);
    let mut liquidator = UserAccount::new(2);
    pool.borrow(&mut borrower, 1, 500, &vec![10 * ONE, ONE], 0).unwrap();
    let healthy_prices = vec![10 * ONE, ONE];
    assert_eq!(
        pool.liquidate(&mut borrower, &mut liquidator, 1, 0, 100, &healthy_prices, true, 0),
        Err(LendingError::BorrowerSolvent)
    );
    let prices = vec![5 * ONE, ONE];
    assert_eq!(
        pool.liquidate(&mut borrower, &mut liquidator, 1, 0, 0, &prices, true, 0),
        Err(LendingError::InvalidAmount)
    );
    assert_eq!(
        pool.liquidate(&mut borrower, &mut liquidator, 0, 0, 100, &prices, true, 0),
        Err(LendingError::NoDebt)
    );
    assert_eq!(
        pool.liquidate(&mut borrower, &mut liquidator, 1, 1, 100, &prices, true, 0),
        Err(LendingError::NoCollateral)
    );
    let r = pool.liquidate(&mut borrower, &mut liquidator, 1, 0, 800, &prices, true, 0);
    assert_eq!(r, Ok((250, 55)));
    assert_eq!(borrower.positions[1].scaled_debt_amount, 250);
    assert_eq!(borrower.positions[0].scaled_collateral_amount, 45);
    assert_eq!(liquidator.positions[0].scaled_collateral_amount, 55);
    assert_eq!(pool.reserves[1].available_liquidity, 10_000 - 500 + 250);
    assert_eq!(pool.reserves[1].debt_total_scaled, 250);
}

#[test]
fn pool_liquidation_pays_out_underlying() {
    let mut pool = two_asset_pool();
    let (_, mut borrower) = funded(&mut pool);
    let mut liquidator = UserAccount::new(2);
    pool.borrow(&mut borrower, 1, 500, &vec![10 * ONE, ONE], 0).unwrap();
    let prices = vec![5 * ONE, ONE];
    let r = pool.liquidate(&mut borrower, &mut liquidator, 1, 0, 100, &prices, false, 0);
    assert_eq!(r, Ok((100, 22)));
    assert_eq!(pool.reserves[0].available_liquidity, 78);
    assert_eq!(liquidator.positions[0].scaled_collateral_amount, 0);
}

#[test]
fn incentive_index_shares_emission() {
    let mut inc = AssetIncentive { emission_per_second: 100, index: 0, last_updated: 0 };
    inc.accrue(0, 5).unwrap();
    assert_eq!(inc, AssetIncentive { emission_per_second: 100, index: 0, last_updated: 5 });
    inc.accrue(1000, 15).unwrap();
    assert_eq!(inc.index, ONE);
    assert_eq!(inc.last_updated, 15);
    inc.accrue(1000, 10).unwrap();
    assert_eq!(inc.index, ONE);
}

#[test]
fn equal_holders_earn_equal_rewards() {
    let mut inc = AssetIncentive { emission_per_second: 7, index: 0, last_updated: 0 };
    let mut a = UserRewards::new(1);
    let mut b = UserRewards::new(1);
    inc.accrue(3, 10).unwrap();
    a.settle_user(0, &inc, 1).unwrap();
    inc.accrue(3, 25).unwrap();
    a.settle_user(0, &inc, 1).unwrap();
    b.settle_user(0, &inc, 1).unwrap();
    assert_eq!(a.unclaimed, b.unclaimed);
    assert!(a.unclaimed > 0);
}

#[test]
fn claim_zeroes_and_repeats_to_zero() {
    let mut inc = AssetIncentive { emission_per_second: 100, index: 0, last_updated: 0 };
    let mut u = UserRewards::new(2);
    inc.accrue(1000, 10).unwrap();
    u.settle_user(1, &inc, 500).unwrap();
    assert_eq!(u.asset_indices[1], ONE);
    assert_eq!(u.claim(), 500);
    assert_eq!(u.unclaimed, 0);
    assert_eq!(u.claim(), 0);
}

#[test]
fn message_types() {
    let a = Asset::Native { denom: String::from("uusd") };
    assert_eq!(a.asset_type(), AssetType::Native);
    let b = Asset::Cw20 { contract_addr: String::from("token") };
    assert_eq!(b.asset_type(), AssetType::Cw20);
    assert_eq!(MigrateMsg {}, MigrateMsg {});
    let s = Schedule { start_time: 1, cliff: 2, duration: 3 };
    assert_eq!(s.duration, 3);
    let p = UserAssetPosition {
        scaled_collateral_amount: 0,
        scaled_debt_amount: 0,
        collateral_enabled: false,
        uncollateralized_loan_limit: None,
    };
    assert_eq!(UserAccount::new(1).positions[0], p);
}

#[test]
fn claim_rewards_settles_every_asset() {
    let mut incs = vec![
        AssetIncentive { emission_per_second: 100, index: 0, last_updated: 0 },
        AssetIncentive { emission_per_second: 10, index: 0, last_updated: 0 },
    ];
    let mut user = UserRewards::new(2);
    // Asset 0: 1000 tokens over 1000 scaled units, user holds 500 -> 500.
    // Asset 1: 100 tokens over 50 scaled units, user holds 25 -> 50.
    let paid = claim_rewards(&mut incs, &mut user, &vec![500, 25], &vec![1000, 50], 10).unwrap();
    assert_eq!(paid, 550);
    assert_eq!(user.unclaimed, 0);
    assert_eq!(user.asset_indices, vec![ONE, 2 * ONE]);
    assert_eq!(incs[1].index, 2 * ONE);
    assert_eq!(incs[1].last_updated, 10);
    let again = claim_rewards(&mut incs, &mut user, &vec![500, 25], &vec![1000, 50], 10).unwrap();
    assert_eq!(again, 0);
}

#[test]
fn claim_rewards_overflow_changes_nothing() {
    let mut incs = vec![
        AssetIncentive { emission_per_second: 1, index: 0, last_updated: 0 },
        AssetIncentive { emission_per_second: u128::MAX, index: 0, last_updated: 0 },
    ];
    let before = incs.clone();
    let mut user = UserRewards::new(2);
    let r = claim_rewards(&mut incs, &mut user, &vec![1, 1], &vec![1, 1], 10);
    assert_eq!(r, Err(LendingError::Overflow));
    assert_eq!(incs, before);
    assert_eq!(user.asset_indices, vec![0, 0]);
}

#[test]
fn idle_reserve_only_moves_time() {
    let mut pool = Pool::new(ONE / 2).unwrap();
    pool.init_reserve(AssetType::Native, params(ONE / 5), 0).unwrap();
    let mut direct = pool.reserves[0];
    let mut stepped = pool.reserves[0];
    direct.accrue(200).unwrap();
    stepped.accrue(100).unwrap();
    stepped.accrue(200).unwrap();
    assert_eq!(direct, stepped);
    assert_eq!(direct.interests_last_updated, 200);
    assert_eq!(direct.borrow_index, ONE);
}

#[test]
fn uncollateralized_limit_replaces_health_check() {
    let mut pool = two_asset_pool();
    let (_, _) = funded(&mut pool);
    let prices = vec![10 * ONE, ONE];
    let mut trusted = UserAccount::new(2);
    assert_eq!(pool.borrow(&mut trusted, 1, 10, &prices, 0), Err(LendingError::HealthCheckFailed));
    assert_eq!(trusted.set_uncollateralized_loan_limit(7, Some(1)), Err(LendingError::UnknownAsset));
    trusted.set_uncollateralized_loan_limit(1, Some(300)).unwrap();
    pool.borrow(&mut trusted, 1, 200, &prices, 0).unwrap();
    assert_eq!(trusted.positions[1].scaled_debt_amount, 200);
    assert_eq!(pool.borrow(&mut trusted, 1, 101, &prices, 0), Err(LendingError::LoanLimitExceeded));
    pool.borrow(&mut trusted, 1, 100, &prices, 0).unwrap();
    assert_eq!(trusted.positions[1].scaled_debt_amount, 300);
}
