//! Accounting core of a collateralized lending pool: fixed-point arithmetic, the interest rate
//! model, per-asset reserve accrual, user positions with their health check, liquidation, and
//! the incentive emission index.

pub mod decimal;
pub mod error;
pub mod incentives;
pub mod liquidation;
pub mod msg;
pub mod pool;
pub mod position;
pub mod rates;
pub mod reserve;
pub mod vesting;
