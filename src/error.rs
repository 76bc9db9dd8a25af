use vstd::prelude::*;

verus! {

/// Why an operation of the pool was rejected. A rejected operation changes nothing.
#[derive(Debug, Clone, Copy, PartialEq, Eq, Structural)]
pub enum LendingError {
    /// A zero amount, or an amount that does not apply.
    InvalidAmount,
    /// The asset index names no reserve.
    UnknownAsset,
    /// Reserve parameters out of their ranges.
    InvalidParams,
    /// Fixed-point overflow while bringing indices up to date.
    AccrualOverflow,
    /// Fixed-point overflow while computing the operation's amounts.
    Overflow,
    /// Division by a zero price or index.
    DivisionByZero,
    /// More is withdrawn than the user holds.
    InsufficientBalance,
    /// The reserve does not hold enough unborrowed liquidity.
    InsufficientLiquidity,
    /// The user's health factor would fall below one.
    HealthCheckFailed,
    /// The debt would exceed the user's uncollateralized loan limit.
    LoanLimitExceeded,
    /// More is repaid than the user owes.
    RepayExceedsDebt,
    /// The borrower's health factor is at least one.
    BorrowerSolvent,
    /// The borrower owes nothing in the debt asset.
    NoDebt,
    /// The borrower has no enabled collateral in the collateral asset.
    NoCollateral,
}

} // verus!
