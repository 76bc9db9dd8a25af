use vstd::prelude::*;

verus! {

/// Kind of an asset: a token contract or a native coin.
#[derive(Debug, Clone, Copy, PartialEq, Eq, Structural)]
pub enum AssetType {
    Cw20,
    Native,
}

/// An asset, named by its token contract address or its native denomination.
#[derive(Debug, Clone, PartialEq, Eq)]
pub enum Asset {
    Cw20 { contract_addr: String },
    Native { denom: String },
}

impl Asset {
    /// The kind of this asset.
    pub fn asset_type(&self) -> (r: AssetType)
        ensures
            r == (match self {
                Asset::Cw20 { .. } => AssetType::Cw20,
                Asset::Native { .. } => AssetType::Native,
            }),
    {
        match self {
            Asset::Cw20 { .. } => AssetType::Cw20,
            Asset::Native { .. } => AssetType::Native,
        }
    }
}

/// Migration takes no arguments.
#[derive(Debug, Clone, Copy, PartialEq, Eq, Structural)]
pub struct MigrateMsg {}

/// Risk parameters of a new reserve. Rates and ratios are fixed-point decimals.
#[derive(Debug, Clone, Copy, PartialEq, Eq, Structural)]
pub struct InitAssetParams {
    /// Borrow rate per second at full utilization.
    pub borrow_slope: u128,
    /// Largest share of collateral value that may be borrowed.
    pub loan_to_value: u128,
    /// Share of the interest kept by the protocol.
    pub reserve_factor: u128,
    /// Share of collateral value at which a loan is under-collateralized.
    pub liquidation_threshold: u128,
    /// Discount on collateral bought by a liquidator.
    pub liquidation_bonus: u128,
}

/// Global configuration of the pool.
#[derive(Debug, Clone, Copy, PartialEq, Eq, Structural)]
pub struct InitMsg {
    pub ma_token_code_id: u64,
    /// Largest share of a debt position that one liquidation may repay.
    pub close_factor: u128,
}

/// One debt position of a user, in real (interest-inclusive) units.
#[derive(Debug, Clone, PartialEq, Eq)]
pub struct DebtInfo {
    pub denom: String,
    pub amount: u128,
}

/// A token transfer handed on by a token contract, with its attached message bytes.
#[derive(Debug, Clone, PartialEq, Eq)]
pub struct Cw20ReceiveMsg {
    pub sender: String,
    pub amount: u128,
    pub msg: Vec<u8>,
}

} // verus!
