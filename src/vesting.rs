use vstd::prelude::*;

verus! {

/// A token unlocking schedule, in seconds.
#[derive(Debug, Clone, Copy, PartialEq, Eq, Structural)]
pub struct Schedule {
    /// Time when vesting/unlocking starts.
    pub start_time: u64,
    /// Time before which no token is vested/unlocked.
    pub cliff: u64,
    /// Duration of the vesting/unlocking process; at `start_time + duration` the tokens are
    /// vested/unlocked in full.
    pub duration: u64,
}

/// Configuration of the vesting contract.
#[derive(Debug, Clone, PartialEq, Eq)]
pub struct Config {
    /// Address of the address provider.
    pub address_provider_address: String,
    /// Schedule for token unlocking, the same for all users.
    pub unlock_schedule: Schedule,
}

/// A recipient's allocation.
#[derive(Debug, Clone, Copy, PartialEq, Eq, Structural)]
pub struct Allocation {
    /// Total amount allocated.
    pub allocated_amount: u128,
    /// Amount already withdrawn.
    pub withdrawn_amount: u128,
    /// The user's vesting schedule.
    pub vest_schedule: Schedule,
}

} // verus!
