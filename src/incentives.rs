use vstd::prelude::*;
use crate::decimal::{decimal_div, div_spec, MathError, DECIMAL_ONE};
use crate::error::LendingError;

verus! {

/// Emission state of one asset. `index` is the fixed-point reward per scaled unit accumulated
/// since the asset was registered.
#[derive(Debug, Clone, Copy, PartialEq, Eq, Structural)]
pub struct AssetIncentive {
    /// Reward tokens emitted per second.
    pub emission_per_second: u128,
    pub index: u128,
    /// Time of the last accrual, in seconds.
    pub last_updated: u64,
}

/// One user's reward ledger: the asset index each position last saw, and the rewards credited
/// but not yet paid, as a fixed-point token amount.
#[derive(Debug, Clone)]
pub struct UserRewards {
    pub asset_indices: Vec<u128>,
    pub unclaimed: u128,
}

/// The incentive brought forward to `now`: the seconds' emission is shared over the total
/// scaled supply; with no supply only the time moves.
pub open spec fn accrue_incentive_spec(inc: AssetIncentive, total_scaled_supply: u128, now: u64) -> Result<
    AssetIncentive,
    MathError,
> {
    if now <= inc.last_updated {
        Ok(inc)
    } else if total_scaled_supply == 0 {
        Ok(AssetIncentive { last_updated: now, ..inc })
    } else {
        let emitted = inc.emission_per_second * (now - inc.last_updated);
        if emitted > u128::MAX {
            Err(MathError::Overflow)
        } else {
            match div_spec(emitted, total_scaled_supply as int) {
                Err(e) => Err(e),
                Ok(step) => if inc.index + step > u128::MAX {
                    Err(MathError::Overflow)
                } else {
                    Ok(AssetIncentive { index: (inc.index + step) as u128, last_updated: now, ..inc })
                },
            }
        }
    }
}

/// `(unclaimed, user_index)` after crediting `balance × (index − user_index)`.
pub open spec fn settle_spec(unclaimed: int, user_index: int, index: int, balance: int) -> Result<
    (int, int),
    MathError,
> {
    let pending = balance * (index - user_index);
    if unclaimed + pending > u128::MAX {
        Err(MathError::Overflow)
    } else {
        Ok((unclaimed + pending, index))
    }
}

/// `(paid, left)` of a claim: the whole tokens are paid and the ledger is zeroed.
pub open spec fn claim_spec(unclaimed: int) -> (int, int) {
    (unclaimed / DECIMAL_ONE as int, 0)
}

impl AssetIncentive {
    /// Brings the emission index forward to `now`; on failure nothing changes.
    pub fn accrue(&mut self, total_scaled_supply: u128, now: u64) -> (r: Result<(), MathError>)
        ensures
            match r {
                Ok(()) => accrue_incentive_spec(*old(self), total_scaled_supply, now) == Ok::<
                    AssetIncentive,
                    MathError,
                >(*final(self)),
                Err(e) => accrue_incentive_spec(*old(self), total_scaled_supply, now) == Err::<
                    AssetIncentive,
                    MathError,
                >(e) && *final(self) == *old(self),
            },
            final(self).index >= old(self).index,
            final(self).last_updated >= old(self).last_updated,
            final(self).emission_per_second == old(self).emission_per_second,
    {
        if now <= self.last_updated {
            return Ok(());
        }
        if total_scaled_supply == 0 {
            self.last_updated = now;
            return Ok(());
        }
        let emitted = match self.emission_per_second.checked_mul((now - self.last_updated) as u128) {
            Some(v) => v,
            None => return Err(MathError::Overflow),
        };
        let step = decimal_div(emitted, total_scaled_supply)?;
        match self.index.checked_add(step) {
            Some(v) => {
                self.index = v;
                self.last_updated = now;
                Ok(())
            },
            None => Err(MathError::Overflow),
        }
    }
}

impl UserRewards {
    /// A ledger for `n` assets with nothing credited.
    pub fn new(n: usize) -> (r: UserRewards)
        ensures
            r.asset_indices@ == Seq::new(n as nat, |i: int| 0u128),
            r.unclaimed == 0,
    {
        let mut v: Vec<u128> = Vec::new();
        let mut i: usize = 0;
        while i < n
            invariant
                i <= n,
                v@ == Seq::new(i as nat, |j: int| 0u128),
            decreases n - i,
        {
            v.push(0);
            i = i + 1;
            assert(v@ =~= Seq::new(i as nat, |j: int| 0u128));
        }
        UserRewards { asset_indices: v, unclaimed: 0 }
    }

    /// Credits the rewards that `user_scaled_balance` earned in `asset` since this user last
    /// saw the incentive's index, and records the current index. On failure nothing changes.
    pub fn settle_user(&mut self, asset: usize, incentive: &AssetIncentive, user_scaled_balance: u128) -> (r:
        Result<(), LendingError>)
        requires
            asset < old(self).asset_indices@.len(),
            old(self).asset_indices@[asset as int] <= incentive.index,
        ensures
            final(self).asset_indices@.len() == old(self).asset_indices@.len(),
            match settle_spec(
                old(self).unclaimed as int,
                old(self).asset_indices@[asset as int] as int,
                incentive.index as int,
                user_scaled_balance as int,
            ) {
                Ok((u, i)) => r is Ok && final(self).unclaimed == u && final(self).asset_indices@
                    == old(self).asset_indices@.update(asset as int, i as u128),
                Err(_) => r == Err::<(), LendingError>(LendingError::Overflow)
                    && final(self).unclaimed == old(self).unclaimed
                    && final(self).asset_indices@ == old(self).asset_indices@,
            },
    {
        let seen = self.asset_indices[asset];
        let pending = match user_scaled_balance.checked_mul(incentive.index - seen) {
            Some(v) => v,
            None => return Err(LendingError::Overflow),
        };
        let total = match self.unclaimed.checked_add(pending) {
            Some(v) => v,
            None => return Err(LendingError::Overflow),
        };
        self.unclaimed = total;
        self.asset_indices.set(asset, incentive.index);
        Ok(())
    }

    /// Pays out the credited rewards: returns their whole-token part and zeroes the ledger.
    pub fn claim(&mut self) -> (r: u128)
        ensures
            (r as int, final(self).unclaimed as int) == claim_spec(old(self).unclaimed as int),
            final(self).asset_indices@ == old(self).asset_indices@,
    {
        let amount = self.unclaimed / DECIMAL_ONE;
        self.unclaimed = 0;
        amount
    }
}

/// Accrual of the first `n` incentives to `now` and settlement of the user's balance in each,
/// in asset order: the accrued incentives, the user's new indices and unclaimed total.
pub open spec fn settle_all_spec(
    incs: Seq<AssetIncentive>,
    seen: Seq<u128>,
    unclaimed: int,
    balances: Seq<u128>,
    totals: Seq<u128>,
    now: u64,
    n: nat,
) -> Result<(Seq<AssetIncentive>, Seq<u128>, int), LendingError>
    decreases n,
{
    if n == 0 {
        Ok((Seq::empty(), Seq::empty(), unclaimed))
    } else {
        match settle_all_spec(incs, seen, unclaimed, balances, totals, now, (n - 1) as nat) {
            Err(e) => Err(e),
            Ok((is, xs, u)) => match accrue_incentive_spec(incs[n - 1], totals[n - 1], now) {
                Err(_) => Err(LendingError::Overflow),
                Ok(inc) => match settle_spec(u, seen[n - 1] as int, inc.index as int, balances[n - 1] as int) {
                    Err(_) => Err(LendingError::Overflow),
                    Ok((u2, i2)) => Ok((is.push(inc), xs.push(i2 as u128), u2)),
                },
            },
        }
    }
}

proof fn lemma_settle_all_err_sticks(
    incs: Seq<AssetIncentive>,
    seen: Seq<u128>,
    unclaimed: int,
    balances: Seq<u128>,
    totals: Seq<u128>,
    now: u64,
    i: nat,
    n: nat,
)
    requires
        i <= n,
        settle_all_spec(incs, seen, unclaimed, balances, totals, now, i) is Err,
    ensures
        settle_all_spec(incs, seen, unclaimed, balances, totals, now, n) == settle_all_spec(
            incs,
            seen,
            unclaimed,
            balances,
            totals,
            now,
            i,
        ),
    decreases n - i,
{
    if i < n {
        lemma_settle_all_err_sticks(incs, seen, unclaimed, balances, totals, now, i, (n - 1) as nat);
    }
}

/// Brings every asset's incentive forward to `now` (with that asset's total scaled supply),
/// credits the user's scaled balance in each, then pays out the whole-token part of the
/// credited rewards and zeroes the ledger. On failure nothing changes.
pub fn claim_rewards(
    incentives: &mut Vec<AssetIncentive>,
    user: &mut UserRewards,
    balances: &Vec<u128>,
    totals: &Vec<u128>,
    now: u64,
) -> (r: Result<u128, LendingError>)
    requires
        old(user).asset_indices@.len() == old(incentives)@.len(),
        balances@.len() == old(incentives)@.len(),
        totals@.len() == old(incentives)@.len(),
        forall|i: int|
            0 <= i < old(incentives)@.len() ==> #[trigger] old(user).asset_indices@[i]
                <= old(incentives)@[i].index,
    ensures
        ({
            let o = settle_all_spec(
                old(incentives)@,
                old(user).asset_indices@,
                old(user).unclaimed as int,
                balances@,
                totals@,
                now,
                old(incentives)@.len(),
            );
            match r {
                Ok(paid) => o is Ok && final(incentives)@ == o->Ok_0.0 && final(user).asset_indices@
                    == o->Ok_0.1 && (paid as int, final(user).unclaimed as int) == claim_spec(
                    o->Ok_0.2,
                ),
                Err(e) => o == Err::<(Seq<AssetIncentive>, Seq<u128>, int), LendingError>(e)
                    && final(incentives)@ == old(incentives)@ && final(user).asset_indices@
                    == old(user).asset_indices@ && final(user).unclaimed == old(user).unclaimed,
            }
        }),
{
    let n = incentives.len();
    let mut new_incs: Vec<AssetIncentive> = Vec::new();
    let mut new_seen: Vec<u128> = Vec::new();
    let mut acc: u128 = user.unclaimed;
    let mut i: usize = 0;
    while i < n
        invariant
            n == incentives@.len(),
            i <= n,
            user.asset_indices@.len() == n,
            balances@.len() == n,
            totals@.len() == n,
            forall|j: int| 0 <= j < n ==> #[trigger] user.asset_indices@[j] <= incentives@[j].index,
            settle_all_spec(
                incentives@,
                user.asset_indices@,
                user.unclaimed as int,
                balances@,
                totals@,
                now,
                i as nat,
            ) == Ok::<(Seq<AssetIncentive>, Seq<u128>, int), LendingError>(
                (new_incs@, new_seen@, acc as int),
            ),
        decreases n - i,
    {
        let mut inc = incentives[i];
        let accrued = inc.accrue(totals[i], now);
        if accrued.is_err() {
            proof {
                lemma_settle_all_err_sticks(incentives@, user.asset_indices@, user.unclaimed as int, balances@, totals@, now, (i + 1) as nat, n as nat);
            }
            return Err(LendingError::Overflow);
        }
        let seen = user.asset_indices[i];
        let pending = match balances[i].checked_mul(inc.index - seen) {
            Some(v) => v,
            None => {
                proof {
                    lemma_settle_all_err_sticks(incentives@, user.asset_indices@, user.unclaimed as int, balances@, totals@, now, (i + 1) as nat, n as nat);
                }
                return Err(LendingError::Overflow);
            },
        };
        acc = match acc.checked_add(pending) {
            Some(v) => v,
            None => {
                proof {
                    lemma_settle_all_err_sticks(incentives@, user.asset_indices@, user.unclaimed as int, balances@, totals@, now, (i + 1) as nat, n as nat);
                }
                return Err(LendingError::Overflow);
            },
        };
        new_incs.push(inc);
        new_seen.push(inc.index);
        i = i + 1;
    }
    assert(incentives@.len() == n);
    *incentives = new_incs;
    user.asset_indices = new_seen;
    user.unclaimed = acc;
    Ok(user.claim())
}

/// Settling at an intermediate index and then at a later one credits exactly what settling once
/// at the later index does: users with equal balances over equal index growth earn equal
/// rewards, whenever they settle.
pub proof fn lemma_settle_split(unclaimed: int, i0: int, i1: int, i2: int, balance: int)
    requires
        0 <= unclaimed,
        0 <= balance,
        i0 <= i1 <= i2,
    ensures
        settle_spec(unclaimed, i0, i2, balance) is Ok ==> {
            &&& settle_spec(unclaimed, i0, i1, balance) is Ok
            &&& settle_spec(
                settle_spec(unclaimed, i0, i1, balance)->Ok_0.0,
                settle_spec(unclaimed, i0, i1, balance)->Ok_0.1,
                i2,
                balance,
            ) == settle_spec(unclaimed, i0, i2, balance)
        },
{
    assert(balance * (i1 - i0) + balance * (i2 - i1) == balance * (i2 - i0)) by (nonlinear_arith);
    assert(0 <= balance * (i1 - i0)) by (nonlinear_arith)
        requires
            0 <= balance,
            i0 <= i1,
    ;
    assert(0 <= balance * (i2 - i1)) by (nonlinear_arith)
        requires
            0 <= balance,
            i1 <= i2,
    ;
}

/// A claim leaves nothing to claim: a second claim right after pays zero and leaves zero.
pub proof fn lemma_claim_idempotent(unclaimed: int)
    requires
        0 <= unclaimed,
    ensures
        claim_spec(unclaimed).1 == 0,
        claim_spec(claim_spec(unclaimed).1) == (0int, 0int),
{
}

} // verus!
