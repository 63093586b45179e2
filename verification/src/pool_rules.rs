//! The rules of the pool: what each action makes of a pool's state, or why it is
//! refused.

use vstd::prelude::*;

use crate::delegator::{record_of, AccountId, Delegator};
use crate::pool_error::PoolError;
use crate::shares::{
    fee_on, fits, larger, less, shares_of_amount, shares_of_deposit, shares_of_fee, smaller,
    staked_after_ping, worth_of_shares,
};

verus! {

/// How long a stake is locked after an action: four epochs of 43200 seconds.
pub const LOCKUP_NS: u64 = 172_800_000_000_000;

/// How many epochs an unstaked balance unbonds.
pub const NUM_EPOCHS_TO_UNLOCK: u64 = 4;

/// Greatest deposit fee, in hundredths of a percent.
pub const MAX_DEPOSIT_FEE_BPS: u16 = 10;

/// Greatest claim fee, in hundredths of a percent.
pub const MAX_CLAIM_FEE_BPS: u16 = 1_000;

/// Least deposit: one whole token.
pub const MIN_STAKE: u128 = 1_000_000_000_000_000_000_000_000;

/// What the chain tells the pool about a call.
#[derive(Debug)]
pub struct CallContext {
    /// The account that calls.
    pub predecessor: AccountId,
    /// The amount that comes with the call.
    pub attached_deposit: u128,
    /// What the protocol has locked on the pool's account.
    pub locked_balance: u128,
    /// The time of the block.
    pub block_timestamp: u64,
    /// The epoch of the block.
    pub epoch_height: u64,
}

/// The state of a pool.
#[verifier::ext_equal]
pub struct PoolState {
    pub owner: Seq<char>,
    pub staking_key: Seq<u8>,
    pub deposit_fee_bps: u16,
    pub claim_fee_bps: u16,
    pub total_staked: int,
    pub total_shares: int,
    pub last_locked: int,
    pub delegators: Map<Seq<char>, Delegator>,
    pub paused: bool,
}

impl PoolState {
    /// The fees are within their bounds.
    pub open spec fn fees_bounded(self) -> bool {
        self.deposit_fee_bps <= MAX_DEPOSIT_FEE_BPS && self.claim_fee_bps <= MAX_CLAIM_FEE_BPS
    }

    /// The totals can be held in a `u128`, and the fees are within their bounds.
    pub open spec fn valid(self) -> bool {
        &&& fits(self.total_staked)
        &&& fits(self.total_shares)
        &&& fits(self.last_locked)
        &&& self.fees_bounded()
    }

    /// The record of an account, blank where there is none.
    pub open spec fn record(self, account: Seq<char>) -> Delegator {
        record_of(self.delegators, account)
    }

    /// What shares are worth in this pool.
    pub open spec fn worth(self, shares: int) -> int {
        worth_of_shares(shares, self.total_staked, self.total_shares)
    }

    /// What an account has staked.
    pub open spec fn staked_by(self, account: Seq<char>) -> int {
        self.worth(self.record(account).stake_shares as int)
    }

    /// The rewards of an account: what it has staked beyond its principal.
    pub open spec fn rewards_of(self, account: Seq<char>) -> int {
        less(self.staked_by(account), self.record(account).principal as int)
    }

    /// The rewards up to now can be attributed.
    pub open spec fn can_ping(self, locked: int) -> bool {
        fits(staked_after_ping(self.total_staked, self.last_locked, locked))
    }

    /// The pool once the rewards up to now are attributed.
    pub open spec fn pinged(self, locked: int) -> PoolState {
        PoolState {
            total_staked: staked_after_ping(self.total_staked, self.last_locked, locked),
            last_locked: locked,
            ..self
        }
    }

    /// The pool as the deposit that creates the first shares sees it: what is locked
    /// already is no reward.
    pub open spec fn synced(self, locked: int) -> PoolState {
        if self.total_shares == 0 {
            PoolState { last_locked: locked, ..self }
        } else {
            self
        }
    }

    /// The amount of the next stake action, which never falls below what is locked.
    pub open spec fn stake_target(self) -> int {
        larger(self.total_staked, self.last_locked)
    }
}

/// Attributing the rewards up to now.
pub open spec fn ping_outcome(pool: PoolState, call: CallContext) -> Result<PoolState, PoolError> {
    if !pool.can_ping(call.locked_balance as int) {
        Err(PoolError::Overflow)
    } else {
        Ok(pool.pinged(call.locked_balance as int))
    }
}

/// The part of a deposit that is staked.
pub open spec fn net_deposit(pool: PoolState, amount: int) -> int {
    amount - fee_on(amount, pool.deposit_fee_bps as int)
}

/// Depositing and staking what comes with the call.
pub open spec fn deposit_outcome(pool: PoolState, call: CallContext) -> Result<
    PoolState,
    PoolError,
> {
    let locked = call.locked_balance as int;
    let caller = call.predecessor@;
    if pool.paused {
        Err(PoolError::Paused)
    } else if !pool.synced(locked).can_ping(locked) {
        Err(PoolError::Overflow)
    } else if call.attached_deposit < MIN_STAKE {
        Err(PoolError::DepositTooSmall)
    } else {
        let before = pool.synced(locked).pinged(locked);
        let net = net_deposit(pool, call.attached_deposit as int);
        let shares = shares_of_deposit(net, before.total_staked, before.total_shares);
        let total_staked = before.total_staked + net;
        let total_shares = before.total_shares + shares;
        let worth = worth_of_shares(shares, total_staked, total_shares);
        let d = before.record(caller);
        if !fits(d.stake_shares + shares) || !fits(total_staked) || !fits(total_shares) || !fits(
            d.principal + worth,
        ) || call.block_timestamp + LOCKUP_NS > u64::MAX {
            Err(PoolError::Overflow)
        } else {
            Ok(
                PoolState {
                    total_staked,
                    total_shares,
                    delegators: before.delegators.insert(
                        caller,
                        Delegator {
                            stake_shares: (d.stake_shares + shares) as u128,
                            principal: (d.principal + worth) as u128,
                            unlock_timestamp_ns: (call.block_timestamp + LOCKUP_NS) as u64,
                            ..d
                        },
                    ),
                    ..before
                },
            )
        }
    }
}

/// Moving `amount` from the caller's stake to the caller's unstaked balance.
pub open spec fn unstake_outcome(pool: PoolState, call: CallContext, amount: int) -> Result<
    PoolState,
    PoolError,
> {
    let locked = call.locked_balance as int;
    let caller = call.predecessor@;
    let before = pool.pinged(locked);
    let d = pool.delegators[caller];
    if !pool.can_ping(locked) {
        Err(PoolError::Overflow)
    } else if !pool.delegators.contains_key(caller) {
        Err(PoolError::NoStake)
    } else if call.block_timestamp < d.unlock_timestamp_ns {
        Err(PoolError::StillLocked)
    } else if amount == 0 || amount > before.staked_by(caller) {
        Err(PoolError::InvalidUnstakeAmount)
    } else if !fits(d.unstaked_balance + amount) || call.epoch_height
        + NUM_EPOCHS_TO_UNLOCK > u64::MAX || call.block_timestamp + LOCKUP_NS > u64::MAX {
        Err(PoolError::Overflow)
    } else {
        let burned = shares_of_amount(amount, before.total_staked, before.total_shares);
        Ok(
            PoolState {
                total_staked: less(before.total_staked, amount),
                total_shares: less(before.total_shares, burned),
                delegators: before.delegators.insert(
                    caller,
                    Delegator {
                        stake_shares: (d.stake_shares - burned) as u128,
                        principal: less(d.principal as int, amount) as u128,
                        unstaked_balance: (d.unstaked_balance + amount) as u128,
                        unstake_available_epoch: (call.epoch_height + NUM_EPOCHS_TO_UNLOCK) as u64,
                        unlock_timestamp_ns: (call.block_timestamp + LOCKUP_NS) as u64,
                    },
                ),
                ..before
            },
        )
    }
}

/// Moving all that the caller has staked to the caller's unstaked balance.
pub open spec fn unstake_all_outcome(pool: PoolState, call: CallContext) -> Result<
    PoolState,
    PoolError,
> {
    let locked = call.locked_balance as int;
    let staked = pool.pinged(locked).staked_by(call.predecessor@);
    if !pool.can_ping(locked) {
        Err(PoolError::Overflow)
    } else if !pool.delegators.contains_key(call.predecessor@) {
        Err(PoolError::NoStake)
    } else if staked == 0 {
        Err(PoolError::NothingToUnstake)
    } else {
        unstake_outcome(pool, call, staked)
    }
}

/// Paying out the caller's unstaked balance.
pub open spec fn withdraw_outcome(pool: PoolState, call: CallContext) -> Result<
    PoolState,
    PoolError,
> {
    let caller = call.predecessor@;
    let d = pool.delegators[caller];
    if !pool.delegators.contains_key(caller) {
        Err(PoolError::NoWithdrawal)
    } else if d.unstaked_balance == 0 {
        Err(PoolError::NoUnstakedBalance)
    } else if call.epoch_height < d.unstake_available_epoch {
        Err(PoolError::StillUnbonding)
    } else {
        Ok(
            PoolState {
                delegators: pool.delegators.insert(
                    caller,
                    Delegator { unstaked_balance: 0, unstake_available_epoch: 0, ..d },
                ),
                ..pool
            },
        )
    }
}

/// What a claim pays to the caller: the rewards up to now, less the claim fee.
pub open spec fn claim_payment(pool: PoolState, call: CallContext) -> int {
    let rewards = pool.pinged(call.locked_balance as int).rewards_of(call.predecessor@);
    rewards - fee_on(rewards, pool.claim_fee_bps as int)
}

/// Taking the caller's rewards out of the stake. They are paid to the caller, less
/// the claim fee, for which the owner gets shares.
pub open spec fn claim_outcome(pool: PoolState, call: CallContext) -> Result<
    PoolState,
    PoolError,
> {
    let locked = call.locked_balance as int;
    let caller = call.predecessor@;
    let before = pool.pinged(locked);
    let d = pool.delegators[caller];
    let rewards = before.rewards_of(caller);
    let fee = fee_on(rewards, pool.claim_fee_bps as int);
    let burned = shares_of_amount(rewards, before.total_staked, before.total_shares);
    if !pool.can_ping(locked) {
        Err(PoolError::Overflow)
    } else if !pool.delegators.contains_key(caller) {
        Err(PoolError::NoStake)
    } else if call.block_timestamp < d.unlock_timestamp_ns {
        Err(PoolError::StillLocked)
    } else if rewards == 0 {
        Err(PoolError::NoRewards)
    } else if call.block_timestamp + LOCKUP_NS > u64::MAX {
        Err(PoolError::Overflow)
    } else {
        let claimed = PoolState {
            total_staked: less(before.total_staked, rewards - fee),
            total_shares: less(before.total_shares, burned),
            delegators: before.delegators.insert(
                caller,
                Delegator {
                    stake_shares: (d.stake_shares - burned) as u128,
                    unlock_timestamp_ns: (call.block_timestamp + LOCKUP_NS) as u64,
                    ..d
                },
            ),
            ..before
        };
        if fee == 0 {
            Ok(claimed)
        } else {
            let fee_shares = shares_of_fee(
                fee,
                rewards,
                burned,
                before.total_staked,
                before.total_shares,
            );
            fee_credited(claimed, fee, fee_shares)
        }
    }
}

/// Crediting the owner with shares for a claim fee.
pub open spec fn fee_credited(claimed: PoolState, fee: int, fee_shares: int) -> Result<
    PoolState,
    PoolError,
> {
    let od = claimed.record(claimed.owner);
    if !fits(od.stake_shares + fee_shares) || !fits(od.principal + fee) {
        Err(PoolError::Overflow)
    } else {
        Ok(
            PoolState {
                total_shares: smaller(claimed.total_shares + fee_shares, u128::MAX as int),
                delegators: claimed.delegators.insert(
                    claimed.owner,
                    Delegator {
                        stake_shares: (od.stake_shares + fee_shares) as u128,
                        principal: (od.principal + fee) as u128,
                        ..od
                    },
                ),
                ..claimed
            },
        )
    }
}

/// Turning the caller's rewards into principal.
pub open spec fn compound_outcome(pool: PoolState, call: CallContext) -> Result<
    PoolState,
    PoolError,
> {
    let locked = call.locked_balance as int;
    let caller = call.predecessor@;
    let before = pool.pinged(locked);
    let d = pool.delegators[caller];
    if !pool.can_ping(locked) {
        Err(PoolError::Overflow)
    } else if !pool.delegators.contains_key(caller) {
        Err(PoolError::NoStake)
    } else if before.rewards_of(caller) == 0 {
        Err(PoolError::NoRewardsToCompound)
    } else if call.block_timestamp + LOCKUP_NS > u64::MAX {
        Err(PoolError::Overflow)
    } else {
        Ok(
            PoolState {
                delegators: before.delegators.insert(
                    caller,
                    Delegator {
                        principal: before.staked_by(caller) as u128,
                        unlock_timestamp_ns: (call.block_timestamp + LOCKUP_NS) as u64,
                        ..d
                    },
                ),
                ..before
            },
        )
    }
}

/// Lowering the caller's principal to what the caller has staked.
pub open spec fn sync_principal_outcome(pool: PoolState, call: CallContext) -> Result<
    PoolState,
    PoolError,
> {
    let caller = call.predecessor@;
    let d = pool.delegators[caller];
    if !pool.delegators.contains_key(caller) {
        Err(PoolError::NoStake)
    } else {
        Ok(
            PoolState {
                delegators: pool.delegators.insert(
                    caller,
                    Delegator {
                        principal: smaller(d.principal as int, pool.staked_by(caller)) as u128,
                        ..d
                    },
                ),
                ..pool
            },
        )
    }
}

/// Changing the fees.
pub open spec fn update_fees_outcome(
    pool: PoolState,
    call: CallContext,
    deposit_fee_bps: u16,
    claim_fee_bps: u16,
) -> Result<PoolState, PoolError> {
    if call.predecessor@ != pool.owner {
        Err(PoolError::NotOwner)
    } else if deposit_fee_bps > MAX_DEPOSIT_FEE_BPS {
        Err(PoolError::UpdatedDepositFeeExceedsMax)
    } else if claim_fee_bps > MAX_CLAIM_FEE_BPS {
        Err(PoolError::UpdatedClaimFeeExceedsMax)
    } else {
        Ok(PoolState { deposit_fee_bps, claim_fee_bps, ..pool })
    }
}

/// Opening the pool to deposits, or closing it.
pub open spec fn set_paused_outcome(pool: PoolState, call: CallContext, paused: bool) -> Result<
    PoolState,
    PoolError,
> {
    if call.predecessor@ != pool.owner {
        Err(PoolError::NotOwner)
    } else {
        Ok(PoolState { paused, ..pool })
    }
}

/// Correcting the staked balance and the locked balance on record.
pub open spec fn fix_pool_outcome(
    pool: PoolState,
    call: CallContext,
    total_staked: int,
    last_locked: int,
) -> Result<PoolState, PoolError> {
    if call.predecessor@ != pool.owner {
        Err(PoolError::NotOwner)
    } else {
        Ok(PoolState { total_staked, last_locked, ..pool })
    }
}

/// Correcting a delegator's shares and principal, and the total of the shares with
/// them.
pub open spec fn fix_shares_outcome(
    pool: PoolState,
    call: CallContext,
    account: Seq<char>,
    shares: u128,
    principal: u128,
) -> Result<PoolState, PoolError> {
    let d = pool.record(account);
    if call.predecessor@ != pool.owner {
        Err(PoolError::NotOwner)
    } else {
        Ok(
            PoolState {
                total_shares: smaller(
                    less(pool.total_shares, d.stake_shares as int) + shares,
                    u128::MAX as int,
                ),
                delegators: pool.delegators.insert(
                    account,
                    Delegator { stake_shares: shares, principal, ..d },
                ),
                ..pool
            },
        )
    }
}

/// Correcting a delegator's unstaked balance.
pub open spec fn fix_unstaked_outcome(
    pool: PoolState,
    call: CallContext,
    account: Seq<char>,
    unstaked_balance: u128,
) -> Result<PoolState, PoolError> {
    if call.predecessor@ != pool.owner {
        Err(PoolError::NotOwner)
    } else {
        Ok(
            PoolState {
                delegators: pool.delegators.insert(
                    account,
                    Delegator { unstaked_balance, ..pool.record(account) },
                ),
                ..pool
            },
        )
    }
}

} // verus!
