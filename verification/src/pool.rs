//! The staking pool.
//!
//! Delegators stake with a validator and earn rewards. Balances are held as shares:
//! when rewards arrive the staked balance grows and the shares do not, so every
//! share is worth more. An action either succeeds and hands out what the pool's
//! account has to do next, or is refused and leaves the pool as it was.

use vstd::prelude::*;
use vstd::string::StringExecFns;

use crate::delegator::{AccountId, DelegatorMap, PoolFees};
use crate::pool_error::PoolError;
use crate::pool_rules::{
    claim_outcome, claim_payment, compound_outcome, deposit_outcome, fix_pool_outcome,
    fix_shares_outcome, fix_unstaked_outcome, ping_outcome, set_paused_outcome,
    sync_principal_outcome, unstake_all_outcome, unstake_outcome, update_fees_outcome,
    withdraw_outcome, CallContext, PoolState, LOCKUP_NS, MAX_CLAIM_FEE_BPS, MAX_DEPOSIT_FEE_BPS,
    MIN_STAKE, NUM_EPOCHS_TO_UNLOCK,
};
use crate::shares::{
    fee_for, fee_on, fits, lemma_burn_within_holding, lemma_claim_fee_within_tenth, Totals,
};
use crate::staking_key::{
    is_encoding_len, is_key_outcome, parse_key_string, FNDSA_ENCODING_LEN, MLDSA_ENCODING_LEN,
    SLHDSA_ENCODING_LEN,
};
use crate::text::{decimal, push_decimal};

verus! {

/// A staking pool.
pub struct StakingPool {
    pub owner_id: AccountId,
    pub staking_key_bytes: Vec<u8>,
    pub deposit_fee_bps: u16,
    pub claim_fee_bps: u16,
    pub total_staked_balance: u128,
    pub total_stake_shares: u128,
    pub last_locked_balance: u128,
    pub delegators: DelegatorMap,
    pub paused: bool,
}

/// What a delegator sees of an account.
#[derive(Clone, Copy, Debug, PartialEq, Eq, Structural)]
pub struct AccountView {
    pub staked_balance: u128,
    pub unstaked_balance: u128,
    pub total_balance: u128,
    pub principal: u128,
    pub rewards_earned: u128,
    pub can_withdraw: bool,
    pub is_locked: bool,
    pub unlock_timestamp_ns: u64,
    pub unstake_available_epoch: u64,
}

/// A payment that the pool's account has to make.
#[derive(Debug)]
pub struct Transfer {
    pub receiver: AccountId,
    pub amount: u128,
}

/// A stake action that the pool's account has to issue.
#[derive(Debug)]
pub struct StakeAction {
    pub amount: u128,
    pub public_key: Vec<u8>,
}

/// What a deposit makes the pool's account do.
#[derive(Debug)]
pub struct DepositActions {
    /// The deposit fee, to the owner.
    pub fee: Option<Transfer>,
    /// The new stake.
    pub stake: Option<StakeAction>,
}

/// What a claim makes the pool's account do.
#[derive(Debug)]
pub struct ClaimActions {
    /// The rewards less the claim fee, to the caller.
    pub payment: Transfer,
    /// The new stake.
    pub stake: Option<StakeAction>,
}

/// The stake action that a pool issues: its staking key with the staked balance or
/// with what is locked, whichever is larger, and none where the staking key has not
/// the length of an encoded public key.
pub open spec fn is_restake(action: Option<StakeAction>, pool: PoolState) -> bool {
    match action {
        None => !is_encoding_len(pool.staking_key.len()),
        Some(stake) => {
            &&& is_encoding_len(pool.staking_key.len())
            &&& stake.amount == pool.stake_target()
            &&& stake.public_key@ == pool.staking_key
        },
    }
}

/// A payment of `amount` to `receiver`, and none where the amount is zero.
pub open spec fn is_payment(payment: Option<Transfer>, receiver: Seq<char>, amount: int) -> bool {
    match payment {
        None => amount == 0,
        Some(transfer) => {
            &&& amount > 0
            &&& transfer.receiver@ == receiver
            &&& transfer.amount == amount
        },
    }
}

impl View for StakingPool {
    type V = PoolState;

    open spec fn view(&self) -> PoolState {
        PoolState {
            owner: self.owner_id@,
            staking_key: self.staking_key_bytes@,
            deposit_fee_bps: self.deposit_fee_bps,
            claim_fee_bps: self.claim_fee_bps,
            total_staked: self.total_staked_balance as int,
            total_shares: self.total_stake_shares as int,
            last_locked: self.last_locked_balance as int,
            delegators: self.delegators@,
            paused: self.paused,
        }
    }
}

impl StakingPool {
    /// The invariant of a pool: its fees are within their bounds.
    pub open spec fn wf(&self) -> bool {
        self@.fees_bounded()
    }

    /// Creates a pool without delegators.
    pub fn new(
        owner_id: AccountId,
        staking_key: String,
        deposit_fee_bps: u16,
        claim_fee_bps: u16,
    ) -> (result: Result<Self, PoolError>)
        ensures
            deposit_fee_bps > MAX_DEPOSIT_FEE_BPS ==> result == Err::<Self, PoolError>(
                PoolError::DepositFeeExceedsMax,
            ),
            deposit_fee_bps <= MAX_DEPOSIT_FEE_BPS && claim_fee_bps > MAX_CLAIM_FEE_BPS ==> result
                == Err::<Self, PoolError>(PoolError::ClaimFeeExceedsMax),
            deposit_fee_bps <= MAX_DEPOSIT_FEE_BPS && claim_fee_bps <= MAX_CLAIM_FEE_BPS ==> (
            match result {
                Ok(pool) => {
                    &&& is_key_outcome(staking_key@, Ok(pool.staking_key_bytes))
                    &&& pool.wf()
                    &&& pool@ == PoolState {
                        owner: owner_id@,
                        staking_key: pool.staking_key_bytes@,
                        deposit_fee_bps,
                        claim_fee_bps,
                        total_staked: 0,
                        total_shares: 0,
                        last_locked: 0,
                        delegators: Map::empty(),
                        paused: false,
                    }
                },
                Err(PoolError::Key(error)) => is_key_outcome(staking_key@, Err(error)),
                Err(_) => false,
            }),
    {
        if deposit_fee_bps > MAX_DEPOSIT_FEE_BPS {
            return Err(PoolError::DepositFeeExceedsMax);
        }
        if claim_fee_bps > MAX_CLAIM_FEE_BPS {
            return Err(PoolError::ClaimFeeExceedsMax);
        }
        match parse_key_string(staking_key.as_str()) {
            Ok(staking_key_bytes) => Ok(
                StakingPool {
                    owner_id,
                    staking_key_bytes,
                    deposit_fee_bps,
                    claim_fee_bps,
                    total_staked_balance: 0,
                    total_stake_shares: 0,
                    last_locked_balance: 0,
                    delegators: DelegatorMap::new(),
                    paused: false,
                },
            ),
            Err(error) => Err(PoolError::Key(error)),
        }
    }

    /// The totals of this pool.
    fn totals(&self) -> (totals: Totals)
        ensures
            totals.staked == self.total_staked_balance,
            totals.shares == self.total_stake_shares,
            totals.locked == self.last_locked_balance,
    {
        Totals {
            staked: self.total_staked_balance,
            shares: self.total_stake_shares,
            locked: self.last_locked_balance,
        }
    }

    /// Sets the totals of this pool.
    fn set_totals(&mut self, totals: Totals)
        ensures
            final(self)@ == (PoolState {
                total_staked: totals.staked as int,
                total_shares: totals.shares as int,
                last_locked: totals.locked as int,
                ..old(self)@
            }),
            final(self).owner_id == old(self).owner_id,
            final(self).staking_key_bytes == old(self).staking_key_bytes,
    {
        self.total_staked_balance = totals.staked;
        self.total_stake_shares = totals.shares;
        self.last_locked_balance = totals.locked;
    }

    /// Attributes the rewards up to now.
    fn internal_ping(&self, call: &CallContext) -> (result: Result<Totals, PoolError>)
        ensures
            match result {
                Ok(totals) => {
                    &&& self@.can_ping(call.locked_balance as int)
                    &&& totals.staked == self@.pinged(call.locked_balance as int).total_staked
                    &&& totals.shares == self.total_stake_shares
                    &&& totals.locked == call.locked_balance
                },
                Err(error) => {
                    &&& !self@.can_ping(call.locked_balance as int)
                    &&& error == PoolError::Overflow
                },
            },
    {
        match self.totals().internal_ping(call.locked_balance) {
            Some(totals) => Ok(totals),
            None => Err(PoolError::Overflow),
        }
    }

    /// The stake action that follows from this pool. A validator may have staked
    /// funds outside the pool, so the stake never falls below what is locked. Malformed
    /// key bytes are never staked with.
    fn internal_restake(&self) -> (action: Option<StakeAction>)
        ensures
            is_restake(action, self@),
    {
        let len: usize = self.staking_key_bytes.len();
        if len != MLDSA_ENCODING_LEN && len != FNDSA_ENCODING_LEN && len != SLHDSA_ENCODING_LEN {
            return None;
        }
        let amount: u128 = if self.total_staked_balance >= self.last_locked_balance {
            self.total_staked_balance
        } else {
            self.last_locked_balance
        };
        let public_key = self.staking_key_bytes.clone();
        assert(public_key@ =~= self.staking_key_bytes@);
        Some(StakeAction { amount, public_key })
    }

    /// Deposits what comes with the call and stakes it, less the deposit fee.
    pub fn deposit_and_stake(&mut self, call: &CallContext) -> (result: Result<
        DepositActions,
        PoolError,
    >)
        requires
            old(self).wf(),
        ensures
            final(self).wf(),
            match result {
                Ok(actions) => {
                    &&& deposit_outcome(old(self)@, *call) == Ok::<PoolState, PoolError>(
                        final(self)@,
                    )
                    &&& is_payment(
                        actions.fee,
                        old(self)@.owner,
                        fee_on(call.attached_deposit as int, old(self)@.deposit_fee_bps as int),
                    )
                    &&& is_restake(actions.stake, final(self)@)
                },
                Err(error) => {
                    &&& deposit_outcome(old(self)@, *call) == Err::<PoolState, PoolError>(error)
                    &&& *final(self) == *old(self)
                },
            },
    {
        if self.paused {
            return Err(PoolError::Paused);
        }
        let mut totals = self.totals();
        if totals.shares == 0 {
            totals.locked = call.locked_balance;
        }
        let totals = match totals.internal_ping(call.locked_balance) {
            Some(totals) => totals,
            None => return Err(PoolError::Overflow),
        };
        let amount: u128 = call.attached_deposit;
        if amount < MIN_STAKE {
            return Err(PoolError::DepositTooSmall);
        }
        let fee: u128 = fee_for(amount, self.deposit_fee_bps);
        let net: u128 = amount - fee;
        let shares: u128 = totals.shares_for(net);
        let mut d = self.delegators.get_or_default(&call.predecessor);
        d.stake_shares = match d.stake_shares.checked_add(shares) {
            Some(sum) => sum,
            None => return Err(PoolError::Overflow),
        };
        let staked: u128 = match totals.staked.checked_add(net) {
            Some(sum) => sum,
            None => return Err(PoolError::Overflow),
        };
        let total_shares: u128 = match totals.shares.checked_add(shares) {
            Some(sum) => sum,
            None => return Err(PoolError::Overflow),
        };
        let totals = Totals { staked, shares: total_shares, locked: totals.locked };
        let actual: u128 = totals.amount_for_shares(shares);
        d.principal = match d.principal.checked_add(actual) {
            Some(sum) => sum,
            None => return Err(PoolError::Overflow),
        };
        d.unlock_timestamp_ns = match call.block_timestamp.checked_add(LOCKUP_NS) {
            Some(time) => time,
            None => return Err(PoolError::Overflow),
        };
        self.delegators.insert(&call.predecessor, d);
        self.set_totals(totals);
        let fee = if fee > 0 {
            Some(Transfer { receiver: self.owner_id.clone(), amount: fee })
        } else {
            None
        };
        Ok(DepositActions { fee, stake: self.internal_restake() })
    }

    /// Moves an amount from the caller's stake to the caller's unstaked balance.
    pub fn unstake(&mut self, call: &CallContext, amount: u128) -> (result: Result<
        Option<StakeAction>,
        PoolError,
    >)
        ensures
            old(self).wf() ==> final(self).wf(),
            match result {
                Ok(stake) => {
                    &&& unstake_outcome(old(self)@, *call, amount as int) == Ok::<
                        PoolState,
                        PoolError,
                    >(final(self)@)
                    &&& is_restake(stake, final(self)@)
                },
                Err(error) => {
                    &&& unstake_outcome(old(self)@, *call, amount as int) == Err::<
                        PoolState,
                        PoolError,
                    >(error)
                    &&& *final(self) == *old(self)
                },
            },
    {
        let totals = match self.internal_ping(call) {
            Ok(totals) => totals,
            Err(error) => return Err(error),
        };
        let mut d = match self.delegators.get(&call.predecessor) {
            Some(d) => d,
            None => return Err(PoolError::NoStake),
        };
        if call.block_timestamp < d.unlock_timestamp_ns {
            return Err(PoolError::StillLocked);
        }
        let staked: u128 = totals.amount_for_shares(d.stake_shares);
        if amount == 0 || amount > staked {
            return Err(PoolError::InvalidUnstakeAmount);
        }
        let burn: u128 = totals.shares_for_amount(amount);
        proof {
            lemma_burn_within_holding(
                amount as int,
                d.stake_shares as int,
                totals.staked as int,
                totals.shares as int,
            );
        }
        d.stake_shares = d.stake_shares.saturating_sub(burn);
        d.principal = d.principal.saturating_sub(amount);
        d.unstaked_balance = match d.unstaked_balance.checked_add(amount) {
            Some(sum) => sum,
            None => return Err(PoolError::Overflow),
        };
        d.unstake_available_epoch = match call.epoch_height.checked_add(NUM_EPOCHS_TO_UNLOCK) {
            Some(epoch) => epoch,
            None => return Err(PoolError::Overflow),
        };
        d.unlock_timestamp_ns = match call.block_timestamp.checked_add(LOCKUP_NS) {
            Some(time) => time,
            None => return Err(PoolError::Overflow),
        };
        self.delegators.insert(&call.predecessor, d);
        self.set_totals(
            Totals {
                staked: totals.staked.saturating_sub(amount),
                shares: totals.shares.saturating_sub(burn),
                locked: totals.locked,
            },
        );
        Ok(self.internal_restake())
    }

    /// Moves all that the caller has staked to the caller's unstaked balance.
    pub fn unstake_all(&mut self, call: &CallContext) -> (result: Result<
        Option<StakeAction>,
        PoolError,
    >)
        ensures
            old(self).wf() ==> final(self).wf(),
            match result {
                Ok(stake) => {
                    &&& unstake_all_outcome(old(self)@, *call) == Ok::<PoolState, PoolError>(
                        final(self)@,
                    )
                    &&& is_restake(stake, final(self)@)
                },
                Err(error) => {
                    &&& unstake_all_outcome(old(self)@, *call) == Err::<PoolState, PoolError>(error)
                    &&& *final(self) == *old(self)
                },
            },
    {
        let totals = match self.internal_ping(call) {
            Ok(totals) => totals,
            Err(error) => return Err(error),
        };
        let d = match self.delegators.get(&call.predecessor) {
            Some(d) => d,
            None => return Err(PoolError::NoStake),
        };
        let staked: u128 = totals.amount_for_shares(d.stake_shares);
        if staked == 0 {
            return Err(PoolError::NothingToUnstake);
        }
        self.unstake(call, staked)
    }

    /// Pays out the caller's unstaked balance.
    pub fn withdraw_all(&mut self, call: &CallContext) -> (result: Result<Transfer, PoolError>)
        ensures
            old(self).wf() ==> final(self).wf(),
            match result {
                Ok(transfer) => {
                    &&& withdraw_outcome(old(self)@, *call) == Ok::<PoolState, PoolError>(
                        final(self)@,
                    )
                    &&& transfer.receiver@ == call.predecessor@
                    &&& transfer.amount == old(self)@.record(call.predecessor@).unstaked_balance
                },
                Err(error) => {
                    &&& withdraw_outcome(old(self)@, *call) == Err::<PoolState, PoolError>(error)
                    &&& *final(self) == *old(self)
                },
            },
    {
        let mut d = match self.delegators.get(&call.predecessor) {
            Some(d) => d,
            None => return Err(PoolError::NoWithdrawal),
        };
        if d.unstaked_balance == 0 {
            return Err(PoolError::NoUnstakedBalance);
        }
        if call.epoch_height < d.unstake_available_epoch {
            return Err(PoolError::StillUnbonding);
        }
        let amount: u128 = d.unstaked_balance;
        d.unstaked_balance = 0;
        d.unstake_available_epoch = 0;
        self.delegators.insert(&call.predecessor, d);
        Ok(Transfer { receiver: call.predecessor.clone(), amount })
    }

    /// Pays the caller's rewards to the caller, less the claim fee, for which the
    /// owner gets shares.
    pub fn claim_rewards(&mut self, call: &CallContext) -> (result: Result<ClaimActions, PoolError>)
        requires
            old(self).wf(),
        ensures
            final(self).wf(),
            match result {
                Ok(actions) => {
                    &&& claim_outcome(old(self)@, *call) == Ok::<PoolState, PoolError>(
                        final(self)@,
                    )
                    &&& actions.payment.receiver@ == call.predecessor@
                    &&& actions.payment.amount == claim_payment(old(self)@, *call)
                    &&& actions.payment.amount > 0
                    &&& is_restake(actions.stake, final(self)@)
                },
                Err(error) => {
                    &&& claim_outcome(old(self)@, *call) == Err::<PoolState, PoolError>(error)
                    &&& *final(self) == *old(self)
                },
            },
    {
        let totals = match self.internal_ping(call) {
            Ok(totals) => totals,
            Err(error) => return Err(error),
        };
        let mut d = match self.delegators.get(&call.predecessor) {
            Some(d) => d,
            None => return Err(PoolError::NoStake),
        };
        if call.block_timestamp < d.unlock_timestamp_ns {
            return Err(PoolError::StillLocked);
        }
        let staked: u128 = totals.amount_for_shares(d.stake_shares);
        let rewards: u128 = staked.saturating_sub(d.principal);
        if rewards == 0 {
            return Err(PoolError::NoRewards);
        }
        let fee: u128 = fee_for(rewards, self.claim_fee_bps);
        proof {
            lemma_claim_fee_within_tenth(rewards as int, self.claim_fee_bps as int);
        }
        let net_reward: u128 = rewards - fee;
        let burn: u128 = totals.shares_for_amount(rewards);
        proof {
            lemma_burn_within_holding(
                rewards as int,
                d.stake_shares as int,
                totals.staked as int,
                totals.shares as int,
            );
        }
        d.stake_shares = d.stake_shares.saturating_sub(burn);
        d.unlock_timestamp_ns = match call.block_timestamp.checked_add(LOCKUP_NS) {
            Some(time) => time,
            None => return Err(PoolError::Overflow),
        };
        let payment = Transfer { receiver: call.predecessor.clone(), amount: net_reward };
        let staked: u128 = totals.staked.saturating_sub(net_reward);
        let shares: u128 = totals.shares.saturating_sub(burn);
        if fee == 0 {
            self.delegators.insert(&call.predecessor, d);
            self.set_totals(Totals { staked, shares, locked: totals.locked });
            return Ok(ClaimActions { payment, stake: self.internal_restake() });
        }
        let fee_shares: u128 = totals.shares_for_amount_post_reduce(fee, rewards, burn);
        let mut od = if self.owner_id == call.predecessor {
            d
        } else {
            self.delegators.get_or_default(&self.owner_id)
        };
        od.stake_shares = match od.stake_shares.checked_add(fee_shares) {
            Some(sum) => sum,
            None => return Err(PoolError::Overflow),
        };
        od.principal = match od.principal.checked_add(fee) {
            Some(sum) => sum,
            None => return Err(PoolError::Overflow),
        };
        self.delegators.insert(&call.predecessor, d);
        self.delegators.insert(&self.owner_id, od);
        self.set_totals(
            Totals { staked, shares: shares.saturating_add(fee_shares), locked: totals.locked },
        );
        Ok(ClaimActions { payment, stake: self.internal_restake() })
    }

    /// Turns the caller's rewards into principal, without a fee.
    pub fn compound(&mut self, call: &CallContext) -> (result: Result<(), PoolError>)
        ensures
            old(self).wf() ==> final(self).wf(),
            match result {
                Ok(_) => compound_outcome(old(self)@, *call) == Ok::<PoolState, PoolError>(
                    final(self)@,
                ),
                Err(error) => {
                    &&& compound_outcome(old(self)@, *call) == Err::<PoolState, PoolError>(error)
                    &&& *final(self) == *old(self)
                },
            },
    {
        let totals = match self.internal_ping(call) {
            Ok(totals) => totals,
            Err(error) => return Err(error),
        };
        let mut d = match self.delegators.get(&call.predecessor) {
            Some(d) => d,
            None => return Err(PoolError::NoStake),
        };
        let staked: u128 = totals.amount_for_shares(d.stake_shares);
        if staked <= d.principal {
            return Err(PoolError::NoRewardsToCompound);
        }
        d.principal = staked;
        d.unlock_timestamp_ns = match call.block_timestamp.checked_add(LOCKUP_NS) {
            Some(time) => time,
            None => return Err(PoolError::Overflow),
        };
        self.delegators.insert(&call.predecessor, d);
        self.set_totals(totals);
        Ok(())
    }

    /// Attributes the rewards up to now, without any change of stake. Anyone may
    /// call this.
    pub fn ping(&mut self, call: &CallContext) -> (result: Result<(), PoolError>)
        ensures
            old(self).wf() ==> final(self).wf(),
            match result {
                Ok(_) => ping_outcome(old(self)@, *call) == Ok::<PoolState, PoolError>(
                    final(self)@,
                ),
                Err(error) => {
                    &&& ping_outcome(old(self)@, *call) == Err::<PoolState, PoolError>(error)
                    &&& *final(self) == *old(self)
                },
            },
    {
        match self.internal_ping(call) {
            Ok(totals) => {
                self.set_totals(totals);
                Ok(())
            },
            Err(error) => Err(error),
        }
    }

    // Owner actions.

    /// Changes the fees. Owner only.
    pub fn update_fees(
        &mut self,
        call: &CallContext,
        deposit_fee_bps: u16,
        claim_fee_bps: u16,
    ) -> (result: Result<(), PoolError>)
        ensures
            old(self).wf() ==> final(self).wf(),
            match result {
                Ok(_) => update_fees_outcome(old(self)@, *call, deposit_fee_bps, claim_fee_bps)
                    == Ok::<PoolState, PoolError>(final(self)@),
                Err(error) => {
                    &&& update_fees_outcome(old(self)@, *call, deposit_fee_bps, claim_fee_bps)
                        == Err::<PoolState, PoolError>(error)
                    &&& *final(self) == *old(self)
                },
            },
    {
        if call.predecessor != self.owner_id {
            return Err(PoolError::NotOwner);
        }
        if deposit_fee_bps > MAX_DEPOSIT_FEE_BPS {
            return Err(PoolError::UpdatedDepositFeeExceedsMax);
        }
        if claim_fee_bps > MAX_CLAIM_FEE_BPS {
            return Err(PoolError::UpdatedClaimFeeExceedsMax);
        }
        self.deposit_fee_bps = deposit_fee_bps;
        self.claim_fee_bps = claim_fee_bps;
        Ok(())
    }

    /// Changes the staking key, and stakes with it. Owner only.
    pub fn update_staking_key(&mut self, call: &CallContext, new_staking_key: String) -> (result:
        Result<Option<StakeAction>, PoolError>)
        ensures
            old(self).wf() ==> final(self).wf(),
            call.predecessor@ != old(self)@.owner ==> result == Err::<
                Option<StakeAction>,
                PoolError,
            >(PoolError::NotOwner) && *final(self) == *old(self),
            call.predecessor@ == old(self)@.owner ==> (match result {
                Ok(stake) => {
                    &&& is_key_outcome(new_staking_key@, Ok(final(self).staking_key_bytes))
                    &&& final(self)@ == (PoolState {
                        staking_key: final(self).staking_key_bytes@,
                        ..old(self)@
                    })
                    &&& is_restake(stake, final(self)@)
                },
                Err(PoolError::Key(error)) => {
                    &&& is_key_outcome(new_staking_key@, Err(error))
                    &&& *final(self) == *old(self)
                },
                Err(_) => false,
            }),
    {
        if call.predecessor != self.owner_id {
            return Err(PoolError::NotOwner);
        }
        match parse_key_string(new_staking_key.as_str()) {
            Ok(staking_key_bytes) => {
                self.staking_key_bytes = staking_key_bytes;
                Ok(self.internal_restake())
            },
            Err(error) => Err(PoolError::Key(error)),
        }
    }

    /// Closes the pool to deposits. Owner only.
    pub fn pause(&mut self, call: &CallContext) -> (result: Result<(), PoolError>)
        ensures
            old(self).wf() ==> final(self).wf(),
            match result {
                Ok(_) => set_paused_outcome(old(self)@, *call, true) == Ok::<PoolState, PoolError>(
                    final(self)@,
                ),
                Err(error) => {
                    &&& set_paused_outcome(old(self)@, *call, true) == Err::<PoolState, PoolError>(
                        error,
                    )
                    &&& *final(self) == *old(self)
                },
            },
    {
        if call.predecessor != self.owner_id {
            return Err(PoolError::NotOwner);
        }
        self.paused = true;
        Ok(())
    }

    /// Opens the pool to deposits. Owner only.
    pub fn unpause(&mut self, call: &CallContext) -> (result: Result<(), PoolError>)
        ensures
            old(self).wf() ==> final(self).wf(),
            match result {
                Ok(_) => set_paused_outcome(old(self)@, *call, false) == Ok::<PoolState, PoolError>(
                    final(self)@,
                ),
                Err(error) => {
                    &&& set_paused_outcome(old(self)@, *call, false) == Err::<PoolState, PoolError>(
                        error,
                    )
                    &&& *final(self) == *old(self)
                },
            },
    {
        if call.predecessor != self.owner_id {
            return Err(PoolError::NotOwner);
        }
        self.paused = false;
        Ok(())
    }

    /// Corrects the staked balance and the locked balance on record. Owner only.
    pub fn fix_pool_accounting(
        &mut self,
        call: &CallContext,
        total_staked: u128,
        last_locked: u128,
    ) -> (result: Result<(), PoolError>)
        ensures
            old(self).wf() ==> final(self).wf(),
            match result {
                Ok(_) => fix_pool_outcome(
                    old(self)@,
                    *call,
                    total_staked as int,
                    last_locked as int,
                ) == Ok::<PoolState, PoolError>(final(self)@),
                Err(error) => {
                    &&& fix_pool_outcome(
                        old(self)@,
                        *call,
                        total_staked as int,
                        last_locked as int,
                    ) == Err::<PoolState, PoolError>(error)
                    &&& *final(self) == *old(self)
                },
            },
    {
        if call.predecessor != self.owner_id {
            return Err(PoolError::NotOwner);
        }
        self.total_staked_balance = total_staked;
        self.last_locked_balance = last_locked;
        Ok(())
    }

    /// Lowers the caller's principal to what the caller has staked. A principal that
    /// is not above that stays.
    pub fn sync_principal(&mut self, call: &CallContext) -> (result: Result<(), PoolError>)
        ensures
            old(self).wf() ==> final(self).wf(),
            match result {
                Ok(_) => sync_principal_outcome(old(self)@, *call) == Ok::<PoolState, PoolError>(
                    final(self)@,
                ),
                Err(error) => {
                    &&& sync_principal_outcome(old(self)@, *call) == Err::<PoolState, PoolError>(
                        error,
                    )
                    &&& *final(self) == *old(self)
                },
            },
    {
        let mut d = match self.delegators.get(&call.predecessor) {
            Some(d) => d,
            None => return Err(PoolError::NoStake),
        };
        let staked: u128 = self.totals().amount_for_shares(d.stake_shares);
        if staked < d.principal {
            d.principal = staked;
            self.delegators.insert(&call.predecessor, d);
        }
        assert(old(self)@.delegators.insert(call.predecessor@, d) =~= self@.delegators);
        Ok(())
    }

    /// Corrects a delegator's shares and principal, and the total of the shares with
    /// them. Owner only.
    pub fn fix_delegator_shares(
        &mut self,
        call: &CallContext,
        account_id: AccountId,
        shares: u128,
        principal: u128,
    ) -> (result: Result<(), PoolError>)
        ensures
            old(self).wf() ==> final(self).wf(),
            match result {
                Ok(_) => fix_shares_outcome(old(self)@, *call, account_id@, shares, principal)
                    == Ok::<PoolState, PoolError>(final(self)@),
                Err(error) => {
                    &&& fix_shares_outcome(old(self)@, *call, account_id@, shares, principal)
                        == Err::<PoolState, PoolError>(error)
                    &&& *final(self) == *old(self)
                },
            },
    {
        if call.predecessor != self.owner_id {
            return Err(PoolError::NotOwner);
        }
        let mut d = self.delegators.get_or_default(&account_id);
        self.total_stake_shares = self.total_stake_shares.saturating_sub(
            d.stake_shares,
        ).saturating_add(shares);
        d.stake_shares = shares;
        d.principal = principal;
        self.delegators.insert(&account_id, d);
        Ok(())
    }

    /// Corrects a delegator's unstaked balance. Owner only.
    pub fn fix_delegator_unstaked(
        &mut self,
        call: &CallContext,
        account_id: AccountId,
        unstaked_balance: u128,
    ) -> (result: Result<(), PoolError>)
        ensures
            old(self).wf() ==> final(self).wf(),
            match result {
                Ok(_) => fix_unstaked_outcome(old(self)@, *call, account_id@, unstaked_balance)
                    == Ok::<PoolState, PoolError>(final(self)@),
                Err(error) => {
                    &&& fix_unstaked_outcome(old(self)@, *call, account_id@, unstaked_balance)
                        == Err::<PoolState, PoolError>(error)
                    &&& *final(self) == *old(self)
                },
            },
    {
        if call.predecessor != self.owner_id {
            return Err(PoolError::NotOwner);
        }
        let mut d = self.delegators.get_or_default(&account_id);
        d.unstaked_balance = unstaked_balance;
        self.delegators.insert(&account_id, d);
        Ok(())
    }

    // Views.

    /// What a delegator sees of an account.
    pub fn get_account(&self, call: &CallContext, account_id: AccountId) -> (view: AccountView)
        requires
            fits(self@.staked_by(account_id@) + self@.record(account_id@).unstaked_balance),
        ensures
            view.staked_balance == self@.staked_by(account_id@),
            view.unstaked_balance == self@.record(account_id@).unstaked_balance,
            view.total_balance == view.staked_balance + view.unstaked_balance,
            view.principal == self@.record(account_id@).principal,
            view.rewards_earned == self@.rewards_of(account_id@),
            view.can_withdraw == (view.unstaked_balance > 0 && call.epoch_height
                >= view.unstake_available_epoch),
            view.is_locked == (call.block_timestamp < view.unlock_timestamp_ns),
            view.unlock_timestamp_ns == self@.record(account_id@).unlock_timestamp_ns,
            view.unstake_available_epoch == self@.record(account_id@).unstake_available_epoch,
    {
        let d = self.delegators.get_or_default(&account_id);
        let staked: u128 = self.totals().amount_for_shares(d.stake_shares);
        AccountView {
            staked_balance: staked,
            unstaked_balance: d.unstaked_balance,
            total_balance: staked + d.unstaked_balance,
            principal: d.principal,
            rewards_earned: staked.saturating_sub(d.principal),
            can_withdraw: d.unstaked_balance > 0 && call.epoch_height >= d.unstake_available_epoch,
            is_locked: call.block_timestamp < d.unlock_timestamp_ns,
            unlock_timestamp_ns: d.unlock_timestamp_ns,
            unstake_available_epoch: d.unstake_available_epoch,
        }
    }

    /// Writes out the shares and the principal of an account, with the pool's totals.
    pub fn debug_get_stake_shares(&self, account_id: AccountId) -> (text: String)
        ensures
            text@ == "shares="@ + decimal(self@.record(account_id@).stake_shares as nat)
                + " principal="@ + decimal(self@.record(account_id@).principal as nat)
                + " total_shares="@ + decimal(self@.total_shares as nat) + " total_staked="@
                + decimal(self@.total_staked as nat),
    {
        let d = self.delegators.get_or_default(&account_id);
        let mut text = String::new();
        text.append("shares=");
        push_decimal(&mut text, d.stake_shares);
        text.append(" principal=");
        push_decimal(&mut text, d.principal);
        text.append(" total_shares=");
        push_decimal(&mut text, self.total_stake_shares);
        text.append(" total_staked=");
        push_decimal(&mut text, self.total_staked_balance);
        assert(text@ =~= "shares="@ + decimal(d.stake_shares as nat) + " principal="@ + decimal(
            d.principal as nat,
        ) + " total_shares="@ + decimal(self@.total_shares as nat) + " total_staked="@ + decimal(
            self@.total_staked as nat,
        ));
        text
    }

    /// What shares are worth in this pool.
    pub fn debug_amount_for_shares(&self, shares: u128) -> (amount: u128)
        ensures
            amount == self@.worth(shares as int),
    {
        self.totals().amount_for_shares(shares)
    }

    /// The staked balance of the pool.
    pub fn get_total_staked_balance(&self) -> (balance: u128)
        ensures
            balance == self@.total_staked,
    {
        self.total_staked_balance
    }

    /// The shares of the pool.
    pub fn get_total_stake_shares(&self) -> (shares: u128)
        ensures
            shares == self@.total_shares,
    {
        self.total_stake_shares
    }

    /// The owner of the pool.
    pub fn get_owner_id(&self) -> (owner: AccountId)
        ensures
            owner@ == self@.owner,
    {
        self.owner_id.clone()
    }

    /// The fees of the pool.
    pub fn get_fees(&self) -> (fees: PoolFees)
        ensures
            fees.deposit_fee_bps == self@.deposit_fee_bps,
            fees.claim_fee_bps == self@.claim_fee_bps,
    {
        PoolFees { deposit_fee_bps: self.deposit_fee_bps, claim_fee_bps: self.claim_fee_bps }
    }

    /// What an account has staked.
    pub fn get_account_staked_balance(&self, account_id: AccountId) -> (balance: u128)
        ensures
            balance == self@.staked_by(account_id@),
    {
        let d = self.delegators.get_or_default(&account_id);
        self.totals().amount_for_shares(d.stake_shares)
    }

    /// The unstaked balance of an account.
    pub fn get_account_unstaked_balance(&self, account_id: AccountId) -> (balance: u128)
        ensures
            balance == self@.record(account_id@).unstaked_balance,
    {
        self.delegators.get_or_default(&account_id).unstaked_balance
    }

    /// All that the pool owes to an account.
    pub fn get_account_total_balance(&self, account_id: AccountId) -> (balance: u128)
        requires
            fits(self@.staked_by(account_id@) + self@.record(account_id@).unstaked_balance),
        ensures
            balance == self@.staked_by(account_id@) + self@.record(account_id@).unstaked_balance,
    {
        let d = self.delegators.get_or_default(&account_id);
        self.totals().amount_for_shares(d.stake_shares) + d.unstaked_balance
    }
}

} // verus!
