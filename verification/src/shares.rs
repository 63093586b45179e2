//! Share accounting: what shares are worth, and how the staked balance follows the
//! balance that the protocol has locked.

use vstd::prelude::*;

use crate::muldiv::{
    lemma_part_of_whole, lemma_product_quotient_nonnegative, muldiv, muldiv128,
};

verus! {

/// The smaller of two numbers.
pub open spec fn smaller(a: int, b: int) -> int {
    if a <= b {
        a
    } else {
        b
    }
}

/// The larger of two numbers.
pub open spec fn larger(a: int, b: int) -> int {
    if a >= b {
        a
    } else {
        b
    }
}

/// `a - b`, or zero where `b` is larger.
pub open spec fn less(a: int, b: int) -> int {
    larger(a - b, 0)
}

/// The amount can be held in a `u128`.
pub open spec fn fits(amount: int) -> bool {
    0 <= amount <= u128::MAX
}

/// What `shares` are worth: their part of the staked balance, rounded down.
pub open spec fn worth_of_shares(shares: int, total_staked: int, total_shares: int) -> int {
    muldiv(shares, total_staked, total_shares)
}

/// How many shares an amount stands for, rounded down. While nothing is staked, one
/// share stands for one unit.
pub open spec fn shares_of_amount(amount: int, total_staked: int, total_shares: int) -> int {
    if total_staked == 0 {
        amount
    } else {
        muldiv(amount, total_shares, total_staked)
    }
}

/// How many shares a deposit buys. The first shares are bought one for one unit.
pub open spec fn shares_of_deposit(amount: int, total_staked: int, total_shares: int) -> int {
    if total_shares == 0 {
        amount
    } else {
        shares_of_amount(amount, total_staked, total_shares)
    }
}

/// How many shares a fee stands for once `rewards` and the `burned` shares have
/// left the pool.
pub open spec fn shares_of_fee(
    fee: int,
    rewards: int,
    burned: int,
    total_staked: int,
    total_shares: int,
) -> int {
    shares_of_amount(fee, less(total_staked, rewards), less(total_shares, burned))
}

/// A fee of `bps` hundredths of a percent, rounded down.
pub open spec fn fee_on(amount: int, bps: int) -> int {
    amount * bps / 10_000
}

/// The part of a protocol reward that belongs to the delegators: the reward times
/// their fraction of what was locked, and never more than the reward.
pub open spec fn delegator_reward(reward: int, total_staked: int, last_locked: int) -> int {
    smaller(reward * total_staked / last_locked, reward)
}

/// The part of a loss that the delegators bear: the loss times their fraction of
/// what was locked.
pub open spec fn delegator_loss(loss: int, total_staked: int, last_locked: int) -> int {
    loss * total_staked / last_locked
}

/// The staked balance once the locked balance has gone from `last_locked` to
/// `locked`. Nothing is attributed while no locked balance is on record.
pub open spec fn staked_after_ping(total_staked: int, last_locked: int, locked: int) -> int {
    if last_locked > 0 && locked > last_locked {
        total_staked + delegator_reward(locked - last_locked, total_staked, last_locked)
    } else if last_locked > 0 && locked < last_locked {
        total_staked - delegator_loss(last_locked - locked, total_staked, last_locked)
    } else {
        total_staked
    }
}

/// The totals of a pool.
#[derive(Clone, Copy, Debug, PartialEq, Eq, Structural)]
pub struct Totals {
    pub staked: u128,
    pub shares: u128,
    pub locked: u128,
}

impl Totals {
    /// Attributes the change of the locked balance; nothing where the staked balance
    /// would not fit.
    pub fn internal_ping(self, locked: u128) -> (pinged: Option<Totals>)
        ensures
            match pinged {
                Some(totals) => {
                    &&& totals.staked == staked_after_ping(
                        self.staked as int,
                        self.locked as int,
                        locked as int,
                    )
                    &&& totals.shares == self.shares
                    &&& totals.locked == locked
                },
                None => !fits(
                    staked_after_ping(self.staked as int, self.locked as int, locked as int),
                ),
            },
    {
        let mut staked: u128 = self.staked;
        if locked > self.locked && self.locked > 0 {
            let total_reward: u128 = locked - self.locked;
            let share: u128 = muldiv128(total_reward, self.staked, self.locked);
            let delegator_reward: u128 = if share < total_reward {
                share
            } else {
                total_reward
            };
            proof {
                lemma_product_quotient_nonnegative(
                    total_reward as int,
                    self.staked as int,
                    self.locked as int,
                );
            }
            staked = match self.staked.checked_add(delegator_reward) {
                Some(staked) => staked,
                None => return None,
            };
        } else if locked < self.locked && self.locked > 0 {
            let decrease: u128 = self.locked - locked;
            let delegator_decrease: u128 = muldiv128(decrease, self.staked, self.locked);
            proof {
                lemma_part_of_whole(
                    decrease as int,
                    self.locked as int,
                    self.staked as int,
                );
            }
            staked = self.staked.saturating_sub(delegator_decrease);
        }
        Some(Totals { staked, shares: self.shares, locked })
    }

    /// How many shares a deposit buys.
    pub fn shares_for(self, amount: u128) -> (shares: u128)
        ensures
            shares == shares_of_deposit(amount as int, self.staked as int, self.shares as int),
    {
        if self.shares == 0 || self.staked == 0 {
            return amount;
        }
        self.shares_for_amount(amount)
    }

    /// How many shares an amount stands for.
    pub fn shares_for_amount(self, amount: u128) -> (shares: u128)
        ensures
            shares == shares_of_amount(amount as int, self.staked as int, self.shares as int),
    {
        if self.staked == 0 {
            return amount;
        }
        muldiv128(amount, self.shares, self.staked)
    }

    /// How many shares a fee stands for once the rewards have left the pool.
    pub fn shares_for_amount_post_reduce(self, fee: u128, rewards: u128, burned: u128) -> (shares:
        u128)
        ensures
            shares == shares_of_fee(
                fee as int,
                rewards as int,
                burned as int,
                self.staked as int,
                self.shares as int,
            ),
    {
        let staked: u128 = self.staked.saturating_sub(rewards);
        let shares: u128 = self.shares.saturating_sub(burned);
        if staked == 0 {
            return fee;
        }
        muldiv128(fee, shares, staked)
    }

    /// What shares are worth.
    pub fn amount_for_shares(self, shares: u128) -> (amount: u128)
        ensures
            amount == worth_of_shares(shares as int, self.staked as int, self.shares as int),
    {
        if self.shares == 0 {
            return 0;
        }
        muldiv128(shares, self.staked, self.shares)
    }
}

/// The fee of `bps` hundredths of a percent on an amount.
pub fn fee_for(amount: u128, bps: u16) -> (fee: u128)
    requires
        bps <= 10_000,
    ensures
        fee == fee_on(amount as int, bps as int),
        fee <= amount,
{
    proof {
        lemma_part_of_whole(bps as int, 10_000, amount as int);
        assert(amount * bps == bps * amount) by (nonlinear_arith);
    }
    muldiv128(amount, bps as u128, 10_000)
}

/// A fee of at most a thousand hundredths of a percent is at most a tenth.
pub proof fn lemma_claim_fee_within_tenth(rewards: int, bps: int)
    requires
        rewards >= 0,
        0 <= bps <= 1_000,
    ensures
        0 <= fee_on(rewards, bps),
        fee_on(rewards, bps) * 10 <= rewards,
{
    assert(0 <= rewards * bps <= rewards * 1_000) by (nonlinear_arith)
        requires
            rewards >= 0,
            0 <= bps <= 1_000,
    ;
}

/// Shares that stand for no more than a holding is worth are no more than the
/// holding.
pub proof fn lemma_burn_within_holding(
    amount: int,
    holding: int,
    total_staked: int,
    total_shares: int,
)
    requires
        0 < amount <= worth_of_shares(holding, total_staked, total_shares),
        0 <= holding <= u128::MAX,
        total_staked >= 0,
        total_shares >= 0,
    ensures
        total_staked > 0,
        total_shares > 0,
        amount * total_shares <= holding * total_staked,
        shares_of_amount(amount, total_staked, total_shares) == amount * total_shares
            / total_staked,
        0 <= shares_of_amount(amount, total_staked, total_shares) <= holding,
{
    let product = holding * total_staked;
    assert(amount <= product / total_shares);
    assert(product >= 0) by (nonlinear_arith)
        requires
            holding >= 0,
            total_staked >= 0,
            product == holding * total_staked,
    ;
    assert(amount * total_shares <= product) by (nonlinear_arith)
        requires
            amount <= product / total_shares,
            total_shares > 0,
    ;
    assert(total_staked > 0) by (nonlinear_arith)
        requires
            amount * total_shares <= holding * total_staked,
            amount > 0,
            total_shares > 0,
            total_staked >= 0,
    ;
    lemma_product_quotient_nonnegative(amount, total_shares, total_staked);
    vstd::arithmetic::div_mod::lemma_div_is_ordered(amount * total_shares, product, total_staked);
    vstd::arithmetic::div_mod::lemma_div_by_multiple(holding, total_staked);
}

} // verus!
