//! What the pool's notions and actions come to in plain numbers: every rounding by
//! the inequalities that it obeys, every refusal by the condition on which it comes.

use vstd::prelude::*;

use crate::books::lemma_net_deposit_positive;
use crate::delegator::Delegator;
use crate::muldiv::{
    lemma_part_of_whole, lemma_product_quotient_nonnegative, lemma_quotient_at_least,
    lemma_quotient_at_most, muldiv,
};
use crate::pool::{is_payment, is_restake, StakeAction, StakingPool, Transfer};
use crate::pool_error::PoolError;
use crate::pool_rules::{
    claim_outcome, claim_payment, compound_outcome, deposit_outcome, fix_pool_outcome,
    fix_shares_outcome, fix_unstaked_outcome, net_deposit, ping_outcome, set_paused_outcome,
    sync_principal_outcome, unstake_all_outcome, unstake_outcome, update_fees_outcome,
    withdraw_outcome, CallContext, PoolState,
};
use crate::shares::{
    fee_on, lemma_burn_within_holding, lemma_claim_fee_within_tenth, shares_of_amount,
    shares_of_deposit, shares_of_fee, staked_after_ping, worth_of_shares,
};

verus! {

// Rounding.

/// `q` is what `n / d` is, rounded down.
pub open spec fn is_quotient(q: int, n: int, d: int) -> bool {
    q * d <= n < q * d + d
}

/// `q` is what `n / d` is, rounded down, or the largest `u128` where that is less.
pub open spec fn is_capped_quotient(q: int, n: int, d: int) -> bool {
    &&& 0 <= q <= u128::MAX
    &&& q * d <= n
    &&& n < q * d + d || q == u128::MAX
}

/// Multiply-then-divide rounds down, is held at the largest number, and is zero where
/// the divisor is.
pub proof fn law_muldiv(a: int, b: int, c: int)
    requires
        a >= 0,
        b >= 0,
        c >= 0,
    ensures
        c == 0 ==> muldiv(a, b, c) == 0,
        c > 0 ==> is_capped_quotient(muldiv(a, b, c), a * b, c),
{
    if c > 0 {
        let n = a * b;
        let q = n / c;
        lemma_product_quotient_nonnegative(a, b, c);
        assert(q * c <= n < q * c + c) by (nonlinear_arith)
            requires
                q == n / c,
                c > 0,
        ;
        if q > u128::MAX {
            assert(u128::MAX * c <= q * c) by (nonlinear_arith)
                requires
                    u128::MAX <= q,
                    c > 0,
            ;
        }
    }
}

/// A quotient is the only one.
pub proof fn law_quotient_is_one(p: int, q: int, n: int, d: int)
    requires
        d > 0,
    ensures
        is_quotient(p, n, d) && is_quotient(q, n, d) ==> p == q,
        is_capped_quotient(p, n, d) && is_capped_quotient(q, n, d) ==> p == q,
{
    if q * d <= n && n < p * d + d {
        assert(q <= p) by (nonlinear_arith)
            requires
                q * d < p * d + d,
                d > 0,
        ;
    }
    if p * d <= n && n < q * d + d {
        assert(p <= q) by (nonlinear_arith)
            requires
                p * d < q * d + d,
                d > 0,
        ;
    }
}

/// A fee is its hundredths of a percent of the amount, rounded down.
pub proof fn law_fee(amount: int, bps: int)
    ensures
        fee_on(amount, bps) * 10_000 <= amount * bps,
        amount * bps < (fee_on(amount, bps) + 1) * 10_000,
{
}

/// What is left of `a` when `b` is taken away, and nothing where `b` is more.
pub open spec fn rest_of(a: int, b: int) -> int {
    if b <= a {
        a - b
    } else {
        0
    }
}

// Shares.

/// What shares are worth: their part of the staked balance, and nothing while there
/// are no shares.
pub open spec fn is_worth(worth: int, shares: int, total_staked: int, total_shares: int) -> bool {
    if total_shares == 0 {
        worth == 0
    } else {
        is_capped_quotient(worth, shares * total_staked, total_shares)
    }
}

/// How many shares an amount buys or costs: its part of the shares, and one for each
/// unit while nothing is staked.
pub open spec fn is_price(shares: int, amount: int, total_staked: int, total_shares: int) -> bool {
    if total_staked == 0 {
        shares == amount
    } else {
        is_capped_quotient(shares, amount * total_shares, total_staked)
    }
}

/// Shares, their worth, and the shares for a fee follow the price.
pub proof fn law_share_prices(amount: int, total_staked: int, total_shares: int)
    requires
        amount >= 0,
        total_staked >= 0,
        total_shares >= 0,
    ensures
        is_worth(
            worth_of_shares(amount, total_staked, total_shares),
            amount,
            total_staked,
            total_shares,
        ),
        is_price(
            shares_of_amount(amount, total_staked, total_shares),
            amount,
            total_staked,
            total_shares,
        ),
        total_shares == 0 ==> shares_of_deposit(amount, total_staked, total_shares) == amount,
        total_shares > 0 ==> is_price(
            shares_of_deposit(amount, total_staked, total_shares),
            amount,
            total_staked,
            total_shares,
        ),
{
    law_muldiv(amount, total_staked, total_shares);
    law_muldiv(amount, total_shares, total_staked);
}

/// The shares for a fee are counted in what is left of the pool.
pub proof fn law_fee_shares(
    fee: int,
    rewards: int,
    burned: int,
    total_staked: int,
    total_shares: int,
)
    requires
        fee >= 0,
        rewards >= 0,
        burned >= 0,
        total_staked >= 0,
        total_shares >= 0,
    ensures
        is_price(
            shares_of_fee(fee, rewards, burned, total_staked, total_shares),
            fee,
            rest_of(total_staked, rewards),
            rest_of(total_shares, burned),
        ),
{
    law_share_prices(fee, rest_of(total_staked, rewards), rest_of(total_shares, burned));
}

// What a pool holds.

/// The record of an account is the one on file, and all zeros where there is none.
pub proof fn law_record(pool: PoolState, account: Seq<char>)
    ensures
        pool.delegators.contains_key(account) ==> pool.record(account)
            == pool.delegators[account],
        !pool.delegators.contains_key(account) ==> pool.record(account).stake_shares == 0
            && pool.record(account).principal == 0 && pool.record(account).unstaked_balance == 0
            && pool.record(account).unstake_available_epoch == 0 && pool.record(
            account,
        ).unlock_timestamp_ns == 0,
{
}

/// The totals of a pool fit in a `u128`.
pub open spec fn totals_fit(pool: PoolState) -> bool {
    &&& 0 <= pool.total_staked <= u128::MAX
    &&& 0 <= pool.total_shares <= u128::MAX
    &&& 0 <= pool.last_locked <= u128::MAX
}

/// What shares are worth in a pool, what an account has staked, and what of that is
/// reward.
pub proof fn law_stake_and_rewards(pool: PoolState, shares: int, account: Seq<char>)
    requires
        totals_fit(pool),
        shares >= 0,
    ensures
        is_worth(pool.worth(shares), shares, pool.total_staked, pool.total_shares),
        is_worth(
            pool.staked_by(account),
            pool.record(account).stake_shares as int,
            pool.total_staked,
            pool.total_shares,
        ),
        pool.staked_by(account) > pool.record(account).principal ==> pool.rewards_of(account)
            == pool.staked_by(account) - pool.record(account).principal,
        pool.staked_by(account) <= pool.record(account).principal ==> pool.rewards_of(account)
            == 0,
{
    law_share_prices(shares, pool.total_staked, pool.total_shares);
    law_share_prices(
        pool.record(account).stake_shares as int,
        pool.total_staked,
        pool.total_shares,
    );
}

/// A valid pool has totals that fit in a `u128`, a deposit fee of at most a tenth of a
/// percent and a claim fee of at most ten percent.
pub proof fn law_valid(pool: PoolState)
    ensures
        pool.valid() <==> 0 <= pool.total_staked <= u128::MAX && 0 <= pool.total_shares
            <= u128::MAX && 0 <= pool.last_locked <= u128::MAX && pool.deposit_fee_bps <= 10
            && pool.claim_fee_bps <= 1_000,
{
}

/// A pool shows its fields as they are, and is sound while its fees are in bounds.
pub proof fn law_view(pool: StakingPool)
    ensures
        pool@.owner == pool.owner_id@,
        pool@.staking_key == pool.staking_key_bytes@,
        pool@.deposit_fee_bps == pool.deposit_fee_bps,
        pool@.claim_fee_bps == pool.claim_fee_bps,
        pool@.total_staked == pool.total_staked_balance,
        pool@.total_shares == pool.total_stake_shares,
        pool@.last_locked == pool.last_locked_balance,
        pool@.delegators == pool.delegators@,
        pool@.paused == pool.paused,
        pool.wf() <==> pool.deposit_fee_bps <= 10 && pool.claim_fee_bps <= 1_000,
        pool.wf() ==> pool@.valid(),
{
}

/// Everything but the totals and the records is the same.
pub open spec fn same_settings(a: PoolState, b: PoolState) -> bool {
    &&& a.owner == b.owner
    &&& a.staking_key == b.staking_key
    &&& a.deposit_fee_bps == b.deposit_fee_bps
    &&& a.claim_fee_bps == b.claim_fee_bps
    &&& a.paused == b.paused
}

/// The totals are the same.
pub open spec fn same_totals(a: PoolState, b: PoolState) -> bool {
    &&& a.total_staked == b.total_staked
    &&& a.total_shares == b.total_shares
    &&& a.last_locked == b.last_locked
}

/// There is a record of the account, and all other records are the same.
pub open spec fn only_record_changed(a: PoolState, b: PoolState, account: Seq<char>) -> bool {
    &&& b.delegators.contains_key(account)
    &&& a.delegators.remove(account) == b.delegators.remove(account)
}

// Counting what is locked.

/// What is staked once the lock is counted. A reward adds the pool's part of it, and
/// all of it where the pool has at least all that was locked. A loss takes the pool's
/// part of it. Nothing changes while no lock is on record.
pub open spec fn is_staked_after_count(
    staked: int,
    total_staked: int,
    last_locked: int,
    locked: int,
) -> bool {
    if last_locked == 0 || locked == last_locked {
        staked == total_staked
    } else if locked < last_locked {
        is_quotient(total_staked - staked, (last_locked - locked) * total_staked, last_locked)
    } else if total_staked >= last_locked {
        staked - total_staked == locked - last_locked
    } else {
        is_quotient(staked - total_staked, (locked - last_locked) * total_staked, last_locked)
    }
}

/// Rewards and losses are attributed in proportion to what was locked.
pub proof fn law_attribution(total_staked: int, last_locked: int, locked: int)
    requires
        total_staked >= 0,
        last_locked >= 0,
        locked >= 0,
    ensures
        is_staked_after_count(
            staked_after_ping(total_staked, last_locked, locked),
            total_staked,
            last_locked,
            locked,
        ),
        staked_after_ping(total_staked, last_locked, locked) >= 0,
{
    if last_locked > 0 && locked > last_locked {
        let reward = locked - last_locked;
        let n = reward * total_staked;
        let q = n / last_locked;
        lemma_product_quotient_nonnegative(reward, total_staked, last_locked);
        if total_staked >= last_locked {
            assert(n >= reward * last_locked) by (nonlinear_arith)
                requires
                    n == reward * total_staked,
                    total_staked >= last_locked,
                    reward >= 0,
            ;
            lemma_quotient_at_least(n, last_locked, reward);
        } else {
            lemma_part_of_whole(total_staked, last_locked, reward);
            assert(total_staked * reward == n) by (nonlinear_arith)
                requires
                    n == reward * total_staked,
            ;
            assert(q * last_locked <= n < q * last_locked + last_locked) by (nonlinear_arith)
                requires
                    q == n / last_locked,
                    last_locked > 0,
            ;
        }
    } else if last_locked > 0 && locked < last_locked {
        let loss = last_locked - locked;
        let n = loss * total_staked;
        let q = n / last_locked;
        lemma_part_of_whole(loss, last_locked, total_staked);
        assert(q * last_locked <= n < q * last_locked + last_locked) by (nonlinear_arith)
            requires
                q == n / last_locked,
                last_locked > 0,
        ;
    }
}

/// A ping counts what is locked and changes nothing else. It is refused just where
/// the staked balance would not fit.
pub proof fn law_ping_effect(pool: PoolState, call: CallContext)
    requires
        totals_fit(pool),
    ensures
        is_staked_after_count(
            pool.pinged(call.locked_balance as int).total_staked,
            pool.total_staked,
            pool.last_locked,
            call.locked_balance as int,
        ),
        pool.pinged(call.locked_balance as int).last_locked == call.locked_balance,
        pool.pinged(call.locked_balance as int).total_shares == pool.total_shares,
        pool.pinged(call.locked_balance as int).delegators == pool.delegators,
        same_settings(pool.pinged(call.locked_balance as int), pool),
        0 <= pool.pinged(call.locked_balance as int).total_staked,
        pool.pinged(call.locked_balance as int).total_staked <= u128::MAX ==> ping_outcome(
            pool,
            call,
        ) == Ok::<PoolState, PoolError>(pool.pinged(call.locked_balance as int)),
        pool.pinged(call.locked_balance as int).total_staked > u128::MAX ==> ping_outcome(
            pool,
            call,
        ) == Err::<PoolState, PoolError>(PoolError::Overflow),
{
    law_attribution(pool.total_staked, pool.last_locked, call.locked_balance as int);
}

// Deposits.

/// What is staked when a deposit buys its shares: the first shares are bought before
/// any lock is counted.
pub open spec fn staked_before_deposit(pool: PoolState, call: CallContext) -> int {
    if pool.total_shares == 0 {
        pool.total_staked
    } else {
        pool.pinged(call.locked_balance as int).total_staked
    }
}

/// A deposit takes its fee, buys shares for the rest, and stakes it. The principal
/// grows by what the new shares are worth afterwards, whoever deposits and whatever
/// they have staked before. The lock is renewed for 48 hours.
pub proof fn law_deposit_effect(pool: PoolState, call: CallContext, next: PoolState)
    requires
        pool.valid(),
        deposit_outcome(pool, call) == Ok::<PoolState, PoolError>(next),
    ensures
        is_quotient(
            call.attached_deposit - net_deposit(pool, call.attached_deposit as int),
            call.attached_deposit * pool.deposit_fee_bps,
            10_000,
        ),
        next.total_staked == staked_before_deposit(pool, call) + net_deposit(
            pool,
            call.attached_deposit as int,
        ),
        pool.total_shares == 0 ==> next.total_shares == net_deposit(
            pool,
            call.attached_deposit as int,
        ),
        pool.total_shares > 0 ==> is_price(
            next.total_shares - pool.total_shares,
            net_deposit(pool, call.attached_deposit as int),
            staked_before_deposit(pool, call),
            pool.total_shares,
        ),
        next.last_locked == call.locked_balance,
        same_settings(next, pool),
        only_record_changed(pool, next, call.predecessor@),
        next.record(call.predecessor@).stake_shares - pool.record(call.predecessor@).stake_shares
            == next.total_shares - pool.total_shares,
        is_worth(
            next.record(call.predecessor@).principal - pool.record(call.predecessor@).principal,
            next.total_shares - pool.total_shares,
            next.total_staked,
            next.total_shares,
        ),
        next.record(call.predecessor@).unstaked_balance == pool.record(
            call.predecessor@,
        ).unstaked_balance,
        next.record(call.predecessor@).unstake_available_epoch == pool.record(
            call.predecessor@,
        ).unstake_available_epoch,
        next.record(call.predecessor@).unlock_timestamp_ns == call.block_timestamp
            + 172_800_000_000_000,
{
    let t = staked_before_deposit(pool, call);
    let net = net_deposit(pool, call.attached_deposit as int);
    lemma_net_deposit_positive(pool, call.attached_deposit as int);
    law_attribution(pool.total_staked, pool.last_locked, call.locked_balance as int);
    law_share_prices(net, t, pool.total_shares);
    law_share_prices(next.total_shares - pool.total_shares, next.total_staked, next.total_shares);
    assert(pool.delegators.remove(call.predecessor@) =~= next.delegators.remove(
        call.predecessor@,
    ));
}

/// A deposit is refused while the pool is paused, below one token, and where a number
/// would not fit; otherwise it succeeds. Here `shares` are the shares that it buys,
/// and `worth` is what they are worth afterwards.
pub proof fn law_when_deposit_succeeds(
    pool: PoolState,
    call: CallContext,
    shares: int,
    worth: int,
)
    requires
        pool.valid(),
        pool.total_shares == 0 ==> shares == net_deposit(pool, call.attached_deposit as int),
        pool.total_shares > 0 ==> is_price(
            shares,
            net_deposit(pool, call.attached_deposit as int),
            staked_before_deposit(pool, call),
            pool.total_shares,
        ),
        is_worth(
            worth,
            shares,
            staked_before_deposit(pool, call) + net_deposit(pool, call.attached_deposit as int),
            pool.total_shares + shares,
        ),
    ensures
        pool.paused ==> deposit_outcome(pool, call) == Err::<PoolState, PoolError>(
            PoolError::Paused,
        ),
        !pool.paused && staked_before_deposit(pool, call) > u128::MAX ==> deposit_outcome(
            pool,
            call,
        ) == Err::<PoolState, PoolError>(PoolError::Overflow),
        !pool.paused && staked_before_deposit(pool, call) <= u128::MAX && call.attached_deposit
            < 1_000_000_000_000_000_000_000_000 ==> deposit_outcome(pool, call) == Err::<
            PoolState,
            PoolError,
        >(PoolError::DepositTooSmall),
        !pool.paused && staked_before_deposit(pool, call) <= u128::MAX && call.attached_deposit
            >= 1_000_000_000_000_000_000_000_000 ==> (deposit_outcome(pool, call) is Ok <==> {
            &&& staked_before_deposit(pool, call) + net_deposit(pool, call.attached_deposit as int)
                <= u128::MAX
            &&& pool.total_shares + shares <= u128::MAX
            &&& pool.record(call.predecessor@).stake_shares + shares <= u128::MAX
            &&& pool.record(call.predecessor@).principal + worth <= u128::MAX
            &&& call.block_timestamp + 172_800_000_000_000 <= u64::MAX
        }),
        !pool.paused && staked_before_deposit(pool, call) <= u128::MAX && call.attached_deposit
            >= 1_000_000_000_000_000_000_000_000 && deposit_outcome(pool, call) is Err
            ==> deposit_outcome(pool, call) == Err::<PoolState, PoolError>(PoolError::Overflow),
{
    let t = staked_before_deposit(pool, call);
    let h = pool.total_shares;
    let amount = call.attached_deposit as int;
    let net = net_deposit(pool, amount);
    law_attribution(pool.total_staked, pool.last_locked, call.locked_balance as int);
    if amount >= 1_000_000_000_000_000_000_000_000 {
        lemma_net_deposit_positive(pool, amount);
        law_share_prices(net, t, h);
        if h > 0 && t > 0 {
            law_quotient_is_one(shares, shares_of_deposit(net, t, h), net * h, t);
        }
        law_share_prices(shares, t + net, h + shares);
        if h + shares > 0 {
            law_quotient_is_one(
                worth,
                worth_of_shares(shares, t + net, h + shares),
                shares * (t + net),
                h + shares,
            );
        }
    }
}

// Unstaking and withdrawing.

/// An unstake moves the amount from the stake to the unstaked balance and burns the
/// shares that it stands for. The principal falls by the amount, and not below zero,
/// whatever rewards there are. The lock is renewed for 48 hours, and the unstaked
/// balance unbonds for four epochs.
pub proof fn law_unstake_effect(
    pool: PoolState,
    call: CallContext,
    amount: int,
    next: PoolState,
)
    requires
        totals_fit(pool),
        amount >= 0,
        unstake_outcome(pool, call, amount) == Ok::<PoolState, PoolError>(next),
    ensures
        next.total_staked == rest_of(
            pool.pinged(call.locked_balance as int).total_staked,
            amount,
        ),
        is_price(
            pool.record(call.predecessor@).stake_shares - next.record(
                call.predecessor@,
            ).stake_shares,
            amount,
            pool.pinged(call.locked_balance as int).total_staked,
            pool.total_shares,
        ),
        next.total_shares == rest_of(
            pool.total_shares,
            pool.record(call.predecessor@).stake_shares - next.record(
                call.predecessor@,
            ).stake_shares,
        ),
        next.last_locked == call.locked_balance,
        same_settings(next, pool),
        only_record_changed(pool, next, call.predecessor@),
        amount <= pool.record(call.predecessor@).principal ==> next.record(
            call.predecessor@,
        ).principal == pool.record(call.predecessor@).principal - amount,
        amount > pool.record(call.predecessor@).principal ==> next.record(
            call.predecessor@,
        ).principal == 0,
        next.record(call.predecessor@).unstaked_balance == pool.record(
            call.predecessor@,
        ).unstaked_balance + amount,
        next.record(call.predecessor@).unstake_available_epoch == call.epoch_height + 4,
        next.record(call.predecessor@).unlock_timestamp_ns == call.block_timestamp
            + 172_800_000_000_000,
{
    let before = pool.pinged(call.locked_balance as int);
    let s = pool.record(call.predecessor@).stake_shares as int;
    law_attribution(pool.total_staked, pool.last_locked, call.locked_balance as int);
    lemma_burn_within_holding(amount, s, before.total_staked, before.total_shares);
    law_share_prices(amount, before.total_staked, before.total_shares);
    assert(pool.delegators.remove(call.predecessor@) =~= next.delegators.remove(
        call.predecessor@,
    ));
}

/// An unstake needs a record, a lock that is over, and an amount above zero and within
/// the stake; then it succeeds, unless a number would not fit.
pub proof fn law_when_unstake_succeeds(pool: PoolState, call: CallContext, amount: int)
    requires
        totals_fit(pool),
        amount >= 0,
    ensures
        pool.pinged(call.locked_balance as int).total_staked > u128::MAX ==> unstake_outcome(
            pool,
            call,
            amount,
        ) == Err::<PoolState, PoolError>(PoolError::Overflow),
        pool.pinged(call.locked_balance as int).total_staked <= u128::MAX
            && !pool.delegators.contains_key(call.predecessor@) ==> unstake_outcome(
            pool,
            call,
            amount,
        ) == Err::<PoolState, PoolError>(PoolError::NoStake),
        pool.pinged(call.locked_balance as int).total_staked <= u128::MAX && call.block_timestamp
            < pool.record(call.predecessor@).unlock_timestamp_ns ==> unstake_outcome(
            pool,
            call,
            amount,
        ) == Err::<PoolState, PoolError>(PoolError::StillLocked),
        pool.pinged(call.locked_balance as int).total_staked <= u128::MAX
            && pool.delegators.contains_key(call.predecessor@) && call.block_timestamp
            >= pool.record(call.predecessor@).unlock_timestamp_ns && (amount == 0 || amount
            > pool.pinged(call.locked_balance as int).staked_by(call.predecessor@))
            ==> unstake_outcome(pool, call, amount) == Err::<PoolState, PoolError>(
            PoolError::InvalidUnstakeAmount,
        ),
        pool.pinged(call.locked_balance as int).total_staked <= u128::MAX
            && pool.delegators.contains_key(call.predecessor@) && call.block_timestamp
            >= pool.record(call.predecessor@).unlock_timestamp_ns && 0 < amount <= pool.pinged(
            call.locked_balance as int,
        ).staked_by(call.predecessor@) ==> (unstake_outcome(pool, call, amount) is Ok <==> {
            &&& pool.record(call.predecessor@).unstaked_balance + amount <= u128::MAX
            &&& call.epoch_height + 4 <= u64::MAX
            &&& call.block_timestamp + 172_800_000_000_000 <= u64::MAX
        }),
        pool.pinged(call.locked_balance as int).total_staked <= u128::MAX
            && pool.delegators.contains_key(call.predecessor@) && call.block_timestamp
            >= pool.record(call.predecessor@).unlock_timestamp_ns && 0 < amount <= pool.pinged(
            call.locked_balance as int,
        ).staked_by(call.predecessor@) && unstake_outcome(pool, call, amount) is Err
            ==> unstake_outcome(pool, call, amount) == Err::<PoolState, PoolError>(
            PoolError::Overflow,
        ),
{
    law_attribution(pool.total_staked, pool.last_locked, call.locked_balance as int);
}

/// Unstaking everything is unstaking what is staked after the count, if that is
/// anything.
pub proof fn law_unstake_all_effect(pool: PoolState, call: CallContext)
    requires
        totals_fit(pool),
    ensures
        pool.pinged(call.locked_balance as int).total_staked > u128::MAX ==> unstake_all_outcome(
            pool,
            call,
        ) == Err::<PoolState, PoolError>(PoolError::Overflow),
        pool.pinged(call.locked_balance as int).total_staked <= u128::MAX
            && !pool.delegators.contains_key(call.predecessor@) ==> unstake_all_outcome(pool, call)
            == Err::<PoolState, PoolError>(PoolError::NoStake),
        pool.pinged(call.locked_balance as int).total_staked <= u128::MAX
            && pool.delegators.contains_key(call.predecessor@) && pool.pinged(
            call.locked_balance as int,
        ).staked_by(call.predecessor@) == 0 ==> unstake_all_outcome(pool, call) == Err::<
            PoolState,
            PoolError,
        >(PoolError::NothingToUnstake),
        pool.pinged(call.locked_balance as int).total_staked <= u128::MAX
            && pool.delegators.contains_key(call.predecessor@) && pool.pinged(
            call.locked_balance as int,
        ).staked_by(call.predecessor@) > 0 ==> unstake_all_outcome(pool, call) == unstake_outcome(
            pool,
            call,
            pool.pinged(call.locked_balance as int).staked_by(call.predecessor@),
        ),
{
    law_attribution(pool.total_staked, pool.last_locked, call.locked_balance as int);
}

/// A withdrawal clears the unstaked balance and its epoch, and touches nothing else.
pub proof fn law_withdrawal_effect(pool: PoolState, call: CallContext, next: PoolState)
    requires
        withdraw_outcome(pool, call) == Ok::<PoolState, PoolError>(next),
    ensures
        same_settings(next, pool),
        same_totals(next, pool),
        only_record_changed(pool, next, call.predecessor@),
        next.record(call.predecessor@).unstaked_balance == 0,
        next.record(call.predecessor@).unstake_available_epoch == 0,
        next.record(call.predecessor@).stake_shares == pool.record(
            call.predecessor@,
        ).stake_shares,
        next.record(call.predecessor@).principal == pool.record(call.predecessor@).principal,
        next.record(call.predecessor@).unlock_timestamp_ns == pool.record(
            call.predecessor@,
        ).unlock_timestamp_ns,
{
    assert(pool.delegators.remove(call.predecessor@) =~= next.delegators.remove(
        call.predecessor@,
    ));
}

/// A withdrawal is refused for want of a record, of an unstaked balance, or because
/// that is still unbonding, in this order.
pub proof fn law_when_withdrawal_is_refused(pool: PoolState, call: CallContext)
    ensures
        !pool.delegators.contains_key(call.predecessor@) ==> withdraw_outcome(pool, call) == Err::<
            PoolState,
            PoolError,
        >(PoolError::NoWithdrawal),
        pool.delegators.contains_key(call.predecessor@) && pool.record(
            call.predecessor@,
        ).unstaked_balance == 0 ==> withdraw_outcome(pool, call) == Err::<PoolState, PoolError>(
            PoolError::NoUnstakedBalance,
        ),
        pool.record(call.predecessor@).unstaked_balance > 0 && call.epoch_height < pool.record(
            call.predecessor@,
        ).unstake_available_epoch ==> withdraw_outcome(pool, call) == Err::<PoolState, PoolError>(
            PoolError::StillUnbonding,
        ),
        pool.record(call.predecessor@).unstaked_balance > 0 && call.epoch_height >= pool.record(
            call.predecessor@,
        ).unstake_available_epoch ==> withdraw_outcome(pool, call) is Ok,
{
}

// Claims and compounds.

/// A claim pays the rewards less the fee, and the fee is the pool's claim fee on the
/// rewards, rounded down.
pub proof fn law_claim_payment(pool: PoolState, call: CallContext)
    requires
        pool.valid(),
    ensures
        is_quotient(
            pool.pinged(call.locked_balance as int).rewards_of(call.predecessor@) - claim_payment(
                pool,
                call,
            ),
            pool.pinged(call.locked_balance as int).rewards_of(call.predecessor@)
                * pool.claim_fee_bps,
            10_000,
        ),
{
}

/// A claim takes the payment out of the stake. The claimant loses the shares that the
/// rewards stand for and keeps the principal; the owner gets the fee as principal and
/// as shares, which are counted in what is left of the pool. The claimant's lock is
/// renewed for 48 hours.
pub proof fn law_claim_effect(
    pool: PoolState,
    call: CallContext,
    next: PoolState,
    burned: int,
    bought: int,
)
    requires
        pool.valid(),
        claim_outcome(pool, call) == Ok::<PoolState, PoolError>(next),
        is_price(
            burned,
            pool.pinged(call.locked_balance as int).rewards_of(call.predecessor@),
            pool.pinged(call.locked_balance as int).total_staked,
            pool.total_shares,
        ),
        is_price(
            bought,
            pool.pinged(call.locked_balance as int).rewards_of(call.predecessor@) - claim_payment(
                pool,
                call,
            ),
            rest_of(
                pool.pinged(call.locked_balance as int).total_staked,
                pool.pinged(call.locked_balance as int).rewards_of(call.predecessor@),
            ),
            rest_of(pool.total_shares, burned),
        ),
    ensures
        next.total_staked == rest_of(
            pool.pinged(call.locked_balance as int).total_staked,
            claim_payment(pool, call),
        ),
        rest_of(pool.total_shares, burned) + bought <= u128::MAX ==> next.total_shares == rest_of(
            pool.total_shares,
            burned,
        ) + bought,
        rest_of(pool.total_shares, burned) + bought > u128::MAX ==> next.total_shares
            == u128::MAX,
        next.last_locked == call.locked_balance,
        same_settings(next, pool),
        next.delegators.contains_key(call.predecessor@),
        next.record(call.predecessor@).unlock_timestamp_ns == call.block_timestamp
            + 172_800_000_000_000,
        next.record(call.predecessor@).unstaked_balance == pool.record(
            call.predecessor@,
        ).unstaked_balance,
        next.record(call.predecessor@).unstake_available_epoch == pool.record(
            call.predecessor@,
        ).unstake_available_epoch,
        call.predecessor@ == pool.owner ==> {
            &&& only_record_changed(pool, next, pool.owner)
            &&& next.record(pool.owner).stake_shares == pool.record(pool.owner).stake_shares
                - burned + bought
            &&& next.record(pool.owner).principal == pool.record(pool.owner).principal
                + pool.pinged(call.locked_balance as int).rewards_of(pool.owner) - claim_payment(
                pool,
                call,
            )
        },
        call.predecessor@ != pool.owner ==> {
            &&& next.record(call.predecessor@).stake_shares == pool.record(
                call.predecessor@,
            ).stake_shares - burned
            &&& next.record(call.predecessor@).principal == pool.record(
                call.predecessor@,
            ).principal
            &&& next.record(pool.owner).stake_shares == pool.record(pool.owner).stake_shares
                + bought
            &&& next.record(pool.owner).principal == pool.record(pool.owner).principal
                + pool.pinged(call.locked_balance as int).rewards_of(call.predecessor@)
                - claim_payment(pool, call)
            &&& next.record(pool.owner).unstaked_balance == pool.record(
                pool.owner,
            ).unstaked_balance
            &&& next.record(pool.owner).unstake_available_epoch == pool.record(
                pool.owner,
            ).unstake_available_epoch
            &&& next.record(pool.owner).unlock_timestamp_ns == pool.record(
                pool.owner,
            ).unlock_timestamp_ns
            &&& pool.delegators.remove(call.predecessor@).remove(pool.owner)
                == next.delegators.remove(call.predecessor@).remove(pool.owner)
        },
{
    lemma_claim_numbers(pool, call, burned, bought);
    assert(pool.delegators.remove(call.predecessor@).remove(pool.owner) =~= next.delegators.remove(
        call.predecessor@,
    ).remove(pool.owner));
    if call.predecessor@ == pool.owner {
        assert(pool.delegators.remove(pool.owner) =~= next.delegators.remove(pool.owner));
    }
}

/// The shares of a claim are those of the outcome.
proof fn lemma_claim_numbers(pool: PoolState, call: CallContext, burned: int, bought: int)
    requires
        pool.valid(),
        pool.pinged(call.locked_balance as int).rewards_of(call.predecessor@) > 0,
        pool.pinged(call.locked_balance as int).total_staked <= u128::MAX,
        is_price(
            burned,
            pool.pinged(call.locked_balance as int).rewards_of(call.predecessor@),
            pool.pinged(call.locked_balance as int).total_staked,
            pool.total_shares,
        ),
        is_price(
            bought,
            pool.pinged(call.locked_balance as int).rewards_of(call.predecessor@) - claim_payment(
                pool,
                call,
            ),
            rest_of(
                pool.pinged(call.locked_balance as int).total_staked,
                pool.pinged(call.locked_balance as int).rewards_of(call.predecessor@),
            ),
            rest_of(pool.total_shares, burned),
        ),
    ensures
        ({
            let before = pool.pinged(call.locked_balance as int);
            let s = pool.record(call.predecessor@).stake_shares as int;
            let r = before.rewards_of(call.predecessor@);
            let fee = r - claim_payment(pool, call);
            &&& burned == shares_of_amount(r, before.total_staked, pool.total_shares)
            &&& bought == shares_of_fee(fee, r, burned, before.total_staked, pool.total_shares)
            &&& 0 <= burned <= s
            &&& bought >= 0
            &&& 0 <= fee <= r
            &&& fee == 0 ==> bought == 0
        }),
{
    let before = pool.pinged(call.locked_balance as int);
    let t = before.total_staked;
    let h = pool.total_shares;
    let s = pool.record(call.predecessor@).stake_shares as int;
    let r = before.rewards_of(call.predecessor@);
    let fee = r - claim_payment(pool, call);
    law_attribution(pool.total_staked, pool.last_locked, call.locked_balance as int);
    lemma_burn_within_holding(r, s, t, h);
    lemma_claim_fee_within_tenth(r, pool.claim_fee_bps as int);
    law_share_prices(r, t, h);
    law_quotient_is_one(burned, shares_of_amount(r, t, h), r * h, t);
    law_fee_shares(fee, r, burned, t, h);
    if t > r {
        let left = rest_of(h, burned);
        law_quotient_is_one(bought, shares_of_fee(fee, r, burned, t, h), fee * left, t - r);
        if fee == 0 {
            assert(0 * left == 0) by (nonlinear_arith);
            lemma_quotient_at_most(0, t - r, 0);
        }
    }
}

/// A claim needs a record, a lock that is over, and rewards of any size above zero;
/// then it succeeds, unless a number would not fit.
pub proof fn law_when_claim_succeeds(
    pool: PoolState,
    call: CallContext,
    burned: int,
    bought: int,
)
    requires
        pool.valid(),
        is_price(
            burned,
            pool.pinged(call.locked_balance as int).rewards_of(call.predecessor@),
            pool.pinged(call.locked_balance as int).total_staked,
            pool.total_shares,
        ),
        is_price(
            bought,
            pool.pinged(call.locked_balance as int).rewards_of(call.predecessor@) - claim_payment(
                pool,
                call,
            ),
            rest_of(
                pool.pinged(call.locked_balance as int).total_staked,
                pool.pinged(call.locked_balance as int).rewards_of(call.predecessor@),
            ),
            rest_of(pool.total_shares, burned),
        ),
    ensures
        pool.pinged(call.locked_balance as int).total_staked > u128::MAX ==> claim_outcome(
            pool,
            call,
        ) == Err::<PoolState, PoolError>(PoolError::Overflow),
        pool.pinged(call.locked_balance as int).total_staked <= u128::MAX
            && !pool.delegators.contains_key(call.predecessor@) ==> claim_outcome(pool, call)
            == Err::<PoolState, PoolError>(PoolError::NoStake),
        pool.pinged(call.locked_balance as int).total_staked <= u128::MAX && call.block_timestamp
            < pool.record(call.predecessor@).unlock_timestamp_ns ==> claim_outcome(pool, call)
            == Err::<PoolState, PoolError>(PoolError::StillLocked),
        pool.pinged(call.locked_balance as int).total_staked <= u128::MAX
            && pool.delegators.contains_key(call.predecessor@) && call.block_timestamp
            >= pool.record(call.predecessor@).unlock_timestamp_ns && pool.pinged(
            call.locked_balance as int,
        ).staked_by(call.predecessor@) <= pool.record(call.predecessor@).principal
            ==> claim_outcome(pool, call) == Err::<PoolState, PoolError>(PoolError::NoRewards),
        pool.pinged(call.locked_balance as int).total_staked <= u128::MAX
            && pool.delegators.contains_key(call.predecessor@) && call.block_timestamp
            >= pool.record(call.predecessor@).unlock_timestamp_ns && pool.pinged(
            call.locked_balance as int,
        ).staked_by(call.predecessor@) > pool.record(call.predecessor@).principal ==> (
        claim_outcome(pool, call) is Ok <==> {
            &&& call.block_timestamp + 172_800_000_000_000 <= u64::MAX
            &&& pool.record(pool.owner).stake_shares + bought - (if call.predecessor@
                == pool.owner {
                burned
            } else {
                0
            }) <= u128::MAX
            &&& pool.record(pool.owner).principal + pool.pinged(
                call.locked_balance as int,
            ).rewards_of(call.predecessor@) - claim_payment(pool, call) <= u128::MAX
        }),
        pool.pinged(call.locked_balance as int).total_staked <= u128::MAX
            && pool.delegators.contains_key(call.predecessor@) && call.block_timestamp
            >= pool.record(call.predecessor@).unlock_timestamp_ns && pool.pinged(
            call.locked_balance as int,
        ).staked_by(call.predecessor@) > pool.record(call.predecessor@).principal && claim_outcome(
            pool,
            call,
        ) is Err ==> claim_outcome(pool, call) == Err::<PoolState, PoolError>(PoolError::Overflow),
{
    let before = pool.pinged(call.locked_balance as int);
    law_attribution(pool.total_staked, pool.last_locked, call.locked_balance as int);
    if before.total_staked <= u128::MAX && before.rewards_of(call.predecessor@) > 0 {
        lemma_claim_numbers(pool, call, burned, bought);
    }
}

/// A compound makes all that is staked principal and renews the lock for 48 hours.
/// Shares, unstaked balance and the others' records stay.
pub proof fn law_compound_effect(pool: PoolState, call: CallContext, next: PoolState)
    requires
        totals_fit(pool),
        compound_outcome(pool, call) == Ok::<PoolState, PoolError>(next),
    ensures
        same_settings(next, pool),
        same_totals(next, pool.pinged(call.locked_balance as int)),
        only_record_changed(pool, next, call.predecessor@),
        next.record(call.predecessor@).principal == pool.pinged(
            call.locked_balance as int,
        ).staked_by(call.predecessor@),
        next.record(call.predecessor@).stake_shares == pool.record(
            call.predecessor@,
        ).stake_shares,
        next.record(call.predecessor@).unstaked_balance == pool.record(
            call.predecessor@,
        ).unstaked_balance,
        next.record(call.predecessor@).unstake_available_epoch == pool.record(
            call.predecessor@,
        ).unstake_available_epoch,
        next.record(call.predecessor@).unlock_timestamp_ns == call.block_timestamp
            + 172_800_000_000_000,
{
    let before = pool.pinged(call.locked_balance as int);
    law_attribution(pool.total_staked, pool.last_locked, call.locked_balance as int);
    law_stake_and_rewards(before, 0, call.predecessor@);
    assert(pool.delegators.remove(call.predecessor@) =~= next.delegators.remove(
        call.predecessor@,
    ));
}

/// A compound succeeds with rewards of any size above zero, locked or not, and is
/// refused without.
pub proof fn law_when_compound_succeeds(pool: PoolState, call: CallContext)
    requires
        totals_fit(pool),
    ensures
        compound_outcome(pool, call) is Ok <==> {
            &&& pool.pinged(call.locked_balance as int).total_staked <= u128::MAX
            &&& pool.delegators.contains_key(call.predecessor@)
            &&& pool.pinged(call.locked_balance as int).staked_by(call.predecessor@) > pool.record(
                call.predecessor@,
            ).principal
            &&& call.block_timestamp + 172_800_000_000_000 <= u64::MAX
        },
        pool.pinged(call.locked_balance as int).total_staked > u128::MAX ==> compound_outcome(
            pool,
            call,
        ) == Err::<PoolState, PoolError>(PoolError::Overflow),
        pool.pinged(call.locked_balance as int).total_staked <= u128::MAX
            && !pool.delegators.contains_key(call.predecessor@) ==> compound_outcome(pool, call)
            == Err::<PoolState, PoolError>(PoolError::NoStake),
        pool.pinged(call.locked_balance as int).total_staked <= u128::MAX
            && pool.delegators.contains_key(call.predecessor@) && pool.pinged(
            call.locked_balance as int,
        ).staked_by(call.predecessor@) <= pool.record(call.predecessor@).principal
            ==> compound_outcome(pool, call) == Err::<PoolState, PoolError>(
            PoolError::NoRewardsToCompound,
        ),
        pool.pinged(call.locked_balance as int).total_staked <= u128::MAX
            && pool.delegators.contains_key(call.predecessor@) && pool.pinged(
            call.locked_balance as int,
        ).staked_by(call.predecessor@) > pool.record(call.predecessor@).principal
            && call.block_timestamp + 172_800_000_000_000 > u64::MAX ==> compound_outcome(
            pool,
            call,
        ) == Err::<PoolState, PoolError>(PoolError::Overflow),
{
    law_attribution(pool.total_staked, pool.last_locked, call.locked_balance as int);
}

/// Lowering a principal needs a record, sets the principal to the stake where it is
/// above that, and touches nothing else.
pub proof fn law_sync_principal_effect(pool: PoolState, call: CallContext)
    requires
        totals_fit(pool),
    ensures
        !pool.delegators.contains_key(call.predecessor@) ==> sync_principal_outcome(pool, call)
            == Err::<PoolState, PoolError>(PoolError::NoStake),
        pool.delegators.contains_key(call.predecessor@) ==> (sync_principal_outcome(
            pool,
            call,
        ) matches Ok(next) && {
            &&& same_settings(next, pool)
            &&& same_totals(next, pool)
            &&& only_record_changed(pool, next, call.predecessor@)
            &&& next.record(call.predecessor@) == (Delegator {
                principal: next.record(call.predecessor@).principal,
                ..pool.record(call.predecessor@)
            })
            &&& pool.staked_by(call.predecessor@) >= pool.record(call.predecessor@).principal
                ==> next.record(call.predecessor@).principal == pool.record(
                call.predecessor@,
            ).principal
            &&& pool.staked_by(call.predecessor@) < pool.record(call.predecessor@).principal
                ==> next.record(call.predecessor@).principal == pool.staked_by(call.predecessor@)
        }),
{
    law_stake_and_rewards(pool, 0, call.predecessor@);
    if let Ok(next) = sync_principal_outcome(pool, call) {
        assert(pool.delegators.remove(call.predecessor@) =~= next.delegators.remove(
            call.predecessor@,
        ));
    }
}

// The owner.

/// The owner sets both fees, up to a tenth of a percent on deposits and ten percent on
/// claims, and nothing else changes.
pub proof fn law_update_fees_effect(pool: PoolState, call: CallContext, deposit: u16, claim: u16)
    ensures
        call.predecessor@ != pool.owner ==> update_fees_outcome(pool, call, deposit, claim)
            == Err::<PoolState, PoolError>(PoolError::NotOwner),
        call.predecessor@ == pool.owner && deposit > 10 ==> update_fees_outcome(
            pool,
            call,
            deposit,
            claim,
        ) == Err::<PoolState, PoolError>(PoolError::UpdatedDepositFeeExceedsMax),
        call.predecessor@ == pool.owner && deposit <= 10 && claim > 1_000 ==> update_fees_outcome(
            pool,
            call,
            deposit,
            claim,
        ) == Err::<PoolState, PoolError>(PoolError::UpdatedClaimFeeExceedsMax),
        call.predecessor@ == pool.owner && deposit <= 10 && claim <= 1_000 ==> (
        update_fees_outcome(pool, call, deposit, claim) matches Ok(next) && {
            &&& next.deposit_fee_bps == deposit
            &&& next.claim_fee_bps == claim
            &&& next.owner == pool.owner
            &&& next.staking_key == pool.staking_key
            &&& next.paused == pool.paused
            &&& same_totals(next, pool)
            &&& next.delegators == pool.delegators
        }),
{
}

/// The owner pauses the pool or opens it, and nothing else changes.
pub proof fn law_set_paused_effect(pool: PoolState, call: CallContext, paused: bool)
    ensures
        call.predecessor@ != pool.owner ==> set_paused_outcome(pool, call, paused) == Err::<
            PoolState,
            PoolError,
        >(PoolError::NotOwner),
        call.predecessor@ == pool.owner ==> (set_paused_outcome(pool, call, paused) matches Ok(
            next,
        ) && {
            &&& next.paused == paused
            &&& next.owner == pool.owner
            &&& next.staking_key == pool.staking_key
            &&& next.deposit_fee_bps == pool.deposit_fee_bps
            &&& next.claim_fee_bps == pool.claim_fee_bps
            &&& same_totals(next, pool)
            &&& next.delegators == pool.delegators
        }),
{
}

/// The owner sets the staked balance and the lock on record, and nothing else changes.
pub proof fn law_fix_pool_effect(pool: PoolState, call: CallContext, staked: int, locked: int)
    ensures
        call.predecessor@ != pool.owner ==> fix_pool_outcome(pool, call, staked, locked) == Err::<
            PoolState,
            PoolError,
        >(PoolError::NotOwner),
        call.predecessor@ == pool.owner ==> (fix_pool_outcome(
            pool,
            call,
            staked,
            locked,
        ) matches Ok(next) && {
            &&& next.total_staked == staked
            &&& next.last_locked == locked
            &&& next.total_shares == pool.total_shares
            &&& same_settings(next, pool)
            &&& next.delegators == pool.delegators
        }),
{
}

/// The owner sets an account's shares and principal; the pool's shares change by as
/// much, between zero and the largest number. Nothing else changes.
pub proof fn law_fix_shares_effect(
    pool: PoolState,
    call: CallContext,
    account: Seq<char>,
    shares: u128,
    principal: u128,
)
    requires
        totals_fit(pool),
    ensures
        call.predecessor@ != pool.owner ==> fix_shares_outcome(
            pool,
            call,
            account,
            shares,
            principal,
        ) == Err::<PoolState, PoolError>(PoolError::NotOwner),
        call.predecessor@ == pool.owner ==> (fix_shares_outcome(
            pool,
            call,
            account,
            shares,
            principal,
        ) matches Ok(next) && {
            &&& only_record_changed(pool, next, account)
            &&& next.record(account) == (Delegator {
                stake_shares: shares,
                principal,
                ..pool.record(account)
            })
            &&& next.total_staked == pool.total_staked
            &&& next.last_locked == pool.last_locked
            &&& same_settings(next, pool)
            &&& pool.record(account).stake_shares <= pool.total_shares && pool.total_shares
                - pool.record(account).stake_shares + shares <= u128::MAX ==> next.total_shares
                == pool.total_shares - pool.record(account).stake_shares + shares
            &&& pool.record(account).stake_shares <= pool.total_shares && pool.total_shares
                - pool.record(account).stake_shares + shares > u128::MAX ==> next.total_shares
                == u128::MAX
            &&& pool.record(account).stake_shares > pool.total_shares ==> next.total_shares
                == shares
        }),
{
    if let Ok(next) = fix_shares_outcome(pool, call, account, shares, principal) {
        assert(pool.delegators.remove(account) =~= next.delegators.remove(account));
    }
}

/// The owner sets an account's unstaked balance, and nothing else changes.
pub proof fn law_fix_unstaked_effect(
    pool: PoolState,
    call: CallContext,
    account: Seq<char>,
    unstaked_balance: u128,
)
    ensures
        call.predecessor@ != pool.owner ==> fix_unstaked_outcome(
            pool,
            call,
            account,
            unstaked_balance,
        ) == Err::<PoolState, PoolError>(PoolError::NotOwner),
        call.predecessor@ == pool.owner ==> (fix_unstaked_outcome(
            pool,
            call,
            account,
            unstaked_balance,
        ) matches Ok(next) && {
            &&& only_record_changed(pool, next, account)
            &&& next.record(account) == (Delegator { unstaked_balance, ..pool.record(account) })
            &&& same_settings(next, pool)
            &&& same_totals(next, pool)
        }),
{
    if let Ok(next) = fix_unstaked_outcome(pool, call, account, unstaked_balance) {
        assert(pool.delegators.remove(account) =~= next.delegators.remove(account));
    }
}

// What the pool's account has to do.

/// A pool stakes the larger of the staked balance and the lock on record, with its own
/// key, just where that key has the length of an encoded public key.
pub proof fn law_restake(action: Option<StakeAction>, pool: PoolState)
    ensures
        is_restake(action, pool) <==> {
            if pool.staking_key.len() == 37 || pool.staking_key.len() == 902
                || pool.staking_key.len() == 1957 {
                action matches Some(stake) && {
                    &&& stake.amount >= pool.total_staked
                    &&& stake.amount >= pool.last_locked
                    &&& stake.amount == pool.total_staked || stake.amount == pool.last_locked
                    &&& stake.public_key@ == pool.staking_key
                }
            } else {
                action is None
            }
        },
{
}

/// A payment above zero goes to its receiver in full, and one of zero is not made.
pub proof fn law_payment(payment: Option<Transfer>, receiver: Seq<char>, amount: int)
    requires
        amount >= 0,
    ensures
        is_payment(payment, receiver, amount) <==> {
            if amount == 0 {
                payment is None
            } else {
                payment matches Some(transfer) && transfer.receiver@ == receiver
                    && transfer.amount == amount
            }
        },
{
}

} // verus!
