//! The laws of the pool: what its actions mean for the delegators.
//!
//! Where a law needs that an account holds no more shares than the pool has, it asks
//! for that alone, so it can be used of a pool that holds only some of the records.
//! In a pool whose books balance it is so of every account.

use vstd::prelude::*;

use crate::books::{
    lemma_holding_within_pool, lemma_net_deposit_positive, lemma_worth_scaled, stake_is_shared,
};
use crate::delegator::Delegator;
use crate::muldiv::{
    lemma_part_of_whole, lemma_product_quotient_nonnegative, lemma_quotient_at_least,
    lemma_quotient_at_most, lemma_quotient_is,
};
use crate::pool_error::PoolError;
use crate::pool_rules::{
    claim_outcome, compound_outcome, deposit_outcome, fix_pool_outcome, fix_shares_outcome,
    fix_unstaked_outcome, net_deposit, ping_outcome, set_paused_outcome, sync_principal_outcome,
    unstake_all_outcome, unstake_outcome, update_fees_outcome, withdraw_outcome, CallContext,
    PoolState, LOCKUP_NS, MIN_STAKE, NUM_EPOCHS_TO_UNLOCK,
};
use crate::shares::{
    fee_on, fits, lemma_burn_within_holding, lemma_claim_fee_within_tenth, shares_of_amount,
    shares_of_deposit, worth_of_shares,
};

verus! {

// Rewards.

/// The delegators are never credited with more than the protocol paid.
pub proof fn law_reward_within_payment(pool: PoolState, locked: int)
    requires
        pool.valid(),
        fits(locked),
        locked >= pool.last_locked,
    ensures
        pool.total_staked <= pool.pinged(locked).total_staked <= pool.total_staked + (locked
            - pool.last_locked),
{
    if pool.last_locked > 0 {
        lemma_product_quotient_nonnegative(
            locked - pool.last_locked,
            pool.total_staked,
            pool.last_locked,
        );
    }
}

/// Delegators earn at the rate of the whole: where the protocol pays `num / den` on
/// what is locked, the pool earns `num / den` on what is staked, rounded down. What
/// the validator has staked beside the pool earns for the validator.
pub proof fn law_reward_is_proportional(pool: PoolState, locked: int, num: int, den: int)
    requires
        pool.valid(),
        fits(locked),
        0 < pool.last_locked < locked,
        pool.total_staked <= pool.last_locked,
        num >= 0,
        den > 0,
        (locked - pool.last_locked) * den == pool.last_locked * num,
    ensures
        pool.pinged(locked).total_staked == pool.total_staked + pool.total_staked * num / den,
{
    let reward = locked - pool.last_locked;
    let last = pool.last_locked;
    let staked = pool.total_staked;
    lemma_part_of_whole(staked, last, reward);
    assert(staked * reward == reward * staked) by (nonlinear_arith);
    let q = staked * num / den;
    let r = (staked * num) % den;
    vstd::arithmetic::div_mod::lemma_fundamental_div_mod(staked * num, den);
    // reward * staked lies between q * last and (q + 1) * last
    assert(reward * staked * den == last * (staked * num)) by (nonlinear_arith)
        requires
            reward * den == last * num,
    ;
    assert(last * (staked * num) == last * (den * q + r));
    assert(reward * staked >= q * last) by (nonlinear_arith)
        requires
            reward * staked * den == last * (den * q + r),
            r >= 0,
            den > 0,
            last > 0,
    ;
    assert(reward * staked < (q + 1) * last) by (nonlinear_arith)
        requires
            reward * staked * den == last * (den * q + r),
            r < den,
            den > 0,
            last > 0,
    ;
    let rest = reward * staked - q * last;
    assert((q + 1) * last == q * last + last) by (nonlinear_arith);
    lemma_quotient_is(reward * staked, last, q, rest);
}

/// Where all that is locked belongs to the delegators, the whole of every reward and
/// of every loss is theirs.
pub proof fn law_whole_change_without_self_stake(pool: PoolState, locked: int)
    requires
        pool.valid(),
        fits(locked),
        pool.last_locked > 0,
        pool.total_staked == pool.last_locked,
    ensures
        pool.pinged(locked).total_staked == locked,
{
    let last = pool.last_locked;
    if locked >= last {
        vstd::arithmetic::div_mod::lemma_div_by_multiple(locked - last, last);
    } else {
        vstd::arithmetic::div_mod::lemma_div_by_multiple(last - locked, last);
    }
}

/// A staked balance that is covered by what is locked stays covered.
pub proof fn law_stake_stays_covered_by_lock(pool: PoolState, locked: int)
    requires
        pool.valid(),
        fits(locked),
        pool.total_staked <= pool.last_locked,
    ensures
        0 <= pool.pinged(locked).total_staked <= locked,
        pool.can_ping(locked),
{
    let last = pool.last_locked;
    let staked = pool.total_staked;
    if last > 0 && locked > last {
        let reward = locked - last;
        lemma_product_quotient_nonnegative(reward, staked, last);
    } else if last > 0 && locked < last {
        let loss = last - locked;
        let q = loss * staked / last;
        let r = (loss * staked) % last;
        lemma_part_of_whole(loss, last, staked);
        vstd::arithmetic::div_mod::lemma_fundamental_div_mod(loss * staked, last);
        // staked * last - loss * staked == staked * locked <= last * locked
        assert(staked - q <= locked) by (nonlinear_arith)
            requires
                loss * staked == last * q + r,
                loss == last - locked,
                0 <= r < last,
                0 <= staked <= last,
                locked >= 0,
        ;
    }
}

/// Attributing the rewards a second time changes nothing.
pub proof fn law_ping_twice(pool: PoolState, locked: int)
    requires
        pool.valid(),
        pool.can_ping(locked),
    ensures
        pool.pinged(locked).can_ping(locked),
        pool.pinged(locked).pinged(locked) == pool.pinged(locked),
{
}

/// Rewards raise what every delegator has staked, or leave it, and change no record.
pub proof fn law_reward_lowers_no_balance(pool: PoolState, locked: int, account: Seq<char>)
    requires
        pool.valid(),
        fits(locked),
        locked >= pool.last_locked,
    ensures
        pool.pinged(locked).staked_by(account) >= pool.staked_by(account),
        pool.pinged(locked).record(account) == pool.record(account),
{
    law_reward_within_payment(pool, locked);
    lemma_worth_grows_with_stake(
        pool.record(account).stake_shares as int,
        pool.total_staked,
        pool.pinged(locked).total_staked,
        pool.total_shares,
    );
}

/// Shares of a larger staked balance are worth no less.
proof fn lemma_worth_grows_with_stake(shares: int, t1: int, t2: int, h: int)
    requires
        shares >= 0,
        0 <= t1 <= t2,
        h >= 0,
    ensures
        worth_of_shares(shares, t1, h) <= worth_of_shares(shares, t2, h),
{
    if h > 0 {
        assert(shares * t1 <= shares * t2) by (nonlinear_arith)
            requires
                shares >= 0,
                t1 <= t2,
        ;
        vstd::arithmetic::div_mod::lemma_div_is_ordered(shares * t1, shares * t2, h);
    }
}

/// Shares at a price that has not fallen are worth no less.
proof fn lemma_worth_grows_with_price(shares: int, t1: int, h1: int, t2: int, h2: int)
    requires
        shares >= 0,
        t1 >= 0,
        t2 >= 0,
        h1 > 0,
        h2 > 0,
        t1 * h2 <= t2 * h1,
    ensures
        worth_of_shares(shares, t1, h1) <= worth_of_shares(shares, t2, h2),
{
    let q1 = shares * t1 / h1;
    let n1 = shares * t1;
    let n2 = shares * t2;
    assert(q1 * h1 <= n1) by (nonlinear_arith)
        requires
            q1 == n1 / h1,
            h1 > 0,
    ;
    lemma_product_quotient_nonnegative(shares, t1, h1);
    assert(q1 * h2 * h1 <= n2 * h1) by (nonlinear_arith)
        requires
            q1 * h1 <= shares * t1,
            t1 * h2 <= t2 * h1,
            n2 == shares * t2,
            shares >= 0,
            h1 > 0,
            h2 > 0,
    ;
    assert(q1 * h2 <= n2) by (nonlinear_arith)
        requires
            q1 * h2 * h1 <= n2 * h1,
            h1 > 0,
    ;
    lemma_quotient_at_least(n2, h2, q1);
}

// Deposits.

/// The deposit fee is at most a thousandth of the deposit, and the rest is staked.
pub proof fn law_deposit_fee_at_most_a_thousandth(pool: PoolState, amount: int)
    requires
        pool.fees_bounded(),
        amount >= MIN_STAKE,
    ensures
        fee_on(amount, pool.deposit_fee_bps as int) * 1000 <= amount,
        fee_on(amount, pool.deposit_fee_bps as int) + net_deposit(pool, amount) == amount,
{
    lemma_net_deposit_positive(pool, amount);
}

/// The first deposit into an empty pool earns nothing from what is locked already:
/// the staked balance is the net deposit, and it is the depositor's.
pub proof fn law_first_deposit_gets_no_rewards(
    pool: PoolState,
    call: CallContext,
    next: PoolState,
)
    requires
        pool.valid(),
        pool.record(call.predecessor@).stake_shares <= pool.total_shares,
        stake_is_shared(pool),
        pool.total_shares == 0,
        deposit_outcome(pool, call) == Ok::<PoolState, PoolError>(next),
    ensures
        next.total_staked == net_deposit(pool, call.attached_deposit as int),
        next.total_shares == next.total_staked,
        next.staked_by(call.predecessor@) == next.total_staked,
{
    let net = net_deposit(pool, call.attached_deposit as int);
    lemma_net_deposit_positive(pool, call.attached_deposit as int);
    vstd::arithmetic::div_mod::lemma_div_by_multiple(net, net);
}

/// A deposit credits the depositor with no more than the net deposit, so rewards
/// earned before are out of reach; and a depositor without a record before has
/// exactly the principal staked, and no rewards.
pub proof fn law_deposit_is_worth_what_it_cost(
    pool: PoolState,
    call: CallContext,
    next: PoolState,
)
    requires
        pool.valid(),
        stake_is_shared(pool),
        deposit_outcome(pool, call) == Ok::<PoolState, PoolError>(next),
    ensures
        next.record(call.predecessor@).principal <= pool.record(call.predecessor@).principal
            + net_deposit(pool, call.attached_deposit as int),
        pool.record(call.predecessor@) == Delegator::blank() ==> next.staked_by(call.predecessor@)
            == next.record(call.predecessor@).principal && next.rewards_of(call.predecessor@) == 0,
{
    let locked = call.locked_balance as int;
    let before = pool.synced(locked).pinged(locked);
    let net = net_deposit(pool, call.attached_deposit as int);
    let shares = shares_of_deposit(net, before.total_staked, before.total_shares);
    let t = before.total_staked;
    let h = before.total_shares;
    lemma_net_deposit_positive(pool, call.attached_deposit as int);
    lemma_shares_bought(net, t, h);
    if t > 0 && h > 0 {
        assert(shares * (t + net) <= net * (h + shares)) by (nonlinear_arith)
            requires
                shares * t <= net * h,
        ;
    } else {
        assert(shares * (t + net) <= net * (h + shares)) by (nonlinear_arith)
            requires
                shares == net,
                t == 0,
                net >= 0,
                h >= 0,
        ;
    }
    lemma_worth_scaled(shares, t + net, h + shares);
    let worth = worth_of_shares(shares, t + net, h + shares);
    assert(worth <= net) by (nonlinear_arith)
        requires
            worth * (h + shares) <= shares * (t + net),
            shares * (t + net) <= net * (h + shares),
            h + shares > 0,
    ;
}

/// Shares bought are a number, and in a pool with a price they are paid at that
/// price or above it.
proof fn lemma_shares_bought(net: int, t: int, h: int)
    requires
        net > 0,
        t >= 0,
        h >= 0,
    ensures
        shares_of_deposit(net, t, h) >= 0,
        t > 0 && h > 0 ==> shares_of_deposit(net, t, h) * t <= net * h,
        t == 0 || h == 0 ==> shares_of_deposit(net, t, h) == net,
{
    if t > 0 && h > 0 {
        let product = net * h;
        let quotient = product / t;
        let shares = shares_of_deposit(net, t, h);
        lemma_product_quotient_nonnegative(net, h, t);
        assert(quotient * t <= product) by (nonlinear_arith)
            requires
                quotient == product / t,
                t > 0,
        ;
        assert(shares * t <= quotient * t) by (nonlinear_arith)
            requires
                shares <= quotient,
                t > 0,
        ;
    }
}

/// A deposit lowers nobody else's stake.
pub proof fn law_deposit_dilutes_nobody(
    pool: PoolState,
    call: CallContext,
    next: PoolState,
    other: Seq<char>,
)
    requires
        pool.valid(),
        deposit_outcome(pool, call) == Ok::<PoolState, PoolError>(next),
        other != call.predecessor@,
    ensures
        next.record(other) == pool.record(other),
        next.staked_by(other) >= pool.synced(call.locked_balance as int).pinged(
            call.locked_balance as int,
        ).staked_by(other),
{
    let locked = call.locked_balance as int;
    let before = pool.synced(locked).pinged(locked);
    let net = net_deposit(pool, call.attached_deposit as int);
    let t = before.total_staked;
    let h = before.total_shares;
    let shares = shares_of_deposit(net, t, h);
    lemma_net_deposit_positive(pool, call.attached_deposit as int);
    lemma_shares_bought(net, t, h);
    if h > 0 {
        lemma_deposit_keeps_price(net, t, h);
        lemma_worth_grows_with_price(
            before.record(other).stake_shares as int,
            t,
            h,
            t + net,
            h + shares,
        );
    } else {
        lemma_worth_scaled(
            before.record(other).stake_shares as int,
            next.total_staked,
            next.total_shares,
        );
    }
}

/// A deposit takes no rewards from the depositor.
pub proof fn law_deposit_keeps_rewards(pool: PoolState, call: CallContext, next: PoolState)
    requires
        pool.valid(),
        pool.record(call.predecessor@).stake_shares <= pool.total_shares,
        deposit_outcome(pool, call) == Ok::<PoolState, PoolError>(next),
    ensures
        next.rewards_of(call.predecessor@) >= pool.synced(call.locked_balance as int).pinged(
            call.locked_balance as int,
        ).rewards_of(call.predecessor@),
{
    let locked = call.locked_balance as int;
    let caller = call.predecessor@;
    let before = pool.synced(locked).pinged(locked);
    let net = net_deposit(pool, call.attached_deposit as int);
    let t = before.total_staked;
    let h = before.total_shares;
    let held = before.record(caller).stake_shares as int;
    let bought = shares_of_deposit(net, t, h);
    lemma_net_deposit_positive(pool, call.attached_deposit as int);
    lemma_shares_bought(net, t, h);
    if h > 0 && t > 0 {
        lemma_deposit_keeps_price(net, t, h);
        lemma_worth_grows_with_price(held, t, h, t + net, h + bought);
        lemma_worths_of_parts(held, bought, t + net, h + bought);
    } else if h > 0 {
        assert(held * 0 == 0 && 0int / h == 0) by (nonlinear_arith)
            requires
                h > 0,
        ;
    }
}

/// A deposit is no reward: what the depositor has staked beyond the principal grows by
/// no more than what one share was worth and two units, however often the depositor
/// has deposited before. In a pool with shares there must be something staked.
pub proof fn law_deposit_is_no_reward(pool: PoolState, call: CallContext, next: PoolState)
    requires
        pool.valid(),
        pool.record(call.predecessor@).stake_shares <= pool.total_shares,
        pool.total_shares > 0 ==> pool.pinged(call.locked_balance as int).total_staked > 0,
        deposit_outcome(pool, call) == Ok::<PoolState, PoolError>(next),
    ensures
        pool.total_shares == 0 ==> next.staked_by(call.predecessor@) <= next.record(
            call.predecessor@,
        ).principal,
        pool.total_shares > 0 ==> next.staked_by(call.predecessor@) - next.record(
            call.predecessor@,
        ).principal <= pool.pinged(call.locked_balance as int).staked_by(call.predecessor@)
            - pool.record(call.predecessor@).principal + pool.pinged(
            call.locked_balance as int,
        ).worth(1) + 2,
        pool.total_shares > 0 ==> next.rewards_of(call.predecessor@) <= pool.pinged(
            call.locked_balance as int,
        ).rewards_of(call.predecessor@) + pool.pinged(call.locked_balance as int).worth(1) + 2,
{
    let caller = call.predecessor@;
    let net = net_deposit(pool, call.attached_deposit as int);
    lemma_net_deposit_positive(pool, call.attached_deposit as int);
    if pool.total_shares > 0 {
        let before = pool.pinged(call.locked_balance as int);
        let t = before.total_staked;
        let h = before.total_shares;
        let s = before.record(caller).stake_shares as int;
        let bought = shares_of_deposit(net, t, h);
        lemma_shares_bought(net, t, h);
        lemma_worth_scaled(1, t, h);
        assert(bought == net * h / t) by {
            lemma_product_quotient_nonnegative(net, h, t);
        }
        lemma_deposit_rounding(s, net, bought, t, h);
    }
}

/// What a holding and newly bought shares are worth together, beyond what each was
/// worth.
proof fn lemma_deposit_rounding(s: int, net: int, bought: int, t: int, h: int)
    requires
        0 <= s <= h,
        net > 0,
        t > 0,
        h > 0,
        fits(t + net),
        bought >= 0,
        bought == net * h / t,
    ensures
        worth_of_shares(s + bought, t + net, h + bought) <= worth_of_shares(s, t, h)
            + worth_of_shares(bought, t + net, h + bought) + worth_of_shares(1, t, h) + 2,
{
    let t2 = t + net;
    let h2 = h + bought;
    let n = net * h;
    let gap = n - bought * t;
    assert(0 <= gap < t) by (nonlinear_arith)
        requires
            bought == n / t,
            gap == n - bought * t,
            t > 0,
    ;
    // exact worths, each rounded down
    let w = s * t / h;
    let p = t / h;
    let ns = s * t;
    assert(ns < w * h + h) by (nonlinear_arith)
        requires
            w == ns / h,
            h > 0,
    ;
    assert(t < p * h + h) by (nonlinear_arith)
        requires
            p == t / h,
            h > 0,
    ;
    lemma_part_of_whole(s, h, t);
    lemma_quotient_at_most(t, h, t);
    assert(1 * t == t);
    // what the old holding is worth afterwards
    let w2 = s * t2 / h2;
    let n2 = s * t2;
    assert(w2 * h2 <= n2) by (nonlinear_arith)
        requires
            w2 == n2 / h2,
            h2 > 0,
    ;
    assert(n2 * h == ns * h2 + s * gap) by {
        assert(n2 * h == s * t * h + s * (net * h)) by (nonlinear_arith)
            requires
                n2 == s * (t + net),
        ;
        assert(ns * h2 == s * t * h + s * (bought * t)) by (nonlinear_arith)
            requires
                ns == s * t,
                h2 == h + bought,
        ;
        assert(s * gap == s * (net * h) - s * (bought * t)) by (nonlinear_arith)
            requires
                gap == net * h - bought * t,
        ;
    }
    assert(ns * h2 < (w + 1) * h * h2) by (nonlinear_arith)
        requires
            ns < w * h + h,
            h2 > 0,
    ;
    assert(s * gap <= h * t) by (nonlinear_arith)
        requires
            0 <= s <= h,
            0 <= gap < t,
    ;
    assert(h * t <= (p + 1) * h * h2) by (nonlinear_arith)
        requires
            0 < t < p * h + h,
            0 < h <= h2,
            p >= 0,
    ;
    assert((w + 1) * h * h2 + (p + 1) * h * h2 == (w + p + 2) * h2 * h) by (nonlinear_arith);
    assert(n2 < (w + p + 2) * h2) by (nonlinear_arith)
        requires
            n2 * h < (w + p + 2) * h2 * h,
            h > 0,
    ;
    assert(w2 < w + p + 2) by (nonlinear_arith)
        requires
            w2 * h2 < (w + p + 2) * h2,
            h2 > 0,
    ;
    // both together
    let nb = bought * t2;
    let wb = nb / h2;
    let both = (s + bought) * t2;
    let w3 = both / h2;
    assert(both == n2 + nb) by (nonlinear_arith)
        requires
            both == (s + bought) * t2,
            n2 == s * t2,
            nb == bought * t2,
    ;
    assert(nb < wb * h2 + h2) by (nonlinear_arith)
        requires
            wb == nb / h2,
            h2 > 0,
    ;
    assert(n2 < w2 * h2 + h2) by (nonlinear_arith)
        requires
            w2 == n2 / h2,
            h2 > 0,
    ;
    assert(w3 * h2 <= both) by (nonlinear_arith)
        requires
            w3 == both / h2,
            h2 > 0,
    ;
    assert((w2 + wb + 2) * h2 == w2 * h2 + h2 + (wb * h2 + h2)) by (nonlinear_arith);
    assert(w3 < w2 + wb + 2) by (nonlinear_arith)
        requires
            w3 * h2 < (w2 + wb + 2) * h2,
            h2 > 0,
    ;
    lemma_part_of_whole(s, h2, t2);
    lemma_part_of_whole(bought, h2, t2);
    lemma_part_of_whole(s + bought, h2, t2);
}

/// A deposit does not lower the price of a share.
proof fn lemma_deposit_keeps_price(net: int, t: int, h: int)
    requires
        net > 0,
        t >= 0,
        h > 0,
    ensures
        t * (h + shares_of_deposit(net, t, h)) <= (t + net) * h,
{
    let shares = shares_of_deposit(net, t, h);
    lemma_shares_bought(net, t, h);
    if t > 0 {
        assert(t * (h + shares) <= (t + net) * h) by (nonlinear_arith)
            requires
                shares * t <= net * h,
        ;
    } else {
        assert(0 * (h + shares) <= net * h) by (nonlinear_arith)
            requires
                net >= 0,
                h >= 0,
        ;
    }
}

/// Two holdings are worth no more apart than together.
proof fn lemma_worths_of_parts(a: int, b: int, t: int, h: int)
    requires
        a >= 0,
        b >= 0,
        t >= 0,
        a + b <= h,
        h > 0,
        fits(t),
    ensures
        worth_of_shares(a, t, h) + worth_of_shares(b, t, h) <= worth_of_shares(a + b, t, h),
{
    let wa = worth_of_shares(a, t, h);
    let wb = worth_of_shares(b, t, h);
    lemma_worth_scaled(a, t, h);
    lemma_worth_scaled(b, t, h);
    assert((wa + wb) * h <= (a + b) * t) by (nonlinear_arith)
        requires
            wa * h <= a * t,
            wb * h <= b * t,
    ;
    lemma_quotient_at_least((a + b) * t, h, wa + wb);
    lemma_part_of_whole(a + b, h, t);
}

// The lock and the unbonding period.

/// A deposit, an unstake, a claim or a compound has led from one state to the next.
pub open spec fn stake_action(
    pool: PoolState,
    call: CallContext,
    amount: int,
    next: PoolState,
) -> bool {
    ||| deposit_outcome(pool, call) == Ok::<PoolState, PoolError>(next)
    ||| unstake_outcome(pool, call, amount) == Ok::<PoolState, PoolError>(next)
    ||| unstake_all_outcome(pool, call) == Ok::<PoolState, PoolError>(next)
    ||| claim_outcome(pool, call) == Ok::<PoolState, PoolError>(next)
    ||| compound_outcome(pool, call) == Ok::<PoolState, PoolError>(next)
}

/// An action that anyone may take for themselves has led from one state to the next.
pub open spec fn delegator_action(
    pool: PoolState,
    call: CallContext,
    amount: int,
    next: PoolState,
) -> bool {
    ||| stake_action(pool, call, amount, next)
    ||| withdraw_outcome(pool, call) == Ok::<PoolState, PoolError>(next)
    ||| sync_principal_outcome(pool, call) == Ok::<PoolState, PoolError>(next)
}

/// A deposit, an unstake, a claim and a compound lock the caller's stake for the
/// lock period, counted from the call.
pub proof fn law_actions_lock_the_stake(
    pool: PoolState,
    call: CallContext,
    amount: int,
    next: PoolState,
)
    requires
        stake_action(pool, call, amount, next),
    ensures
        next.delegators.contains_key(call.predecessor@),
        next.record(call.predecessor@).unlock_timestamp_ns == call.block_timestamp + LOCKUP_NS,
{
}

/// While a stake is locked, it is neither unstaked nor claimed from.
pub proof fn law_locked_stake_stays(pool: PoolState, call: CallContext, amount: int)
    requires
        call.block_timestamp < pool.record(call.predecessor@).unlock_timestamp_ns,
    ensures
        unstake_outcome(pool, call, amount) is Err,
        unstake_all_outcome(pool, call) is Err,
        claim_outcome(pool, call) is Err,
        pool.can_ping(call.locked_balance as int) ==> unstake_outcome(pool, call, amount) == Err::<
            PoolState,
            PoolError,
        >(PoolError::StillLocked) && claim_outcome(pool, call) == Err::<PoolState, PoolError>(
            PoolError::StillLocked,
        ),
{
}

/// Once the lock is over, an amount that the caller has staked can be unstaked,
/// whether or not the pool is paused, unless a number would not fit.
pub proof fn law_unlocked_stake_can_leave(pool: PoolState, call: CallContext, amount: int)
    requires
        pool.valid(),
        pool.can_ping(call.locked_balance as int),
        pool.delegators.contains_key(call.predecessor@),
        call.block_timestamp >= pool.record(call.predecessor@).unlock_timestamp_ns,
        0 < amount <= pool.pinged(call.locked_balance as int).staked_by(call.predecessor@),
        fits(pool.record(call.predecessor@).unstaked_balance + amount),
        call.epoch_height + NUM_EPOCHS_TO_UNLOCK <= u64::MAX,
        call.block_timestamp + LOCKUP_NS <= u64::MAX,
    ensures
        unstake_outcome(pool, call, amount) matches Ok(next) && next.record(
            call.predecessor@,
        ).unstaked_balance == pool.record(call.predecessor@).unstaked_balance + amount,
{
}

/// A withdrawal succeeds just when there is an unstaked balance and its unbonding
/// period is over.
pub proof fn law_when_withdrawal_succeeds(pool: PoolState, call: CallContext)
    ensures
        withdraw_outcome(pool, call) is Ok <==> pool.record(call.predecessor@).unstaked_balance > 0
            && call.epoch_height >= pool.record(call.predecessor@).unstake_available_epoch,
{
}

/// What is unstaked can be withdrawn after the unbonding period, and not
/// before: a withdrawal in an earlier epoch is refused, and one in that epoch or
/// later pays the whole unstaked balance.
pub proof fn law_unbonding(
    pool: PoolState,
    call: CallContext,
    amount: int,
    next: PoolState,
    later: CallContext,
)
    requires
        pool.valid(),
        amount >= 0,
        later.predecessor@ == call.predecessor@,
        unstake_outcome(pool, call, amount) == Ok::<PoolState, PoolError>(next),
    ensures
        later.epoch_height < call.epoch_height + NUM_EPOCHS_TO_UNLOCK ==> withdraw_outcome(
            next,
            later,
        ) == Err::<PoolState, PoolError>(PoolError::StillUnbonding),
        later.epoch_height >= call.epoch_height + NUM_EPOCHS_TO_UNLOCK ==> withdraw_outcome(
            next,
            later,
        ) is Ok,
        next.record(call.predecessor@).unstaked_balance == pool.record(
            call.predecessor@,
        ).unstaked_balance + amount,
{
}

/// A claim is paid at once and does not touch an unstaked balance, nor the epoch from
/// which that can be withdrawn.
pub proof fn law_claim_leaves_unstaked_balance(
    pool: PoolState,
    call: CallContext,
    next: PoolState,
    account: Seq<char>,
)
    requires
        claim_outcome(pool, call) == Ok::<PoolState, PoolError>(next),
    ensures
        next.record(account).unstaked_balance == pool.record(account).unstaked_balance,
        next.record(account).unstake_available_epoch == pool.record(
            account,
        ).unstake_available_epoch,
{
}

/// After a withdrawal there is nothing left to withdraw.
pub proof fn law_no_second_withdrawal(
    pool: PoolState,
    call: CallContext,
    next: PoolState,
    later: CallContext,
)
    requires
        later.predecessor@ == call.predecessor@,
        withdraw_outcome(pool, call) == Ok::<PoolState, PoolError>(next),
    ensures
        withdraw_outcome(next, later) == Err::<PoolState, PoolError>(PoolError::NoUnstakedBalance),
{
}

// Rewards in hand.

/// A compound turns all rewards into principal: what the caller has staked stays,
/// there are no rewards left, and nobody else is touched.
pub proof fn law_compound_takes_no_fee(
    pool: PoolState,
    call: CallContext,
    next: PoolState,
    other: Seq<char>,
)
    requires
        pool.valid(),
        compound_outcome(pool, call) == Ok::<PoolState, PoolError>(next),
        other != call.predecessor@,
    ensures
        next.staked_by(call.predecessor@) == pool.pinged(call.locked_balance as int).staked_by(
            call.predecessor@,
        ),
        next.record(call.predecessor@).principal == next.staked_by(call.predecessor@),
        next.rewards_of(call.predecessor@) == 0,
        next.record(other) == pool.record(other),
        next.staked_by(other) == pool.pinged(call.locked_balance as int).staked_by(other),
{
    let before = pool.pinged(call.locked_balance as int);
    let s = pool.record(call.predecessor@).stake_shares as int;
    if before.total_shares > 0 {
        lemma_worth_scaled(s, before.total_staked, before.total_shares);
    }
}

/// Lowering a principal never touches it where there are rewards, and leaves no
/// principal above what is staked.
pub proof fn law_sync_principal_is_safe(pool: PoolState, call: CallContext, next: PoolState)
    requires
        pool.valid(),
        sync_principal_outcome(pool, call) == Ok::<PoolState, PoolError>(next),
    ensures
        pool.rewards_of(call.predecessor@) > 0 ==> next == pool,
        next.record(call.predecessor@).principal <= pool.record(call.predecessor@).principal,
        next.record(call.predecessor@).principal <= next.staked_by(call.predecessor@),
        next.staked_by(call.predecessor@) == pool.staked_by(call.predecessor@),
{
    let s = pool.record(call.predecessor@).stake_shares as int;
    if pool.total_shares > 0 {
        lemma_worth_scaled(s, pool.total_staked, pool.total_shares);
    }
    if pool.rewards_of(call.predecessor@) > 0 {
        assert(next.delegators =~= pool.delegators);
    }
}

// Who may do what.

/// Whether the pool is paused matters to deposits alone.
pub proof fn law_pause_stops_deposits_only(
    pool: PoolState,
    call: CallContext,
    amount: int,
    paused: bool,
)
    ensures
        deposit_outcome((PoolState { paused: true, ..pool }), call) == Err::<PoolState, PoolError>(
            PoolError::Paused,
        ),
        unstake_outcome((PoolState { paused, ..pool }), call, amount) == with_paused(
            unstake_outcome(pool, call, amount),
            paused,
        ),
        unstake_all_outcome((PoolState { paused, ..pool }), call) == with_paused(
            unstake_all_outcome(pool, call),
            paused,
        ),
        withdraw_outcome((PoolState { paused, ..pool }), call) == with_paused(
            withdraw_outcome(pool, call),
            paused,
        ),
        claim_outcome((PoolState { paused, ..pool }), call) == with_paused(
            claim_outcome(pool, call),
            paused,
        ),
        compound_outcome((PoolState { paused, ..pool }), call) == with_paused(
            compound_outcome(pool, call),
            paused,
        ),
{
}

/// An outcome in a pool that is paused, or not.
pub open spec fn with_paused(outcome: Result<PoolState, PoolError>, paused: bool) -> Result<
    PoolState,
    PoolError,
> {
    match outcome {
        Ok(pool) => Ok(PoolState { paused, ..pool }),
        Err(error) => Err(error),
    }
}

/// The owner cannot keep a delegator from leaving by the settings of the pool: with
/// other fees, another staking key, or the pool paused or not, an unstake and a
/// withdrawal succeed all the same and leave the same record and the same totals.
pub proof fn law_settings_do_not_hold_stake(
    pool: PoolState,
    other: PoolState,
    call: CallContext,
    amount: int,
)
    requires
        other == (PoolState {
            staking_key: other.staking_key,
            deposit_fee_bps: other.deposit_fee_bps,
            claim_fee_bps: other.claim_fee_bps,
            paused: other.paused,
            ..pool
        }),
    ensures
        same_balances(unstake_outcome(pool, call, amount), unstake_outcome(other, call, amount)),
        same_balances(unstake_all_outcome(pool, call), unstake_all_outcome(other, call)),
        same_balances(withdraw_outcome(pool, call), withdraw_outcome(other, call)),
{
}

/// Two outcomes are the same error, or pools with the same records and totals.
pub open spec fn same_balances(
    first: Result<PoolState, PoolError>,
    second: Result<PoolState, PoolError>,
) -> bool {
    match (first, second) {
        (Ok(a), Ok(b)) => {
            &&& a.delegators == b.delegators
            &&& a.total_staked == b.total_staked
            &&& a.total_shares == b.total_shares
            &&& a.last_locked == b.last_locked
        },
        (Err(a), Err(b)) => a == b,
        _ => false,
    }
}

/// Only the owner changes the fees, pauses the pool or corrects the books.
pub proof fn law_owner_only(
    pool: PoolState,
    call: CallContext,
    account: Seq<char>,
    a: u128,
    b: u128,
    x: u16,
    y: u16,
    paused: bool,
)
    requires
        call.predecessor@ != pool.owner,
    ensures
        update_fees_outcome(pool, call, x, y) == Err::<PoolState, PoolError>(PoolError::NotOwner),
        set_paused_outcome(pool, call, paused) == Err::<PoolState, PoolError>(PoolError::NotOwner),
        fix_pool_outcome(pool, call, a as int, b as int) == Err::<PoolState, PoolError>(
            PoolError::NotOwner,
        ),
        fix_shares_outcome(pool, call, account, a, b) == Err::<PoolState, PoolError>(
            PoolError::NotOwner,
        ),
        fix_unstaked_outcome(pool, call, account, a) == Err::<PoolState, PoolError>(
            PoolError::NotOwner,
        ),
{
}

/// A delegator's action touches no other record, but for the owner's, which gets the
/// fee of a claim.
pub proof fn law_others_are_untouched(
    pool: PoolState,
    call: CallContext,
    amount: int,
    next: PoolState,
    other: Seq<char>,
)
    requires
        other != call.predecessor@,
        delegator_action(pool, call, amount, next),
        claim_outcome(pool, call) == Ok::<PoolState, PoolError>(next) ==> other != pool.owner,
    ensures
        next.record(other) == pool.record(other),
        next.delegators.contains_key(other) == pool.delegators.contains_key(other),
{
}

/// A pool of which only the records of some accounts are at hand.
pub open spec fn with_records(pool: PoolState, accounts: Set<Seq<char>>) -> PoolState {
    PoolState { delegators: pool.delegators.restrict(accounts), ..pool }
}

/// An outcome of which only the records of some accounts are at hand.
pub open spec fn outcome_with_records(
    outcome: Result<PoolState, PoolError>,
    accounts: Set<Seq<char>>,
) -> Result<PoolState, PoolError> {
    match outcome {
        Ok(pool) => Ok(with_records(pool, accounts)),
        Err(error) => Err(error),
    }
}

/// The caller's record is all that the caller's action needs, with the owner's for a
/// claim: on a pool that holds only some of the records, these among them, the action
/// does the same to the totals and to those records, or is refused for the same
/// reason.
pub proof fn law_touched_records_suffice(
    pool: PoolState,
    call: CallContext,
    amount: int,
    accounts: Set<Seq<char>>,
)
    requires
        accounts.contains(call.predecessor@),
    ensures
        ping_outcome(with_records(pool, accounts), call) == outcome_with_records(
            ping_outcome(pool, call),
            accounts,
        ),
        deposit_outcome(with_records(pool, accounts), call) == outcome_with_records(
            deposit_outcome(pool, call),
            accounts,
        ),
        unstake_outcome(with_records(pool, accounts), call, amount) == outcome_with_records(
            unstake_outcome(pool, call, amount),
            accounts,
        ),
        unstake_all_outcome(with_records(pool, accounts), call) == outcome_with_records(
            unstake_all_outcome(pool, call),
            accounts,
        ),
        withdraw_outcome(with_records(pool, accounts), call) == outcome_with_records(
            withdraw_outcome(pool, call),
            accounts,
        ),
        compound_outcome(with_records(pool, accounts), call) == outcome_with_records(
            compound_outcome(pool, call),
            accounts,
        ),
        sync_principal_outcome(with_records(pool, accounts), call) == outcome_with_records(
            sync_principal_outcome(pool, call),
            accounts,
        ),
        accounts.contains(pool.owner) ==> claim_outcome(with_records(pool, accounts), call)
            == outcome_with_records(claim_outcome(pool, call), accounts),
{
    let caller = call.predecessor@;
    assert forall|records: Map<Seq<char>, Delegator>, account: Seq<char>, record: Delegator|
        accounts.contains(account) implies #[trigger] records.insert(account, record).restrict(
        accounts,
    ) == records.restrict(accounts).insert(account, record) by {
        assert(records.insert(account, record).restrict(accounts) =~= records.restrict(
            accounts,
        ).insert(account, record));
    }
    assert(with_records(pool, accounts).record(caller) == pool.record(caller));
    assert(with_records(pool, accounts).delegators.contains_key(caller)
        == pool.delegators.contains_key(caller));
}

/// The record of an account is all that the owner's correction of it needs.
pub proof fn law_corrected_record_suffices(
    pool: PoolState,
    call: CallContext,
    account: Seq<char>,
    a: u128,
    b: u128,
    accounts: Set<Seq<char>>,
)
    requires
        accounts.contains(account),
    ensures
        fix_shares_outcome(with_records(pool, accounts), call, account, a, b)
            == outcome_with_records(fix_shares_outcome(pool, call, account, a, b), accounts),
        fix_unstaked_outcome(with_records(pool, accounts), call, account, a)
            == outcome_with_records(fix_unstaked_outcome(pool, call, account, a), accounts),
{
    assert forall|record: Delegator| #[trigger]
        pool.delegators.insert(account, record).restrict(accounts) == pool.delegators.restrict(
            accounts,
        ).insert(account, record) by {
        assert(pool.delegators.insert(account, record).restrict(accounts)
            =~= pool.delegators.restrict(accounts).insert(account, record));
    }
    assert(with_records(pool, accounts).record(account) == pool.record(account));
}

// The validator's stake.

/// The stake that the pool asks for is never below what the protocol had locked at
/// the last count, nor below what the delegators have staked.
pub proof fn law_restake_never_lowers_the_lock(pool: PoolState)
    ensures
        pool.stake_target() >= pool.last_locked,
        pool.stake_target() >= pool.total_staked,
{
}

/// Every action that attributes rewards puts on record what is locked, so that no
/// stake action is taken for a reward: as long as the lock has not changed, the next
/// count attributes nothing.
pub proof fn law_lock_is_counted_once(
    pool: PoolState,
    call: CallContext,
    amount: int,
    next: PoolState,
)
    requires
        ping_outcome(pool, call) == Ok::<PoolState, PoolError>(next) || stake_action(
            pool,
            call,
            amount,
            next,
        ),
    ensures
        next.last_locked == call.locked_balance,
        next.pinged(call.locked_balance as int) == next,
{
}

// What leaves the pool.

/// After unstaking everything, what remains of the stake is at most one unit and
/// what one share was worth. Where one share and two units are worth no more than a
/// token, that is less than a token.
pub proof fn law_unstake_all_leaves_dust(pool: PoolState, call: CallContext, next: PoolState)
    requires
        pool.valid(),
        pool.record(call.predecessor@).stake_shares <= pool.total_shares,
        unstake_all_outcome(pool, call) == Ok::<PoolState, PoolError>(next),
    ensures
        next.staked_by(call.predecessor@) <= pool.pinged(call.locked_balance as int).worth(1) + 1,
        pool.pinged(call.locked_balance as int).worth(1) < MIN_STAKE - 1 ==> next.staked_by(
            call.predecessor@,
        ) < MIN_STAKE,
{
    let before = pool.pinged(call.locked_balance as int);
    let caller = call.predecessor@;
    let s = before.record(caller).stake_shares as int;
    let t = before.total_staked;
    let h = before.total_shares;
    let amount = before.staked_by(caller);
    lemma_holding_within_pool(before, caller);
    lemma_burn_within_holding(amount, s, t, h);
    let burned = shares_of_amount(amount, t, h);
    let rest = s - burned;
    let t2 = t - amount;
    let h2 = h - burned;
    lemma_rest_is_small(s, t, h, amount, burned);
    if h2 > 0 {
        lemma_price_after_burn(amount, burned, t, h);
        lemma_worth_grows_with_price(rest, t2, h2, t, h);
        lemma_small_holding(rest, t, h);
    }
    lemma_worth_scaled(1, t, h);
}

/// The shares that are left after unstaking everything stand for less than one unit
/// and one share.
proof fn lemma_rest_is_small(s: int, t: int, h: int, amount: int, burned: int)
    requires
        0 < s <= h,
        t > 0,
        h > 0,
        fits(t),
        amount == worth_of_shares(s, t, h),
        burned == amount * h / t,
    ensures
        (s - burned) * t < h + t,
{
    let product = s * t;
    assert(product / h <= t) by (nonlinear_arith)
        requires
            product == s * t,
            s <= h,
            h > 0,
            t > 0,
    ;
    assert(amount == product / h);
    assert(product < amount * h + h) by (nonlinear_arith)
        requires
            amount == product / h,
            h > 0,
    ;
    let n = amount * h;
    assert(n < burned * t + t) by (nonlinear_arith)
        requires
            burned == n / t,
            t > 0,
    ;
    assert((s - burned) * t == product - burned * t) by (nonlinear_arith)
        requires
            product == s * t,
    ;
}

/// Burning shares for an amount does not raise the price.
proof fn lemma_price_after_burn(amount: int, burned: int, t: int, h: int)
    requires
        t > 0,
        h > 0,
        burned == amount * h / t,
    ensures
        (t - amount) * h <= t * (h - burned),
{
    let n = amount * h;
    assert(burned * t <= n) by (nonlinear_arith)
        requires
            burned == n / t,
            t > 0,
    ;
    assert((t - amount) * h <= t * (h - burned)) by (nonlinear_arith)
        requires
            burned * t <= amount * h,
    ;
}

/// A holding of less than one unit and one share is worth at most that.
proof fn lemma_small_holding(rest: int, t: int, h: int)
    requires
        rest >= 0,
        t > 0,
        h > 0,
        fits(t),
        rest * t < h + t,
    ensures
        worth_of_shares(rest, t, h) <= worth_of_shares(1, t, h) + 1,
{
    let n = rest * t;
    assert(n / h <= (h + t) / h) by {
        vstd::arithmetic::div_mod::lemma_div_is_ordered(n, h + t, h);
    }
    assert((h + t) / h == t / h + 1) by {
        vstd::arithmetic::div_mod::lemma_div_plus_one(t, h);
    }
    assert(1 * t == t);
    lemma_quotient_at_most(t, h, u128::MAX as int);
}

/// An unstake takes from a holding of the others at most one unit and what one share
/// was worth, for the number of burned shares is rounded down.
pub proof fn law_unstake_costs_others_at_most_a_share(
    pool: PoolState,
    call: CallContext,
    amount: int,
    next: PoolState,
    other: Seq<char>,
)
    requires
        pool.valid(),
        pool.record(call.predecessor@).stake_shares + pool.record(other).stake_shares
            <= pool.total_shares,
        amount >= 0,
        unstake_outcome(pool, call, amount) == Ok::<PoolState, PoolError>(next),
        other != call.predecessor@,
    ensures
        pool.pinged(call.locked_balance as int).staked_by(other) <= next.staked_by(other)
            + pool.pinged(call.locked_balance as int).worth(1) + 1,
{
    let before = pool.pinged(call.locked_balance as int);
    let caller = call.predecessor@;
    let s = before.record(caller).stake_shares as int;
    let so = before.record(other).stake_shares as int;
    let t = before.total_staked;
    let h = before.total_shares;
    lemma_holding_within_pool(before, caller);
    lemma_burn_within_holding(amount, s, t, h);
    let burned = shares_of_amount(amount, t, h);
    lemma_worth_scaled(1, t, h);
    if so > 0 {
        lemma_holding_after_burn(so, amount, burned, t, h);
    } else {
        lemma_no_shares_no_worth(t, h);
        lemma_no_shares_no_worth(next.total_staked, next.total_shares);
    }
}

/// A claim takes from a holding of anyone but the claimant and the owner at most one
/// unit and what one share was worth. The claim fee costs the others nothing.
pub proof fn law_claim_costs_others_at_most_a_share(
    pool: PoolState,
    call: CallContext,
    next: PoolState,
    other: Seq<char>,
)
    requires
        pool.valid(),
        pool.record(call.predecessor@).stake_shares + pool.record(other).stake_shares
            <= pool.total_shares,
        claim_outcome(pool, call) == Ok::<PoolState, PoolError>(next),
        other != call.predecessor@,
        other != pool.owner,
    ensures
        next.record(other) == pool.record(other),
        pool.pinged(call.locked_balance as int).staked_by(other) <= next.staked_by(other)
            + pool.pinged(call.locked_balance as int).worth(1) + 1,
{
    let before = pool.pinged(call.locked_balance as int);
    let caller = call.predecessor@;
    let s = before.record(caller).stake_shares as int;
    let so = before.record(other).stake_shares as int;
    let t = before.total_staked;
    let h = before.total_shares;
    let rewards = before.rewards_of(caller);
    let fee = fee_on(rewards, pool.claim_fee_bps as int);
    let burned = shares_of_amount(rewards, t, h);
    lemma_holding_within_pool(before, caller);
    lemma_burn_within_holding(rewards, s, t, h);
    lemma_claim_fee_within_tenth(rewards, pool.claim_fee_bps as int);
    lemma_worth_scaled(1, t, h);
    if so > 0 {
        lemma_holding_after_burn(so, rewards, burned, t, h);
        if fee > 0 {
            lemma_deposit_keeps_price(fee, t - rewards, h - burned);
            lemma_shares_bought(fee, t - rewards, h - burned);
            let bought = shares_of_deposit(fee, t - rewards, h - burned);
            assert((t - rewards) * next.total_shares <= (t - rewards) * (h - burned + bought))
                by (nonlinear_arith)
                requires
                    t - rewards >= 0,
                    next.total_shares <= h - burned + bought,
            ;
            lemma_worth_grows_with_price(
                so,
                t - rewards,
                h - burned,
                next.total_staked,
                next.total_shares,
            );
        }
    } else {
        lemma_no_shares_no_worth(t, h);
        lemma_no_shares_no_worth(next.total_staked, next.total_shares);
    }
}

/// No shares are worth nothing.
proof fn lemma_no_shares_no_worth(t: int, h: int)
    requires
        h >= 0,
    ensures
        worth_of_shares(0, t, h) == 0,
{
    assert(0 * t == 0) by (nonlinear_arith);
    assert(h > 0 ==> 0int / h == 0) by (nonlinear_arith);
}

/// An unstake never lowers what the caller has staked and unstaked together.
pub proof fn law_unstake_costs_caller_nothing(
    pool: PoolState,
    call: CallContext,
    amount: int,
    next: PoolState,
)
    requires
        pool.valid(),
        pool.record(call.predecessor@).stake_shares <= pool.total_shares,
        amount >= 0,
        unstake_outcome(pool, call, amount) == Ok::<PoolState, PoolError>(next),
    ensures
        next.staked_by(call.predecessor@) + next.record(call.predecessor@).unstaked_balance
            >= pool.pinged(call.locked_balance as int).staked_by(call.predecessor@) + pool.record(
            call.predecessor@,
        ).unstaked_balance,
{
    let before = pool.pinged(call.locked_balance as int);
    let caller = call.predecessor@;
    let s = before.record(caller).stake_shares as int;
    let t = before.total_staked;
    let h = before.total_shares;
    lemma_holding_within_pool(before, caller);
    lemma_burn_within_holding(amount, s, t, h);
    lemma_own_holding_after_burn(s, amount, shares_of_amount(amount, t, h), t, h);
}

/// An unstake of no more than the principal leaves the rewards as they are: what is
/// staked beyond the principal does not fall, and grows by no more than what one share
/// was worth and one unit.
pub proof fn law_unstake_keeps_rewards(
    pool: PoolState,
    call: CallContext,
    amount: int,
    next: PoolState,
)
    requires
        pool.valid(),
        pool.record(call.predecessor@).stake_shares <= pool.total_shares,
        0 <= amount <= pool.record(call.predecessor@).principal,
        unstake_outcome(pool, call, amount) == Ok::<PoolState, PoolError>(next),
    ensures
        pool.pinged(call.locked_balance as int).staked_by(call.predecessor@) - pool.record(
            call.predecessor@,
        ).principal <= next.staked_by(call.predecessor@) - next.record(
            call.predecessor@,
        ).principal <= pool.pinged(call.locked_balance as int).staked_by(call.predecessor@)
            - pool.record(call.predecessor@).principal + pool.pinged(
            call.locked_balance as int,
        ).worth(1) + 1,
        pool.pinged(call.locked_balance as int).rewards_of(call.predecessor@) <= next.rewards_of(
            call.predecessor@,
        ) <= pool.pinged(call.locked_balance as int).rewards_of(call.predecessor@) + pool.pinged(
            call.locked_balance as int,
        ).worth(1) + 1,
{
    let before = pool.pinged(call.locked_balance as int);
    let caller = call.predecessor@;
    let s = before.record(caller).stake_shares as int;
    let t = before.total_staked;
    let h = before.total_shares;
    let burned = shares_of_amount(amount, t, h);
    lemma_holding_within_pool(before, caller);
    lemma_burn_within_holding(amount, s, t, h);
    lemma_own_holding_after_burn(s, amount, burned, t, h);
    lemma_worth_scaled(1, t, h);
    if h - burned > 0 {
        lemma_price_after_burn(amount, burned, t, h);
        lemma_worth_grows_with_price(s - burned, t - amount, h - burned, t, h);
        lemma_worth_of_rest(s, amount, burned, t, h);
    }
}

/// What a holding less burned shares is worth at the old price: the amount less, but
/// for the share that was not burned.
proof fn lemma_worth_of_rest(s: int, amount: int, burned: int, t: int, h: int)
    requires
        0 <= burned <= s <= h,
        t > 0,
        h > 0,
        fits(t),
        burned == amount * h / t,
    ensures
        worth_of_shares(s - burned, t, h) <= worth_of_shares(s, t, h) - amount + worth_of_shares(
            1,
            t,
            h,
        ) + 1,
{
    let n = amount * h;
    let ns = s * t;
    let w = ns / h;
    let p = t / h;
    let nr = (s - burned) * t;
    let wr = nr / h;
    assert(n < burned * t + t) by (nonlinear_arith)
        requires
            burned == n / t,
            t > 0,
    ;
    assert(ns < w * h + h) by (nonlinear_arith)
        requires
            w == ns / h,
            h > 0,
    ;
    assert(t < p * h + h) by (nonlinear_arith)
        requires
            p == t / h,
            h > 0,
    ;
    assert(wr * h <= nr) by (nonlinear_arith)
        requires
            wr == nr / h,
            h > 0,
    ;
    assert(nr == ns - burned * t) by (nonlinear_arith)
        requires
            nr == (s - burned) * t,
            ns == s * t,
    ;
    assert((w + p + 2 - amount) * h == w * h + h + (p * h + h) - amount * h) by (nonlinear_arith);
    assert(wr < w + p + 2 - amount) by (nonlinear_arith)
        requires
            wr * h < (w + p + 2 - amount) * h,
            h > 0,
    ;
    lemma_part_of_whole(s, h, t);
    lemma_part_of_whole(s - burned, h, t);
    lemma_quotient_at_most(t, h, t);
    assert(1 * t == t);
}

/// A claim by anyone but the owner leaves at least the principal staked.
pub proof fn law_claim_leaves_principal(pool: PoolState, call: CallContext, next: PoolState)
    requires
        pool.valid(),
        pool.record(call.predecessor@).stake_shares <= pool.total_shares,
        claim_outcome(pool, call) == Ok::<PoolState, PoolError>(next),
        call.predecessor@ != pool.owner,
    ensures
        next.record(call.predecessor@).principal == pool.record(call.predecessor@).principal,
        next.staked_by(call.predecessor@) >= pool.record(call.predecessor@).principal,
{
    let before = pool.pinged(call.locked_balance as int);
    let caller = call.predecessor@;
    let s = before.record(caller).stake_shares as int;
    let t = before.total_staked;
    let h = before.total_shares;
    let rewards = before.rewards_of(caller);
    let fee = fee_on(rewards, pool.claim_fee_bps as int);
    let burned = shares_of_amount(rewards, t, h);
    let rest = s - burned;
    lemma_holding_within_pool(before, caller);
    lemma_burn_within_holding(rewards, s, t, h);
    lemma_claim_fee_within_tenth(rewards, pool.claim_fee_bps as int);
    lemma_own_holding_after_burn(s, rewards, burned, t, h);
    if h - burned == 0 {
        lemma_no_shares_no_worth(next.total_staked, next.total_shares);
    }
    if h - burned > 0 && fee > 0 {
        lemma_deposit_keeps_price(fee, t - rewards, h - burned);
        lemma_shares_bought(fee, t - rewards, h - burned);
        let bought = shares_of_deposit(fee, t - rewards, h - burned);
        assert((t - rewards) * next.total_shares <= (t - rewards) * (h - burned + bought))
            by (nonlinear_arith)
            requires
                t - rewards >= 0,
                next.total_shares <= h - burned + bought,
        ;
        lemma_worth_grows_with_price(
            rest,
            t - rewards,
            h - burned,
            next.total_staked,
            next.total_shares,
        );
    }
}

/// Burning shares of a holding for an amount takes no more than the amount from what
/// the holding is worth.
proof fn lemma_own_holding_after_burn(s: int, amount: int, burned: int, t: int, h: int)
    requires
        0 <= burned <= s <= h,
        0 <= amount <= worth_of_shares(s, t, h),
        t > 0,
        h > 0,
        fits(t),
        burned == amount * h / t,
    ensures
        worth_of_shares(s, t, h) <= worth_of_shares(s - burned, t - amount, h - burned) + amount,
{
    let w = worth_of_shares(s, t, h);
    lemma_worth_scaled(s, t, h);
    assert(w <= t) by (nonlinear_arith)
        requires
            w * h <= s * t,
            s <= h,
            h > 0,
            t > 0,
    ;
    let n = amount * h;
    assert(burned * t <= n && n < burned * t + t) by (nonlinear_arith)
        requires
            burned == n / t,
            t > 0,
    ;
    if h == burned {
        assert(amount >= t) by (nonlinear_arith)
            requires
                h * t <= amount * h,
                h > 0,
        ;
    } else {
        let r = s * t - w * h;
        let q = amount * h - burned * t;
        assert(t * (s * amount - w * burned) == amount * r + w * q) by {
            assert(t * (s * amount - w * burned) == amount * (s * t) - w * (burned * t))
                by (nonlinear_arith);
            assert(amount * r == amount * (s * t) - amount * (w * h)) by (nonlinear_arith)
                requires
                    r == s * t - w * h,
            ;
            assert(w * q == w * (amount * h) - w * (burned * t)) by (nonlinear_arith)
                requires
                    q == amount * h - burned * t,
            ;
            assert(amount * (w * h) == w * (amount * h)) by (nonlinear_arith);
        }
        assert(amount * r <= t * r) by (nonlinear_arith)
            requires
                amount <= t,
                r >= 0,
        ;
        assert(w * q <= t * q) by (nonlinear_arith)
            requires
                w <= t,
                q >= 0,
        ;
        assert(t * (r + q) == t * r + t * q) by (nonlinear_arith);
        assert(s * amount - w * burned <= r + q) by (nonlinear_arith)
            requires
                t * (s * amount - w * burned) <= t * (r + q),
                t > 0,
        ;
        assert((s - burned) * (t - amount) == s * t - s * amount - burned * t + burned * amount)
            by (nonlinear_arith);
        assert((w - amount) * (h - burned) == w * h - w * burned - amount * h + amount * burned)
            by (nonlinear_arith);
        assert(burned * amount == amount * burned) by (nonlinear_arith);
        lemma_quotient_at_least((s - burned) * (t - amount), h - burned, w - amount);
    }
}

/// What a holding loses when shares are burned for an amount.
proof fn lemma_holding_after_burn(so: int, amount: int, burned: int, t: int, h: int)
    requires
        0 < so <= h - burned,
        0 <= amount <= t,
        t > 0,
        h > 0,
        fits(t),
        burned == amount * h / t,
        burned >= 0,
    ensures
        worth_of_shares(so, t, h) <= worth_of_shares(so, t - amount, h - burned) + worth_of_shares(
            1,
            t,
            h,
        ) + 1,
{
    let t2 = t - amount;
    let h2 = h - burned;
    let n = amount * h;
    assert(n < burned * t + t) by (nonlinear_arith)
        requires
            burned == n / t,
            t > 0,
    ;
    // t * h2 - t2 * h < t
    assert(t * h2 < t2 * h + t) by (nonlinear_arith)
        requires
            amount * h < burned * t + t,
            t2 == t - amount,
            h2 == h - burned,
    ;
    let w2 = so * t2 / h2;
    let n2 = so * t2;
    assert(n2 < w2 * h2 + h2) by (nonlinear_arith)
        requires
            w2 == n2 / h2,
            h2 > 0,
    ;
    let p = t / h;
    assert(t < p * h + h) by (nonlinear_arith)
        requires
            p == t / h,
            h > 0,
    ;
    // so * t * h2 <= so * t2 * h + so * t <= so * t2 * h + h2 * t
    //             <  (w2 + 1) * h2 * h + h2 * (p + 1) * h
    assert(so * t * h2 <= n2 * h + h2 * t) by (nonlinear_arith)
        requires
            t * h2 < t2 * h + t,
            n2 == so * t2,
            0 < so <= h2,
            t > 0,
    ;
    assert(n2 * h + h2 * t < (w2 + p + 2) * h * h2) by (nonlinear_arith)
        requires
            n2 < w2 * h2 + h2,
            t < p * h + h,
            h > 0,
            h2 > 0,
    ;
    assert(so * t < (w2 + p + 2) * h) by (nonlinear_arith)
        requires
            so * t * h2 < (w2 + p + 2) * h * h2,
            h2 > 0,
    ;
    let w1 = so * t / h;
    let n1 = so * t;
    assert(w1 < w2 + p + 2) by (nonlinear_arith)
        requires
            w1 == n1 / h,
            n1 < (w2 + p + 2) * h,
            h > 0,
    ;
    assert(1 * t == t);
    assert(p <= u128::MAX) by (nonlinear_arith)
        requires
            p == t / h,
            t <= u128::MAX,
            h > 0,
            t > 0,
    ;
    assert(w2 <= t2) by (nonlinear_arith)
        requires
            w2 == n2 / h2,
            n2 == so * t2,
            so <= h2,
            h2 > 0,
            t2 >= 0,
    ;
}

} // verus!
