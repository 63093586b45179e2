//! Sums over the records of a pool, and the laws of its books: the shares of the
//! delegators add up to the pool's shares, what the delegators have staked is
//! covered by the staked balance, and no action makes or loses money.

use vstd::prelude::*;

use crate::delegator::{record_of, Delegator};
use crate::muldiv::lemma_product_quotient_nonnegative;
use crate::pool_error::PoolError;
use crate::pool_rules::{
    claim_outcome, claim_payment, compound_outcome, deposit_outcome, fix_pool_outcome,
    fix_shares_outcome, fix_unstaked_outcome, net_deposit, ping_outcome, set_paused_outcome,
    sync_principal_outcome, unstake_all_outcome, unstake_outcome, update_fees_outcome,
    withdraw_outcome, CallContext, PoolState, LOCKUP_NS, MIN_STAKE,
};
use crate::shares::{
    fee_on, fits, lemma_burn_within_holding, lemma_claim_fee_within_tenth, less, shares_of_amount,
    shares_of_fee, worth_of_shares,
};

verus! {

/// The sum of one part of every record.
pub open spec fn sum_of(records: Map<Seq<char>, Delegator>, part: spec_fn(Delegator) -> int) -> int
    decreases records.dom().len(),
{
    if records.dom().finite() && records.dom().len() > 0 {
        let account = records.dom().choose();
        part(records[account]) + sum_of(records.remove(account), part)
    } else {
        0
    }
}

/// The shares that the delegators hold.
pub open spec fn shares_held(pool: PoolState) -> int {
    sum_of(pool.delegators, |d: Delegator| d.stake_shares as int)
}

/// The unstaked balances of the delegators.
pub open spec fn unstaked_held(pool: PoolState) -> int {
    sum_of(pool.delegators, |d: Delegator| d.unstaked_balance as int)
}

/// What the delegators have staked, each rounded down.
pub open spec fn staked_held(pool: PoolState) -> int {
    sum_of(pool.delegators, |d: Delegator| pool.worth(d.stake_shares as int))
}

/// All that the pool owes: the staked balance and the unstaked balances.
pub open spec fn owed(pool: PoolState) -> int {
    pool.total_staked + unstaked_held(pool)
}

/// The shares of the delegators add up to the shares of the pool.
pub open spec fn shares_balance(pool: PoolState) -> bool {
    &&& pool.delegators.dom().finite()
    &&& shares_held(pool) == pool.total_shares
}

/// Without shares there is no staked balance.
pub open spec fn stake_is_shared(pool: PoolState) -> bool {
    pool.total_shares == 0 ==> pool.total_staked == 0
}

/// A sum can be taken starting with any record.
proof fn lemma_sum_starts_anywhere(
    records: Map<Seq<char>, Delegator>,
    account: Seq<char>,
    part: spec_fn(Delegator) -> int,
)
    requires
        records.dom().finite(),
        records.contains_key(account),
    ensures
        sum_of(records, part) == part(records[account]) + sum_of(records.remove(account), part),
    decreases records.dom().len(),
{
    let first = records.dom().choose();
    assert(records.dom().contains(account));
    assert(records.dom().len() > 0);
    assert(records.dom().contains(first));
    if first != account {
        lemma_sum_starts_anywhere(records.remove(first), account, part);
        lemma_sum_starts_anywhere(records.remove(account), first, part);
        assert(records.remove(first).remove(account) =~= records.remove(account).remove(first));
    }
}

/// Setting a record changes a sum by the change of the record. An absent record
/// counts as blank, of which the part is zero.
proof fn lemma_sum_after_insert(
    records: Map<Seq<char>, Delegator>,
    account: Seq<char>,
    record: Delegator,
    part: spec_fn(Delegator) -> int,
)
    requires
        records.dom().finite(),
        part(Delegator::blank()) == 0,
    ensures
        records.insert(account, record).dom().finite(),
        sum_of(records.insert(account, record), part) == sum_of(records, part) - part(
            record_of(records, account),
        ) + part(record),
{
    let after = records.insert(account, record);
    lemma_sum_starts_anywhere(after, account, part);
    if records.contains_key(account) {
        lemma_sum_starts_anywhere(records, account, part);
        assert(after.remove(account) =~= records.remove(account));
    } else {
        assert(after.remove(account) =~= records);
    }
}

/// A sum of nonnegative parts is nonnegative, and no less than any of them.
proof fn lemma_part_within_sum(
    records: Map<Seq<char>, Delegator>,
    account: Seq<char>,
    part: spec_fn(Delegator) -> int,
)
    requires
        records.dom().finite(),
        part(Delegator::blank()) == 0,
        forall|d: Delegator| #[trigger] part(d) >= 0,
    ensures
        0 <= part(record_of(records, account)) <= sum_of(records, part),
{
    lemma_sum_nonnegative(records, part);
    if records.contains_key(account) {
        lemma_sum_starts_anywhere(records, account, part);
        lemma_sum_nonnegative(records.remove(account), part);
    }
}

proof fn lemma_sum_nonnegative(
    records: Map<Seq<char>, Delegator>,
    part: spec_fn(Delegator) -> int,
)
    requires
        forall|d: Delegator| #[trigger] part(d) >= 0,
    ensures
        sum_of(records, part) >= 0,
    decreases records.dom().len(),
{
    if records.dom().finite() && records.dom().len() > 0 {
        let account = records.dom().choose();
        assert(records.dom().contains(account));
        lemma_sum_nonnegative(records.remove(account), part);
    }
}

/// What the delegators have staked, taken times the shares, is at most the staked
/// balance taken times the shares that they hold.
proof fn lemma_worths_scaled(
    records: Map<Seq<char>, Delegator>,
    total_staked: int,
    total_shares: int,
)
    requires
        total_staked >= 0,
        total_shares > 0,
    ensures
        sum_of(
            records,
            |d: Delegator| worth_of_shares(d.stake_shares as int, total_staked, total_shares),
        ) * total_shares <= sum_of(records, |d: Delegator| d.stake_shares as int) * total_staked,
    decreases records.dom().len(),
{
    let worth = |d: Delegator| worth_of_shares(d.stake_shares as int, total_staked, total_shares);
    let shares = |d: Delegator| d.stake_shares as int;
    if records.dom().finite() && records.dom().len() > 0 {
        let account = records.dom().choose();
        assert(records.dom().contains(account));
        lemma_worths_scaled(records.remove(account), total_staked, total_shares);
        let w = worth(records[account]);
        let s = shares(records[account]);
        let ws = sum_of(records.remove(account), worth);
        let ss = sum_of(records.remove(account), shares);
        lemma_worth_scaled(s, total_staked, total_shares);
        assert((w + ws) * total_shares == w * total_shares + ws * total_shares)
            by (nonlinear_arith);
        assert((s + ss) * total_staked == s * total_staked + ss * total_staked)
            by (nonlinear_arith);
    } else {
        assert(0 * total_shares <= 0 * total_staked) by (nonlinear_arith);
    }
}

/// What shares are worth, taken times all shares, is at most the shares taken times
/// the staked balance.
pub proof fn lemma_worth_scaled(shares: int, total_staked: int, total_shares: int)
    requires
        shares >= 0,
        total_staked >= 0,
        total_shares > 0,
    ensures
        0 <= worth_of_shares(shares, total_staked, total_shares),
        worth_of_shares(shares, total_staked, total_shares) * total_shares <= shares * total_staked,
{
    let product = shares * total_staked;
    let quotient = product / total_shares;
    let worth = worth_of_shares(shares, total_staked, total_shares);
    lemma_product_quotient_nonnegative(shares, total_staked, total_shares);
    assert(quotient * total_shares <= product) by (nonlinear_arith)
        requires
            quotient == product / total_shares,
            total_shares > 0,
    ;
    assert(worth * total_shares <= quotient * total_shares) by (nonlinear_arith)
        requires
            worth <= quotient,
            total_shares > 0,
    ;
}

/// What the delegators have staked is covered by the staked balance.
pub proof fn law_stakes_are_covered(pool: PoolState)
    requires
        pool.valid(),
        shares_balance(pool),
    ensures
        staked_held(pool) <= pool.total_staked,
{
    let t = pool.total_staked;
    let h = pool.total_shares;
    if h > 0 {
        lemma_worths_scaled(pool.delegators, t, h);
        let held = staked_held(pool);
        assert((|d: Delegator| pool.worth(d.stake_shares as int)) =~= (|d: Delegator|
            worth_of_shares(d.stake_shares as int, t, h)));
        assert(held * h <= h * t);
        assert(held <= t) by (nonlinear_arith)
            requires
                held * h <= h * t,
                h > 0,
        ;
    } else {
        lemma_no_worth(pool.delegators, pool);
    }
}

/// In a pool without shares nothing is worth anything.
proof fn lemma_no_worth(records: Map<Seq<char>, Delegator>, pool: PoolState)
    requires
        pool.total_shares == 0,
    ensures
        sum_of(records, |d: Delegator| pool.worth(d.stake_shares as int)) == 0,
    decreases records.dom().len(),
{
    if records.dom().finite() && records.dom().len() > 0 {
        let account = records.dom().choose();
        assert(records.dom().contains(account));
        lemma_no_worth(records.remove(account), pool);
    }
}

/// No delegator holds more shares than the pool has, or has staked more than it.
pub proof fn law_stake_within_pool(pool: PoolState, account: Seq<char>)
    requires
        pool.valid(),
        shares_balance(pool),
    ensures
        pool.record(account).stake_shares <= pool.total_shares,
        0 <= pool.staked_by(account) <= pool.total_staked,
{
    lemma_part_within_sum(pool.delegators, account, |d: Delegator| d.stake_shares as int);
    lemma_holding_within_pool(pool, account);
}

/// Who holds no more shares than the pool has, has staked no more than the pool.
pub proof fn lemma_holding_within_pool(pool: PoolState, account: Seq<char>)
    requires
        pool.valid(),
        pool.record(account).stake_shares <= pool.total_shares,
    ensures
        0 <= pool.staked_by(account) <= pool.total_staked,
{
    let s = pool.record(account).stake_shares as int;
    if pool.total_shares > 0 {
        lemma_worth_scaled(s, pool.total_staked, pool.total_shares);
        let w = pool.staked_by(account);
        let t = pool.total_staked;
        let h = pool.total_shares;
        assert(w <= t) by (nonlinear_arith)
            requires
                w * h <= s * t,
                s <= h,
                h > 0,
                t >= 0,
        ;
    }
}

/// Two delegators together hold no more shares than the pool has.
pub proof fn law_two_holdings_within_pool(pool: PoolState, first: Seq<char>, second: Seq<char>)
    requires
        shares_balance(pool),
        first != second,
    ensures
        pool.record(first).stake_shares + pool.record(second).stake_shares <= pool.total_shares,
{
    let part = |d: Delegator| d.stake_shares as int;
    lemma_part_within_sum(pool.delegators, second, part);
    if pool.delegators.contains_key(first) {
        lemma_sum_starts_anywhere(pool.delegators, first, part);
        lemma_part_within_sum(pool.delegators.remove(first), second, part);
    }
}

/// Setting a record changes the shares held and the unstaked balances by the change
/// of the record.
proof fn lemma_books_after_insert(
    records: Map<Seq<char>, Delegator>,
    account: Seq<char>,
    record: Delegator,
)
    requires
        records.dom().finite(),
    ensures
        records.insert(account, record).dom().finite(),
        sum_of(records.insert(account, record), |d: Delegator| d.stake_shares as int) == sum_of(
            records,
            |d: Delegator| d.stake_shares as int,
        ) - record_of(records, account).stake_shares + record.stake_shares,
        sum_of(records.insert(account, record), |d: Delegator| d.unstaked_balance as int)
            == sum_of(records, |d: Delegator| d.unstaked_balance as int) - record_of(
            records,
            account,
        ).unstaked_balance + record.unstaked_balance,
{
    lemma_sum_after_insert(records, account, record, |d: Delegator| d.stake_shares as int);
    lemma_sum_after_insert(records, account, record, |d: Delegator| d.unstaked_balance as int);
}

/// A pool without delegators balances.
pub proof fn law_new_pool_balances(pool: PoolState)
    requires
        pool.delegators == Map::<Seq<char>, Delegator>::empty(),
        pool.total_shares == 0,
        pool.total_staked == 0,
    ensures
        shares_balance(pool),
        stake_is_shared(pool),
        owed(pool) == 0,
{
}

/// Attributing rewards keeps the books: no share is made or lost, and what the pool
/// owes changes by what is attributed.
pub proof fn law_ping_keeps_books(pool: PoolState, call: CallContext, next: PoolState)
    requires
        pool.valid(),
        shares_balance(pool),
        ping_outcome(pool, call) == Ok::<PoolState, PoolError>(next),
    ensures
        next.valid(),
        shares_balance(next),
        stake_is_shared(pool) ==> stake_is_shared(next),
        owed(next) == owed(pool) + (next.total_staked - pool.total_staked),
{
    if pool.total_staked == 0 {
        lemma_nothing_attributed(pool, call.locked_balance as int);
    }
}

/// To a pool without a staked balance nothing is attributed.
proof fn lemma_nothing_attributed(pool: PoolState, locked: int)
    requires
        pool.total_staked == 0,
        pool.last_locked >= 0,
        locked >= 0,
    ensures
        pool.pinged(locked).total_staked == 0,
{
    let last = pool.last_locked;
    if last > 0 {
        assert((locked - last) * 0 == 0 && (last - locked) * 0 == 0) by (nonlinear_arith);
        assert(0int / last == 0) by (nonlinear_arith)
            requires
                last > 0,
        ;
    }
}

/// A deposit keeps the books: the pool owes the net deposit more than after the
/// rewards up to now, and the delegator gets all the new shares.
pub proof fn law_deposit_keeps_books(pool: PoolState, call: CallContext, next: PoolState)
    requires
        pool.valid(),
        shares_balance(pool),
        deposit_outcome(pool, call) == Ok::<PoolState, PoolError>(next),
    ensures
        next.valid(),
        shares_balance(next),
        stake_is_shared(next),
        owed(next) == owed(
            pool.synced(call.locked_balance as int).pinged(call.locked_balance as int),
        ) + net_deposit(pool, call.attached_deposit as int),
{
    let locked = call.locked_balance as int;
    let before = pool.synced(locked).pinged(locked);
    let record = next.delegators[call.predecessor@];
    lemma_books_after_insert(before.delegators, call.predecessor@, record);
    lemma_net_deposit_positive(pool, call.attached_deposit as int);
    let net = net_deposit(pool, call.attached_deposit as int);
    if before.total_shares > 0 && before.total_staked > 0 {
        lemma_product_quotient_nonnegative(
            net,
            before.total_shares,
            before.total_staked,
        );
    }
}

/// A deposit that is large enough leaves something to stake after its fee, and the
/// fee is at most a thousandth of it.
pub proof fn lemma_net_deposit_positive(pool: PoolState, amount: int)
    requires
        pool.fees_bounded(),
        amount >= MIN_STAKE,
    ensures
        0 < net_deposit(pool, amount) <= amount,
        0 <= fee_on(amount, pool.deposit_fee_bps as int),
        fee_on(amount, pool.deposit_fee_bps as int) * 1000 <= amount,
{
    let bps = pool.deposit_fee_bps as int;
    assert(0 <= amount * bps <= amount * 10) by (nonlinear_arith)
        requires
            0 <= bps <= 10,
            amount >= 0,
    ;
}

/// An unstake keeps the books: it moves the amount, and the pool owes what it owed
/// after the rewards up to now.
pub proof fn law_unstake_keeps_books(
    pool: PoolState,
    call: CallContext,
    amount: int,
    next: PoolState,
)
    requires
        pool.valid(),
        shares_balance(pool),
        amount >= 0,
        unstake_outcome(pool, call, amount) == Ok::<PoolState, PoolError>(next),
    ensures
        next.valid(),
        shares_balance(next),
        stake_is_shared(next),
        next.total_staked == pool.pinged(call.locked_balance as int).total_staked - amount,
        owed(next) == owed(pool.pinged(call.locked_balance as int)),
{
    let before = pool.pinged(call.locked_balance as int);
    let caller = call.predecessor@;
    let d = before.record(caller);
    let t = before.total_staked;
    let h = before.total_shares;
    law_stake_within_pool(before, caller);
    lemma_burn_within_holding(amount, d.stake_shares as int, t, h);
    lemma_books_after_insert(before.delegators, caller, next.delegators[caller]);
    let burned = shares_of_amount(amount, t, h);
    if next.total_shares == 0 {
        assert(burned == h);
        lemma_all_shares_burned(amount, t, h);
    }
}

/// Burning all shares takes the whole staked balance.
proof fn lemma_all_shares_burned(amount: int, t: int, h: int)
    requires
        t > 0,
        h > 0,
        amount >= 0,
        amount * h / t >= h,
    ensures
        amount >= t,
{
    let product = amount * h;
    assert(product >= h * t) by (nonlinear_arith)
        requires
            product / t >= h,
            t > 0,
    ;
    assert(amount >= t) by (nonlinear_arith)
        requires
            amount * h >= h * t,
            h > 0,
    ;
}

/// A withdrawal keeps the books: the pool owes less by what it pays out.
pub proof fn law_withdraw_keeps_books(pool: PoolState, call: CallContext, next: PoolState)
    requires
        pool.valid(),
        shares_balance(pool),
        withdraw_outcome(pool, call) == Ok::<PoolState, PoolError>(next),
    ensures
        next.valid(),
        shares_balance(next),
        stake_is_shared(pool) ==> stake_is_shared(next),
        owed(next) == owed(pool) - pool.record(call.predecessor@).unstaked_balance,
{
    let caller = call.predecessor@;
    lemma_books_after_insert(pool.delegators, caller, next.delegators[caller]);
}

/// A compound keeps the books: the pool owes what it owed after the rewards up to
/// now.
pub proof fn law_compound_keeps_books(pool: PoolState, call: CallContext, next: PoolState)
    requires
        pool.valid(),
        shares_balance(pool),
        compound_outcome(pool, call) == Ok::<PoolState, PoolError>(next),
    ensures
        next.valid(),
        shares_balance(next),
        stake_is_shared(pool) ==> stake_is_shared(next),
        owed(next) == owed(pool.pinged(call.locked_balance as int)),
{
    let before = pool.pinged(call.locked_balance as int);
    let caller = call.predecessor@;
    lemma_books_after_insert(before.delegators, caller, next.delegators[caller]);
    if pool.total_staked == 0 {
        lemma_nothing_attributed(pool, call.locked_balance as int);
    }
}

/// A claim keeps the books: the pool owes less by what it pays out, and the fee stays
/// in the pool as shares of the owner.
pub proof fn law_claim_keeps_books(pool: PoolState, call: CallContext, next: PoolState)
    requires
        pool.valid(),
        shares_balance(pool),
        claim_outcome(pool, call) == Ok::<PoolState, PoolError>(next),
    ensures
        next.valid(),
        shares_balance(next),
        stake_is_shared(next),
        owed(next) == owed(pool.pinged(call.locked_balance as int)) - claim_payment(pool, call),
{
    let before = pool.pinged(call.locked_balance as int);
    let caller = call.predecessor@;
    let d = before.record(caller);
    let t = before.total_staked;
    let h = before.total_shares;
    let rewards = before.rewards_of(caller);
    let fee = fee_on(rewards, pool.claim_fee_bps as int);
    let burned = shares_of_amount(rewards, t, h);
    law_stake_within_pool(before, caller);
    lemma_burn_within_holding(rewards, d.stake_shares as int, t, h);
    lemma_claim_fee_within_tenth(rewards, pool.claim_fee_bps as int);
    if burned == h {
        lemma_all_shares_burned(rewards, t, h);
    }
    let claimant = Delegator {
        stake_shares: (d.stake_shares - burned) as u128,
        unlock_timestamp_ns: (call.block_timestamp + LOCKUP_NS) as u64,
        ..d
    };
    let claimed = before.delegators.insert(caller, claimant);
    lemma_books_after_insert(before.delegators, caller, claimant);
    if fee > 0 {
        lemma_fee_shares_fit(fee, rewards, burned, t, h);
        lemma_books_after_insert(claimed, pool.owner, next.delegators[pool.owner]);
    }
}

/// The shares for a claim fee fit beside the shares that are left.
proof fn lemma_fee_shares_fit(fee: int, rewards: int, burned: int, t: int, h: int)
    requires
        0 < fee,
        fee * 10 <= rewards <= t,
        fits(t),
        fits(h),
        h > 0,
        burned == rewards * h / t,
        0 <= burned <= h,
    ensures
        0 <= shares_of_fee(fee, rewards, burned, t, h),
        h - burned + shares_of_fee(fee, rewards, burned, t, h) <= u128::MAX,
{
    let rest = t - rewards;
    let fs = shares_of_fee(fee, rewards, burned, t, h);
    if rest == 0 {
        vstd::arithmetic::div_mod::lemma_div_by_multiple(h, t);
        assert(rewards * h == h * t) by (nonlinear_arith)
            requires
                rewards == t,
        ;
    } else {
        let left = h - burned;
        let n = rewards * h;
        let m = fee * left;
        lemma_product_quotient_nonnegative(fee, left, rest);
        assert(n < burned * t + t) by (nonlinear_arith)
            requires
                burned == n / t,
                t > 0,
        ;
        assert(fs <= m / rest);
        assert(fs * rest <= m) by (nonlinear_arith)
            requires
                fs <= m / rest,
                rest > 0,
        ;
        // left * t < h * rest + t
        assert(left * t < h * rest + t) by (nonlinear_arith)
            requires
                rewards * h < burned * t + t,
                left == h - burned,
                rest == t - rewards,
        ;
        assert(fs * rest * t <= fee * (left * t)) by (nonlinear_arith)
            requires
                fs * rest <= fee * left,
                t > 0,
        ;
        assert(fee * (left * t) < fee * (h * rest + t)) by (nonlinear_arith)
            requires
                left * t < h * rest + t,
                fee > 0,
        ;
        assert(fee * (h * rest + t) <= (fee * h + fee * t) * rest) by (nonlinear_arith)
            requires
                fee > 0,
                t > 0,
                rest >= 1,
        ;
        assert(fs * t < fee * h + fee * t) by (nonlinear_arith)
            requires
                fs * rest * t < (fee * h + fee * t) * rest,
                rest > 0,
        ;
        assert(10 * (fs * t) < rewards * h + rewards * t) by (nonlinear_arith)
            requires
                fs * t < fee * h + fee * t,
                fee * 10 <= rewards,
                h > 0,
                t > 0,
        ;
        if 2 * h >= t {
            // the fee shares are fewer than the burned ones
            assert(10 * (fs * t) < 3 * (rewards * h)) by (nonlinear_arith)
                requires
                    10 * (fs * t) < rewards * h + rewards * t,
                    2 * h >= t,
                    rewards > 0,
            ;
            assert(10 * (burned * t) > 3 * (rewards * h)) by (nonlinear_arith)
                requires
                    rewards * h < burned * t + t,
                    rewards >= 10,
                    2 * h >= t,
                    h > 0,
            ;
            assert(fs < burned) by (nonlinear_arith)
                requires
                    10 * (fs * t) < 10 * (burned * t),
                    t > 0,
            ;
        } else {
            assert(10 * fs < h + t) by (nonlinear_arith)
                requires
                    10 * (fs * t) < rewards * h + rewards * t,
                    rewards <= t,
                    h > 0,
                    t > 0,
            ;
        }
    }
}

/// Unstaking everything keeps the books: the pool owes what it owed after the
/// rewards up to now.
pub proof fn law_unstake_all_keeps_books(pool: PoolState, call: CallContext, next: PoolState)
    requires
        pool.valid(),
        shares_balance(pool),
        unstake_all_outcome(pool, call) == Ok::<PoolState, PoolError>(next),
    ensures
        next.valid(),
        shares_balance(next),
        stake_is_shared(next),
        owed(next) == owed(pool.pinged(call.locked_balance as int)),
{
    let before = pool.pinged(call.locked_balance as int);
    law_stake_within_pool(before, call.predecessor@);
    law_unstake_keeps_books(pool, call, before.staked_by(call.predecessor@), next);
}

/// Lowering a principal keeps the books and changes no balance.
pub proof fn law_sync_principal_keeps_books(pool: PoolState, call: CallContext, next: PoolState)
    requires
        pool.valid(),
        shares_balance(pool),
        sync_principal_outcome(pool, call) == Ok::<PoolState, PoolError>(next),
    ensures
        next.valid(),
        shares_balance(next),
        stake_is_shared(pool) ==> stake_is_shared(next),
        owed(next) == owed(pool),
{
    let caller = call.predecessor@;
    lemma_books_after_insert(pool.delegators, caller, next.delegators[caller]);
}

/// Changing the fees, and opening or closing the pool, touches no balance.
pub proof fn law_settings_keep_books(
    pool: PoolState,
    call: CallContext,
    deposit_fee_bps: u16,
    claim_fee_bps: u16,
    paused: bool,
)
    requires
        pool.valid(),
        shares_balance(pool),
    ensures
        update_fees_outcome(pool, call, deposit_fee_bps, claim_fee_bps) matches Ok(next)
            ==> next.valid() && shares_balance(next) && owed(next) == owed(pool),
        set_paused_outcome(pool, call, paused) matches Ok(next) ==> next.valid() && shares_balance(
            next,
        ) && owed(next) == owed(pool),
{
}

/// The owner's corrections keep the sum of the shares, as long as the shares of the
/// delegators fit in a `u128`.
pub proof fn law_corrections_keep_share_sum(
    pool: PoolState,
    call: CallContext,
    account: Seq<char>,
    a: u128,
    b: u128,
)
    requires
        pool.valid(),
        shares_balance(pool),
    ensures
        fix_pool_outcome(pool, call, a as int, b as int) matches Ok(next) ==> next.valid()
            && shares_balance(next),
        fix_shares_outcome(pool, call, account, a, b) matches Ok(next) ==> shares_held(next)
            <= u128::MAX ==> next.valid() && shares_balance(next),
        fix_unstaked_outcome(pool, call, account, a) matches Ok(next) ==> next.valid()
            && shares_balance(next),
{
    let d = pool.record(account);
    law_stake_within_pool(pool, account);
    lemma_books_after_insert(
        pool.delegators,
        account,
        Delegator { stake_shares: a, principal: b, ..d },
    );
    lemma_books_after_insert(pool.delegators, account, Delegator { unstaked_balance: a, ..d });
}

} // verus!
