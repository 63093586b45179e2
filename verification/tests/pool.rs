use pqc_staking::delegator::{Delegator, DelegatorMap};
use pqc_staking::pool::{ClaimActions, StakeAction, StakingPool};
use pqc_staking::pool_error::PoolError;
use pqc_staking::pool_rules::{CallContext, LOCKUP_NS, MIN_STAKE, NUM_EPOCHS_TO_UNLOCK};
use pqc_staking::staking_key::KeyError;

const FLC: u128 = MIN_STAKE;

fn key(byte: u8) -> String {
    format!("slhdsa:{}", bs58::encode([byte; 32]).into_string())
}

fn pool_with_fees(deposit_fee_bps: u16, claim_fee_bps: u16) -> StakingPool {
    match StakingPool::new("owner.fl".to_string(), key(7), deposit_fee_bps, claim_fee_bps) {
        Ok(pool) => pool,
        Err(error) => panic!("{}", error.message()),
    }
}

fn call(who: &str, deposit: u128, locked: u128, time: u64, epoch: u64) -> CallContext {
    CallContext {
        predecessor: who.to_string(),
        attached_deposit: deposit,
        locked_balance: locked,
        block_timestamp: time,
        epoch_height: epoch,
    }
}

fn deposit(pool: &mut StakingPool, who: &str, amount: u128, locked: u128) {
    assert!(pool.deposit_and_stake(&call(who, amount, locked, 0, 0)).is_ok());
}

/// Alice has 1000 staked, nobody else has, and all that is locked is hers.
fn pool_of_alice(claim_fee_bps: u16) -> StakingPool {
    let mut pool = pool_with_fees(0, claim_fee_bps);
    deposit(&mut pool, "alice.fl", 1000 * FLC, 0);
    assert!(pool.ping(&call("alice.fl", 0, 1000 * FLC, 0, 0)).is_ok());
    pool
}

fn record(pool: &StakingPool, who: &str) -> Delegator {
    pool.delegators.get_or_default(&who.to_string())
}

fn staked(pool: &StakingPool, who: &str) -> u128 {
    pool.get_account_staked_balance(who.to_string())
}

fn owner(locked: u128) -> CallContext {
    call("owner.fl", 0, locked, 0, 0)
}

fn stake_of(action: Result<Option<StakeAction>, PoolError>) -> StakeAction {
    match action {
        Ok(Some(stake)) => stake,
        Ok(None) => panic!("no stake action"),
        Err(error) => panic!("{}", error.message()),
    }
}

fn claimed(actions: Result<ClaimActions, PoolError>) -> ClaimActions {
    match actions {
        Ok(actions) => actions,
        Err(error) => panic!("{}", error.message()),
    }
}

// Creation.

#[test]
fn a_new_pool_is_empty() {
    let pool = pool_with_fees(10, 1_000);
    assert_eq!(pool.get_owner_id(), "owner.fl");
    assert_eq!(pool.get_total_staked_balance(), 0);
    assert_eq!(pool.get_total_stake_shares(), 0);
    assert_eq!(pool.last_locked_balance, 0);
    assert_eq!(pool.get_fees().deposit_fee_bps, 10);
    assert_eq!(pool.get_fees().claim_fee_bps, 1_000);
    assert!(!pool.paused);
    assert_eq!(pool.staking_key_bytes.len(), 37);
    assert!(pool.delegators.get(&"alice.fl".to_string()).is_none());
}

#[test]
fn a_new_pool_keeps_fees_within_bounds() {
    let fees = |deposit: u16, claim: u16| {
        StakingPool::new("owner.fl".to_string(), key(7), deposit, claim)
    };
    assert!(matches!(fees(11, 0), Err(PoolError::DepositFeeExceedsMax)));
    assert!(matches!(fees(11, 1_001), Err(PoolError::DepositFeeExceedsMax)));
    assert!(matches!(fees(10, 1_001), Err(PoolError::ClaimFeeExceedsMax)));
    assert!(fees(10, 1_000).is_ok());
}

#[test]
fn a_new_pool_needs_a_key() {
    let result = StakingPool::new("owner.fl".to_string(), "slhdsa".to_string(), 0, 0);
    assert!(matches!(result, Err(PoolError::Key(KeyError::MissingSeparator))));
}

// Deposits.

#[test]
fn a_deposit_pays_its_fee_and_stakes_the_rest() {
    let mut pool = pool_with_fees(10, 0);
    let locked = 300_000_000 * FLC;
    let actions = match pool.deposit_and_stake(&call("alice.fl", 1000 * FLC, locked, 5, 0)) {
        Ok(actions) => actions,
        Err(error) => panic!("{}", error.message()),
    };
    let fee = actions.fee.unwrap();
    assert_eq!(fee.receiver, "owner.fl");
    assert_eq!(fee.amount, FLC);
    let stake = actions.stake.unwrap();
    assert_eq!(stake.amount, locked);
    assert_eq!(stake.public_key, pool.staking_key_bytes);
    assert_eq!(pool.last_locked_balance, locked);
    assert_eq!(pool.get_total_staked_balance(), 999 * FLC);
    assert_eq!(pool.get_total_stake_shares(), 999 * FLC);
    let d = record(&pool, "alice.fl");
    assert_eq!(d.stake_shares, 999 * FLC);
    assert_eq!(d.principal, 999 * FLC);
    assert_eq!(d.unlock_timestamp_ns, 5 + LOCKUP_NS);
}

#[test]
fn the_first_deposit_earns_nothing_from_what_is_locked() {
    let mut pool = pool_with_fees(0, 0);
    deposit(&mut pool, "alice.fl", 1000 * FLC, 300_000_000 * FLC);
    let view = pool.get_account(&call("alice.fl", 0, 0, 0, 0), "alice.fl".to_string());
    assert_eq!(view.staked_balance, 1000 * FLC);
    assert_eq!(view.rewards_earned, 0);
}

#[test]
fn a_deposit_without_a_fee_pays_nobody() {
    let mut pool = pool_with_fees(0, 0);
    match pool.deposit_and_stake(&call("alice.fl", FLC, 0, 0, 0)) {
        Ok(actions) => assert!(actions.fee.is_none()),
        Err(error) => panic!("{}", error.message()),
    }
}

#[test]
fn a_newcomer_gets_no_earlier_rewards() {
    let mut pool = pool_of_alice(0);
    deposit(&mut pool, "bob.fl", 1100 * FLC, 1100 * FLC);
    assert_eq!(record(&pool, "bob.fl").stake_shares, 1000 * FLC);
    assert_eq!(record(&pool, "bob.fl").principal, 1100 * FLC);
    let view = pool.get_account(&call("bob.fl", 0, 0, 0, 0), "bob.fl".to_string());
    assert_eq!(view.staked_balance, 1100 * FLC);
    assert_eq!(view.rewards_earned, 0);
    assert_eq!(staked(&pool, "alice.fl"), 1100 * FLC);
    assert_eq!(pool.get_total_staked_balance(), 2200 * FLC);
}

#[test]
fn a_deposit_keeps_the_rewards_of_the_depositor() {
    let mut pool = pool_of_alice(0);
    deposit(&mut pool, "alice.fl", 550 * FLC, 1100 * FLC);
    let view = pool.get_account(&call("alice.fl", 0, 0, 0, 0), "alice.fl".to_string());
    assert_eq!(view.staked_balance, 1650 * FLC);
    assert_eq!(view.principal, 1550 * FLC);
    assert_eq!(view.rewards_earned, 100 * FLC);
}

#[test]
fn large_balances_do_not_overflow_a_deposit() {
    let mut pool = pool_with_fees(10, 0);
    deposit(&mut pool, "alice.fl", 300_000_000 * FLC, 300_000_000 * FLC);
    deposit(&mut pool, "bob.fl", 200_000_000 * FLC, 300_000_000 * FLC);
    assert_eq!(record(&pool, "bob.fl").principal, 199_800_000 * FLC);
    assert_eq!(staked(&pool, "bob.fl"), 199_800_000 * FLC);
}

#[test]
fn deposits_are_refused_while_paused() {
    let mut pool = pool_with_fees(0, 0);
    assert!(pool.pause(&owner(0)).is_ok());
    let refused = pool.deposit_and_stake(&call("alice.fl", FLC, 0, 0, 0));
    assert!(matches!(refused, Err(PoolError::Paused)));
    assert!(pool.unpause(&owner(0)).is_ok());
    deposit(&mut pool, "alice.fl", FLC, 0);
    assert_eq!(staked(&pool, "alice.fl"), FLC);
}

#[test]
fn small_deposits_are_refused() {
    let mut pool = pool_with_fees(0, 0);
    let refused = pool.deposit_and_stake(&call("alice.fl", FLC - 1, 9, 0, 0));
    assert!(matches!(refused, Err(PoolError::DepositTooSmall)));
    assert_eq!(pool.last_locked_balance, 0);
    assert_eq!(pool.get_total_stake_shares(), 0);
}

#[test]
fn a_deposit_that_does_not_fit_is_refused() {
    let mut pool = pool_with_fees(0, 0);
    deposit(&mut pool, "alice.fl", u128::MAX, 0);
    let refused = pool.deposit_and_stake(&call("bob.fl", FLC, 0, 0, 0));
    assert!(matches!(refused, Err(PoolError::Overflow)));
    assert_eq!(pool.get_total_staked_balance(), u128::MAX);
    assert!(pool.delegators.get(&"bob.fl".to_string()).is_none());
    let late = call("alice.fl", FLC, 0, u64::MAX, 0);
    let mut fresh = pool_with_fees(0, 0);
    assert!(matches!(fresh.deposit_and_stake(&late), Err(PoolError::Overflow)));
}

// Rewards.

#[test]
fn delegators_earn_in_proportion_to_what_is_locked() {
    let mut pool = pool_with_fees(0, 0);
    deposit(&mut pool, "alice.fl", 100 * FLC, 300 * FLC);
    assert!(pool.fix_pool_accounting(&owner(0), 100 * FLC, 400 * FLC).is_ok());
    // a fifth on 400 is 80, of which 100 in 400 belong to the pool
    assert!(pool.ping(&call("anyone.fl", 0, 480 * FLC, 0, 0)).is_ok());
    assert_eq!(pool.get_total_staked_balance(), 120 * FLC);
    assert_eq!(pool.last_locked_balance, 480 * FLC);
    assert_eq!(pool.get_total_stake_shares(), 100 * FLC);
    assert_eq!(staked(&pool, "alice.fl"), 120 * FLC);
}

#[test]
fn without_self_stake_the_whole_change_is_attributed() {
    let mut pool = pool_of_alice(0);
    assert!(pool.ping(&owner(1100 * FLC)).is_ok());
    assert_eq!(pool.get_total_staked_balance(), 1100 * FLC);
    assert!(pool.ping(&owner(333 * FLC + 1)).is_ok());
    assert_eq!(pool.get_total_staked_balance(), 333 * FLC + 1);
}

#[test]
fn no_more_than_the_reward_is_credited() {
    let mut pool = pool_of_alice(0);
    assert!(pool.fix_pool_accounting(&owner(0), 1000 * FLC, 10 * FLC).is_ok());
    assert!(pool.ping(&owner(15 * FLC)).is_ok());
    assert_eq!(pool.get_total_staked_balance(), 1005 * FLC);
}

#[test]
fn pinging_twice_credits_once() {
    let mut pool = pool_of_alice(0);
    assert!(pool.ping(&owner(1100 * FLC)).is_ok());
    assert!(pool.ping(&owner(1100 * FLC)).is_ok());
    assert_eq!(pool.get_total_staked_balance(), 1100 * FLC);
}

#[test]
fn nothing_is_credited_before_a_locked_balance_is_on_record() {
    let mut pool = pool_with_fees(0, 0);
    deposit(&mut pool, "alice.fl", 1000 * FLC, 0);
    assert!(pool.ping(&owner(300_000_000 * FLC)).is_ok());
    assert_eq!(pool.get_total_staked_balance(), 1000 * FLC);
}

#[test]
fn a_loss_is_borne_in_proportion() {
    let mut pool = pool_of_alice(0);
    assert!(pool.fix_pool_accounting(&owner(0), 1000 * FLC, 4000 * FLC).is_ok());
    assert!(pool.ping(&owner(1000 * FLC)).is_ok());
    assert_eq!(pool.get_total_staked_balance(), 250 * FLC);
    assert!(pool.ping(&owner(0)).is_ok());
    assert_eq!(pool.get_total_staked_balance(), 0);
}

#[test]
fn a_reward_that_does_not_fit_is_refused() {
    let mut pool = pool_of_alice(0);
    assert!(pool.fix_pool_accounting(&owner(0), u128::MAX, 5).is_ok());
    assert!(matches!(pool.ping(&owner(6)), Err(PoolError::Overflow)));
    assert_eq!(pool.last_locked_balance, 5);
    assert!(matches!(pool.unstake(&owner(6), 1), Err(PoolError::Overflow)));
    assert!(matches!(pool.unstake_all(&owner(6)), Err(PoolError::Overflow)));
    assert!(matches!(pool.claim_rewards(&owner(6)), Err(PoolError::Overflow)));
    assert!(matches!(pool.compound(&owner(6)), Err(PoolError::Overflow)));
}

// Leaving.

#[test]
fn a_locked_stake_stays() {
    let mut pool = pool_of_alice(0);
    let early = call("alice.fl", 0, 1100 * FLC, LOCKUP_NS - 1, 0);
    assert!(matches!(pool.unstake(&early, FLC), Err(PoolError::StillLocked)));
    assert!(matches!(pool.unstake_all(&early), Err(PoolError::StillLocked)));
    assert!(matches!(pool.claim_rewards(&early), Err(PoolError::StillLocked)));
    assert!(pool.get_account(&early, "alice.fl".to_string()).is_locked);
    let due = call("alice.fl", 0, 1100 * FLC, LOCKUP_NS, 0);
    assert!(!pool.get_account(&due, "alice.fl".to_string()).is_locked);
    assert!(pool.unstake(&due, FLC).is_ok());
    assert!(matches!(pool.unstake(&due, FLC), Err(PoolError::StillLocked)));
}

#[test]
fn an_unstake_moves_the_amount() {
    let mut pool = pool_of_alice(0);
    let due = call("alice.fl", 0, 1000 * FLC, LOCKUP_NS, 10);
    let stake = stake_of(pool.unstake(&due, 400 * FLC));
    assert_eq!(stake.amount, 1000 * FLC);
    assert_eq!(stake.public_key, pool.staking_key_bytes);
    let d = record(&pool, "alice.fl");
    assert_eq!(d.stake_shares, 600 * FLC);
    assert_eq!(d.principal, 600 * FLC);
    assert_eq!(d.unstaked_balance, 400 * FLC);
    assert_eq!(d.unstake_available_epoch, 10 + NUM_EPOCHS_TO_UNLOCK);
    assert_eq!(d.unlock_timestamp_ns, 2 * LOCKUP_NS);
    assert_eq!(pool.get_total_staked_balance(), 600 * FLC);
    assert_eq!(pool.get_total_stake_shares(), 600 * FLC);
    assert_eq!(pool.get_account_unstaked_balance("alice.fl".to_string()), 400 * FLC);
    assert_eq!(pool.get_account_total_balance("alice.fl".to_string()), 1000 * FLC);
}

#[test]
fn an_unstake_needs_a_stake_and_an_amount_within_it() {
    let mut pool = pool_of_alice(0);
    let stranger = call("bob.fl", 0, 1000 * FLC, LOCKUP_NS, 0);
    assert!(matches!(pool.unstake(&stranger, FLC), Err(PoolError::NoStake)));
    assert!(matches!(pool.unstake_all(&stranger), Err(PoolError::NoStake)));
    let due = call("alice.fl", 0, 1000 * FLC, LOCKUP_NS, 0);
    assert!(matches!(pool.unstake(&due, 0), Err(PoolError::InvalidUnstakeAmount)));
    let much = pool.unstake(&due, 1000 * FLC + 1);
    assert!(matches!(much, Err(PoolError::InvalidUnstakeAmount)));
    let late = call("alice.fl", 0, 1000 * FLC, u64::MAX, 0);
    assert!(matches!(pool.unstake(&late, FLC), Err(PoolError::Overflow)));
    let last_epoch = call("alice.fl", 0, 1000 * FLC, LOCKUP_NS, u64::MAX - 3);
    assert!(matches!(pool.unstake(&last_epoch, FLC), Err(PoolError::Overflow)));
    assert_eq!(staked(&pool, "alice.fl"), 1000 * FLC);
}

#[test]
fn pausing_keeps_nobody_from_leaving() {
    let mut pool = pool_of_alice(0);
    assert!(pool.pause(&owner(0)).is_ok());
    assert!(pool.unstake_all(&call("alice.fl", 0, 1000 * FLC, LOCKUP_NS, 0)).is_ok());
    assert!(pool.withdraw_all(&call("alice.fl", 0, 1000 * FLC, LOCKUP_NS, 4)).is_ok());
}

#[test]
fn unstaking_everything_takes_the_rewards_up_to_now() {
    let mut pool = pool_of_alice(0);
    let due = call("alice.fl", 0, 1100 * FLC, LOCKUP_NS, 0);
    assert!(pool.unstake_all(&due).is_ok());
    assert_eq!(record(&pool, "alice.fl").unstaked_balance, 1100 * FLC);
    assert_eq!(staked(&pool, "alice.fl"), 0);
    assert_eq!(pool.get_total_staked_balance(), 0);
    assert_eq!(pool.get_total_stake_shares(), 0);
    let later = call("alice.fl", 0, 1100 * FLC, 2 * LOCKUP_NS, 0);
    assert!(matches!(pool.unstake_all(&later), Err(PoolError::NothingToUnstake)));
}

#[test]
fn unstaking_everything_leaves_at_most_dust() {
    let mut pool = pool_with_fees(0, 0);
    let boss = owner(0);
    assert!(pool.fix_delegator_shares(&boss, "alice.fl".to_string(), 2, 0).is_ok());
    assert!(pool.fix_delegator_shares(&boss, "bob.fl".to_string(), 1, 0).is_ok());
    assert!(pool.fix_pool_accounting(&boss, 10, 0).is_ok());
    assert_eq!(staked(&pool, "bob.fl"), 3);
    assert!(pool.unstake_all(&call("alice.fl", 0, 0, 0, 0)).is_ok());
    assert_eq!(record(&pool, "alice.fl").unstaked_balance, 6);
    // one of the two shares stands for the six units; the other one remains
    assert_eq!(record(&pool, "alice.fl").stake_shares, 1);
    assert_eq!(staked(&pool, "alice.fl"), 2);
    assert_eq!(staked(&pool, "bob.fl"), 2);
}

#[test]
fn an_unstaked_balance_unbonds() {
    let mut pool = pool_of_alice(0);
    let nothing = pool.withdraw_all(&call("alice.fl", 0, 0, 0, 0));
    assert!(matches!(nothing, Err(PoolError::NoUnstakedBalance)));
    let stranger = pool.withdraw_all(&call("bob.fl", 0, 0, 0, 0));
    assert!(matches!(stranger, Err(PoolError::NoWithdrawal)));
    assert!(pool.unstake(&call("alice.fl", 0, 1000 * FLC, LOCKUP_NS, 10), 400 * FLC).is_ok());
    let early = call("alice.fl", 0, 0, 0, 13);
    assert!(!pool.get_account(&early, "alice.fl".to_string()).can_withdraw);
    assert!(matches!(pool.withdraw_all(&early), Err(PoolError::StillUnbonding)));
    let due = call("alice.fl", 0, 0, 0, 14);
    assert!(pool.get_account(&due, "alice.fl".to_string()).can_withdraw);
    match pool.withdraw_all(&due) {
        Ok(transfer) => {
            assert_eq!(transfer.receiver, "alice.fl");
            assert_eq!(transfer.amount, 400 * FLC);
        }
        Err(error) => panic!("{}", error.message()),
    }
    assert_eq!(record(&pool, "alice.fl").unstaked_balance, 0);
    assert_eq!(record(&pool, "alice.fl").unstake_available_epoch, 0);
    assert_eq!(pool.get_total_staked_balance(), 600 * FLC);
    assert!(matches!(pool.withdraw_all(&due), Err(PoolError::NoUnstakedBalance)));
}

// Claims and compounds.

#[test]
fn a_claim_pays_the_owner_in_shares() {
    let mut pool = pool_of_alice(1000);
    let due = call("alice.fl", 0, 1100 * FLC, LOCKUP_NS, 3);
    let actions = claimed(pool.claim_rewards(&due));
    assert_eq!(actions.payment.receiver, "alice.fl");
    assert_eq!(actions.payment.amount, 90 * FLC);
    assert_eq!(actions.stake.unwrap().amount, 1100 * FLC);
    let d = record(&pool, "alice.fl");
    assert_eq!(d.stake_shares, 909_090_909_090_909_090_909_090_910);
    assert_eq!(d.principal, 1000 * FLC);
    assert_eq!(d.unstaked_balance, 0);
    assert_eq!(d.unstake_available_epoch, 0);
    assert_eq!(d.unlock_timestamp_ns, 2 * LOCKUP_NS);
    let od = record(&pool, "owner.fl");
    assert_eq!(od.stake_shares, 9_090_909_090_909_090_909_090_909);
    assert_eq!(od.principal, 10 * FLC);
    assert_eq!(pool.get_total_staked_balance(), 1010 * FLC);
    assert_eq!(pool.get_total_stake_shares(), 918_181_818_181_818_181_818_181_819);
    assert_eq!(staked(&pool, "alice.fl"), 1000 * FLC);
    assert_eq!(staked(&pool, "owner.fl"), 10 * FLC - 1);
}

#[test]
fn a_claim_without_a_fee_makes_no_owner_record() {
    let mut pool = pool_of_alice(0);
    let due = call("alice.fl", 0, 1100 * FLC, LOCKUP_NS, 0);
    assert_eq!(claimed(pool.claim_rewards(&due)).payment.amount, 100 * FLC);
    assert_eq!(record(&pool, "alice.fl").unstaked_balance, 0);
    assert_eq!(pool.get_total_staked_balance(), 1000 * FLC);
    assert!(pool.delegators.get(&"owner.fl".to_string()).is_none());
}

#[test]
fn an_owner_who_claims_gets_the_fee_back_as_shares() {
    let mut pool = pool_with_fees(0, 1000);
    deposit(&mut pool, "owner.fl", 1000 * FLC, 0);
    assert!(pool.ping(&owner(1000 * FLC)).is_ok());
    let due = call("owner.fl", 0, 1100 * FLC, LOCKUP_NS, 0);
    let payment = claimed(pool.claim_rewards(&due)).payment;
    assert_eq!(payment.receiver, "owner.fl");
    assert_eq!(payment.amount, 90 * FLC);
    let d = record(&pool, "owner.fl");
    assert_eq!(d.stake_shares, 918_181_818_181_818_181_818_181_819);
    assert_eq!(d.stake_shares, pool.get_total_stake_shares());
    assert_eq!(d.principal, 1010 * FLC);
    assert_eq!(d.unstaked_balance, 0);
    assert_eq!(staked(&pool, "owner.fl"), 1010 * FLC);
}

#[test]
fn a_claim_hardly_touches_the_others() {
    let mut pool = pool_of_alice(1000);
    deposit(&mut pool, "bob.fl", 500 * FLC, 1000 * FLC);
    assert!(pool.fix_pool_accounting(&owner(0), 1500 * FLC, 1500 * FLC).is_ok());
    assert!(pool.ping(&owner(1650 * FLC)).is_ok());
    let before = staked(&pool, "bob.fl");
    assert_eq!(before, 550 * FLC);
    assert!(pool.claim_rewards(&call("alice.fl", 0, 1650 * FLC, LOCKUP_NS, 0)).is_ok());
    assert!(before - staked(&pool, "bob.fl") <= 2);
}

#[test]
fn a_claim_leaves_an_unstaked_balance_alone() {
    let mut pool = pool_of_alice(0);
    assert!(pool.unstake(&call("alice.fl", 0, 1000 * FLC, LOCKUP_NS, 10), 400 * FLC).is_ok());
    assert!(pool.fix_pool_accounting(&owner(0), 660 * FLC, 1000 * FLC).is_ok());
    let later = call("alice.fl", 0, 1000 * FLC, 2 * LOCKUP_NS, u64::MAX);
    assert_eq!(claimed(pool.claim_rewards(&later)).payment.amount, 60 * FLC);
    assert_eq!(record(&pool, "alice.fl").unstaked_balance, 400 * FLC);
    assert_eq!(record(&pool, "alice.fl").unstake_available_epoch, 14);
    assert!(staked(&pool, "alice.fl") >= 600 * FLC);
}

#[test]
fn an_unstake_costs_the_caller_nothing() {
    let mut pool = pool_with_fees(0, 0);
    let boss = owner(0);
    assert!(pool.fix_delegator_shares(&boss, "alice.fl".to_string(), 5, 0).is_ok());
    assert!(pool.fix_delegator_shares(&boss, "bob.fl".to_string(), 2, 0).is_ok());
    assert!(pool.fix_pool_accounting(&boss, 31, 0).is_ok());
    let before = pool.get_account_total_balance("alice.fl".to_string());
    assert_eq!(before, 22);
    assert!(pool.unstake(&call("alice.fl", 0, 0, 0, 0), 7).is_ok());
    assert!(pool.get_account_total_balance("alice.fl".to_string()) >= before);
}

#[test]
fn a_claim_needs_rewards() {
    let mut pool = pool_of_alice(0);
    let stranger = call("bob.fl", 0, 1000 * FLC, LOCKUP_NS, 0);
    assert!(matches!(pool.claim_rewards(&stranger), Err(PoolError::NoStake)));
    let due = call("alice.fl", 0, 1000 * FLC, LOCKUP_NS, 0);
    assert!(matches!(pool.claim_rewards(&due), Err(PoolError::NoRewards)));
    let late = call("alice.fl", 0, 1100 * FLC, u64::MAX, 0);
    assert!(matches!(pool.claim_rewards(&late), Err(PoolError::Overflow)));
}

#[test]
fn a_compound_turns_rewards_into_principal() {
    let mut pool = pool_of_alice(1000);
    // a lock does not keep anyone from compounding
    assert!(pool.compound(&call("alice.fl", 0, 1100 * FLC, 5, 0)).is_ok());
    let d = record(&pool, "alice.fl");
    assert_eq!(d.principal, 1100 * FLC);
    assert_eq!(d.stake_shares, 1000 * FLC);
    assert_eq!(d.unlock_timestamp_ns, 5 + LOCKUP_NS);
    assert_eq!(staked(&pool, "alice.fl"), 1100 * FLC);
    let again = pool.compound(&call("alice.fl", 0, 1100 * FLC, 5, 0));
    assert!(matches!(again, Err(PoolError::NoRewardsToCompound)));
    let stranger = pool.compound(&call("bob.fl", 0, 1100 * FLC, 5, 0));
    assert!(matches!(stranger, Err(PoolError::NoStake)));
    let late = pool.compound(&call("alice.fl", 0, 1200 * FLC, u64::MAX, 0));
    assert!(matches!(late, Err(PoolError::Overflow)));
    assert_eq!(pool.last_locked_balance, 1100 * FLC);
}

// The books.

#[test]
fn shares_and_money_add_up() {
    let mut pool = pool_with_fees(10, 1000);
    deposit(&mut pool, "alice.fl", 1000 * FLC, 0);
    deposit(&mut pool, "bob.fl", 700 * FLC + 1, 0);
    assert!(pool.ping(&owner(1698 * FLC)).is_ok());
    let owed = |pool: &StakingPool| {
        pool.get_total_staked_balance()
            + record(pool, "alice.fl").unstaked_balance
            + record(pool, "bob.fl").unstaked_balance
            + record(pool, "owner.fl").unstaked_balance
    };
    let locked = 1800 * FLC + 7;
    assert!(pool.ping(&owner(locked)).is_ok());
    let before = owed(&pool);
    let paid = claimed(pool.claim_rewards(&call("alice.fl", 0, locked, LOCKUP_NS, 0))).payment;
    assert!(pool.unstake(&call("bob.fl", 0, locked, LOCKUP_NS, 0), 3 * FLC + 1).is_ok());
    assert!(pool.compound(&call("bob.fl", 0, locked, 0, 0)).is_ok());
    assert_eq!(owed(&pool) + paid.amount, before);
    let names = ["alice.fl", "bob.fl", "owner.fl"];
    let shares: u128 = names.iter().map(|name| record(&pool, name).stake_shares).sum();
    assert_eq!(shares, pool.get_total_stake_shares());
    let stakes: u128 = names.iter().map(|name| staked(&pool, name)).sum();
    assert!(stakes <= pool.get_total_staked_balance());
}

#[test]
fn the_touched_records_suffice() {
    let mut pool = pool_of_alice(1000);
    deposit(&mut pool, "bob.fl", 500 * FLC, 1000 * FLC);
    let mut part = pool_of_alice(1000);
    part.total_staked_balance = pool.total_staked_balance;
    part.total_stake_shares = pool.total_stake_shares;
    let due = call("alice.fl", 0, 1100 * FLC, LOCKUP_NS, 0);
    let paid = claimed(pool.claim_rewards(&due)).payment.amount;
    assert_eq!(claimed(part.claim_rewards(&due)).payment.amount, paid);
    assert_eq!(record(&part, "alice.fl"), record(&pool, "alice.fl"));
    assert_eq!(record(&part, "owner.fl"), record(&pool, "owner.fl"));
    assert_eq!(part.get_total_staked_balance(), pool.get_total_staked_balance());
    assert_eq!(part.get_total_stake_shares(), pool.get_total_stake_shares());
    assert!(part.delegators.get(&"bob.fl".to_string()).is_none());
    // a third of 1600, which neither the claim nor its fee touches
    assert_eq!(staked(&pool, "bob.fl") / FLC, 533);
}

// The owner.

#[test]
fn only_the_owner_may_change_the_pool() {
    let mut pool = pool_of_alice(0);
    let alice = call("alice.fl", 0, 0, 0, 0);
    let name = "alice.fl".to_string();
    assert!(matches!(pool.update_fees(&alice, 0, 0), Err(PoolError::NotOwner)));
    assert!(matches!(pool.update_staking_key(&alice, key(8)), Err(PoolError::NotOwner)));
    assert!(matches!(pool.pause(&alice), Err(PoolError::NotOwner)));
    assert!(matches!(pool.unpause(&alice), Err(PoolError::NotOwner)));
    assert!(matches!(pool.fix_pool_accounting(&alice, 0, 0), Err(PoolError::NotOwner)));
    let shares = pool.fix_delegator_shares(&alice, name.clone(), 1, 1);
    assert!(matches!(shares, Err(PoolError::NotOwner)));
    let unstaked = pool.fix_delegator_unstaked(&alice, name, 1);
    assert!(matches!(unstaked, Err(PoolError::NotOwner)));
    assert_eq!(staked(&pool, "alice.fl"), 1000 * FLC);
}

#[test]
fn the_owner_sets_fees_within_bounds() {
    let mut pool = pool_with_fees(0, 0);
    assert!(pool.update_fees(&owner(0), 5, 250).is_ok());
    assert_eq!(pool.get_fees().deposit_fee_bps, 5);
    assert_eq!(pool.get_fees().claim_fee_bps, 250);
    let deposit_fee = pool.update_fees(&owner(0), 11, 1_001);
    assert!(matches!(deposit_fee, Err(PoolError::UpdatedDepositFeeExceedsMax)));
    let claim_fee = pool.update_fees(&owner(0), 10, 1_001);
    assert!(matches!(claim_fee, Err(PoolError::UpdatedClaimFeeExceedsMax)));
    assert_eq!(pool.get_fees().deposit_fee_bps, 5);
    assert_eq!(pool.get_fees().claim_fee_bps, 250);
    assert!(pool.update_fees(&owner(0), 10, 1_000).is_ok());
    assert_eq!(pool.get_fees().claim_fee_bps, 1_000);
}

#[test]
fn a_new_staking_key_is_staked_with_at_once() {
    let mut pool = pool_of_alice(0);
    assert!(pool.fix_pool_accounting(&owner(0), 1000 * FLC, 5000 * FLC).is_ok());
    let stake = stake_of(pool.update_staking_key(&owner(0), key(8)));
    assert_eq!(stake.amount, 5000 * FLC);
    assert_eq!(stake.public_key[5..], [8u8; 32]);
    assert_eq!(stake.public_key, pool.staking_key_bytes);
    let refused = pool.update_staking_key(&owner(0), "rsa:1".to_string());
    match refused {
        Err(PoolError::Key(KeyError::UnknownAlgorithm(name))) => assert_eq!(name, "rsa"),
        _ => panic!("a key of an unknown algorithm was taken"),
    }
    assert_eq!(pool.staking_key_bytes[5..], [8u8; 32]);
}

#[test]
fn a_pool_stakes_with_well_formed_keys_only() {
    for (len, stakes) in [
        (0, false),
        (5, false),
        (36, false),
        (37, true),
        (38, false),
        (902, true),
        (1957, true),
        (1958, false),
    ] {
        let mut pool = pool_of_alice(0);
        pool.staking_key_bytes = vec![4; len];
        match pool.unstake(&call("alice.fl", 0, 1000 * FLC, LOCKUP_NS, 0), FLC) {
            Ok(action) => assert_eq!(action.is_some(), stakes),
            Err(error) => panic!("{}", error.message()),
        }
    }
}

#[test]
fn the_stake_never_falls_below_what_is_locked() {
    let mut pool = pool_of_alice(0);
    let stake = stake_of(pool.unstake_all(&call("alice.fl", 0, 1000 * FLC, LOCKUP_NS, 0)));
    assert_eq!(stake.amount, 1000 * FLC);
    let mut growing = pool_of_alice(0);
    match growing.deposit_and_stake(&call("bob.fl", 500 * FLC, 1000 * FLC, 0, 0)) {
        Ok(actions) => assert_eq!(actions.stake.unwrap().amount, 1500 * FLC),
        Err(error) => panic!("{}", error.message()),
    }
}

#[test]
fn corrections_set_what_they_are_given() {
    let mut pool = pool_of_alice(0);
    let name = "alice.fl".to_string();
    assert!(pool.fix_delegator_shares(&owner(0), name.clone(), 40, 30).is_ok());
    assert_eq!(pool.get_total_stake_shares(), 40);
    assert_eq!(record(&pool, "alice.fl").stake_shares, 40);
    assert_eq!(record(&pool, "alice.fl").principal, 30);
    assert!(pool.fix_delegator_unstaked(&owner(0), name, 20).is_ok());
    assert_eq!(record(&pool, "alice.fl").unstaked_balance, 20);
    assert!(pool.fix_delegator_shares(&owner(0), "bob.fl".to_string(), u128::MAX, 0).is_ok());
    assert_eq!(pool.get_total_stake_shares(), u128::MAX);
}

#[test]
fn a_principal_is_lowered_to_the_stake_and_never_otherwise() {
    let mut pool = pool_of_alice(0);
    let alice = call("alice.fl", 0, 0, 0, 0);
    assert!(pool.fix_pool_accounting(&owner(0), 1000 * FLC - 1, 1000 * FLC).is_ok());
    assert!(pool.sync_principal(&alice).is_ok());
    assert_eq!(record(&pool, "alice.fl").principal, 1000 * FLC - 1);
    assert!(pool.fix_pool_accounting(&owner(0), 1100 * FLC, 1000 * FLC).is_ok());
    assert!(pool.sync_principal(&alice).is_ok());
    assert_eq!(record(&pool, "alice.fl").principal, 1000 * FLC - 1);
    let stranger = pool.sync_principal(&call("bob.fl", 0, 0, 0, 0));
    assert!(matches!(stranger, Err(PoolError::NoStake)));
}

// Views.

#[test]
fn an_account_view_tells_everything() {
    let mut pool = pool_of_alice(0);
    assert!(pool.unstake(&call("alice.fl", 0, 1000 * FLC, LOCKUP_NS, 1), 200 * FLC).is_ok());
    assert!(pool.fix_pool_accounting(&owner(0), 880 * FLC, 1000 * FLC).is_ok());
    let view = pool.get_account(&call("x.fl", 0, 0, 2 * LOCKUP_NS, 5), "alice.fl".to_string());
    assert_eq!(view.staked_balance, 880 * FLC);
    assert_eq!(view.unstaked_balance, 200 * FLC);
    assert_eq!(view.total_balance, 1080 * FLC);
    assert_eq!(view.principal, 800 * FLC);
    assert_eq!(view.rewards_earned, 80 * FLC);
    assert!(view.can_withdraw);
    assert!(!view.is_locked);
    assert_eq!(view.unlock_timestamp_ns, 2 * LOCKUP_NS);
    assert_eq!(view.unstake_available_epoch, 5);
}

#[test]
fn an_unknown_account_is_blank() {
    let pool = pool_of_alice(0);
    let view = pool.get_account(&call("x.fl", 0, 0, 0, 0), "bob.fl".to_string());
    assert_eq!(view.total_balance, 0);
    assert!(!view.can_withdraw);
    assert!(!view.is_locked);
    assert_eq!(staked(&pool, "bob.fl"), 0);
    assert_eq!(pool.get_account_unstaked_balance("bob.fl".to_string()), 0);
    assert_eq!(pool.get_account_total_balance("bob.fl".to_string()), 0);
}

#[test]
fn debug_views_show_shares() {
    let mut pool = pool_of_alice(0);
    assert!(pool.fix_delegator_shares(&owner(0), "alice.fl".to_string(), 40, 30).is_ok());
    assert!(pool.fix_pool_accounting(&owner(0), 50, 0).is_ok());
    assert_eq!(
        pool.debug_get_stake_shares("alice.fl".to_string()),
        "shares=40 principal=30 total_shares=40 total_staked=50"
    );
    assert_eq!(
        pool.debug_get_stake_shares("bob.fl".to_string()),
        "shares=0 principal=0 total_shares=40 total_staked=50"
    );
    assert_eq!(pool.debug_amount_for_shares(7), 8);
    assert_eq!(pool_with_fees(0, 0).debug_amount_for_shares(7), 0);
}

#[test]
fn errors_say_why() {
    let expected = [
        (PoolError::DepositFeeExceedsMax, "deposit_fee_bps exceeds 0.1% max"),
        (PoolError::ClaimFeeExceedsMax, "claim_fee_bps exceeds 10% max"),
        (PoolError::Key(KeyError::InvalidBase58), "Invalid base58"),
        (PoolError::Paused, "Pool is paused"),
        (PoolError::DepositTooSmall, "Deposit must be >= 1 FLC"),
        (PoolError::NoStake, "No stake found"),
        (PoolError::StillLocked, "Stake is still locked"),
        (PoolError::InvalidUnstakeAmount, "Invalid unstake amount"),
        (PoolError::NothingToUnstake, "Nothing to unstake"),
        (PoolError::NoWithdrawal, "No withdrawal found"),
        (PoolError::NoUnstakedBalance, "No unstaked balance"),
        (
            PoolError::StillUnbonding,
            "The unstaked balance is not yet available due to unbonding period",
        ),
        (PoolError::NoRewards, "No rewards yet"),
        (PoolError::NoRewardsToCompound, "No rewards to compound"),
        (PoolError::NotOwner, "Owner only"),
        (PoolError::UpdatedDepositFeeExceedsMax, "deposit > 0.1% max"),
        (PoolError::UpdatedClaimFeeExceedsMax, "claim > 10% max"),
        (PoolError::Overflow, "Arithmetic overflow"),
    ];
    for (error, text) in expected {
        assert_eq!(error.message(), text);
    }
}

// Records.

#[test]
fn a_map_holds_the_last_record_of_each_account() {
    let mut map = DelegatorMap::new();
    let alice = "alice.fl".to_string();
    let bob = "bob.fl".to_string();
    assert!(map.get(&alice).is_none());
    map.insert(&alice, Delegator { principal: 1, ..Delegator::default() });
    map.insert(&bob, Delegator { principal: 2, ..Delegator::default() });
    map.insert(&alice, Delegator { principal: 3, ..Delegator::default() });
    assert_eq!(map.get_or_default(&alice).principal, 3);
    assert_eq!(map.get(&bob).unwrap().principal, 2);
    assert_eq!(map.get_or_default(&"carol.fl".to_string()), Delegator::default());
}
