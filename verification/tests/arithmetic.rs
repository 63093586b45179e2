use pqc_staking::muldiv::muldiv128;
use pqc_staking::shares::{fee_for, Totals};
use pqc_staking::text::{push_decimal, same_text};

#[test]
fn muldiv_rounds_down() {
    assert_eq!(muldiv128(10, 10, 7), 14);
    assert_eq!(muldiv128(0, 10, 7), 0);
    assert_eq!(muldiv128(6, 7, 42), 1);
    assert_eq!(muldiv128(6, 7, 43), 0);
}

#[test]
fn muldiv_by_zero_is_zero() {
    assert_eq!(muldiv128(10, 10, 0), 0);
    assert_eq!(muldiv128(u128::MAX, u128::MAX, 0), 0);
}

#[test]
fn muldiv_is_exact_on_wide_products() {
    let unit: u128 = 1_000_000_000_000_000_000_000_000_000;
    assert_eq!(muldiv128(unit, unit, unit + unit / 2), 666_666_666_666_666_666_666_666_666);
    assert_eq!(muldiv128(unit - 1, unit + 1, unit), unit - 1);
    assert_eq!(muldiv128(u128::MAX, u128::MAX, u128::MAX), u128::MAX);
    assert_eq!(muldiv128(u128::MAX - 1, u128::MAX, u128::MAX), u128::MAX - 1);
    assert_eq!(muldiv128(u128::MAX, u128::MAX - 1, u128::MAX), u128::MAX - 1);
    assert_eq!(muldiv128(u128::MAX - 1, u128::MAX - 1, u128::MAX), u128::MAX - 2);
    assert_eq!(muldiv128(u128::MAX, 3, 4), 255_211_775_190_703_847_597_530_955_573_826_158_591);
}

#[test]
fn muldiv_is_held_at_the_largest_number() {
    assert_eq!(muldiv128(u128::MAX, 2, 1), u128::MAX);
    assert_eq!(muldiv128(u128::MAX, u128::MAX, 1), u128::MAX);
    assert_eq!(muldiv128(u128::MAX, u128::MAX, u128::MAX - 1), u128::MAX);
}

#[test]
fn shares_follow_the_price() {
    let totals = Totals { staked: 1500, shares: 1000, locked: 0 };
    assert_eq!(totals.shares_for(300), 200);
    assert_eq!(totals.shares_for_amount(301), 200);
    assert_eq!(totals.amount_for_shares(200), 300);
    assert_eq!(totals.shares_for_amount_post_reduce(14, 100, 66), 9);
    assert_eq!(totals.shares_for_amount_post_reduce(14, 1500, 66), 14);
}

#[test]
fn first_shares_cost_one_unit_each() {
    let empty = Totals { staked: 0, shares: 0, locked: 0 };
    assert_eq!(empty.shares_for(300), 300);
    assert_eq!(empty.shares_for_amount(300), 300);
    assert_eq!(empty.amount_for_shares(300), 0);
    let unshared = Totals { staked: 70, shares: 0, locked: 0 };
    assert_eq!(unshared.shares_for(300), 300);
    assert_eq!(unshared.shares_for_amount(300), 0);
    let worthless = Totals { staked: 0, shares: 70, locked: 0 };
    assert_eq!(worthless.shares_for(300), 300);
}

#[test]
fn totals_follow_the_locked_balance() {
    let totals = Totals { staked: 100, shares: 7, locked: 400 };
    let after = |locked: u128| totals.internal_ping(locked).unwrap();
    assert_eq!(after(480), Totals { staked: 120, shares: 7, locked: 480 });
    assert_eq!(after(400), Totals { staked: 100, shares: 7, locked: 400 });
    assert_eq!(after(402), Totals { staked: 100, shares: 7, locked: 402 });
    assert_eq!(after(100), Totals { staked: 25, shares: 7, locked: 100 });
    let unrecorded = Totals { staked: 100, shares: 7, locked: 0 };
    let pinged = unrecorded.internal_ping(500).unwrap();
    assert_eq!(pinged, Totals { staked: 100, shares: 7, locked: 500 });
    let full = Totals { staked: u128::MAX, shares: 7, locked: 5 };
    assert!(full.internal_ping(6).is_none());
}

#[test]
fn fees_round_down() {
    assert_eq!(fee_for(10_000, 10), 10);
    assert_eq!(fee_for(9_999, 10), 9);
    assert_eq!(fee_for(999, 10), 0);
    assert_eq!(fee_for(u128::MAX, 10_000), u128::MAX);
    assert_eq!(fee_for(u128::MAX, 0), 0);
}

#[test]
fn numerals_are_decimal() {
    let numeral = |n: u128| {
        let mut text = "n=".to_string();
        push_decimal(&mut text, n);
        text
    };
    assert_eq!(numeral(0), "n=0");
    assert_eq!(numeral(7), "n=7");
    assert_eq!(numeral(1_234_567_890), "n=1234567890");
    assert_eq!(numeral(u128::MAX), "n=340282366920938463463374607431768211455");
}

#[test]
fn texts_are_the_same_or_not() {
    assert!(same_text("mldsa", "mldsa"));
    assert!(!same_text("mldsa", "mlds"));
    assert!(!same_text("mldsa", "MLDSA"));
    assert!(same_text("", ""));
}
