use omnipool_subpools::amplification::calculate_amplification;
use omnipool_subpools::stableswap::{
    calculate_amount_to_add_for_shares, calculate_d, calculate_in_given_out, calculate_out_given_in,
    calculate_shares_for_amount, calculate_shares_removed, calculate_withdraw_one_asset, calculate_y,
};

const ONE: u128 = 1_000_000_000_000;

fn balanced() -> Vec<u128> {
    vec![1_000_000 * ONE, 1_000_000 * ONE]
}

#[test]
fn invariant_of_balanced_pool_is_the_sum() {
    assert_eq!(calculate_d(&balanced(), 100), Some(2_000_000 * ONE));
}

#[test]
fn invariant_of_empty_pool_is_zero() {
    assert_eq!(calculate_d(&vec![0, 0], 100), Some(0));
}

#[test]
fn invariant_fails_on_a_single_empty_balance() {
    assert_eq!(calculate_d(&vec![0, 1_000 * ONE], 100), None);
}

#[test]
fn invariant_of_three_asset_pool() {
    let xp = vec![1_000 * ONE, 2_000 * ONE, 3_000 * ONE];
    let d = calculate_d(&xp, 50).unwrap();
    assert_eq!(d, 5_998_523_256_529_250);
    assert!(d < 6_000 * ONE);
}

#[test]
fn balance_for_invariant_recovers_the_balance() {
    let xp = balanced();
    let d = calculate_d(&xp, 100).unwrap();
    assert_eq!(calculate_y(&xp, 1, d, 100), Some(1_000_000 * ONE));
    let xp3 = vec![1_000 * ONE, 2_000 * ONE, 3_000 * ONE];
    let d3 = calculate_d(&xp3, 50).unwrap();
    assert_eq!(calculate_y(&xp3, 2, d3, 50), Some(2_999_999_999_999_999));
}

#[test]
fn balance_for_invariant_rejects_bad_index() {
    assert_eq!(calculate_y(&balanced(), 2, 2_000_000 * ONE, 100), None);
}

#[test]
fn zero_fee_sell_keeps_invariant_and_pays_less_than_sold() {
    let xp = balanced();
    let d_before = calculate_d(&xp, 100).unwrap();
    let received = calculate_out_given_in(&xp, 0, 1, 1_000 * ONE, 100, 0).unwrap();
    assert_eq!(received, 999_995_024_895_447);
    assert!(received < 1_000 * ONE);
    let after = vec![xp[0] + 1_000 * ONE, xp[1] - received];
    let d_after = calculate_d(&after, 100).unwrap();
    assert!(d_after >= d_before);
}

#[test]
fn fee_bearing_sell_raises_invariant() {
    let xp = balanced();
    let d_before = calculate_d(&xp, 100).unwrap();
    let received = calculate_out_given_in(&xp, 0, 1, 1_000 * ONE, 100, 3_000).unwrap();
    assert_eq!(received, 996_995_039_820_760);
    let after = vec![xp[0] + 1_000 * ONE, xp[1] - received];
    assert!(calculate_d(&after, 100).unwrap() >= d_before);
}

#[test]
fn fee_bearing_buy_raises_invariant() {
    let xp = balanced();
    let d_before = calculate_d(&xp, 100).unwrap();
    let paid = calculate_in_given_out(&xp, 0, 1, 1_000 * ONE, 100, 3_000).unwrap();
    assert_eq!(paid, 1_003_004_990_079_519);
    let after = vec![xp[0] + paid, xp[1] - 1_000 * ONE];
    assert!(calculate_d(&after, 100).unwrap() >= d_before);
}

#[test]
fn zero_fee_buy_keeps_invariant() {
    let xp = balanced();
    let d_before = calculate_d(&xp, 100).unwrap();
    let paid = calculate_in_given_out(&xp, 0, 1, 1_000 * ONE, 100, 0).unwrap();
    assert_eq!(paid, 1_000_004_975_154_056);
    assert!(paid > 1_000 * ONE);
    let after = vec![xp[0] + paid, xp[1] - 1_000 * ONE];
    assert!(calculate_d(&after, 100).unwrap() >= d_before);
}

#[test]
fn trades_reject_same_asset_and_bad_index() {
    let xp = balanced();
    assert_eq!(calculate_out_given_in(&xp, 0, 0, ONE, 100, 0), None);
    assert_eq!(calculate_out_given_in(&xp, 0, 2, ONE, 100, 0), None);
    assert_eq!(calculate_in_given_out(&xp, 0, 1, 2_000_000 * ONE, 100, 0), None);
}

#[test]
fn shares_for_deposit_round_down() {
    let xp = balanced();
    let shares = calculate_shares_for_amount(&xp, 0, 100 * ONE, 100, 2_000_000 * ONE).unwrap();
    assert_eq!(shares, 99_999_987_562_810);
    assert!(shares < 100 * ONE);
}

#[test]
fn deposit_for_shares() {
    let xp = balanced();
    let amount = calculate_amount_to_add_for_shares(&xp, 0, 99_999_987_562_810, 100, 2_000_000 * ONE).unwrap();
    assert_eq!(amount, 99_999_999_999_999);
}

#[test]
fn deposit_then_withdraw_returns_no_more_than_deposited() {
    let xp = balanced();
    let issuance = 2_000_000 * ONE;
    let deposit = 100 * ONE;
    let shares = calculate_shares_for_amount(&xp, 0, deposit, 100, issuance).unwrap();
    let after = vec![xp[0] + deposit, xp[1]];
    let (net, fee) = calculate_withdraw_one_asset(&after, shares, 0, issuance + shares, 100, 0).unwrap();
    assert_eq!(net, 99_999_999_999_999);
    assert_eq!(fee, 0);
    assert!(net <= deposit);
}

#[test]
fn withdrawal_fee_is_charged() {
    let xp = balanced();
    let issuance = 2_000_000 * ONE;
    let shares = 99_999_987_562_810;
    let after = vec![xp[0] + 100 * ONE, xp[1]];
    let (net, fee) = calculate_withdraw_one_asset(&after, shares, 0, issuance + shares, 100, 1_000).unwrap();
    assert_eq!(net, 99_900_004_999_735);
    assert_eq!(fee, 99_995_000_264);
}

#[test]
fn withdrawal_of_more_shares_than_issued_fails() {
    let xp = balanced();
    assert_eq!(calculate_withdraw_one_asset(&xp, 3_000_000 * ONE, 0, 2_000_000 * ONE, 100, 0), None);
}

#[test]
fn shares_removed_for_withdrawal_round_up() {
    let xp = balanced();
    let with_fee = calculate_shares_removed(&xp, 1, 100 * ONE, 100, 2_000_000 * ONE, 1_000).unwrap();
    assert_eq!(with_fee, 100_100_012_438_435);
    let without = calculate_shares_removed(&xp, 1, 100 * ONE, 100, 2_000_000 * ONE, 0).unwrap();
    assert!(without < with_fee);
    assert_eq!(calculate_shares_removed(&xp, 1, 2_000_000 * ONE, 100, 2_000_000 * ONE, 0), None);
}

#[test]
fn amplification_ramp() {
    assert_eq!(calculate_amplification(100, 200, 10, 20, 5), 100);
    assert_eq!(calculate_amplification(100, 200, 10, 20, 10), 100);
    assert_eq!(calculate_amplification(100, 200, 10, 20, 15), 150);
    assert_eq!(calculate_amplification(100, 200, 10, 20, 20), 200);
    assert_eq!(calculate_amplification(100, 200, 10, 20, 25), 200);
    assert_eq!(calculate_amplification(200, 100, 10, 20, 13), 170);
    assert_eq!(calculate_amplification(100, 200, 10, 13, 11), 133);
}

fn next(x: u64) -> u64 {
    x.wrapping_mul(6364136223846793005).wrapping_add(1442695040888963407)
}

fn sampled_cases(n: usize) -> Vec<(u128, u128, u128, u128)> {
    let mut x: u64 = 42;
    let mut out = Vec::new();
    for _ in 0..n {
        x = next(x);
        let reserve = 500_000 * ONE + ((x >> 16) as u128) % (99_500_000 * ONE);
        x = next(x);
        let amount = 1_000_000 + ((x >> 16) as u128) % (100_000 * ONE);
        x = next(x);
        let amplification = 2 + ((x >> 16) as u128) % 9_998;
        x = next(x);
        let fee = ((x >> 16) as u128) % 200_000;
        out.push((reserve, amount, amplification, fee));
    }
    out
}

#[test]
fn sampled_trades_never_lower_the_invariant() {
    for (reserve, amount, amplification, fee) in sampled_cases(40) {
        let xp = vec![reserve, reserve];
        let d0 = calculate_d(&xp, amplification).unwrap();
        for f in [0, fee] {
            let out = calculate_out_given_in(&xp, 0, 1, amount, amplification, f).unwrap();
            assert!(calculate_d(&vec![reserve + amount, reserve - out], amplification).unwrap() >= d0);
            if f == 0 {
                assert!(out < amount);
            }
            let cost = calculate_in_given_out(&xp, 0, 1, amount, amplification, f).unwrap();
            assert!(calculate_d(&vec![reserve + cost, reserve - amount], amplification).unwrap() >= d0);
        }
    }
}

#[test]
fn sampled_deposit_withdraw_round_trips_pay_back_no_more() {
    for (reserve, amount, amplification, fee) in sampled_cases(40) {
        let xp = vec![reserve, reserve];
        let issuance = calculate_d(&xp, amplification).unwrap();
        let shares = calculate_shares_for_amount(&xp, 0, amount, amplification, issuance).unwrap();
        let after = vec![reserve + amount, reserve];
        let (net, _) = calculate_withdraw_one_asset(&after, shares, 0, issuance + shares, amplification, fee).unwrap();
        assert!(net <= amount);
    }
}
