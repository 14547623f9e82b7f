use percolator_stake::math::{calc_collateral_for_withdraw, calc_lp_for_deposit, flush_available, pool_value};

// ── Basic Behavior ──

#[test]
fn test_first_depositor() {
    assert_eq!(calc_lp_for_deposit(0, 0, 1_000_000), Some(1_000_000));
}

#[test]
fn test_pro_rata() {
    assert_eq!(calc_lp_for_deposit(1_000_000, 1_000_000, 500_000), Some(500_000));
}

#[test]
fn test_withdraw_proportional() {
    assert_eq!(calc_collateral_for_withdraw(2_000_000, 2_000_000, 1_000_000), Some(1_000_000));
}

#[test]
fn test_rounding_down() {
    assert_eq!(calc_lp_for_deposit(999_999, 1_000_000, 1), Some(0));
}

#[test]
fn test_zero_supply_withdraw_none() {
    assert_eq!(calc_collateral_for_withdraw(0, 100, 10), None);
}

// ── Conservation ──

#[test]
fn test_roundtrip_no_profit() {
    let lp = calc_lp_for_deposit(5_000, 10_000, 1_000).unwrap();
    assert_eq!(lp, 500);
    let back = calc_collateral_for_withdraw(5_500, 11_000, 500).unwrap();
    assert_eq!(back, 1_000);
}

#[test]
fn test_roundtrip_with_rounding_loss() {
    let lp = calc_lp_for_deposit(3, 10, 7).unwrap();
    assert_eq!(lp, 2);
    let back = calc_collateral_for_withdraw(5, 17, 2).unwrap();
    assert_eq!(back, 6);
    assert!(back <= 7);
}

#[test]
fn math_test_two_depositors_conservation() {
    let a_lp = calc_lp_for_deposit(0, 0, 100).unwrap();
    assert_eq!(a_lp, 100);
    let b_lp = calc_lp_for_deposit(100, 100, 50).unwrap();
    assert_eq!(b_lp, 50);
    let a_back = calc_collateral_for_withdraw(150, 150, 100).unwrap();
    assert_eq!(a_back, 100);
    let b_back = calc_collateral_for_withdraw(50, 50, 50).unwrap();
    assert_eq!(b_back, 50);
    assert!(a_back + b_back <= 100 + 50);
}

// ── Dilution Protection ──

#[test]
fn test_no_dilution_attack() {
    let a_lp = calc_lp_for_deposit(0, 0, 1000).unwrap();
    let a_value_before = calc_collateral_for_withdraw(a_lp, 1000, a_lp).unwrap();
    assert_eq!(a_value_before, 1000);
    let b_lp = calc_lp_for_deposit(1000, 1000, 1).unwrap();
    assert_eq!(b_lp, 1);
    let a_value_after = calc_collateral_for_withdraw(1001, 1001, 1000).unwrap();
    assert!(a_value_after >= a_value_before);
}

// ── Edge Cases ──

#[test]
fn test_zero_deposit_zero_lp() {
    assert_eq!(calc_lp_for_deposit(100, 200, 0), Some(0));
}

#[test]
fn test_zero_burn_zero_col() {
    assert_eq!(calc_collateral_for_withdraw(100, 200, 0), Some(0));
}

#[test]
fn test_deposit_into_zero_value_pool_blocked() {
    assert_eq!(calc_lp_for_deposit(100, 0, 50), None);
}

#[test]
fn test_deposit_orphaned_value_blocked() {
    assert_eq!(calc_lp_for_deposit(0, 500, 1), None);
}

#[test]
fn test_large_values_no_overflow() {
    let max = u64::MAX / 2;
    assert!(calc_lp_for_deposit(max, max, max).is_some());
    assert!(calc_collateral_for_withdraw(max, max, max).is_some());
}

#[test]
fn test_u64_max_deposit() {
    let result = calc_lp_for_deposit(u64::MAX, u64::MAX, u64::MAX);
    assert_eq!(result, Some(u64::MAX));
}

// ── Pool Value ──

#[test]
fn math_test_pool_value_normal() {
    assert_eq!(pool_value(1000, 300), Some(700));
}

#[test]
fn math_test_pool_value_overdrawn() {
    assert_eq!(pool_value(100, 200), None);
}

#[test]
fn test_pool_value_exact() {
    assert_eq!(pool_value(100, 100), Some(0));
}

// ── Flush ──

#[test]
fn test_flush_available_normal() {
    assert_eq!(flush_available(1000, 200, 300), 500);
}

#[test]
fn test_flush_available_overdrawn() {
    assert_eq!(flush_available(100, 200, 0), 0);
}

#[test]
fn test_flush_available_fully_flushed() {
    assert_eq!(flush_available(1000, 200, 800), 0);
}

#[test]
fn test_flush_available_over_flushed() {
    assert_eq!(flush_available(1000, 200, 900), 0);
}

// ── Rounding Direction ──

#[test]
fn test_lp_rounds_down_not_up() {
    let lp = calc_lp_for_deposit(3, 10, 7).unwrap();
    assert_eq!(lp, 2);
    assert!((lp as u128) * 10 <= (7u128) * 3);
}

#[test]
fn test_withdrawal_rounds_down_not_up() {
    let col = calc_collateral_for_withdraw(7, 10, 3).unwrap();
    assert_eq!(col, 4);
    assert!((col as u128) * 7 <= (3u128) * 10);
}

// ── Orphaned-value and valueless-LP scenarios ──

#[test]
fn test_c9_orphaned_insurance_theft_blocked() {
    assert_eq!(calc_lp_for_deposit(0, 10_000_000, 1), None);
}

#[test]
fn test_c9_dilution_attack_blocked() {
    assert_eq!(calc_lp_for_deposit(1000, 0, 500), None);
}

#[test]
fn test_c9_true_first_depositor_works() {
    assert_eq!(calc_lp_for_deposit(0, 0, 1000), Some(1000));
}

#[test]
fn test_c9_normal_pro_rata_unaffected() {
    assert_eq!(calc_lp_for_deposit(1000, 2000, 500), Some(250));
}

// ── Monotonicity ──

#[test]
fn test_larger_deposit_more_lp() {
    let small = calc_lp_for_deposit(100, 200, 10).unwrap();
    let large = calc_lp_for_deposit(100, 200, 20).unwrap();
    assert!(large >= small);
}

#[test]
fn test_larger_burn_more_collateral() {
    let small = calc_collateral_for_withdraw(100, 200, 10).unwrap();
    let large = calc_collateral_for_withdraw(100, 200, 20).unwrap();
    assert!(large >= small);
}

// ── Further cases ──

#[test]
fn math_withdraw_result_above_u64_refused() {
    // 2^63 LP of a pool with value u64::MAX and supply 1 pays more than u64::MAX.
    assert_eq!(calc_collateral_for_withdraw(1, u64::MAX, 2), None);
    assert_eq!(calc_collateral_for_withdraw(1, u64::MAX, 1), Some(u64::MAX));
}

#[test]
fn math_deposit_result_above_u64_refused() {
    assert_eq!(calc_lp_for_deposit(u64::MAX, 1, 2), None);
    assert_eq!(calc_lp_for_deposit(u64::MAX, 1, 1), Some(u64::MAX));
}

#[test]
fn math_exact_pro_rata_values() {
    // 123 * 456 / 789 = 71 (56088 / 789 = 71.08)
    assert_eq!(calc_lp_for_deposit(456, 789, 123), Some(71));
    // 123 * 789 / 456 = 212 (97047 / 456 = 212.8)
    assert_eq!(calc_collateral_for_withdraw(456, 789, 123), Some(212));
}

#[test]
fn math_law_deposit_withdraw_no_inflation_examples() {
    for &(s, v, d) in &[(3u64, 10u64, 7u64), (7, 3, 5), (1, 1_000_000, 999_999), (999, 1000, 1)] {
        let lp = calc_lp_for_deposit(s, v, d).unwrap();
        let back = calc_collateral_for_withdraw(s + lp, v + d, lp).unwrap();
        assert!(back <= d, "{} {} {}", s, v, d);
    }
}

#[test]
fn math_law_two_part_redemption_exact() {
    // Redeeming 30 then 70 of 100 LP over value 257 pays out exactly 257.
    let c1 = calc_collateral_for_withdraw(100, 257, 30).unwrap();
    let c2 = calc_collateral_for_withdraw(70, 257 - c1, 70).unwrap();
    assert_eq!(c1 + c2, 257);
}

#[test]
fn math_law_withdraw_no_dilution_example() {
    // A holds 10 of 100 LP over value 333; B burns 45.
    let before = calc_collateral_for_withdraw(100, 333, 10).unwrap();
    let paid = calc_collateral_for_withdraw(100, 333, 45).unwrap();
    let after = calc_collateral_for_withdraw(55, 333 - paid, 10).unwrap();
    assert!(after >= before);
}
