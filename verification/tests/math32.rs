use percolator_stake::math32::{
    calc_collateral_for_withdraw, calc_lp_for_deposit, cooldown_elapsed, exceeds_cap, flush_available, pool_value,
    pool_value_with_flush,
};

#[test]
fn math32_first_depositor_exact() {
    for amount in 1..100u32 {
        let lp = calc_lp_for_deposit(0, 0, amount).unwrap();
        assert_eq!(lp, amount);
        assert_eq!(calc_collateral_for_withdraw(lp, amount, lp), Some(amount));
    }
}

#[test]
fn math32_pro_rata_and_bounds() {
    assert_eq!(calc_lp_for_deposit(1000, 2000, 500), Some(250));
    assert_eq!(calc_lp_for_deposit(3, 10, 7), Some(2));
    assert_eq!(calc_lp_for_deposit(u32::MAX, 1, 2), None);
    assert_eq!(calc_lp_for_deposit(u32::MAX, u32::MAX, u32::MAX), Some(u32::MAX));
    assert_eq!(calc_collateral_for_withdraw(7, 10, 3), Some(4));
    assert_eq!(calc_collateral_for_withdraw(1, u32::MAX, 2), None);
    assert_eq!(calc_collateral_for_withdraw(0, 5, 1), None);
}

#[test]
fn math32_orphaned_states_blocked() {
    assert_eq!(calc_lp_for_deposit(0, 5, 1), None);
    assert_eq!(calc_lp_for_deposit(5, 0, 1), None);
}

#[test]
fn math32_pool_values() {
    assert_eq!(pool_value(100, 30), Some(70));
    assert_eq!(pool_value(30, 100), None);
    assert_eq!(pool_value_with_flush(1000, 300, 500, 200), Some(400));
    assert_eq!(pool_value_with_flush(1000, 0, 1001, 0), None);
    assert_eq!(pool_value_with_flush(u32::MAX, 0, 0, 1), None);
    // flush then full return restores the value
    assert_eq!(pool_value_with_flush(90, 10, 30, 30), pool_value(90, 10));
    assert_eq!(flush_available(1000, 200, 300), 500);
    assert_eq!(flush_available(100, 200, 0), 0);
}

#[test]
fn math32_cooldown() {
    assert!(!cooldown_elapsed(100, 100, 5));
    assert!(!cooldown_elapsed(104, 100, 5));
    assert!(cooldown_elapsed(105, 100, 5));
    assert!(cooldown_elapsed(100, 100, 0));
    // the unlock slot saturates at u32::MAX
    assert!(cooldown_elapsed(u32::MAX, u32::MAX - 1, 10));
    assert!(!cooldown_elapsed(u32::MAX - 1, u32::MAX - 1, 10));
}

#[test]
fn math32_cap() {
    assert!(!exceeds_cap(u32::MAX, u32::MAX, 0));
    assert!(!exceeds_cap(40, 60, 100));
    assert!(exceeds_cap(40, 61, 100));
    assert!(exceeds_cap(u32::MAX, 1, u32::MAX));
}
