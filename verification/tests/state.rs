use percolator_stake::processor::{derive_deposit_pda, derive_pool_pda, derive_vault_authority};
use percolator_stake::state::{StakeDeposit, StakePool, STAKE_DEPOSIT_SIZE, STAKE_POOL_SIZE};
use solana_program::pubkey::Pubkey;

#[test]
fn state_test_stake_pool_size() {
    assert_eq!(STAKE_POOL_SIZE, std::mem::size_of::<StakePool>());
    assert_eq!(STAKE_POOL_SIZE, 352);
}

#[test]
fn state_test_stake_deposit_size() {
    assert_eq!(STAKE_DEPOSIT_SIZE, std::mem::size_of::<StakeDeposit>());
    assert_eq!(STAKE_DEPOSIT_SIZE, 152);
}

#[test]
fn state_test_pool_value_normal() {
    let mut pool = StakePool::zeroed();
    pool.total_deposited = 1000;
    pool.total_withdrawn = 300;
    pool.total_flushed = 0;
    pool.total_returned = 0;
    assert_eq!(pool.total_pool_value(), Some(700));
}

#[test]
fn state_test_pool_value_with_flush() {
    let mut pool = StakePool::zeroed();
    pool.total_deposited = 1000;
    pool.total_withdrawn = 0;
    pool.total_flushed = 500;
    pool.total_returned = 0;
    assert_eq!(pool.total_pool_value(), Some(500));
}

#[test]
fn test_pool_value_with_flush_and_returns() {
    let mut pool = StakePool::zeroed();
    pool.total_deposited = 1000;
    pool.total_withdrawn = 300;
    pool.total_flushed = 500;
    pool.total_returned = 200;
    assert_eq!(pool.total_pool_value(), Some(400));
}

#[test]
fn test_pool_value_full_return_conservation() {
    let mut pool = StakePool::zeroed();
    pool.total_deposited = 1000;
    pool.total_withdrawn = 0;
    pool.total_flushed = 500;
    pool.total_returned = 500;
    assert_eq!(pool.total_pool_value(), Some(1000));
}

#[test]
fn state_test_pool_value_overdrawn() {
    let mut pool = StakePool::zeroed();
    pool.total_deposited = 100;
    pool.total_withdrawn = 200;
    assert_eq!(pool.total_pool_value(), None);
}

#[test]
fn test_pool_value_overflushed() {
    let mut pool = StakePool::zeroed();
    pool.total_deposited = 1000;
    pool.total_withdrawn = 0;
    pool.total_flushed = 1001;
    assert_eq!(pool.total_pool_value(), None);
}

#[test]
fn test_calc_lp_first_depositor() {
    let mut pool = StakePool::zeroed();
    pool.total_deposited = 0;
    pool.total_withdrawn = 0;
    pool.total_lp_supply = 0;
    assert_eq!(pool.calc_lp_for_deposit(1000), Some(1000));
}

#[test]
fn test_calc_lp_pro_rata() {
    let mut pool = StakePool::zeroed();
    pool.total_deposited = 2000;
    pool.total_withdrawn = 0;
    pool.total_lp_supply = 1000;
    assert_eq!(pool.calc_lp_for_deposit(500), Some(250));
}

#[test]
fn test_calc_collateral_proportional() {
    let mut pool = StakePool::zeroed();
    pool.total_deposited = 2000;
    pool.total_withdrawn = 0;
    pool.total_lp_supply = 1000;
    assert_eq!(pool.calc_collateral_for_withdraw(250), Some(500));
}

#[test]
fn state_test_pda_derivation_deterministic() {
    let program_id = Pubkey::new_unique().to_bytes();
    let slab = Pubkey::new_unique().to_bytes();
    let (pda1, bump1) = derive_pool_pda(&program_id, &slab).unwrap();
    let (pda2, bump2) = derive_pool_pda(&program_id, &slab).unwrap();
    assert_eq!(pda1, pda2);
    assert_eq!(bump1, bump2);
}

#[test]
fn test_pda_different_slabs_different_pdas() {
    let program_id = Pubkey::new_unique().to_bytes();
    let slab1 = Pubkey::new_unique().to_bytes();
    let slab2 = Pubkey::new_unique().to_bytes();
    let (pda1, _) = derive_pool_pda(&program_id, &slab1).unwrap();
    let (pda2, _) = derive_pool_pda(&program_id, &slab2).unwrap();
    assert_ne!(pda1, pda2);
}

#[test]
fn test_vault_auth_derives_from_pool() {
    let program_id = Pubkey::new_unique().to_bytes();
    let slab = Pubkey::new_unique().to_bytes();
    let (pool_pda, _) = derive_pool_pda(&program_id, &slab).unwrap();
    let (vault_auth, _) = derive_vault_authority(&program_id, &pool_pda).unwrap();
    assert_ne!(vault_auth, pool_pda);
    let (vault_auth2, _) = derive_vault_authority(&program_id, &pool_pda).unwrap();
    assert_eq!(vault_auth, vault_auth2);
}

#[test]
fn test_deposit_pda_per_user() {
    let program_id = Pubkey::new_unique().to_bytes();
    let pool = Pubkey::new_unique().to_bytes();
    let user1 = Pubkey::new_unique().to_bytes();
    let user2 = Pubkey::new_unique().to_bytes();
    let (dep1, _) = derive_deposit_pda(&program_id, &pool, &user1).unwrap();
    let (dep2, _) = derive_deposit_pda(&program_id, &pool, &user2).unwrap();
    assert_ne!(dep1, dep2);
}

#[test]
fn test_deposit_pda_per_pool() {
    let program_id = Pubkey::new_unique().to_bytes();
    let pool1 = Pubkey::new_unique().to_bytes();
    let pool2 = Pubkey::new_unique().to_bytes();
    let user = Pubkey::new_unique().to_bytes();
    let (dep1, _) = derive_deposit_pda(&program_id, &pool1, &user).unwrap();
    let (dep2, _) = derive_deposit_pda(&program_id, &pool2, &user).unwrap();
    assert_ne!(dep1, dep2);
}

#[test]
fn test_pool_value_returns_overflow() {
    let mut pool = StakePool::zeroed();
    pool.total_deposited = u64::MAX;
    pool.total_withdrawn = 0;
    pool.total_flushed = 0;
    pool.total_returned = 1;
    assert_eq!(pool.total_pool_value(), None);
}

#[test]
fn state_pda_matches_solana_derivation() {
    let program_id = Pubkey::new_unique();
    let slab = Pubkey::new_unique();
    let (expected, bump) = Pubkey::find_program_address(&[b"stake_pool", slab.as_ref()], &program_id);
    assert_eq!(derive_pool_pda(&program_id.to_bytes(), &slab.to_bytes()), Some((expected.to_bytes(), bump)));
    let (auth, abump) = Pubkey::find_program_address(&[b"vault_auth", expected.as_ref()], &program_id);
    assert_eq!(derive_vault_authority(&program_id.to_bytes(), &expected.to_bytes()), Some((auth.to_bytes(), abump)));
    let user = Pubkey::new_unique();
    let (dep, dbump) =
        Pubkey::find_program_address(&[b"stake_deposit", expected.as_ref(), user.as_ref()], &program_id);
    assert_eq!(
        derive_deposit_pda(&program_id.to_bytes(), &expected.to_bytes(), &user.to_bytes()),
        Some((dep.to_bytes(), dbump))
    );
}

#[test]
fn state_calc_prices_unbalanced_pool_as_empty() {
    // accounting that does not balance prices deposits as an empty pool
    let mut pool = StakePool::zeroed();
    pool.total_deposited = 100;
    pool.total_withdrawn = 200;
    assert_eq!(pool.calc_lp_for_deposit(10), Some(10));
    assert_eq!(pool.calc_collateral_for_withdraw(10), None);
    pool.total_lp_supply = 5;
    assert_eq!(pool.calc_lp_for_deposit(10), None);
}
