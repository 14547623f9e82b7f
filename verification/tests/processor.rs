use percolator_stake::cpi::CpiCall;
use percolator_stake::error::{ProcessError, StakeError};
use percolator_stake::processor::{
    AccountView, admin_resolve_market_plan, admin_set_insurance_policy_plan, admin_set_maintenance_fee_plan, admin_set_oracle_authority_plan, admin_set_risk_threshold_plan, admin_withdraw_insurance_apply, admin_withdraw_insurance_plan, check_accounts, check_nonzero, create_deposit_record_call, deposit_apply, deposit_plan, deposit_record_address, deposit_record_update, derive_deposit_pda, derive_pool_pda, derive_vault_authority, flush_apply, flush_plan, init_pool_calls, init_pool_plan, init_pool_state, transfer_admin_apply, transfer_admin_plan, update_config, verify_token_program, withdraw_apply, withdraw_plan, withdraw_pool_checks,
};
use percolator_stake::state::{StakeDeposit, StakePool};
use solana_program::pubkey::Pubkey;

fn key() -> [u8; 32] {
    Pubkey::new_unique().to_bytes()
}

fn view(k: [u8; 32], is_signer: bool) -> AccountView {
    AccountView { key: k, is_signer, data_len: 0 }
}

fn token_id() -> [u8; 32] {
    spl_token::id().to_bytes()
}

struct Env {
    program_id: [u8; 32],
    slab: [u8; 32],
    pool_pda: [u8; 32],
    vault_auth: [u8; 32],
    admin: [u8; 32],
    pool: StakePool,
}

fn env() -> Env {
    let program_id = key();
    let slab = key();
    let (pool_pda, pool_bump) = derive_pool_pda(&program_id, &slab).unwrap();
    let (vault_auth, auth_bump) = derive_vault_authority(&program_id, &pool_pda).unwrap();
    let admin = key();
    let mut pool = StakePool::zeroed();
    pool.is_initialized = 1;
    pool.bump = pool_bump;
    pool.vault_authority_bump = auth_bump;
    pool.slab = slab;
    pool.admin = admin;
    pool.lp_mint = key();
    pool.vault = key();
    pool.collateral_mint = key();
    pool.percolator_program = key();
    Env { program_id, slab, pool_pda, vault_auth, admin, pool }
}

fn deposit_accounts(e: &Env, user: [u8; 32]) -> Vec<AccountView> {
    let (dep, _) = derive_deposit_pda(&e.program_id, &e.pool_pda, &user).unwrap();
    vec![
        view(user, true),
        view(e.pool_pda, false),
        view(key(), false),
        view(e.pool.vault, false),
        view(e.pool.lp_mint, false),
        view(key(), false),
        view(e.vault_auth, false),
        view(dep, false),
        view(token_id(), false),
        view(key(), false),
        view([0u8; 32], false),
    ]
}

fn seeds(prefix: &[u8], k: [u8; 32], bump: u8) -> Vec<Vec<u8>> {
    vec![prefix.to_vec(), k.to_vec(), vec![bump]]
}

fn data_of(c: &CpiCall) -> Vec<u8> {
    c.instruction.data.clone()
}

#[test]
fn processor_checks() {
    assert_eq!(check_nonzero(0), Err(ProcessError::Stake(StakeError::ZeroAmount)));
    assert_eq!(check_nonzero(1), Ok(()));
    let a = vec![view(key(), true), view(key(), false)];
    assert_eq!(check_accounts(&a, 3), Err(ProcessError::NotEnoughAccountKeys));
    assert_eq!(check_accounts(&a, 2), Ok(()));
    let b = vec![view(key(), false), view(key(), false)];
    assert_eq!(check_accounts(&b, 2), Err(ProcessError::MissingRequiredSignature));
    assert_eq!(verify_token_program(&token_id()), Ok(()));
    assert_eq!(verify_token_program(&key()), Err(ProcessError::IncorrectProgramId));
}

#[test]
fn processor_deposit_first_depositor() {
    let e = env();
    let user = key();
    let a = deposit_accounts(&e, user);
    let plan = deposit_plan(&e.program_id, &a, &e.pool, 1_000).unwrap();
    assert_eq!(plan.lp_to_mint, 1_000);
    assert_eq!(plan.calls.len(), 2);
    // transfer: token program, [3] ++ amount, signed by the user
    let t = &plan.calls[0];
    assert_eq!(t.instruction.program_id, token_id());
    let mut d = vec![3u8];
    d.extend_from_slice(&1_000u64.to_le_bytes());
    assert_eq!(data_of(t), d);
    assert_eq!(t.account_keys, vec![a[2].key, a[3].key, a[0].key, a[8].key]);
    assert!(t.signer_seeds.is_empty());
    // mint: [7] ++ lp, signed by the vault authority PDA
    let m = &plan.calls[1];
    let mut d = vec![7u8];
    d.extend_from_slice(&1_000u64.to_le_bytes());
    assert_eq!(data_of(m), d);
    assert_eq!(m.signer_seeds, seeds(b"vault_auth", e.pool_pda, e.pool.vault_authority_bump));
    assert!(m.instruction.accounts[2].is_signer);

    let after = deposit_apply(&e.pool, 1_000, plan.lp_to_mint).unwrap();
    assert_eq!(after.total_deposited, 1_000);
    assert_eq!(after.total_lp_supply, 1_000);
    assert_eq!(after.total_pool_value(), Some(1_000));

    let bump = deposit_record_address(&e.program_id, &a).unwrap();
    let create = create_deposit_record_call(&e.program_id, &a, bump, 5_000);
    // the system program's bincode image of CreateAccount
    let mut d = vec![0u8, 0, 0, 0];
    d.extend_from_slice(&5_000u64.to_le_bytes());
    d.extend_from_slice(&152u64.to_le_bytes());
    d.extend_from_slice(&e.program_id);
    assert_eq!(data_of(&create), d);
    assert_eq!(create.instruction.program_id, [0u8; 32]);
    assert_eq!(create.signer_seeds, vec![b"stake_deposit".to_vec(), e.pool_pda.to_vec(), user.to_vec(), vec![bump]]);

    let rec = deposit_record_update(&StakeDeposit::zeroed(), bump, &a, 77, plan.lp_to_mint).unwrap();
    assert_eq!(rec.is_initialized, 1);
    assert_eq!(rec.user, user);
    assert_eq!(rec.pool, e.pool_pda);
    assert_eq!(rec.last_deposit_slot, 77);
    assert_eq!(rec.lp_amount, 1_000);
}

#[test]
fn processor_deposit_refusals() {
    let e = env();
    let a = deposit_accounts(&e, key());
    let mut p = e.pool;
    p.is_initialized = 0;
    assert_eq!(deposit_plan(&e.program_id, &a, &p, 5).err(), Some(ProcessError::Stake(StakeError::NotInitialized)));
    let mut bad = a.clone();
    bad[4].key = key();
    assert_eq!(deposit_plan(&e.program_id, &bad, &e.pool, 5).err(), Some(ProcessError::Stake(StakeError::InvalidMint)));
    let mut bad = a.clone();
    bad[3].key = key();
    assert_eq!(deposit_plan(&e.program_id, &bad, &e.pool, 5).err(), Some(ProcessError::Stake(StakeError::InvalidPda)));
    let mut bad = a.clone();
    bad[8].key = key();
    assert_eq!(deposit_plan(&e.program_id, &bad, &e.pool, 5).err(), Some(ProcessError::IncorrectProgramId));
    // cap on the current pool value, not on lifetime deposits
    let mut p = e.pool;
    p.total_deposited = 10_000;
    p.total_withdrawn = 9_900;
    p.total_lp_supply = 100;
    p.deposit_cap = 10_000;
    assert_eq!(deposit_plan(&e.program_id, &a, &p, 9_900).unwrap().lp_to_mint, 9_900);
    assert_eq!(deposit_plan(&e.program_id, &a, &p, 9_901).err(), Some(ProcessError::Stake(StakeError::DepositCapExceeded)));
    p.deposit_cap = u64::MAX;
    p.total_deposited = u64::MAX;
    p.total_withdrawn = 0;
    assert_eq!(deposit_plan(&e.program_id, &a, &p, 1).err(), Some(ProcessError::Stake(StakeError::Overflow)));
    // rounding to zero LP is refused
    let mut p = e.pool;
    p.total_deposited = 1_000_000;
    p.total_lp_supply = 999_999;
    assert_eq!(deposit_plan(&e.program_id, &a, &p, 1).err(), Some(ProcessError::Stake(StakeError::ZeroAmount)));
    // orphaned value refuses deposits
    let mut p = e.pool;
    p.total_deposited = 500;
    assert_eq!(deposit_plan(&e.program_id, &a, &p, 1).err(), Some(ProcessError::Stake(StakeError::Overflow)));
    // a record account that is not the user's PDA
    let mut bad = a.clone();
    bad[7].key = key();
    assert_eq!(deposit_record_address(&e.program_id, &bad), Err(ProcessError::Stake(StakeError::InvalidPda)));
    // overflow of the accounting after the calls
    let mut p = e.pool;
    p.total_deposited = u64::MAX;
    assert_eq!(deposit_apply(&p, 1, 1).err(), Some(ProcessError::Stake(StakeError::Overflow)));
}

fn withdraw_accounts(e: &Env, user: [u8; 32]) -> Vec<AccountView> {
    let (dep, _) = derive_deposit_pda(&e.program_id, &e.pool_pda, &user).unwrap();
    vec![
        view(user, true),
        view(e.pool_pda, false),
        view(key(), false),
        view(e.pool.lp_mint, false),
        view(e.pool.vault, false),
        view(key(), false),
        view(e.vault_auth, false),
        view(dep, false),
        view(token_id(), false),
        view(key(), false),
    ]
}

#[test]
fn processor_withdraw() {
    let e = env();
    let user = key();
    let a = withdraw_accounts(&e, user);
    let mut p = e.pool;
    p.total_deposited = 2_000;
    p.total_lp_supply = 1_000;
    p.cooldown_slots = 10;
    let mut rec = StakeDeposit::zeroed();
    rec.is_initialized = 1;
    rec.user = user;
    rec.pool = e.pool_pda;
    rec.last_deposit_slot = 100;
    rec.lp_amount = 400;
    assert_eq!(withdraw_pool_checks(&a, &p), Ok(()));
    assert_eq!(
        withdraw_plan(&e.program_id, &a, &p, &rec, 109, 250).err(),
        Some(ProcessError::Stake(StakeError::CooldownNotElapsed))
    );
    assert_eq!(
        withdraw_plan(&e.program_id, &a, &p, &rec, 110, 401).err(),
        Some(ProcessError::Stake(StakeError::InsufficientLpTokens))
    );
    let plan = withdraw_plan(&e.program_id, &a, &p, &rec, 110, 250).unwrap();
    assert_eq!(plan.collateral, 500);
    let mut d = vec![8u8];
    d.extend_from_slice(&250u64.to_le_bytes());
    assert_eq!(data_of(&plan.calls[0]), d);
    let mut d = vec![3u8];
    d.extend_from_slice(&500u64.to_le_bytes());
    assert_eq!(data_of(&plan.calls[1]), d);
    assert_eq!(plan.calls[1].signer_seeds, seeds(b"vault_auth", e.pool_pda, e.pool.vault_authority_bump));
    let (p2, r2) = withdraw_apply(&p, &rec, 250, plan.collateral).unwrap();
    assert_eq!(p2.total_withdrawn, 500);
    assert_eq!(p2.total_lp_supply, 750);
    assert_eq!(r2.lp_amount, 150);
    assert_eq!(p2.total_pool_value(), Some(1_500));
    // someone else's record
    let mut other = rec;
    other.user = key();
    assert_eq!(
        withdraw_plan(&e.program_id, &a, &p, &other, 110, 250).err(),
        Some(ProcessError::Stake(StakeError::Unauthorized))
    );
    // the cooldown sum saturates
    let mut late = rec;
    late.last_deposit_slot = u64::MAX - 1;
    assert_eq!(
        withdraw_plan(&e.program_id, &a, &p, &late, u64::MAX - 1, 1).err(),
        Some(ProcessError::Stake(StakeError::CooldownNotElapsed))
    );
    assert!(withdraw_plan(&e.program_id, &a, &p, &late, u64::MAX, 1).is_ok());
}

fn flush_accounts(e: &Env, caller: [u8; 32]) -> Vec<AccountView> {
    vec![
        view(caller, true),
        view(e.pool_pda, false),
        view(e.pool.vault, false),
        view(e.vault_auth, false),
        view(e.slab, false),
        view(key(), false),
        view(e.pool.percolator_program, false),
        view(token_id(), false),
    ]
}

#[test]
fn processor_flush_and_return() {
    let e = env();
    let mut p = e.pool;
    p.total_deposited = 1_000;
    p.total_lp_supply = 1_000;
    let a = flush_accounts(&e, e.admin);
    let c = flush_plan(&e.program_id, &a, &p, 600).unwrap();
    let mut d = vec![9u8];
    d.extend_from_slice(&600u64.to_le_bytes());
    assert_eq!(data_of(&c), d);
    assert_eq!(c.instruction.program_id, p.percolator_program);
    assert_eq!(c.signer_seeds, seeds(b"vault_auth", e.pool_pda, e.pool.vault_authority_bump));
    assert_eq!(flush_plan(&e.program_id, &a, &p, 1_001).err(), Some(ProcessError::InsufficientFunds));
    let not_admin = flush_accounts(&e, key());
    assert_eq!(flush_plan(&e.program_id, &not_admin, &p, 1).err(), Some(ProcessError::Stake(StakeError::Unauthorized)));
    let flushed = flush_apply(&p, 600).unwrap();
    assert_eq!(flushed.total_pool_value(), Some(400));
    let returned = admin_withdraw_insurance_apply(&flushed, 600).unwrap();
    assert_eq!(returned.total_pool_value(), Some(1_000));
}

#[test]
fn processor_config_and_admin_transfer() {
    let e = env();
    let a = vec![view(e.admin, true), view(e.pool_pda, false), view(e.slab, false), view(e.pool.percolator_program, false)];
    let p = update_config(&a, &e.pool, Some(42), None).unwrap();
    assert_eq!(p.cooldown_slots, 42);
    assert_eq!(p.deposit_cap, e.pool.deposit_cap);
    let other = vec![view(key(), true), view(e.pool_pda, false)];
    assert_eq!(update_config(&other, &e.pool, Some(1), Some(1)).err(), Some(ProcessError::Stake(StakeError::Unauthorized)));

    let c = transfer_admin_plan(&e.program_id, &a, &e.pool).unwrap();
    let mut d = vec![12u8];
    d.extend_from_slice(&e.pool_pda);
    assert_eq!(data_of(&c), d);
    assert!(c.signer_seeds.is_empty());
    let moved = transfer_admin_apply(&e.pool);
    assert_eq!(moved.admin_transferred, 1);
    assert_eq!(
        transfer_admin_plan(&e.program_id, &a, &moved).err(),
        Some(ProcessError::Stake(StakeError::AdminAlreadyTransferred))
    );
    // admin calls need the transfer first
    assert_eq!(
        admin_resolve_market_plan(&e.program_id, &a, &e.pool).err(),
        Some(ProcessError::Stake(StakeError::AdminNotTransferred))
    );
    let c = admin_resolve_market_plan(&e.program_id, &a, &moved).unwrap();
    assert_eq!(data_of(&c), vec![19]);
    assert_eq!(c.signer_seeds, seeds(b"stake_pool", e.slab, e.pool.bump));
    let c = admin_set_risk_threshold_plan(&e.program_id, &a, &moved, 5).unwrap();
    assert_eq!(data_of(&c)[0], 11);
    let c = admin_set_maintenance_fee_plan(&e.program_id, &a, &moved, 5).unwrap();
    assert_eq!(data_of(&c)[0], 15);
    let c = admin_set_oracle_authority_plan(&e.program_id, &a, &moved, &[1u8; 32]).unwrap();
    assert_eq!(data_of(&c)[0], 16);
    let c = admin_set_insurance_policy_plan(&e.program_id, &a, &moved, &[1u8; 32], 1, 2, 3).unwrap();
    assert_eq!(data_of(&c)[0], 22);
    let mut wrong_prog = a.clone();
    wrong_prog[3].key = key();
    assert_eq!(
        admin_resolve_market_plan(&e.program_id, &wrong_prog, &moved).err(),
        Some(ProcessError::Stake(StakeError::InvalidPercolatorProgram))
    );
}

#[test]
fn processor_admin_withdraw_insurance() {
    let e = env();
    let mut p = e.pool;
    p.admin_transferred = 1;
    let a = vec![
        view(e.admin, true),
        view(e.pool_pda, false),
        view(e.slab, false),
        view(e.vault_auth, false),
        view(p.vault, false),
        view(key(), false),
        view(key(), false),
        view(p.percolator_program, false),
        view(token_id(), false),
        view(key(), false),
    ];
    let c = admin_withdraw_insurance_plan(&e.program_id, &a, &p, 300).unwrap();
    let mut d = vec![23u8];
    d.extend_from_slice(&300u64.to_le_bytes());
    assert_eq!(data_of(&c), d);
    assert_eq!(c.account_keys[0], e.vault_auth);
    let mut bad = a.clone();
    bad[3].key = key();
    assert_eq!(admin_withdraw_insurance_plan(&e.program_id, &bad, &p, 300).err(), Some(ProcessError::InvalidArgument));
}

#[test]
fn processor_init_pool() {
    let program_id = key();
    let slab = key();
    let (pool_pda, pool_bump) = derive_pool_pda(&program_id, &slab).unwrap();
    let (vault_auth, auth_bump) = derive_vault_authority(&program_id, &pool_pda).unwrap();
    let admin = key();
    let a = vec![
        view(admin, true),
        view(slab, false),
        view(pool_pda, false),
        view(key(), false),
        view(key(), false),
        view(vault_auth, false),
        view(key(), false),
        view(key(), false),
        view(token_id(), false),
        view([0u8; 32], false),
        view(solana_program::sysvar::rent::id().to_bytes(), false),
    ];
    let plan = init_pool_plan(&program_id, &a).unwrap();
    assert_eq!(plan.pool_bump, pool_bump);
    assert_eq!(plan.vault_auth_bump, auth_bump);
    let calls = init_pool_calls(&program_id, &a, &plan, 1234);
    assert_eq!(calls.len(), 3);
    let mut d = vec![0u8, 0, 0, 0];
    d.extend_from_slice(&1234u64.to_le_bytes());
    d.extend_from_slice(&352u64.to_le_bytes());
    d.extend_from_slice(&program_id);
    assert_eq!(data_of(&calls[0]), d);
    let mut d = vec![0u8, 6];
    d.extend_from_slice(&vault_auth);
    d.push(1);
    d.extend_from_slice(&vault_auth);
    assert_eq!(data_of(&calls[1]), d);
    assert_eq!(calls[1].instruction.accounts[1].key, solana_program::sysvar::rent::id().to_bytes());
    assert_eq!(data_of(&calls[2]), vec![1]);
    let pool = init_pool_state(&StakePool::zeroed(), &plan, &a, 100, 5_000);
    assert_eq!(pool.is_initialized, 1);
    assert_eq!(pool.admin, admin);
    assert_eq!(pool.admin_transferred, 0);
    assert_eq!(pool.cooldown_slots, 100);
    assert_eq!(pool.deposit_cap, 5_000);
    let mut exists = a.clone();
    exists[2].data_len = 352;
    assert_eq!(init_pool_plan(&program_id, &exists).err(), Some(ProcessError::Stake(StakeError::AlreadyInitialized)));
    let mut bad = a.clone();
    bad[5].key = key();
    assert_eq!(init_pool_plan(&program_id, &bad).err(), Some(ProcessError::Stake(StakeError::InvalidPda)));
}
