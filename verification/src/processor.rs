//! The checks and accounting of each stake instruction.
//!
//! An instruction runs as a sequence of steps separated by cross-program
//! calls. Each step here takes the accounts of the instruction (keys,
//! signer flags, data lengths), the decoded state and the arguments, and
//! either refuses with the error the program returns or yields the calls to
//! make next and the new state. The caller performs the calls in order,
//! stopping at the first failure, and writes the state back.
use vstd::prelude::*;
use crate::error::{StakeError, ProcessError};
use crate::state::{StakePool, StakeDeposit, STAKE_POOL_SIZE, STAKE_DEPOSIT_SIZE, pool_value_of, deposit_pricing_value};
use crate::math::{opt_int, lp_for_deposit, collateral_for_withdraw};
use crate::cpi::{self, CpiCall, CpiInstruction, instruction_is, call_is, admin_metas, meta_keys, bytes_list};
use crate::sdk::{self, program_address, address_view, token_program_key, rent_sysvar_key, system_program_key};
use vstd::bytes::spec_u64_to_le_bytes;

verus! {

broadcast use vstd::array::group_array_axioms;

/// What a step needs to know of an account passed to the instruction.
#[derive(Debug, Clone, Copy)]
pub struct AccountView {
    /// The account's address.
    pub key: [u8; 32],
    /// Whether it signed the transaction.
    pub is_signer: bool,
    /// Length of its data (0 for an account not yet created).
    pub data_len: usize,
}

/// Seed prefix of the pool PDA, `b"stake_pool"`.
pub open spec fn pool_seed() -> Seq<u8> {
    seq![115u8, 116, 97, 107, 101, 95, 112, 111, 111, 108]
}

/// Seed prefix of the vault authority PDA, `b"vault_auth"`.
pub open spec fn vault_auth_seed() -> Seq<u8> {
    seq![118u8, 97, 117, 108, 116, 95, 97, 117, 116, 104]
}

/// Seed prefix of the deposit record PDA, `b"stake_deposit"`.
pub open spec fn deposit_seed() -> Seq<u8> {
    seq![115u8, 116, 97, 107, 101, 95, 100, 101, 112, 111, 115, 105, 116]
}

fn pool_seed_bytes() -> (v: Vec<u8>)
    ensures
        v@ == pool_seed(),
{
    let v = vec![115u8, 116, 97, 107, 101, 95, 112, 111, 111, 108];
    assert(v@ =~= pool_seed());
    v
}

fn vault_auth_seed_bytes() -> (v: Vec<u8>)
    ensures
        v@ == vault_auth_seed(),
{
    let v = vec![118u8, 97, 117, 108, 116, 95, 97, 117, 116, 104];
    assert(v@ =~= vault_auth_seed());
    v
}

fn deposit_seed_bytes() -> (v: Vec<u8>)
    ensures
        v@ == deposit_seed(),
{
    let v = vec![115u8, 116, 97, 107, 101, 95, 100, 101, 112, 111, 115, 105, 116];
    assert(v@ =~= deposit_seed());
    v
}

fn key_vec(k: &[u8; 32]) -> (v: Vec<u8>)
    ensures
        v@ == k@,
{
    let mut v: Vec<u8> = Vec::new();
    cpi::append(&mut v, k.as_slice());
    v
}

/// Seeds `[b"stake_pool", slab]` of the pool PDA.
pub open spec fn pool_seeds(slab: Seq<u8>) -> Seq<Seq<u8>> {
    seq![pool_seed(), slab]
}

/// Seeds `[b"vault_auth", pool]` of the vault authority PDA.
pub open spec fn vault_auth_seeds(pool: Seq<u8>) -> Seq<Seq<u8>> {
    seq![vault_auth_seed(), pool]
}

/// Seeds `[b"stake_deposit", pool, user]` of a deposit record PDA.
pub open spec fn deposit_seeds(pool: Seq<u8>, user: Seq<u8>) -> Seq<Seq<u8>> {
    seq![deposit_seed(), pool, user]
}

/// Derive the stake pool PDA for a given slab. This PDA also becomes the
/// market admin after TransferAdmin. None when no bump seed gives an
/// address off the curve.
pub fn derive_pool_pda(program_id: &[u8; 32], slab: &[u8; 32]) -> (r: Option<([u8; 32], u8)>)
    ensures
        address_view(r) == program_address(pool_seeds(slab@), program_id@),
{
    let seeds = vec![pool_seed_bytes(), key_vec(slab)];
    assert(bytes_list(seeds@) =~= pool_seeds(slab@));
    sdk::find_program_address(&seeds, program_id)
}

/// Derive the vault authority PDA for a given pool; it is the LP mint
/// authority and the owner of the vault token account.
pub fn derive_vault_authority(program_id: &[u8; 32], pool: &[u8; 32]) -> (r: Option<([u8; 32], u8)>)
    ensures
        address_view(r) == program_address(vault_auth_seeds(pool@), program_id@),
{
    let seeds = vec![vault_auth_seed_bytes(), key_vec(pool)];
    assert(bytes_list(seeds@) =~= vault_auth_seeds(pool@));
    sdk::find_program_address(&seeds, program_id)
}

/// Derive the per-user deposit record PDA.
pub fn derive_deposit_pda(program_id: &[u8; 32], pool: &[u8; 32], user: &[u8; 32]) -> (r: Option<
    ([u8; 32], u8),
>)
    ensures
        address_view(r) == program_address(deposit_seeds(pool@, user@), program_id@),
{
    let seeds = vec![deposit_seed_bytes(), key_vec(pool), key_vec(user)];
    assert(bytes_list(seeds@) =~= deposit_seeds(pool@, user@));
    sdk::find_program_address(&seeds, program_id)
}

/// Signer seeds `[prefix, key, [bump]]`.
pub open spec fn signer_seeds_of(prefix: Seq<u8>, key: Seq<u8>, bump: u8) -> Seq<Seq<u8>> {
    seq![prefix, key, seq![bump]]
}

fn signer_seeds(prefix: Vec<u8>, key: &[u8; 32], bump: u8) -> (s: Vec<Vec<u8>>)
    ensures
        bytes_list(s@) == signer_seeds_of(prefix@, key@, bump),
{
    let b = vec![bump];
    assert(b@ =~= seq![bump]);
    let k = key_vec(key);
    let ghost pv = prefix@;
    let s = vec![prefix, k, b];
    assert(s@[0]@ == pv);
    assert(bytes_list(s@) =~= signer_seeds_of(prefix@, key@, bump));
    s
}

/// Whether two keys are equal.
pub fn key_eq(a: &[u8; 32], b: &[u8; 32]) -> (r: bool)
    ensures
        r == (a@ == b@),
{
    let mut i: usize = 0;
    while i < 32
        invariant
            i <= 32,
            forall|j: int| 0 <= j < i ==> a@[j] == b@[j],
        decreases 32 - i,
    {
        if a[i] != b[i] {
            return false;
        }
        i = i + 1;
    }
    assert(a@ =~= b@);
    true
}

/// Verify that the token program account is the real SPL token program:
/// handing PDA signer authority to any other program would let it drain
/// the vault.
pub fn verify_token_program(token_program: &[u8; 32]) -> (r: Result<(), ProcessError>)
    ensures
        r is Ok <==> token_program@ == token_program_key(),
        r matches Err(e) ==> e == ProcessError::IncorrectProgramId,
{
    let id = sdk::token_program_id();
    if !key_eq(token_program, &id) {
        return Err(ProcessError::IncorrectProgramId);
    }
    Ok(())
}

/// Refuse a zero amount with `ZeroAmount`.
pub fn check_nonzero(amount: u64) -> (r: Result<(), ProcessError>)
    ensures
        r is Ok <==> amount != 0,
        r matches Err(e) ==> e == ProcessError::Stake(StakeError::ZeroAmount),
{
    if amount == 0 {
        return Err(ProcessError::Stake(StakeError::ZeroAmount));
    }
    Ok(())
}

/// Refuse with `NotEnoughAccountKeys` when fewer than `needed` accounts
/// were passed, and then with `MissingRequiredSignature` when the first
/// account did not sign.
pub fn check_accounts(accounts: &[AccountView], needed: usize) -> (r: Result<(), ProcessError>)
    requires
        needed > 0,
    ensures
        r is Ok <==> accounts@.len() >= needed && accounts@[0].is_signer,
        r matches Err(e) ==> e == (if accounts@.len() < needed {
            ProcessError::NotEnoughAccountKeys
        } else {
            ProcessError::MissingRequiredSignature
        }),
{
    if accounts.len() < needed {
        return Err(ProcessError::NotEnoughAccountKeys);
    }
    if !accounts[0].is_signer {
        return Err(ProcessError::MissingRequiredSignature);
    }
    Ok(())
}

fn stake(e: StakeError) -> (r: ProcessError)
    ensures
        r == ProcessError::Stake(e),
{
    ProcessError::Stake(e)
}

// ─────────────────────────── UpdateConfig ───────────────────────────

/// The outcome of UpdateConfig (accounts: admin, pool).
pub open spec fn update_config_outcome(
    accounts: Seq<AccountView>,
    pool: StakePool,
    new_cooldown_slots: Option<u64>,
    new_deposit_cap: Option<u64>,
) -> Result<StakePool, ProcessError> {
    if pool.is_initialized != 1 {
        Err(ProcessError::Stake(StakeError::NotInitialized))
    } else if pool.admin@ != accounts[0].key@ {
        Err(ProcessError::Stake(StakeError::Unauthorized))
    } else {
        Ok(
            StakePool {
                cooldown_slots: match new_cooldown_slots {
                    Some(c) => c,
                    None => pool.cooldown_slots,
                },
                deposit_cap: match new_deposit_cap {
                    Some(c) => c,
                    None => pool.deposit_cap,
                },
                ..pool
            },
        )
    }
}

/// UpdateConfig, after the account and signer checks: the pool admin sets
/// the cooldown and/or the deposit cap.
pub fn update_config(
    accounts: &[AccountView],
    pool: &StakePool,
    new_cooldown_slots: Option<u64>,
    new_deposit_cap: Option<u64>,
) -> (r: Result<StakePool, ProcessError>)
    requires
        accounts@.len() >= 2,
    ensures
        r == update_config_outcome(accounts@, *pool, new_cooldown_slots, new_deposit_cap),
{
    if pool.is_initialized != 1 {
        return Err(stake(StakeError::NotInitialized));
    }
    if !key_eq(&pool.admin, &accounts[0].key) {
        return Err(stake(StakeError::Unauthorized));
    }
    let mut p = *pool;
    if let Some(cooldown) = new_cooldown_slots {
        p.cooldown_slots = cooldown;
    }
    if let Some(cap) = new_deposit_cap {
        p.deposit_cap = cap;
    }
    Ok(p)
}

// ───────────────────────── FlushToInsurance ─────────────────────────

/// What remains to flush, `deposited - withdrawn - flushed`, None when the
/// accounting does not balance.
pub open spec fn unflushed(pool: StakePool) -> Option<int> {
    if pool.total_withdrawn > pool.total_deposited {
        None
    } else if pool.total_flushed > pool.total_deposited - pool.total_withdrawn {
        None
    } else {
        Some(pool.total_deposited - pool.total_withdrawn - pool.total_flushed)
    }
}

/// The checks of FlushToInsurance (accounts: caller, pool, vault,
/// vault_auth, slab, wrapper_vault, percolator_program, token_program):
/// Ok with the vault authority bump when the flush may proceed.
pub open spec fn flush_verdict(program_id: Seq<u8>, a: Seq<AccountView>, pool: StakePool, amount: u64) -> Result<
    u8,
    ProcessError,
> {
    if pool.is_initialized != 1 {
        Err(ProcessError::Stake(StakeError::NotInitialized))
    } else if pool.admin@ != a[0].key@ {
        Err(ProcessError::Stake(StakeError::Unauthorized))
    } else if pool.slab@ != a[4].key@ {
        Err(ProcessError::Stake(StakeError::InvalidPda))
    } else if pool.vault@ != a[2].key@ {
        Err(ProcessError::Stake(StakeError::InvalidPda))
    } else if pool.percolator_program@ != a[6].key@ {
        Err(ProcessError::Stake(StakeError::InvalidPercolatorProgram))
    } else if unflushed(pool) is None {
        Err(ProcessError::Stake(StakeError::Overflow))
    } else if amount > unflushed(pool).unwrap() {
        Err(ProcessError::InsufficientFunds)
    } else {
        match program_address(vault_auth_seeds(a[1].key@), program_id) {
            None => Err(ProcessError::InvalidSeeds),
            Some((auth, bump)) => if auth != a[3].key@ {
                Err(ProcessError::Stake(StakeError::InvalidPda))
            } else {
                Ok(bump)
            },
        }
    }
}

/// FlushToInsurance, after the amount, account and signer checks: the pool
/// admin moves `amount` of vault collateral to the market's insurance fund
/// through TopUpInsurance, signed by the vault authority PDA. The amount may
/// not exceed what was deposited and neither withdrawn nor flushed yet.
pub fn flush_plan(program_id: &[u8; 32], accounts: &[AccountView], pool: &StakePool, amount: u64) -> (r:
    Result<CpiCall, ProcessError>)
    requires
        accounts@.len() >= 8,
    ensures
        r is Ok <==> flush_verdict(program_id@, accounts@, *pool, amount) is Ok,
        r matches Err(e) ==> flush_verdict(program_id@, accounts@, *pool, amount) == Err::<
            u8,
            ProcessError,
        >(e),
        r matches Ok(c) ==> {
            let a = accounts@;
            let bump = flush_verdict(program_id@, a, *pool, amount).unwrap();
            let metas = seq![
                (a[3].key@, true, false),
                (a[4].key@, false, true),
                (a[2].key@, false, true),
                (a[5].key@, false, true),
                (a[7].key@, false, false),
            ];
            &&& instruction_is(
                c.instruction,
                a[6].key@,
                metas,
                seq![cpi::TAG_TOP_UP_INSURANCE] + spec_u64_to_le_bytes(amount),
            )
            &&& call_is(c, meta_keys(metas), signer_seeds_of(vault_auth_seed(), a[1].key@, bump))
        },
{
    let caller = &accounts[0];
    let pool_pda = &accounts[1];
    let vault = &accounts[2];
    let vault_auth = &accounts[3];
    let slab = &accounts[4];
    let wrapper_vault = &accounts[5];
    let percolator_program = &accounts[6];
    let token_program = &accounts[7];
    if pool.is_initialized != 1 {
        return Err(stake(StakeError::NotInitialized));
    }
    if !key_eq(&pool.admin, &caller.key) {
        return Err(stake(StakeError::Unauthorized));
    }
    if !key_eq(&pool.slab, &slab.key) {
        return Err(stake(StakeError::InvalidPda));
    }
    if !key_eq(&pool.vault, &vault.key) {
        return Err(stake(StakeError::InvalidPda));
    }
    if !key_eq(&pool.percolator_program, &percolator_program.key) {
        return Err(stake(StakeError::InvalidPercolatorProgram));
    }
    let available = match pool.total_deposited.checked_sub(pool.total_withdrawn) {
        Some(v) => match v.checked_sub(pool.total_flushed) {
            Some(w) => w,
            None => return Err(stake(StakeError::Overflow)),
        },
        None => return Err(stake(StakeError::Overflow)),
    };
    if amount > available {
        return Err(ProcessError::InsufficientFunds);
    }
    let (expected_vault_auth, vault_auth_bump) = match derive_vault_authority(program_id, &pool_pda.key) {
        Some(x) => x,
        None => return Err(ProcessError::InvalidSeeds),
    };
    if !key_eq(&vault_auth.key, &expected_vault_auth) {
        return Err(stake(StakeError::InvalidPda));
    }
    let seeds = signer_seeds(vault_auth_seed_bytes(), &pool_pda.key, vault_auth_bump);
    Ok(
        cpi::cpi_top_up_insurance(
            &percolator_program.key,
            &vault_auth.key,
            &slab.key,
            &vault.key,
            &wrapper_vault.key,
            &token_program.key,
            amount,
            seeds,
        ),
    )
}

/// The pool after a flush of `amount`: `total_flushed` grows by it
/// (`Overflow` when that does not fit).
pub open spec fn flush_applied(pool: StakePool, amount: u64) -> Result<StakePool, ProcessError> {
    if pool.total_flushed + amount > u64::MAX {
        Err(ProcessError::Stake(StakeError::Overflow))
    } else {
        Ok(StakePool { total_flushed: (pool.total_flushed + amount) as u64, ..pool })
    }
}

/// Record a completed flush in the pool accounting.
pub fn flush_apply(pool: &StakePool, amount: u64) -> (r: Result<StakePool, ProcessError>)
    ensures
        r == flush_applied(*pool, amount),
{
    let mut p = *pool;
    p.total_flushed = match p.total_flushed.checked_add(amount) {
        Some(v) => v,
        None => return Err(stake(StakeError::Overflow)),
    };
    Ok(p)
}

// ─────────────────────────── TransferAdmin ───────────────────────────

/// The checks of TransferAdmin (accounts: current_admin, pool, slab,
/// percolator_program).
pub open spec fn transfer_admin_verdict(program_id: Seq<u8>, a: Seq<AccountView>, pool: StakePool) -> Result<
    (),
    ProcessError,
> {
    if pool.is_initialized != 1 {
        Err(ProcessError::Stake(StakeError::NotInitialized))
    } else if pool.admin@ != a[0].key@ {
        Err(ProcessError::Stake(StakeError::Unauthorized))
    } else if pool.admin_transferred == 1 {
        Err(ProcessError::Stake(StakeError::AdminAlreadyTransferred))
    } else if pool.slab@ != a[2].key@ {
        Err(ProcessError::Stake(StakeError::InvalidPda))
    } else if pool.percolator_program@ != a[3].key@ {
        Err(ProcessError::Stake(StakeError::InvalidPercolatorProgram))
    } else {
        match program_address(pool_seeds(a[2].key@), program_id) {
            None => Err(ProcessError::InvalidSeeds),
            Some((addr, _)) => if addr != a[1].key@ {
                Err(ProcessError::Stake(StakeError::InvalidPda))
            } else {
                Ok(())
            },
        }
    }
}

/// TransferAdmin, after the account and signer checks: the pool admin, who
/// must also be the market's current admin, hands the market admin to the
/// pool PDA through UpdateAdmin (signed by the admin, not by a PDA). Only
/// once.
pub fn transfer_admin_plan(program_id: &[u8; 32], accounts: &[AccountView], pool: &StakePool) -> (r:
    Result<CpiCall, ProcessError>)
    requires
        accounts@.len() >= 4,
    ensures
        r is Ok <==> transfer_admin_verdict(program_id@, accounts@, *pool) is Ok,
        r matches Err(e) ==> transfer_admin_verdict(program_id@, accounts@, *pool) == Err::<
            (),
            ProcessError,
        >(e),
        r matches Ok(c) ==> {
            let a = accounts@;
            &&& instruction_is(
                c.instruction,
                a[3].key@,
                admin_metas(a[0].key, a[2].key),
                seq![cpi::TAG_UPDATE_ADMIN] + a[1].key@,
            )
            &&& call_is(c, meta_keys(admin_metas(a[0].key, a[2].key)), Seq::empty())
        },
{
    let current_admin = &accounts[0];
    let pool_pda = &accounts[1];
    let slab = &accounts[2];
    let percolator_program = &accounts[3];
    if pool.is_initialized != 1 {
        return Err(stake(StakeError::NotInitialized));
    }
    if !key_eq(&pool.admin, &current_admin.key) {
        return Err(stake(StakeError::Unauthorized));
    }
    if pool.admin_transferred == 1 {
        return Err(stake(StakeError::AdminAlreadyTransferred));
    }
    if !key_eq(&pool.slab, &slab.key) {
        return Err(stake(StakeError::InvalidPda));
    }
    if !key_eq(&pool.percolator_program, &percolator_program.key) {
        return Err(stake(StakeError::InvalidPercolatorProgram));
    }
    let (expected_pool, _) = match derive_pool_pda(program_id, &slab.key) {
        Some(x) => x,
        None => return Err(ProcessError::InvalidSeeds),
    };
    if !key_eq(&pool_pda.key, &expected_pool) {
        return Err(stake(StakeError::InvalidPda));
    }
    Ok(cpi::cpi_update_admin(&percolator_program.key, &current_admin.key, &slab.key, &pool_pda.key))
}

/// The pool after its PDA became the market admin.
pub fn transfer_admin_apply(pool: &StakePool) -> (p: StakePool)
    ensures
        p == (StakePool { admin_transferred: 1, ..*pool }),
{
    let mut p = *pool;
    p.admin_transferred = 1;
    p
}

// ───────────────────────── admin calls to the market ─────────────────────────

/// The checks shared by the admin calls: Ok with the pool PDA bump when
/// `admin` signed, the pool is initialized, `admin` is its admin, its PDA is
/// already the market admin, `slab` and `percolator` are the pool's, and
/// `pool_pda` is the PDA derived from the slab.
pub open spec fn admin_cpi_verdict(
    program_id: Seq<u8>,
    pool_pda: AccountView,
    pool: StakePool,
    admin: AccountView,
    slab: Seq<u8>,
    percolator: Seq<u8>,
) -> Result<u8, ProcessError> {
    if !admin.is_signer {
        Err(ProcessError::MissingRequiredSignature)
    } else if pool.is_initialized != 1 {
        Err(ProcessError::Stake(StakeError::NotInitialized))
    } else if pool.admin@ != admin.key@ {
        Err(ProcessError::Stake(StakeError::Unauthorized))
    } else if pool.admin_transferred != 1 {
        Err(ProcessError::Stake(StakeError::AdminNotTransferred))
    } else if pool.slab@ != slab {
        Err(ProcessError::Stake(StakeError::InvalidPda))
    } else if pool.percolator_program@ != percolator {
        Err(ProcessError::Stake(StakeError::InvalidPercolatorProgram))
    } else {
        match program_address(pool_seeds(slab), program_id) {
            None => Err(ProcessError::InvalidSeeds),
            Some((addr, bump)) => if addr != pool_pda.key@ {
                Err(ProcessError::Stake(StakeError::InvalidPda))
            } else {
                Ok(bump)
            },
        }
    }
}

/// Validate an admin call and return the pool PDA bump for signing.
pub fn validate_admin_cpi(
    program_id: &[u8; 32],
    pool_pda: &AccountView,
    pool: &StakePool,
    admin: &AccountView,
    slab: &[u8; 32],
    percolator_program: &[u8; 32],
) -> (r: Result<u8, ProcessError>)
    ensures
        r == admin_cpi_verdict(program_id@, *pool_pda, *pool, *admin, slab@, percolator_program@),
{
    if !admin.is_signer {
        return Err(ProcessError::MissingRequiredSignature);
    }
    if pool.is_initialized != 1 {
        return Err(stake(StakeError::NotInitialized));
    }
    if !key_eq(&pool.admin, &admin.key) {
        return Err(stake(StakeError::Unauthorized));
    }
    if pool.admin_transferred != 1 {
        return Err(stake(StakeError::AdminNotTransferred));
    }
    if !key_eq(&pool.slab, slab) {
        return Err(stake(StakeError::InvalidPda));
    }
    if !key_eq(&pool.percolator_program, percolator_program) {
        return Err(stake(StakeError::InvalidPercolatorProgram));
    }
    let (expected_pool, bump) = match derive_pool_pda(program_id, slab) {
        Some(x) => x,
        None => return Err(ProcessError::InvalidSeeds),
    };
    if !key_eq(&pool_pda.key, &expected_pool) {
        return Err(stake(StakeError::InvalidPda));
    }
    Ok(bump)
}

/// The admin-call verdict for accounts `[admin, pool, slab, percolator]`.
pub open spec fn admin_call_verdict(program_id: Seq<u8>, a: Seq<AccountView>, pool: StakePool) -> Result<
    u8,
    ProcessError,
> {
    admin_cpi_verdict(program_id, a[1], pool, a[0], a[2].key@, a[3].key@)
}

/// Whether `c` is the admin call with `data` to the market for accounts
/// `[admin, pool, slab, percolator]`, signed by the pool PDA with `bump`.
pub open spec fn is_admin_call(c: CpiCall, a: Seq<AccountView>, bump: u8, data: Seq<u8>) -> bool {
    &&& instruction_is(c.instruction, a[3].key@, admin_metas(a[1].key, a[2].key), data)
    &&& call_is(
        c,
        meta_keys(admin_metas(a[1].key, a[2].key)),
        signer_seeds_of(pool_seed(), a[2].key@, bump),
    )
}

fn admin_seeds(slab: &[u8; 32], bump: u8) -> (s: Vec<Vec<u8>>)
    ensures
        bytes_list(s@) == signer_seeds_of(pool_seed(), slab@, bump),
{
    signer_seeds(pool_seed_bytes(), slab, bump)
}

/// AdminSetOracleAuthority: forward SetOracleAuthority, signed by the pool PDA.
pub fn admin_set_oracle_authority_plan(
    program_id: &[u8; 32],
    accounts: &[AccountView],
    pool: &StakePool,
    new_authority: &[u8; 32],
) -> (r: Result<CpiCall, ProcessError>)
    requires
        accounts@.len() >= 4,
    ensures
        r is Ok <==> admin_call_verdict(program_id@, accounts@, *pool) is Ok,
        r matches Err(e) ==> admin_call_verdict(program_id@, accounts@, *pool) == Err::<u8, ProcessError>(e),
        r matches Ok(c) ==> is_admin_call(
            c,
            accounts@,
            admin_call_verdict(program_id@, accounts@, *pool).unwrap(),
            seq![cpi::TAG_SET_ORACLE_AUTHORITY] + new_authority@,
        ),
{
    let bump = validate_admin_cpi(program_id, &accounts[1], pool, &accounts[0], &accounts[2].key, &accounts[3].key)?;
    let seeds = admin_seeds(&accounts[2].key, bump);
    Ok(cpi::cpi_set_oracle_authority(&accounts[3].key, &accounts[1].key, &accounts[2].key, new_authority, seeds))
}

/// AdminSetRiskThreshold: forward SetRiskThreshold, signed by the pool PDA.
pub fn admin_set_risk_threshold_plan(
    program_id: &[u8; 32],
    accounts: &[AccountView],
    pool: &StakePool,
    new_threshold: u128,
) -> (r: Result<CpiCall, ProcessError>)
    requires
        accounts@.len() >= 4,
    ensures
        r is Ok <==> admin_call_verdict(program_id@, accounts@, *pool) is Ok,
        r matches Err(e) ==> admin_call_verdict(program_id@, accounts@, *pool) == Err::<u8, ProcessError>(e),
        r matches Ok(c) ==> is_admin_call(
            c,
            accounts@,
            admin_call_verdict(program_id@, accounts@, *pool).unwrap(),
            seq![cpi::TAG_SET_RISK_THRESHOLD] + vstd::bytes::spec_u128_to_le_bytes(new_threshold),
        ),
{
    let bump = validate_admin_cpi(program_id, &accounts[1], pool, &accounts[0], &accounts[2].key, &accounts[3].key)?;
    let seeds = admin_seeds(&accounts[2].key, bump);
    Ok(cpi::cpi_set_risk_threshold(&accounts[3].key, &accounts[1].key, &accounts[2].key, new_threshold, seeds))
}

/// AdminSetMaintenanceFee: forward SetMaintenanceFee, signed by the pool PDA.
pub fn admin_set_maintenance_fee_plan(
    program_id: &[u8; 32],
    accounts: &[AccountView],
    pool: &StakePool,
    new_fee: u128,
) -> (r: Result<CpiCall, ProcessError>)
    requires
        accounts@.len() >= 4,
    ensures
        r is Ok <==> admin_call_verdict(program_id@, accounts@, *pool) is Ok,
        r matches Err(e) ==> admin_call_verdict(program_id@, accounts@, *pool) == Err::<u8, ProcessError>(e),
        r matches Ok(c) ==> is_admin_call(
            c,
            accounts@,
            admin_call_verdict(program_id@, accounts@, *pool).unwrap(),
            seq![cpi::TAG_SET_MAINTENANCE_FEE] + vstd::bytes::spec_u128_to_le_bytes(new_fee),
        ),
{
    let bump = validate_admin_cpi(program_id, &accounts[1], pool, &accounts[0], &accounts[2].key, &accounts[3].key)?;
    let seeds = admin_seeds(&accounts[2].key, bump);
    Ok(cpi::cpi_set_maintenance_fee(&accounts[3].key, &accounts[1].key, &accounts[2].key, new_fee, seeds))
}

/// AdminResolveMarket: forward ResolveMarket, signed by the pool PDA.
pub fn admin_resolve_market_plan(program_id: &[u8; 32], accounts: &[AccountView], pool: &StakePool) -> (r:
    Result<CpiCall, ProcessError>)
    requires
        accounts@.len() >= 4,
    ensures
        r is Ok <==> admin_call_verdict(program_id@, accounts@, *pool) is Ok,
        r matches Err(e) ==> admin_call_verdict(program_id@, accounts@, *pool) == Err::<u8, ProcessError>(e),
        r matches Ok(c) ==> is_admin_call(
            c,
            accounts@,
            admin_call_verdict(program_id@, accounts@, *pool).unwrap(),
            seq![cpi::TAG_RESOLVE_MARKET],
        ),
{
    let bump = validate_admin_cpi(program_id, &accounts[1], pool, &accounts[0], &accounts[2].key, &accounts[3].key)?;
    let seeds = admin_seeds(&accounts[2].key, bump);
    Ok(cpi::cpi_resolve_market(&accounts[3].key, &accounts[1].key, &accounts[2].key, seeds))
}

/// AdminSetInsurancePolicy: forward SetInsuranceWithdrawPolicy, signed by
/// the pool PDA.
pub fn admin_set_insurance_policy_plan(
    program_id: &[u8; 32],
    accounts: &[AccountView],
    pool: &StakePool,
    authority: &[u8; 32],
    min_withdraw_base: u64,
    max_withdraw_bps: u16,
    cooldown_slots: u64,
) -> (r: Result<CpiCall, ProcessError>)
    requires
        accounts@.len() >= 4,
    ensures
        r is Ok <==> admin_call_verdict(program_id@, accounts@, *pool) is Ok,
        r matches Err(e) ==> admin_call_verdict(program_id@, accounts@, *pool) == Err::<u8, ProcessError>(e),
        r matches Ok(c) ==> is_admin_call(
            c,
            accounts@,
            admin_call_verdict(program_id@, accounts@, *pool).unwrap(),
            seq![cpi::TAG_SET_INSURANCE_WITHDRAW_POLICY] + authority@ + spec_u64_to_le_bytes(
                min_withdraw_base,
            ) + vstd::bytes::spec_u16_to_le_bytes(max_withdraw_bps) + spec_u64_to_le_bytes(cooldown_slots),
        ),
{
    let bump = validate_admin_cpi(program_id, &accounts[1], pool, &accounts[0], &accounts[2].key, &accounts[3].key)?;
    let seeds = admin_seeds(&accounts[2].key, bump);
    Ok(
        cpi::cpi_set_insurance_withdraw_policy(
            &accounts[3].key,
            &accounts[1].key,
            &accounts[2].key,
            authority,
            min_withdraw_base,
            max_withdraw_bps,
            cooldown_slots,
            seeds,
        ),
    )
}

// ─────────────────────── AdminWithdrawInsurance ───────────────────────

/// The checks of AdminWithdrawInsurance (accounts: admin, pool, slab,
/// vault_auth, stake_vault, wrapper_vault, wrapper_vault_pda,
/// percolator_program, token_program, clock): the admin checks, then the
/// vault authority must be the PDA derived from the pool. Ok with its bump.
pub open spec fn withdraw_insurance_verdict(program_id: Seq<u8>, a: Seq<AccountView>, pool: StakePool) -> Result<
    u8,
    ProcessError,
> {
    match admin_cpi_verdict(program_id, a[1], pool, a[0], a[2].key@, a[7].key@) {
        Err(e) => Err(e),
        Ok(_) => match program_address(vault_auth_seeds(a[1].key@), program_id) {
            None => Err(ProcessError::InvalidSeeds),
            Some((auth, bump)) => if auth != a[3].key@ {
                Err(ProcessError::InvalidArgument)
            } else {
                Ok(bump)
            },
        },
    }
}

/// AdminWithdrawInsurance, after the account and signer checks: withdraw
/// `amount` of insurance from the resolved market into the stake vault
/// through WithdrawInsuranceLimited, signed by the vault authority PDA (the
/// insurance policy authority).
pub fn admin_withdraw_insurance_plan(
    program_id: &[u8; 32],
    accounts: &[AccountView],
    pool: &StakePool,
    amount: u64,
) -> (r: Result<CpiCall, ProcessError>)
    requires
        accounts@.len() >= 10,
    ensures
        r is Ok <==> withdraw_insurance_verdict(program_id@, accounts@, *pool) is Ok,
        r matches Err(e) ==> withdraw_insurance_verdict(program_id@, accounts@, *pool) == Err::<
            u8,
            ProcessError,
        >(e),
        r matches Ok(c) ==> {
            let a = accounts@;
            let bump = withdraw_insurance_verdict(program_id@, a, *pool).unwrap();
            let metas = seq![
                (a[3].key@, true, false),
                (a[2].key@, false, true),
                (a[4].key@, false, true),
                (a[5].key@, false, true),
                (a[8].key@, false, false),
                (a[6].key@, false, false),
                (a[9].key@, false, false),
            ];
            &&& instruction_is(
                c.instruction,
                a[7].key@,
                metas,
                seq![cpi::TAG_WITHDRAW_INSURANCE_LIMITED] + spec_u64_to_le_bytes(amount),
            )
            &&& call_is(c, meta_keys(metas), signer_seeds_of(vault_auth_seed(), a[1].key@, bump))
        },
{
    let admin = &accounts[0];
    let pool_pda = &accounts[1];
    let slab = &accounts[2];
    let vault_auth = &accounts[3];
    let stake_vault = &accounts[4];
    let wrapper_vault = &accounts[5];
    let wrapper_vault_pda = &accounts[6];
    let percolator_program = &accounts[7];
    let token_program = &accounts[8];
    let clock = &accounts[9];
    let _pool_bump = validate_admin_cpi(program_id, pool_pda, pool, admin, &slab.key, &percolator_program.key)?;
    let (expected_vault_auth, vault_auth_bump) = match derive_vault_authority(program_id, &pool_pda.key) {
        Some(x) => x,
        None => return Err(ProcessError::InvalidSeeds),
    };
    if !key_eq(&vault_auth.key, &expected_vault_auth) {
        return Err(ProcessError::InvalidArgument);
    }
    let seeds = signer_seeds(vault_auth_seed_bytes(), &pool_pda.key, vault_auth_bump);
    Ok(
        cpi::cpi_withdraw_insurance_limited(
            &percolator_program.key,
            &vault_auth.key,
            &slab.key,
            &stake_vault.key,
            &wrapper_vault.key,
            &token_program.key,
            &wrapper_vault_pda.key,
            &clock.key,
            amount,
            seeds,
        ),
    )
}

/// The pool after `amount` of insurance came back: `total_returned` grows
/// by it (`Overflow` when that does not fit).
pub open spec fn insurance_returned(pool: StakePool, amount: u64) -> Result<StakePool, ProcessError> {
    if pool.total_returned + amount > u64::MAX {
        Err(ProcessError::Stake(StakeError::Overflow))
    } else {
        Ok(StakePool { total_returned: (pool.total_returned + amount) as u64, ..pool })
    }
}

/// Record returned insurance in the pool accounting: it raises the value
/// LP holders can withdraw.
pub fn admin_withdraw_insurance_apply(pool: &StakePool, amount: u64) -> (r: Result<StakePool, ProcessError>)
    ensures
        r == insurance_returned(*pool, amount),
{
    let mut p = *pool;
    p.total_returned = match p.total_returned.checked_add(amount) {
        Some(v) => v,
        None => return Err(stake(StakeError::Overflow)),
    };
    Ok(p)
}

// ───────────────────────────── Deposit ─────────────────────────────

/// The checks of Deposit (accounts: user, pool, user_ata, vault, lp_mint,
/// user_lp_ata, vault_auth, deposit_pda, token_program, clock,
/// system_program): Ok with the LP to mint and the vault authority bump.
///
/// The deposit cap bounds the current pool value after the deposit (not the
/// lifetime deposits); LP is priced by [`deposit_pricing_value`].
pub open spec fn deposit_verdict(program_id: Seq<u8>, a: Seq<AccountView>, pool: StakePool, amount: u64) -> Result<
    (u64, u8),
    ProcessError,
> {
    let value = deposit_pricing_value(pool);
    if pool.is_initialized != 1 {
        Err(ProcessError::Stake(StakeError::NotInitialized))
    } else if pool.lp_mint@ != a[4].key@ {
        Err(ProcessError::Stake(StakeError::InvalidMint))
    } else if pool.vault@ != a[3].key@ {
        Err(ProcessError::Stake(StakeError::InvalidPda))
    } else if pool.deposit_cap > 0 && value + amount > u64::MAX {
        Err(ProcessError::Stake(StakeError::Overflow))
    } else if pool.deposit_cap > 0 && value + amount > pool.deposit_cap {
        Err(ProcessError::Stake(StakeError::DepositCapExceeded))
    } else if a[8].key@ != token_program_key() {
        Err(ProcessError::IncorrectProgramId)
    } else {
        match lp_for_deposit(pool.total_lp_supply as int, value, amount as int, u64::MAX as int) {
            None => Err(ProcessError::Stake(StakeError::Overflow)),
            Some(lp) => if lp == 0 {
                Err(ProcessError::Stake(StakeError::ZeroAmount))
            } else {
                match program_address(vault_auth_seeds(a[1].key@), program_id) {
                    None => Err(ProcessError::InvalidSeeds),
                    Some((_, bump)) => Ok((lp as u64, bump)),
                }
            },
        }
    }
}

/// What a successful Deposit check yields: the LP to mint and the two token
/// calls (collateral transfer from the user, LP mint to the user).
pub struct DepositPlan {
    pub lp_to_mint: u64,
    pub vault_auth_bump: u8,
    pub calls: Vec<CpiCall>,
}

/// Deposit, after the amount, account and signer checks: check the pool and
/// the cap, price the LP, and build the calls that move `amount` from the
/// user's token account into the vault (signed by the user) and mint the LP
/// to the user's LP account (signed by the vault authority PDA).
pub fn deposit_plan(program_id: &[u8; 32], accounts: &[AccountView], pool: &StakePool, amount: u64) -> (r:
    Result<DepositPlan, ProcessError>)
    requires
        accounts@.len() >= 11,
    ensures
        r is Ok <==> deposit_verdict(program_id@, accounts@, *pool, amount) is Ok,
        r matches Err(e) ==> deposit_verdict(program_id@, accounts@, *pool, amount) == Err::<
            (u64, u8),
            ProcessError,
        >(e),
        r matches Ok(plan) ==> {
            let a = accounts@;
            let transfer_metas = seq![
                (a[2].key@, false, true),
                (a[3].key@, false, true),
                (a[0].key@, true, false),
            ];
            let mint_metas = seq![
                (a[4].key@, false, true),
                (a[5].key@, false, true),
                (a[6].key@, true, false),
            ];
            &&& deposit_verdict(program_id@, a, *pool, amount) == Ok::<(u64, u8), ProcessError>(
                (plan.lp_to_mint, plan.vault_auth_bump),
            )
            &&& plan.calls@.len() == 2
            &&& instruction_is(
                plan.calls@[0].instruction,
                a[8].key@,
                transfer_metas,
                seq![3u8] + spec_u64_to_le_bytes(amount),
            )
            &&& call_is(plan.calls@[0], seq![a[2].key@, a[3].key@, a[0].key@, a[8].key@], Seq::empty())
            &&& instruction_is(
                plan.calls@[1].instruction,
                a[8].key@,
                mint_metas,
                seq![7u8] + spec_u64_to_le_bytes(plan.lp_to_mint),
            )
            &&& call_is(
                plan.calls@[1],
                seq![a[4].key@, a[5].key@, a[6].key@, a[8].key@],
                signer_seeds_of(vault_auth_seed(), a[1].key@, plan.vault_auth_bump),
            )
        },
{
    let user = &accounts[0];
    let pool_pda = &accounts[1];
    let user_ata = &accounts[2];
    let vault = &accounts[3];
    let lp_mint = &accounts[4];
    let user_lp_ata = &accounts[5];
    let vault_auth = &accounts[6];
    let token_program = &accounts[8];
    if pool.is_initialized != 1 {
        return Err(stake(StakeError::NotInitialized));
    }
    if !key_eq(&pool.lp_mint, &lp_mint.key) {
        return Err(stake(StakeError::InvalidMint));
    }
    if !key_eq(&pool.vault, &vault.key) {
        return Err(stake(StakeError::InvalidPda));
    }
    if pool.deposit_cap > 0 {
        let current_value = match pool.total_pool_value() {
            Some(v) => v,
            None => 0,
        };
        let new_value = match current_value.checked_add(amount) {
            Some(v) => v,
            None => return Err(stake(StakeError::Overflow)),
        };
        if new_value > pool.deposit_cap {
            return Err(stake(StakeError::DepositCapExceeded));
        }
    }
    verify_token_program(&token_program.key)?;
    let lp_to_mint = match pool.calc_lp_for_deposit(amount) {
        Some(lp) => lp,
        None => return Err(stake(StakeError::Overflow)),
    };
    if lp_to_mint == 0 {
        return Err(stake(StakeError::ZeroAmount));
    }
    let (_, vault_auth_bump) = match derive_vault_authority(program_id, &pool_pda.key) {
        Some(x) => x,
        None => return Err(ProcessError::InvalidSeeds),
    };
    let transfer = match sdk::token_transfer(&token_program.key, &user_ata.key, &vault.key, &user.key, amount) {
        Ok(ix) => ix,
        Err(e) => return Err(e),
    };
    let no_seeds: Vec<Vec<u8>> = Vec::new();
    let transfer_call = CpiCall {
        instruction: transfer,
        account_keys: vec![user_ata.key, vault.key, user.key, token_program.key],
        signer_seeds: no_seeds,
    };
    let mint = match sdk::token_mint_to(&token_program.key, &lp_mint.key, &user_lp_ata.key, &vault_auth.key, lp_to_mint) {
        Ok(ix) => ix,
        Err(e) => return Err(e),
    };
    let mint_call = CpiCall {
        instruction: mint,
        account_keys: vec![lp_mint.key, user_lp_ata.key, vault_auth.key, token_program.key],
        signer_seeds: signer_seeds(vault_auth_seed_bytes(), &pool_pda.key, vault_auth_bump),
    };
    proof {
        assert(bytes_list(transfer_call.signer_seeds@) =~= Seq::<Seq<u8>>::empty());
        assert(transfer_call.account_keys@.map_values(|k: [u8; 32]| k@) =~= seq![
            user_ata.key@,
            vault.key@,
            user.key@,
            token_program.key@,
        ]);
        assert(mint_call.account_keys@.map_values(|k: [u8; 32]| k@) =~= seq![
            lp_mint.key@,
            user_lp_ata.key@,
            vault_auth.key@,
            token_program.key@,
        ]);
    }
    let calls = vec![transfer_call, mint_call];
    Ok(DepositPlan { lp_to_mint, vault_auth_bump, calls })
}

/// The pool after a deposit of `amount` minting `lp`: deposits and LP
/// supply grow (`Overflow` when either does not fit).
pub open spec fn deposit_applied(pool: StakePool, amount: u64, lp: u64) -> Result<StakePool, ProcessError> {
    if pool.total_deposited + amount > u64::MAX {
        Err(ProcessError::Stake(StakeError::Overflow))
    } else if pool.total_lp_supply + lp > u64::MAX {
        Err(ProcessError::Stake(StakeError::Overflow))
    } else {
        Ok(
            StakePool {
                total_deposited: (pool.total_deposited + amount) as u64,
                total_lp_supply: (pool.total_lp_supply + lp) as u64,
                ..pool
            },
        )
    }
}

/// Record a completed deposit in the pool accounting.
pub fn deposit_apply(pool: &StakePool, amount: u64, lp: u64) -> (r: Result<StakePool, ProcessError>)
    ensures
        r == deposit_applied(*pool, amount, lp),
{
    let mut p = *pool;
    p.total_deposited = match p.total_deposited.checked_add(amount) {
        Some(v) => v,
        None => return Err(stake(StakeError::Overflow)),
    };
    p.total_lp_supply = match p.total_lp_supply.checked_add(lp) {
        Some(v) => v,
        None => return Err(stake(StakeError::Overflow)),
    };
    Ok(p)
}

/// The check of the deposit record address: Ok with its bump when
/// `deposit_pda` is the PDA of (pool, user).
pub open spec fn deposit_record_verdict(program_id: Seq<u8>, a: Seq<AccountView>) -> Result<u8, ProcessError> {
    match program_address(deposit_seeds(a[1].key@, a[0].key@), program_id) {
        None => Err(ProcessError::InvalidSeeds),
        Some((addr, bump)) => if addr != a[7].key@ {
            Err(ProcessError::Stake(StakeError::InvalidPda))
        } else {
            Ok(bump)
        },
    }
}

/// Check that the deposit record account is the user's deposit PDA.
pub fn deposit_record_address(program_id: &[u8; 32], accounts: &[AccountView]) -> (r: Result<u8, ProcessError>)
    requires
        accounts@.len() >= 11,
    ensures
        r == deposit_record_verdict(program_id@, accounts@),
{
    let (expected, bump) = match derive_deposit_pda(program_id, &accounts[1].key, &accounts[0].key) {
        Some(x) => x,
        None => return Err(ProcessError::InvalidSeeds),
    };
    if !key_eq(&accounts[7].key, &expected) {
        return Err(stake(StakeError::InvalidPda));
    }
    Ok(bump)
}

/// The call that creates the user's deposit record: `lamports` and
/// [`STAKE_DEPOSIT_SIZE`] bytes owned by this program, paid by the user and
/// signed by the record PDA.
pub fn create_deposit_record_call(program_id: &[u8; 32], accounts: &[AccountView], bump: u8, lamports: u64) -> (c:
    CpiCall)
    requires
        accounts@.len() >= 11,
    ensures
        ({
            let a = accounts@;
            &&& instruction_is(
                c.instruction,
                system_program_key(),
                seq![(a[0].key@, true, true), (a[7].key@, true, true)],
                seq![0u8, 0, 0, 0] + spec_u64_to_le_bytes(lamports) + spec_u64_to_le_bytes(
                    STAKE_DEPOSIT_SIZE as u64,
                ) + program_id@,
            )
            &&& call_is(
                c,
                seq![a[0].key@, a[7].key@, a[10].key@],
                seq![deposit_seed(), a[1].key@, a[0].key@, seq![bump]],
            )
        }),
{
    let user = &accounts[0];
    let pool_pda = &accounts[1];
    let deposit_pda = &accounts[7];
    let system_program = &accounts[10];
    let ix = sdk::system_create_account(&user.key, &deposit_pda.key, lamports, STAKE_DEPOSIT_SIZE as u64, program_id);
    let b = vec![bump];
    let seeds = vec![deposit_seed_bytes(), key_vec(&pool_pda.key), key_vec(&user.key), b];
    let c = CpiCall {
        instruction: ix,
        account_keys: vec![user.key, deposit_pda.key, system_program.key],
        signer_seeds: seeds,
    };
    proof {
        assert(c.signer_seeds@[3]@ =~= seq![bump]);
        assert(bytes_list(c.signer_seeds@) =~= seq![deposit_seed(), pool_pda.key@, user.key@, seq![bump]]);
        assert(c.account_keys@.map_values(|k: [u8; 32]| k@) =~= seq![
            user.key@,
            deposit_pda.key@,
            system_program.key@,
        ]);
    }
    c
}

/// The deposit record after a deposit minting `lp` at `slot`: marked
/// initialized with its bump, pool and user, the cooldown restarted at
/// `slot`, and the tracked LP grown by `lp` (`Overflow` when it does not
/// fit).
pub open spec fn record_after_deposit(
    record: StakeDeposit,
    bump: u8,
    pool: [u8; 32],
    user: [u8; 32],
    slot: u64,
    lp: u64,
) -> Result<StakeDeposit, ProcessError> {
    if record.lp_amount + lp > u64::MAX {
        Err(ProcessError::Stake(StakeError::Overflow))
    } else {
        Ok(
            StakeDeposit {
                is_initialized: 1,
                bump,
                pool,
                user,
                last_deposit_slot: slot,
                lp_amount: (record.lp_amount + lp) as u64,
                ..record
            },
        )
    }
}

/// Update the user's deposit record after a deposit (accounts as for
/// Deposit).
pub fn deposit_record_update(record: &StakeDeposit, bump: u8, accounts: &[AccountView], slot: u64, lp: u64) -> (r:
    Result<StakeDeposit, ProcessError>)
    requires
        accounts@.len() >= 11,
    ensures
        r == record_after_deposit(*record, bump, accounts@[1].key, accounts@[0].key, slot, lp),
{
    let mut d = *record;
    d.is_initialized = 1;
    d.bump = bump;
    d.pool = accounts[1].key;
    d.user = accounts[0].key;
    d.last_deposit_slot = slot;
    d.lp_amount = match d.lp_amount.checked_add(lp) {
        Some(v) => v,
        None => return Err(stake(StakeError::Overflow)),
    };
    Ok(d)
}

// ───────────────────────────── Withdraw ─────────────────────────────

/// The pool checks of Withdraw (accounts: user, pool, user_lp_ata, lp_mint,
/// vault, user_ata, vault_auth, deposit_pda, token_program, clock).
pub open spec fn withdraw_pool_verdict(a: Seq<AccountView>, pool: StakePool) -> Result<(), ProcessError> {
    if pool.is_initialized != 1 {
        Err(ProcessError::Stake(StakeError::NotInitialized))
    } else if pool.lp_mint@ != a[3].key@ {
        Err(ProcessError::Stake(StakeError::InvalidMint))
    } else if pool.vault@ != a[4].key@ {
        Err(ProcessError::Stake(StakeError::InvalidPda))
    } else if a[8].key@ != token_program_key() {
        Err(ProcessError::IncorrectProgramId)
    } else {
        Ok(())
    }
}

/// Withdraw, after the amount, account and signer checks: the pool must be
/// initialized and the LP mint, vault and token program the pool's.
pub fn withdraw_pool_checks(accounts: &[AccountView], pool: &StakePool) -> (r: Result<(), ProcessError>)
    requires
        accounts@.len() >= 10,
    ensures
        r == withdraw_pool_verdict(accounts@, *pool),
{
    if pool.is_initialized != 1 {
        return Err(stake(StakeError::NotInitialized));
    }
    if !key_eq(&pool.lp_mint, &accounts[3].key) {
        return Err(stake(StakeError::InvalidMint));
    }
    if !key_eq(&pool.vault, &accounts[4].key) {
        return Err(stake(StakeError::InvalidPda));
    }
    match verify_token_program(&accounts[8].key) {
        Ok(()) => Ok(()),
        Err(e) => Err(e),
    }
}

/// The first slot at which a deposit made at `last_deposit_slot` may be
/// withdrawn: `last_deposit_slot + cooldown`, saturating at `u64::MAX`.
pub open spec fn unlock_slot(last_deposit_slot: u64, cooldown: u64) -> int {
    if last_deposit_slot + cooldown > u64::MAX {
        u64::MAX as int
    } else {
        last_deposit_slot + cooldown
    }
}

/// The record and pricing checks of Withdraw at `slot`: Ok with the
/// collateral to pay and the vault authority bump.
pub open spec fn withdraw_verdict(
    program_id: Seq<u8>,
    a: Seq<AccountView>,
    pool: StakePool,
    record: StakeDeposit,
    slot: u64,
    lp_amount: u64,
) -> Result<(u64, u8), ProcessError> {
    if record.is_initialized != 1 || record.user@ != a[0].key@ || record.pool@ != a[1].key@ {
        Err(ProcessError::Stake(StakeError::Unauthorized))
    } else if slot < unlock_slot(record.last_deposit_slot, pool.cooldown_slots) {
        Err(ProcessError::Stake(StakeError::CooldownNotElapsed))
    } else if lp_amount > record.lp_amount {
        Err(ProcessError::Stake(StakeError::InsufficientLpTokens))
    } else {
        let payout = match pool_value_of(pool) {
            Some(v) => collateral_for_withdraw(pool.total_lp_supply as int, v, lp_amount as int, u64::MAX as int),
            None => None,
        };
        match payout {
            None => Err(ProcessError::Stake(StakeError::Overflow)),
            Some(c) => if c == 0 {
                Err(ProcessError::Stake(StakeError::ZeroAmount))
            } else {
                match program_address(vault_auth_seeds(a[1].key@), program_id) {
                    None => Err(ProcessError::InvalidSeeds),
                    Some((_, bump)) => Ok((c as u64, bump)),
                }
            },
        }
    }
}

/// What a successful Withdraw check yields: the collateral to pay and the
/// two token calls (LP burn from the user, collateral transfer to the user).
pub struct WithdrawPlan {
    pub collateral: u64,
    pub vault_auth_bump: u8,
    pub calls: Vec<CpiCall>,
}

/// Withdraw, once the clock slot is known: check the user's record and the
/// cooldown, price the burn, and build the calls that burn `lp_amount` from
/// the user's LP account (signed by the user) and move the collateral from
/// the vault to the user's token account (signed by the vault authority
/// PDA).
pub fn withdraw_plan(
    program_id: &[u8; 32],
    accounts: &[AccountView],
    pool: &StakePool,
    record: &StakeDeposit,
    slot: u64,
    lp_amount: u64,
) -> (r: Result<WithdrawPlan, ProcessError>)
    requires
        accounts@.len() >= 10,
        withdraw_pool_verdict(accounts@, *pool) is Ok,
    ensures
        r is Ok <==> withdraw_verdict(program_id@, accounts@, *pool, *record, slot, lp_amount) is Ok,
        r matches Err(e) ==> withdraw_verdict(program_id@, accounts@, *pool, *record, slot, lp_amount)
            == Err::<(u64, u8), ProcessError>(e),
        r matches Ok(plan) ==> {
            let a = accounts@;
            let burn_metas = seq![
                (a[2].key@, false, true),
                (a[3].key@, false, true),
                (a[0].key@, true, false),
            ];
            let transfer_metas = seq![
                (a[4].key@, false, true),
                (a[5].key@, false, true),
                (a[6].key@, true, false),
            ];
            &&& withdraw_verdict(program_id@, a, *pool, *record, slot, lp_amount) == Ok::<
                (u64, u8),
                ProcessError,
            >((plan.collateral, plan.vault_auth_bump))
            &&& plan.calls@.len() == 2
            &&& instruction_is(
                plan.calls@[0].instruction,
                a[8].key@,
                burn_metas,
                seq![8u8] + spec_u64_to_le_bytes(lp_amount),
            )
            &&& call_is(plan.calls@[0], seq![a[2].key@, a[3].key@, a[0].key@, a[8].key@], Seq::empty())
            &&& instruction_is(
                plan.calls@[1].instruction,
                a[8].key@,
                transfer_metas,
                seq![3u8] + spec_u64_to_le_bytes(plan.collateral),
            )
            &&& call_is(
                plan.calls@[1],
                seq![a[4].key@, a[5].key@, a[6].key@, a[8].key@],
                signer_seeds_of(vault_auth_seed(), a[1].key@, plan.vault_auth_bump),
            )
        },
{
    let user = &accounts[0];
    let pool_pda = &accounts[1];
    let user_lp_ata = &accounts[2];
    let lp_mint = &accounts[3];
    let vault = &accounts[4];
    let user_ata = &accounts[5];
    let vault_auth = &accounts[6];
    let token_program = &accounts[8];
    if record.is_initialized != 1 || !key_eq(&record.user, &user.key) || !key_eq(&record.pool, &pool_pda.key) {
        return Err(stake(StakeError::Unauthorized));
    }
    if slot < record.last_deposit_slot.saturating_add(pool.cooldown_slots) {
        return Err(stake(StakeError::CooldownNotElapsed));
    }
    if lp_amount > record.lp_amount {
        return Err(stake(StakeError::InsufficientLpTokens));
    }
    let collateral_amount = match pool.calc_collateral_for_withdraw(lp_amount) {
        Some(c) => c,
        None => return Err(stake(StakeError::Overflow)),
    };
    if collateral_amount == 0 {
        return Err(stake(StakeError::ZeroAmount));
    }
    let (_, vault_auth_bump) = match derive_vault_authority(program_id, &pool_pda.key) {
        Some(x) => x,
        None => return Err(ProcessError::InvalidSeeds),
    };
    let burn = match sdk::token_burn(&token_program.key, &user_lp_ata.key, &lp_mint.key, &user.key, lp_amount) {
        Ok(ix) => ix,
        Err(e) => return Err(e),
    };
    let no_seeds: Vec<Vec<u8>> = Vec::new();
    let burn_call = CpiCall {
        instruction: burn,
        account_keys: vec![user_lp_ata.key, lp_mint.key, user.key, token_program.key],
        signer_seeds: no_seeds,
    };
    let transfer = match sdk::token_transfer(&token_program.key, &vault.key, &user_ata.key, &vault_auth.key, collateral_amount) {
        Ok(ix) => ix,
        Err(e) => return Err(e),
    };
    let transfer_call = CpiCall {
        instruction: transfer,
        account_keys: vec![vault.key, user_ata.key, vault_auth.key, token_program.key],
        signer_seeds: signer_seeds(vault_auth_seed_bytes(), &pool_pda.key, vault_auth_bump),
    };
    proof {
        assert(bytes_list(burn_call.signer_seeds@) =~= Seq::<Seq<u8>>::empty());
        assert(burn_call.account_keys@.map_values(|k: [u8; 32]| k@) =~= seq![
            user_lp_ata.key@,
            lp_mint.key@,
            user.key@,
            token_program.key@,
        ]);
        assert(transfer_call.account_keys@.map_values(|k: [u8; 32]| k@) =~= seq![
            vault.key@,
            user_ata.key@,
            vault_auth.key@,
            token_program.key@,
        ]);
    }
    let calls = vec![burn_call, transfer_call];
    Ok(WithdrawPlan { collateral: collateral_amount, vault_auth_bump, calls })
}

/// The pool and record after a withdrawal burning `lp` for `collateral`:
/// withdrawals grow by the collateral and the LP supply and the user's
/// tracked LP shrink by `lp` (`Overflow`, `Overflow` and
/// `InsufficientLpTokens` when these do not fit).
pub open spec fn withdraw_applied(pool: StakePool, record: StakeDeposit, lp: u64, collateral: u64) -> Result<
    (StakePool, StakeDeposit),
    ProcessError,
> {
    if pool.total_withdrawn + collateral > u64::MAX {
        Err(ProcessError::Stake(StakeError::Overflow))
    } else if lp > pool.total_lp_supply {
        Err(ProcessError::Stake(StakeError::Overflow))
    } else if lp > record.lp_amount {
        Err(ProcessError::Stake(StakeError::InsufficientLpTokens))
    } else {
        Ok(
            (
                StakePool {
                    total_withdrawn: (pool.total_withdrawn + collateral) as u64,
                    total_lp_supply: (pool.total_lp_supply - lp) as u64,
                    ..pool
                },
                StakeDeposit { lp_amount: (record.lp_amount - lp) as u64, ..record },
            ),
        )
    }
}

/// Record a completed withdrawal in the pool and the user's record.
pub fn withdraw_apply(pool: &StakePool, record: &StakeDeposit, lp: u64, collateral: u64) -> (r: Result<
    (StakePool, StakeDeposit),
    ProcessError,
>)
    ensures
        r == withdraw_applied(*pool, *record, lp, collateral),
{
    let mut p = *pool;
    p.total_withdrawn = match p.total_withdrawn.checked_add(collateral) {
        Some(v) => v,
        None => return Err(stake(StakeError::Overflow)),
    };
    p.total_lp_supply = match p.total_lp_supply.checked_sub(lp) {
        Some(v) => v,
        None => return Err(stake(StakeError::Overflow)),
    };
    let mut d = *record;
    d.lp_amount = match d.lp_amount.checked_sub(lp) {
        Some(v) => v,
        None => return Err(stake(StakeError::InsufficientLpTokens)),
    };
    Ok((p, d))
}

// ───────────────────────────── InitPool ─────────────────────────────

/// The checks of InitPool (accounts: admin, slab, pool, lp_mint, vault,
/// vault_auth, collateral_mint, percolator_program, token_program,
/// system_program, rent sysvar): Ok with the pool and vault authority bumps.
pub open spec fn init_pool_verdict(program_id: Seq<u8>, a: Seq<AccountView>) -> Result<(u8, u8), ProcessError> {
    match program_address(pool_seeds(a[1].key@), program_id) {
        None => Err(ProcessError::InvalidSeeds),
        Some((pool, pool_bump)) => if pool != a[2].key@ {
            Err(ProcessError::Stake(StakeError::InvalidPda))
        } else if a[2].data_len != 0 {
            Err(ProcessError::Stake(StakeError::AlreadyInitialized))
        } else {
            match program_address(vault_auth_seeds(pool), program_id) {
                None => Err(ProcessError::InvalidSeeds),
                Some((auth, auth_bump)) => if auth != a[5].key@ {
                    Err(ProcessError::Stake(StakeError::InvalidPda))
                } else if a[8].key@ != token_program_key() {
                    Err(ProcessError::IncorrectProgramId)
                } else {
                    Ok((pool_bump, auth_bump))
                },
            }
        },
    }
}

/// The PDA bumps found by the InitPool checks.
#[derive(Debug, Clone, Copy)]
pub struct InitPoolPlan {
    pub pool_bump: u8,
    pub vault_auth_bump: u8,
}

/// InitPool, after the account and signer checks: the pool account must be
/// the slab's pool PDA and not yet exist, the vault authority must be the
/// pool's vault authority PDA, and the token program the real one.
pub fn init_pool_plan(program_id: &[u8; 32], accounts: &[AccountView]) -> (r: Result<InitPoolPlan, ProcessError>)
    requires
        accounts@.len() >= 11,
    ensures
        r is Ok <==> init_pool_verdict(program_id@, accounts@) is Ok,
        r matches Err(e) ==> init_pool_verdict(program_id@, accounts@) == Err::<(u8, u8), ProcessError>(e),
        r matches Ok(plan) ==> init_pool_verdict(program_id@, accounts@) == Ok::<(u8, u8), ProcessError>(
            (plan.pool_bump, plan.vault_auth_bump),
        ),
{
    let slab = &accounts[1];
    let pool_pda = &accounts[2];
    let vault_auth = &accounts[5];
    let token_program = &accounts[8];
    let (expected_pool, pool_bump) = match derive_pool_pda(program_id, &slab.key) {
        Some(x) => x,
        None => return Err(ProcessError::InvalidSeeds),
    };
    if !key_eq(&pool_pda.key, &expected_pool) {
        return Err(stake(StakeError::InvalidPda));
    }
    if pool_pda.data_len != 0 {
        return Err(stake(StakeError::AlreadyInitialized));
    }
    let (expected_vault_auth, vault_auth_bump) = match derive_vault_authority(program_id, &expected_pool) {
        Some(x) => x,
        None => return Err(ProcessError::InvalidSeeds),
    };
    if !key_eq(&vault_auth.key, &expected_vault_auth) {
        return Err(stake(StakeError::InvalidPda));
    }
    verify_token_program(&token_program.key)?;
    Ok(InitPoolPlan { pool_bump, vault_auth_bump })
}

/// The calls of InitPool, once the rent for the pool account is known:
/// create the pool account (paid by the admin, signed by the pool PDA),
/// initialize the LP mint with 6 decimals and the vault token account, both
/// under the vault authority PDA (signed by it).
pub fn init_pool_calls(program_id: &[u8; 32], accounts: &[AccountView], plan: &InitPoolPlan, pool_lamports: u64) -> (calls:
    Vec<CpiCall>)
    requires
        accounts@.len() >= 11,
        accounts@[8].key@ == token_program_key(),
    ensures
        ({
            let a = accounts@;
            let auth_seeds = signer_seeds_of(vault_auth_seed(), a[2].key@, plan.vault_auth_bump);
            &&& calls@.len() == 3
            &&& instruction_is(
                calls@[0].instruction,
                system_program_key(),
                seq![(a[0].key@, true, true), (a[2].key@, true, true)],
                seq![0u8, 0, 0, 0] + spec_u64_to_le_bytes(pool_lamports) + spec_u64_to_le_bytes(
                    STAKE_POOL_SIZE as u64,
                ) + program_id@,
            )
            &&& call_is(
                calls@[0],
                seq![a[0].key@, a[2].key@, a[9].key@],
                signer_seeds_of(pool_seed(), a[1].key@, plan.pool_bump),
            )
            &&& instruction_is(
                calls@[1].instruction,
                a[8].key@,
                seq![(a[3].key@, false, true), (rent_sysvar_key(), false, false)],
                seq![0u8, 6u8] + a[5].key@ + seq![1u8] + a[5].key@,
            )
            &&& call_is(calls@[1], seq![a[3].key@, a[10].key@], auth_seeds)
            &&& instruction_is(
                calls@[2].instruction,
                a[8].key@,
                seq![
                    (a[4].key@, false, true),
                    (a[6].key@, false, false),
                    (a[5].key@, false, false),
                    (rent_sysvar_key(), false, false),
                ],
                seq![1u8],
            )
            &&& call_is(calls@[2], seq![a[4].key@, a[6].key@, a[5].key@, a[10].key@], auth_seeds)
        }),
{
    let admin = &accounts[0];
    let slab = &accounts[1];
    let pool_pda = &accounts[2];
    let lp_mint = &accounts[3];
    let vault = &accounts[4];
    let vault_auth = &accounts[5];
    let collateral_mint = &accounts[6];
    let token_program = &accounts[8];
    let system_program = &accounts[9];
    let rent_sysvar = &accounts[10];
    let create = sdk::system_create_account(&admin.key, &pool_pda.key, pool_lamports, STAKE_POOL_SIZE as u64, program_id);
    let create_call = CpiCall {
        instruction: create,
        account_keys: vec![admin.key, pool_pda.key, system_program.key],
        signer_seeds: signer_seeds(pool_seed_bytes(), &slab.key, plan.pool_bump),
    };
    let mint_ix = match sdk::token_initialize_mint(&token_program.key, &lp_mint.key, &vault_auth.key, &vault_auth.key, 6) {
        Ok(ix) => ix,
        Err(_) => {
            assert(false);
            return Vec::new();
        },
    };
    let mint_call = CpiCall {
        instruction: mint_ix,
        account_keys: vec![lp_mint.key, rent_sysvar.key],
        signer_seeds: signer_seeds(vault_auth_seed_bytes(), &pool_pda.key, plan.vault_auth_bump),
    };
    let account_ix = match sdk::token_initialize_account(&token_program.key, &vault.key, &collateral_mint.key, &vault_auth.key) {
        Ok(ix) => ix,
        Err(_) => {
            assert(false);
            return Vec::new();
        },
    };
    let account_call = CpiCall {
        instruction: account_ix,
        account_keys: vec![vault.key, collateral_mint.key, vault_auth.key, rent_sysvar.key],
        signer_seeds: signer_seeds(vault_auth_seed_bytes(), &pool_pda.key, plan.vault_auth_bump),
    };
    proof {
        assert(create_call.account_keys@.map_values(|k: [u8; 32]| k@) =~= seq![
            admin.key@,
            pool_pda.key@,
            system_program.key@,
        ]);
        assert(mint_call.account_keys@.map_values(|k: [u8; 32]| k@) =~= seq![lp_mint.key@, rent_sysvar.key@]);
        assert(account_call.account_keys@.map_values(|k: [u8; 32]| k@) =~= seq![
            vault.key@,
            collateral_mint.key@,
            vault_auth.key@,
            rent_sysvar.key@,
        ]);
    }
    vec![create_call, mint_call, account_call]
}

/// The pool written by InitPool: initialized with its bumps, the admin
/// transfer still pending, the slab, admin, mints, vault and market program
/// of the accounts, zero totals and the given configuration; padding and
/// reserved bytes are kept as they are in the fresh account.
pub open spec fn initialized_pool(
    pool: StakePool,
    plan: InitPoolPlan,
    a: Seq<AccountView>,
    cooldown_slots: u64,
    deposit_cap: u64,
) -> StakePool {
    StakePool {
        is_initialized: 1,
        bump: plan.pool_bump,
        vault_authority_bump: plan.vault_auth_bump,
        admin_transferred: 0,
        slab: a[1].key,
        admin: a[0].key,
        collateral_mint: a[6].key,
        lp_mint: a[3].key,
        vault: a[4].key,
        total_deposited: 0,
        total_lp_supply: 0,
        cooldown_slots,
        deposit_cap,
        total_flushed: 0,
        total_returned: 0,
        total_withdrawn: 0,
        percolator_program: a[7].key,
        ..pool
    }
}

/// Write the new pool's state over the freshly created account.
pub fn init_pool_state(
    pool: &StakePool,
    plan: &InitPoolPlan,
    accounts: &[AccountView],
    cooldown_slots: u64,
    deposit_cap: u64,
) -> (p: StakePool)
    requires
        accounts@.len() >= 11,
    ensures
        p == initialized_pool(*pool, *plan, accounts@, cooldown_slots, deposit_cap),
{
    let mut p = *pool;
    p.is_initialized = 1;
    p.bump = plan.pool_bump;
    p.vault_authority_bump = plan.vault_auth_bump;
    p.admin_transferred = 0;
    p.slab = accounts[1].key;
    p.admin = accounts[0].key;
    p.collateral_mint = accounts[6].key;
    p.lp_mint = accounts[3].key;
    p.vault = accounts[4].key;
    p.total_deposited = 0;
    p.total_lp_supply = 0;
    p.cooldown_slots = cooldown_slots;
    p.deposit_cap = deposit_cap;
    p.total_flushed = 0;
    p.total_returned = 0;
    p.total_withdrawn = 0;
    p.percolator_program = accounts[7].key;
    p
}

// ───────────────────────── laws of the instructions ─────────────────────────

/// A successful deposit raises the pool value by exactly the amount
/// deposited and the LP supply by exactly the LP minted; with a nonzero cap
/// the pool value after the deposit is within the cap. (Balanced accounting
/// before the deposit, and no overflow of the value, assumed.)
pub proof fn lemma_deposit_accounting(
    program_id: Seq<u8>,
    a: Seq<AccountView>,
    pool: StakePool,
    amount: u64,
    value: int,
)
    requires
        deposit_verdict(program_id, a, pool, amount) is Ok,
        deposit_applied(pool, amount, deposit_verdict(program_id, a, pool, amount).unwrap().0) is Ok,
        pool_value_of(pool) == Some(value),
        value + amount <= u64::MAX,
    ensures
        ({
            let lp = deposit_verdict(program_id, a, pool, amount).unwrap().0;
            let after = deposit_applied(pool, amount, lp).unwrap();
            &&& pool_value_of(after) == Some(value + amount)
            &&& after.total_lp_supply == pool.total_lp_supply + lp
            &&& lp > 0
            &&& pool.deposit_cap > 0 ==> value + amount <= pool.deposit_cap
        }),
{
}

/// A successful withdrawal of at most the LP supply pays out at most the
/// pool value; when the payout also fits in what was neither withdrawn nor
/// flushed (always the case while nothing has come back from insurance),
/// the pool value falls by exactly the payout and the LP supply by exactly
/// the LP burned, and it happens no earlier than the unlock slot.
pub proof fn lemma_withdraw_accounting(
    program_id: Seq<u8>,
    a: Seq<AccountView>,
    pool: StakePool,
    record: StakeDeposit,
    slot: u64,
    lp_amount: u64,
    value: int,
)
    requires
        withdraw_verdict(program_id, a, pool, record, slot, lp_amount) is Ok,
        pool_value_of(pool) == Some(value),
        lp_amount <= pool.total_lp_supply,
    ensures
        ({
            let c = withdraw_verdict(program_id, a, pool, record, slot, lp_amount).unwrap().0;
            &&& 0 < c <= value
            &&& slot >= unlock_slot(record.last_deposit_slot, pool.cooldown_slots)
            &&& lp_amount <= record.lp_amount
            &&& c <= unflushed(pool).unwrap() ==> withdraw_applied(pool, record, lp_amount, c) is Ok
                && pool_value_of(withdraw_applied(pool, record, lp_amount, c).unwrap().0) == Some(
                value - c,
            ) && withdraw_applied(pool, record, lp_amount, c).unwrap().0.total_lp_supply
                == pool.total_lp_supply - lp_amount
        }),
{
    let c = withdraw_verdict(program_id, a, pool, record, slot, lp_amount).unwrap().0;
    assert(pool.total_lp_supply > 0);
    crate::math::lemma_burn_bounded_by_value(
        pool.total_lp_supply as int,
        value,
        lp_amount as int,
        u64::MAX as int,
    );
}

/// A flush moves no more than what was deposited and neither withdrawn nor
/// flushed, and lowers the pool value by exactly the amount flushed;
/// returning that amount from insurance afterwards restores the value.
pub proof fn lemma_flush_and_return_accounting(
    program_id: Seq<u8>,
    a: Seq<AccountView>,
    pool: StakePool,
    amount: u64,
    value: int,
)
    requires
        flush_verdict(program_id, a, pool, amount) is Ok,
        flush_applied(pool, amount) is Ok,
        pool_value_of(pool) == Some(value),
    ensures
        amount <= unflushed(pool).unwrap(),
        pool_value_of(flush_applied(pool, amount).unwrap()) == Some(value - amount),
        insurance_returned(flush_applied(pool, amount).unwrap(), amount) is Ok ==> pool_value_of(
            insurance_returned(flush_applied(pool, amount).unwrap(), amount).unwrap(),
        ) == Some(value),
{
}

/// Insurance coming back raises the pool value by exactly the amount
/// returned (when the sum fits).
pub proof fn lemma_return_raises_value(pool: StakePool, amount: u64, value: int)
    requires
        insurance_returned(pool, amount) is Ok,
        pool_value_of(pool) == Some(value),
        value + amount <= u64::MAX,
    ensures
        pool_value_of(insurance_returned(pool, amount).unwrap()) == Some(value + amount),
{
}

/// Only the pool admin can flush, change the configuration, transfer the
/// market admin, or make admin calls to the market; admin calls also need
/// the market admin to have been transferred to the pool PDA first.
pub proof fn lemma_admin_only(
    program_id: Seq<u8>,
    a: Seq<AccountView>,
    pool: StakePool,
    amount: u64,
    cooldown: Option<u64>,
    cap: Option<u64>,
)
    requires
        a.len() >= 8,
    ensures
        flush_verdict(program_id, a, pool, amount) is Ok ==> pool.admin@ == a[0].key@,
        update_config_outcome(a, pool, cooldown, cap) is Ok ==> pool.admin@ == a[0].key@,
        transfer_admin_verdict(program_id, a, pool) is Ok ==> pool.admin@ == a[0].key@,
        admin_call_verdict(program_id, a, pool) is Ok ==> pool.admin@ == a[0].key@
            && pool.admin_transferred == 1 && a[0].is_signer,
        withdraw_insurance_verdict(program_id, a, pool) is Ok ==> pool.admin@ == a[0].key@
            && pool.admin_transferred == 1,
{
}

/// TransferAdmin succeeds at most once: after it, the same accounts are
/// refused with `AdminAlreadyTransferred`.
pub proof fn lemma_transfer_admin_once(program_id: Seq<u8>, a: Seq<AccountView>, pool: StakePool)
    requires
        transfer_admin_verdict(program_id, a, pool) is Ok,
    ensures
        transfer_admin_verdict(program_id, a, StakePool { admin_transferred: 1, ..pool }) == Err::<
            (),
            ProcessError,
        >(ProcessError::Stake(StakeError::AdminAlreadyTransferred)),
{
}

/// A configuration update changes nothing but the cooldown and the cap.
pub proof fn lemma_update_config_scope(
    a: Seq<AccountView>,
    pool: StakePool,
    cooldown: Option<u64>,
    cap: Option<u64>,
)
    requires
        update_config_outcome(a, pool, cooldown, cap) is Ok,
    ensures
        ({
            let p = update_config_outcome(a, pool, cooldown, cap).unwrap();
            &&& p == StakePool { cooldown_slots: p.cooldown_slots, deposit_cap: p.deposit_cap, ..pool }
            &&& pool_value_of(p) == pool_value_of(pool)
        }),
{
}

// ─────────────────────── laws stated over the pool fields ───────────────────────

/// Deposits are priced at the pool value `deposited - withdrawn - flushed +
/// returned`: an accepted deposit mints `amount * supply / value` LP into a
/// pool with LP outstanding, and exactly `amount` into an empty pool. A pool
/// whose accounting does not balance counts as holding nothing, so it only
/// takes deposits while no LP is outstanding, at 1:1.
pub proof fn lemma_deposit_lp_formula(program_id: Seq<u8>, a: Seq<AccountView>, pool: StakePool, amount: u64)
    requires
        deposit_verdict(program_id, a, pool, amount) is Ok,
    ensures
        ({
            let lp = deposit_verdict(program_id, a, pool, amount).unwrap().0 as int;
            let d = pool.total_deposited as int;
            let w = pool.total_withdrawn as int;
            let f = pool.total_flushed as int;
            let r = pool.total_returned as int;
            let s = pool.total_lp_supply as int;
            &&& lp > 0
            &&& (w <= d && f <= d - w && d - w - f + r <= u64::MAX) ==> if s == 0 {
                d - w - f + r == 0 && lp == amount
            } else {
                d - w - f + r > 0 && lp == amount * s / (d - w - f + r)
            }
            &&& !(w <= d && f <= d - w && d - w - f + r <= u64::MAX) ==> s == 0 && lp == amount
        }),
{
}

/// Every deposit into an initialized pool, with the pool's mint, vault and
/// the token program, within the cap (or uncapped), that mints a positive
/// amount of LP at the pool value, is accepted.
pub proof fn lemma_deposit_accepted(program_id: Seq<u8>, a: Seq<AccountView>, pool: StakePool, amount: u64)
    requires
        pool.is_initialized == 1,
        pool.lp_mint@ == a[4].key@,
        pool.vault@ == a[3].key@,
        a[8].key@ == token_program_key(),
        pool.total_withdrawn <= pool.total_deposited,
        pool.total_flushed <= pool.total_deposited - pool.total_withdrawn,
        pool.total_deposited - pool.total_withdrawn - pool.total_flushed + pool.total_returned
            + amount <= u64::MAX,
        pool.deposit_cap == 0 || pool.total_deposited - pool.total_withdrawn - pool.total_flushed
            + pool.total_returned + amount <= pool.deposit_cap,
        ({
            let v = pool.total_deposited - pool.total_withdrawn - pool.total_flushed
                + pool.total_returned;
            let s = pool.total_lp_supply as int;
            (s == 0 && v == 0 && amount > 0) || (s > 0 && v > 0 && 0 < amount * s / v <= u64::MAX)
        }),
        program_address(vault_auth_seeds(a[1].key@), program_id) is Some,
    ensures
        deposit_verdict(program_id, a, pool, amount) is Ok,
{
}

/// With a nonzero cap, a deposit that would take the pool value above the
/// cap is refused with `DepositCapExceeded` (once the pool, mint and vault
/// checks pass).
pub proof fn lemma_deposit_cap_refuses(program_id: Seq<u8>, a: Seq<AccountView>, pool: StakePool, amount: u64)
    requires
        pool.is_initialized == 1,
        pool.lp_mint@ == a[4].key@,
        pool.vault@ == a[3].key@,
        pool.deposit_cap > 0,
        pool.total_withdrawn <= pool.total_deposited,
        pool.total_flushed <= pool.total_deposited - pool.total_withdrawn,
        pool.total_deposited - pool.total_withdrawn - pool.total_flushed + pool.total_returned
            + amount <= u64::MAX,
        pool.total_deposited - pool.total_withdrawn - pool.total_flushed + pool.total_returned
            + amount > pool.deposit_cap,
    ensures
        deposit_verdict(program_id, a, pool, amount) == Err::<(u64, u8), ProcessError>(
            ProcessError::Stake(StakeError::DepositCapExceeded),
        ),
{
}

/// An accepted withdrawal burns no more than the user's tracked LP, comes no
/// earlier than the deposit slot plus the cooldown (saturating), and pays
/// `lp_amount * value / supply` of the pool value
/// `deposited - withdrawn - flushed + returned`.
pub proof fn lemma_withdraw_payout_formula(
    program_id: Seq<u8>,
    a: Seq<AccountView>,
    pool: StakePool,
    record: StakeDeposit,
    slot: u64,
    lp_amount: u64,
)
    requires
        withdraw_verdict(program_id, a, pool, record, slot, lp_amount) is Ok,
    ensures
        ({
            let c = withdraw_verdict(program_id, a, pool, record, slot, lp_amount).unwrap().0 as int;
            let d = pool.total_deposited as int;
            let w = pool.total_withdrawn as int;
            let f = pool.total_flushed as int;
            let r = pool.total_returned as int;
            let s = pool.total_lp_supply as int;
            &&& record.is_initialized == 1
            &&& record.user@ == a[0].key@
            &&& record.pool@ == a[1].key@
            &&& lp_amount <= record.lp_amount
            &&& (record.last_deposit_slot + pool.cooldown_slots <= u64::MAX ==> slot
                >= record.last_deposit_slot + pool.cooldown_slots)
            &&& w <= d && f <= d - w && s > 0
            &&& c > 0
            &&& c == lp_amount * (d - w - f + r) / s
        }),
{
}

/// Once the user's record matches and the cooldown has elapsed, every burn
/// of at most the user's tracked LP (the whole position included) whose
/// pro-rata payout is positive is accepted and pays
/// `lp_amount * value / supply`.
pub proof fn lemma_withdraw_accepted(
    program_id: Seq<u8>,
    a: Seq<AccountView>,
    pool: StakePool,
    record: StakeDeposit,
    slot: u64,
    lp_amount: u64,
)
    requires
        record.is_initialized == 1,
        record.user@ == a[0].key@,
        record.pool@ == a[1].key@,
        record.last_deposit_slot + pool.cooldown_slots <= slot,
        lp_amount <= record.lp_amount,
        pool.total_withdrawn <= pool.total_deposited,
        pool.total_flushed <= pool.total_deposited - pool.total_withdrawn,
        pool.total_deposited - pool.total_withdrawn - pool.total_flushed + pool.total_returned
            <= u64::MAX,
        pool.total_lp_supply > 0,
        ({
            let v = pool.total_deposited - pool.total_withdrawn - pool.total_flushed
                + pool.total_returned;
            0 < lp_amount * v / (pool.total_lp_supply as int) <= u64::MAX
        }),
        program_address(vault_auth_seeds(a[1].key@), program_id) is Some,
    ensures
        withdraw_verdict(program_id, a, pool, record, slot, lp_amount) is Ok,
        withdraw_verdict(program_id, a, pool, record, slot, lp_amount).unwrap().0 == lp_amount * (
        pool.total_deposited - pool.total_withdrawn - pool.total_flushed + pool.total_returned)
            / (pool.total_lp_supply as int),
{
}

/// With a matching record, a withdrawal before the deposit slot plus the
/// cooldown is refused with `CooldownNotElapsed` (the unlock slot saturates
/// at `u64::MAX`, so the last slot is never refused for it), and after it a
/// burn of more than the tracked LP with `InsufficientLpTokens`.
pub proof fn lemma_withdraw_refusals(
    program_id: Seq<u8>,
    a: Seq<AccountView>,
    pool: StakePool,
    record: StakeDeposit,
    slot: u64,
    lp_amount: u64,
)
    requires
        record.is_initialized == 1,
        record.user@ == a[0].key@,
        record.pool@ == a[1].key@,
    ensures
        slot < record.last_deposit_slot + pool.cooldown_slots && slot < u64::MAX ==> withdraw_verdict(
            program_id,
            a,
            pool,
            record,
            slot,
            lp_amount,
        ) == Err::<(u64, u8), ProcessError>(ProcessError::Stake(StakeError::CooldownNotElapsed)),
        slot >= record.last_deposit_slot + pool.cooldown_slots && lp_amount > record.lp_amount
            ==> withdraw_verdict(program_id, a, pool, record, slot, lp_amount) == Err::<
            (u64, u8),
            ProcessError,
        >(ProcessError::Stake(StakeError::InsufficientLpTokens)),
{
}

/// The pool admin may flush any amount up to what was deposited and neither
/// withdrawn nor flushed (all of it included), and nothing more: above it the
/// flush is refused with `InsufficientFunds`.
pub proof fn lemma_flush_accepts_up_to_unflushed(
    program_id: Seq<u8>,
    a: Seq<AccountView>,
    pool: StakePool,
    amount: u64,
    bump: u8,
)
    requires
        pool.is_initialized == 1,
        pool.admin@ == a[0].key@,
        pool.slab@ == a[4].key@,
        pool.vault@ == a[2].key@,
        pool.percolator_program@ == a[6].key@,
        pool.total_withdrawn <= pool.total_deposited,
        pool.total_flushed <= pool.total_deposited - pool.total_withdrawn,
        program_address(vault_auth_seeds(a[1].key@), program_id) == Some((a[3].key@, bump)),
    ensures
        amount <= pool.total_deposited - pool.total_withdrawn - pool.total_flushed ==> flush_verdict(
            program_id,
            a,
            pool,
            amount,
        ) == Ok::<u8, ProcessError>(bump),
        amount > pool.total_deposited - pool.total_withdrawn - pool.total_flushed ==> flush_verdict(
            program_id,
            a,
            pool,
            amount,
        ) == Err::<u8, ProcessError>(ProcessError::InsufficientFunds),
{
}

/// The pool written by InitPool records the accounts it was set up with:
/// admin `a[0]`, slab `a[1]`, the LP mint it initializes `a[3]`, the vault
/// token account it initializes `a[4]`, the collateral mint `a[6]` and the
/// market program `a[7]`; it is initialized with the admin transfer pending,
/// the given cooldown and cap, and zero totals. So a later Deposit or
/// Withdraw naming that mint and vault passes the pool, mint and vault
/// checks, and the pool admin passes the admin check of UpdateConfig.
pub proof fn lemma_init_pool_records_accounts(
    fresh: StakePool,
    plan: InitPoolPlan,
    a: Seq<AccountView>,
    cooldown_slots: u64,
    deposit_cap: u64,
    program_id: Seq<u8>,
    b: Seq<AccountView>,
    amount: u64,
)
    requires
        b.len() >= 11,
        b[4].key@ == a[3].key@,
        b[3].key@ == a[4].key@,
        b[0].key@ == a[0].key@,
    ensures
        ({
            let p = initialized_pool(fresh, plan, a, cooldown_slots, deposit_cap);
            &&& p.is_initialized == 1
            &&& p.admin_transferred == 0
            &&& p.admin@ == a[0].key@
            &&& p.slab@ == a[1].key@
            &&& p.lp_mint@ == a[3].key@
            &&& p.vault@ == a[4].key@
            &&& p.collateral_mint@ == a[6].key@
            &&& p.percolator_program@ == a[7].key@
            &&& p.bump == plan.pool_bump
            &&& p.vault_authority_bump == plan.vault_auth_bump
            &&& p.cooldown_slots == cooldown_slots
            &&& p.deposit_cap == deposit_cap
            &&& p.total_lp_supply == 0
            &&& pool_value_of(p) == Some(0int)
            &&& deposit_verdict(program_id, b, p, amount) != Err::<(u64, u8), ProcessError>(
                ProcessError::Stake(StakeError::NotInitialized),
            )
            &&& deposit_verdict(program_id, b, p, amount) != Err::<(u64, u8), ProcessError>(
                ProcessError::Stake(StakeError::InvalidMint),
            )
            &&& deposit_verdict(program_id, b, p, amount) != Err::<(u64, u8), ProcessError>(
                ProcessError::Stake(StakeError::InvalidPda),
            )
            &&& seq![b[0], b[1], b[2], a[3], a[4], b[5], b[6], b[7], b[8], b[9]][8].key@
                == token_program_key() ==> withdraw_pool_verdict(
                seq![b[0], b[1], b[2], a[3], a[4], b[5], b[6], b[7], b[8], b[9]],
                p,
            ) is Ok
            &&& update_config_outcome(b, p, None, None) is Ok
        }),
{
}

/// UpdateConfig is accepted exactly for the pool admin of an initialized
/// pool; it sets the cooldown to the new cooldown and the cap to the new cap
/// where given, keeps each where not, and changes nothing else.
pub proof fn lemma_update_config_sets_fields(
    a: Seq<AccountView>,
    pool: StakePool,
    new_cooldown_slots: Option<u64>,
    new_deposit_cap: Option<u64>,
)
    ensures
        update_config_outcome(a, pool, new_cooldown_slots, new_deposit_cap) is Ok <==> pool.is_initialized
            == 1 && pool.admin@ == a[0].key@,
        update_config_outcome(a, pool, new_cooldown_slots, new_deposit_cap) is Ok ==> ({
            let p = update_config_outcome(a, pool, new_cooldown_slots, new_deposit_cap).unwrap();
            &&& new_cooldown_slots is Some ==> p.cooldown_slots == new_cooldown_slots.unwrap()
            &&& new_cooldown_slots is None ==> p.cooldown_slots == pool.cooldown_slots
            &&& new_deposit_cap is Some ==> p.deposit_cap == new_deposit_cap.unwrap()
            &&& new_deposit_cap is None ==> p.deposit_cap == pool.deposit_cap
            &&& p == StakePool { cooldown_slots: p.cooldown_slots, deposit_cap: p.deposit_cap, ..pool }
        }),
{
}

/// An accepted deposit went to an initialized pool with the pool's LP mint
/// and vault and the real token program, kept the pool value within a
/// nonzero cap, and signs the LP mint with the bump of the pool's vault
/// authority PDA.
pub proof fn lemma_deposit_checks(program_id: Seq<u8>, a: Seq<AccountView>, pool: StakePool, amount: u64)
    requires
        deposit_verdict(program_id, a, pool, amount) is Ok,
    ensures
        pool.is_initialized == 1,
        pool.lp_mint@ == a[4].key@,
        pool.vault@ == a[3].key@,
        a[8].key@ == token_program_key(),
        ({
            let d = pool.total_deposited as int;
            let w = pool.total_withdrawn as int;
            let f = pool.total_flushed as int;
            let r = pool.total_returned as int;
            let v = if w <= d && f <= d - w && d - w - f + r <= u64::MAX { d - w - f + r } else { 0 };
            pool.deposit_cap > 0 ==> v + amount <= pool.deposit_cap
        }),
        program_address(vault_auth_seeds(a[1].key@), program_id) is Some,
        program_address(vault_auth_seeds(a[1].key@), program_id).unwrap().1 == deposit_verdict(
            program_id,
            a,
            pool,
            amount,
        ).unwrap().1,
{
}

/// Withdraw's pool checks pass exactly for an initialized pool with the
/// pool's LP mint and vault and the real token program.
pub proof fn lemma_withdraw_pool_checks(a: Seq<AccountView>, pool: StakePool)
    ensures
        withdraw_pool_verdict(a, pool) is Ok <==> pool.is_initialized == 1 && pool.lp_mint@ == a[3].key@
            && pool.vault@ == a[4].key@ && a[8].key@ == token_program_key(),
{
}

/// An accepted flush comes from the pool admin of an initialized pool, names
/// the pool's slab, vault and market program and the pool's vault authority
/// PDA (whose bump it signs with), and moves at most the unflushed amount.
pub proof fn lemma_flush_checks(program_id: Seq<u8>, a: Seq<AccountView>, pool: StakePool, amount: u64)
    requires
        flush_verdict(program_id, a, pool, amount) is Ok,
    ensures
        pool.is_initialized == 1,
        pool.admin@ == a[0].key@,
        pool.slab@ == a[4].key@,
        pool.vault@ == a[2].key@,
        pool.percolator_program@ == a[6].key@,
        pool.total_withdrawn <= pool.total_deposited,
        pool.total_flushed <= pool.total_deposited - pool.total_withdrawn,
        amount <= pool.total_deposited - pool.total_withdrawn - pool.total_flushed,
        program_address(vault_auth_seeds(a[1].key@), program_id) == Some(
            (a[3].key@, flush_verdict(program_id, a, pool, amount).unwrap()),
        ),
{
}

/// The admin checks: a call passes exactly when the admin signed, is the
/// admin of the initialized pool, the market admin was already transferred
/// to the pool PDA, the slab and market program are the pool's, and the
/// pool account is the slab's pool PDA; the bump returned is that PDA's.
pub proof fn lemma_admin_call_checks(
    program_id: Seq<u8>,
    pool_pda: AccountView,
    pool: StakePool,
    admin: AccountView,
    slab: Seq<u8>,
    percolator: Seq<u8>,
    bump: u8,
)
    ensures
        admin_cpi_verdict(program_id, pool_pda, pool, admin, slab, percolator) == Ok::<u8, ProcessError>(
            bump,
        ) <==> admin.is_signer && pool.is_initialized == 1 && pool.admin@ == admin.key@
            && pool.admin_transferred == 1 && pool.slab@ == slab && pool.percolator_program@
            == percolator && program_address(pool_seeds(slab), program_id) == Some((pool_pda.key@, bump)),
{
}

/// TransferAdmin passes exactly for the admin of an initialized pool whose
/// market admin was not transferred yet, naming the pool's slab and market
/// program and the slab's pool PDA.
pub proof fn lemma_transfer_admin_checks(program_id: Seq<u8>, a: Seq<AccountView>, pool: StakePool)
    ensures
        transfer_admin_verdict(program_id, a, pool) is Ok <==> pool.is_initialized == 1 && pool.admin@
            == a[0].key@ && pool.admin_transferred != 1 && pool.slab@ == a[2].key@
            && pool.percolator_program@ == a[3].key@ && program_address(pool_seeds(a[2].key@), program_id)
            is Some && program_address(pool_seeds(a[2].key@), program_id).unwrap().0 == a[1].key@,
{
}

/// AdminWithdrawInsurance passes exactly when the admin checks pass for
/// `[admin, pool, slab, .., percolator]` and the vault authority account is
/// the pool's vault authority PDA; it signs with that PDA's bump. A wrong
/// vault authority, after the admin checks, is refused with
/// `InvalidArgument`.
pub proof fn lemma_withdraw_insurance_checks(program_id: Seq<u8>, a: Seq<AccountView>, pool: StakePool, bump: u8)
    ensures
        withdraw_insurance_verdict(program_id, a, pool) == Ok::<u8, ProcessError>(bump) <==> (
        admin_cpi_verdict(program_id, a[1], pool, a[0], a[2].key@, a[7].key@) is Ok && program_address(
            vault_auth_seeds(a[1].key@),
            program_id,
        ) == Some((a[3].key@, bump))),
        admin_cpi_verdict(program_id, a[1], pool, a[0], a[2].key@, a[7].key@) is Ok && program_address(
            vault_auth_seeds(a[1].key@),
            program_id,
        ) is Some && program_address(vault_auth_seeds(a[1].key@), program_id).unwrap().0 != a[3].key@
            ==> withdraw_insurance_verdict(program_id, a, pool) == Err::<u8, ProcessError>(
            ProcessError::InvalidArgument,
        ),
{
}

/// InitPool passes exactly when the pool account is the slab's pool PDA and
/// holds no data yet, the vault authority account is that pool's vault
/// authority PDA, and the token program is the real one; the bumps returned
/// are those of the two PDAs.
pub proof fn lemma_init_pool_checks(program_id: Seq<u8>, a: Seq<AccountView>, pool_bump: u8, auth_bump: u8)
    ensures
        init_pool_verdict(program_id, a) == Ok::<(u8, u8), ProcessError>((pool_bump, auth_bump)) <==> (
        program_address(pool_seeds(a[1].key@), program_id) == Some((a[2].key@, pool_bump))
            && a[2].data_len == 0 && program_address(vault_auth_seeds(a[2].key@), program_id) == Some(
            (a[5].key@, auth_bump),
        ) && a[8].key@ == token_program_key()),
{
}

/// The deposit record check passes exactly when the record account is the
/// (pool, user) deposit PDA, and returns its bump.
pub proof fn lemma_deposit_record_address(program_id: Seq<u8>, a: Seq<AccountView>, bump: u8)
    ensures
        deposit_record_verdict(program_id, a) == Ok::<u8, ProcessError>(bump) <==> program_address(
            deposit_seeds(a[1].key@, a[0].key@),
            program_id,
        ) == Some((a[7].key@, bump)),
{
}

/// After a deposit the user's record is initialized for this pool and user
/// with the record's bump, the cooldown restarts at the deposit slot, the
/// tracked LP grows by exactly the LP minted, and nothing else changes. So
/// the same user can, once the cooldown has passed, burn up to the whole
/// tracked LP without being refused for the record, the cooldown or the
/// amount.
pub proof fn lemma_deposit_record_then_withdraw(
    record: StakeDeposit,
    bump: u8,
    a: Seq<AccountView>,
    slot: u64,
    lp: u64,
    program_id: Seq<u8>,
    wa: Seq<AccountView>,
    pool: StakePool,
    wslot: u64,
    lp_amount: u64,
)
    requires
        a.len() >= 11,
        record.lp_amount + lp <= u64::MAX,
    ensures
        record_after_deposit(record, bump, a[1].key, a[0].key, slot, lp) is Ok,
        ({
            let r = record_after_deposit(record, bump, a[1].key, a[0].key, slot, lp).unwrap();
            &&& r.is_initialized == 1
            &&& r.bump == bump
            &&& r.pool@ == a[1].key@
            &&& r.user@ == a[0].key@
            &&& r.last_deposit_slot == slot
            &&& r.lp_amount == record.lp_amount + lp
            &&& r._padding == record._padding
            &&& r._reserved == record._reserved
            &&& (wa[0].key@ == a[0].key@ && wa[1].key@ == a[1].key@ && wslot >= slot
                + pool.cooldown_slots && lp_amount <= record.lp_amount + lp) ==> {
                let v = withdraw_verdict(program_id, wa, pool, r, wslot, lp_amount);
                &&& v != Err::<(u64, u8), ProcessError>(ProcessError::Stake(StakeError::Unauthorized))
                &&& v != Err::<(u64, u8), ProcessError>(
                    ProcessError::Stake(StakeError::CooldownNotElapsed),
                )
                &&& v != Err::<(u64, u8), ProcessError>(
                    ProcessError::Stake(StakeError::InsufficientLpTokens),
                )
            }
        }),
{
}

/// Recording a deposit adds the amount to the deposits and the LP minted to
/// the supply and changes nothing else; it fails only when either sum
/// overflows.
pub proof fn lemma_deposit_apply_frame(pool: StakePool, amount: u64, lp: u64)
    ensures
        deposit_applied(pool, amount, lp) is Ok <==> pool.total_deposited + amount <= u64::MAX
            && pool.total_lp_supply + lp <= u64::MAX,
        deposit_applied(pool, amount, lp) is Ok ==> ({
            let p = deposit_applied(pool, amount, lp).unwrap();
            &&& p.total_deposited == pool.total_deposited + amount
            &&& p.total_lp_supply == pool.total_lp_supply + lp
            &&& p == StakePool { total_deposited: p.total_deposited, total_lp_supply: p.total_lp_supply, ..pool }
        }),
{
}

/// Recording a withdrawal adds the collateral to the withdrawals and takes
/// the LP burned off the supply and off the user's record, changing nothing
/// else; it fails only when the withdrawals overflow or the LP exceeds the
/// supply or the record.
pub proof fn lemma_withdraw_apply_frame(pool: StakePool, record: StakeDeposit, lp: u64, collateral: u64)
    ensures
        withdraw_applied(pool, record, lp, collateral) is Ok <==> pool.total_withdrawn + collateral
            <= u64::MAX && lp <= pool.total_lp_supply && lp <= record.lp_amount,
        withdraw_applied(pool, record, lp, collateral) is Ok ==> ({
            let (p, d) = withdraw_applied(pool, record, lp, collateral).unwrap();
            &&& p.total_withdrawn == pool.total_withdrawn + collateral
            &&& p.total_lp_supply == pool.total_lp_supply - lp
            &&& p == StakePool { total_withdrawn: p.total_withdrawn, total_lp_supply: p.total_lp_supply, ..pool }
            &&& d.lp_amount == record.lp_amount - lp
            &&& d == StakeDeposit { lp_amount: d.lp_amount, ..record }
        }),
{
}

/// Recording a flush adds the amount to the flushed total and recording
/// returned insurance adds it to the returned total; neither changes
/// anything else, and each fails only when its sum overflows.
pub proof fn lemma_flush_and_return_apply_frame(pool: StakePool, amount: u64)
    ensures
        flush_applied(pool, amount) is Ok <==> pool.total_flushed + amount <= u64::MAX,
        flush_applied(pool, amount) is Ok ==> flush_applied(pool, amount).unwrap() == (StakePool {
            total_flushed: (pool.total_flushed + amount) as u64,
            ..pool
        }),
        flush_applied(pool, amount) is Ok ==> flush_applied(pool, amount).unwrap().total_flushed
            == pool.total_flushed + amount,
        insurance_returned(pool, amount) is Ok <==> pool.total_returned + amount <= u64::MAX,
        insurance_returned(pool, amount) is Ok ==> insurance_returned(pool, amount).unwrap() == (StakePool {
            total_returned: (pool.total_returned + amount) as u64,
            ..pool
        }),
        insurance_returned(pool, amount) is Ok ==> insurance_returned(pool, amount).unwrap().total_returned
            == pool.total_returned + amount,
{
}

/// Which error refuses a deposit, in the order the checks run: an
/// uninitialized pool, a wrong LP mint, a wrong vault, a pool value plus
/// deposit that does not fit or exceeds a nonzero cap, a wrong token
/// program, and a pool holding value without LP (or LP without value).
pub proof fn lemma_deposit_refusals(program_id: Seq<u8>, a: Seq<AccountView>, pool: StakePool, amount: u64)
    ensures
        ({
            let d = pool.total_deposited as int;
            let w = pool.total_withdrawn as int;
            let f = pool.total_flushed as int;
            let r = pool.total_returned as int;
            let s = pool.total_lp_supply as int;
            let v = if w <= d && f <= d - w && d - w - f + r <= u64::MAX { d - w - f + r } else { 0 };
            let verdict = deposit_verdict(program_id, a, pool, amount);
            let ok_pool = pool.is_initialized == 1 && pool.lp_mint@ == a[4].key@ && pool.vault@
                == a[3].key@;
            let ok_cap = pool.deposit_cap == 0 || v + amount <= pool.deposit_cap;
            &&& pool.is_initialized != 1 ==> verdict == Err::<(u64, u8), ProcessError>(
                ProcessError::Stake(StakeError::NotInitialized),
            )
            &&& pool.is_initialized == 1 && pool.lp_mint@ != a[4].key@ ==> verdict == Err::<
                (u64, u8),
                ProcessError,
            >(ProcessError::Stake(StakeError::InvalidMint))
            &&& pool.is_initialized == 1 && pool.lp_mint@ == a[4].key@ && pool.vault@ != a[3].key@
                ==> verdict == Err::<(u64, u8), ProcessError>(ProcessError::Stake(StakeError::InvalidPda))
            &&& ok_pool && pool.deposit_cap > 0 && v + amount > u64::MAX ==> verdict == Err::<
                (u64, u8),
                ProcessError,
            >(ProcessError::Stake(StakeError::Overflow))
            &&& ok_pool && ok_cap && a[8].key@ != token_program_key() ==> verdict == Err::<
                (u64, u8),
                ProcessError,
            >(ProcessError::IncorrectProgramId)
            &&& ok_pool && ok_cap && a[8].key@ == token_program_key() && ((s == 0 && v > 0) || (s > 0
                && v == 0)) ==> verdict == Err::<(u64, u8), ProcessError>(
                ProcessError::Stake(StakeError::Overflow),
            )
        }),
{
}

/// Which error refuses a withdrawal beyond the cooldown and amount checks:
/// a record of another user or pool (or none) with `Unauthorized`, a pool
/// without LP with `Overflow`, and a burn worth nothing with `ZeroAmount`.
pub proof fn lemma_withdraw_more_refusals(
    program_id: Seq<u8>,
    a: Seq<AccountView>,
    pool: StakePool,
    record: StakeDeposit,
    slot: u64,
    lp_amount: u64,
)
    ensures
        ({
            let verdict = withdraw_verdict(program_id, a, pool, record, slot, lp_amount);
            let d = pool.total_deposited as int;
            let w = pool.total_withdrawn as int;
            let f = pool.total_flushed as int;
            let r = pool.total_returned as int;
            let s = pool.total_lp_supply as int;
            let ok_record = record.is_initialized == 1 && record.user@ == a[0].key@ && record.pool@
                == a[1].key@;
            let ok_time = slot >= record.last_deposit_slot + pool.cooldown_slots && lp_amount
                <= record.lp_amount;
            &&& !ok_record ==> verdict == Err::<(u64, u8), ProcessError>(
                ProcessError::Stake(StakeError::Unauthorized),
            )
            &&& ok_record && ok_time && s == 0 ==> verdict == Err::<(u64, u8), ProcessError>(
                ProcessError::Stake(StakeError::Overflow),
            )
            &&& ok_record && ok_time && s > 0 && w <= d && f <= d - w && d - w - f + r <= u64::MAX
                && lp_amount * (d - w - f + r) / s == 0 ==> verdict == Err::<(u64, u8), ProcessError>(
                ProcessError::Stake(StakeError::ZeroAmount),
            )
        }),
{
}

/// Which error refuses a flush, in the order the checks run: an
/// uninitialized pool, a caller who is not the pool admin, a wrong slab or
/// vault, a wrong market program, and a wrong vault authority.
pub proof fn lemma_flush_refusals(program_id: Seq<u8>, a: Seq<AccountView>, pool: StakePool, amount: u64)
    ensures
        ({
            let verdict = flush_verdict(program_id, a, pool, amount);
            &&& pool.is_initialized != 1 ==> verdict == Err::<u8, ProcessError>(
                ProcessError::Stake(StakeError::NotInitialized),
            )
            &&& pool.is_initialized == 1 && pool.admin@ != a[0].key@ ==> verdict == Err::<u8, ProcessError>(
                ProcessError::Stake(StakeError::Unauthorized),
            )
            &&& pool.is_initialized == 1 && pool.admin@ == a[0].key@ && (pool.slab@ != a[4].key@
                || pool.vault@ != a[2].key@) ==> verdict == Err::<u8, ProcessError>(
                ProcessError::Stake(StakeError::InvalidPda),
            )
            &&& pool.is_initialized == 1 && pool.admin@ == a[0].key@ && pool.slab@ == a[4].key@
                && pool.vault@ == a[2].key@ && pool.percolator_program@ != a[6].key@ ==> verdict
                == Err::<u8, ProcessError>(ProcessError::Stake(StakeError::InvalidPercolatorProgram))
            &&& pool.is_initialized == 1 && pool.admin@ == a[0].key@ && pool.slab@ == a[4].key@
                && pool.vault@ == a[2].key@ && pool.percolator_program@ == a[6].key@
                && pool.total_withdrawn <= pool.total_deposited && pool.total_flushed
                <= pool.total_deposited - pool.total_withdrawn && amount <= pool.total_deposited
                - pool.total_withdrawn - pool.total_flushed && program_address(
                vault_auth_seeds(a[1].key@),
                program_id,
            ) is Some && program_address(vault_auth_seeds(a[1].key@), program_id).unwrap().0
                != a[3].key@ ==> verdict == Err::<u8, ProcessError>(
                ProcessError::Stake(StakeError::InvalidPda),
            )
        }),
{
}

/// Which error refuses an admin call, in the order the checks run: no
/// signature, an uninitialized pool, a caller who is not the pool admin, a
/// market admin not yet transferred, a wrong slab, a wrong market program.
pub proof fn lemma_admin_call_refusals(
    program_id: Seq<u8>,
    pool_pda: AccountView,
    pool: StakePool,
    admin: AccountView,
    slab: Seq<u8>,
    percolator: Seq<u8>,
)
    ensures
        ({
            let verdict = admin_cpi_verdict(program_id, pool_pda, pool, admin, slab, percolator);
            &&& !admin.is_signer ==> verdict == Err::<u8, ProcessError>(ProcessError::MissingRequiredSignature)
            &&& admin.is_signer && pool.is_initialized != 1 ==> verdict == Err::<u8, ProcessError>(
                ProcessError::Stake(StakeError::NotInitialized),
            )
            &&& admin.is_signer && pool.is_initialized == 1 && pool.admin@ != admin.key@ ==> verdict
                == Err::<u8, ProcessError>(ProcessError::Stake(StakeError::Unauthorized))
            &&& admin.is_signer && pool.is_initialized == 1 && pool.admin@ == admin.key@
                && pool.admin_transferred != 1 ==> verdict == Err::<u8, ProcessError>(
                ProcessError::Stake(StakeError::AdminNotTransferred),
            )
            &&& admin.is_signer && pool.is_initialized == 1 && pool.admin@ == admin.key@
                && pool.admin_transferred == 1 && pool.slab@ != slab ==> verdict == Err::<u8, ProcessError>(
                ProcessError::Stake(StakeError::InvalidPda),
            )
            &&& admin.is_signer && pool.is_initialized == 1 && pool.admin@ == admin.key@
                && pool.admin_transferred == 1 && pool.slab@ == slab && pool.percolator_program@
                != percolator ==> verdict == Err::<u8, ProcessError>(
                ProcessError::Stake(StakeError::InvalidPercolatorProgram),
            )
        }),
{
}

/// Which error refuses TransferAdmin, in the order the checks run: an
/// uninitialized pool, a caller who is not the pool admin, a market admin
/// already transferred, a wrong slab, a wrong market program.
pub proof fn lemma_transfer_admin_refusals(program_id: Seq<u8>, a: Seq<AccountView>, pool: StakePool)
    ensures
        ({
            let verdict = transfer_admin_verdict(program_id, a, pool);
            &&& pool.is_initialized != 1 ==> verdict == Err::<(), ProcessError>(
                ProcessError::Stake(StakeError::NotInitialized),
            )
            &&& pool.is_initialized == 1 && pool.admin@ != a[0].key@ ==> verdict == Err::<(), ProcessError>(
                ProcessError::Stake(StakeError::Unauthorized),
            )
            &&& pool.is_initialized == 1 && pool.admin@ == a[0].key@ && pool.admin_transferred == 1
                ==> verdict == Err::<(), ProcessError>(
                ProcessError::Stake(StakeError::AdminAlreadyTransferred),
            )
            &&& pool.is_initialized == 1 && pool.admin@ == a[0].key@ && pool.admin_transferred != 1
                && pool.slab@ != a[2].key@ ==> verdict == Err::<(), ProcessError>(
                ProcessError::Stake(StakeError::InvalidPda),
            )
            &&& pool.is_initialized == 1 && pool.admin@ == a[0].key@ && pool.admin_transferred != 1
                && pool.slab@ == a[2].key@ && pool.percolator_program@ != a[3].key@ ==> verdict
                == Err::<(), ProcessError>(ProcessError::Stake(StakeError::InvalidPercolatorProgram))
        }),
{
}

/// Which error refuses InitPool, in the order the checks run: a pool
/// account that is not the slab's pool PDA, a pool account that already
/// holds data, a vault authority that is not the pool's vault authority
/// PDA, a wrong token program.
pub proof fn lemma_init_pool_refusals(program_id: Seq<u8>, a: Seq<AccountView>)
    ensures
        ({
            let verdict = init_pool_verdict(program_id, a);
            let pool_ok = program_address(pool_seeds(a[1].key@), program_id) is Some
                && program_address(pool_seeds(a[1].key@), program_id).unwrap().0 == a[2].key@;
            let auth = program_address(vault_auth_seeds(a[2].key@), program_id);
            &&& program_address(pool_seeds(a[1].key@), program_id) is Some && !pool_ok ==> verdict
                == Err::<(u8, u8), ProcessError>(ProcessError::Stake(StakeError::InvalidPda))
            &&& pool_ok && a[2].data_len != 0 ==> verdict == Err::<(u8, u8), ProcessError>(
                ProcessError::Stake(StakeError::AlreadyInitialized),
            )
            &&& pool_ok && a[2].data_len == 0 && auth is Some && auth.unwrap().0 != a[5].key@ ==> verdict
                == Err::<(u8, u8), ProcessError>(ProcessError::Stake(StakeError::InvalidPda))
            &&& pool_ok && a[2].data_len == 0 && auth is Some && auth.unwrap().0 == a[5].key@
                && a[8].key@ != token_program_key() ==> verdict == Err::<(u8, u8), ProcessError>(
                ProcessError::IncorrectProgramId,
            )
        }),
{
}

} // verus!
