//! Cross-program calls into the percolator market (wrapper) program.
//!
//! A call is described as plain data: the instruction (program id, account
//! metas, data bytes), the accounts to hand to the runtime, and the PDA
//! seeds to sign with (none for an unsigned call). Instruction tags follow
//! the market program's instruction decoder.
use vstd::prelude::*;
use vstd::bytes::{spec_u64_to_le_bytes, spec_u128_to_le_bytes, spec_u16_to_le_bytes, u64_to_le_bytes, u128_to_le_bytes, u16_to_le_bytes};

verus! {

/// One account of an instruction: its key and whether it signs and is
/// written.
#[derive(Debug, Clone, Copy, PartialEq, Eq)]
pub struct AccountRef {
    pub key: [u8; 32],
    pub is_signer: bool,
    pub is_writable: bool,
}

/// An instruction for another program.
#[derive(Debug, Clone)]
pub struct CpiInstruction {
    pub program_id: [u8; 32],
    pub accounts: Vec<AccountRef>,
    pub data: Vec<u8>,
}

/// A cross-program call: the instruction, the keys of the accounts handed
/// to the runtime with it, and the seeds of the PDA that signs (empty when
/// no PDA signs).
#[derive(Debug, Clone)]
pub struct CpiCall {
    pub instruction: CpiInstruction,
    pub account_keys: Vec<[u8; 32]>,
    pub signer_seeds: Vec<Vec<u8>>,
}

/// A list of byte strings as plain values.
pub open spec fn bytes_list(s: Seq<Vec<u8>>) -> Seq<Seq<u8>> {
    s.map_values(|v: Vec<u8>| v@)
}

/// An account meta as plain values.
pub open spec fn meta_view(m: AccountRef) -> (Seq<u8>, bool, bool) {
    (m.key@, m.is_signer, m.is_writable)
}

/// Whether `ix` is the instruction for `program_id` with these account
/// metas and data.
pub open spec fn instruction_is(
    ix: CpiInstruction,
    program_id: Seq<u8>,
    metas: Seq<(Seq<u8>, bool, bool)>,
    data: Seq<u8>,
) -> bool {
    &&& ix.program_id@ == program_id
    &&& ix.accounts@.map_values(|m: AccountRef| meta_view(m)) == metas
    &&& ix.data@ == data
}

/// Whether `c` hands these accounts to the runtime and signs with these
/// seeds.
pub open spec fn call_is(c: CpiCall, keys: Seq<Seq<u8>>, seeds: Seq<Seq<u8>>) -> bool {
    &&& c.account_keys@.map_values(|k: [u8; 32]| k@) == keys
    &&& bytes_list(c.signer_seeds@) == seeds
}

/// Market instruction tags.
pub const TAG_TOP_UP_INSURANCE: u8 = 9;
pub const TAG_SET_RISK_THRESHOLD: u8 = 11;
pub const TAG_UPDATE_ADMIN: u8 = 12;
pub const TAG_SET_MAINTENANCE_FEE: u8 = 15;
pub const TAG_SET_ORACLE_AUTHORITY: u8 = 16;
pub const TAG_SET_ORACLE_PRICE_CAP: u8 = 18;
pub const TAG_RESOLVE_MARKET: u8 = 19;
pub const TAG_WITHDRAW_INSURANCE: u8 = 20;
// Tag 21 is AdminForceCloseAccount, which the stake program never calls.
pub const TAG_SET_INSURANCE_WITHDRAW_POLICY: u8 = 22;
pub const TAG_WITHDRAW_INSURANCE_LIMITED: u8 = 23;

/// Copy `src` to the end of `out`.
pub fn append(out: &mut Vec<u8>, src: &[u8])
    ensures
        final(out)@ == old(out)@ + src@,
{
    let mut i: usize = 0;
    while i < src.len()
        invariant
            i <= src@.len(),
            out@ == old(out)@ + src@.subrange(0, i as int),
        decreases src@.len() - i,
    {
        out.push(src[i]);
        i = i + 1;
        assert(out@ =~= old(out)@ + src@.subrange(0, i as int));
    }
    assert(src@.subrange(0, src@.len() as int) =~= src@);
}

/// An account meta.
pub fn meta(key: &[u8; 32], is_signer: bool, is_writable: bool) -> (m: AccountRef)
    ensures
        meta_view(m) == (key@, is_signer, is_writable),
{
    AccountRef { key: *key, is_signer, is_writable }
}

/// Build the call for an instruction whose accounts are handed to the
/// runtime in meta order.
fn call_in_meta_order(
    program_id: &[u8; 32],
    accounts: Vec<AccountRef>,
    data: Vec<u8>,
    signer_seeds: Vec<Vec<u8>>,
) -> (c: CpiCall)
    ensures
        c.instruction.program_id == *program_id,
        c.instruction.accounts@ == accounts@,
        c.instruction.data@ == data@,
        c.account_keys@.map_values(|k: [u8; 32]| k@) == accounts@.map_values(
            |m: AccountRef| m.key@,
        ),
        bytes_list(c.signer_seeds@) == bytes_list(signer_seeds@),
{
    let mut keys: Vec<[u8; 32]> = Vec::new();
    let mut i: usize = 0;
    while i < accounts.len()
        invariant
            i <= accounts@.len(),
            keys@.len() == i,
            forall|j: int| 0 <= j < i ==> keys@[j] == accounts@[j].key,
        decreases accounts@.len() - i,
    {
        keys.push(accounts[i].key);
        i = i + 1;
    }
    let c = CpiCall {
        instruction: CpiInstruction { program_id: *program_id, accounts, data },
        account_keys: keys,
        signer_seeds,
    };
    assert(c.account_keys@.map_values(|k: [u8; 32]| k@) =~= c.instruction.accounts@.map_values(
        |m: AccountRef| m.key@,
    ));
    c
}

/// The metas `[admin (signer), slab (writable)]` of the admin-only market
/// instructions.
pub open spec fn admin_metas(admin: [u8; 32], slab: [u8; 32]) -> Seq<(Seq<u8>, bool, bool)> {
    seq![(admin@, true, false), (slab@, false, true)]
}

/// Keys of a meta list.
pub open spec fn meta_keys(metas: Seq<(Seq<u8>, bool, bool)>) -> Seq<Seq<u8>> {
    metas.map_values(|m: (Seq<u8>, bool, bool)| m.0)
}

/// A call with the two admin metas, handed over in meta order.
fn admin_call(
    program_id: &[u8; 32],
    admin: &[u8; 32],
    slab: &[u8; 32],
    data: Vec<u8>,
    signer_seeds: Vec<Vec<u8>>,
) -> (c: CpiCall)
    ensures
        instruction_is(c.instruction, program_id@, admin_metas(*admin, *slab), data@),
        call_is(c, meta_keys(admin_metas(*admin, *slab)), bytes_list(signer_seeds@)),
{
    let accounts = vec![meta(admin, true, false), meta(slab, false, true)];
    let c = call_in_meta_order(program_id, accounts, data, signer_seeds);
    assert(c.instruction.accounts@.map_values(|m: AccountRef| meta_view(m)) =~= admin_metas(
        *admin,
        *slab,
    ));
    assert(c.instruction.accounts@.map_values(|m: AccountRef| m.key@) =~= meta_keys(
        admin_metas(*admin, *slab),
    ));
    c
}

/// TopUpInsurance (tag 9), permissionless: moves `amount` from
/// `signer_ata` into the market's insurance fund. Accounts
/// `[signer (signer), slab (w), signer_ata (w), vault (w), token_program]`.
pub fn cpi_top_up_insurance(
    percolator_program: &[u8; 32],
    signer: &[u8; 32],
    slab: &[u8; 32],
    signer_ata: &[u8; 32],
    wrapper_vault: &[u8; 32],
    token_program: &[u8; 32],
    amount: u64,
    signer_seeds: Vec<Vec<u8>>,
) -> (c: CpiCall)
    ensures
        ({
            let metas = seq![
                (signer@, true, false),
                (slab@, false, true),
                (signer_ata@, false, true),
                (wrapper_vault@, false, true),
                (token_program@, false, false),
            ];
            &&& instruction_is(
                c.instruction,
                percolator_program@,
                metas,
                seq![TAG_TOP_UP_INSURANCE] + spec_u64_to_le_bytes(amount),
            )
            &&& call_is(c, meta_keys(metas), bytes_list(signer_seeds@))
        }),
{
    let mut data: Vec<u8> = vec![TAG_TOP_UP_INSURANCE];
    let le = u64_to_le_bytes(amount);
    append(&mut data, le.as_slice());
    let accounts = vec![
        meta(signer, true, false),
        meta(slab, false, true),
        meta(signer_ata, false, true),
        meta(wrapper_vault, false, true),
        meta(token_program, false, false),
    ];
    let c = call_in_meta_order(percolator_program, accounts, data, signer_seeds);
    let ghost metas = seq![
        (signer@, true, false),
        (slab@, false, true),
        (signer_ata@, false, true),
        (wrapper_vault@, false, true),
        (token_program@, false, false),
    ];
    assert(c.instruction.accounts@.map_values(|m: AccountRef| meta_view(m)) =~= metas);
    assert(c.instruction.accounts@.map_values(|m: AccountRef| m.key@) =~= meta_keys(metas));
    assert(c.instruction.data@ =~= seq![TAG_TOP_UP_INSURANCE] + spec_u64_to_le_bytes(amount));
    c
}

/// UpdateAdmin (tag 12): the current admin (a human, signing the outer
/// transaction) hands the market admin to `new_admin`. Unsigned by any PDA.
pub fn cpi_update_admin(
    percolator_program: &[u8; 32],
    current_admin: &[u8; 32],
    slab: &[u8; 32],
    new_admin: &[u8; 32],
) -> (c: CpiCall)
    ensures
        instruction_is(
            c.instruction,
            percolator_program@,
            admin_metas(*current_admin, *slab),
            seq![TAG_UPDATE_ADMIN] + new_admin@,
        ),
        call_is(c, meta_keys(admin_metas(*current_admin, *slab)), Seq::empty()),
{
    let mut data: Vec<u8> = vec![TAG_UPDATE_ADMIN];
    append(&mut data, new_admin.as_slice());
    let seeds: Vec<Vec<u8>> = Vec::new();
    assert(bytes_list(seeds@) =~= Seq::<Seq<u8>>::empty());
    assert(data@ =~= seq![TAG_UPDATE_ADMIN] + new_admin@);
    admin_call(percolator_program, current_admin, slab, data, seeds)
}

/// SetOracleAuthority (tag 16), admin only.
pub fn cpi_set_oracle_authority(
    percolator_program: &[u8; 32],
    admin_pda: &[u8; 32],
    slab: &[u8; 32],
    new_authority: &[u8; 32],
    admin_seeds: Vec<Vec<u8>>,
) -> (c: CpiCall)
    ensures
        instruction_is(
            c.instruction,
            percolator_program@,
            admin_metas(*admin_pda, *slab),
            seq![TAG_SET_ORACLE_AUTHORITY] + new_authority@,
        ),
        call_is(c, meta_keys(admin_metas(*admin_pda, *slab)), bytes_list(admin_seeds@)),
{
    let mut data: Vec<u8> = vec![TAG_SET_ORACLE_AUTHORITY];
    append(&mut data, new_authority.as_slice());
    assert(data@ =~= seq![TAG_SET_ORACLE_AUTHORITY] + new_authority@);
    admin_call(percolator_program, admin_pda, slab, data, admin_seeds)
}

/// SetRiskThreshold (tag 11), admin only.
pub fn cpi_set_risk_threshold(
    percolator_program: &[u8; 32],
    admin_pda: &[u8; 32],
    slab: &[u8; 32],
    new_threshold: u128,
    admin_seeds: Vec<Vec<u8>>,
) -> (c: CpiCall)
    ensures
        instruction_is(
            c.instruction,
            percolator_program@,
            admin_metas(*admin_pda, *slab),
            seq![TAG_SET_RISK_THRESHOLD] + spec_u128_to_le_bytes(new_threshold),
        ),
        call_is(c, meta_keys(admin_metas(*admin_pda, *slab)), bytes_list(admin_seeds@)),
{
    let mut data: Vec<u8> = vec![TAG_SET_RISK_THRESHOLD];
    let le = u128_to_le_bytes(new_threshold);
    append(&mut data, le.as_slice());
    assert(data@ =~= seq![TAG_SET_RISK_THRESHOLD] + spec_u128_to_le_bytes(new_threshold));
    admin_call(percolator_program, admin_pda, slab, data, admin_seeds)
}

/// SetMaintenanceFee (tag 15), admin only.
pub fn cpi_set_maintenance_fee(
    percolator_program: &[u8; 32],
    admin_pda: &[u8; 32],
    slab: &[u8; 32],
    new_fee: u128,
    admin_seeds: Vec<Vec<u8>>,
) -> (c: CpiCall)
    ensures
        instruction_is(
            c.instruction,
            percolator_program@,
            admin_metas(*admin_pda, *slab),
            seq![TAG_SET_MAINTENANCE_FEE] + spec_u128_to_le_bytes(new_fee),
        ),
        call_is(c, meta_keys(admin_metas(*admin_pda, *slab)), bytes_list(admin_seeds@)),
{
    let mut data: Vec<u8> = vec![TAG_SET_MAINTENANCE_FEE];
    let le = u128_to_le_bytes(new_fee);
    append(&mut data, le.as_slice());
    assert(data@ =~= seq![TAG_SET_MAINTENANCE_FEE] + spec_u128_to_le_bytes(new_fee));
    admin_call(percolator_program, admin_pda, slab, data, admin_seeds)
}

/// SetOraclePriceCap (tag 18), admin only.
pub fn cpi_set_oracle_price_cap(
    percolator_program: &[u8; 32],
    admin_pda: &[u8; 32],
    slab: &[u8; 32],
    max_change_e2bps: u64,
    admin_seeds: Vec<Vec<u8>>,
) -> (c: CpiCall)
    ensures
        instruction_is(
            c.instruction,
            percolator_program@,
            admin_metas(*admin_pda, *slab),
            seq![TAG_SET_ORACLE_PRICE_CAP] + spec_u64_to_le_bytes(max_change_e2bps),
        ),
        call_is(c, meta_keys(admin_metas(*admin_pda, *slab)), bytes_list(admin_seeds@)),
{
    let mut data: Vec<u8> = vec![TAG_SET_ORACLE_PRICE_CAP];
    let le = u64_to_le_bytes(max_change_e2bps);
    append(&mut data, le.as_slice());
    assert(data@ =~= seq![TAG_SET_ORACLE_PRICE_CAP] + spec_u64_to_le_bytes(max_change_e2bps));
    admin_call(percolator_program, admin_pda, slab, data, admin_seeds)
}

/// ResolveMarket (tag 19), admin only: ends the market.
pub fn cpi_resolve_market(
    percolator_program: &[u8; 32],
    admin_pda: &[u8; 32],
    slab: &[u8; 32],
    admin_seeds: Vec<Vec<u8>>,
) -> (c: CpiCall)
    ensures
        instruction_is(
            c.instruction,
            percolator_program@,
            admin_metas(*admin_pda, *slab),
            seq![TAG_RESOLVE_MARKET],
        ),
        call_is(c, meta_keys(admin_metas(*admin_pda, *slab)), bytes_list(admin_seeds@)),
{
    let data: Vec<u8> = vec![TAG_RESOLVE_MARKET];
    assert(data@ =~= seq![TAG_RESOLVE_MARKET]);
    admin_call(percolator_program, admin_pda, slab, data, admin_seeds)
}

/// WithdrawInsurance (tag 20), admin only, requires a resolved market.
/// Accounts `[admin (signer), slab (w), admin_ata (w), vault (w),
/// token_program, vault_authority]`.
pub fn cpi_withdraw_insurance(
    percolator_program: &[u8; 32],
    admin_pda: &[u8; 32],
    slab: &[u8; 32],
    admin_ata: &[u8; 32],
    wrapper_vault: &[u8; 32],
    token_program: &[u8; 32],
    vault_authority: &[u8; 32],
    admin_seeds: Vec<Vec<u8>>,
) -> (c: CpiCall)
    ensures
        ({
            let metas = seq![
                (admin_pda@, true, false),
                (slab@, false, true),
                (admin_ata@, false, true),
                (wrapper_vault@, false, true),
                (token_program@, false, false),
                (vault_authority@, false, false),
            ];
            &&& instruction_is(c.instruction, percolator_program@, metas, seq![TAG_WITHDRAW_INSURANCE])
            &&& call_is(c, meta_keys(metas), bytes_list(admin_seeds@))
        }),
{
    let data: Vec<u8> = vec![TAG_WITHDRAW_INSURANCE];
    assert(data@ =~= seq![TAG_WITHDRAW_INSURANCE]);
    let accounts = vec![
        meta(admin_pda, true, false),
        meta(slab, false, true),
        meta(admin_ata, false, true),
        meta(wrapper_vault, false, true),
        meta(token_program, false, false),
        meta(vault_authority, false, false),
    ];
    let c = call_in_meta_order(percolator_program, accounts, data, admin_seeds);
    let ghost metas = seq![
        (admin_pda@, true, false),
        (slab@, false, true),
        (admin_ata@, false, true),
        (wrapper_vault@, false, true),
        (token_program@, false, false),
        (vault_authority@, false, false),
    ];
    assert(c.instruction.accounts@.map_values(|m: AccountRef| meta_view(m)) =~= metas);
    assert(c.instruction.accounts@.map_values(|m: AccountRef| m.key@) =~= meta_keys(metas));
    c
}

/// SetInsuranceWithdrawPolicy (tag 22), admin only. Data: tag, authority
/// (32), min_withdraw_base (8), max_withdraw_bps (2), cooldown_slots (8).
pub fn cpi_set_insurance_withdraw_policy(
    percolator_program: &[u8; 32],
    admin_pda: &[u8; 32],
    slab: &[u8; 32],
    authority: &[u8; 32],
    min_withdraw_base: u64,
    max_withdraw_bps: u16,
    cooldown_slots: u64,
    admin_seeds: Vec<Vec<u8>>,
) -> (c: CpiCall)
    ensures
        instruction_is(
            c.instruction,
            percolator_program@,
            admin_metas(*admin_pda, *slab),
            seq![TAG_SET_INSURANCE_WITHDRAW_POLICY] + authority@ + spec_u64_to_le_bytes(
                min_withdraw_base,
            ) + spec_u16_to_le_bytes(max_withdraw_bps) + spec_u64_to_le_bytes(cooldown_slots),
        ),
        call_is(c, meta_keys(admin_metas(*admin_pda, *slab)), bytes_list(admin_seeds@)),
{
    let mut data: Vec<u8> = vec![TAG_SET_INSURANCE_WITHDRAW_POLICY];
    append(&mut data, authority.as_slice());
    let a = u64_to_le_bytes(min_withdraw_base);
    append(&mut data, a.as_slice());
    let b = u16_to_le_bytes(max_withdraw_bps);
    append(&mut data, b.as_slice());
    let c = u64_to_le_bytes(cooldown_slots);
    append(&mut data, c.as_slice());
    assert(data@ =~= seq![TAG_SET_INSURANCE_WITHDRAW_POLICY] + authority@ + spec_u64_to_le_bytes(
        min_withdraw_base,
    ) + spec_u16_to_le_bytes(max_withdraw_bps) + spec_u64_to_le_bytes(cooldown_slots));
    admin_call(percolator_program, admin_pda, slab, data, admin_seeds)
}

/// WithdrawInsuranceLimited (tag 23), by the insurance policy authority,
/// requires a resolved market. Accounts `[authority (signer), slab (w),
/// authority_ata (w), vault (w), token_program, vault_pda, clock]`; the
/// stake vault (owned by the vault authority PDA) is the authority's token
/// account.
pub fn cpi_withdraw_insurance_limited(
    percolator_program: &[u8; 32],
    vault_auth: &[u8; 32],
    slab: &[u8; 32],
    stake_vault: &[u8; 32],
    wrapper_vault: &[u8; 32],
    token_program: &[u8; 32],
    wrapper_vault_pda: &[u8; 32],
    clock: &[u8; 32],
    amount: u64,
    vault_auth_seeds: Vec<Vec<u8>>,
) -> (c: CpiCall)
    ensures
        ({
            let metas = seq![
                (vault_auth@, true, false),
                (slab@, false, true),
                (stake_vault@, false, true),
                (wrapper_vault@, false, true),
                (token_program@, false, false),
                (wrapper_vault_pda@, false, false),
                (clock@, false, false),
            ];
            &&& instruction_is(
                c.instruction,
                percolator_program@,
                metas,
                seq![TAG_WITHDRAW_INSURANCE_LIMITED] + spec_u64_to_le_bytes(amount),
            )
            &&& call_is(c, meta_keys(metas), bytes_list(vault_auth_seeds@))
        }),
{
    let mut data: Vec<u8> = vec![TAG_WITHDRAW_INSURANCE_LIMITED];
    let le = u64_to_le_bytes(amount);
    append(&mut data, le.as_slice());
    assert(data@ =~= seq![TAG_WITHDRAW_INSURANCE_LIMITED] + spec_u64_to_le_bytes(amount));
    let accounts = vec![
        meta(vault_auth, true, false),
        meta(slab, false, true),
        meta(stake_vault, false, true),
        meta(wrapper_vault, false, true),
        meta(token_program, false, false),
        meta(wrapper_vault_pda, false, false),
        meta(clock, false, false),
    ];
    let c = call_in_meta_order(percolator_program, accounts, data, vault_auth_seeds);
    let ghost metas = seq![
        (vault_auth@, true, false),
        (slab@, false, true),
        (stake_vault@, false, true),
        (wrapper_vault@, false, true),
        (token_program@, false, false),
        (wrapper_vault_pda@, false, false),
        (clock@, false, false),
    ];
    assert(c.instruction.accounts@.map_values(|m: AccountRef| meta_view(m)) =~= metas);
    assert(c.instruction.accounts@.map_values(|m: AccountRef| m.key@) =~= meta_keys(metas));
    c
}

/// The admin-only market instructions name the admin first, as a read-only
/// signer, and the slab second, writable and not signing; their calls hand
/// the runtime exactly those two accounts in that order.
pub proof fn lemma_admin_metas_shape(admin: [u8; 32], slab: [u8; 32])
    ensures
        admin_metas(admin, slab).len() == 2,
        admin_metas(admin, slab)[0] == (admin@, true, false),
        admin_metas(admin, slab)[1] == (slab@, false, true),
        meta_keys(admin_metas(admin, slab)) == seq![admin@, slab@],
{
    assert(meta_keys(admin_metas(admin, slab)) =~= seq![admin@, slab@]);
}

} // verus!
