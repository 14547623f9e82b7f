//! Calls into the Solana SDK and the SPL token program: program address
//! derivation, the token program id, and the token and system instructions
//! the stake program sends. Keys cross this boundary as 32-byte arrays and
//! instructions as [`CpiInstruction`] values.
use vstd::prelude::*;
use vstd::bytes::spec_u64_to_le_bytes;
use crate::cpi::{AccountRef, CpiInstruction, instruction_is, bytes_list};
use crate::error::ProcessError;

verus! {

/// The program address derived from `seeds` for `program_id` together with
/// its bump seed: the first bump from 255 down for which the address is
/// off the curve, or None when there is none.
pub uninterp spec fn program_address(seeds: Seq<Seq<u8>>, program_id: Seq<u8>) -> Option<(Seq<u8>, u8)>;

/// An optional (address, bump) pair as plain values.
pub open spec fn address_view(r: Option<([u8; 32], u8)>) -> Option<(Seq<u8>, u8)> {
    match r {
        Some((k, b)) => Some((k@, b)),
        None => None,
    }
}

/// Derives a program address with
/// `solana_program::pubkey::Pubkey::try_find_program_address`. The result
/// is named by [`program_address`] of the seeds and the program id; what it
/// is for given values (a SHA-256 search over bump seeds) is not stated.
#[verifier::external_body]
pub(crate) fn find_program_address(seeds: &Vec<Vec<u8>>, program_id: &[u8; 32]) -> (r: Option<
    ([u8; 32], u8),
>)
    ensures
        address_view(r) == program_address(bytes_list(seeds@), program_id@),
{
    let refs: Vec<&[u8]> = seeds.iter().map(|s| s.as_slice()).collect();
    let id = solana_program::pubkey::Pubkey::new_from_array(*program_id);
    solana_program::pubkey::Pubkey::try_find_program_address(&refs, &id).map(
        |(k, b)| (k.to_bytes(), b),
    )
}

/// The SPL token program id, `TokenkegQfeZyiNwAJbNbGKPFXCWuBvf9Ss623VQ5DA`.
pub open spec fn token_program_key() -> Seq<u8> {
    seq![
        6u8, 221, 246, 225, 215, 101, 161, 147, 217, 203, 225, 70, 206, 235, 121, 172, 28, 180, 133,
        237, 95, 91, 55, 145, 58, 140, 245, 133, 126, 255, 0, 169,
    ]
}

/// The rent sysvar id, `SysvarRent111111111111111111111111111111111`.
pub open spec fn rent_sysvar_key() -> Seq<u8> {
    seq![
        6u8, 167, 213, 23, 25, 44, 92, 81, 33, 140, 201, 76, 61, 74, 241, 127, 88, 218, 238, 8, 155,
        161, 253, 68, 227, 219, 217, 138, 0, 0, 0, 0,
    ]
}

/// The system program id, `11111111111111111111111111111111` (all zero).
pub open spec fn system_program_key() -> Seq<u8> {
    Seq::new(32, |i: int| 0u8)
}

/// `spl_token::id()`: the id declared by the token program,
/// `TokenkegQfeZyiNwAJbNbGKPFXCWuBvf9Ss623VQ5DA` in base58.
#[verifier::external_body]
pub(crate) fn token_program_id() -> (id: [u8; 32])
    ensures
        id@ == token_program_key(),
{
    spl_token::id().to_bytes()
}

/// `spl_token::instruction::transfer` with no multisig signers: Ok exactly
/// when `token_program` is the token program id, with data `[3] ++
/// amount (LE)` and accounts `[source (w), destination (w), authority
/// (signer)]`; otherwise it refuses with `IncorrectProgramId`.
#[verifier::external_body]
pub(crate) fn token_transfer(
    token_program: &[u8; 32],
    source: &[u8; 32],
    destination: &[u8; 32],
    authority: &[u8; 32],
    amount: u64,
) -> (r: Result<CpiInstruction, ProcessError>)
    ensures
        r is Ok <==> token_program@ == token_program_key(),
        r matches Err(e) ==> e == ProcessError::IncorrectProgramId,
        r matches Ok(ix) ==> instruction_is(
            ix,
            token_program@,
            seq![(source@, false, true), (destination@, false, true), (authority@, true, false)],
            seq![3u8] + spec_u64_to_le_bytes(amount),
        ),
{
    let k = |b: &[u8; 32]| solana_program::pubkey::Pubkey::new_from_array(*b);
    match spl_token::instruction::transfer(&k(token_program), &k(source), &k(destination), &k(authority), &[], amount) {
        Ok(ix) => Ok(CpiInstruction {
            program_id: ix.program_id.to_bytes(),
            accounts: ix.accounts.iter().map(|m| AccountRef { key: m.pubkey.to_bytes(), is_signer: m.is_signer, is_writable: m.is_writable }).collect(),
            data: ix.data,
        }),
        Err(_) => Err(ProcessError::IncorrectProgramId),
    }
}

/// `spl_token::instruction::mint_to` with no multisig signers: Ok exactly
/// when `token_program` is the token program id, with data `[7] ++ amount
/// (LE)` and accounts `[mint (w), account (w), owner (signer)]`; otherwise
/// `IncorrectProgramId`.
#[verifier::external_body]
pub(crate) fn token_mint_to(
    token_program: &[u8; 32],
    mint: &[u8; 32],
    account: &[u8; 32],
    owner: &[u8; 32],
    amount: u64,
) -> (r: Result<CpiInstruction, ProcessError>)
    ensures
        r is Ok <==> token_program@ == token_program_key(),
        r matches Err(e) ==> e == ProcessError::IncorrectProgramId,
        r matches Ok(ix) ==> instruction_is(
            ix,
            token_program@,
            seq![(mint@, false, true), (account@, false, true), (owner@, true, false)],
            seq![7u8] + spec_u64_to_le_bytes(amount),
        ),
{
    let k = |b: &[u8; 32]| solana_program::pubkey::Pubkey::new_from_array(*b);
    match spl_token::instruction::mint_to(&k(token_program), &k(mint), &k(account), &k(owner), &[], amount) {
        Ok(ix) => Ok(CpiInstruction {
            program_id: ix.program_id.to_bytes(),
            accounts: ix.accounts.iter().map(|m| AccountRef { key: m.pubkey.to_bytes(), is_signer: m.is_signer, is_writable: m.is_writable }).collect(),
            data: ix.data,
        }),
        Err(_) => Err(ProcessError::IncorrectProgramId),
    }
}

/// `spl_token::instruction::burn` with no multisig signers: Ok exactly when
/// `token_program` is the token program id, with data `[8] ++ amount (LE)`
/// and accounts `[account (w), mint (w), authority (signer)]`; otherwise
/// `IncorrectProgramId`.
#[verifier::external_body]
pub(crate) fn token_burn(
    token_program: &[u8; 32],
    account: &[u8; 32],
    mint: &[u8; 32],
    authority: &[u8; 32],
    amount: u64,
) -> (r: Result<CpiInstruction, ProcessError>)
    ensures
        r is Ok <==> token_program@ == token_program_key(),
        r matches Err(e) ==> e == ProcessError::IncorrectProgramId,
        r matches Ok(ix) ==> instruction_is(
            ix,
            token_program@,
            seq![(account@, false, true), (mint@, false, true), (authority@, true, false)],
            seq![8u8] + spec_u64_to_le_bytes(amount),
        ),
{
    let k = |b: &[u8; 32]| solana_program::pubkey::Pubkey::new_from_array(*b);
    match spl_token::instruction::burn(&k(token_program), &k(account), &k(mint), &k(authority), &[], amount) {
        Ok(ix) => Ok(CpiInstruction {
            program_id: ix.program_id.to_bytes(),
            accounts: ix.accounts.iter().map(|m| AccountRef { key: m.pubkey.to_bytes(), is_signer: m.is_signer, is_writable: m.is_writable }).collect(),
            data: ix.data,
        }),
        Err(_) => Err(ProcessError::IncorrectProgramId),
    }
}

/// `spl_token::instruction::initialize_mint` with the freeze authority set:
/// Ok exactly when `token_program` is the token program id, with data
/// `[0, decimals] ++ mint_authority ++ [1] ++ freeze_authority` and
/// accounts `[mint (w), rent sysvar]`; otherwise `IncorrectProgramId`.
#[verifier::external_body]
pub(crate) fn token_initialize_mint(
    token_program: &[u8; 32],
    mint: &[u8; 32],
    mint_authority: &[u8; 32],
    freeze_authority: &[u8; 32],
    decimals: u8,
) -> (r: Result<CpiInstruction, ProcessError>)
    ensures
        r is Ok <==> token_program@ == token_program_key(),
        r matches Err(e) ==> e == ProcessError::IncorrectProgramId,
        r matches Ok(ix) ==> instruction_is(
            ix,
            token_program@,
            seq![(mint@, false, true), (rent_sysvar_key(), false, false)],
            seq![0u8, decimals] + mint_authority@ + seq![1u8] + freeze_authority@,
        ),
{
    let k = |b: &[u8; 32]| solana_program::pubkey::Pubkey::new_from_array(*b);
    match spl_token::instruction::initialize_mint(&k(token_program), &k(mint), &k(mint_authority), Some(&k(freeze_authority)), decimals) {
        Ok(ix) => Ok(CpiInstruction {
            program_id: ix.program_id.to_bytes(),
            accounts: ix.accounts.iter().map(|m| AccountRef { key: m.pubkey.to_bytes(), is_signer: m.is_signer, is_writable: m.is_writable }).collect(),
            data: ix.data,
        }),
        Err(_) => Err(ProcessError::IncorrectProgramId),
    }
}

/// `spl_token::instruction::initialize_account`: Ok exactly when
/// `token_program` is the token program id, with data `[1]` and accounts
/// `[account (w), mint, owner, rent sysvar]`; otherwise
/// `IncorrectProgramId`.
#[verifier::external_body]
pub(crate) fn token_initialize_account(
    token_program: &[u8; 32],
    account: &[u8; 32],
    mint: &[u8; 32],
    owner: &[u8; 32],
) -> (r: Result<CpiInstruction, ProcessError>)
    ensures
        r is Ok <==> token_program@ == token_program_key(),
        r matches Err(e) ==> e == ProcessError::IncorrectProgramId,
        r matches Ok(ix) ==> instruction_is(
            ix,
            token_program@,
            seq![
                (account@, false, true),
                (mint@, false, false),
                (owner@, false, false),
                (rent_sysvar_key(), false, false),
            ],
            seq![1u8],
        ),
{
    let k = |b: &[u8; 32]| solana_program::pubkey::Pubkey::new_from_array(*b);
    match spl_token::instruction::initialize_account(&k(token_program), &k(account), &k(mint), &k(owner)) {
        Ok(ix) => Ok(CpiInstruction {
            program_id: ix.program_id.to_bytes(),
            accounts: ix.accounts.iter().map(|m| AccountRef { key: m.pubkey.to_bytes(), is_signer: m.is_signer, is_writable: m.is_writable }).collect(),
            data: ix.data,
        }),
        Err(_) => Err(ProcessError::IncorrectProgramId),
    }
}

/// `solana_program::system_instruction::create_account`: an instruction for
/// the system program with accounts `[from (signer, w), to (signer, w)]`
/// and the bincode image of `CreateAccount { lamports, space, owner }`:
/// variant index 0 as a `u32`, then lamports and space as `u64`, then the
/// owner's 32 bytes, all little-endian.
#[verifier::external_body]
pub(crate) fn system_create_account(
    from: &[u8; 32],
    to: &[u8; 32],
    lamports: u64,
    space: u64,
    owner: &[u8; 32],
) -> (ix: CpiInstruction)
    ensures
        instruction_is(
            ix,
            system_program_key(),
            seq![(from@, true, true), (to@, true, true)],
            seq![0u8, 0, 0, 0] + spec_u64_to_le_bytes(lamports) + spec_u64_to_le_bytes(space) + owner@,
        ),
{
    let k = |b: &[u8; 32]| solana_program::pubkey::Pubkey::new_from_array(*b);
    #[allow(deprecated)]
    let ix = solana_program::system_instruction::create_account(&k(from), &k(to), lamports, space, &k(owner));
    CpiInstruction {
        program_id: ix.program_id.to_bytes(),
        accounts: ix.accounts.iter().map(|m| AccountRef { key: m.pubkey.to_bytes(), is_signer: m.is_signer, is_writable: m.is_writable }).collect(),
        data: ix.data,
    }
}

} // verus!
