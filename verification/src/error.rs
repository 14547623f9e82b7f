//! Errors of the stake program.
use vstd::prelude::*;

verus! {

/// Errors specific to the stake program, numbered 0 to 15 in declaration
/// order (see [`StakeError::code`]).
#[derive(Debug, Clone, Copy, PartialEq, Eq, Structural)]
pub enum StakeError {
    /// Pool already initialized for this slab
    AlreadyInitialized,
    /// Pool not initialized
    NotInitialized,
    /// Unauthorized — not admin
    Unauthorized,
    /// Cooldown period not elapsed
    CooldownNotElapsed,
    /// Insufficient LP tokens
    InsufficientLpTokens,
    /// Zero amount
    ZeroAmount,
    /// Arithmetic overflow
    Overflow,
    /// Invalid mint — LP mint mismatch
    InvalidMint,
    /// Market is resolved — no new deposits
    MarketResolved,
    /// Deposit cap exceeded
    DepositCapExceeded,
    /// Invalid PDA derivation
    InvalidPda,
    /// Admin already transferred to pool PDA
    AdminAlreadyTransferred,
    /// Admin not yet transferred — must call TransferAdmin first
    AdminNotTransferred,
    /// Insufficient vault balance for withdrawal
    InsufficientVaultBalance,
    /// Invalid percolator program ID
    InvalidPercolatorProgram,
    /// CPI to percolator failed
    CpiFailed,
}

impl StakeError {
    /// The numeric code of each error: its position in the declaration.
    pub open spec fn spec_code(self) -> u32 {
        match self {
            StakeError::AlreadyInitialized => 0,
            StakeError::NotInitialized => 1,
            StakeError::Unauthorized => 2,
            StakeError::CooldownNotElapsed => 3,
            StakeError::InsufficientLpTokens => 4,
            StakeError::ZeroAmount => 5,
            StakeError::Overflow => 6,
            StakeError::InvalidMint => 7,
            StakeError::MarketResolved => 8,
            StakeError::DepositCapExceeded => 9,
            StakeError::InvalidPda => 10,
            StakeError::AdminAlreadyTransferred => 11,
            StakeError::AdminNotTransferred => 12,
            StakeError::InsufficientVaultBalance => 13,
            StakeError::InvalidPercolatorProgram => 14,
            StakeError::CpiFailed => 15,
        }
    }

    /// The numeric code carried as a custom program error.
    pub fn code(&self) -> (c: u32)
        ensures
            c == self.spec_code(),
    {
        match self {
            StakeError::AlreadyInitialized => 0,
            StakeError::NotInitialized => 1,
            StakeError::Unauthorized => 2,
            StakeError::CooldownNotElapsed => 3,
            StakeError::InsufficientLpTokens => 4,
            StakeError::ZeroAmount => 5,
            StakeError::Overflow => 6,
            StakeError::InvalidMint => 7,
            StakeError::MarketResolved => 8,
            StakeError::DepositCapExceeded => 9,
            StakeError::InvalidPda => 10,
            StakeError::AdminAlreadyTransferred => 11,
            StakeError::AdminNotTransferred => 12,
            StakeError::InsufficientVaultBalance => 13,
            StakeError::InvalidPercolatorProgram => 14,
            StakeError::CpiFailed => 15,
        }
    }
}

/// Distinct errors have distinct codes, and every code is below 16.
pub proof fn lemma_error_codes_distinct(a: StakeError, b: StakeError)
    ensures
        a.spec_code() < 16,
        a.spec_code() == b.spec_code() ==> a == b,
{
}

/// Why an instruction is refused: an error of the stake program, or one of
/// the runtime's generic program errors.
#[derive(Debug, Clone, Copy, PartialEq, Eq, Structural)]
pub enum ProcessError {
    /// A stake program error (carried as a custom error code).
    Stake(StakeError),
    /// The instruction data does not decode.
    InvalidInstructionData,
    /// A required signature is missing.
    MissingRequiredSignature,
    /// A program account is not the expected program.
    IncorrectProgramId,
    /// Not enough funds for the requested amount.
    InsufficientFunds,
    /// An account argument is invalid.
    InvalidArgument,
    /// Fewer accounts than the instruction needs.
    NotEnoughAccountKeys,
    /// No program address could be derived from the seeds.
    InvalidSeeds,
}

} // verus!
