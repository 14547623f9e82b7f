//! Insurance LP staking for a perpetual futures market: the share math,
//! the on-chain account layouts, instruction decoding, the instructions
//! sent to the market program and to the token program, and the checks and
//! accounting of each stake instruction.
pub mod math;
pub mod math32;
pub mod error;
pub mod state;
pub mod instruction;
pub mod cpi;
pub mod sdk;
pub mod processor;
