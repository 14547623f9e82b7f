# percolator_stake

Insurance LP staking for Percolator markets, with its logic verified by Verus.

Users deposit collateral into a stake vault and receive LP tokens priced pro
rata at the pool value (`deposited - withdrawn - flushed + returned`). The
pool's PDA becomes the admin of the market, so the pool admin can flush vault
collateral into the market's insurance fund, forward admin calls, and after
resolution withdraw insurance back for LP holders.

## Layout

- `src/math.rs`, `src/math32.rs`: LP pricing, redemption, pool value and
  flush arithmetic, with their laws (rounding in the pool's favour, no
  inflation, no dilution, exact first deposit, flow accounting, cooldown and
  cap boundaries).
- `src/state.rs`: the pool and deposit record accounts, their byte layout
  (encode/decode proved inverse) and pool pricing.
- `src/instruction.rs`: the instruction decoder, exact on every byte string.
- `src/cpi.rs`: the market instructions the program sends, as plain data.
- `src/sdk.rs`: the trusted boundary to the Solana SDK and the SPL token
  program (program addresses, token and system instructions).
- `src/processor.rs`: each instruction's checks, calls and state updates as
  functions from accounts and state to calls and new state, with the laws of
  the instructions (accounting, admin-only operations, one-time admin
  transfer).
- `app/`: the runtime side: reads accounts and sysvars, performs the calls,
  writes the state back.
- `tests/`: tests of the library.
