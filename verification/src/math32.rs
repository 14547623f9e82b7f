//! The LP math over 32-bit amounts with 64-bit intermediates, together
//! with the cooldown and deposit-cap predicates. Each function has the same
//! shape as its 64-bit counterpart in `math`, and is specified by the same
//! spec functions with the bound `u32::MAX`.
use vstd::prelude::*;
use vstd::arithmetic::mul::*;
use crate::math::{lp_for_deposit, collateral_for_withdraw, value_after_flows, flushable};

verus! {

/// An optional `u32` read as an optional integer.
pub open spec fn opt_int32(o: Option<u32>) -> Option<int> {
    match o {
        Some(x) => Some(x as int),
        None => None,
    }
}

/// LP tokens for a deposit: 1:1 into an empty pool, refused into orphaned
/// value or valueless LP, otherwise `deposit * supply / pool_value` rounded
/// down, refused when above `u32::MAX`.
pub fn calc_lp_for_deposit(supply: u32, pool_value: u32, deposit: u32) -> (r: Option<u32>)
    ensures
        opt_int32(r) == lp_for_deposit(
            supply as int,
            pool_value as int,
            deposit as int,
            u32::MAX as int,
        ),
{
    if supply == 0 && pool_value == 0 {
        Some(deposit)
    } else if supply == 0 || pool_value == 0 {
        None
    } else {
        let a = deposit as u64;
        let b = supply as u64;
        proof {
            lemma_mul_upper_bound(a as int, u32::MAX as int, b as int, u32::MAX as int);
            assert(u32::MAX as int * u32::MAX as int <= u64::MAX) by (nonlinear_arith);
        }
        let product = match a.checked_mul(b) {
            Some(p) => p,
            None => return None,
        };
        let lp = match product.checked_div(pool_value as u64) {
            Some(q) => q,
            None => return None,
        };
        if lp > u32::MAX as u64 {
            None
        } else {
            Some(lp as u32)
        }
    }
}

/// Collateral for an LP burn: `lp * pool_value / supply` rounded down,
/// refused when there is no LP or the result is above `u32::MAX`.
pub fn calc_collateral_for_withdraw(supply: u32, pool_value: u32, lp: u32) -> (r: Option<u32>)
    ensures
        opt_int32(r) == collateral_for_withdraw(
            supply as int,
            pool_value as int,
            lp as int,
            u32::MAX as int,
        ),
{
    if supply == 0 {
        return None;
    }
    let a = lp as u64;
    let b = pool_value as u64;
    proof {
        lemma_mul_upper_bound(a as int, u32::MAX as int, b as int, u32::MAX as int);
        assert(u32::MAX as int * u32::MAX as int <= u64::MAX) by (nonlinear_arith);
    }
    let product = match a.checked_mul(b) {
        Some(p) => p,
        None => return None,
    };
    let col = match product.checked_div(supply as u64) {
        Some(q) => q,
        None => return None,
    };
    if col > u32::MAX as u64 {
        None
    } else {
        Some(col as u32)
    }
}

/// Pool value `deposited - withdrawn`, None when overdrawn.
pub fn pool_value(deposited: u32, withdrawn: u32) -> (r: Option<u32>)
    ensures
        opt_int32(r) == value_after_flows(deposited as int, withdrawn as int, 0, 0, u32::MAX as int),
{
    deposited.checked_sub(withdrawn)
}

/// Pool value with flushes and insurance returns:
/// `deposited - withdrawn - flushed + returned`, None when a difference goes
/// negative or the sum overflows.
pub fn pool_value_with_flush(deposited: u32, withdrawn: u32, flushed: u32, returned: u32) -> (r:
    Option<u32>)
    ensures
        opt_int32(r) == value_after_flows(
            deposited as int,
            withdrawn as int,
            flushed as int,
            returned as int,
            u32::MAX as int,
        ),
{
    let a = match deposited.checked_sub(withdrawn) {
        Some(v) => v,
        None => return None,
    };
    let b = match a.checked_sub(flushed) {
        Some(v) => v,
        None => return None,
    };
    b.checked_add(returned)
}

/// Amount still available to flush, saturating at zero.
pub fn flush_available(deposited: u32, withdrawn: u32, flushed: u32) -> (r: u32)
    ensures
        r == flushable(deposited as int, withdrawn as int, flushed as int),
{
    deposited.saturating_sub(withdrawn).saturating_sub(flushed)
}

/// The slot from which a withdrawal is allowed: `deposit_slot + cooldown`,
/// saturating at `max`.
pub open spec fn unlock_slot(deposit_slot: int, cooldown: int, max: int) -> int {
    if deposit_slot + cooldown > max {
        max
    } else {
        deposit_slot + cooldown
    }
}

/// Cooldown check: `current_slot >= deposit_slot + cooldown_slots`, with a
/// saturating sum.
pub fn cooldown_elapsed(current_slot: u32, deposit_slot: u32, cooldown_slots: u32) -> (r: bool)
    ensures
        r == (current_slot >= unlock_slot(deposit_slot as int, cooldown_slots as int, u32::MAX as int)),
{
    current_slot >= deposit_slot.saturating_add(cooldown_slots)
}

/// Whether a deposit exceeds the cap: a cap of 0 means uncapped; otherwise
/// the deposit exceeds when `total + new_deposit > cap`, an overflowing sum
/// counting as exceeding.
pub open spec fn over_cap(total: int, new_deposit: int, cap: int, max: int) -> bool {
    if cap == 0 {
        false
    } else if total + new_deposit > max {
        true
    } else {
        total + new_deposit > cap
    }
}

/// Deposit cap check: returns true if the deposit would exceed the cap.
pub fn exceeds_cap(total_deposited: u32, new_deposit: u32, cap: u32) -> (r: bool)
    ensures
        r == over_cap(total_deposited as int, new_deposit as int, cap as int, u32::MAX as int),
{
    if cap == 0 {
        return false;
    }
    match total_deposited.checked_add(new_deposit) {
        Some(total) => total > cap,
        None => true,
    }
}

/// When the unlock slot does not saturate, a withdrawal in the deposit's
/// own slot is refused while the cooldown is nonzero, and a withdrawal at
/// `slot` is allowed exactly when `slot >= deposit_slot + cooldown`.
pub proof fn lemma_cooldown_boundary(deposit_slot: int, cooldown: int, slot: int, max: int)
    requires
        0 <= deposit_slot,
        0 <= cooldown,
        deposit_slot + cooldown <= max,
    ensures
        cooldown > 0 ==> !(deposit_slot >= unlock_slot(deposit_slot, cooldown, max)),
        deposit_slot + cooldown >= unlock_slot(deposit_slot, cooldown, max),
        slot < deposit_slot + cooldown ==> !(slot >= unlock_slot(deposit_slot, cooldown, max)),
        slot >= deposit_slot + cooldown ==> slot >= unlock_slot(deposit_slot, cooldown, max),
{
}

/// A zero cap never refuses any deposit; a deposit that brings the total exactly to the
/// cap is accepted, and one unit more is refused.
pub proof fn lemma_cap_boundary(total: int, cap: int, deposit: int, max: int)
    requires
        0 <= total <= cap <= max,
    ensures
        !over_cap(total, deposit, 0, max),
        !over_cap(total, cap - total, cap, max),
        cap > 0 ==> over_cap(total, cap - total + 1, cap, max),
{
}

/// The cap rule over all inputs: a zero cap refuses nothing; a nonzero cap
/// refuses exactly the deposits that take the total above the cap (a total
/// that does not fit counting as above it).
pub proof fn lemma_cap_rule(total: int, deposit: int, cap: int, max: int)
    requires
        0 <= cap <= max,
    ensures
        cap == 0 ==> !over_cap(total, deposit, cap, max),
        cap > 0 ==> (over_cap(total, deposit, cap, max) <==> total + deposit > cap),
{
}

/// The cooldown rule over all inputs: a withdrawal at `slot` is allowed
/// exactly when `slot >= deposit_slot + cooldown`, or, when that sum does not
/// fit, from the last slot `max` on.
pub proof fn lemma_cooldown_rule(deposit_slot: int, cooldown: int, slot: int, max: int)
    ensures
        (slot >= unlock_slot(deposit_slot, cooldown, max)) <==> (slot >= deposit_slot + cooldown || (
        deposit_slot + cooldown > max && slot >= max)),
{
}

} // verus!
