//! Pure LP share math of the stake pool.
//!
//! Amounts are `u64`; products are taken in `u128`, which cannot overflow for
//! two `u64` factors. The spec functions below are stated over mathematical
//! integers with the result bound `max` as a parameter, so that the same
//! statements describe the 32-bit functions of `math32`.
use vstd::prelude::*;
use vstd::arithmetic::div_mod::*;
use vstd::arithmetic::mul::*;

verus! {

/// An optional `u64` read as an optional integer.
pub open spec fn opt_int(o: Option<u64>) -> Option<int> {
    match o {
        Some(x) => Some(x as int),
        None => None,
    }
}

/// LP tokens minted for `deposit` into a pool holding `value` with `supply`
/// LP tokens outstanding, when results above `max` are refused.
///
/// An empty pool (no LP, no value) mints 1:1. A pool with value but no LP
/// (orphaned value) or with LP but no value refuses deposits. Otherwise the
/// deposit gets its pro-rata share, rounded down.
pub open spec fn lp_for_deposit(supply: int, value: int, deposit: int, max: int) -> Option<int> {
    if supply == 0 && value == 0 {
        Some(deposit)
    } else if supply == 0 || value == 0 {
        None
    } else if deposit * supply / value > max {
        None
    } else {
        Some(deposit * supply / value)
    }
}

/// Collateral paid out for burning `lp` LP tokens of a pool holding `value`
/// with `supply` LP tokens outstanding: the pro-rata share rounded down,
/// refused when there is no LP or the result exceeds `max`.
pub open spec fn collateral_for_withdraw(supply: int, value: int, lp: int, max: int) -> Option<int> {
    if supply == 0 {
        None
    } else if lp * value / supply > max {
        None
    } else {
        Some(lp * value / supply)
    }
}

/// Calculate LP tokens for a deposit.
///
/// First depositor (supply == 0 and value == 0) gets 1:1; a pool with
/// orphaned value or valueless LP refuses (None); otherwise
/// `deposit_amount * supply / value`, rounded down, or None when that
/// exceeds `u64::MAX`.
pub fn calc_lp_for_deposit(total_lp_supply: u64, total_pool_value: u64, deposit_amount: u64) -> (r:
    Option<u64>)
    ensures
        opt_int(r) == lp_for_deposit(
            total_lp_supply as int,
            total_pool_value as int,
            deposit_amount as int,
            u64::MAX as int,
        ),
{
    if total_lp_supply == 0 && total_pool_value == 0 {
        Some(deposit_amount)
    } else if total_lp_supply == 0 {
        None
    } else if total_pool_value == 0 {
        None
    } else {
        let a = deposit_amount as u128;
        let b = total_lp_supply as u128;
        proof {
            lemma_mul_upper_bound(a as int, u64::MAX as int, b as int, u64::MAX as int);
            assert(u64::MAX as int * u64::MAX as int <= u128::MAX) by (nonlinear_arith);
        }
        let product = match a.checked_mul(b) {
            Some(p) => p,
            None => return None,
        };
        let lp = match product.checked_div(total_pool_value as u128) {
            Some(q) => q,
            None => return None,
        };
        if lp > u64::MAX as u128 {
            None
        } else {
            Some(lp as u64)
        }
    }
}

/// Calculate collateral for an LP token burn: `lp_amount * value / supply`,
/// rounded down; None when there is no LP or the result exceeds `u64::MAX`.
pub fn calc_collateral_for_withdraw(total_lp_supply: u64, total_pool_value: u64, lp_amount: u64) -> (r:
    Option<u64>)
    ensures
        opt_int(r) == collateral_for_withdraw(
            total_lp_supply as int,
            total_pool_value as int,
            lp_amount as int,
            u64::MAX as int,
        ),
{
    if total_lp_supply == 0 {
        return None;
    }
    let a = lp_amount as u128;
    let b = total_pool_value as u128;
    proof {
        lemma_mul_upper_bound(a as int, u64::MAX as int, b as int, u64::MAX as int);
        assert(u64::MAX as int * u64::MAX as int <= u128::MAX) by (nonlinear_arith);
    }
    let product = match a.checked_mul(b) {
        Some(p) => p,
        None => return None,
    };
    let collateral = match product.checked_div(total_lp_supply as u128) {
        Some(q) => q,
        None => return None,
    };
    if collateral > u64::MAX as u128 {
        None
    } else {
        Some(collateral as u64)
    }
}

/// Pool value from accounting state: `deposited - withdrawn`, or None when
/// more was withdrawn than deposited.
pub fn pool_value(total_deposited: u64, total_withdrawn: u64) -> (r: Option<u64>)
    ensures
        opt_int(r) == (if total_withdrawn <= total_deposited {
            Some(total_deposited - total_withdrawn)
        } else {
            None::<int>
        }),
{
    total_deposited.checked_sub(total_withdrawn)
}

/// Amount still available to flush, `deposited - withdrawn - flushed`,
/// where each subtraction stops at zero.
pub open spec fn flushable(deposited: int, withdrawn: int, flushed: int) -> int {
    let after_withdraw = if withdrawn <= deposited { deposited - withdrawn } else { 0 };
    if flushed <= after_withdraw { after_withdraw - flushed } else { 0 }
}

/// Calculate available flush amount (saturating at zero).
pub fn flush_available(total_deposited: u64, total_withdrawn: u64, total_flushed: u64) -> (r: u64)
    ensures
        r == flushable(total_deposited as int, total_withdrawn as int, total_flushed as int),
{
    total_deposited.saturating_sub(total_withdrawn).saturating_sub(total_flushed)
}

// ───────────────────────── arithmetic helpers ─────────────────────────

/// `x / d` is the largest `q` with `q * d <= x`.
proof fn lemma_div_is_largest(x: int, d: int, q: int)
    requires
        d > 0,
        x >= 0,
        q * d <= x,
    ensures
        q <= x / d,
{
    lemma_fundamental_div_mod(x, d);
    lemma_mod_bound(x, d);
    let k = x / d;
    assert(x < (k + 1) * d) by (nonlinear_arith)
        requires
            x == d * k + x % d,
            x % d < d,
    ;
    assert(q < k + 1) by (nonlinear_arith)
        requires
            q * d <= x,
            x < (k + 1) * d,
            d > 0,
    ;
}

/// `(x / d) * d <= x`.
proof fn lemma_div_times_le(x: int, d: int)
    requires
        d > 0,
        x >= 0,
    ensures
        (x / d) * d <= x,
        x / d >= 0,
        x < (x / d + 1) * d,
{
    lemma_fundamental_div_mod(x, d);
    lemma_mod_bound(x, d);
    lemma_div_pos_is_pos(x, d);
    let k = x / d;
    assert(k * d <= x && x < (k + 1) * d) by (nonlinear_arith)
        requires
            x == d * k + x % d,
            0 <= x % d < d,
    ;
}

/// If `x <= k * d` then `x / d <= k`.
proof fn lemma_div_le_bound(x: int, d: int, k: int)
    requires
        d > 0,
        x >= 0,
        k >= 0,
        x <= k * d,
    ensures
        x / d <= k,
{
    lemma_div_times_le(x, d);
    let q = x / d;
    assert(q <= k) by (nonlinear_arith)
        requires
            q * d <= x,
            x <= k * d,
            d > 0,
    ;
}

/// Division by a positive number is monotone in the dividend.
proof fn lemma_div_monotone(x: int, y: int, d: int)
    requires
        d > 0,
        0 <= x <= y,
    ensures
        x / d <= y / d,
{
    lemma_div_is_ordered(x, y, d);
}

/// `(k * d) / d == k` for `d > 0`.
proof fn lemma_div_exact(k: int, d: int)
    requires
        d > 0,
    ensures
        (k * d) / d == k,
        (d * k) / d == k,
{
    lemma_div_multiples_vanish(k, d);
    lemma_mul_is_commutative(k, d);
}

// ───────────────────────── laws of the LP math ─────────────────────────

/// Deposits round in the pool's favour: when shares are minted pro rata,
/// `lp * value <= deposit * supply < (lp + 1) * value`, i.e. the depositor
/// gets the floor of its exact share and never more.
pub proof fn lemma_deposit_rounds_down(supply: int, value: int, deposit: int, max: int)
    requires
        supply > 0,
        value > 0,
        deposit >= 0,
        lp_for_deposit(supply, value, deposit, max) is Some,
    ensures
        ({
            let lp = lp_for_deposit(supply, value, deposit, max).unwrap();
            lp * value <= deposit * supply && deposit * supply < (lp + 1) * value
        }),
{
    lemma_mul_nonnegative(deposit, supply);
    lemma_div_times_le(deposit * supply, value);
}

/// Withdrawals round in the pool's favour:
/// `collateral * supply <= lp * value < (collateral + 1) * supply`.
pub proof fn lemma_withdraw_rounds_down(supply: int, value: int, lp: int, max: int)
    requires
        value >= 0,
        lp >= 0,
        collateral_for_withdraw(supply, value, lp, max) is Some,
        supply >= 0,
    ensures
        ({
            let c = collateral_for_withdraw(supply, value, lp, max).unwrap();
            c * supply <= lp * value && lp * value < (c + 1) * supply
        }),
{
    lemma_mul_nonnegative(lp, value);
    lemma_div_times_le(lp * value, supply);
}

/// No inflation: depositing and then burning the LP just minted, from the
/// pool state after the deposit, never returns more than was deposited.
pub proof fn lemma_deposit_withdraw_no_inflation(
    supply: int,
    value: int,
    deposit: int,
    max: int,
)
    requires
        supply >= 0,
        value >= 0,
        deposit >= 0,
        lp_for_deposit(supply, value, deposit, max) is Some,
        collateral_for_withdraw(
            supply + lp_for_deposit(supply, value, deposit, max).unwrap(),
            value + deposit,
            lp_for_deposit(supply, value, deposit, max).unwrap(),
            max,
        ) is Some,
    ensures
        collateral_for_withdraw(
            supply + lp_for_deposit(supply, value, deposit, max).unwrap(),
            value + deposit,
            lp_for_deposit(supply, value, deposit, max).unwrap(),
            max,
        ).unwrap() <= deposit,
{
    let lp = lp_for_deposit(supply, value, deposit, max).unwrap();
    let s2 = supply + lp;
    let v2 = value + deposit;
    if supply == 0 && value == 0 {
        assert(lp == deposit);
        lemma_div_exact(deposit, deposit);
        assert(lp * v2 == deposit * deposit) by (nonlinear_arith)
            requires
                lp == deposit,
                v2 == deposit,
        ;
    } else {
        lemma_mul_nonnegative(deposit, supply);
        lemma_div_times_le(deposit * supply, value);
        lemma_div_pos_is_pos(deposit * supply, value);
        assert(lp * v2 <= deposit * s2) by (nonlinear_arith)
            requires
                lp * value <= deposit * supply,
                v2 == value + deposit,
                s2 == supply + lp,
                lp >= 0,
        ;
        lemma_mul_nonnegative(lp, v2);
        lemma_div_le_bound(lp * v2, s2, deposit);
    }
}

/// The first depositor into an empty pool gets exactly 1:1 LP and can burn
/// it all back for exactly the amount deposited.
pub proof fn lemma_first_depositor_exact(amount: int, max: int)
    requires
        0 < amount <= max,
    ensures
        lp_for_deposit(0, 0, amount, max) == Some(amount),
        collateral_for_withdraw(amount, amount, amount, max) == Some(amount),
{
    lemma_div_exact(amount, amount);
}

/// At a 1:1 exchange rate (supply equal to value) a deposit mints exactly
/// its own amount of LP.
pub proof fn lemma_unit_rate_mints_amount(rate: int, deposit: int, max: int)
    requires
        rate > 0,
        0 <= deposit <= max,
    ensures
        lp_for_deposit(rate, rate, deposit, max) == Some(deposit),
{
    lemma_div_exact(deposit, rate);
}

/// No dilution: a later deposit never lowers what an existing holding of
/// `held` LP tokens can be redeemed for.
pub proof fn lemma_no_dilution(supply: int, value: int, held: int, deposit: int, max: int)
    requires
        supply >= 0,
        value >= 0,
        held >= 0,
        deposit >= 0,
        lp_for_deposit(supply, value, deposit, max) is Some,
        collateral_for_withdraw(supply, value, held, max) is Some,
        collateral_for_withdraw(
            supply + lp_for_deposit(supply, value, deposit, max).unwrap(),
            value + deposit,
            held,
            max,
        ) is Some,
    ensures
        collateral_for_withdraw(
            supply + lp_for_deposit(supply, value, deposit, max).unwrap(),
            value + deposit,
            held,
            max,
        ).unwrap() >= collateral_for_withdraw(supply, value, held, max).unwrap(),
{
    let lp = lp_for_deposit(supply, value, deposit, max).unwrap();
    let s2 = supply + lp;
    let v2 = value + deposit;
    assert(supply > 0);
    if value == 0 {
        // valueless pools refuse deposits
        assert(false);
    }
    lemma_mul_nonnegative(deposit, supply);
    lemma_div_times_le(deposit * supply, value);
    lemma_div_pos_is_pos(deposit * supply, value);
    let before = held * value / supply;
    lemma_mul_nonnegative(held, value);
    lemma_div_times_le(held * value, supply);
    lemma_div_pos_is_pos(held * value, supply);
    // before * supply <= held * value, so before * s2 <= held * v2
    assert(before * s2 <= held * v2) by (nonlinear_arith)
        requires
            before * supply <= held * value,
            lp * value <= deposit * supply,
            s2 == supply + lp,
            v2 == value + deposit,
            supply > 0,
            value > 0,
            held >= 0,
            lp >= 0,
            before >= 0,
    ;
    lemma_mul_nonnegative(held, v2);
    lemma_div_is_largest(held * v2, s2, before);
}

/// Larger deposits never mint fewer LP tokens.
pub proof fn lemma_deposit_monotone(supply: int, value: int, small: int, large: int, max: int)
    requires
        supply >= 0,
        value >= 0,
        0 <= small <= large,
        lp_for_deposit(supply, value, small, max) is Some,
        lp_for_deposit(supply, value, large, max) is Some,
    ensures
        lp_for_deposit(supply, value, small, max).unwrap() <= lp_for_deposit(
            supply,
            value,
            large,
            max,
        ).unwrap(),
{
    if supply > 0 && value > 0 {
        lemma_mul_inequality(small, large, supply);
        lemma_mul_nonnegative(small, supply);
        lemma_div_monotone(small * supply, large * supply, value);
    }
}

/// Larger burns never pay out less collateral.
pub proof fn lemma_withdraw_monotone(supply: int, value: int, small: int, large: int, max: int)
    requires
        supply >= 0,
        value >= 0,
        0 <= small <= large,
        collateral_for_withdraw(supply, value, small, max) is Some,
        collateral_for_withdraw(supply, value, large, max) is Some,
    ensures
        collateral_for_withdraw(supply, value, small, max).unwrap() <= collateral_for_withdraw(
            supply,
            value,
            large,
            max,
        ).unwrap(),
{
    lemma_mul_inequality(small, large, value);
    lemma_mul_nonnegative(small, value);
    lemma_div_monotone(small * value, large * value, supply);
}

/// Burning the whole LP supply pays out exactly the pool value, and burning
/// part of it pays out no more than the pool value.
pub proof fn lemma_burn_bounded_by_value(supply: int, value: int, lp: int, max: int)
    requires
        supply > 0,
        0 <= value <= max,
        0 <= lp <= supply,
    ensures
        collateral_for_withdraw(supply, value, supply, max) == Some(value),
        collateral_for_withdraw(supply, value, lp, max) is Some,
        collateral_for_withdraw(supply, value, lp, max).unwrap() <= value,
{
    lemma_div_exact(value, supply);
    lemma_mul_is_commutative(supply, value);
    lemma_mul_inequality(lp, supply, value);
    lemma_mul_nonnegative(lp, value);
    lemma_div_monotone(lp * value, supply * value, supply);
}

/// Redeeming all LP in two parts, one after the other, pays out exactly the
/// pool value: nobody can extract more than the pool holds.
pub proof fn lemma_two_part_redemption(first: int, second: int, value: int, max: int)
    requires
        first >= 0,
        second > 0,
        0 <= value <= max,
    ensures
        ({
            let c1 = collateral_for_withdraw(first + second, value, first, max);
            &&& c1 is Some
            &&& c1.unwrap() <= value
            &&& collateral_for_withdraw(second, value - c1.unwrap(), second, max) == Some(
                value - c1.unwrap(),
            )
        }),
{
    lemma_burn_bounded_by_value(first + second, value, first, max);
    let c1 = collateral_for_withdraw(first + second, value, first, max).unwrap();
    lemma_burn_bounded_by_value(second, value - c1, second, max);
}

/// Depositing nothing never mints LP, and burning nothing never pays out.
pub proof fn lemma_zero_in_zero_out(supply: int, value: int, max: int)
    requires
        supply >= 0,
        value >= 0,
        max >= 0,
    ensures
        lp_for_deposit(supply, value, 0, max) is None || lp_for_deposit(supply, value, 0, max)
            == Some(0int),
        collateral_for_withdraw(supply, value, 0, max) is None || collateral_for_withdraw(
            supply,
            value,
            0,
            max,
        ) == Some(0int),
{
    if supply > 0 && value > 0 {
        lemma_div_exact(0, value);
        assert(0 * supply == 0);
    }
    if supply > 0 {
        lemma_div_exact(0, supply);
        assert(0 * value == 0);
    }
}

/// Deposits are refused both into orphaned value (no LP but value left)
/// and into valueless LP (LP outstanding but no value), while a truly empty
/// pool accepts them 1:1.
pub proof fn lemma_orphaned_states_refuse_deposits(supply: int, value: int, deposit: int, max: int)
    requires
        supply >= 0,
        value >= 0,
    ensures
        supply == 0 && value > 0 ==> lp_for_deposit(supply, value, deposit, max) is None,
        supply > 0 && value == 0 ==> lp_for_deposit(supply, value, deposit, max) is None,
        supply == 0 && value == 0 ==> lp_for_deposit(supply, value, deposit, max) == Some(deposit),
{
}

/// Flushable amount never exceeds the deposits, and flushing all of it
/// leaves nothing more to flush.
pub proof fn lemma_flush_bounds(deposited: int, withdrawn: int, flushed: int)
    requires
        deposited >= 0,
        withdrawn >= 0,
        flushed >= 0,
    ensures
        flushable(deposited, withdrawn, flushed) <= deposited,
        withdrawn <= deposited && flushed <= deposited - withdrawn ==> flushable(
            deposited,
            withdrawn,
            flushed + flushable(deposited, withdrawn, flushed),
        ) == 0,
{
}

/// Value held by the pool after the given lifetime flows:
/// `deposited - withdrawn - flushed + returned`, or None when an
/// intermediate difference goes negative or the result exceeds `max`.
pub open spec fn value_after_flows(
    deposited: int,
    withdrawn: int,
    flushed: int,
    returned: int,
    max: int,
) -> Option<int> {
    if withdrawn > deposited {
        None
    } else if flushed > deposited - withdrawn {
        None
    } else if deposited - withdrawn - flushed + returned > max {
        None
    } else {
        Some(deposited - withdrawn - flushed + returned)
    }
}

/// Flow accounting of the pool value, for consistent flows (`withdrawn <=
/// deposited`, `flushed <= deposited - withdrawn`, `deposited <= max`):
/// a flush lowers the value by exactly the amount flushed, a return raises
/// it by exactly the amount returned, returning everything that was flushed
/// restores `deposited - withdrawn`, and while less has come back than went
/// out the value stays below it.
pub proof fn lemma_flow_accounting(
    deposited: int,
    withdrawn: int,
    flushed: int,
    returned: int,
    flush: int,
    max: int,
)
    requires
        0 <= withdrawn <= deposited <= max,
        0 <= flushed,
        flushed + flush <= deposited - withdrawn,
        0 <= returned <= flushed,
        0 <= flush,
    ensures
        value_after_flows(deposited, withdrawn, flushed, returned, max) == Some(
            deposited - withdrawn - flushed + returned,
        ),
        value_after_flows(deposited, withdrawn, flushed + flush, returned, max) == Some(
            deposited - withdrawn - flushed + returned - flush,
        ),
        value_after_flows(deposited, withdrawn, flushed, flushed, max) == Some(
            deposited - withdrawn,
        ),
        returned < flushed ==> value_after_flows(deposited, withdrawn, flushed, returned + 1, max)
            == Some(deposited - withdrawn - flushed + returned + 1),
        returned < flushed ==> deposited - withdrawn - flushed + returned < deposited - withdrawn,
{
}

/// A deposit strictly raises the value `deposited - withdrawn`.
pub proof fn lemma_deposit_raises_value(deposited: int, withdrawn: int, extra: int, max: int)
    requires
        0 <= withdrawn <= deposited,
        extra > 0,
        deposited + extra <= max,
    ensures
        value_after_flows(deposited + extra, withdrawn, 0, 0, max).unwrap() > value_after_flows(
            deposited,
            withdrawn,
            0,
            0,
            max,
        ).unwrap(),
{
}

/// A withdrawal never lowers what the remaining LP can be redeemed for:
/// after `burned` LP is paid out, a holding of `held` LP is worth at least
/// as much as before.
pub proof fn lemma_withdraw_no_dilution(supply: int, value: int, burned: int, held: int, max: int)
    requires
        0 <= value,
        0 <= held,
        0 <= burned < supply,
        collateral_for_withdraw(supply, value, burned, max) is Some,
        collateral_for_withdraw(supply, value, held, max) is Some,
        collateral_for_withdraw(
            supply - burned,
            value - collateral_for_withdraw(supply, value, burned, max).unwrap(),
            held,
            max,
        ) is Some,
    ensures
        collateral_for_withdraw(
            supply - burned,
            value - collateral_for_withdraw(supply, value, burned, max).unwrap(),
            held,
            max,
        ).unwrap() >= collateral_for_withdraw(supply, value, held, max).unwrap(),
{
    let c = collateral_for_withdraw(supply, value, burned, max).unwrap();
    let s2 = supply - burned;
    let v2 = value - c;
    lemma_mul_nonnegative(burned, value);
    lemma_div_times_le(burned * value, supply);
    let before = held * value / supply;
    lemma_mul_nonnegative(held, value);
    lemma_div_times_le(held * value, supply);
    assert(before * s2 <= held * v2) by (nonlinear_arith)
        requires
            before * supply <= held * value,
            c * supply <= burned * value,
            s2 == supply - burned,
            v2 == value - c,
            supply > 0,
            s2 > 0,
            held >= 0,
            before >= 0,
            value >= 0,
    ;
    assert(v2 >= 0) by (nonlinear_arith)
        requires
            c * supply <= burned * value,
            burned < supply,
            supply > 0,
            value >= 0,
            c >= 0,
            v2 == value - c,
    ;
    lemma_mul_nonnegative(held, v2);
    lemma_div_is_largest(held * v2, s2, before);
}

/// What is left to flush is `deposited - withdrawn - flushed` when that is
/// not negative, and nothing otherwise.
pub proof fn lemma_flushable_value(deposited: int, withdrawn: int, flushed: int)
    requires
        withdrawn >= 0,
        flushed >= 0,
    ensures
        withdrawn + flushed <= deposited ==> flushable(deposited, withdrawn, flushed) == deposited
            - withdrawn - flushed,
        withdrawn + flushed > deposited ==> flushable(deposited, withdrawn, flushed) == 0,
{
}

/// The pool value `deposited - withdrawn - flushed + returned` is defined
/// exactly when nothing more was withdrawn than deposited, nothing more
/// flushed than remained, and the result fits.
pub proof fn lemma_pool_value_defined(deposited: int, withdrawn: int, flushed: int, returned: int, max: int)
    ensures
        value_after_flows(deposited, withdrawn, flushed, returned, max) is Some <==> withdrawn
            <= deposited && flushed <= deposited - withdrawn && deposited - withdrawn - flushed
            + returned <= max,
        value_after_flows(deposited, withdrawn, flushed, returned, max) is Some ==> value_after_flows(
            deposited,
            withdrawn,
            flushed,
            returned,
            max,
        ).unwrap() == deposited - withdrawn - flushed + returned,
{
}

/// LP pricing over all inputs: an empty pool mints 1:1, a pool with value
/// but no LP or LP but no value mints nothing (refuses), and otherwise the
/// deposit gets `deposit * supply / value` when that fits. Redemption pays
/// `lp * value / supply` when there is LP and the result fits.
pub proof fn lemma_pricing_rules(supply: int, value: int, amount: int, max: int)
    requires
        supply >= 0,
        value >= 0,
    ensures
        supply == 0 && value == 0 ==> lp_for_deposit(supply, value, amount, max) == Some(amount),
        supply > 0 && value > 0 && amount * supply / value <= max ==> lp_for_deposit(
            supply,
            value,
            amount,
            max,
        ) == Some(amount * supply / value),
        supply > 0 && value > 0 && amount * supply / value > max ==> lp_for_deposit(
            supply,
            value,
            amount,
            max,
        ) is None,
        supply == 0 ==> collateral_for_withdraw(supply, value, amount, max) is None,
        supply > 0 && amount * value / supply <= max ==> collateral_for_withdraw(
            supply,
            value,
            amount,
            max,
        ) == Some(amount * value / supply),
        supply > 0 && amount * value / supply > max ==> collateral_for_withdraw(
            supply,
            value,
            amount,
            max,
        ) is None,
{
}

} // verus!
