use crate::bonding_curve::{
    buy_fits, buy_outcome, follows, sell_fits, sell_outcome, withdraw_outcome, BondingCurve,
    TradeQuote, WithdrawQuote, FEE_DENOMINATOR,
};
use crate::errors::ErrorCode;
use crate::tokenomics::{
    calculate_sol_amount, calculate_token_amount, f, f_reverse, lemma_cumulative_tokens_monotone,
    lemma_cumulative_value_monotone,
};
use vstd::prelude::*;

verus! {

/// Buys tokens for `sol_amount` of value.
///
/// When the offer would buy more than is left, the buy takes all that is left
/// and charges the full curve's value plus one; the buyer's minimum is then
/// rescaled by `charged / offered`. The fee is `buy_fee_bps` basis points of
/// the value charged, rounded down, and is paid on top of it.
pub fn buy(curve: &mut BondingCurve, sol_amount: u64, min_token_amount: u64, buy_fee_bps: u16) -> (r: Result<TradeQuote, ErrorCode>)
    requires
        old(curve).wf(),
        buy_fee_bps <= FEE_DENOMINATOR,
        buy_fits(*old(curve), sol_amount, min_token_amount),
    ensures
        final(curve).wf(),
        follows(buy_outcome(*old(curve), sol_amount, min_token_amount, buy_fee_bps), *old(curve), *final(curve), r),
{
    if curve.reserve_token == 0 {
        return Err(ErrorCode::BondingCurveCompleted);
    }
    if sol_amount == 0 {
        return Err(ErrorCode::ZeroAmount);
    }
    let circulating_supply: u64 = curve.token_threshold - curve.reserve_token;
    let mut token_amount: u64 = calculate_token_amount(sol_amount, circulating_supply, curve.curve_a);
    let mut sol_in: u64 = sol_amount;
    let mut min_tokens: u128 = min_token_amount as u128;
    if token_amount > curve.reserve_token {
        token_amount = curve.reserve_token;
        let full: u128 = f_reverse(curve.token_threshold, curve.curve_a);
        let charged: u64 = (full + 1) as u64;
        assert((charged as int) * (min_token_amount as int) <= u128::MAX) by (nonlinear_arith)
            requires
                charged <= u64::MAX,
                min_token_amount <= u64::MAX,
        ;
        min_tokens = (charged as u128) * (min_token_amount as u128) / (sol_amount as u128);
        sol_in = charged;
    }
    if (token_amount as u128) < min_tokens {
        return Err(ErrorCode::LessThanMinTokenAmount);
    }
    assert((sol_in as int) * (buy_fee_bps as int) / FEE_DENOMINATOR as int <= sol_in) by (nonlinear_arith)
        requires
            buy_fee_bps <= FEE_DENOMINATOR,
    ;
    let fee_amount: u64 = ((sol_in as u128) * (buy_fee_bps as u128) / FEE_DENOMINATOR) as u64;
    curve.reserve_token = curve.reserve_token - token_amount;
    curve.reserve_sol = curve.reserve_sol + sol_in;
    Ok(
        TradeQuote {
            sol_amount: sol_in,
            token_amount,
            fee_amount,
            reserve_sol: curve.reserve_sol,
            reserve_token: curve.reserve_token,
        },
    )
}

/// Sells `token_amount` tokens back to the pool.
///
/// The payout is the curve's quote less one unit (never below zero), so that
/// rounding can never make a round trip profitable. The fee is `sell_fee_bps`
/// basis points of that payout, rounded down, drawn from the seller separately.
pub fn sell(curve: &mut BondingCurve, token_amount: u64, min_sol_amount: u64, sell_fee_bps: u16) -> (r: Result<TradeQuote, ErrorCode>)
    requires
        old(curve).wf(),
        sell_fee_bps <= FEE_DENOMINATOR,
        sell_fits(*old(curve), token_amount, min_sol_amount),
    ensures
        final(curve).wf(),
        follows(sell_outcome(*old(curve), token_amount, min_sol_amount, sell_fee_bps), *old(curve), *final(curve), r),
{
    if curve.reserve_token == 0 {
        return Err(ErrorCode::BondingCurveCompleted);
    }
    if token_amount == 0 {
        return Err(ErrorCode::ZeroAmount);
    }
    let circulating_supply: u64 = curve.token_threshold - curve.reserve_token;
    let mut sol_amount: u64 = calculate_sol_amount(token_amount, circulating_supply, curve.curve_a);
    if sol_amount > 0 {
        sol_amount = sol_amount - 1;
    }
    if sol_amount < min_sol_amount {
        return Err(ErrorCode::LessThanMinSolAmount);
    }
    assert((sol_amount as int) * (sell_fee_bps as int) / FEE_DENOMINATOR as int <= sol_amount) by (nonlinear_arith)
        requires
            sell_fee_bps <= FEE_DENOMINATOR,
    ;
    let fee_amount: u64 = ((sol_amount as u128) * (sell_fee_bps as u128) / FEE_DENOMINATOR) as u64;
    curve.reserve_sol = curve.reserve_sol - sol_amount;
    curve.reserve_token = curve.reserve_token + token_amount;
    Ok(
        TradeQuote {
            sol_amount,
            token_amount,
            fee_amount,
            reserve_sol: curve.reserve_sol,
            reserve_token: curve.reserve_token,
        },
    )
}

/// Hands a completed curve's proceeds to the migration recipient: all the
/// value it holds and the `vault_amount` tokens left in its token account.
///
/// Refused while tokens are for sale, and once both the value and the token
/// account are drained, so a second withdrawal fails instead of moving zeros.
pub fn withdraw(curve: &mut BondingCurve, vault_amount: u64) -> (r: Result<WithdrawQuote, ErrorCode>)
    requires
        old(curve).wf(),
    ensures
        final(curve).wf(),
        follows(withdraw_outcome(*old(curve), vault_amount), *old(curve), *final(curve), r),
{
    if curve.reserve_token != 0 {
        return Err(ErrorCode::BondingCurveNotCompleted);
    }
    if curve.reserve_sol == 0 && vault_amount == 0 {
        return Err(ErrorCode::AlreadyWithdrawn);
    }
    let quote = WithdrawQuote { sol_amount: curve.reserve_sol, token_amount: vault_amount };
    curve.reserve_token = 0;
    curve.reserve_sol = 0;
    Ok(quote)
}

/// Whether `buy` can be carried out on these amounts within 64-bit
/// arithmetic: `true` exactly when its range condition holds.
pub fn buy_in_range(curve: &BondingCurve, sol_amount: u64, min_token_amount: u64) -> (r: bool)
    requires
        curve.wf(),
    ensures
        r == buy_fits(*curve, sol_amount, min_token_amount),
{
    if curve.reserve_token == 0 || sol_amount == 0 {
        return true;
    }
    let circulating_supply: u64 = curve.token_threshold - curve.reserve_token;
    let reserve: u128 = f_reverse(circulating_supply, curve.curve_a);
    if reserve > (u64::MAX - sol_amount) as u128 {
        return false;
    }
    let advanced: u64 = (reserve + sol_amount as u128) as u64;
    proof {
        lemma_cumulative_tokens_monotone(reserve as nat, advanced as nat, curve.curve_a as nat);
    }
    let quote: u128 = f(advanced, curve.curve_a) - f(reserve as u64, curve.curve_a);
    if quote > u64::MAX as u128 {
        return false;
    }
    if quote <= curve.reserve_token as u128 {
        return (curve.reserve_sol as u128) + (sol_amount as u128) <= u64::MAX as u128
            || quote < min_token_amount as u128;
    }
    let full: u128 = f_reverse(curve.token_threshold, curve.curve_a);
    if full >= u64::MAX as u128 {
        return false;
    }
    assert(((full + 1) as int) * (min_token_amount as int) <= u128::MAX) by (nonlinear_arith)
        requires
            full + 1 <= u64::MAX,
            min_token_amount <= u64::MAX,
    ;
    let min_tokens: u128 = (full + 1) * (min_token_amount as u128) / (sol_amount as u128);
    (curve.reserve_sol as u128) + full + 1 <= u64::MAX as u128 || (curve.reserve_token as u128) < min_tokens
}

/// Whether `sell` can be carried out on these amounts: the tokens circulate,
/// and the arithmetic stays within 64 bits. `true` exactly when its range
/// condition holds.
pub fn sell_in_range(curve: &BondingCurve, token_amount: u64, min_sol_amount: u64) -> (r: bool)
    requires
        curve.wf(),
    ensures
        r == sell_fits(*curve, token_amount, min_sol_amount),
{
    if curve.reserve_token == 0 || token_amount == 0 {
        return true;
    }
    let circulating_supply: u64 = curve.token_threshold - curve.reserve_token;
    if token_amount > circulating_supply {
        return false;
    }
    let after: u64 = circulating_supply - token_amount;
    let high: u128 = f_reverse(circulating_supply, curve.curve_a);
    let low: u128 = f_reverse(after, curve.curve_a);
    proof {
        lemma_cumulative_value_monotone(after as nat, circulating_supply as nat, curve.curve_a as nat);
    }
    let quote: u128 = high - low;
    if quote > u64::MAX as u128 {
        return false;
    }
    let payout: u128 = if quote > 0 {
        quote - 1
    } else {
        0
    };
    payout < min_sol_amount as u128 || payout <= curve.reserve_sol as u128
}

} // verus!
