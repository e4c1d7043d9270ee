use crate::errors::ErrorCode;
use crate::tokenomics::{
    cumulative_tokens, cumulative_value, lemma_cumulative_tokens_monotone,
    lemma_cumulative_value_monotone, lemma_value_of_tokens_bound, quote_tokens_for_value,
    quote_value_for_tokens,
};
use vstd::prelude::*;

verus! {

/// Denominator of fee rates given in basis points.
pub const FEE_DENOMINATOR: u128 = 10_000;

/// The reserve of one tradable token: value collected, tokens left for sale,
/// and the two constants that fix its curve.
///
/// The lifecycle is derived, never stored: the curve is active while
/// `reserve_token > 0` and completed once it reaches `0`.
#[derive(Clone, Copy, Debug, PartialEq, Eq, Structural)]
pub struct BondingCurve {
    pub reserve_sol: u64,
    pub reserve_token: u64,
    pub token_threshold: u64,
    pub curve_a: u64,
}

/// What one buy or sell moves, and the reserves it leaves behind.
#[derive(Clone, Copy, Debug, PartialEq, Eq, Structural)]
pub struct TradeQuote {
    /// Value paid into the pool (buy) or out of it (sell).
    pub sol_amount: u64,
    /// Tokens delivered to the buyer or taken from the seller.
    pub token_amount: u64,
    /// Fee drawn from the trader for the fee recipient, on top of `sol_amount`.
    pub fee_amount: u64,
    pub reserve_sol: u64,
    pub reserve_token: u64,
}

/// What one withdrawal hands to the migration recipient.
#[derive(Clone, Copy, Debug, PartialEq, Eq, Structural)]
pub struct WithdrawQuote {
    pub sol_amount: u64,
    pub token_amount: u64,
}

impl BondingCurve {
    /// Tokens for sale never exceed the allocation, and the curve is defined.
    pub open spec fn wf(&self) -> bool {
        &&& self.reserve_token <= self.token_threshold
        &&& self.curve_a > 0
    }

    /// Tokens already sold into circulation.
    pub open spec fn circulating(&self) -> int {
        self.token_threshold - self.reserve_token
    }

    /// A fresh curve: nothing collected, the whole allocation for sale.
    pub fn new(token_threshold: u64, curve_a: u64) -> (r: BondingCurve)
        requires
            curve_a > 0,
        ensures
            r.wf(),
            r == (BondingCurve { reserve_sol: 0, reserve_token: token_threshold, token_threshold, curve_a }),
    {
        BondingCurve { reserve_sol: 0, reserve_token: token_threshold, token_threshold, curve_a }
    }

    /// Whether every token of the allocation is sold.
    pub fn is_completed(&self) -> (r: bool)
        ensures
            r == (self.reserve_token == 0),
    {
        self.reserve_token == 0
    }

    /// Tokens already sold into circulation.
    pub fn circulating_supply(&self) -> (r: u64)
        requires
            self.wf(),
        ensures
            r == self.circulating(),
    {
        self.token_threshold - self.reserve_token
    }
}

/// Fee of `bps` basis points on `amount`, rounded down.
pub open spec fn fee_of(amount: int, bps: int) -> int {
    amount * bps / FEE_DENOMINATOR as int
}

/// Tokens the curve quotes for `sol_amount` at the current circulation.
pub open spec fn buy_quote(c: BondingCurve, sol_amount: int) -> int {
    quote_tokens_for_value(sol_amount, c.circulating(), c.curve_a as int)
}

/// Whether the quote exceeds what is left for sale.
pub open spec fn buy_is_clamped(c: BondingCurve, sol_amount: int) -> bool {
    buy_quote(c, sol_amount) > c.reserve_token
}

/// Tokens a buy delivers: the quote, or all that is left.
pub open spec fn buy_token_out(c: BondingCurve, sol_amount: int) -> int {
    if buy_is_clamped(c, sol_amount) {
        c.reserve_token as int
    } else {
        buy_quote(c, sol_amount)
    }
}

/// Value a buy charges: the offer, or the full curve's value plus one.
pub open spec fn buy_sol_in(c: BondingCurve, sol_amount: int) -> int {
    if buy_is_clamped(c, sol_amount) {
        cumulative_value(c.token_threshold as int, c.curve_a as int) + 1
    } else {
        sol_amount
    }
}

/// The buyer's minimum, rescaled by `charged / offered` when the buy is clamped.
pub open spec fn buy_min_tokens(c: BondingCurve, sol_amount: int, min_token_amount: int) -> int {
    if buy_is_clamped(c, sol_amount) {
        buy_sol_in(c, sol_amount) * min_token_amount / sol_amount
    } else {
        min_token_amount
    }
}

/// The buy's arithmetic stays within 64 bits wherever it is carried out.
pub open spec fn buy_fits(c: BondingCurve, sol_amount: u64, min_token_amount: u64) -> bool {
    c.reserve_token != 0 && sol_amount != 0 ==> {
        &&& cumulative_value(c.circulating(), c.curve_a as int) + sol_amount <= u64::MAX
        &&& buy_quote(c, sol_amount as int) <= u64::MAX
        &&& buy_sol_in(c, sol_amount as int) <= u64::MAX
        &&& buy_token_out(c, sol_amount as int) >= buy_min_tokens(c, sol_amount as int, min_token_amount as int)
            ==> c.reserve_sol + buy_sol_in(c, sol_amount as int) <= u64::MAX
    }
}

/// A buy of `sol_amount` with slippage floor `min_token_amount`: the reserve it
/// leaves and what it moves, or why it is refused.
pub open spec fn buy_outcome(c: BondingCurve, sol_amount: u64, min_token_amount: u64, buy_fee_bps: u16) -> Result<
    (BondingCurve, TradeQuote),
    ErrorCode,
> {
    let sol_in = buy_sol_in(c, sol_amount as int);
    let token_out = buy_token_out(c, sol_amount as int);
    if c.reserve_token == 0 {
        Err(ErrorCode::BondingCurveCompleted)
    } else if sol_amount == 0 {
        Err(ErrorCode::ZeroAmount)
    } else if token_out < buy_min_tokens(c, sol_amount as int, min_token_amount as int) {
        Err(ErrorCode::LessThanMinTokenAmount)
    } else {
        let next = BondingCurve {
            reserve_sol: (c.reserve_sol + sol_in) as u64,
            reserve_token: (c.reserve_token - token_out) as u64,
            ..c
        };
        Ok(
            (
                next,
                TradeQuote {
                    sol_amount: sol_in as u64,
                    token_amount: token_out as u64,
                    fee_amount: fee_of(sol_in, buy_fee_bps as int) as u64,
                    reserve_sol: next.reserve_sol,
                    reserve_token: next.reserve_token,
                },
            ),
        )
    }
}

/// Value a sale pays the seller: the quote less one unit, never below zero.
pub open spec fn sell_payout(quote: int) -> int {
    if quote > 0 {
        quote - 1
    } else {
        0
    }
}

/// Value a sale of `token_amount` pays out at the current circulation.
pub open spec fn sell_sol_out(c: BondingCurve, token_amount: int) -> int {
    sell_payout(quote_value_for_tokens(token_amount, c.circulating(), c.curve_a as int))
}

/// The sale takes back no more than circulates, and its arithmetic stays
/// within 64 bits wherever it is carried out.
pub open spec fn sell_fits(c: BondingCurve, token_amount: u64, min_sol_amount: u64) -> bool {
    c.reserve_token != 0 && token_amount != 0 ==> {
        &&& token_amount <= c.circulating()
        &&& quote_value_for_tokens(token_amount as int, c.circulating(), c.curve_a as int) <= u64::MAX
        &&& sell_sol_out(c, token_amount as int) >= min_sol_amount
            ==> sell_sol_out(c, token_amount as int) <= c.reserve_sol
    }
}

/// A sale of `token_amount` with slippage floor `min_sol_amount`: the reserve
/// it leaves and what it moves, or why it is refused.
pub open spec fn sell_outcome(c: BondingCurve, token_amount: u64, min_sol_amount: u64, sell_fee_bps: u16) -> Result<
    (BondingCurve, TradeQuote),
    ErrorCode,
> {
    let sol_out = sell_sol_out(c, token_amount as int);
    if c.reserve_token == 0 {
        Err(ErrorCode::BondingCurveCompleted)
    } else if token_amount == 0 {
        Err(ErrorCode::ZeroAmount)
    } else if sol_out < min_sol_amount {
        Err(ErrorCode::LessThanMinSolAmount)
    } else {
        let next = BondingCurve {
            reserve_sol: (c.reserve_sol - sol_out) as u64,
            reserve_token: (c.reserve_token + token_amount) as u64,
            ..c
        };
        Ok(
            (
                next,
                TradeQuote {
                    sol_amount: sol_out as u64,
                    token_amount,
                    fee_amount: fee_of(sol_out, sell_fee_bps as int) as u64,
                    reserve_sol: next.reserve_sol,
                    reserve_token: next.reserve_token,
                },
            ),
        )
    }
}

/// A withdrawal while the pool's token account holds `vault_amount`.
pub open spec fn withdraw_outcome(c: BondingCurve, vault_amount: u64) -> Result<
    (BondingCurve, WithdrawQuote),
    ErrorCode,
> {
    if c.reserve_token != 0 {
        Err(ErrorCode::BondingCurveNotCompleted)
    } else if c.reserve_sol == 0 && vault_amount == 0 {
        Err(ErrorCode::AlreadyWithdrawn)
    } else {
        Ok(
            (
                BondingCurve { reserve_sol: 0, reserve_token: 0, ..c },
                WithdrawQuote { sol_amount: c.reserve_sol, token_amount: vault_amount },
            ),
        )
    }
}

/// `after` and `r` are what `outcome` prescribes; a refusal leaves `before`
/// as it was.
pub open spec fn follows<Q>(
    outcome: Result<(BondingCurve, Q), ErrorCode>,
    before: BondingCurve,
    after: BondingCurve,
    r: Result<Q, ErrorCode>,
) -> bool {
    match outcome {
        Ok((next, quote)) => after == next && r == Ok::<Q, ErrorCode>(quote),
        Err(e) => after == before && r == Err::<Q, ErrorCode>(e),
    }
}

/// One trade request against a curve.
#[derive(Clone, Copy, Debug, PartialEq, Eq, Structural)]
pub enum TradeRequest {
    Buy { sol_amount: u64, min_token_amount: u64, fee_bps: u16 },
    Sell { token_amount: u64, min_sol_amount: u64, fee_bps: u16 },
}

/// What `buy` or `sell` asks of its caller for this request.
pub open spec fn trade_admissible(c: BondingCurve, t: TradeRequest) -> bool {
    match t {
        TradeRequest::Buy { sol_amount, min_token_amount, fee_bps } => fee_bps <= FEE_DENOMINATOR
            && buy_fits(c, sol_amount, min_token_amount),
        TradeRequest::Sell { token_amount, min_sol_amount, fee_bps } => fee_bps <= FEE_DENOMINATOR
            && sell_fits(c, token_amount, min_sol_amount),
    }
}

/// The curve after one request: the new reserve, or the old one on refusal.
pub open spec fn after_trade(c: BondingCurve, t: TradeRequest) -> BondingCurve {
    let outcome = match t {
        TradeRequest::Buy { sol_amount, min_token_amount, fee_bps } => buy_outcome(
            c,
            sol_amount,
            min_token_amount,
            fee_bps,
        ),
        TradeRequest::Sell { token_amount, min_sol_amount, fee_bps } => sell_outcome(
            c,
            token_amount,
            min_sol_amount,
            fee_bps,
        ),
    };
    match outcome {
        Ok((next, _)) => next,
        Err(_) => c,
    }
}

/// Every request of `ts`, in order, is admissible where it is made.
pub open spec fn trades_admissible(c: BondingCurve, ts: Seq<TradeRequest>) -> bool
    decreases ts.len(),
{
    ts.len() == 0 || (trade_admissible(c, ts[0]) && trades_admissible(after_trade(c, ts[0]), ts.drop_first()))
}

/// The curve after the requests of `ts`, in order.
pub open spec fn after_trades(c: BondingCurve, ts: Seq<TradeRequest>) -> BondingCurve
    decreases ts.len(),
{
    if ts.len() == 0 {
        c
    } else {
        after_trades(after_trade(c, ts[0]), ts.drop_first())
    }
}

proof fn lemma_trade_preserves_wf(c: BondingCurve, t: TradeRequest)
    requires
        c.wf(),
        trade_admissible(c, t),
    ensures
        after_trade(c, t).wf(),
{
    match t {
        TradeRequest::Buy { sol_amount, .. } => {
            let reserve = cumulative_value(c.circulating(), c.curve_a as int);
            lemma_cumulative_value_monotone(0, c.circulating() as nat, c.curve_a as nat);
            lemma_cumulative_tokens_monotone(reserve as nat, (reserve + sol_amount) as nat, c.curve_a as nat);
        },
        TradeRequest::Sell { .. } => {},
    }
}

/// However many buys and sells are made, each as its function admits, the
/// tokens for sale stay within `0..=token_threshold` (and the value held, an
/// unsigned quantity, stays non-negative).
pub proof fn lemma_trades_preserve_wf(c: BondingCurve, ts: Seq<TradeRequest>)
    requires
        c.wf(),
        trades_admissible(c, ts),
    ensures
        after_trades(c, ts).wf(),
    decreases ts.len(),
{
    if ts.len() > 0 {
        lemma_trade_preserves_wf(c, ts[0]);
        lemma_trades_preserve_wf(after_trade(c, ts[0]), ts.drop_first());
    }
}

/// A buy whose quote exceeds the tokens left delivers exactly those tokens,
/// charges exactly the full curve's value plus one, and completes the curve.
pub proof fn lemma_buy_clamps_at_threshold(c: BondingCurve, sol_amount: u64, min_token_amount: u64, buy_fee_bps: u16)
    requires
        c.wf(),
        buy_fits(c, sol_amount, min_token_amount),
        buy_quote(c, sol_amount as int) > c.reserve_token,
        buy_outcome(c, sol_amount, min_token_amount, buy_fee_bps) is Ok,
    ensures
        ({
            let (next, quote) = buy_outcome(c, sol_amount, min_token_amount, buy_fee_bps)->Ok_0;
            &&& quote.token_amount == c.reserve_token
            &&& quote.sol_amount == cumulative_value(c.token_threshold as int, c.curve_a as int) + 1
            &&& next.reserve_token == 0
            &&& next.reserve_sol == c.reserve_sol + quote.sol_amount
        }),
{
    lemma_cumulative_value_monotone(0, c.token_threshold as nat, c.curve_a as nat);
}

/// On the quotes: buying with `value_in` and at once selling back the tokens
/// bought pays out at most `value_in`, wherever the circulation lies exactly on
/// the curve.
proof fn lemma_quote_round_trip(value_in: nat, circulating_supply: nat, curve_a: nat)
    requires
        curve_a > 0,
        cumulative_tokens(cumulative_value(circulating_supply as int, curve_a as int), curve_a as int)
            == circulating_supply,
    ensures
        ({
            let bought = quote_tokens_for_value(value_in as int, circulating_supply as int, curve_a as int);
            sell_payout(quote_value_for_tokens(bought, circulating_supply + bought, curve_a as int))
                <= value_in
        }),
{
    let a = curve_a as int;
    let reserve = cumulative_value(circulating_supply as int, a);
    lemma_cumulative_value_monotone(0, circulating_supply, curve_a);
    let bought = quote_tokens_for_value(value_in as int, circulating_supply as int, a);
    assert(circulating_supply + bought == cumulative_tokens(reserve + value_in, a));
    lemma_value_of_tokens_bound((reserve + value_in) as nat, curve_a);
}

/// Buying and at once selling back exactly the tokens delivered pays out at
/// most the value the buy charged, wherever the circulation lies exactly on
/// the curve (as it does when nothing circulates).
pub proof fn lemma_round_trip_bound(c: BondingCurve, sol_amount: u64, min_token_amount: u64, buy_fee_bps: u16)
    requires
        c.wf(),
        cumulative_tokens(cumulative_value(c.circulating(), c.curve_a as int), c.curve_a as int)
            == c.circulating(),
        buy_fits(c, sol_amount, min_token_amount),
        buy_outcome(c, sol_amount, min_token_amount, buy_fee_bps) is Ok,
    ensures
        ({
            let (next, quote) = buy_outcome(c, sol_amount, min_token_amount, buy_fee_bps)->Ok_0;
            sell_sol_out(next, quote.token_amount as int) <= quote.sol_amount
        }),
{
    let a = c.curve_a as int;
    let circ = c.circulating();
    lemma_cumulative_value_monotone(0, circ as nat, c.curve_a as nat);
    lemma_cumulative_value_monotone(circ as nat, c.token_threshold as nat, c.curve_a as nat);
    if buy_is_clamped(c, sol_amount as int) {
        assert(circ + c.reserve_token == c.token_threshold);
    } else {
        let reserve = cumulative_value(circ, a);
        lemma_cumulative_tokens_monotone(reserve as nat, (reserve + sol_amount) as nat, c.curve_a as nat);
        lemma_quote_round_trip(sol_amount as nat, circ as nat, c.curve_a as nat);
    }
}

/// Once a withdrawal has drained a completed curve and its token account, a
/// second one is refused with `AlreadyWithdrawn` (and so changes nothing).
pub proof fn lemma_withdraw_twice_fails(c: BondingCurve, vault_amount: u64)
    requires
        withdraw_outcome(c, vault_amount) is Ok,
    ensures
        ({
            let (next, quote) = withdraw_outcome(c, vault_amount)->Ok_0;
            &&& next.reserve_sol == 0
            &&& next.reserve_token == 0
            &&& withdraw_outcome(next, (vault_amount - quote.token_amount) as u64)
                == Err::<(BondingCurve, WithdrawQuote), ErrorCode>(ErrorCode::AlreadyWithdrawn)
        }),
{
}

} // verus!
