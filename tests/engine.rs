use meme_pad::bonding_curve::{BondingCurve, TradeQuote, WithdrawQuote};
use meme_pad::errors::ErrorCode;
use meme_pad::instructions::{buy, buy_in_range, sell, sell_in_range, withdraw};
use meme_pad::tokenomics::{calculate_token_amount, f_reverse};

const THRESHOLD_SOLS: u64 = 84_999_999_999;
const THRESHOLD_SUPPLY: u64 = 793_099_999_845_341;
const CURVE_A: u64 = 2_720_310_557;

fn fresh() -> BondingCurve {
    BondingCurve::new(THRESHOLD_SUPPLY, CURVE_A)
}

#[test]
fn new_curve_is_active_and_empty() {
    let c = fresh();
    assert_eq!(c.reserve_sol, 0);
    assert_eq!(c.reserve_token, THRESHOLD_SUPPLY);
    assert_eq!(c.circulating_supply(), 0);
    assert!(!c.is_completed());
}

#[test]
fn buy_from_empty_curve() {
    let mut c = fresh();
    let q = buy(&mut c, 4, 0, 100).unwrap();
    assert_eq!(
        q,
        TradeQuote {
            sol_amount: 4,
            token_amount: 2 * CURVE_A,
            fee_amount: 0,
            reserve_sol: 4,
            reserve_token: THRESHOLD_SUPPLY - 2 * CURVE_A,
        }
    );
    assert_eq!(c.reserve_sol, 4);
    assert_eq!(c.reserve_token, THRESHOLD_SUPPLY - 2 * CURVE_A);
    assert_eq!(c.circulating_supply(), 2 * CURVE_A);
}

#[test]
fn buy_fee_is_basis_points_rounded_down() {
    let mut c = fresh();
    let q = buy(&mut c, 1_000_000, 0, 100).unwrap();
    assert_eq!(q.token_amount, 2_720_310_557_000);
    assert_eq!(q.fee_amount, 10_000);
    let mut d = fresh();
    assert_eq!(buy(&mut d, 199, 0, 50).unwrap().fee_amount, 0);
    let mut e = fresh();
    assert_eq!(buy(&mut e, 1_000_000, 0, 10_000).unwrap().fee_amount, 1_000_000);
}

#[test]
fn buy_clamps_at_threshold() {
    let mut c = fresh();
    let q = buy(&mut c, 100_000_000_000, 700_000_000_000_000, 100).unwrap();
    assert_eq!(q.token_amount, THRESHOLD_SUPPLY);
    assert_eq!(q.sol_amount, f_reverse(THRESHOLD_SUPPLY, CURVE_A) as u64 + 1);
    assert_eq!(q.sol_amount, 85_000_000_000);
    assert_eq!(q.fee_amount, 850_000_000);
    assert_eq!(c.reserve_token, 0);
    assert_eq!(c.reserve_sol, 85_000_000_000);
    assert!(c.is_completed());
}

#[test]
fn buy_clamp_rescales_the_minimum() {
    // 10^15 scaled by 85e9 / 100e9 is 8.5e14, more than the whole allocation.
    let mut c = fresh();
    let before = c;
    assert_eq!(
        buy(&mut c, 100_000_000_000, 1_000_000_000_000_000, 100),
        Err(ErrorCode::LessThanMinTokenAmount)
    );
    assert_eq!(c, before);
    // A minimum of the whole allocation scales to 0.85 of it and passes.
    let mut d = fresh();
    assert!(buy(&mut d, 100_000_000_000, THRESHOLD_SUPPLY, 100).is_ok());
}

#[test]
fn buy_refusals() {
    let mut c = fresh();
    assert_eq!(buy(&mut c, 0, 0, 100), Err(ErrorCode::ZeroAmount));
    assert_eq!(buy(&mut c, 4, 2 * CURVE_A + 1, 100), Err(ErrorCode::LessThanMinTokenAmount));
    assert_eq!(c, fresh());
    assert!(buy(&mut c, 4, 2 * CURVE_A, 100).is_ok());
    let mut done = BondingCurve { reserve_sol: 7, reserve_token: 0, token_threshold: 10, curve_a: 3 };
    assert_eq!(buy(&mut done, 5, 0, 100), Err(ErrorCode::BondingCurveCompleted));
    assert_eq!(buy(&mut done, 0, 0, 100), Err(ErrorCode::BondingCurveCompleted));
}

#[test]
fn sell_pays_quote_less_one() {
    let mut c = fresh();
    buy(&mut c, 4, 0, 0).unwrap();
    let q = sell(&mut c, 2 * CURVE_A, 0, 10_000).unwrap();
    assert_eq!(
        q,
        TradeQuote { sol_amount: 3, token_amount: 2 * CURVE_A, fee_amount: 3, reserve_sol: 1, reserve_token: THRESHOLD_SUPPLY }
    );
    assert_eq!(c.reserve_sol, 1);
    assert_eq!(c.reserve_token, THRESHOLD_SUPPLY);
}

#[test]
fn sell_of_worthless_amount_pays_nothing() {
    let mut c = fresh();
    buy(&mut c, 4, 0, 0).unwrap();
    let q = sell(&mut c, 1, 0, 100).unwrap();
    assert_eq!(q.sol_amount, 0);
    assert_eq!(q.fee_amount, 0);
    assert_eq!(c.reserve_sol, 4);
    assert_eq!(c.reserve_token, THRESHOLD_SUPPLY - 2 * CURVE_A + 1);
}

#[test]
fn sell_refusals() {
    let mut c = fresh();
    buy(&mut c, 4, 0, 0).unwrap();
    let before = c;
    assert_eq!(sell(&mut c, 0, 0, 100), Err(ErrorCode::ZeroAmount));
    assert_eq!(sell(&mut c, 2 * CURVE_A, 4, 100), Err(ErrorCode::LessThanMinSolAmount));
    assert_eq!(c, before);
    let mut done = BondingCurve { reserve_sol: 7, reserve_token: 0, token_threshold: 10, curve_a: 3 };
    assert_eq!(sell(&mut done, 5, 0, 100), Err(ErrorCode::BondingCurveCompleted));
}

#[test]
fn round_trip_never_profits() {
    for v in [1u64, 2, 3, 4, 5, 17, 1_000, 1_000_000, 123_456_789, 84_000_000_000] {
        let mut c = fresh();
        let bought = buy(&mut c, v, 0, 0).unwrap();
        let sold = sell(&mut c, bought.token_amount, 0, 0).unwrap();
        assert!(sold.sol_amount <= v, "value {}", v);
        assert_eq!(c.reserve_token, THRESHOLD_SUPPLY);
    }
}

#[test]
fn trades_keep_reserve_within_threshold() {
    let mut c = fresh();
    let steps: [(bool, u64); 8] = [
        (true, 4),
        (true, 1_000_000),
        (false, 1_000_000_000),
        (true, 10),
        (false, 1),
        (true, 50_000_000_000),
        (false, 100_000_000_000_000),
        (true, 100_000_000_000),
    ];
    for (is_buy, amount) in steps {
        let _ = if is_buy { buy(&mut c, amount, 0, 100) } else { sell(&mut c, amount, 0, 100) };
        assert!(c.reserve_token <= c.token_threshold);
    }
    assert!(c.is_completed());
}

#[test]
fn token_quote_matches_engine_below_threshold() {
    let mut c = fresh();
    buy(&mut c, 4, 0, 0).unwrap();
    let expected = calculate_token_amount(10, c.circulating_supply(), CURVE_A);
    assert_eq!(expected, 4_737_848_973);
    assert_eq!(buy(&mut c, 10, 0, 0).unwrap().token_amount, expected);
}

#[test]
fn withdraw_lifecycle() {
    let mut c = fresh();
    assert_eq!(withdraw(&mut c, THRESHOLD_SUPPLY), Err(ErrorCode::BondingCurveNotCompleted));
    buy(&mut c, 100_000_000_000, 0, 100).unwrap();
    let q = withdraw(&mut c, 5).unwrap();
    assert_eq!(q, WithdrawQuote { sol_amount: 85_000_000_000, token_amount: 5 });
    assert_eq!(c.reserve_sol, 0);
    assert_eq!(c.reserve_token, 0);
    let after_first = c;
    assert_eq!(withdraw(&mut c, 0), Err(ErrorCode::AlreadyWithdrawn));
    assert_eq!(c, after_first);
}

#[test]
fn withdraw_of_tokens_only() {
    let mut c = BondingCurve { reserve_sol: 0, reserve_token: 0, token_threshold: 10, curve_a: 3 };
    assert_eq!(withdraw(&mut c, 9), Ok(WithdrawQuote { sol_amount: 0, token_amount: 9 }));
    assert_eq!(withdraw(&mut c, 0), Err(ErrorCode::AlreadyWithdrawn));
}

#[test]
fn full_curve_value_matches_threshold() {
    assert_eq!(f_reverse(THRESHOLD_SUPPLY, CURVE_A) as u64, THRESHOLD_SOLS);
}

#[test]
fn error_messages() {
    assert_eq!(ErrorCode::AlreadyWithdrawn.message(), "Already withdrawn");
    assert_eq!(ErrorCode::ZeroAmount.message(), "Trade not allow for zero amount");
    assert_ne!(ErrorCode::LessThanMinSolAmount.message(), ErrorCode::LessThanMinTokenAmount.message());
}

#[test]
fn buy_range_check() {
    let c = fresh();
    assert!(buy_in_range(&c, 4, 0));
    assert!(buy_in_range(&c, u64::MAX, 0));
    // A tiny coefficient makes the value already collected exceed 64 bits.
    let steep = BondingCurve { reserve_sol: 0, reserve_token: 1, token_threshold: u64::MAX, curve_a: 1 };
    assert!(!buy_in_range(&steep, 1, 0));
    // Refusals that come first need no range.
    assert!(buy_in_range(&steep, 0, 0));
    let full = BondingCurve { reserve_sol: u64::MAX, reserve_token: 5, token_threshold: 10, curve_a: 1 };
    assert!(!buy_in_range(&full, 1, 0));
    assert!(buy_in_range(&full, 1, u64::MAX));
}

#[test]
fn sell_range_check() {
    let mut c = fresh();
    buy(&mut c, 4, 0, 0).unwrap();
    assert!(sell_in_range(&c, 2 * CURVE_A, 0));
    assert!(!sell_in_range(&c, 2 * CURVE_A + 1, 0));
    let drained = BondingCurve { reserve_sol: 0, ..c };
    assert!(!sell_in_range(&drained, 2 * CURVE_A, 0));
    assert!(sell_in_range(&drained, 2 * CURVE_A, 4));
    assert!(sell_in_range(&drained, 0, 0));
}
