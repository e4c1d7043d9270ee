use vstd::arithmetic::div_mod::{lemma_div_by_multiple, lemma_div_denominator, lemma_div_is_ordered, lemma_div_pos_is_pos};
use vstd::arithmetic::mul::lemma_mul_is_commutative;
use vstd::prelude::*;

verus! {

/// Fixed decimal precision of the curve: nine digits.
pub const SCALE: u128 = 1_000_000_000;

/// Whether `r` is the floor of the square root of `n`.
pub open spec fn is_floor_sqrt(n: int, r: int) -> bool {
    0 <= r && r * r <= n && n < (r + 1) * (r + 1)
}

/// `floor(sqrt(n))` for `n >= 0`.
pub open spec fn floor_sqrt(n: int) -> int {
    choose|r: int| #[trigger] is_floor_sqrt(n, r)
}

/// Tokens sold once the pool has collected `value`: `floor(a * sqrt(value))`,
/// evaluated through a square root scaled by `SCALE^2`.
pub open spec fn cumulative_tokens(value: int, curve_a: int) -> int {
    if value == 0 {
        0
    } else {
        curve_a * floor_sqrt(value * SCALE * SCALE) / SCALE as int
    }
}

/// Value collected once `supply` tokens are sold: `supply^2 * SCALE`, divided by
/// `curve_a^2`, then by `SCALE`.
pub open spec fn cumulative_value(supply: int, curve_a: int) -> int {
    if supply == 0 {
        0
    } else {
        (supply * supply * SCALE / (curve_a * curve_a)) / SCALE as int
    }
}

/// Tokens that `value_in` buys when `circulating_supply` tokens are already sold.
pub open spec fn quote_tokens_for_value(value_in: int, circulating_supply: int, curve_a: int) -> int {
    let reserve = cumulative_value(circulating_supply, curve_a);
    cumulative_tokens(reserve + value_in, curve_a) - cumulative_tokens(reserve, curve_a)
}

/// Value recovered by taking `tokens_in` tokens out of a circulation of
/// `circulating_supply`.
pub open spec fn quote_value_for_tokens(tokens_in: int, circulating_supply: int, curve_a: int) -> int {
    cumulative_value(circulating_supply, curve_a) - cumulative_value(circulating_supply - tokens_in, curve_a)
}

/// Value that buying `tokens_out` more tokens costs when `circulating_supply`
/// tokens are already sold.
pub open spec fn quote_value_to_buy(tokens_out: int, circulating_supply: int, curve_a: int) -> int {
    cumulative_value(circulating_supply + tokens_out, curve_a) - cumulative_value(circulating_supply, curve_a)
}

proof fn lemma_floor_sqrt_exists(n: int)
    requires
        0 <= n,
    ensures
        exists|r: int| #[trigger] is_floor_sqrt(n, r),
    decreases n,
{
    if n == 0 {
        assert(is_floor_sqrt(0, 0));
    } else {
        lemma_floor_sqrt_exists(n - 1);
        let r = choose|r: int| #[trigger] is_floor_sqrt(n - 1, r);
        if (r + 1) * (r + 1) <= n {
            assert(is_floor_sqrt(n, r + 1)) by (nonlinear_arith)
                requires
                    is_floor_sqrt(n - 1, r),
                    (r + 1) * (r + 1) <= n,
            ;
        } else {
            assert(is_floor_sqrt(n, r));
        }
    }
}

proof fn lemma_floor_sqrt_unique(n: int, r1: int, r2: int)
    requires
        is_floor_sqrt(n, r1),
        is_floor_sqrt(n, r2),
    ensures
        r1 == r2,
{
    assert(r1 <= r2) by (nonlinear_arith)
        requires
            is_floor_sqrt(n, r1),
            is_floor_sqrt(n, r2),
    ;
    assert(r2 <= r1) by (nonlinear_arith)
        requires
            is_floor_sqrt(n, r1),
            is_floor_sqrt(n, r2),
    ;
}

proof fn lemma_floor_sqrt(n: int)
    requires
        0 <= n,
    ensures
        is_floor_sqrt(n, floor_sqrt(n)),
{
    lemma_floor_sqrt_exists(n);
}

/// Every `r` with `r^2 <= n < (r + 1)^2` is `floor_sqrt(n)`.
proof fn lemma_floor_sqrt_is(n: int, r: int)
    requires
        is_floor_sqrt(n, r),
    ensures
        floor_sqrt(n) == r,
{
    lemma_floor_sqrt(n);
    lemma_floor_sqrt_unique(n, r, floor_sqrt(n));
}

/// `(x * k / y) / k == x / y`: scaling the numerator and then the quotient by
/// the same factor truncates exactly as the plain quotient does.
proof fn lemma_scaled_quotient(x: int, y: int, k: int)
    requires
        0 <= x,
        0 < y,
        0 < k,
    ensures
        (x * k / y) / k == x / y,
{
    assert(0 <= x * k) by (nonlinear_arith)
        requires
            0 <= x,
            0 < k,
    ;
    lemma_div_denominator(x * k, y, k);
    lemma_div_denominator(x * k, k, y);
    lemma_div_by_multiple(x, k);
    lemma_mul_is_commutative(k, y);
}

/// Integer square root, rounded down: `floor(sqrt(n))`.
///
/// A binary search over `[0, n]`; `0` and `1` are their own roots.
pub fn integer_sqrt(n: u128) -> (r: u64)
    ensures
        is_floor_sqrt(n as int, r as int),
        r == floor_sqrt(n as int),
{
    if n == 0 {
        proof {
            lemma_floor_sqrt_is(0, 0);
        }
        return 0;
    }
    if n == 1 {
        proof {
            lemma_floor_sqrt_is(1, 1);
        }
        return 1;
    }
    let mut low: u128 = 0;
    let mut high: u128 = n;
    assert(n < high * high) by (nonlinear_arith)
        requires
            n >= 2,
            high == n,
    ;
    while low < high
        invariant
            2 <= n,
            low <= high <= n,
            low == 0 || (low - 1) * (low - 1) < n,
            n < high * high,
        decreases high - low,
    {
        let mid: u128 = low + (high - low) / 2;
        // A candidate of 2^64 or more squares to more than any `u128`.
        let above: bool = if mid > 0xffff_ffff_ffff_ffff {
            assert(n < mid * mid) by (nonlinear_arith)
                requires
                    mid > 0xffff_ffff_ffff_ffffu128,
                    n <= 0xffff_ffff_ffff_ffff_ffff_ffff_ffff_ffffu128,
            ;
            true
        } else {
            assert(mid * mid <= 0xffff_ffff_ffff_fffe_0000_0000_0000_0001u128) by (nonlinear_arith)
                requires
                    mid <= 0xffff_ffff_ffff_ffffu128,
            ;
            let sq: u128 = mid * mid;
            if sq == n {
                assert(n < (mid + 1) * (mid + 1)) by (nonlinear_arith)
                    requires
                        mid * mid == n,
                        mid >= 0,
                ;
                proof {
                    lemma_floor_sqrt_is(n as int, mid as int);
                }
                return mid as u64;
            }
            sq > n
        };
        if above {
            high = mid;
        } else {
            low = mid + 1;
        }
    }
    assert(low >= 1) by (nonlinear_arith)
        requires
            n < low * low,
            n >= 2,
    ;
    assert(low - 1 <= 0xffff_ffff_ffff_ffff) by (nonlinear_arith)
        requires
            (low - 1) * (low - 1) < n,
            n <= 0xffff_ffff_ffff_ffff_ffff_ffff_ffff_ffffu128,
            low >= 1,
    ;
    proof {
        lemma_floor_sqrt_is(n as int, low - 1);
    }
    (low - 1) as u64
}

/// Forward curve: tokens sold once the pool holds `value`.
pub fn f(value: u64, curve_a: u64) -> (r: u128)
    ensures
        r == cumulative_tokens(value as int, curve_a as int),
{
    if value == 0 {
        return 0;
    }
    assert((value as int) * SCALE * SCALE <= 0xffff_ffff_ffff_ffff_ffff_ffff_ffff_ffff) by (nonlinear_arith)
        requires
            value <= 0xffff_ffff_ffff_ffffu64,
    ;
    let scaled: u128 = (value as u128) * SCALE * SCALE;
    let root: u64 = integer_sqrt(scaled);
    assert((root as int) * (root as int) < 0x4000_0000_0000_0000_0000_0000_0000_0000) by (nonlinear_arith)
        requires
            (root as int) * (root as int) <= scaled,
            scaled == (value as int) * SCALE * SCALE,
            value <= 0xffff_ffff_ffff_ffffu64,
    ;
    assert(root < 0x8000_0000_0000_0000u64) by (nonlinear_arith)
        requires
            (root as int) * (root as int) < 0x4000_0000_0000_0000_0000_0000_0000_0000,
    ;
    assert((curve_a as int) * (root as int) < 0x8000_0000_0000_0000_0000_0000_0000_0000) by (nonlinear_arith)
        requires
            root < 0x8000_0000_0000_0000u64,
            curve_a <= 0xffff_ffff_ffff_ffffu64,
    ;
    (curve_a as u128) * (root as u128) / SCALE
}

/// Inverse curve: value collected once `value` tokens are sold.
///
/// The scaled two-step quotient equals `floor(value^2 / curve_a^2)`, which is
/// what is computed, so no intermediate leaves 128 bits.
pub fn f_reverse(value: u64, curve_a: u64) -> (r: u128)
    requires
        curve_a > 0,
    ensures
        r == cumulative_value(value as int, curve_a as int),
{
    if value == 0 {
        return 0;
    }
    let v: u128 = value as u128;
    let a: u128 = curve_a as u128;
    assert(v * v <= 0xffff_ffff_ffff_fffe_0000_0000_0000_0001u128 && 0 < a * a <= 0xffff_ffff_ffff_fffe_0000_0000_0000_0001u128) by (nonlinear_arith)
        requires
            v <= 0xffff_ffff_ffff_ffffu128,
            0 < a <= 0xffff_ffff_ffff_ffffu128,
    ;
    let square: u128 = v * v;
    let a_square: u128 = a * a;
    proof {
        lemma_scaled_quotient(square as int, a_square as int, SCALE as int);
    }
    square / a_square
}

proof fn lemma_floor_sqrt_monotone(x: int, y: int)
    requires
        0 <= x <= y,
    ensures
        floor_sqrt(x) <= floor_sqrt(y),
{
    lemma_floor_sqrt(x);
    lemma_floor_sqrt(y);
    let rx = floor_sqrt(x);
    let ry = floor_sqrt(y);
    assert(rx <= ry) by (nonlinear_arith)
        requires
            is_floor_sqrt(x, rx),
            is_floor_sqrt(y, ry),
            x <= y,
    ;
}

proof fn lemma_cumulative_tokens_nonnegative(value: nat, curve_a: nat)
    ensures
        0 <= cumulative_tokens(value as int, curve_a as int),
{
    let (v, a) = (value as int, curve_a as int);
    if v != 0 {
        let n = v * SCALE * SCALE;
        assert(0 <= n) by (nonlinear_arith)
            requires
                0 <= v,
                n == v * SCALE * SCALE,
        ;
        lemma_floor_sqrt(n);
        assert(0 <= a * floor_sqrt(n)) by (nonlinear_arith)
            requires
                0 <= floor_sqrt(n),
                0 <= a,
        ;
        lemma_div_pos_is_pos(a * floor_sqrt(n), SCALE as int);
    }
}

proof fn lemma_cumulative_value_nonnegative(supply: nat, curve_a: nat)
    requires
        curve_a > 0,
    ensures
        0 <= cumulative_value(supply as int, curve_a as int),
{
    let (t, a) = (supply as int, curve_a as int);
    if t != 0 {
        assert(0 <= t * t * SCALE && 0 < a * a) by (nonlinear_arith)
            requires
                a > 0,
        ;
        lemma_div_pos_is_pos(t * t * SCALE, a * a);
        lemma_div_pos_is_pos(t * t * SCALE / (a * a), SCALE as int);
    }
}

/// The forward curve never decreases: more value collected means at least as
/// many tokens sold.
pub proof fn lemma_cumulative_tokens_monotone(x: nat, y: nat, curve_a: nat)
    requires
        x <= y,
    ensures
        cumulative_tokens(x as int, curve_a as int) <= cumulative_tokens(y as int, curve_a as int),
{
    lemma_cumulative_tokens_nonnegative(y, curve_a);
    let (xi, yi, a) = (x as int, y as int, curve_a as int);
    if xi != 0 {
        let nx = xi * SCALE * SCALE;
        let ny = yi * SCALE * SCALE;
        assert(0 <= nx <= ny) by (nonlinear_arith)
            requires
                0 <= xi <= yi,
                nx == xi * SCALE * SCALE,
                ny == yi * SCALE * SCALE,
        ;
        lemma_floor_sqrt_monotone(nx, ny);
        assert(a * floor_sqrt(nx) <= a * floor_sqrt(ny)) by (nonlinear_arith)
            requires
                floor_sqrt(nx) <= floor_sqrt(ny),
                0 <= a,
        ;
        lemma_div_is_ordered(a * floor_sqrt(nx), a * floor_sqrt(ny), SCALE as int);
    }
}

/// The inverse curve never decreases: more tokens sold means at least as much
/// value collected.
pub proof fn lemma_cumulative_value_monotone(x: nat, y: nat, curve_a: nat)
    requires
        x <= y,
        curve_a > 0,
    ensures
        cumulative_value(x as int, curve_a as int) <= cumulative_value(y as int, curve_a as int),
{
    lemma_cumulative_value_nonnegative(y, curve_a);
    let (xi, yi, a) = (x as int, y as int, curve_a as int);
    if xi != 0 {
        assert(xi * xi * SCALE <= yi * yi * SCALE && 0 < a * a) by (nonlinear_arith)
            requires
                0 <= xi <= yi,
                a > 0,
        ;
        lemma_div_is_ordered(xi * xi * SCALE, yi * yi * SCALE, a * a);
        lemma_div_is_ordered(xi * xi * SCALE / (a * a), yi * yi * SCALE / (a * a), SCALE as int);
    }
}

/// Tokens that `sol_amount` buys when `circulating_supply` tokens are sold.
pub fn calculate_token_amount(sol_amount: u64, circulating_supply: u64, curve_a: u64) -> (r: u64)
    requires
        curve_a > 0,
        cumulative_value(circulating_supply as int, curve_a as int) + sol_amount <= u64::MAX,
        quote_tokens_for_value(sol_amount as int, circulating_supply as int, curve_a as int)
            <= u64::MAX,
    ensures
        r == quote_tokens_for_value(sol_amount as int, circulating_supply as int, curve_a as int),
{
    let reserve: u64 = f_reverse(circulating_supply, curve_a) as u64;
    let advanced: u64 = reserve + sol_amount;
    let before: u128 = f(reserve, curve_a);
    let after: u128 = f(advanced, curve_a);
    proof {
        lemma_cumulative_tokens_monotone(reserve as nat, advanced as nat, curve_a as nat);
    }
    (after - before) as u64
}

/// Value recovered by selling `token_amount` tokens out of a circulation of
/// `circulating_supply`.
pub fn calculate_sol_amount(token_amount: u64, circulating_supply: u64, curve_a: u64) -> (r: u64)
    requires
        curve_a > 0,
        token_amount <= circulating_supply,
        quote_value_for_tokens(token_amount as int, circulating_supply as int, curve_a as int)
            <= u64::MAX,
    ensures
        r == quote_value_for_tokens(token_amount as int, circulating_supply as int, curve_a as int),
{
    let after: u64 = circulating_supply - token_amount;
    let high: u128 = f_reverse(circulating_supply, curve_a);
    let low: u128 = f_reverse(after, curve_a);
    proof {
        lemma_cumulative_value_monotone(after as nat, circulating_supply as nat, curve_a as nat);
    }
    (high - low) as u64
}

/// Value that a sale of `token_amount` tokens pays out of a circulation of
/// `circulating_supply`, before the engine's rounding guard.
pub fn calculate_sol_amount_for_sell(token_amount: u64, circulating_supply: u64, curve_a: u64) -> (r: u64)
    requires
        curve_a > 0,
        token_amount <= circulating_supply,
        quote_value_for_tokens(token_amount as int, circulating_supply as int, curve_a as int)
            <= u64::MAX,
    ensures
        r == quote_value_for_tokens(token_amount as int, circulating_supply as int, curve_a as int),
{
    calculate_sol_amount(token_amount, circulating_supply, curve_a)
}

/// Value that buying `token_amount` more tokens costs when `circulating_supply`
/// tokens are sold.
pub fn calculate_sol_amount_for_buy(token_amount: u64, circulating_supply: u64, curve_a: u64) -> (r: u64)
    requires
        curve_a > 0,
        circulating_supply + token_amount <= u64::MAX,
        quote_value_to_buy(token_amount as int, circulating_supply as int, curve_a as int) <= u64::MAX,
    ensures
        r == quote_value_to_buy(token_amount as int, circulating_supply as int, curve_a as int),
{
    let after: u64 = circulating_supply + token_amount;
    let high: u128 = f_reverse(after, curve_a);
    let low: u128 = f_reverse(circulating_supply, curve_a);
    proof {
        lemma_cumulative_value_monotone(circulating_supply as nat, after as nat, curve_a as nat);
    }
    (high - low) as u64
}

/// Selling back what any amount of value bought never recovers more than that
/// value: the inverse curve at the forward curve's output is at most the input.
pub proof fn lemma_value_of_tokens_bound(value: nat, curve_a: nat)
    requires
        curve_a > 0,
    ensures
        cumulative_value(cumulative_tokens(value as int, curve_a as int), curve_a as int) <= value,
{
    let (v, a) = (value as int, curve_a as int);
    let t = cumulative_tokens(v, a);
    lemma_cumulative_tokens_nonnegative(value, curve_a);
    if v != 0 && t != 0 {
        let n = v * SCALE * SCALE;
        assert(0 <= n) by (nonlinear_arith)
            requires
                0 <= v,
                n == v * SCALE * SCALE,
        ;
        lemma_floor_sqrt(n);
        let s = floor_sqrt(n);
        let k = SCALE as int;
        assert(t == a * s / k);
        assert(t * k <= a * s) by (nonlinear_arith)
            requires
                t == a * s / k,
                k == 1_000_000_000,
        ;
        assert(t * t <= a * a * v) by (nonlinear_arith)
            requires
                0 <= t,
                0 <= s,
                0 < a,
                t * k <= a * s,
                s * s <= n,
                n == v * k * k,
                k == 1_000_000_000,
        ;
        assert(0 < a * a) by (nonlinear_arith)
            requires
                0 < a,
        ;
        lemma_scaled_quotient(t * t, a * a, k);
        lemma_div_is_ordered(t * t, a * a * v, a * a);
        vstd::arithmetic::div_mod::lemma_div_multiples_vanish(v, a * a);
    }
}

} // verus!
