//! Pure bonding-curve pricing math.
//!
//! Swap outputs follow the constant-product rule `sol * token == k`: a trade
//! moves one virtual reserve up by the amount paid in, recomputes the other
//! side as `k` divided by the new reserve (integer floor division), and pays
//! out the difference. Every product is taken in 128-bit arithmetic so that
//! the multiplication of two 64-bit reserves cannot overflow.

use vstd::arithmetic::div_mod::{
    lemma_div_by_self, lemma_div_is_ordered, lemma_div_is_ordered_by_denominator,
    lemma_div_multiples_vanish, lemma_div_pos_is_pos, lemma_fundamental_div_mod,
    lemma_fundamental_div_mod_converse_div, lemma_mod_division_less_than_divisor,
    lemma_multiply_divide_lt,
};
use vstd::arithmetic::mul::{
    lemma_mul_inequality, lemma_mul_is_commutative, lemma_mul_is_distributive_sub_other_way,
    lemma_mul_nonnegative,
};
use vstd::prelude::*;

verus! {

/// Virtual SOL reserve every curve starts with, in lamports (30 SOL).
pub const INITIAL_VIRTUAL_SOL_RESERVE: u64 = 30_000_000_000;

/// Virtual token reserve every curve starts with, in token base units
/// (1.073 billion tokens at 6 decimals).
pub const INITIAL_VIRTUAL_TOKEN_RESERVE: u64 = 1_073_000_000_000_000;

/// Tokens actually held for sale at creation, in token base units.
pub const INITIAL_REAL_TOKEN_RESERVE: u64 = 793_100_000_000_000;

/// Real SOL a curve must raise before it graduates, in lamports (85 SOL).
pub const GRADUATION_THRESHOLD: u64 = 85_000_000_000;

/// Default platform fee: 100 basis points (1%).
pub const PLATFORM_FEE_BPS: u64 = 100;

/// Number of basis points in the whole.
pub const BPS_DENOMINATOR: u64 = 10_000;

/// Tokens paid out when `sol_in` lamports are added to reserves
/// `(vs, vt)`: the token reserve shrinks to `floor(vs * vt / (vs + sol_in))`
/// and the buyer receives the difference.
pub open spec fn tokens_out_formula(vs: int, vt: int, sol_in: int) -> int {
    vt - (vs * vt) / (vs + sol_in)
}

/// SOL paid out when `tokens_in` token base units are added to reserves
/// `(vs, vt)`: the SOL reserve shrinks to `floor(vs * vt / (vt + tokens_in))`
/// and the seller receives the difference.
pub open spec fn sol_out_formula(vs: int, vt: int, tokens_in: int) -> int {
    vs - (vs * vt) / (vt + tokens_in)
}

/// The fee taken from `amount` at `fee_bps` basis points: the product
/// `amount * fee_bps` saturates at `u64::MAX` before the division, so a fee
/// is always defined and never an error.
pub open spec fn fee_amount(amount: int, fee_bps: int, denom: int) -> int {
    if amount * fee_bps > u64::MAX {
        (u64::MAX as int) / denom
    } else {
        (amount * fee_bps) / denom
    }
}

/// What remains of `amount` once the fee is deducted; the subtraction
/// saturates at zero, so the result never exceeds `amount`.
pub open spec fn amount_after_fee(amount: int, fee_bps: int, denom: int) -> int {
    if fee_amount(amount, fee_bps, denom) > amount {
        0
    } else {
        amount - fee_amount(amount, fee_bps, denom)
    }
}

/// Given SOL flowing in (after any fee), how many tokens the buyer receives.
/// Returns `None` exactly when `sol_in` is zero; for positive `sol_in` the
/// wide intermediate product makes every step representable, so the formula
/// value is always returned and never exceeds the token reserve.
pub fn calculate_tokens_out(
    virtual_sol_reserve: u64,
    virtual_token_reserve: u64,
    sol_in: u64,
) -> (result: Option<u64>)
    ensures
        result is Some <==> sol_in > 0,
        sol_in > 0 ==> {
            let out = tokens_out_formula(
                virtual_sol_reserve as int,
                virtual_token_reserve as int,
                sol_in as int,
            );
            &&& 0 <= out <= virtual_token_reserve
            &&& result == Some(out as u64)
        },
{
    if sol_in == 0 {
        return None;
    }

    let sol_reserve = virtual_sol_reserve as u128;
    let token_reserve = virtual_token_reserve as u128;
    let sol_amount = sol_in as u128;

    proof {
        assert(sol_reserve * token_reserve <= u64::MAX * u64::MAX) by (nonlinear_arith)
            requires
                sol_reserve <= u64::MAX,
                token_reserve <= u64::MAX;
    }
    let k = sol_reserve * token_reserve;
    let new_sol_reserve = sol_reserve + sol_amount;
    let new_token_reserve = k / new_sol_reserve;

    proof {
        let vs = virtual_sol_reserve as int;
        let vt = virtual_token_reserve as int;
        let ns = new_sol_reserve as int;
        assert(vs * vt <= ns * vt) by (nonlinear_arith)
            requires
                0 <= vs <= ns,
                0 <= vt;
        lemma_div_is_ordered(vs * vt, ns * vt, ns);
        lemma_div_multiples_vanish(vt, ns);
        assert(new_token_reserve <= token_reserve);
    }
    let tokens_out = token_reserve - new_token_reserve;

    Some(tokens_out as u64)
}

/// Given tokens flowing in (a seller returning tokens), how much SOL the
/// seller receives before any fee. Returns `None` exactly when `tokens_in`
/// is zero; the payout never exceeds the SOL reserve.
pub fn calculate_sol_out(
    virtual_sol_reserve: u64,
    virtual_token_reserve: u64,
    tokens_in: u64,
) -> (result: Option<u64>)
    ensures
        result is Some <==> tokens_in > 0,
        tokens_in > 0 ==> {
            let out = sol_out_formula(
                virtual_sol_reserve as int,
                virtual_token_reserve as int,
                tokens_in as int,
            );
            &&& 0 <= out <= virtual_sol_reserve
            &&& result == Some(out as u64)
        },
{
    if tokens_in == 0 {
        return None;
    }

    let sol_reserve = virtual_sol_reserve as u128;
    let token_reserve = virtual_token_reserve as u128;
    let token_amount = tokens_in as u128;

    proof {
        assert(sol_reserve * token_reserve <= u64::MAX * u64::MAX) by (nonlinear_arith)
            requires
                sol_reserve <= u64::MAX,
                token_reserve <= u64::MAX;
    }
    let k = sol_reserve * token_reserve;
    let new_token_reserve = token_reserve + token_amount;
    let new_sol_reserve = k / new_token_reserve;

    proof {
        let vs = virtual_sol_reserve as int;
        let vt = virtual_token_reserve as int;
        let nt = new_token_reserve as int;
        assert(vs * vt <= nt * vs) by (nonlinear_arith)
            requires
                0 <= vt <= nt,
                0 <= vs;
        lemma_div_is_ordered(vs * vt, nt * vs, nt);
        lemma_div_multiples_vanish(vs, nt);
        assert(new_sol_reserve <= sol_reserve);
    }
    let sol_out = sol_reserve - new_sol_reserve;

    Some(sol_out as u64)
}

/// Deducts the platform fee from `amount`, returning
/// `(amount_after_fee, fee)`. Saturating arithmetic keeps the fee
/// computation total: an overflowing product pins the fee at
/// `u64::MAX / bps_denominator`, and the after-fee amount never goes
/// below zero.
pub fn deduct_fee(amount: u64, fee_bps: u64, bps_denominator: u64) -> (result: (u64, u64))
    requires
        bps_denominator > 0,
    ensures
        result.1 == fee_amount(amount as int, fee_bps as int, bps_denominator as int),
        result.0 == amount_after_fee(amount as int, fee_bps as int, bps_denominator as int),
        result.0 <= amount,
{
    let scaled: u64 = match amount.checked_mul(fee_bps) {
        Some(p) => p,
        None => u64::MAX,
    };
    let fee = scaled / bps_denominator;
    let after_fee = if fee > amount {
        0
    } else {
        amount - fee
    };
    (after_fee, fee)
}

/// LAW: a buy leaves the constant product `vs * vt` intact up to one unit
/// of integer-division rounding, and the rounding always works in the
/// buyer's favor. Precisely, with `out` tokens paid for `sol_in` lamports,
/// the post-trade product `(vs + sol_in) * (vt - out)` lies in
/// `(vs * vt - (vs + sol_in), vs * vt]`, reaching `vs * vt` exactly when
/// the division is exact. The buyer receives strictly less than the whole
/// token reserve exactly when `vs * vt >= vs + sol_in`.
pub proof fn lemma_buy_preserves_product(vs: int, vt: int, sol_in: int)
    requires
        vs >= 1,
        vt >= 0,
        sol_in >= 1,
    ensures
        ({
            let out = tokens_out_formula(vs, vt, sol_in);
            let post_product = (vs + sol_in) * (vt - out);
            &&& 0 <= out <= vt
            &&& vs * vt - (vs + sol_in) < post_product <= vs * vt
            &&& (post_product == vs * vt <==> (vs * vt) % (vs + sol_in) == 0)
            &&& (out < vt <==> vs * vt >= vs + sol_in)
        }),
{
    let k = vs * vt;
    let d = vs + sol_in;
    let q = k / d;
    let r = k % d;
    assert(vs * vt >= 0) by (nonlinear_arith)
        requires
            vs >= 0,
            vt >= 0;
    lemma_fundamental_div_mod(k, d);
    lemma_mod_division_less_than_divisor(k, d);
    lemma_div_pos_is_pos(k, d);
    assert(vs * vt <= d * vt) by (nonlinear_arith)
        requires
            0 <= vs <= d,
            0 <= vt;
    lemma_div_is_ordered(vs * vt, d * vt, d);
    lemma_div_multiples_vanish(vt, d);
    assert(q <= vt);
    // The post-trade token reserve is exactly the quotient, so the
    // post-trade product is `d * q == k - r`.
    assert((vs + sol_in) * (vt - tokens_out_formula(vs, vt, sol_in)) == d * q);
    assert(d * q == k - r);
    // `out < vt` is `q >= 1`, which holds exactly when `k >= d`.
    if k >= d {
        lemma_div_is_ordered(d, k, d);
        lemma_div_multiples_vanish(1, d);
        assert(q >= 1);
    }
    if q >= 1 {
        assert(d * q >= d * 1) by (nonlinear_arith)
            requires
                d >= 1,
                q >= 1;
        assert(k >= d);
    }
}

/// LAW: the symmetric statement for sells. With `out` lamports paid for
/// `tokens_in` tokens, the post-trade product `(vs - out) * (vt + tokens_in)`
/// lies in `(vs * vt - (vt + tokens_in), vs * vt]`, reaching `vs * vt`
/// exactly when the division is exact; the seller receives strictly less
/// than the whole SOL reserve exactly when `vs * vt >= vt + tokens_in`.
pub proof fn lemma_sell_preserves_product(vs: int, vt: int, tokens_in: int)
    requires
        vs >= 0,
        vt >= 1,
        tokens_in >= 1,
    ensures
        ({
            let out = sol_out_formula(vs, vt, tokens_in);
            let post_product = (vs - out) * (vt + tokens_in);
            &&& 0 <= out <= vs
            &&& vs * vt - (vt + tokens_in) < post_product <= vs * vt
            &&& (post_product == vs * vt <==> (vs * vt) % (vt + tokens_in) == 0)
            &&& (out < vs <==> vs * vt >= vt + tokens_in)
        }),
{
    let k = vs * vt;
    let d = vt + tokens_in;
    let q = k / d;
    let r = k % d;
    assert(vs * vt >= 0) by (nonlinear_arith)
        requires
            vs >= 0,
            vt >= 0;
    lemma_fundamental_div_mod(k, d);
    lemma_mod_division_less_than_divisor(k, d);
    lemma_div_pos_is_pos(k, d);
    assert(vs * vt <= d * vs) by (nonlinear_arith)
        requires
            0 <= vt <= d,
            0 <= vs;
    lemma_div_is_ordered(vs * vt, d * vs, d);
    lemma_div_multiples_vanish(vs, d);
    assert(q <= vs);
    assert((vs - sol_out_formula(vs, vt, tokens_in)) * (vt + tokens_in) == q * d);
    assert(q * d == d * q) by (nonlinear_arith);
    assert(d * q == k - r);
    if k >= d {
        lemma_div_is_ordered(d, k, d);
        lemma_div_multiples_vanish(1, d);
        assert(q >= 1);
    }
    if q >= 1 {
        assert(d * q >= d * 1) by (nonlinear_arith)
            requires
                d >= 1,
                q >= 1;
        assert(k >= d);
    }
}

/// The algebraic core of `lemma_repeat_buy_buys_fewer`: with the
/// remainders written out as differences of products, the scaled output
/// gap is a polynomial identity.
proof fn lemma_buy_gap_identity(vs: int, s: int, vt: int, q1: int, q2: int)
    ensures
        vs * (vs + 2 * s) * ((vt - q1) - (q1 - q2)) == 2 * q1 * s * s + (vs + 2 * s) * (vs * vt
            - (vs + s) * q1) - vs * ((vs + s) * q1 - (vs + 2 * s) * q2),
{
    broadcast use vstd::arithmetic::mul::group_mul_is_commutative_and_distributive;
    broadcast use vstd::arithmetic::mul::lemma_mul_is_associative;

}

/// LAW (rising price): once a buy of `sol_in` has been absorbed into the
/// reserves, spending the same `sol_in` again buys strictly fewer tokens.
/// The two product conditions keep the trade large enough that a single
/// unit of integer rounding cannot mask the price movement, and small
/// enough relative to the reserves that the curve is not degenerate; both
/// hold with room to spare for any realistic reserve sizes (lamports
/// against a token at six decimals).
pub proof fn lemma_repeat_buy_buys_fewer(vs: int, vt: int, sol_in: int)
    requires
        vs >= 1,
        vt >= 1,
        sol_in >= 1,
        sol_in * sol_in * vt >= 2 * (vs + sol_in) * (vs + 2 * sol_in),
        vs * (vs + 2 * sol_in) >= sol_in * sol_in,
    ensures
        tokens_out_formula(vs + sol_in, vt - tokens_out_formula(vs, vt, sol_in), sol_in)
            < tokens_out_formula(vs, vt, sol_in),
{
    let s = sol_in;
    let vs2: int = vs + s;
    let d2: int = vs2 + s;
    let k: int = vs * vt;
    let q1: int = k / vs2;
    let r1: int = k % vs2;
    lemma_fundamental_div_mod(k, vs2);
    lemma_mod_division_less_than_divisor(k, vs2);
    let q2: int = (vs2 * q1) / d2;
    let r2: int = (vs2 * q1) % d2;
    lemma_fundamental_div_mod(vs2 * q1, d2);
    lemma_mod_division_less_than_divisor(vs2 * q1, d2);

    // The token reserve after the first buy is exactly the quotient `q1`,
    // so the second buy's output is `q1 - q2`; the first buy's output is
    // `vt - q1`. The gap between the two outputs, scaled by the positive
    // factor `vs * d2`, is a polynomial in the remainders:
    //   vs * d2 * ((vt - q1) - (q1 - q2)) == 2*q1*s^2 + d2*r1 - vs*r2
    assert(r1 == vs * vt - (vs + s) * q1);
    assert(r2 == (vs + s) * q1 - (vs + 2 * s) * q2);
    lemma_buy_gap_identity(vs, s, vt, q1, q2);
    assert(vs * d2 * ((vt - q1) - (q1 - q2)) == 2 * q1 * s * s + d2 * r1 - vs * r2);

    // The quotient `q1` carries almost the whole product: vs2*q1 >= vs*vt - vs2 + 1.
    assert(vs2 * q1 >= vs * vt - vs2 + 1);

    // Scale the first size condition by `vs` and the second by `vs2`.
    assert(s * s * (vs * vt) >= 2 * vs * ((vs + s) * (vs + 2 * s))) by (nonlinear_arith)
        requires
            vs >= 1,
            s * s * vt >= 2 * (vs + s) * (vs + 2 * s);
    assert(vs * (vs2 * d2) >= s * s * vs2) by (nonlinear_arith)
        requires
            vs2 >= 1,
            d2 == vs + 2 * s,
            vs2 == vs + s,
            vs * (vs + 2 * s) >= s * s;

    // Combine: s^2 * q1 * vs2 strictly exceeds vs * d2 * vs2, so
    // s^2 * q1 > vs * d2.
    assert(s * s * (vs2 * q1) > (vs * d2) * vs2) by (nonlinear_arith)
        requires
            vs2 * q1 >= vs * vt - vs2 + 1,
            s * s * (vs * vt) >= 2 * vs * ((vs + s) * (vs + 2 * s)),
            vs * (vs2 * d2) >= s * s * vs2,
            vs2 == vs + s,
            d2 == vs + 2 * s,
            s >= 1,
            vs >= 1;
    assert(s * s * q1 > vs * d2) by (nonlinear_arith)
        requires
            s * s * (vs2 * q1) > (vs * d2) * vs2,
            vs2 >= 1;

    // The remainders cost at most `vs * (d2 - 1)`, which the doubled
    // quotient term absorbs.
    assert(2 * q1 * s * s + d2 * r1 - vs * r2 > 0) by (nonlinear_arith)
        requires
            s * s * q1 > vs * d2,
            r1 >= 0,
            0 <= r2 < d2,
            vs >= 1,
            d2 >= 1;

    // A positive product with positive factor `vs * d2` means the gap
    // itself is positive.
    assert((vt - q1) - (q1 - q2) >= 1) by (nonlinear_arith)
        requires
            vs * d2 * ((vt - q1) - (q1 - q2)) > 0,
            vs >= 1,
            d2 >= 1;
}

/// The algebraic core of `lemma_larger_buy_worse_price`: with the
/// remainders written out as differences of products, the scaled
/// cross-multiplied price gap is a polynomial identity.
proof fn lemma_price_gap_identity(vs: int, vt: int, s1: int, s2: int, q1: int, q2: int)
    ensures
        (vs + s1) * (vs + s2) * (s2 * (vt - q1) - s1 * (vt - q2)) == vt * s1 * s2 * (s2 - s1)
            + s2 * (vs + s2) * (vs * vt - (vs + s1) * q1) - s1 * (vs + s1) * (vs * vt - (vs
            + s2) * q2),
{
    broadcast use vstd::arithmetic::mul::group_mul_is_commutative_and_distributive;
    broadcast use vstd::arithmetic::mul::lemma_mul_is_associative;

}

/// LAW (price impact): of two buys from the same reserves, the larger one
/// pays a strictly higher price per token. Stated by cross-multiplying the
/// two SOL-per-token ratios: `s2 / out2 > s1 / out1`. The size condition
/// keeps the larger trade big enough that integer rounding cannot mask the
/// impact; it holds easily for realistic reserves.
pub proof fn lemma_larger_buy_worse_price(vs: int, vt: int, s1: int, s2: int)
    requires
        vs >= 0,
        vt >= 0,
        1 <= s1 < s2,
        vt * s2 * (s2 - s1) >= (vs + s1) * (vs + s2),
    ensures
        s2 * tokens_out_formula(vs, vt, s1) > s1 * tokens_out_formula(vs, vt, s2),
{
    let d1: int = vs + s1;
    let d2: int = vs + s2;
    let k: int = vs * vt;
    let q1: int = k / d1;
    let r1: int = k % d1;
    let q2: int = k / d2;
    let r2: int = k % d2;
    lemma_fundamental_div_mod(k, d1);
    lemma_mod_division_less_than_divisor(k, d1);
    lemma_fundamental_div_mod(k, d2);
    lemma_mod_division_less_than_divisor(k, d2);

    // The cross-multiplied price gap, scaled by the positive factor
    // `d1 * d2`, is a polynomial in the remainders:
    //   d1 * d2 * (s2*(vt - q1) - s1*(vt - q2))
    //     == vt*s1*s2*(s2 - s1) + s2*d2*r1 - s1*d1*r2
    assert(r1 == vs * vt - (vs + s1) * q1);
    assert(r2 == vs * vt - (vs + s2) * q2);
    lemma_price_gap_identity(vs, vt, s1, s2, q1, q2);
    assert(d1 * d2 * (s2 * (vt - q1) - s1 * (vt - q2)) == vt * s1 * s2 * (s2 - s1) + s2 * d2 * r1
        - s1 * d1 * r2);

    // The size condition, scaled by `s1`, dominates the worst-case
    // remainder cost `s1 * d1 * r2 < s1 * d1 * d2`.
    assert(vt * s1 * s2 * (s2 - s1) >= s1 * (d1 * d2)) by (nonlinear_arith)
        requires
            s1 >= 1,
            d1 == vs + s1,
            d2 == vs + s2,
            vt * s2 * (s2 - s1) >= (vs + s1) * (vs + s2);
    assert(vt * s1 * s2 * (s2 - s1) + s2 * d2 * r1 - s1 * d1 * r2 > 0) by (nonlinear_arith)
        requires
            vt * s1 * s2 * (s2 - s1) >= s1 * (d1 * d2),
            r1 >= 0,
            0 <= r2 < d2,
            s1 >= 1,
            s2 >= 1,
            d1 >= 1,
            d2 >= 1;
    assert(s2 * (vt - q1) - s1 * (vt - q2) > 0) by (nonlinear_arith)
        requires
            d1 * d2 * (s2 * (vt - q1) - s1 * (vt - q2)) > 0,
            d1 >= 1,
            d2 >= 1;
}

/// LAW: fee deduction loses nothing. Whenever the fee rate is at most the
/// whole (`fee_bps <= bps_denominator`), the after-fee amount and the fee
/// add back up to the full amount for every 64-bit `amount` — even when
/// the scaled product saturates, the saturated fee still stays below the
/// amount, so the subtraction never clips.
pub proof fn lemma_fee_deduction_additive(amount: int, fee_bps: int, denom: int)
    requires
        0 <= amount <= u64::MAX,
        0 <= fee_bps <= denom,
        1 <= denom,
    ensures
        amount_after_fee(amount, fee_bps, denom) + fee_amount(amount, fee_bps, denom) == amount,
        fee_amount(amount, fee_bps, denom) <= amount,
{
    let max = u64::MAX as int;
    if amount * fee_bps > max {
        // Saturation: the fee is `u64::MAX / denom`, and the amount must
        // already exceed it, because `amount <= u64::MAX / fee_bps` would
        // keep the product below `u64::MAX`.
        let cap = max / fee_bps;
        lemma_fundamental_div_mod(max, fee_bps);
        lemma_mod_division_less_than_divisor(max, fee_bps);
        if amount <= cap {
            assert(amount * fee_bps <= cap * fee_bps) by (nonlinear_arith)
                requires
                    0 <= amount <= cap,
                    0 <= fee_bps;
            assert(cap * fee_bps == fee_bps * cap) by (nonlinear_arith);
            assert(false);
        }
        lemma_div_is_ordered_by_denominator(max, fee_bps, denom);
        assert(fee_amount(amount, fee_bps, denom) <= cap < amount);
    } else {
        // No saturation: `fee == amount * fee_bps / denom <= amount`.
        assert(amount * fee_bps <= denom * amount) by (nonlinear_arith)
            requires
                0 <= amount,
                0 <= fee_bps <= denom;
        lemma_div_pos_is_pos(amount * fee_bps, denom);
        lemma_div_is_ordered(amount * fee_bps, denom * amount, denom);
        lemma_div_multiples_vanish(amount, denom);
        assert(fee_amount(amount, fee_bps, denom) <= amount);
    }
}

/// LAW (round-trip loss): buying with `sol_amount` lamports and at once
/// selling every token received returns strictly less than `sol_amount`.
/// The curve's floor divisions can hand the round trip at most one extra
/// lamport, and a fee rate that charges at least one lamport on the way in
/// (`sol_amount * fee_bps >= denom`) always outweighs it. The condition
/// `vs + sol_amount <= vt` keeps the payment within the regime where the
/// rounding credit is at most one lamport; it holds for any realistic
/// reserves, where the token side at six decimals dwarfs the lamport side.
pub proof fn lemma_round_trip_returns_less(
    vs: int,
    vt: int,
    sol_amount: int,
    fee_bps: int,
    denom: int,
)
    requires
        vs >= 1,
        vt >= 1,
        1 <= fee_bps < denom,
        sol_amount * fee_bps >= denom,
        (sol_amount + 1) * fee_bps <= u64::MAX,
        vs + sol_amount <= vt,
    ensures
        ({
            let sol_in = amount_after_fee(sol_amount, fee_bps, denom);
            let out = tokens_out_formula(vs, vt, sol_in);
            let back_raw = sol_out_formula(vs + sol_in, vt - out, out);
            amount_after_fee(back_raw, fee_bps, denom) < sol_amount
        }),
{
    let max: int = u64::MAX as int;
    // The buy-side fee does not saturate, and charges at least one lamport
    // but less than the whole payment.
    lemma_mul_inequality(sol_amount, sol_amount + 1, fee_bps);
    assert(sol_amount * fee_bps <= max);
    assert(sol_amount >= 1) by (nonlinear_arith)
        requires
            sol_amount * fee_bps >= denom,
            denom >= 1,
            fee_bps >= 1;
    assert(sol_amount + 1 <= max) by (nonlinear_arith)
        requires
            (sol_amount + 1) * fee_bps <= max,
            fee_bps >= 1,
            sol_amount >= 1;
    let fee_b: int = fee_amount(sol_amount, fee_bps, denom);
    lemma_div_is_ordered(denom, sol_amount * fee_bps, denom);
    lemma_div_by_self(denom);
    assert(fee_b >= 1);
    assert(sol_amount * fee_bps < denom * sol_amount) by (nonlinear_arith)
        requires
            sol_amount >= 1,
            1 <= fee_bps < denom;
    lemma_multiply_divide_lt(sol_amount * fee_bps, denom, sol_amount);
    assert(fee_b < sol_amount);
    lemma_fee_deduction_additive(sol_amount, fee_bps, denom);
    let sol_in: int = amount_after_fee(sol_amount, fee_bps, denom);
    assert(sol_in == sol_amount - fee_b);
    assert(1 <= sol_in);

    // The buy: the post-trade token reserve is the quotient `q1`.
    let vs2: int = vs + sol_in;
    let k: int = vs * vt;
    let q1: int = k / vs2;
    let r1: int = k % vs2;
    lemma_fundamental_div_mod(k, vs2);
    lemma_mod_division_less_than_divisor(k, vs2);
    let out = tokens_out_formula(vs, vt, sol_in);
    assert(vt - out == q1);

    // Selling all `out` tokens brings the token reserve back to exactly
    // `vt`, so the raw payout is `vs2 - (vs2 * q1) / vt`, and
    // `vs2 * q1 == vs * vt - r1` with `0 <= r1 < vs2 <= vt`: the quotient
    // is `vs` when the buy divided evenly and `vs - 1` otherwise. The raw
    // payout is therefore `sol_in`, or `sol_in + 1` — one lamport of
    // rounding credit at most.
    let back_raw = sol_out_formula(vs2, q1, out);
    assert(q1 + out == vt);
    assert(back_raw == vs2 - (vs2 * q1) / vt);
    assert(vs2 * q1 == k - r1);
    assert(r1 < vs2 <= vt);
    if r1 == 0 {
        lemma_div_multiples_vanish(vs, vt);
        lemma_mul_is_commutative(vs, vt);
        assert((k - r1) / vt == vs);
        assert(back_raw == sol_in);
    } else {
        lemma_mul_is_distributive_sub_other_way(vt, vs, 1);
        assert(k - r1 == (vs - 1) * vt + (vt - r1));
        lemma_fundamental_div_mod_converse_div(k - r1, vt, vs - 1, vt - r1);
        assert((k - r1) / vt == vs - 1);
        assert(back_raw == sol_in + 1);
    }

    // The sell-side fee does not saturate either.
    assert(0 <= back_raw <= sol_in + 1);
    lemma_mul_nonnegative(back_raw, fee_bps);
    lemma_mul_inequality(back_raw, sol_amount + 1, fee_bps);
    assert(back_raw * fee_bps <= max);
    let fee_s: int = fee_amount(back_raw, fee_bps, denom);
    lemma_div_pos_is_pos(back_raw * fee_bps, denom);
    assert(fee_s >= 0);
    lemma_fee_deduction_additive(back_raw, fee_bps, denom);
    let back: int = amount_after_fee(back_raw, fee_bps, denom);
    assert(back == back_raw - fee_s);

    if back_raw == sol_in + 1 {
        if fee_s == 0 {
            // A zero sell-side fee means the raw payout is still below
            // one fee unit, so it cannot even reach `sol_amount`.
            assert(back_raw * fee_bps < denom) by {
                if back_raw * fee_bps >= denom {
                    lemma_div_is_ordered(denom, back_raw * fee_bps, denom);
                    lemma_div_by_self(denom);
                }
            }
            assert(back_raw * fee_bps < sol_amount * fee_bps);
            assert(back_raw < sol_amount) by {
                if back_raw >= sol_amount {
                    lemma_mul_inequality(sol_amount, back_raw, fee_bps);
                }
            }
            assert(back <= back_raw);
        } else {
            assert(back == sol_in + 1 - fee_s <= sol_in);
        }
    } else {
        assert(back <= sol_in);
    }
    assert(sol_in < sol_amount);
}

} // verus!
