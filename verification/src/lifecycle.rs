//! The per-token curve lifecycle: a `BondingCurve` record is created once,
//! mutated only by `buy` and `sell`, and frozen forever by graduation.

use crate::curve::{
    amount_after_fee, calculate_sol_out, calculate_tokens_out, deduct_fee, fee_amount,
    lemma_buy_preserves_product, lemma_sell_preserves_product, sol_out_formula,
    tokens_out_formula, BPS_DENOMINATOR, INITIAL_REAL_TOKEN_RESERVE,
    INITIAL_VIRTUAL_SOL_RESERVE, INITIAL_VIRTUAL_TOKEN_RESERVE,
};
use vstd::arithmetic::div_mod::{lemma_div_multiples_vanish, lemma_div_of0};
use vstd::prelude::*;
use vstd::utf8::encode_utf8;

verus! {

/// Longest accepted token name, in bytes.
pub const MAX_NAME_LEN: usize = 32;

/// Longest accepted token symbol, in bytes.
pub const MAX_SYMBOL_LEN: usize = 10;

/// Longest accepted metadata URI, in bytes.
pub const MAX_URI_LEN: usize = 200;

/// Why a lifecycle transition was rejected. The curve state is left
/// untouched whenever one of these is returned.
#[derive(Clone, Copy, Debug, PartialEq, Eq, Structural)]
pub enum ErrorCode {
    /// Token name is empty or too long.
    InvalidName,
    /// Token symbol is empty or too long.
    InvalidSymbol,
    /// Metadata URI is empty or too long.
    InvalidUri,
    /// The curve has graduated; trading is closed.
    TokenGraduated,
    /// A trade amount, or its computed output, was zero.
    ZeroAmount,
    /// The computed output violates the caller's minimum.
    SlippageExceeded,
    /// The curve (or the seller) lacks the tokens the trade needs.
    InsufficientTokens,
    /// The curve lacks the SOL the payout needs.
    InsufficientSol,
    /// The curve has not raised enough SOL to graduate.
    NotReadyToGraduate,
    /// The curve was already graduated.
    AlreadyGraduated,
}

/// One token's bonding curve: the pricing reserves, the real balances the
/// curve custodies, and the one-way graduation latch.
#[derive(Clone, Copy, Debug, PartialEq, Eq, Structural)]
pub struct BondingCurve {
    /// Synthetic SOL-side reserve used for pricing only; never withdrawable.
    pub virtual_sol_reserve: u64,
    /// Synthetic token-side reserve used for pricing only.
    pub virtual_token_reserve: u64,
    /// Real SOL custodied by the curve; rises on buys, falls on sells.
    pub real_sol_balance: u64,
    /// Real tokens the curve still holds for sale.
    pub real_token_reserve: u64,
    /// Tokens issued to traders so far.
    pub token_total_supply: u64,
    /// Terminal flag: once set, no further trades are accepted.
    pub is_graduated: bool,
}

/// Well-formedness of a curve record. Creation establishes it and every
/// transition preserves it:
/// - buys add the same amount to the virtual SOL reserve and the real SOL
///   balance, and sells subtract the same amount from both, so their
///   difference stays at the fixed starting virtual reserve;
/// - tokens leave the virtual reserve exactly when they enter circulation
///   and return on sells, so reserve plus supply is the fixed starting
///   token reserve;
/// - the tokens really held for sale never exceed the virtual token side.
///
/// These equalities also bound every field, which is what makes the
/// transition arithmetic free of 64-bit overflow.
pub open spec fn curve_wf(c: BondingCurve) -> bool {
    &&& c.virtual_sol_reserve - c.real_sol_balance == INITIAL_VIRTUAL_SOL_RESERVE
    &&& c.token_total_supply + c.virtual_token_reserve == INITIAL_VIRTUAL_TOKEN_RESERVE
    &&& c.real_token_reserve <= c.virtual_token_reserve
}

/// The record a successful trade reports to the surrounding system: the
/// amounts to move (SOL paid, tokens moved, fee owed to the platform) and
/// the reserves after the trade. The runtime adapter is expected to execute
/// these transfers atomically with committing the new curve state.
#[derive(Clone, Copy, Debug, PartialEq, Eq, Structural)]
pub struct TradeExecuted {
    /// True for a buy (SOL in, tokens out), false for a sell.
    pub is_buy: bool,
    /// For a buy, the SOL the buyer paid in total; for a sell, the SOL the
    /// trade released from the curve before the fee.
    pub sol_amount: u64,
    /// Tokens moved: to the buyer, or from the seller.
    pub token_amount: u64,
    /// The platform fee, in lamports.
    pub fee: u64,
    /// SOL-side virtual reserve after the trade.
    pub virtual_sol_reserve: u64,
    /// Token-side virtual reserve after the trade.
    pub virtual_token_reserve: u64,
}

/// The record a graduation reports: how much real SOL the curve had raised
/// when it froze.
#[derive(Clone, Copy, Debug, PartialEq, Eq, Structural)]
pub struct TokenGraduated {
    /// Real SOL custodied by the curve at graduation, in lamports.
    pub sol_raised: u64,
}

/// The tokens a buy of `sol_amount` would pay out of curve `c` after the
/// fee is deducted.
pub open spec fn buy_token_output(c: BondingCurve, sol_amount: u64, fee_bps: u64) -> int {
    tokens_out_formula(
        c.virtual_sol_reserve as int,
        c.virtual_token_reserve as int,
        amount_after_fee(sol_amount as int, fee_bps as int, BPS_DENOMINATOR as int),
    )
}

/// The first check a buy fails on, or `None` when the trade goes through.
/// The checks run in this order: the graduation latch, the zero payment,
/// the caller's slippage minimum, a zero token output, and finally the
/// curve's own token liquidity.
pub open spec fn buy_error(
    c: BondingCurve,
    sol_amount: u64,
    min_tokens_out: u64,
    fee_bps: u64,
) -> Option<ErrorCode> {
    let out = buy_token_output(c, sol_amount, fee_bps);
    if c.is_graduated {
        Some(ErrorCode::TokenGraduated)
    } else if sol_amount == 0 {
        Some(ErrorCode::ZeroAmount)
    } else if out < min_tokens_out {
        Some(ErrorCode::SlippageExceeded)
    } else if out == 0 {
        Some(ErrorCode::ZeroAmount)
    } else if (c.real_token_reserve as int) < out {
        Some(ErrorCode::InsufficientTokens)
    } else {
        None
    }
}

/// Buys tokens from the curve for `sol_amount` lamports: deducts the
/// platform fee, prices the remainder on the constant-product curve,
/// checks the caller's slippage bound and the curve's liquidity, updates
/// the reserves, and latches graduation if the raised SOL now meets
/// `grad_threshold`. On any failure the error names the first check that
/// rejected the trade and the curve is left unchanged.
pub fn buy(
    curve: &mut BondingCurve,
    sol_amount: u64,
    min_tokens_out: u64,
    fee_bps: u64,
    grad_threshold: u64,
) -> (result: Result<TradeExecuted, ErrorCode>)
    requires
        curve_wf(*old(curve)),
        !old(curve).is_graduated && sol_amount > 0 ==> old(curve).virtual_sol_reserve
            + sol_amount <= u64::MAX,
    ensures
        curve_wf(*final(curve)),
        ({
            let c = *old(curve);
            let fee = fee_amount(sol_amount as int, fee_bps as int, BPS_DENOMINATOR as int);
            let sol_for_curve = amount_after_fee(
                sol_amount as int,
                fee_bps as int,
                BPS_DENOMINATOR as int,
            );
            let out = buy_token_output(c, sol_amount, fee_bps);
            match buy_error(c, sol_amount, min_tokens_out, fee_bps) {
                Some(e) => result == Err::<TradeExecuted, ErrorCode>(e) && *final(curve) == c,
                None => {
                    &&& final(curve).virtual_sol_reserve == c.virtual_sol_reserve + sol_for_curve
                    &&& final(curve).virtual_token_reserve == c.virtual_token_reserve - out
                    &&& final(curve).real_sol_balance == c.real_sol_balance + sol_for_curve
                    &&& final(curve).real_token_reserve == c.real_token_reserve - out
                    &&& final(curve).token_total_supply == c.token_total_supply + out
                    &&& final(curve).is_graduated == (c.real_sol_balance + sol_for_curve
                        >= grad_threshold)
                    &&& result == Ok::<TradeExecuted, ErrorCode>(
                        TradeExecuted {
                            is_buy: true,
                            sol_amount: sol_amount,
                            token_amount: out as u64,
                            fee: fee as u64,
                            virtual_sol_reserve: (c.virtual_sol_reserve + sol_for_curve) as u64,
                            virtual_token_reserve: (c.virtual_token_reserve - out) as u64,
                        },
                    )
                },
            }
        }),
{
    if curve.is_graduated {
        return Err(ErrorCode::TokenGraduated);
    }
    if sol_amount == 0 {
        return Err(ErrorCode::ZeroAmount);
    }

    let (sol_for_curve, fee) = deduct_fee(sol_amount, fee_bps, BPS_DENOMINATOR);

    let tokens_out = match calculate_tokens_out(
        curve.virtual_sol_reserve,
        curve.virtual_token_reserve,
        sol_for_curve,
    ) {
        Some(t) => t,
        None => {
            // A fee of 100% of the payment leaves nothing for the curve;
            // the formula then moves no reserves at all.
            proof {
                lemma_div_multiples_vanish(
                    curve.virtual_token_reserve as int,
                    curve.virtual_sol_reserve as int,
                );
            }
            0
        },
    };

    if tokens_out < min_tokens_out {
        return Err(ErrorCode::SlippageExceeded);
    }
    if tokens_out == 0 {
        return Err(ErrorCode::ZeroAmount);
    }
    if curve.real_token_reserve < tokens_out {
        return Err(ErrorCode::InsufficientTokens);
    }

    curve.virtual_sol_reserve = curve.virtual_sol_reserve + sol_for_curve;
    curve.virtual_token_reserve = curve.virtual_token_reserve - tokens_out;
    curve.real_sol_balance = curve.real_sol_balance + sol_for_curve;
    curve.real_token_reserve = curve.real_token_reserve - tokens_out;
    curve.token_total_supply = curve.token_total_supply + tokens_out;

    if curve.real_sol_balance >= grad_threshold {
        curve.is_graduated = true;
    }

    Ok(
        TradeExecuted {
            is_buy: true,
            sol_amount,
            token_amount: tokens_out,
            fee,
            virtual_sol_reserve: curve.virtual_sol_reserve,
            virtual_token_reserve: curve.virtual_token_reserve,
        },
    )
}

/// The SOL (before the fee) a sell of `token_amount` would release from
/// curve `c`.
pub open spec fn sell_sol_output(c: BondingCurve, token_amount: u64) -> int {
    sol_out_formula(
        c.virtual_sol_reserve as int,
        c.virtual_token_reserve as int,
        token_amount as int,
    )
}

/// The first check a sell fails on, or `None` when the trade goes through.
/// The checks run in this order: the graduation latch, the zero amount,
/// the seller's token balance, the caller's slippage minimum on the
/// after-fee payout, a zero SOL output, and finally the curve's real SOL
/// balance.
pub open spec fn sell_error(
    c: BondingCurve,
    token_amount: u64,
    min_sol_out: u64,
    seller_token_balance: u64,
    fee_bps: u64,
) -> Option<ErrorCode> {
    let out = sell_sol_output(c, token_amount);
    let to_seller = amount_after_fee(out, fee_bps as int, BPS_DENOMINATOR as int);
    if c.is_graduated {
        Some(ErrorCode::TokenGraduated)
    } else if token_amount == 0 {
        Some(ErrorCode::ZeroAmount)
    } else if seller_token_balance < token_amount {
        Some(ErrorCode::InsufficientTokens)
    } else if to_seller < min_sol_out {
        Some(ErrorCode::SlippageExceeded)
    } else if out == 0 {
        Some(ErrorCode::ZeroAmount)
    } else if (c.real_sol_balance as int) < out {
        Some(ErrorCode::InsufficientSol)
    } else {
        None
    }
}

/// Sells `token_amount` tokens back to the curve: prices them on the
/// constant-product curve, deducts the platform fee from the released SOL,
/// checks the caller's slippage bound and the curve's SOL balance, and
/// updates the reserves. `seller_token_balance` is the seller's token
/// holding, a fact the surrounding system asserts; the trade is rejected
/// when it cannot cover `token_amount`. A sell never triggers graduation.
/// On any failure the error names the first check that rejected the trade
/// and the curve is left unchanged.
pub fn sell(
    curve: &mut BondingCurve,
    token_amount: u64,
    min_sol_out: u64,
    seller_token_balance: u64,
    fee_bps: u64,
) -> (result: Result<TradeExecuted, ErrorCode>)
    requires
        curve_wf(*old(curve)),
        token_amount <= old(curve).token_total_supply,
    ensures
        curve_wf(*final(curve)),
        ({
            let c = *old(curve);
            let out = sell_sol_output(c, token_amount);
            let fee = fee_amount(out, fee_bps as int, BPS_DENOMINATOR as int);
            match sell_error(c, token_amount, min_sol_out, seller_token_balance, fee_bps) {
                Some(e) => result == Err::<TradeExecuted, ErrorCode>(e) && *final(curve) == c,
                None => {
                    &&& final(curve).virtual_sol_reserve == c.virtual_sol_reserve - out
                    &&& final(curve).virtual_token_reserve == c.virtual_token_reserve
                        + token_amount
                    &&& final(curve).real_sol_balance == c.real_sol_balance - out
                    &&& final(curve).real_token_reserve == c.real_token_reserve + token_amount
                    &&& final(curve).token_total_supply == c.token_total_supply - token_amount
                    &&& final(curve).is_graduated == false
                    &&& result == Ok::<TradeExecuted, ErrorCode>(
                        TradeExecuted {
                            is_buy: false,
                            sol_amount: out as u64,
                            token_amount: token_amount,
                            fee: fee as u64,
                            virtual_sol_reserve: (c.virtual_sol_reserve - out) as u64,
                            virtual_token_reserve: (c.virtual_token_reserve
                                + token_amount) as u64,
                        },
                    )
                },
            }
        }),
{
    if curve.is_graduated {
        return Err(ErrorCode::TokenGraduated);
    }
    if token_amount == 0 {
        return Err(ErrorCode::ZeroAmount);
    }
    if seller_token_balance < token_amount {
        return Err(ErrorCode::InsufficientTokens);
    }

    let sol_out = match calculate_sol_out(
        curve.virtual_sol_reserve,
        curve.virtual_token_reserve,
        token_amount,
    ) {
        Some(s) => s,
        None => {
            proof {
                assert(false);
            }
            0
        },
    };

    let (sol_to_seller, fee) = deduct_fee(sol_out, fee_bps, BPS_DENOMINATOR);

    if sol_to_seller < min_sol_out {
        return Err(ErrorCode::SlippageExceeded);
    }
    if sol_out == 0 {
        return Err(ErrorCode::ZeroAmount);
    }
    if curve.real_sol_balance < sol_out {
        return Err(ErrorCode::InsufficientSol);
    }

    curve.virtual_sol_reserve = curve.virtual_sol_reserve - sol_out;
    curve.virtual_token_reserve = curve.virtual_token_reserve + token_amount;
    curve.real_sol_balance = curve.real_sol_balance - sol_out;
    curve.real_token_reserve = curve.real_token_reserve + token_amount;
    curve.token_total_supply = curve.token_total_supply - token_amount;

    Ok(
        TradeExecuted {
            is_buy: false,
            sol_amount: sol_out,
            token_amount,
            fee,
            virtual_sol_reserve: curve.virtual_sol_reserve,
            virtual_token_reserve: curve.virtual_token_reserve,
        },
    )
}

/// Forces the graduation latch once the curve has raised at least
/// `grad_threshold` real SOL: checks readiness, then that the curve has
/// not already graduated, and freezes the reserves by setting the flag.
/// No reserve changes. The returned record reports the SOL raised.
pub fn graduate(curve: &mut BondingCurve, grad_threshold: u64) -> (result: Result<
    TokenGraduated,
    ErrorCode,
>)
    ensures
        ({
            let c = *old(curve);
            if c.real_sol_balance < grad_threshold {
                result == Err::<TokenGraduated, ErrorCode>(ErrorCode::NotReadyToGraduate)
                    && *final(curve) == c
            } else if c.is_graduated {
                result == Err::<TokenGraduated, ErrorCode>(ErrorCode::AlreadyGraduated)
                    && *final(curve) == c
            } else {
                &&& result == Ok::<TokenGraduated, ErrorCode>(
                    TokenGraduated { sol_raised: c.real_sol_balance },
                )
                &&& *final(curve) == (BondingCurve { is_graduated: true, ..c })
            }
        }),
        curve_wf(*old(curve)) ==> curve_wf(*final(curve)),
{
    if curve.real_sol_balance < grad_threshold {
        return Err(ErrorCode::NotReadyToGraduate);
    }
    if curve.is_graduated {
        return Err(ErrorCode::AlreadyGraduated);
    }
    curve.is_graduated = true;
    Ok(TokenGraduated { sol_raised: curve.real_sol_balance })
}

/// Platform-wide configuration: the fee rate and the graduation threshold
/// every curve trades under, plus a count of the tokens created so far.
/// Who administers the platform and where fees are paid are identities the
/// surrounding system keeps; the core only reads these numbers.
#[derive(Clone, Copy, Debug, PartialEq, Eq, Structural)]
pub struct PlatformConfig {
    /// Platform fee in basis points.
    pub fee_bps: u64,
    /// Real SOL, in lamports, a curve must raise to graduate.
    pub grad_threshold: u64,
    /// How many tokens have been created on the platform.
    pub total_tokens: u64,
}

/// Builds the platform configuration record, run once when the platform is
/// set up.
pub fn initialize_platform(fee_bps: u64, graduation_threshold: u64) -> (config: PlatformConfig)
    ensures
        config == (PlatformConfig {
            fee_bps,
            grad_threshold: graduation_threshold,
            total_tokens: 0,
        }),
{
    PlatformConfig { fee_bps, grad_threshold: graduation_threshold, total_tokens: 0 }
}

/// The descriptive metadata stored for a token at creation, after
/// validation. Timestamps and on-ledger identities are attached by the
/// surrounding system.
#[derive(Debug)]
pub struct TokenMeta {
    /// Display name, 1 to 32 bytes.
    pub name: String,
    /// Ticker symbol, 1 to 10 bytes.
    pub symbol: String,
    /// Metadata URI, 1 to 200 bytes.
    pub uri: String,
    /// Free-form description; not validated.
    pub description: String,
}

/// The UTF-8 byte length of a string value.
pub open spec fn utf8_length(s: Seq<char>) -> nat {
    encode_utf8(s).len()
}

/// The first metadata check `create_token` fails on, or `None` when the
/// metadata is accepted: the name, then the symbol, then the URI must each
/// be non-empty and within its byte-length cap.
pub open spec fn metadata_error(
    name: Seq<char>,
    symbol: Seq<char>,
    uri: Seq<char>,
) -> Option<ErrorCode> {
    if utf8_length(name) == 0 || utf8_length(name) > MAX_NAME_LEN {
        Some(ErrorCode::InvalidName)
    } else if utf8_length(symbol) == 0 || utf8_length(symbol) > MAX_SYMBOL_LEN {
        Some(ErrorCode::InvalidSymbol)
    } else if utf8_length(uri) == 0 || utf8_length(uri) > MAX_URI_LEN {
        Some(ErrorCode::InvalidUri)
    } else {
        None
    }
}

/// The reserves every newly created curve starts with: the fixed virtual
/// reserves, the full real token allotment, no SOL raised, nothing in
/// circulation, not graduated.
pub open spec fn initial_curve() -> BondingCurve {
    BondingCurve {
        virtual_sol_reserve: INITIAL_VIRTUAL_SOL_RESERVE,
        virtual_token_reserve: INITIAL_VIRTUAL_TOKEN_RESERVE,
        real_sol_balance: 0,
        real_token_reserve: INITIAL_REAL_TOKEN_RESERVE,
        token_total_supply: 0,
        is_graduated: false,
    }
}

/// Creates a token on the platform: validates the metadata lengths, and on
/// success returns the stored metadata together with a fresh `Active`
/// bonding curve at the fixed starting reserves, counting the token in the
/// platform configuration. The surrounding system is responsible for
/// making creation unique per token identity and for minting the initial
/// real token reserve into the curve's custody. On a validation failure
/// the configuration is left unchanged.
pub fn create_token(
    config: &mut PlatformConfig,
    name: String,
    symbol: String,
    uri: String,
    description: String,
) -> (result: Result<(TokenMeta, BondingCurve), ErrorCode>)
    requires
        old(config).total_tokens < u64::MAX,
    ensures
        ({
            match metadata_error(name@, symbol@, uri@) {
                Some(e) => {
                    &&& result matches Err(err) && err == e
                    &&& *final(config) == *old(config)
                },
                None => {
                    &&& result matches Ok(r) && ({
                        &&& r.0.name@ == name@
                        &&& r.0.symbol@ == symbol@
                        &&& r.0.uri@ == uri@
                        &&& r.0.description@ == description@
                        &&& r.1 == initial_curve()
                        &&& curve_wf(r.1)
                    })
                    &&& *final(config) == (PlatformConfig {
                        total_tokens: (old(config).total_tokens + 1) as u64,
                        ..*old(config)
                    })
                },
            }
        }),
{
    let name_len = name.as_str().as_bytes().len();
    if name_len == 0 || name_len > MAX_NAME_LEN {
        return Err(ErrorCode::InvalidName);
    }
    let symbol_len = symbol.as_str().as_bytes().len();
    if symbol_len == 0 || symbol_len > MAX_SYMBOL_LEN {
        return Err(ErrorCode::InvalidSymbol);
    }
    let uri_len = uri.as_str().as_bytes().len();
    if uri_len == 0 || uri_len > MAX_URI_LEN {
        return Err(ErrorCode::InvalidUri);
    }

    let meta = TokenMeta { name, symbol, uri, description };
    let curve = BondingCurve {
        virtual_sol_reserve: INITIAL_VIRTUAL_SOL_RESERVE,
        virtual_token_reserve: INITIAL_VIRTUAL_TOKEN_RESERVE,
        real_sol_balance: 0,
        real_token_reserve: INITIAL_REAL_TOKEN_RESERVE,
        token_total_supply: 0,
        is_graduated: false,
    };
    config.total_tokens = config.total_tokens + 1;

    Ok((meta, curve))
}

/// LAW (constant product across a buy): a trade that `buy` accepts moves
/// the product of the two virtual reserves only by integer rounding — it
/// never rises, and it falls by less than one unit of the new SOL reserve.
pub proof fn lemma_buy_transition_keeps_product(
    c: BondingCurve,
    sol_amount: u64,
    min_tokens_out: u64,
    fee_bps: u64,
)
    requires
        curve_wf(c),
        buy_error(c, sol_amount, min_tokens_out, fee_bps) is None,
    ensures
        ({
            let sol_for_curve = amount_after_fee(
                sol_amount as int,
                fee_bps as int,
                BPS_DENOMINATOR as int,
            );
            let out = buy_token_output(c, sol_amount, fee_bps);
            let pre_product = c.virtual_sol_reserve * c.virtual_token_reserve;
            let post_product = (c.virtual_sol_reserve + sol_for_curve) * (c.virtual_token_reserve
                - out);
            pre_product - (c.virtual_sol_reserve + sol_for_curve) < post_product <= pre_product
        }),
{
    let vs = c.virtual_sol_reserve as int;
    let vt = c.virtual_token_reserve as int;
    let sol_for_curve = amount_after_fee(sol_amount as int, fee_bps as int, BPS_DENOMINATOR as int);
    // An accepted buy pays out tokens, so some SOL reached the curve: a
    // fully-consumed payment would move no reserves at all.
    if sol_for_curve == 0 {
        lemma_div_multiples_vanish(vt, vs);
        assert(buy_token_output(c, sol_amount, fee_bps) == 0);
        assert(false);
    }
    lemma_buy_preserves_product(vs, vt, sol_for_curve);
}

/// LAW (constant product across a sell): the same bound for a trade that
/// `sell` accepts, with the new token reserve as the rounding unit.
pub proof fn lemma_sell_transition_keeps_product(
    c: BondingCurve,
    token_amount: u64,
    min_sol_out: u64,
    seller_token_balance: u64,
    fee_bps: u64,
)
    requires
        curve_wf(c),
        sell_error(c, token_amount, min_sol_out, seller_token_balance, fee_bps) is None,
    ensures
        ({
            let out = sell_sol_output(c, token_amount);
            let pre_product = c.virtual_sol_reserve * c.virtual_token_reserve;
            let post_product = (c.virtual_sol_reserve - out) * (c.virtual_token_reserve
                + token_amount);
            pre_product - (c.virtual_token_reserve + token_amount) < post_product <= pre_product
        }),
{
    let vs = c.virtual_sol_reserve as int;
    let vt = c.virtual_token_reserve as int;
    // An accepted sell finds tokens on the curve's books, so the token
    // reserve cannot be empty: with nothing on the token side the formula
    // would ask the curve for its whole virtual SOL reserve, which exceeds
    // the real balance it custodies.
    if vt == 0 {
        assert(vs * vt == 0) by (nonlinear_arith)
            requires
                vt == 0;
        lemma_div_of0(vt + token_amount);
        assert(sell_sol_output(c, token_amount) == vs);
        assert(false);
    }
    lemma_sell_preserves_product(vs, vt, token_amount as int);
}

} // verus!
