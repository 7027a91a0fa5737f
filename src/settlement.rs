//! Settlement of a forward: quote normalization, the payoff formula, and the
//! clamping and rounding that hand the pool back to the two sides.
use crate::decimal::{
    compare_spec, decimal_difference, decimal_product, decimal_quotient, decimal_reciprocal,
    decimal_sum, decoded_decimal, floor_spec, opt_view, opt_wf, pow10, trunc_spec, Decimal,
};
use vstd::prelude::*;

verus! {

/// Why a settlement was refused.
#[derive(Clone, Copy, Debug, PartialEq, Eq, Structural)]
pub enum RedeemLogicErrors {
    GenericError,
    InvalidInput,
    MathError,
}

/// The quantities after a settlement: senior and junior, and the fee left over
/// by rounding.
#[derive(Clone, Copy, Debug)]
pub struct RedeemLogicExecuteResult {
    pub new_quantity: [u64; 2],
    pub fee_quantity: u64,
}

/// A settlement outcome as `(senior, junior, fee)`.
pub open spec fn outcome(r: Result<RedeemLogicExecuteResult, RedeemLogicErrors>) -> Result<
    (int, int, int),
    RedeemLogicErrors,
> {
    match r {
        Ok(res) => Ok(
            (
                res.new_quantity@[0] as int,
                res.new_quantity@[1] as int,
                res.fee_quantity as int,
            ),
        ),
        Err(e) => Err(e),
    }
}

/// The larger of `a` and `b`; `a` where they are equal.
pub open spec fn max_spec(a: (int, nat), b: (int, nat)) -> (int, nat) {
    if compare_spec(a, b) < 0 {
        b
    } else {
        a
    }
}

/// The smaller of `a` and `b`; `a` where they are equal.
pub open spec fn min_spec(a: (int, nat), b: (int, nat)) -> (int, nat) {
    if compare_spec(a, b) > 0 {
        b
    } else {
        a
    }
}

/// The settlement price in standard quoting: a price quoted inversely is
/// inverted, but zero stays zero.
pub open spec fn normalized_spec(settle: (int, nat), is_standard: bool) -> Option<(int, nat)> {
    if is_standard || settle.0 == 0 {
        Some(settle)
    } else {
        decimal_reciprocal(settle)
    }
}

/// `notional * (underlying - strike) / denominator`, with the denominator 1 for
/// a linear payoff and the underlying price for an inverse one; the notional
/// alone where an inverse payoff has a zero underlying price and a zero strike.
pub open spec fn factor_spec(
    underlying: (int, nat),
    strike: (int, nat),
    notional: u64,
    is_linear: bool,
) -> Option<(int, nat)> {
    if underlying.0 == 0 && !is_linear && strike.0 == 0 {
        Some((notional as int, 0nat))
    } else {
        match decimal_difference(underlying, strike) {
            Some(d) => match decimal_product((notional as int, 0nat), d) {
                Some(p) => decimal_quotient(
                    p,
                    if is_linear {
                        (1int, 0nat)
                    } else {
                        underlying
                    },
                ),
                None => None,
            },
            None => None,
        }
    }
}

/// The change of the senior quantity: the normalized settlement price times
/// the payoff factor.
pub open spec fn payoff_spec(
    underlying: (int, nat),
    settle: (int, nat),
    strike: (int, nat),
    notional: u64,
    is_linear: bool,
    is_standard: bool,
) -> Option<(int, nat)> {
    match normalized_spec(settle, is_standard) {
        Some(s) => match factor_spec(underlying, strike, notional, is_linear) {
            Some(f) => decimal_product(s, f),
            None => None,
        },
        None => None,
    }
}

/// The senior side's whole units once the number `x` is clamped into
/// `[0, total]` and floored.
pub open spec fn clamped_senior(total: int, x: (int, nat)) -> int {
    floor_spec(min_spec((total, 0nat), max_spec((0int, 0nat), x)))
}

/// Clamping and rounding of `senior + payoff` into the pool of
/// `senior + junior`, as `(senior, junior, fee)`.
pub open spec fn clamp_spec(senior: int, junior: int, payoff: (int, nat)) -> Result<
    (int, int, int),
    RedeemLogicErrors,
> {
    let total = senior + junior;
    if total > u64::MAX {
        Err(RedeemLogicErrors::MathError)
    } else {
        match decimal_sum((senior, 0nat), payoff) {
            None => Err(RedeemLogicErrors::MathError),
            Some(x) => {
                let t = (total, 0nat);
                let senior_dec = min_spec(t, max_spec((0int, 0nat), x));
                match decimal_difference(t, senior_dec) {
                    None => Err(RedeemLogicErrors::MathError),
                    Some(d) => {
                        let junior_dec = max_spec((0int, 0nat), d);
                        let s = clamped_senior(total, x);
                        let j = floor_spec(junior_dec);
                        if s < 0 || s > u64::MAX || j < 0 || j > u64::MAX || s + j > total {
                            Err(RedeemLogicErrors::MathError)
                        } else {
                            Ok((s, j, total - s - j))
                        }
                    },
                }
            },
        }
    }
}

/// The whole settlement, as `(senior, junior, fee)`.
pub open spec fn settle_spec(
    senior: int,
    junior: int,
    underlying: (int, nat),
    settle: (int, nat),
    strike: (int, nat),
    notional: u64,
    is_linear: bool,
    is_standard: bool,
) -> Result<(int, int, int), RedeemLogicErrors> {
    if underlying.0 < 0 || strike.0 < 0 {
        Err(RedeemLogicErrors::InvalidInput)
    } else if senior + junior > u64::MAX {
        Err(RedeemLogicErrors::MathError)
    } else if underlying.0 == 0 && !is_linear && strike.0 > 0 {
        Ok((0, senior + junior, 0))
    } else {
        match payoff_spec(underlying, settle, strike, notional, is_linear, is_standard) {
            None => Err(RedeemLogicErrors::MathError),
            Some(p) => clamp_spec(senior, junior, p),
        }
    }
}

proof fn lemma_pow10_positive(n: nat)
    ensures
        pow10(n) > 0,
    decreases n,
{
    if n > 0 {
        lemma_pow10_positive((n - 1) as nat);
    }
}

/// A number held as `f * 10^s` truncates to `f`, and is negative exactly when `f` is.
proof fn lemma_scaled_integer(f: int, s: nat)
    ensures
        trunc_spec((f * pow10(s), s)) == f,
        (f * pow10(s) < 0) == (f < 0),
{
    let p = pow10(s);
    lemma_pow10_positive(s);
    vstd::arithmetic::div_mod::lemma_div_multiples_vanish(f, p);
    vstd::arithmetic::div_mod::lemma_div_multiples_vanish(-f, p);
    assert(p * f == f * p) by (nonlinear_arith);
    assert(p * (-f) == -(f * p)) by (nonlinear_arith);
    assert((f * p < 0) == (f < 0)) by (nonlinear_arith)
        requires
            p > 0,
    ;
}

/// Comparing with zero reads the sign of the mantissa.
proof fn lemma_compare_zero(a: (int, nat))
    ensures
        compare_spec(a, (0int, 0nat)) == (if a.0 < 0 {
            -1int
        } else if a.0 == 0 {
            0int
        } else {
            1int
        }),
        compare_spec((0int, 0nat), a) == (if a.0 > 0 {
            -1int
        } else if a.0 == 0 {
            0int
        } else {
            1int
        }),
{
    assert(pow10(0) == 1);
    lemma_pow10_positive(a.1);
    assert(0 * pow10(a.1) == 0);
}

/// Equal numbers have mantissas of the same sign.
proof fn lemma_equal_sign(a: (int, nat), b: (int, nat))
    requires
        compare_spec(a, b) == 0,
    ensures
        (a.0 < 0) == (b.0 < 0),
        (a.0 == 0) == (b.0 == 0),
{
    let pa = pow10(a.1);
    let pb = pow10(b.1);
    lemma_pow10_positive(a.1);
    lemma_pow10_positive(b.1);
    assert((a.0 < 0) == (b.0 < 0) && (a.0 == 0) == (b.0 == 0)) by (nonlinear_arith)
        requires
            a.0 * pb == b.0 * pa,
            pa > 0,
            pb > 0,
    ;
}

/// Two numbers of scale 0 compare as their mantissas.
proof fn lemma_compare_integers(a: int, b: int)
    ensures
        compare_spec((a, 0nat), (b, 0nat)) == (if a < b {
            -1int
        } else if a == b {
            0int
        } else {
            1int
        }),
{
    assert(pow10(0) == 1);
}

/// The settlement price in standard quoting: returned unchanged where it is
/// quoted in standard form or is zero, else inverted.
pub fn normalize_settlement(settle: Decimal, is_standard: bool) -> (r: Option<Decimal>)
    requires
        settle.wf(),
    ensures
        opt_view(r) == normalized_spec(settle@, is_standard),
        opt_wf(r),
{
    if is_standard || settle.is_zero() {
        Some(settle)
    } else {
        settle.reciprocal()
    }
}

/// The change of the senior quantity for a new underlying price, a new
/// settlement price, and the contract's strike, notional and conventions.
/// `None` where the decimal arithmetic fails.
pub fn payoff(
    underlying: Decimal,
    settle: Decimal,
    strike: Decimal,
    notional: u64,
    is_linear: bool,
    is_standard: bool,
) -> (r: Option<Decimal>)
    requires
        underlying.wf(),
        settle.wf(),
        strike.wf(),
    ensures
        opt_view(r) == payoff_spec(underlying@, settle@, strike@, notional, is_linear, is_standard),
        opt_wf(r),
        is_standard && compare_spec(underlying@, strike@) == 0 && !(underlying@.0 == 0
            && !is_linear && notional > 0) ==> opt_view(r) == Some((0int, 0nat)),
{
    let settle = match normalize_settlement(settle, is_standard) {
        Some(s) => s,
        None => return None,
    };
    let notional_dec = Decimal::from_u64(notional);
    let factor = if underlying.is_zero() && !is_linear && strike.is_zero() {
        notional_dec
    } else {
        let diff = match underlying.checked_sub(strike) {
            Some(d) => d,
            None => return None,
        };
        let scaled = match notional_dec.checked_mul(diff) {
            Some(m) => m,
            None => return None,
        };
        let denominator = if is_linear {
            Decimal::one()
        } else {
            underlying
        };
        match scaled.checked_div(denominator) {
            Some(q) => q,
            None => return None,
        }
    };
    proof {
        if compare_spec(underlying@, strike@) == 0 && underlying@.0 == 0 {
            let p = pow10(underlying@.1);
            lemma_pow10_positive(underlying@.1);
            assert(strike@.0 * p == 0) by (nonlinear_arith)
                requires
                    underlying@.0 * pow10(strike@.1) == strike@.0 * p,
                    underlying@.0 == 0,
            ;
            assert(strike@.0 == 0) by (nonlinear_arith)
                requires
                    strike@.0 * p == 0,
                    p > 0,
            ;
        }
    }
    settle.checked_mul(factor)
}

/// Clamps `senior + payoff` into the pool of `senior + junior`, floors both
/// sides to whole units, and keeps what the flooring leaves as the fee.
pub fn clamp_and_round(old_quantity: [u64; 2], payoff: Decimal) -> (r: Result<
    RedeemLogicExecuteResult,
    RedeemLogicErrors,
>)
    requires
        payoff.wf(),
    ensures
        outcome(r) == clamp_spec(old_quantity@[0] as int, old_quantity@[1] as int, payoff@),
        payoff@.0 == 0 && old_quantity@[0] + old_quantity@[1] <= u64::MAX ==> outcome(r)
            == Ok::<(int, int, int), RedeemLogicErrors>(
            (old_quantity@[0] as int, old_quantity@[1] as int, 0int),
        ),
{
    let senior = old_quantity[0];
    let junior = old_quantity[1];
    let total = match senior.checked_add(junior) {
        Some(t) => t,
        None => return Err(RedeemLogicErrors::MathError),
    };
    let zero = Decimal::zero();
    let total_dec = Decimal::from_u64(total);
    let senior_plus = match Decimal::from_u64(senior).checked_add(payoff) {
        Some(x) => x,
        None => return Err(RedeemLogicErrors::MathError),
    };
    let senior_dec = total_dec.min(zero.max(senior_plus));
    let remainder = match total_dec.checked_sub(senior_dec) {
        Some(d) => d,
        None => return Err(RedeemLogicErrors::MathError),
    };
    let junior_dec = zero.max(remainder);
    proof {
        if payoff@.0 == 0 {
            lemma_compare_zero(senior_plus@);
            lemma_compare_integers(total as int, senior as int);
            lemma_compare_integers(0, senior as int);
            assert(senior_dec@ == (senior as int, 0nat));
            assert(remainder@ == (junior as int, 0nat));
            lemma_compare_integers(0, junior as int);
            assert(junior_dec@ == (junior as int, 0nat));
            assert(pow10(0) == 1);
        }
    }
    let senior_floor = senior_dec.floor();
    proof {
        lemma_scaled_integer(floor_spec(senior_dec@), senior_floor@.1);
    }
    let senior_new = match senior_floor.to_u64() {
        Some(v) => v,
        None => return Err(RedeemLogicErrors::MathError),
    };
    let junior_floor = junior_dec.floor();
    proof {
        lemma_scaled_integer(floor_spec(junior_dec@), junior_floor@.1);
    }
    let junior_new = match junior_floor.to_u64() {
        Some(v) => v,
        None => return Err(RedeemLogicErrors::MathError),
    };
    let fee = match total.checked_sub(senior_new) {
        Some(v) => match v.checked_sub(junior_new) {
            Some(f) => f,
            None => return Err(RedeemLogicErrors::MathError),
        },
        None => return Err(RedeemLogicErrors::MathError),
    };
    Ok(RedeemLogicExecuteResult { new_quantity: [senior_new, junior_new], fee_quantity: fee })
}

/// Settles the pool `old_quantity = [senior, junior]` at a new underlying
/// price and a new settlement price.
///
/// Besides the exact outcome, the contract states: the quantities are
/// conserved, what flooring leaves going to the fee; with the underlying at
/// the strike and a settlement price of 1 in standard quoting nothing moves;
/// an inverse contract whose underlying falls to zero against a positive
/// strike hands the whole pool to the junior side; and with a zero strike the
/// inverse payoff is the settlement price times the notional.
pub fn execute_plugin(
    old_quantity: [u64; 2],
    new_ul_spot: Decimal,
    new_settle_spot: Decimal,
    strike: Decimal,
    notional: u64,
    is_linear: bool,
    is_standard: bool,
) -> (r: Result<RedeemLogicExecuteResult, RedeemLogicErrors>)
    requires
        new_ul_spot.wf(),
        new_settle_spot.wf(),
        strike.wf(),
    ensures
        outcome(r) == settle_spec(
            old_quantity@[0] as int,
            old_quantity@[1] as int,
            new_ul_spot@,
            new_settle_spot@,
            strike@,
            notional,
            is_linear,
            is_standard,
        ),
        r matches Ok(res) ==> res.new_quantity@[0] + res.new_quantity@[1] + res.fee_quantity
            == old_quantity@[0] + old_quantity@[1],
        r matches Ok(res) ==> res.new_quantity@[0] >= 0 && res.new_quantity@[1] >= 0
            && res.fee_quantity >= 0,
        compare_spec(new_ul_spot@, strike@) == 0 && compare_spec(new_settle_spot@, (1int, 0nat))
            == 0 && is_standard && strike@.0 >= 0 && old_quantity@[0] + old_quantity@[1]
            <= u64::MAX && !(new_ul_spot@.0 == 0 && !is_linear && notional > 0) ==> outcome(r)
            == Ok::<(int, int, int), RedeemLogicErrors>(
            (old_quantity@[0] as int, old_quantity@[1] as int, 0int),
        ),
        new_ul_spot@.0 == 0 && !is_linear && strike@.0 > 0 && old_quantity@[0] + old_quantity@[1]
            <= u64::MAX ==> outcome(r) == Ok::<(int, int, int), RedeemLogicErrors>(
            (0int, old_quantity@[0] + old_quantity@[1], 0int),
        ),
        new_ul_spot@.0 == 0 && !is_linear && strike@.0 == 0 && old_quantity@[0]
            + old_quantity@[1] <= u64::MAX ==> outcome(r) == match normalized_spec(
            new_settle_spot@,
            is_standard,
        ) {
            Some(s) => match decimal_product(s, (notional as int, 0nat)) {
                Some(p) => clamp_spec(old_quantity@[0] as int, old_quantity@[1] as int, p),
                None => Err(RedeemLogicErrors::MathError),
            },
            None => Err(RedeemLogicErrors::MathError),
        },
{
    let zero = Decimal::zero();
    proof {
        lemma_compare_zero(new_ul_spot@);
        lemma_compare_zero(strike@);
        if compare_spec(new_ul_spot@, strike@) == 0 {
            lemma_equal_sign(new_ul_spot@, strike@);
        }
    }
    if new_ul_spot.compare(&zero) < 0 {
        return Err(RedeemLogicErrors::InvalidInput);
    }
    if strike.compare(&zero) < 0 {
        return Err(RedeemLogicErrors::InvalidInput);
    }
    let total = match old_quantity[0].checked_add(old_quantity[1]) {
        Some(t) => t,
        None => return Err(RedeemLogicErrors::MathError),
    };
    if new_ul_spot.is_zero() && !is_linear && strike.compare(&zero) > 0 {
        let res = RedeemLogicExecuteResult { new_quantity: [0, total], fee_quantity: 0 };
        return Ok(res);
    }
    let p = match payoff(new_ul_spot, new_settle_spot, strike, notional, is_linear, is_standard) {
        Some(p) => p,
        None => return Err(RedeemLogicErrors::MathError),
    };
    clamp_and_round(old_quantity, p)
}

/// The contract's parameters, fixed when it is created.
#[derive(Clone, Copy, Debug)]
pub struct RedeemLogicConfig {
    pub notional: u64,
    /// true if linear, false if inverse
    pub is_linear: bool,
    /// true if standard, false if inverse
    pub is_standard: bool,
    pub strike: Decimal,
}

impl RedeemLogicConfig {
    /// A well-formed, non-negative strike.
    pub open spec fn wf(self) -> bool {
        self.strike.wf() && self.strike@.0 >= 0
    }
}

/// Creates the parameters of a contract; a negative strike is refused.
pub fn initialize(strike: Decimal, notional: u64, is_linear: bool, is_standard: bool) -> (r: Result<
    RedeemLogicConfig,
    RedeemLogicErrors,
>)
    requires
        strike.wf(),
    ensures
        strike@.0 < 0 ==> r == Err::<RedeemLogicConfig, RedeemLogicErrors>(
            RedeemLogicErrors::InvalidInput,
        ),
        strike@.0 >= 0 ==> (r matches Ok(c) && c.wf() && c.strike == strike && c.notional
            == notional && c.is_linear == is_linear && c.is_standard == is_standard),
{
    proof {
        lemma_compare_zero(strike@);
    }
    if strike.compare(&Decimal::zero()) < 0 {
        return Err(RedeemLogicErrors::InvalidInput);
    }
    Ok(RedeemLogicConfig { notional, is_linear, is_standard, strike })
}

/// A settlement request: the current quantities, and the old and new fair
/// values in their 16-byte serialized form. Only the first two new fair values
/// are read: the underlying price and the settlement price.
#[derive(Clone, Copy, Debug)]
pub struct RedeemLogicExecuteInput {
    pub old_quantity: [u64; 2],
    pub old_reserve_fair_value: [[u8; 16]; 10],
    pub new_reserve_fair_value: [[u8; 16]; 10],
}

impl RedeemLogicExecuteInput {
    /// No fair value, old or new, is negative.
    pub open spec fn valid_spec(self) -> bool {
        (forall|i: int|
            0 <= i < 10 ==> decoded_decimal(#[trigger] self.old_reserve_fair_value@[i]@).0 >= 0)
            && (forall|i: int|
            0 <= i < 10 ==> decoded_decimal(#[trigger] self.new_reserve_fair_value@[i]@).0 >= 0)
    }

    /// Refuses a request with a negative fair value.
    pub fn is_valid(&self) -> (r: Result<(), RedeemLogicErrors>)
        ensures
            r == (if self.valid_spec() {
                Ok::<(), RedeemLogicErrors>(())
            } else {
                Err(RedeemLogicErrors::InvalidInput)
            }),
    {
        let zero = Decimal::zero();
        let mut i: usize = 0;
        while i < 10
            invariant
                i <= 10,
                zero@ == (0int, 0nat),
                forall|k: int| 0 <= k < i ==> decoded_decimal(#[trigger] self.old_reserve_fair_value@[k]@).0 >= 0,
            decreases 10 - i,
        {
            let d = Decimal::deserialize(self.old_reserve_fair_value[i]);
            proof {
                lemma_compare_zero(d@);
            }
            if d.compare(&zero) < 0 {
                assert(!self.valid_spec());
                return Err(RedeemLogicErrors::InvalidInput);
            }
            i = i + 1;
        }
        let mut i: usize = 0;
        while i < 10
            invariant
                i <= 10,
                zero@ == (0int, 0nat),
                forall|k: int| 0 <= k < 10 ==> decoded_decimal(#[trigger] self.old_reserve_fair_value@[k]@).0 >= 0,
                forall|k: int| 0 <= k < i ==> decoded_decimal(#[trigger] self.new_reserve_fair_value@[k]@).0 >= 0,
            decreases 10 - i,
        {
            let d = Decimal::deserialize(self.new_reserve_fair_value[i]);
            proof {
                lemma_compare_zero(d@);
            }
            if d.compare(&zero) < 0 {
                assert(!self.valid_spec());
                return Err(RedeemLogicErrors::InvalidInput);
            }
            i = i + 1;
        }
        Ok(())
    }
}

/// Validates a request and settles it under the contract's parameters.
pub fn execute(config: &RedeemLogicConfig, input_data: &RedeemLogicExecuteInput) -> (r: Result<
    RedeemLogicExecuteResult,
    RedeemLogicErrors,
>)
    requires
        config.strike.wf(),
    ensures
        !input_data.valid_spec() ==> r == Err::<RedeemLogicExecuteResult, RedeemLogicErrors>(
            RedeemLogicErrors::InvalidInput,
        ),
        input_data.valid_spec() ==> outcome(r) == settle_spec(
            input_data.old_quantity@[0] as int,
            input_data.old_quantity@[1] as int,
            decoded_decimal(input_data.new_reserve_fair_value@[0]@),
            decoded_decimal(input_data.new_reserve_fair_value@[1]@),
            config.strike@,
            config.notional,
            config.is_linear,
            config.is_standard,
        ),
{
    match input_data.is_valid() {
        Ok(()) => {},
        Err(e) => return Err(e),
    }
    let underlying = Decimal::deserialize(input_data.new_reserve_fair_value[0]);
    let settle = Decimal::deserialize(input_data.new_reserve_fair_value[1]);
    execute_plugin(
        input_data.old_quantity,
        underlying,
        settle,
        config.strike,
        config.notional,
        config.is_linear,
        config.is_standard,
    )
}

/// Flooring keeps the order of numbers.
proof fn lemma_floor_monotone(a: (int, nat), b: (int, nat))
    requires
        compare_spec(a, b) <= 0,
    ensures
        floor_spec(a) <= floor_spec(b),
{
    let pa = pow10(a.1);
    let pb = pow10(b.1);
    lemma_pow10_positive(a.1);
    lemma_pow10_positive(b.1);
    let fa = a.0 / pa;
    let fb = b.0 / pb;
    vstd::arithmetic::div_mod::lemma_fundamental_div_mod(a.0, pa);
    vstd::arithmetic::div_mod::lemma_fundamental_div_mod(b.0, pb);
    vstd::arithmetic::div_mod::lemma_mod_bound(a.0, pa);
    vstd::arithmetic::div_mod::lemma_mod_bound(b.0, pb);
    assert(fa * pa <= a.0);
    assert(b.0 < (fb + 1) * pb) by (nonlinear_arith)
        requires
            b.0 == pb * fb + b.0 % pb,
            b.0 % pb < pb,
    ;
    assert(fa * pb <= b.0) by (nonlinear_arith)
        requires
            fa * pa <= a.0,
            a.0 * pb <= b.0 * pa,
            pa > 0,
            pb > 0,
    ;
    assert(fa <= fb) by (nonlinear_arith)
        requires
            fa * pb <= b.0,
            b.0 < (fb + 1) * pb,
            pb > 0,
    ;
}

/// Clamping into `[0, total]` and flooring commute.
proof fn lemma_clamped_senior_floor(total: int, x: (int, nat))
    requires
        total >= 0,
    ensures
        clamped_senior(total, x) == if floor_spec(x) < 0 {
            0
        } else if floor_spec(x) > total {
            total
        } else {
            floor_spec(x)
        },
{
    assert(pow10(0) == 1);
    let z = (0int, 0nat);
    let t = (total, 0nat);
    let m = max_spec(z, x);
    if compare_spec(z, x) < 0 {
        lemma_floor_monotone(z, x);
    } else {
        lemma_floor_monotone(x, z);
    }
    if compare_spec(t, m) > 0 {
        lemma_floor_monotone(m, t);
    } else {
        lemma_floor_monotone(t, m);
    }
}

/// The senior side's whole units after clamping and flooring never fall as
/// the number `senior + payoff` rises.
pub proof fn lemma_clamped_senior_monotone(total: int, x1: (int, nat), x2: (int, nat))
    requires
        total >= 0,
        compare_spec(x1, x2) <= 0,
    ensures
        clamped_senior(total, x1) <= clamped_senior(total, x2),
{
    lemma_floor_monotone(x1, x2);
    lemma_clamped_senior_floor(total, x1);
    lemma_clamped_senior_floor(total, x2);
}

} // verus!
