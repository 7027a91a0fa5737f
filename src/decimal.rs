//! A fixed-point decimal held as a mantissa and a scale, the number
//! `mantissa / 10^scale`. Comparison and rounding arithmetic are those of
//! `rust_decimal`, called through the trusted functions below.
use rust_decimal::prelude::ToPrimitive;
use rust_decimal::MathematicalOps;
use vstd::prelude::*;

verus! {

/// Largest magnitude of a mantissa: 2^96 - 1.
pub const MAX_MANTISSA: i128 = 79228162514264337593543950335;

/// Largest number of digits after the decimal point.
pub const MAX_SCALE: u32 = 28;

/// 10 to the power `n`.
pub open spec fn pow10(n: nat) -> int
    decreases n,
{
    if n == 0 {
        1
    } else {
        10 * pow10((n - 1) as nat)
    }
}

/// A representation `(mantissa, scale)` that a decimal can hold.
pub open spec fn valid(d: (int, nat)) -> bool {
    -MAX_MANTISSA <= d.0 <= MAX_MANTISSA && d.1 <= MAX_SCALE
}

/// The sign of `a - b` as numbers: -1, 0 or 1.
pub open spec fn compare_spec(a: (int, nat), b: (int, nat)) -> int {
    let l = a.0 * pow10(b.1);
    let r = b.0 * pow10(a.1);
    if l < r {
        -1
    } else if l == r {
        0
    } else {
        1
    }
}

/// The largest integer not above the number `d`.
pub open spec fn floor_spec(d: (int, nat)) -> int {
    d.0 / pow10(d.1)
}

/// The number `d` with its fractional part dropped.
pub open spec fn trunc_spec(d: (int, nat)) -> int {
    if d.0 >= 0 {
        d.0 / pow10(d.1)
    } else {
        -((-d.0) / pow10(d.1))
    }
}

/// What `rust_decimal` gives for `a + b`, as `(mantissa, scale)`; `None` on overflow.
pub uninterp spec fn decimal_sum(a: (int, nat), b: (int, nat)) -> Option<(int, nat)>;

/// What `rust_decimal` gives for `a - b`, as `(mantissa, scale)`; `None` on overflow.
pub uninterp spec fn decimal_difference(a: (int, nat), b: (int, nat)) -> Option<(int, nat)>;

/// What `rust_decimal` gives for `a * b`, as `(mantissa, scale)`; `None` on overflow.
pub uninterp spec fn decimal_product(a: (int, nat), b: (int, nat)) -> Option<(int, nat)>;

/// What `rust_decimal` gives for `a / b`, as `(mantissa, scale)`; `None` on overflow
/// or a zero divisor.
pub uninterp spec fn decimal_quotient(a: (int, nat), b: (int, nat)) -> Option<(int, nat)>;

/// What `rust_decimal` gives for `a` to the power -1, as `(mantissa, scale)`.
pub uninterp spec fn decimal_reciprocal(a: (int, nat)) -> Option<(int, nat)>;

/// The decimal that `rust_decimal` reads from its 16-byte serialized form.
pub uninterp spec fn decoded_decimal(bytes: Seq<u8>) -> (int, nat);

/// A fixed-point decimal: the number `mantissa / 10^scale`.
#[derive(Clone, Copy, Debug)]
pub struct Decimal {
    pub mantissa: i128,
    pub scale: u32,
}

impl View for Decimal {
    type V = (int, nat);

    open spec fn view(&self) -> (int, nat) {
        (self.mantissa as int, self.scale as nat)
    }
}

/// The representation held in an optional decimal.
pub open spec fn opt_view(d: Option<Decimal>) -> Option<(int, nat)> {
    match d {
        Some(x) => Some(x@),
        None => None,
    }
}

/// An optional decimal that, where present, is well formed.
pub open spec fn opt_wf(d: Option<Decimal>) -> bool {
    match d {
        Some(x) => x.wf(),
        None => true,
    }
}

impl Decimal {
    pub open spec fn wf(self) -> bool {
        valid(self@)
    }

    /// The number `num / 10^scale`.
    pub fn new(num: i64, scale: u32) -> (r: Decimal)
        requires
            scale <= MAX_SCALE,
        ensures
            r@ == (num as int, scale as nat),
            r.wf(),
    {
        Decimal { mantissa: num as i128, scale }
    }

    pub fn zero() -> (r: Decimal)
        ensures
            r@ == (0int, 0nat),
            r.wf(),
    {
        Decimal { mantissa: 0, scale: 0 }
    }

    pub fn one() -> (r: Decimal)
        ensures
            r@ == (1int, 0nat),
            r.wf(),
    {
        Decimal { mantissa: 1, scale: 0 }
    }

    /// The integer `n`, with scale 0.
    pub fn from_u64(n: u64) -> (r: Decimal)
        ensures
            r@ == (n as int, 0nat),
            r.wf(),
    {
        Decimal { mantissa: n as i128, scale: 0 }
    }

    pub fn is_zero(&self) -> (r: bool)
        ensures
            r == (self@.0 == 0),
    {
        self.mantissa == 0
    }

    /// Relies on `Ord::cmp` of `rust_decimal::Decimal`: it orders by numeric value.
    #[verifier::external_body]
    pub(crate) fn compare(&self, other: &Decimal) -> (r: i8)
        requires
            self.wf(),
            other.wf(),
        ensures
            r as int == compare_spec(self@, other@),
    {
        let a = rust_decimal::Decimal::from_i128_with_scale(self.mantissa, self.scale);
        let b = rust_decimal::Decimal::from_i128_with_scale(other.mantissa, other.scale);
        match a.cmp(&b) {
            core::cmp::Ordering::Less => -1,
            core::cmp::Ordering::Equal => 0,
            core::cmp::Ordering::Greater => 1,
        }
    }

    /// The larger of the two; `self` where they are equal.
    pub fn max(self, other: Decimal) -> (r: Decimal)
        requires
            self.wf(),
            other.wf(),
        ensures
            r == (if compare_spec(self@, other@) < 0 { other } else { self }),
    {
        if self.compare(&other) < 0 {
            other
        } else {
            self
        }
    }

    /// The smaller of the two; `self` where they are equal.
    pub fn min(self, other: Decimal) -> (r: Decimal)
        requires
            self.wf(),
            other.wf(),
        ensures
            r == (if compare_spec(self@, other@) > 0 { other } else { self }),
    {
        if self.compare(&other) > 0 {
            other
        } else {
            self
        }
    }

    /// Relies on `rust_decimal::Decimal::checked_add`. A zero operand gives the
    /// other one back unchanged, and two integers of scale 0 add exactly where
    /// the sum fits in the mantissa.
    #[verifier::external_body]
    pub(crate) fn checked_add(self, other: Decimal) -> (r: Option<Decimal>)
        requires
            self.wf(),
            other.wf(),
        ensures
            opt_view(r) == decimal_sum(self@, other@),
            opt_wf(r),
            self@.0 == 0 ==> opt_view(r) == Some(other@),
            self@.0 != 0 && other@.0 == 0 ==> opt_view(r) == Some(self@),
            self@.1 == 0 && other@.1 == 0 && -MAX_MANTISSA <= self@.0 + other@.0 <= MAX_MANTISSA
                ==> opt_view(r) == Some((self@.0 + other@.0, 0nat)),
    {
        let a = rust_decimal::Decimal::from_i128_with_scale(self.mantissa, self.scale);
        let b = rust_decimal::Decimal::from_i128_with_scale(other.mantissa, other.scale);
        match a.checked_add(b) {
            Some(d) => Some(Decimal { mantissa: d.mantissa(), scale: d.scale() }),
            None => None,
        }
    }

    /// Relies on `rust_decimal::Decimal::checked_sub`. Subtracting zero gives
    /// `self` back, subtracting from zero negates, equal numbers give zero, and
    /// two integers of scale 0 subtract exactly where the difference fits.
    #[verifier::external_body]
    pub(crate) fn checked_sub(self, other: Decimal) -> (r: Option<Decimal>)
        requires
            self.wf(),
            other.wf(),
        ensures
            opt_view(r) == decimal_difference(self@, other@),
            opt_wf(r),
            self@.0 == 0 ==> opt_view(r) == Some((-other@.0, other@.1)),
            self@.0 != 0 && other@.0 == 0 ==> opt_view(r) == Some(self@),
            compare_spec(self@, other@) == 0 ==> r is Some && r.unwrap()@.0 == 0,
            self@.1 == 0 && other@.1 == 0 && -MAX_MANTISSA <= self@.0 - other@.0 <= MAX_MANTISSA
                ==> opt_view(r) == Some((self@.0 - other@.0, 0nat)),
    {
        let a = rust_decimal::Decimal::from_i128_with_scale(self.mantissa, self.scale);
        let b = rust_decimal::Decimal::from_i128_with_scale(other.mantissa, other.scale);
        match a.checked_sub(b) {
            Some(d) => Some(Decimal { mantissa: d.mantissa(), scale: d.scale() }),
            None => None,
        }
    }

    /// Relies on `rust_decimal::Decimal::checked_mul`. A zero operand gives
    /// zero of scale 0.
    #[verifier::external_body]
    pub(crate) fn checked_mul(self, other: Decimal) -> (r: Option<Decimal>)
        requires
            self.wf(),
            other.wf(),
        ensures
            opt_view(r) == decimal_product(self@, other@),
            opt_wf(r),
            self@.0 == 0 || other@.0 == 0 ==> opt_view(r) == Some((0int, 0nat)),
    {
        let a = rust_decimal::Decimal::from_i128_with_scale(self.mantissa, self.scale);
        let b = rust_decimal::Decimal::from_i128_with_scale(other.mantissa, other.scale);
        match a.checked_mul(b) {
            Some(d) => Some(Decimal { mantissa: d.mantissa(), scale: d.scale() }),
            None => None,
        }
    }

    /// Relies on `rust_decimal::Decimal::checked_div`. A zero divisor gives
    /// `None`; a zero dividend over another divisor gives zero of scale 0.
    #[verifier::external_body]
    pub(crate) fn checked_div(self, other: Decimal) -> (r: Option<Decimal>)
        requires
            self.wf(),
            other.wf(),
        ensures
            opt_view(r) == decimal_quotient(self@, other@),
            opt_wf(r),
            other@.0 == 0 ==> r is None,
            self@.0 == 0 && other@.0 != 0 ==> opt_view(r) == Some((0int, 0nat)),
    {
        let a = rust_decimal::Decimal::from_i128_with_scale(self.mantissa, self.scale);
        let b = rust_decimal::Decimal::from_i128_with_scale(other.mantissa, other.scale);
        match a.checked_div(b) {
            Some(d) => Some(Decimal { mantissa: d.mantissa(), scale: d.scale() }),
            None => None,
        }
    }

    /// Relies on `MathematicalOps::checked_powi` of `rust_decimal` with exponent -1.
    #[verifier::external_body]
    pub(crate) fn reciprocal(self) -> (r: Option<Decimal>)
        requires
            self.wf(),
        ensures
            opt_view(r) == decimal_reciprocal(self@),
            opt_wf(r),
    {
        let a = rust_decimal::Decimal::from_i128_with_scale(self.mantissa, self.scale);
        match a.checked_powi(-1) {
            Some(d) => Some(Decimal { mantissa: d.mantissa(), scale: d.scale() }),
            None => None,
        }
    }

    /// Relies on `rust_decimal::Decimal::floor`: the largest integer not above the number.
    #[verifier::external_body]
    pub(crate) fn floor(self) -> (r: Decimal)
        requires
            self.wf(),
        ensures
            r.wf(),
            r@.0 == floor_spec(self@) * pow10(r@.1),
    {
        let a = rust_decimal::Decimal::from_i128_with_scale(self.mantissa, self.scale);
        let d = a.floor();
        Decimal { mantissa: d.mantissa(), scale: d.scale() }
    }

    /// Relies on `ToPrimitive::to_u64` of `rust_decimal`: `None` for a negative
    /// number, else the truncated number where it fits in a `u64`.
    #[verifier::external_body]
    pub(crate) fn to_u64(self) -> (r: Option<u64>)
        requires
            self.wf(),
        ensures
            r == (if self@.0 < 0 || trunc_spec(self@) > u64::MAX {
                None
            } else {
                Some(trunc_spec(self@) as u64)
            }),
    {
        let a = rust_decimal::Decimal::from_i128_with_scale(self.mantissa, self.scale);
        a.to_u64()
    }

    /// Relies on `rust_decimal::Decimal::deserialize`, which reads the 16-byte
    /// serialized form of a decimal.
    #[verifier::external_body]
    pub(crate) fn deserialize(bytes: [u8; 16]) -> (r: Decimal)
        ensures
            r.wf(),
            r@ == decoded_decimal(bytes@),
    {
        let d = rust_decimal::Decimal::deserialize(bytes);
        Decimal { mantissa: d.mantissa(), scale: d.scale() }
    }
}

} // verus!
