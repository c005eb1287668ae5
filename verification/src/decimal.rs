//! Fixed-point decimals with 18 fractional digits, as used for weights,
//! ratios, percentages and rates, together with the integer operations on
//! amounts that they take part in.
use crate::text::nat_text;
use vstd::prelude::*;

verus! {

/// Number of atomic units in one whole unit of a [`Decimal`].
pub const DECIMAL_FRACTIONAL: u128 = 1_000_000_000_000_000_000u128;

/// Largest `u128`, as an integer.
pub open spec fn max_u128() -> int {
    u128::MAX as int
}

/// `floor(x * num / den)`, the value of a multiplication by a ratio.
pub open spec fn ratio_floor(x: int, num: int, den: int) -> int {
    (x * num) / den
}

/// `x * num / den` rounded down, or `None` when `den` is zero or the result does
/// not fit in a `u128`.
pub open spec fn spec_multiply_ratio(x: u128, num: u128, den: u128) -> Option<u128> {
    if den == 0 || ratio_floor(x as int, num as int, den as int) > max_u128() {
        None
    } else {
        Some(ratio_floor(x as int, num as int, den as int) as u128)
    }
}

/// Calls `cosmwasm_std::Uint128::checked_multiply_ratio`: the full 256-bit
/// product `x * num` divided by `den`, rounded down; the outside function
/// fails when `den` is zero or when the quotient exceeds `u128`. The contract
/// claims exactly that.
#[verifier::external_body]
pub(crate) fn multiply_ratio(x: u128, num: u128, den: u128) -> (r: Option<u128>)
    ensures
        r == spec_multiply_ratio(x, num, den),
{
    match cosmwasm_std::Uint128::new(x).checked_multiply_ratio(num, den) {
        Ok(v) => Some(v.u128()),
        Err(_) => None,
    }
}

/// `s` without its trailing zeros.
pub open spec fn trim_trailing_zeros(s: Seq<char>) -> Seq<char>
    decreases s.len(),
{
    if s.len() > 0 && s.last() == '0' {
        trim_trailing_zeros(s.drop_last())
    } else {
        s
    }
}

/// The decimal text of `n`, padded on the left with zeros to `width`
/// characters.
pub open spec fn zero_padded(n: nat, width: nat) -> Seq<char> {
    let t = nat_text(n);
    if t.len() >= width {
        t
    } else {
        Seq::new((width - t.len()) as nat, |i: int| '0') + t
    }
}

/// Text of the decimal with the given atomics: the whole part, then, when
/// the fraction is not zero, a point and its 18 digits without the trailing
/// zeros.
pub open spec fn decimal_text(atomics: u128) -> Seq<char> {
    let whole = (atomics / DECIMAL_FRACTIONAL) as nat;
    let fraction = (atomics % DECIMAL_FRACTIONAL) as nat;
    if fraction == 0 {
        nat_text(whole)
    } else {
        nat_text(whole) + seq!['.'] + trim_trailing_zeros(zero_padded(fraction, 18))
    }
}

/// Calls `<cosmwasm_std::Decimal as Display>::fmt` through `to_string` on the
/// decimal with the given atomics. Its source writes the whole part, then,
/// for a fraction that is not zero, a point and the fraction padded to 18
/// digits with the trailing zeros trimmed: the contract claims that text.
#[verifier::external_body]
fn display_decimal(atomics: u128) -> (s: String)
    ensures
        s@ == decimal_text(atomics),
{
    cosmwasm_std::Decimal::raw(atomics).to_string()
}

/// `10^n`.
pub open spec fn pow10(n: nat) -> nat
    decreases n,
{
    if n == 0 {
        1
    } else {
        10 * pow10((n - 1) as nat)
    }
}

/// The decimal that `from_atomics(atomics, places)` builds: `atomics * 10^-places`
/// expressed in 18 fractional digits, truncated; `None` when it exceeds the range.
pub open spec fn spec_from_atomics(atomics: u128, places: u32) -> Option<u128> {
    if places <= 18 {
        if atomics * pow10((18 - places) as nat) > max_u128() {
            None
        } else {
            Some((atomics * pow10((18 - places) as nat)) as u128)
        }
    } else {
        Some((atomics as int / pow10((places - 18) as nat) as int) as u128)
    }
}

/// Calls `cosmwasm_std::Decimal::from_atomics` and returns the atomics of the
/// result. The contract states the documented conversion: scale by a power of
/// ten, truncating, and fail when the scaled value exceeds the range.
#[verifier::external_body]
fn decimal_from_atomics(atomics: u128, places: u32) -> (r: Option<u128>)
    ensures
        r == spec_from_atomics(atomics, places),
{
    match cosmwasm_std::Decimal::from_atomics(atomics, places) {
        Ok(d) => Some(d.atomics().u128()),
        Err(_) => None,
    }
}

/// A non-negative decimal with 18 fractional digits, held by its atomic units.
#[derive(Clone, Copy, Debug, PartialEq, Eq, Structural)]
pub struct Decimal {
    pub atomics: u128,
}

impl Decimal {
    /// The decimal whose atomic units are `value`.
    pub fn raw(value: u128) -> (d: Decimal)
        ensures
            d.atomics == value,
    {
        Decimal { atomics: value }
    }

    /// Same as [`Decimal::raw`].
    pub fn new(value: u128) -> (d: Decimal)
        ensures
            d.atomics == value,
    {
        Decimal { atomics: value }
    }

    pub fn zero() -> (d: Decimal)
        ensures
            d.atomics == 0,
    {
        Decimal { atomics: 0 }
    }

    pub fn one() -> (d: Decimal)
        ensures
            d.atomics == DECIMAL_FRACTIONAL,
    {
        Decimal { atomics: DECIMAL_FRACTIONAL }
    }

    /// `x` percent.
    pub fn percent(x: u64) -> (d: Decimal)
        ensures
            d.atomics == x * 10_000_000_000_000_000,
    {
        Decimal { atomics: (x as u128) * 10_000_000_000_000_000u128 }
    }

    /// The decimal `atomics * 10^-places`; `None` when it is out of range.
    pub fn from_atomics(atomics: u128, places: u32) -> (r: Option<Decimal>)
        ensures
            match spec_from_atomics(atomics, places) {
                Some(a) => r == Some(Decimal { atomics: a }),
                None => r is None,
            },
    {
        match decimal_from_atomics(atomics, places) {
            Some(a) => Some(Decimal { atomics: a }),
            None => None,
        }
    }

    pub fn is_zero(&self) -> (b: bool)
        ensures
            b == (self.atomics == 0),
    {
        self.atomics == 0
    }

    /// `numerator / denominator`, truncated; `None` when the denominator is
    /// zero or the ratio is out of range.
    pub fn checked_from_ratio(numerator: u128, denominator: u128) -> (r: Option<Decimal>)
        ensures
            match spec_multiply_ratio(numerator, DECIMAL_FRACTIONAL, denominator) {
                Some(a) => r == Some(Decimal { atomics: a }),
                None => r is None,
            },
    {
        match multiply_ratio(numerator, DECIMAL_FRACTIONAL, denominator) {
            Some(a) => Some(Decimal { atomics: a }),
            None => None,
        }
    }

    /// `numerator / denominator`, truncated.
    pub fn from_ratio(numerator: u128, denominator: u128) -> (d: Decimal)
        requires
            spec_multiply_ratio(numerator, DECIMAL_FRACTIONAL, denominator) is Some,
        ensures
            Some(d.atomics) == spec_multiply_ratio(numerator, DECIMAL_FRACTIONAL, denominator),
    {
        Decimal::checked_from_ratio(numerator, denominator).unwrap()
    }

    /// `self + other`; `None` on overflow.
    pub fn checked_add(self, other: Decimal) -> (r: Option<Decimal>)
        ensures
            self.atomics + other.atomics <= max_u128() ==> r == Some(Decimal { atomics: (self.atomics + other.atomics) as u128 }),
            self.atomics + other.atomics > max_u128() ==> r is None,
    {
        match self.atomics.checked_add(other.atomics) {
            Some(a) => Some(Decimal { atomics: a }),
            None => None,
        }
    }

    /// `self - other`; `None` when `other` is larger.
    pub fn checked_sub(self, other: Decimal) -> (r: Option<Decimal>)
        ensures
            other.atomics <= self.atomics ==> r == Some(Decimal { atomics: (self.atomics - other.atomics) as u128 }),
            other.atomics > self.atomics ==> r is None,
    {
        if other.atomics <= self.atomics {
            Some(Decimal { atomics: self.atomics - other.atomics })
        } else {
            None
        }
    }

    /// `self * other`, truncated; `None` on overflow.
    pub fn checked_mul(self, other: Decimal) -> (r: Option<Decimal>)
        ensures
            match spec_multiply_ratio(self.atomics, other.atomics, DECIMAL_FRACTIONAL) {
                Some(a) => r == Some(Decimal { atomics: a }),
                None => r is None,
            },
    {
        match multiply_ratio(self.atomics, other.atomics, DECIMAL_FRACTIONAL) {
            Some(a) => Some(Decimal { atomics: a }),
            None => None,
        }
    }

    /// `self / other`, truncated; `None` when `other` is zero or on overflow.
    pub fn checked_div(self, other: Decimal) -> (r: Option<Decimal>)
        ensures
            match spec_multiply_ratio(self.atomics, DECIMAL_FRACTIONAL, other.atomics) {
                Some(a) => r == Some(Decimal { atomics: a }),
                None => r is None,
            },
    {
        Decimal::checked_from_ratio(self.atomics, other.atomics)
    }

    /// The amount `amount * self`, truncated; `None` on overflow.
    pub fn checked_mul_amount(self, amount: u128) -> (r: Option<u128>)
        ensures
            r == spec_multiply_ratio(amount, self.atomics, DECIMAL_FRACTIONAL),
    {
        multiply_ratio(amount, self.atomics, DECIMAL_FRACTIONAL)
    }

    /// The amount `amount * self`, truncated.
    pub fn mul_amount(self, amount: u128) -> (r: u128)
        requires
            spec_multiply_ratio(amount, self.atomics, DECIMAL_FRACTIONAL) is Some,
        ensures
            Some(r) == spec_multiply_ratio(amount, self.atomics, DECIMAL_FRACTIONAL),
    {
        multiply_ratio(amount, self.atomics, DECIMAL_FRACTIONAL).unwrap()
    }

    /// `self / other`, truncated.
    pub fn div(self, other: Decimal) -> (r: Decimal)
        requires
            spec_multiply_ratio(self.atomics, DECIMAL_FRACTIONAL, other.atomics) is Some,
        ensures
            Some(r.atomics) == spec_multiply_ratio(self.atomics, DECIMAL_FRACTIONAL, other.atomics),
    {
        self.checked_div(other).unwrap()
    }

    /// The decimal's text, e.g. `0.25` or `3`.
    pub fn to_string(&self) -> (s: String)
        ensures
            s@ == decimal_text(self.atomics),
    {
        display_decimal(self.atomics)
    }
}

/// A point in time, in nanoseconds since the epoch.
#[derive(Clone, Copy, Debug, PartialEq, Eq, Structural)]
pub struct Timestamp {
    pub nanos: u64,
}

/// `t` plus `seconds`, when it fits in a timestamp.
pub open spec fn spec_plus_seconds(t: Timestamp, seconds: u64) -> Option<Timestamp> {
    if seconds * 1_000_000_000 > u64::MAX || t.nanos + seconds * 1_000_000_000 > u64::MAX {
        None
    } else {
        Some(Timestamp { nanos: (t.nanos + seconds * 1_000_000_000) as u64 })
    }
}

impl Timestamp {
    pub fn from_nanos(nanos: u64) -> (t: Timestamp)
        ensures
            t.nanos == nanos,
    {
        Timestamp { nanos }
    }

    pub fn from_seconds(seconds: u64) -> (t: Timestamp)
        requires
            seconds * 1_000_000_000 <= u64::MAX,
        ensures
            t.nanos == seconds * 1_000_000_000,
    {
        Timestamp { nanos: seconds * 1_000_000_000 }
    }

    /// `self` plus `seconds`; `None` when the result is out of range.
    pub fn checked_plus_seconds(&self, seconds: u64) -> (r: Option<Timestamp>)
        ensures
            r == spec_plus_seconds(*self, seconds),
    {
        match seconds.checked_mul(1_000_000_000) {
            Some(n) => match self.nanos.checked_add(n) {
                Some(t) => Some(Timestamp { nanos: t }),
                None => None,
            },
            None => None,
        }
    }

    /// `self` plus `seconds`.
    pub fn plus_seconds(&self, seconds: u64) -> (r: Timestamp)
        requires
            spec_plus_seconds(*self, seconds) is Some,
        ensures
            Some(r) == spec_plus_seconds(*self, seconds),
    {
        self.checked_plus_seconds(seconds).unwrap()
    }
}

} // verus!
