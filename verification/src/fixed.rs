//! Unsigned fixed-point numbers with 18 decimal places.
//!
//! `Price`, `Rate`, `Ratio` and `ExchangeRate` are all the same
//! representation: a `u128` numerator over [`FIXED_ONE`].  Every
//! operation here is exact; the checked forms reject overflow instead of
//! saturating, as the engine's financial paths require.

use crate::arith::{mul_div, mul_div_floor};
use vstd::prelude::*;

verus! {

/// Number of raw units in one whole fixed-point unit (`10^18`).
pub const FIXED_ONE: u128 = 1_000_000_000_000_000_000;

/// Clamp an unbounded integer into the `u128` range from above.
pub open spec fn sat_u128(v: int) -> int {
    if v > u128::MAX {
        u128::MAX as int
    } else {
        v
    }
}

/// An unsigned fixed-point number: `bits / FIXED_ONE`.
#[derive(Clone, Copy, Debug, PartialEq, Eq, Structural)]
pub struct FixedU128 {
    pub bits: u128,
}

/// A stable-currency price per unit of an asset.
pub type Price = FixedU128;

/// A dimensionless rate (a fee or penalty fraction).
pub type Rate = FixedU128;

/// A ratio of two values (collateral value over debt value).
pub type Ratio = FixedU128;

/// Conversion factor from internal debit units to stable-currency debt value.
pub type ExchangeRate = FixedU128;

impl FixedU128 {
    /// Raw value of the rational `n / d` in fixed-point, rounded down.
    pub open spec fn spec_rational(n: int, d: int) -> int {
        mul_div_floor(n, FIXED_ONE as int, d)
    }

    /// Raw value of `self * n`, rounded down to an integer.
    pub open spec fn spec_mul_int(self, n: int) -> int {
        mul_div_floor(self.bits as int, n, FIXED_ONE as int)
    }

    pub fn zero() -> (r: Self)
        ensures
            r.bits == 0,
    {
        FixedU128 { bits: 0 }
    }

    pub fn one() -> (r: Self)
        ensures
            r.bits == FIXED_ONE,
    {
        FixedU128 { bits: FIXED_ONE }
    }

    /// The number of raw units per whole unit.
    pub fn accuracy() -> (r: u128)
        ensures
            r == FIXED_ONE,
    {
        FIXED_ONE
    }

    pub fn from_inner(bits: u128) -> (r: Self)
        ensures
            r.bits == bits,
    {
        FixedU128 { bits }
    }

    pub fn into_inner(self) -> (r: u128)
        ensures
            r == self.bits,
    {
        self.bits
    }

    pub fn is_zero(self) -> (r: bool)
        ensures
            r == (self.bits == 0),
    {
        self.bits == 0
    }

    /// `n / d` rounded down, or `None` when `d` is zero or the result
    /// does not fit.
    pub fn checked_from_rational(n: u128, d: u128) -> (r: Option<Self>)
        ensures
            match r {
                Some(f) => d != 0 && f.bits == Self::spec_rational(n as int, d as int),
                None => d == 0 || Self::spec_rational(n as int, d as int) > u128::MAX,
            },
    {
        if d == 0 {
            return None;
        }
        match mul_div(n, FIXED_ONE, d) {
            Some(bits) => Some(FixedU128 { bits }),
            None => None,
        }
    }

    /// `n / d` rounded down, saturating at the largest representable
    /// value.  The denominator must not be zero.
    pub fn saturating_from_rational(n: u128, d: u128) -> (r: Self)
        requires
            d > 0,
        ensures
            r.bits == sat_u128(Self::spec_rational(n as int, d as int)),
    {
        match mul_div(n, FIXED_ONE, d) {
            Some(bits) => FixedU128 { bits },
            None => FixedU128 { bits: u128::MAX },
        }
    }

    /// `self * n` rounded down to an integer, or `None` on overflow.
    pub fn checked_mul_int(self, n: u128) -> (r: Option<u128>)
        ensures
            match r {
                Some(v) => v == self.spec_mul_int(n as int),
                None => self.spec_mul_int(n as int) > u128::MAX,
            },
    {
        mul_div(self.bits, n, FIXED_ONE)
    }

    /// `self * n` rounded down to an integer, saturating at `u128::MAX`.
    pub fn saturating_mul_int(self, n: u128) -> (r: u128)
        ensures
            r == sat_u128(self.spec_mul_int(n as int)),
    {
        match mul_div(self.bits, n, FIXED_ONE) {
            Some(v) => v,
            None => u128::MAX,
        }
    }

    /// Fixed-point product, or `None` on overflow.
    pub fn checked_mul(self, other: Self) -> (r: Option<Self>)
        ensures
            match r {
                Some(f) => f.bits == mul_div_floor(
                    self.bits as int,
                    other.bits as int,
                    FIXED_ONE as int,
                ),
                None => mul_div_floor(self.bits as int, other.bits as int, FIXED_ONE as int)
                    > u128::MAX,
            },
    {
        match mul_div(self.bits, other.bits, FIXED_ONE) {
            Some(bits) => Some(FixedU128 { bits }),
            None => None,
        }
    }

    /// Fixed-point quotient, or `None` when `other` is zero or the
    /// result does not fit.
    pub fn checked_div(self, other: Self) -> (r: Option<Self>)
        ensures
            match r {
                Some(f) => other.bits != 0 && f.bits == mul_div_floor(
                    self.bits as int,
                    FIXED_ONE as int,
                    other.bits as int,
                ),
                None => other.bits == 0 || mul_div_floor(
                    self.bits as int,
                    FIXED_ONE as int,
                    other.bits as int,
                ) > u128::MAX,
            },
    {
        if other.bits == 0 {
            return None;
        }
        match mul_div(self.bits, FIXED_ONE, other.bits) {
            Some(bits) => Some(FixedU128 { bits }),
            None => None,
        }
    }

    /// Fixed-point sum, or `None` on overflow.
    pub fn checked_add(self, other: Self) -> (r: Option<Self>)
        ensures
            match r {
                Some(f) => f.bits == self.bits + other.bits,
                None => self.bits + other.bits > u128::MAX,
            },
    {
        match self.bits.checked_add(other.bits) {
            Some(bits) => Some(FixedU128 { bits }),
            None => None,
        }
    }

    /// Multiplicative inverse `1 / self`, or `None` when `self` is zero.
    pub fn reciprocal(self) -> (r: Option<Self>)
        ensures
            match r {
                Some(f) => self.bits != 0 && f.bits == mul_div_floor(
                    FIXED_ONE as int,
                    FIXED_ONE as int,
                    self.bits as int,
                ),
                None => self.bits == 0 || mul_div_floor(
                    FIXED_ONE as int,
                    FIXED_ONE as int,
                    self.bits as int,
                ) > u128::MAX,
            },
    {
        Self::one().checked_div(self)
    }

    pub fn lt(self, other: Self) -> (r: bool)
        ensures
            r == (self.bits < other.bits),
    {
        self.bits < other.bits
    }

    pub fn le(self, other: Self) -> (r: bool)
        ensures
            r == (self.bits <= other.bits),
    {
        self.bits <= other.bits
    }

    pub fn ge(self, other: Self) -> (r: bool)
        ensures
            r == (self.bits >= other.bits),
    {
        self.bits >= other.bits
    }

    pub fn gt(self, other: Self) -> (r: bool)
        ensures
            r == (self.bits > other.bits),
    {
        self.bits > other.bits
    }
}

} // verus!
