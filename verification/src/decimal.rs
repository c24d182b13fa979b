//! Non-negative decimal amounts with four fractional digits, kept as a whole
//! number of ten-thousandths. Prices, rates, weights and volumes are held this
//! way, so that every result is exact and the same on every machine.

use vstd::prelude::*;

verus! {

/// Number of units in one whole.
pub const SCALE: u64 = 10000;

/// An amount of `units` ten-thousandths.
#[derive(Clone, Copy, Debug, PartialEq, Eq, Structural)]
pub struct Decimal {
    pub units: u64,
}

/// `x` held to what a `u64` can carry.
pub open spec fn capped(x: int) -> int {
    if x > u64::MAX as int {
        u64::MAX as int
    } else {
        x
    }
}

/// The quotient of `x` by `d` to the nearest whole number, a half going up.
pub open spec fn nearest(x: int, d: int) -> int
    recommends
        x >= 0,
        d > 0,
{
    (2 * x + d) / (2 * d)
}

/// Units of the product of two amounts.
pub open spec fn product_units(a: int, b: int) -> int {
    capped(nearest(a * b, SCALE as int))
}

/// Hundredths in an amount of `units`, to the nearest hundredth.
pub open spec fn hundredths(units: int) -> int {
    nearest(units, 100)
}

/// Units of the largest multiple of six hundredths that is not above the
/// amount rounded to hundredths.
pub open spec fn sixes_units(units: int) -> int {
    capped((hundredths(units) / 6) * 6 * 100)
}

impl Decimal {
    pub open spec fn spec_zero() -> Decimal {
        Decimal { units: 0 }
    }

    /// The amount zero.
    pub fn zero() -> (d: Decimal)
        ensures
            d == Decimal::spec_zero(),
    {
        Decimal { units: 0 }
    }

    /// The amount of `units` ten-thousandths.
    pub fn from_units(units: u64) -> (d: Decimal)
        ensures
            d.units == units,
    {
        Decimal { units }
    }

    /// The whole amount `n`.
    pub fn from_whole(n: u32) -> (d: Decimal)
        ensures
            d.units == n * SCALE,
    {
        Decimal { units: (n as u64) * SCALE }
    }

    pub open spec fn spec_times(self, other: Decimal) -> Decimal {
        Decimal { units: product_units(self.units as int, other.units as int) as u64 }
    }

    /// The product, to the nearest unit, held to the largest amount.
    pub fn times(self, other: Decimal) -> (d: Decimal)
        ensures
            d == self.spec_times(other),
    {
        let a: u128 = self.units as u128;
        let b: u128 = other.units as u128;
        assert(a * b <= 0xFFFF_FFFF_FFFF_FFFF * 0xFFFF_FFFF_FFFF_FFFF) by (nonlinear_arith)
            requires
                a <= 0xFFFF_FFFF_FFFF_FFFF,
                b <= 0xFFFF_FFFF_FFFF_FFFF,
        ;
        let p: u128 = a * b;
        let q: u128 = p / 10000;
        let r: u128 = p % 10000;
        let n: u128 = if r >= 5000 {
            q + 1
        } else {
            q
        };
        assert(n == nearest(p as int, 10000)) by {
            assert(p == q * 10000 + r);
            assert((2 * (q * 10000 + r) + 10000) / 20000 == if r >= 5000 {
                q + 1
            } else {
                q as int
            }) by (nonlinear_arith)
                requires
                    0 <= r < 10000,
                    q >= 0,
            ;
        }
        if n > 0xFFFF_FFFF_FFFF_FFFF {
            Decimal { units: u64::MAX }
        } else {
            Decimal { units: n as u64 }
        }
    }

    pub open spec fn spec_larger(self, other: Decimal) -> Decimal {
        if self.units > other.units {
            self
        } else {
            other
        }
    }

    /// The larger of the two amounts.
    pub fn larger(self, other: Decimal) -> (d: Decimal)
        ensures
            d == self.spec_larger(other),
    {
        if self.units > other.units {
            self
        } else {
            other
        }
    }

    /// The amount in hundredths, to the nearest hundredth.
    pub fn to_hundredths(self) -> (h: u64)
        ensures
            h == hundredths(self.units as int),
    {
        let q: u64 = self.units / 100;
        let r: u64 = self.units % 100;
        assert((2 * (q * 100 + r) + 100) / 200 == if r >= 50 {
            q + 1
        } else {
            q as int
        }) by (nonlinear_arith)
            requires
                0 <= r < 100,
                q >= 0,
        ;
        if r >= 50 {
            q + 1
        } else {
            q
        }
    }

    pub open spec fn spec_round6(self) -> Decimal {
        Decimal { units: sixes_units(self.units as int) as u64 }
    }

    /// The amount rounded to hundredths and then brought down to a multiple of
    /// six hundredths.
    pub fn round6(self) -> (d: Decimal)
        ensures
            d == self.spec_round6(),
    {
        let h: u64 = self.to_hundredths();
        let s: u64 = (h / 6) * 6;
        let wide: u128 = (s as u128) * 100;
        if wide > 0xFFFF_FFFF_FFFF_FFFF {
            Decimal { units: u64::MAX }
        } else {
            Decimal { units: wide as u64 }
        }
    }
}

} // verus!
