//! Numbers of two limbs, for what a [`Fixed`] is too narrow for: products, and the
//! sums of many numbers.
use vstd::prelude::*;

use crate::fixed;
use crate::fixed::Fixed;

verus! {

/// Two to the power of 64.
pub const HALF: u128 = 0x1_0000_0000_0000_0000;

/// Two to the power of 128, the weight of the upper limb.
pub open spec fn limb() -> int {
    0x1_0000_0000_0000_0000_0000_0000_0000_0000int
}

/// An unsigned number of two limbs.
#[derive(Debug, Clone, Copy)]
pub struct Wide {
    pub high: u128,
    pub low: u128,
}

impl Wide {
    /// The number.
    pub open spec fn value(self) -> int {
        self.high * limb() + self.low
    }

    /// The sum with a number that is shifted up by half a limb.
    fn plus_half_shifted(self, n: u128) -> (r: Wide)
        requires
            self.value() + n * HALF < limb() * limb(),
        ensures
            r.value() == self.value() + n * HALF,
    {
        let up: u128 = n / HALF;
        let down: u128 = (n % HALF) * HALF;
        if self.low > u128::MAX - down {
            Wide { high: self.high + up + 1, low: self.low - (u128::MAX - down) - 1 }
        } else {
            Wide { high: self.high + up, low: self.low + down }
        }
    }

    /// The product of two numbers.
    pub(crate) fn product(x: u128, y: u128) -> (r: Wide)
        ensures
            r.value() == x * y,
    {
        let (x1, x0): (u128, u128) = (x / HALF, x % HALF);
        let (y1, y0): (u128, u128) = (y / HALF, y % HALF);
        proof {
            lemma_halves_fit(x1 as int, y1 as int);
            lemma_halves_fit(x1 as int, y0 as int);
            lemma_halves_fit(x0 as int, y1 as int);
            lemma_halves_fit(x0 as int, y0 as int);
            let h: int = HALF as int;
            assert(x * y == x1 * y1 * (h * h) + (x1 * y0) * h + (x0 * y1) * h + x0 * y0)
                by (nonlinear_arith)
                requires
                    x == x1 * h + x0,
                    y == y1 * h + y0,
            ;
            assert(x * y < limb() * limb()) by (nonlinear_arith)
                requires
                    0 <= x < limb(),
                    0 <= y < limb(),
            ;
            assert(h * h == limb());
        }
        Wide { high: x1 * y1, low: x0 * y0 }.plus_half_shifted(x1 * y0).plus_half_shifted(x0 * y1)
    }

    /// The sum.
    pub(crate) fn plus(self, other: Wide) -> (r: Wide)
        requires
            self.value() + other.value() < limb() * limb(),
        ensures
            r.value() == self.value() + other.value(),
    {
        if self.low > u128::MAX - other.low {
            Wide {
                high: self.high + other.high + 1,
                low: self.low - (u128::MAX - other.low) - 1,
            }
        } else {
            Wide { high: self.high + other.high, low: self.low + other.low }
        }
    }

    /// Whether this is the lesser number.
    pub(crate) fn is_less(self, other: Wide) -> (r: bool)
        ensures
            r == (self.value() < other.value()),
    {
        self.high < other.high || (self.high == other.high && self.low < other.low)
    }

    /// Quotient and remainder of the division by [`fixed::ONE`].
    pub(crate) fn divided_by_one(self) -> (r: (Wide, u128))
        ensures
            self.value() == r.0.value() * fixed::ONE + r.1,
            r.1 < fixed::ONE,
            r.0.high <= self.high / (fixed::ONE as u128),
    {
        let one: u128 = fixed::ONE as u128;
        let high: u128 = self.high / one;
        let third: u128 = (self.high % one) * HALF + self.low / HALF;
        let second: u128 = (third % one) * HALF + self.low % HALF;
        let low: u128 = (third / one) * HALF + second / one;
        (Wide { high, low }, second % one)
    }
}

/// The product of two halves of a limb fits in a limb, with room for two halves.
proof fn lemma_halves_fit(x: int, y: int)
    requires
        0 <= x < HALF,
        0 <= y < HALF,
    ensures
        0 <= x * y <= (HALF - 1) * (HALF - 1),
{
    assert(0 <= x * y <= (HALF - 1) * (HALF - 1)) by (nonlinear_arith)
        requires
            0 <= x <= HALF - 1,
            0 <= y <= HALF - 1,
    ;
}

/// A signed decimal number of two limbs, counted in units of a trillionth. No sum
/// of fewer than `2^63` numbers leaves its range.
#[derive(Debug, Clone, Copy, PartialEq, Eq, Structural)]
pub struct Long {
    pub high: i128,
    pub low: u128,
}

/// The nearest number to `x` that a [`Long`] can hold.
pub open spec fn clamp_long(x: int) -> int {
    if x < i128::MIN * limb() {
        i128::MIN * limb()
    } else if x >= (i128::MAX + 1) * limb() {
        (i128::MAX + 1) * limb() - 1
    } else {
        x
    }
}

/// The number as a [`Long`].
pub open spec fn long(x: int) -> Long {
    Long { high: (x / limb()) as i128, low: (x % limb()) as u128 }
}

impl Long {
    /// The number, in units of a trillionth.
    pub open spec fn value(self) -> int {
        self.high * limb() + self.low
    }

    /// The number zero.
    pub fn zero() -> (r: Long)
        ensures
            r.value() == 0,
    {
        Long { high: 0, low: 0 }
    }

    /// A number of one limb.
    pub(crate) fn of(x: Fixed) -> (r: Long)
        ensures
            r.value() == x.pico,
            -1 <= r.high <= 0,
    {
        if x.pico >= 0 {
            Long { high: 0, low: x.pico as u128 }
        } else {
            Long { high: -1, low: u128::MAX - (x.magnitude() - 1) }
        }
    }

    /// The number raised by another, saturated.
    fn raised(self, n: u128) -> (r: Long)
        ensures
            r.value() == clamp_long(self.value() + n),
    {
        if self.low <= u128::MAX - n {
            Long { high: self.high, low: self.low + n }
        } else if self.high < i128::MAX {
            Long { high: self.high + 1, low: self.low - (u128::MAX - n) - 1 }
        } else {
            Long { high: i128::MAX, low: u128::MAX }
        }
    }

    /// The number lowered by another, saturated.
    fn lowered(self, n: u128) -> (r: Long)
        ensures
            r.value() == clamp_long(self.value() - n),
    {
        if self.low >= n {
            Long { high: self.high, low: self.low - n }
        } else if self.high > i128::MIN {
            Long { high: self.high - 1, low: u128::MAX - (n - self.low - 1) }
        } else {
            Long { high: i128::MIN, low: 0 }
        }
    }

    /// The sum, saturated.
    pub fn plus(self, other: Fixed) -> (r: Long)
        ensures
            r.value() == clamp_long(self.value() + other.pico),
    {
        if other.pico >= 0 {
            self.raised(other.magnitude())
        } else {
            self.lowered(other.magnitude())
        }
    }

    /// The difference, saturated.
    pub fn minus(self, other: Fixed) -> (r: Long)
        ensures
            r.value() == clamp_long(self.value() - other.pico),
    {
        if other.pico >= 0 {
            self.lowered(other.magnitude())
        } else {
            self.raised(other.magnitude())
        }
    }

    /// The number raised by one of two limbs.
    pub(crate) fn raised_by(self, n: Wide) -> (r: Long)
        requires
            -1 <= self.high <= 0,
            n.high < limb() / 4,
        ensures
            r.value() == self.value() + n.value(),
    {
        let r = self.raised(n.low);
        Long { high: r.high + n.high as i128, low: r.low }
    }

    /// The number lowered by one of two limbs.
    pub(crate) fn lowered_by(self, n: Wide) -> (r: Long)
        requires
            -1 <= self.high <= 0,
            n.high < limb() / 4,
        ensures
            r.value() == self.value() - n.value(),
    {
        let r = self.lowered(n.low);
        Long { high: r.high - n.high as i128, low: r.low }
    }

    /// Whether this is at least as much as another number.
    pub(crate) fn is_at_least(self, other: Fixed) -> (r: bool)
        ensures
            r == (self.value() >= other.pico),
    {
        let o = Long::of(other);
        self.high > o.high || (self.high == o.high && self.low >= o.low)
    }
}

/// No two [`Long`]s stand for one number.
pub proof fn lemma_long_is_its_value(x: Long)
    ensures
        x == long(x.value()),
{
}

/// A [`Long`] is its upper limb times two to the power of 128 plus its lower limb,
/// and what lies below two to the power of 254 never saturates.
pub proof fn law_long_has_two_limbs(x: Long, n: int)
    ensures
        x.value() == x.high * 0x1_0000_0000_0000_0000_0000_0000_0000_0000int + x.low,
        ({
            let bound = 0x4000_0000_0000_0000_0000_0000_0000_0000
                * 0x1_0000_0000_0000_0000_0000_0000_0000_0000int;
            -bound <= n <= bound ==> clamp_long(n) == n && long(n).value() == n
        }),
{
}

} // verus!
