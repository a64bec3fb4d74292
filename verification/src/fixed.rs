//! Decimal fixed-point numbers with twelve digits after the point.
//!
//! Every physical quantity of the library is a [`Fixed`]. Twelve decimals hold
//! each sensitivity of the sensor, each reading in g, in degrees per second, in
//! metres per second squared and in degrees Celsius without rounding. A hundred and
//! twenty-eight bits reach beyond `1.7e26`; what does not fit saturates there.
use vstd::prelude::*;

verus! {

/// How many units of a [`Fixed`] make one.
pub const ONE: i128 = 1_000_000_000_000;

/// A decimal number, counted in units of a trillionth.
#[derive(Debug, Clone, Copy, PartialEq, Eq, Structural)]
pub struct Fixed {
    pub pico: i128,
}

/// The nearest number to `x` that a [`Fixed`] can hold.
pub open spec fn clamp(x: int) -> int {
    if x < i128::MIN {
        i128::MIN as int
    } else if x > i128::MAX {
        i128::MAX as int
    } else {
        x
    }
}

/// A number without its sign.
pub open spec fn absolute(x: int) -> int {
    if x < 0 {
        -x
    } else {
        x
    }
}

/// The whole number nearest to `num / den`; a tie goes up.
pub open spec fn nearest(num: int, den: int) -> int
    recommends
        den > 0,
{
    (2 * num + den) / (2 * den)
}

/// The three components of a reading, in units of a trillionth.
pub open spec fn values(v: (Fixed, Fixed, Fixed)) -> (int, int, int) {
    (v.0.pico as int, v.1.pico as int, v.2.pico as int)
}

/// The reading with three components given in units of a trillionth.
pub open spec fn reading(v: (int, int, int)) -> (Fixed, Fixed, Fixed) {
    (Fixed { pico: v.0 as i128 }, Fixed { pico: v.1 as i128 }, Fixed { pico: v.2 as i128 })
}

/// A vector whose components are clamped one by one.
pub open spec fn clamp_each(v: (int, int, int)) -> (int, int, int) {
    (clamp(v.0), clamp(v.1), clamp(v.2))
}

/// The component of a vector along one axis: 0 is x, 1 is y, 2 is z.
pub open spec fn along(v: (int, int, int), axis: int) -> int {
    if axis == 0 {
        v.0
    } else if axis == 1 {
        v.1
    } else {
        v.2
    }
}

/// What [`nearest`] means: no whole number is closer to the quotient, and of two
/// that are as close it is the upper one.
pub proof fn law_nearest_is_within_half(num: int, den: int)
    requires
        den > 0,
    ensures
        -den < 2 * (nearest(num, den) * den - num) <= den,
{
    let n2: int = 2 * num + den;
    let d2: int = 2 * den;
    vstd::arithmetic::div_mod::lemma_fundamental_div_mod(n2, d2);
    vstd::arithmetic::div_mod::lemma_mod_bound(n2, d2);
    let q: int = n2 / d2;
    assert(d2 * q == 2 * (q * den)) by (nonlinear_arith)
        requires
            d2 == 2 * den,
    ;
}

/// A quotient without remainder is not changed by rounding.
pub proof fn law_nearest_keeps_exact_quotients(q: int, den: int)
    requires
        den > 0,
    ensures
        nearest(q * den, den) == q,
{
    let n2: int = 2 * (q * den) + den;
    let d2: int = 2 * den;
    assert(n2 == q * d2 + den) by (nonlinear_arith)
        requires
            n2 == 2 * (q * den) + den,
            d2 == 2 * den,
    ;
    vstd::arithmetic::div_mod::lemma_fundamental_div_mod_converse(n2, d2, q, den);
}

/// What divides without remainder can be split off before rounding.
pub proof fn law_nearest_splits_off_whole_parts(k: int, num: int, den: int)
    requires
        den > 0,
    ensures
        nearest(k * den + num, den) == k + nearest(num, den),
{
    let n2: int = 2 * num + den;
    let d2: int = 2 * den;
    assert(2 * (k * den + num) + den == n2 + k * d2) by (nonlinear_arith)
        requires
            n2 == 2 * num + den,
            d2 == 2 * den,
    ;
    vstd::arithmetic::div_mod::lemma_fundamental_div_mod(n2, d2);
    vstd::arithmetic::div_mod::lemma_mod_bound(n2, d2);
    assert(n2 + k * d2 == (k + n2 / d2) * d2 + n2 % d2) by (nonlinear_arith)
        requires
            n2 == d2 * (n2 / d2) + n2 % d2,
    ;
    vstd::arithmetic::div_mod::lemma_fundamental_div_mod_converse(
        n2 + k * d2,
        d2,
        k + n2 / d2,
        n2 % d2,
    );
}

/// Rounding keeps the order of quotients.
pub proof fn law_nearest_keeps_order(a: int, b: int, den: int)
    requires
        den > 0,
        a <= b,
    ensures
        nearest(a, den) <= nearest(b, den),
{
    vstd::arithmetic::div_mod::lemma_div_is_ordered(2 * a + den, 2 * b + den, 2 * den);
}

/// Divides and rounds to the nearest whole number.
pub(crate) fn divide_to_nearest(num: i128, den: i128) -> (r: i128)
    requires
        0 < den <= 0x1000_0000_0000_0000_0000_0000_0000_0000,
        -0x1000_0000_0000_0000_0000_0000_0000_0000 <= num
            <= 0x1000_0000_0000_0000_0000_0000_0000_0000,
    ensures
        r == nearest(num as int, den as int),
{
    let n2: i128 = 2 * num + den;
    let d2: i128 = 2 * den;
    if n2 >= 0 {
        n2 / d2
    } else {
        let m: i128 = -n2;
        let q: i128 = (m + (d2 - 1)) / d2;
        proof {
            let p: int = m + (d2 - 1);
            let rem: int = p % (d2 as int);
            vstd::arithmetic::div_mod::lemma_fundamental_div_mod(p, d2 as int);
            vstd::arithmetic::div_mod::lemma_mod_bound(p, d2 as int);
            assert(n2 as int == (-(q as int)) * (d2 as int) + (d2 - 1 - rem)) by (nonlinear_arith)
                requires
                    p == m + (d2 - 1),
                    n2 == -(m as int),
                    p == (d2 as int) * (q as int) + rem,
            ;
            vstd::arithmetic::div_mod::lemma_fundamental_div_mod_converse(
                n2 as int,
                d2 as int,
                -(q as int),
                d2 - 1 - rem,
            );
            assert(q as int <= p) by (nonlinear_arith)
                requires
                    p == (d2 as int) * (q as int) + rem,
                    rem >= 0,
                    p >= 0,
                    d2 >= 1,
            ;
        }
        -q
    }
}

impl Fixed {
    /// The number zero.
    pub fn zero() -> (r: Fixed)
        ensures
            r.pico == 0,
    {
        Fixed { pico: 0 }
    }

    /// The difference, saturated.
    pub fn minus(self, other: Fixed) -> (r: Fixed)
        ensures
            r.pico == clamp(self.pico - other.pico),
    {
        match self.pico.checked_sub(other.pico) {
            Some(pico) => Fixed { pico },
            None => Fixed {
                pico: if other.pico < 0 {
                    i128::MAX
                } else {
                    i128::MIN
                },
            },
        }
    }

    /// The number with its sign flipped, saturated.
    pub fn negated(self) -> (r: Fixed)
        ensures
            r.pico == clamp(-self.pico),
    {
        if self.pico == i128::MIN {
            Fixed { pico: i128::MAX }
        } else {
            Fixed { pico: -self.pico }
        }
    }

    /// The number without its sign.
    pub(crate) fn magnitude(self) -> (m: u128)
        ensures
            m == absolute(self.pico as int),
    {
        if self.pico >= 0 {
            self.pico as u128
        } else {
            (-(self.pico + 1)) as u128 + 1
        }
    }
}

/// Saturation changes no number that a [`Fixed`] can hold, and takes every other
/// one to the end of the range that it lies beyond.
pub proof fn law_saturation_ends_at_the_range(x: int)
    ensures
        -0x8000_0000_0000_0000_0000_0000_0000_0000 <= x
            <= 0x7FFF_FFFF_FFFF_FFFF_FFFF_FFFF_FFFF_FFFF ==> clamp(x) == x,
        x > 0x7FFF_FFFF_FFFF_FFFF_FFFF_FFFF_FFFF_FFFF ==> clamp(x)
            == 0x7FFF_FFFF_FFFF_FFFF_FFFF_FFFF_FFFF_FFFF,
        x < -0x8000_0000_0000_0000_0000_0000_0000_0000 ==> clamp(x)
            == -0x8000_0000_0000_0000_0000_0000_0000_0000,
{
}

} // verus!
